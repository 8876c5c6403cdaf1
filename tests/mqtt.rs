use rsmqtt::Mqtt;

#[test]
fn listeners_in_order() {
    let mut m = Mqtt::new();
    m.tcp("0.0.0.0:1883")
        .tls("0.0.0.0:8883", "c.pem", "k.pem")
        .ws("0.0.0.0:8083", "/mqtt")
        .wss("0.0.0.0:8084", "/mqtt", "c.pem", "k.pem");
    let l = m.listens();
    assert_eq!(l.len(), 4);
    assert_eq!(l[0].0, "tcp");
    assert_eq!(l[0].1.addr, "0.0.0.0:1883");
    assert_eq!(l[1].0, "tls");
    assert_eq!(l[1].1.cert, "c.pem");
    assert_eq!(l[1].1.key, "k.pem");
    assert_eq!(l[2].0, "ws");
    assert_eq!(l[2].1.path, "/mqtt");
    assert_eq!(l[3].0, "wss");
    assert_eq!(l[3].1.addr, "0.0.0.0:8084");
}

#[test]
fn default_listener() {
    let mut m = Mqtt::new();
    m.ensure_listener();
    assert_eq!(m.listens().len(), 1);
    assert_eq!(m.listens()[0].0, "tcp");
    assert_eq!(m.listens()[0].1.addr, "0.0.0.0:1883");
    let mut n = Mqtt::new();
    n.ws("1.2.3.4:80", "/");
    n.ensure_listener();
    assert_eq!(n.listens().len(), 1);
    assert_eq!(n.listens()[0].0, "ws");
}
