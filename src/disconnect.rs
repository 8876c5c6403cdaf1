use vstd::prelude::*;
use crate::codec::{frame_bytes, get_u8, region, write_frame, MAX_REMAINING_LENGTH};
use crate::error::{result_view, Error, ErrorView, Parsed};
use crate::kinds::{Property, ReasonCode, Version};
use crate::property::{
    all_pairs, lemma_all_pairs_append, lemma_all_pairs_of_pairs, lemma_block_round_trip,
    lemma_last_binary_append, lemma_last_binary_of_pairs, lemma_last_four_append,
    lemma_last_four_of_pairs, lemma_last_text_append, lemma_last_text_of_pairs,
    lemma_pair_entries_shaped, shaped, block_bytes, block_fits, write_block, blob_view,
    entries_bytes, entries_fit, entries_view, last_binary, last_four, last_text,
    lemma_entries_view_drop_first, opt_binary, opt_four, opt_text, pair_entries, push_opt_binary,
    push_opt_four, push_opt_text, push_pairs, read_block, spec_block, write_entries, Entry,
    EntryView, PropOwner, PropValue,
};

verus! {

/// The properties of a v5 DISCONNECT packet.
#[derive(Debug, Clone)]
pub struct DisconnectProperties {
    pub session_expiry_interval: Option<u32>,
    pub server_reference: Option<String>,
    pub reason_string: Option<String>,
    pub user_property: Vec<(String, String)>,
}

/// The mathematical value of a [`DisconnectProperties`].
pub struct DisconnectPropertiesView {
    pub session_expiry_interval: Option<u32>,
    pub server_reference: Option<Seq<char>>,
    pub reason_string: Option<Seq<char>>,
    pub user_property: Seq<(Seq<char>, Seq<char>)>,
}

impl View for DisconnectProperties {
    type V = DisconnectPropertiesView;

    open spec fn view(&self) -> DisconnectPropertiesView {
        DisconnectPropertiesView {
            session_expiry_interval: self.session_expiry_interval,
            server_reference: self.server_reference.deep_view(),
            reason_string: self.reason_string.deep_view(),
            user_property: self.user_property.deep_view(),
        }
    }
}

pub open spec fn disconnect_properties_view(o: Option<DisconnectProperties>) -> Option<DisconnectPropertiesView> {
    match o {
        Some(p) => Some(p@),
        None => None,
    }
}

/// The fields that a list of decoded entries gives: for each single-valued
/// property the last entry, for the repeatable ones every entry in order.
pub open spec fn disconnect_properties_of(es: Seq<EntryView>) -> DisconnectPropertiesView {
    DisconnectPropertiesView {
        session_expiry_interval: last_four(es, Property::SessionExpiryInterval),
        server_reference: last_text(es, Property::ServerReference),
        reason_string: last_text(es, Property::ReasonString),
        user_property: all_pairs(es),
    }
}

/// A property block at the front of `s`, as these fields.
pub open spec fn spec_disconnect_properties(s: Seq<u8>) -> Parsed<Option<DisconnectPropertiesView>> {
    match spec_block(s, PropOwner::Disconnect) {
        Ok((Some(es), n)) => Ok((Some(disconnect_properties_of(es)), n)),
        Ok((None, n)) => Ok((None, n)),
        Err(e) => Err(e),
    }
}

impl DisconnectProperties {
    /// No property set.
    pub open spec fn spec_empty(&self) -> bool {
        self.session_expiry_interval is None && self.server_reference is None && self.reason_string is None && self.user_property@.len() == 0
    }

    pub fn new() -> (r: DisconnectProperties)
        ensures
            r.spec_empty(),
    {
        DisconnectProperties {
            session_expiry_interval: None,
            server_reference: None,
            reason_string: None,
            user_property: Vec::new(),
        }
    }

    fn from_entries(es: Vec<Entry>) -> (r: DisconnectProperties)
        ensures
            r@ == disconnect_properties_of(entries_view(es@)),
    {
        let ghost all = entries_view(es@);
        let mut prop = DisconnectProperties::new();
        let mut rest = es;
        let ghost mut i: int = 0;
        assert(all.take(0) =~= Seq::<EntryView>::empty());
        assert(prop.user_property.deep_view() =~= seq![]);
        while rest.len() > 0
            invariant
                0 <= i <= all.len(),
                entries_view(rest@) == all.skip(i),
                prop@ == disconnect_properties_of(all.take(i)),
            decreases rest@.len(),
        {
            let ghost before = rest@;
            assert(entries_view(before).len() == before.len());
            assert(all.skip(i)[0] == all[i]);
            assert(entries_view(before)[0] == all[i]);
            let (p, v) = rest.remove(0);
            let ghost e = (p, v@);
            assert(e == all[i]);
            let ghost old_prop = prop;
            match (p, v) {
                (Property::SessionExpiryInterval, PropValue::Four(x)) => {
                    prop.session_expiry_interval = Some(x);
                },
                (Property::ServerReference, PropValue::Text(x)) => {
                    prop.server_reference = Some(x);
                },
                (Property::ReasonString, PropValue::Text(x)) => {
                    prop.reason_string = Some(x);
                },
                (Property::UserProperty, PropValue::Pair(key, value)) => {
                    prop.user_property.push((key, value));
                    assert(prop.user_property.deep_view() =~= old_prop.user_property.deep_view().push((e.1->Pair_0, e.1->Pair_1)));
                },
                _ => {},
            }
            proof {
                let t = all.take(i + 1);
                assert(t.drop_last() =~= all.take(i));
                assert(t.last() == e);
                lemma_entries_view_drop_first(before);
                assert(rest@ =~= before.drop_first());
                assert(all.skip(i + 1) =~= all.skip(i).drop_first());
                i = i + 1;
            }
        }
        assert(all.take(i) =~= all);
        prop
    }

    /// Decodes a property block starting at `pos`, read no further than `end`:
    /// `None` for an empty block, and the position just after the block.
    pub fn read(data: &[u8], pos: usize, end: usize) -> (r: Result<(Option<DisconnectProperties>, usize), Error>)
        requires
            pos <= end <= data@.len(),
        ensures
            match r {
                Ok((p, q)) => spec_disconnect_properties(region(data@, pos, end)) == Parsed::<
                    Option<DisconnectPropertiesView>,
                >::Ok((disconnect_properties_view(p), q - pos)) && pos <= q <= end,
                Err(e) => spec_disconnect_properties(region(data@, pos, end)) == Parsed::<
                    Option<DisconnectPropertiesView>,
                >::Err(e@),
            },
    {
        let (es, q) = read_block(data, pos, end, PropOwner::Disconnect)?;
        match es {
            Some(es) => Ok((Some(DisconnectProperties::from_entries(es)), q)),
            None => Ok((None, q)),
        }
    }

    /// The entries these fields stand for, in the order they are written.
    pub open spec fn entries(&self) -> Seq<EntryView> {
        opt_four(Property::SessionExpiryInterval, self.session_expiry_interval)
            + opt_text(Property::ServerReference, self.server_reference.deep_view())
            + opt_text(Property::ReasonString, self.reason_string.deep_view())
            + pair_entries(self.user_property.deep_view())
    }

    fn to_entries(self) -> (r: Vec<Entry>)
        ensures
            entries_view(r@) == self.entries(),
    {
        let ghost me = self;
        let mut es: Vec<Entry> = Vec::new();
        let ghost mut acc: Seq<EntryView> = seq![];
        assert(entries_view(es@) =~= acc);
        let ghost prev = es@;
        push_opt_four(&mut es, Property::SessionExpiryInterval, self.session_expiry_interval);
        proof {
            assert(entries_view(es@) =~= entries_view(prev) + opt_four(Property::SessionExpiryInterval, me.session_expiry_interval));
            acc = acc + opt_four(Property::SessionExpiryInterval, me.session_expiry_interval);
        }
        let ghost prev = es@;
        push_opt_text(&mut es, Property::ServerReference, self.server_reference);
        proof {
            assert(entries_view(es@) =~= entries_view(prev) + opt_text(Property::ServerReference, me.server_reference.deep_view()));
            acc = acc + opt_text(Property::ServerReference, me.server_reference.deep_view());
        }
        let ghost prev = es@;
        push_opt_text(&mut es, Property::ReasonString, self.reason_string);
        proof {
            assert(entries_view(es@) =~= entries_view(prev) + opt_text(Property::ReasonString, me.reason_string.deep_view()));
            acc = acc + opt_text(Property::ReasonString, me.reason_string.deep_view());
        }
        let ghost prev = es@;
        push_pairs(&mut es, self.user_property);
        proof {
            assert(entries_view(es@) =~= entries_view(prev) + pair_entries(me.user_property.deep_view()));
            acc = acc + pair_entries(me.user_property.deep_view());
        }
        es
    }

    /// Appends the entries, without the block's length: fails with
    /// `PayloadTooLong` where a value does not fit its field.
    pub fn write(self, out: &mut Vec<u8>) -> (r: Result<(), Error>)
        ensures
            entries_fit(self.entries()) ==> r is Ok && final(out)@ == old(out)@ + entries_bytes(
                self.entries(),
            ),
            !entries_fit(self.entries()) ==> r is Err && r->Err_0@ == ErrorView::PayloadTooLong,
    {
        let es = self.to_entries();
        write_entries(out, &es)
    }

}

/// The properties of an AUTH packet.
#[derive(Debug, Clone)]
pub struct AuthProperties {
    pub auth_method: Option<String>,
    pub auth_data: Option<Vec<u8>>,
    pub reason_string: Option<String>,
    pub user_property: Vec<(String, String)>,
}

/// The mathematical value of a [`AuthProperties`].
pub struct AuthPropertiesView {
    pub auth_method: Option<Seq<char>>,
    pub auth_data: Option<Seq<u8>>,
    pub reason_string: Option<Seq<char>>,
    pub user_property: Seq<(Seq<char>, Seq<char>)>,
}

impl View for AuthProperties {
    type V = AuthPropertiesView;

    open spec fn view(&self) -> AuthPropertiesView {
        AuthPropertiesView {
            auth_method: self.auth_method.deep_view(),
            auth_data: blob_view(self.auth_data),
            reason_string: self.reason_string.deep_view(),
            user_property: self.user_property.deep_view(),
        }
    }
}

pub open spec fn auth_properties_view(o: Option<AuthProperties>) -> Option<AuthPropertiesView> {
    match o {
        Some(p) => Some(p@),
        None => None,
    }
}

/// The fields that a list of decoded entries gives: for each single-valued
/// property the last entry, for the repeatable ones every entry in order.
pub open spec fn auth_properties_of(es: Seq<EntryView>) -> AuthPropertiesView {
    AuthPropertiesView {
        auth_method: last_text(es, Property::AuthMethod),
        auth_data: last_binary(es, Property::AuthData),
        reason_string: last_text(es, Property::ReasonString),
        user_property: all_pairs(es),
    }
}

/// A property block at the front of `s`, as these fields.
pub open spec fn spec_auth_properties(s: Seq<u8>) -> Parsed<Option<AuthPropertiesView>> {
    match spec_block(s, PropOwner::Auth) {
        Ok((Some(es), n)) => Ok((Some(auth_properties_of(es)), n)),
        Ok((None, n)) => Ok((None, n)),
        Err(e) => Err(e),
    }
}

impl AuthProperties {
    /// No property set.
    pub open spec fn spec_empty(&self) -> bool {
        self.auth_method is None && self.auth_data is None && self.reason_string is None && self.user_property@.len() == 0
    }

    pub fn new() -> (r: AuthProperties)
        ensures
            r.spec_empty(),
    {
        AuthProperties {
            auth_method: None,
            auth_data: None,
            reason_string: None,
            user_property: Vec::new(),
        }
    }

    fn from_entries(es: Vec<Entry>) -> (r: AuthProperties)
        ensures
            r@ == auth_properties_of(entries_view(es@)),
    {
        let ghost all = entries_view(es@);
        let mut prop = AuthProperties::new();
        let mut rest = es;
        let ghost mut i: int = 0;
        assert(all.take(0) =~= Seq::<EntryView>::empty());
        assert(prop.user_property.deep_view() =~= seq![]);
        while rest.len() > 0
            invariant
                0 <= i <= all.len(),
                entries_view(rest@) == all.skip(i),
                prop@ == auth_properties_of(all.take(i)),
            decreases rest@.len(),
        {
            let ghost before = rest@;
            assert(entries_view(before).len() == before.len());
            assert(all.skip(i)[0] == all[i]);
            assert(entries_view(before)[0] == all[i]);
            let (p, v) = rest.remove(0);
            let ghost e = (p, v@);
            assert(e == all[i]);
            let ghost old_prop = prop;
            match (p, v) {
                (Property::AuthMethod, PropValue::Text(x)) => {
                    prop.auth_method = Some(x);
                },
                (Property::AuthData, PropValue::Binary(x)) => {
                    prop.auth_data = Some(x);
                },
                (Property::ReasonString, PropValue::Text(x)) => {
                    prop.reason_string = Some(x);
                },
                (Property::UserProperty, PropValue::Pair(key, value)) => {
                    prop.user_property.push((key, value));
                    assert(prop.user_property.deep_view() =~= old_prop.user_property.deep_view().push((e.1->Pair_0, e.1->Pair_1)));
                },
                _ => {},
            }
            proof {
                let t = all.take(i + 1);
                assert(t.drop_last() =~= all.take(i));
                assert(t.last() == e);
                lemma_entries_view_drop_first(before);
                assert(rest@ =~= before.drop_first());
                assert(all.skip(i + 1) =~= all.skip(i).drop_first());
                i = i + 1;
            }
        }
        assert(all.take(i) =~= all);
        prop
    }

    /// Decodes a property block starting at `pos`, read no further than `end`:
    /// `None` for an empty block, and the position just after the block.
    pub fn unpack(data: &[u8], pos: usize, end: usize) -> (r: Result<(Option<AuthProperties>, usize), Error>)
        requires
            pos <= end <= data@.len(),
        ensures
            match r {
                Ok((p, q)) => spec_auth_properties(region(data@, pos, end)) == Parsed::<
                    Option<AuthPropertiesView>,
                >::Ok((auth_properties_view(p), q - pos)) && pos <= q <= end,
                Err(e) => spec_auth_properties(region(data@, pos, end)) == Parsed::<
                    Option<AuthPropertiesView>,
                >::Err(e@),
            },
    {
        let (es, q) = read_block(data, pos, end, PropOwner::Auth)?;
        match es {
            Some(es) => Ok((Some(AuthProperties::from_entries(es)), q)),
            None => Ok((None, q)),
        }
    }

    /// The entries these fields stand for, in the order they are written.
    pub open spec fn entries(&self) -> Seq<EntryView> {
        opt_text(Property::AuthMethod, self.auth_method.deep_view())
            + opt_binary(Property::AuthData, blob_view(self.auth_data))
            + opt_text(Property::ReasonString, self.reason_string.deep_view())
            + pair_entries(self.user_property.deep_view())
    }

    fn to_entries(self) -> (r: Vec<Entry>)
        ensures
            entries_view(r@) == self.entries(),
    {
        let ghost me = self;
        let mut es: Vec<Entry> = Vec::new();
        let ghost mut acc: Seq<EntryView> = seq![];
        assert(entries_view(es@) =~= acc);
        let ghost prev = es@;
        push_opt_text(&mut es, Property::AuthMethod, self.auth_method);
        proof {
            assert(entries_view(es@) =~= entries_view(prev) + opt_text(Property::AuthMethod, me.auth_method.deep_view()));
            acc = acc + opt_text(Property::AuthMethod, me.auth_method.deep_view());
        }
        let ghost prev = es@;
        push_opt_binary(&mut es, Property::AuthData, self.auth_data);
        proof {
            assert(entries_view(es@) =~= entries_view(prev) + opt_binary(Property::AuthData, blob_view(me.auth_data)));
            acc = acc + opt_binary(Property::AuthData, blob_view(me.auth_data));
        }
        let ghost prev = es@;
        push_opt_text(&mut es, Property::ReasonString, self.reason_string);
        proof {
            assert(entries_view(es@) =~= entries_view(prev) + opt_text(Property::ReasonString, me.reason_string.deep_view()));
            acc = acc + opt_text(Property::ReasonString, me.reason_string.deep_view());
        }
        let ghost prev = es@;
        push_pairs(&mut es, self.user_property);
        proof {
            assert(entries_view(es@) =~= entries_view(prev) + pair_entries(me.user_property.deep_view()));
            acc = acc + pair_entries(me.user_property.deep_view());
        }
        es
    }

    /// Appends the entries, without the block's length: fails with
    /// `PayloadTooLong` where a value does not fit its field.
    pub fn pack(self, out: &mut Vec<u8>) -> (r: Result<(), Error>)
        ensures
            entries_fit(self.entries()) ==> r is Ok && final(out)@ == old(out)@ + entries_bytes(
                self.entries(),
            ),
            !entries_fit(self.entries()) ==> r is Err && r->Err_0@ == ErrorView::PayloadTooLong,
    {
        let es = self.to_entries();
        write_entries(out, &es)
    }

}

/// DISCONNECT: the end of a session. In v3 it has an empty body.
#[derive(Debug, Clone)]
pub struct Disconnect {
    pub version: Version,
    pub reason_code: ReasonCode,
    pub properties: Option<DisconnectProperties>,
}

impl Disconnect {
    pub fn new() -> (r: Disconnect)
        ensures
            r.version == Version::V5,
            r.reason_code == ReasonCode::Success,
            r.properties is None,
    {
        Disconnect { version: Version::V5, reason_code: ReasonCode::Success, properties: None }
    }

    /// The property entries this packet carries.
    pub open spec fn prop_entries(&self) -> Seq<EntryView> {
        match self.properties {
            Some(p) => p.entries(),
            None => seq![],
        }
    }

    /// The body: in v5 the reason code and the property block, else nothing.
    pub open spec fn body(&self) -> Seq<u8> {
        if self.version == Version::V5 {
            seq![self.reason_code.spec_byte()] + block_bytes(self.prop_entries())
        } else {
            seq![]
        }
    }

    pub open spec fn fits(&self) -> bool {
        self.version == Version::V5 ==> block_fits(self.prop_entries()) && self.body().len()
            <= MAX_REMAINING_LENGTH
    }

    /// Appends the whole packet, for the version it was made for; fails with
    /// `PayloadTooLong` where a field does not fit.
    pub fn write(self, out: &mut Vec<u8>) -> (r: Result<(), Error>)
        ensures
            self.fits() ==> r is Ok && final(out)@ == old(out)@ + frame_bytes(0xE0, self.body()),
            !self.fits() ==> r is Err && r->Err_0@ == ErrorView::PayloadTooLong,
    {
        let ghost me = self;
        let mut body: Vec<u8> = Vec::new();
        if self.version == Version::V5 {
            let es = match self.properties {
                Some(p) => p.to_entries(),
                None => Vec::new(),
            };
            assert(entries_view(es@) =~= me.prop_entries());
            body.push(self.reason_code.byte());
            write_block(&mut body, &es)?;
        }
        assert(body@ =~= me.body());
        write_frame(out, 0xE0, body.as_slice())
    }
}

/// AUTH: a step of an extended authentication exchange (v5 only).
#[derive(Debug, Clone)]
pub struct Auth {
    pub reason_code: ReasonCode,
    pub properties: Option<AuthProperties>,
}

impl Auth {
    pub fn new() -> (r: Auth)
        ensures
            r.reason_code == ReasonCode::Success,
            r.properties is None,
    {
        Auth { reason_code: ReasonCode::Success, properties: None }
    }

    /// The property entries this packet carries.
    pub open spec fn prop_entries(&self) -> Seq<EntryView> {
        match self.properties {
            Some(p) => p.entries(),
            None => seq![],
        }
    }

    /// The body: the reason code and the property block.
    pub open spec fn body(&self) -> Seq<u8> {
        seq![self.reason_code.spec_byte()] + block_bytes(self.prop_entries())
    }

    pub open spec fn fits(&self) -> bool {
        block_fits(self.prop_entries()) && self.body().len() <= MAX_REMAINING_LENGTH
    }

    /// Appends the whole packet; fails with `PayloadTooLong` where a field does
    /// not fit.
    pub fn pack(self, out: &mut Vec<u8>) -> (r: Result<(), Error>)
        ensures
            self.fits() ==> r is Ok && final(out)@ == old(out)@ + frame_bytes(0xF0, self.body()),
            !self.fits() ==> r is Err && r->Err_0@ == ErrorView::PayloadTooLong,
    {
        let ghost me = self;
        let es = match self.properties {
            Some(p) => p.to_entries(),
            None => Vec::new(),
        };
        assert(entries_view(es@) =~= me.prop_entries());
        let mut body: Vec<u8> = Vec::new();
        body.push(self.reason_code.byte());
        write_block(&mut body, &es)?;
        assert(body@ =~= me.body());
        write_frame(out, 0xF0, body.as_slice())
    }
}

/// The mathematical value of a [`Disconnect`].
pub struct DisconnectView {
    pub version: Version,
    pub reason_code: ReasonCode,
    pub properties: Option<DisconnectPropertiesView>,
}

impl View for Disconnect {
    type V = DisconnectView;

    open spec fn view(&self) -> DisconnectView {
        DisconnectView {
            version: self.version,
            reason_code: self.reason_code,
            properties: disconnect_properties_view(self.properties),
        }
    }
}

/// A DISCONNECT body. In v5 an empty body means `Success` with no property; otherwise
/// the reason code, then, where the body goes on, the property block. In v3 the
/// body is not read.
pub open spec fn spec_disconnect(s: Seq<u8>, version: Version) -> Result<DisconnectView, ErrorView> {
    if version != Version::V5 || s.len() == 0 {
        Ok(DisconnectView { version, reason_code: ReasonCode::Success, properties: None })
    } else {
        match ReasonCode::spec_from_byte(s[0]) {
            None => Err(ErrorView::InvalidReasonCode(s[0])),
            Some(rc) => if s.len() == 1 {
                Ok(DisconnectView { version, reason_code: rc, properties: None })
            } else {
                match spec_disconnect_properties(s.skip(1)) {
                    Ok((p, _)) => Ok(DisconnectView { version, reason_code: rc, properties: p }),
                    Err(e) => Err(e),
                }
            },
        }
    }
}

impl Disconnect {
    /// Decodes a DISCONNECT body.
    pub fn read(read: &[u8], version: Version) -> (r: Result<Disconnect, Error>)
        ensures
            result_view(r) == spec_disconnect(read@, version),
    {
        let end = read.len();
        let mut packet = Disconnect::new();
        packet.version = version;
        if version != Version::V5 || end == 0 {
            return Ok(packet);
        }
        assert(region(read@, 0, end) =~= read@);
        let (b, p) = get_u8(read, 0, end)?;
        match ReasonCode::from_byte(b) {
            Some(rc) => packet.reason_code = rc,
            None => return Err(Error::InvalidReasonCode(b)),
        }
        if p == end {
            return Ok(packet);
        }
        assert(region(read@, p, end) =~= read@.skip(1));
        let (props, _) = DisconnectProperties::read(read, p, end)?;
        packet.properties = props;
        Ok(packet)
    }
}

/// The mathematical value of a [`Auth`].
pub struct AuthView {
    pub reason_code: ReasonCode,
    pub properties: Option<AuthPropertiesView>,
}

impl View for Auth {
    type V = AuthView;

    open spec fn view(&self) -> AuthView {
        AuthView {
            reason_code: self.reason_code,
            properties: auth_properties_view(self.properties),
        }
    }
}

/// An AUTH body. An empty body means `Success` with no property; otherwise the
/// reason code, then, where the body goes on, the property block.
pub open spec fn spec_auth(s: Seq<u8>) -> Result<AuthView, ErrorView> {
    if s.len() == 0 {
        Ok(AuthView { reason_code: ReasonCode::Success, properties: None })
    } else {
        match ReasonCode::spec_from_byte(s[0]) {
            None => Err(ErrorView::InvalidReasonCode(s[0])),
            Some(rc) => if s.len() == 1 {
                Ok(AuthView { reason_code: rc, properties: None })
            } else {
                match spec_auth_properties(s.skip(1)) {
                    Ok((p, _)) => Ok(AuthView { reason_code: rc, properties: p }),
                    Err(e) => Err(e),
                }
            },
        }
    }
}

impl Auth {
    /// Decodes a AUTH body.
    pub fn unpack(read: &[u8]) -> (r: Result<Auth, Error>)
        ensures
            result_view(r) == spec_auth(read@),
    {
        let end = read.len();
        let mut packet = Auth::new();

        if end == 0 {
            return Ok(packet);
        }
        assert(region(read@, 0, end) =~= read@);
        let (b, p) = get_u8(read, 0, end)?;
        match ReasonCode::from_byte(b) {
            Some(rc) => packet.reason_code = rc,
            None => return Err(Error::InvalidReasonCode(b)),
        }
        if p == end {
            return Ok(packet);
        }
        assert(region(read@, p, end) =~= read@.skip(1));
        let (props, _) = AuthProperties::unpack(read, p, end)?;
        packet.properties = props;
        Ok(packet)
    }
}

/// The fields of DisconnectProperties decode back from the entries they are written as.
pub proof fn lemma_disconnect_properties_round_trip(p: DisconnectProperties)
    ensures
        disconnect_properties_of(p.entries()) == p@,
        forall|i: int| 0 <= i < p.entries().len() ==> shaped(#[trigger] p.entries()[i])
            && PropOwner::Disconnect.spec_permits(p.entries()[i].0),
{
    let ups = p.user_property.deep_view();
    let a0 = opt_four(Property::SessionExpiryInterval, p.session_expiry_interval);
    let a1 = opt_text(Property::ServerReference, p.server_reference.deep_view());
    let a2 = opt_text(Property::ReasonString, p.reason_string.deep_view());
    let b = pair_entries(ups);
    let c0 = a0;
    let c1 = c0 + a1;
    let c2 = c1 + a2;
    assert(p.entries() == c2 + b);
    reveal_with_fuel(all_pairs, 2);
    reveal_with_fuel(last_four, 2);
    reveal_with_fuel(last_text, 2);
    lemma_last_four_append(c0, a1, Property::SessionExpiryInterval);
    lemma_last_four_append(c1, a2, Property::SessionExpiryInterval);
    lemma_last_four_append(c2, b, Property::SessionExpiryInterval);
    lemma_last_four_of_pairs(ups, Property::SessionExpiryInterval);
    lemma_last_text_append(c0, a1, Property::ServerReference);
    lemma_last_text_append(c1, a2, Property::ServerReference);
    lemma_last_text_append(c2, b, Property::ServerReference);
    lemma_last_text_of_pairs(ups, Property::ServerReference);
    lemma_last_text_append(c0, a1, Property::ReasonString);
    lemma_last_text_append(c1, a2, Property::ReasonString);
    lemma_last_text_append(c2, b, Property::ReasonString);
    lemma_last_text_of_pairs(ups, Property::ReasonString);
    lemma_all_pairs_append(c0, a1);
    assert(all_pairs(a1) =~= seq![]);
    lemma_all_pairs_append(c1, a2);
    assert(all_pairs(a2) =~= seq![]);
    assert(all_pairs(a0) =~= seq![]);
    lemma_all_pairs_append(c2, b);
    lemma_all_pairs_of_pairs(ups);
    assert(all_pairs(c2) =~= seq![]);
    assert(all_pairs(c2) + ups =~= ups);
    lemma_pair_entries_shaped(ups);
    assert forall|i: int| 0 <= i < p.entries().len() implies shaped(#[trigger] p.entries()[i])
        && PropOwner::Disconnect.spec_permits(p.entries()[i].0) by {
        if i >= c2.len() {
            assert(p.entries()[i] == b[i - c2.len()]);
        }
    }
}

/// The fields of AuthProperties decode back from the entries they are written as.
pub proof fn lemma_auth_properties_round_trip(p: AuthProperties)
    ensures
        auth_properties_of(p.entries()) == p@,
        forall|i: int| 0 <= i < p.entries().len() ==> shaped(#[trigger] p.entries()[i])
            && PropOwner::Auth.spec_permits(p.entries()[i].0),
{
    let ups = p.user_property.deep_view();
    let a0 = opt_text(Property::AuthMethod, p.auth_method.deep_view());
    let a1 = opt_binary(Property::AuthData, blob_view(p.auth_data));
    let a2 = opt_text(Property::ReasonString, p.reason_string.deep_view());
    let b = pair_entries(ups);
    let c0 = a0;
    let c1 = c0 + a1;
    let c2 = c1 + a2;
    assert(p.entries() == c2 + b);
    reveal_with_fuel(all_pairs, 2);
    reveal_with_fuel(last_binary, 2);
    reveal_with_fuel(last_text, 2);
    lemma_last_text_append(c0, a1, Property::AuthMethod);
    lemma_last_text_append(c1, a2, Property::AuthMethod);
    lemma_last_text_append(c2, b, Property::AuthMethod);
    lemma_last_text_of_pairs(ups, Property::AuthMethod);
    lemma_last_binary_append(c0, a1, Property::AuthData);
    lemma_last_binary_append(c1, a2, Property::AuthData);
    lemma_last_binary_append(c2, b, Property::AuthData);
    lemma_last_binary_of_pairs(ups, Property::AuthData);
    lemma_last_text_append(c0, a1, Property::ReasonString);
    lemma_last_text_append(c1, a2, Property::ReasonString);
    lemma_last_text_append(c2, b, Property::ReasonString);
    lemma_last_text_of_pairs(ups, Property::ReasonString);
    lemma_all_pairs_append(c0, a1);
    assert(all_pairs(a1) =~= seq![]);
    lemma_all_pairs_append(c1, a2);
    assert(all_pairs(a2) =~= seq![]);
    assert(all_pairs(a0) =~= seq![]);
    lemma_all_pairs_append(c2, b);
    lemma_all_pairs_of_pairs(ups);
    assert(all_pairs(c2) =~= seq![]);
    assert(all_pairs(c2) + ups =~= ups);
    lemma_pair_entries_shaped(ups);
    assert forall|i: int| 0 <= i < p.entries().len() implies shaped(#[trigger] p.entries()[i])
        && PropOwner::Auth.spec_permits(p.entries()[i].0) by {
        if i >= c2.len() {
            assert(p.entries()[i] == b[i - c2.len()]);
        }
    }
}

/// A DISCONNECT decodes back from its body. In v3 the body is empty, so only a
/// `Success` with no properties comes back; properties that are set but hold no
/// entry decode as no properties. Those are left out.
pub proof fn lemma_disconnect_round_trip(p: Disconnect)
    requires
        p.fits(),
        p.version == Version::V5 || (p.reason_code == ReasonCode::Success && p.properties is None),
        p.properties matches Some(q) ==> q.entries().len() > 0,
    ensures
        spec_disconnect(p.body(), p.version) == Ok::<DisconnectView, ErrorView>(p@),
{
    if p.version == Version::V5 {
        let es = p.prop_entries();
        let blk = block_bytes(es);
        let s = p.body();
        crate::kinds::lemma_reasoncode_byte_round_trip(p.reason_code);
        assert(s.skip(1) =~= blk + seq![]);
        if let Some(q) = p.properties {
            lemma_disconnect_properties_round_trip(q);
        }
        assert(forall|i: int| 0 <= i < es.len() ==> shaped(#[trigger] es[i])
            && PropOwner::Disconnect.spec_permits(es[i].0));
        lemma_block_round_trip(es, PropOwner::Disconnect, seq![]);
        assert(blk.len() >= 1);
    }
}

/// An AUTH decodes back from its body. Properties that are set but hold no
/// entry decode as no properties; they are left out.
pub proof fn lemma_auth_round_trip(p: Auth)
    requires
        p.fits(),
        p.properties matches Some(q) ==> q.entries().len() > 0,
    ensures
        spec_auth(p.body()) == Ok::<AuthView, ErrorView>(p@),
{
    let es = p.prop_entries();
    let blk = block_bytes(es);
    let s = p.body();
    crate::kinds::lemma_reasoncode_byte_round_trip(p.reason_code);
    assert(s.skip(1) =~= blk + seq![]);
    if let Some(q) = p.properties {
        lemma_auth_properties_round_trip(q);
    }
    assert(forall|i: int| 0 <= i < es.len() ==> shaped(#[trigger] es[i])
        && PropOwner::Auth.spec_permits(es[i].0));
    lemma_block_round_trip(es, PropOwner::Auth, seq![]);
    assert(blk.len() >= 1);
}

/// Encoding the DISCONNECT that its body decodes to gives that body back.
pub proof fn lemma_disconnect_bytes_round_trip(p: Disconnect, r: Disconnect)
    requires
        p.fits(),
        p.version == Version::V5 || (p.reason_code == ReasonCode::Success && p.properties is None),
        p.properties matches Some(q) ==> q.entries().len() > 0,
        spec_disconnect(p.body(), p.version) == Ok::<DisconnectView, ErrorView>(r@),
    ensures
        r.body() == p.body(),
{
    lemma_disconnect_round_trip(p);
    if let (Some(a), Some(b)) = (r.properties, p.properties) {
        assert(a@ == b@);
        assert(a.entries() == b.entries());
    }
}

/// Encoding the AUTH that its body decodes to gives that body back.
pub proof fn lemma_auth_bytes_round_trip(p: Auth, r: Auth)
    requires
        p.fits(),
        p.properties matches Some(q) ==> q.entries().len() > 0,
        spec_auth(p.body()) == Ok::<AuthView, ErrorView>(r@),
    ensures
        r.body() == p.body(),
{
    lemma_auth_round_trip(p);
    if let (Some(a), Some(b)) = (r.properties, p.properties) {
        assert(a@ == b@);
        assert(a.entries() == b.entries());
    }
}

} // verus!
