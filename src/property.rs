use vstd::prelude::*;
use vstd::utf8::encode_utf8;
use crate::codec::{
    binary_bytes, get_u16, get_u32, get_u8, length_at, put_u16, put_u32, read_binary, read_pair,
    read_string, region, spec_binary, spec_length, spec_pair, spec_string, spec_u16, spec_u32,
    spec_u8, string_bytes, string_fits, u16_bytes, u32_bytes, varint_bytes, write_binary,
    write_length, write_string, MAX_REMAINING_LENGTH,
};
use crate::error::{Error, ErrorView, Parsed};
use crate::kinds::{Property, ReasonCode, Shape, Version};

verus! {

/// The value of one v5 property, in the shape its identifier calls for.
#[derive(Debug, Clone)]
pub enum PropValue {
    Byte(u8),
    Two(u16),
    Four(u32),
    Var(u32),
    Text(String),
    Binary(Vec<u8>),
    Pair(String, String),
}

/// The mathematical value of a [`PropValue`].
pub enum PropValueView {
    Byte(u8),
    Two(u16),
    Four(u32),
    Var(u32),
    Text(Seq<char>),
    Binary(Seq<u8>),
    Pair(Seq<char>, Seq<char>),
}

impl View for PropValue {
    type V = PropValueView;

    open spec fn view(&self) -> PropValueView {
        match self {
            PropValue::Byte(v) => PropValueView::Byte(*v),
            PropValue::Two(v) => PropValueView::Two(*v),
            PropValue::Four(v) => PropValueView::Four(*v),
            PropValue::Var(v) => PropValueView::Var(*v),
            PropValue::Text(s) => PropValueView::Text(s@),
            PropValue::Binary(b) => PropValueView::Binary(b@),
            PropValue::Pair(k, v) => PropValueView::Pair(k@, v@),
        }
    }
}

/// One property as it stands in a property block: identifier and value.
pub type Entry = (Property, PropValue);

pub type EntryView = (Property, PropValueView);

pub open spec fn entry_view(e: Entry) -> EntryView {
    (e.0, e.1@)
}

pub open spec fn entries_view(es: Seq<Entry>) -> Seq<EntryView> {
    es.map_values(|e: Entry| entry_view(e))
}

/// The packets whose property blocks this server decodes.
#[derive(Debug, Clone, Copy, PartialEq, Eq, Structural)]
pub enum PropOwner {
    Connect,
    Will,
    Publish,
    /// PUBACK, PUBREC, PUBREL, PUBCOMP, SUBACK and UNSUBACK.
    Ack,
    Subscribe,
    Unsubscribe,
    Disconnect,
    Auth,
    ConnAck,
}

impl PropOwner {
    /// Whether a property may stand in this owner's block.
    pub open spec fn spec_permits(self, p: Property) -> bool {
        match self {
            PropOwner::Connect => p == Property::SessionExpiryInterval || p
                == Property::ReceiveMaximum || p == Property::MaxPacketSize || p
                == Property::TopicAliasMax || p == Property::RequestResponseInfo || p
                == Property::RequestProblemInfo || p == Property::UserProperty || p
                == Property::AuthMethod || p == Property::AuthData,
            PropOwner::Will => p == Property::ContentType || p == Property::ResponseTopic || p
                == Property::CorrelationData || p == Property::WillDelayInterval || p
                == Property::MessageExpiryInterval || p == Property::PayloadFormatIndicator || p
                == Property::UserProperty,
            PropOwner::Publish => p == Property::PayloadFormatIndicator || p
                == Property::MessageExpiryInterval || p == Property::ContentType || p
                == Property::ResponseTopic || p == Property::CorrelationData || p
                == Property::SubIdentifier || p == Property::TopicAlias || p
                == Property::UserProperty,
            PropOwner::Ack => p == Property::ReasonString || p == Property::UserProperty,
            PropOwner::Subscribe => p == Property::SubIdentifier || p == Property::UserProperty,
            PropOwner::Unsubscribe => p == Property::SubIdentifier || p == Property::UserProperty,
            PropOwner::Disconnect => p == Property::SessionExpiryInterval || p
                == Property::ServerReference || p == Property::ReasonString || p
                == Property::UserProperty,
            PropOwner::Auth => p == Property::AuthMethod || p == Property::AuthData || p
                == Property::ReasonString || p == Property::UserProperty,
            PropOwner::ConnAck => p == Property::SessionExpiryInterval || p
                == Property::AssignedClientIdentifier || p == Property::ServerKeepAlive || p
                == Property::AuthMethod || p == Property::AuthData || p == Property::ResponseInfo
                || p == Property::ServerReference || p == Property::ReasonString || p
                == Property::ReceiveMaximum || p == Property::TopicAliasMax || p
                == Property::MaximumQoS || p == Property::RetainAvailable || p
                == Property::UserProperty || p == Property::MaxPacketSize || p
                == Property::WildcardSubAvailable || p == Property::SubIdentifierAvailable || p
                == Property::SharedSubAvailable,
        }
    }

    pub fn permits(&self, p: Property) -> (r: bool)
        ensures
            r == self.spec_permits(p),
    {
        match self {
            PropOwner::Connect => match p {
                Property::SessionExpiryInterval | Property::ReceiveMaximum
                | Property::MaxPacketSize | Property::TopicAliasMax
                | Property::RequestResponseInfo | Property::RequestProblemInfo
                | Property::UserProperty | Property::AuthMethod | Property::AuthData => true,
                _ => false,
            },
            PropOwner::Will => match p {
                Property::ContentType | Property::ResponseTopic | Property::CorrelationData
                | Property::WillDelayInterval | Property::MessageExpiryInterval
                | Property::PayloadFormatIndicator | Property::UserProperty => true,
                _ => false,
            },
            PropOwner::Publish => match p {
                Property::PayloadFormatIndicator | Property::MessageExpiryInterval
                | Property::ContentType | Property::ResponseTopic | Property::CorrelationData
                | Property::SubIdentifier | Property::TopicAlias | Property::UserProperty => true,
                _ => false,
            },
            PropOwner::Ack => match p {
                Property::ReasonString | Property::UserProperty => true,
                _ => false,
            },
            PropOwner::Subscribe | PropOwner::Unsubscribe => match p {
                Property::SubIdentifier | Property::UserProperty => true,
                _ => false,
            },
            PropOwner::Disconnect => match p {
                Property::SessionExpiryInterval | Property::ServerReference
                | Property::ReasonString | Property::UserProperty => true,
                _ => false,
            },
            PropOwner::Auth => match p {
                Property::AuthMethod | Property::AuthData | Property::ReasonString
                | Property::UserProperty => true,
                _ => false,
            },
            PropOwner::ConnAck => match p {
                Property::SessionExpiryInterval | Property::AssignedClientIdentifier
                | Property::ServerKeepAlive | Property::AuthMethod | Property::AuthData
                | Property::ResponseInfo | Property::ServerReference | Property::ReasonString
                | Property::ReceiveMaximum | Property::TopicAliasMax | Property::MaximumQoS
                | Property::RetainAvailable | Property::UserProperty | Property::MaxPacketSize
                | Property::WildcardSubAvailable | Property::SubIdentifierAvailable
                | Property::SharedSubAvailable => true,
                _ => false,
            },
        }
    }
}

/// A value of the given shape at the front of `s`.
pub open spec fn spec_value(shape: Shape, s: Seq<u8>) -> Parsed<PropValueView> {
    match shape {
        Shape::Byte => match spec_u8(s) {
            Ok((v, n)) => Ok((PropValueView::Byte(v), n)),
            Err(e) => Err(e),
        },
        Shape::Two => match spec_u16(s) {
            Ok((v, n)) => Ok((PropValueView::Two(v), n)),
            Err(e) => Err(e),
        },
        Shape::Four => match spec_u32(s) {
            Ok((v, n)) => Ok((PropValueView::Four(v), n)),
            Err(e) => Err(e),
        },
        Shape::Var => match spec_length(s) {
            Ok((v, n)) => Ok((PropValueView::Var(v as u32), n)),
            Err(e) => Err(e),
        },
        Shape::Text => match spec_string(s) {
            Ok((v, n)) => Ok((PropValueView::Text(v), n)),
            Err(e) => Err(e),
        },
        Shape::Binary => match spec_binary(s) {
            Ok((v, n)) => Ok((PropValueView::Binary(v), n)),
            Err(e) => Err(e),
        },
        Shape::Pair => match spec_pair(s) {
            Ok(((k, v), n)) => Ok((PropValueView::Pair(k, v), n)),
            Err(e) => Err(e),
        },
    }
}

/// What a value takes from `s` never runs past its end.
pub proof fn lemma_value_within(shape: Shape, s: Seq<u8>)
    ensures
        spec_value(shape, s) matches Ok((_, n)) ==> 0 < n <= s.len(),
{
    reveal_with_fuel(crate::codec::spec_varint, 5);
    if shape == Shape::Pair {
        if let Ok((_, n)) = spec_string(s) {
            assert(n <= s.len());
            assert(s.skip(n).len() == s.len() - n);
        }
    }
}

/// The property entries that fill `s`, for a block owned by `owner`: each an
/// identifier octet and a value of the shape that the identifier calls for.
/// An identifier outside the table, or not permitted to `owner`, fails with
/// `InvalidProperty`.
pub open spec fn spec_entries(s: Seq<u8>, owner: PropOwner) -> Result<Seq<EntryView>, ErrorView>
    decreases s.len(),
    via entries_decreases
{
    if s.len() == 0 {
        Ok(seq![])
    } else {
        let id = s[0];
        match Property::spec_from_byte(id) {
            None => Err(ErrorView::InvalidProperty(id)),
            Some(p) => if !owner.spec_permits(p) {
                Err(ErrorView::InvalidProperty(id))
            } else {
                match spec_value(p.spec_shape(), s.drop_first()) {
                    Err(e) => Err(e),
                    Ok((v, n)) => match spec_entries(s.skip(1 + n), owner) {
                        Err(e) => Err(e),
                        Ok(rest) => Ok(seq![(p, v)] + rest),
                    },
                }
            },
        }
    }
}

#[via_fn]
proof fn entries_decreases(s: Seq<u8>, owner: PropOwner) {
    if s.len() != 0 {
        if let Some(p) = Property::spec_from_byte(s[0]) {
            lemma_value_within(p.spec_shape(), s.drop_first());
        }
    }
}

/// A property block at the front of `s`: its length as a variable-length
/// integer, then that many bytes of entries. An empty block gives `None`.
pub open spec fn spec_block(s: Seq<u8>, owner: PropOwner) -> Parsed<Option<Seq<EntryView>>> {
    match spec_length(s) {
        Err(e) => Err(e),
        Ok((len, n)) => if len == 0 {
            Ok((None, n))
        } else if n + len > s.len() {
            Err(ErrorView::PacketTooShort)
        } else {
            match spec_entries(s.subrange(n, n + len), owner) {
                Ok(es) => Ok((Some(es), n + len)),
                Err(e) => Err(e),
            }
        },
    }
}

fn read_value(shape: Shape, data: &[u8], pos: usize, end: usize) -> (r: Result<(PropValue, usize), Error>)
    requires
        pos <= end <= data@.len(),
    ensures
        tracks_value(r, spec_value(shape, region(data@, pos, end)), pos),
{
    match shape {
        Shape::Byte => {
            let (v, p) = get_u8(data, pos, end)?;
            Ok((PropValue::Byte(v), p))
        },
        Shape::Two => {
            let (v, p) = get_u16(data, pos, end)?;
            Ok((PropValue::Two(v), p))
        },
        Shape::Four => {
            let (v, p) = get_u32(data, pos, end)?;
            Ok((PropValue::Four(v), p))
        },
        Shape::Var => {
            let (v, p) = length_at(data, pos, end)?;
            Ok((PropValue::Var(v as u32), p))
        },
        Shape::Text => {
            let (v, p) = read_string(data, pos, end)?;
            Ok((PropValue::Text(v), p))
        },
        Shape::Binary => {
            let (v, p) = read_binary(data, pos, end)?;
            Ok((PropValue::Binary(v), p))
        },
        Shape::Pair => {
            let ((k, v), p) = read_pair(data, pos, end)?;
            Ok((PropValue::Pair(k, v), p))
        },
    }
}

pub open spec fn tracks_value(
    r: Result<(PropValue, usize), Error>,
    p: Parsed<PropValueView>,
    pos: usize,
) -> bool {
    match r {
        Ok((v, q)) => p is Ok && v@ == p->Ok_0.0 && q == pos + p->Ok_0.1,
        Err(e) => p is Err && e@ == p->Err_0,
    }
}

/// Decodes the entries that fill `[pos, end)` and appends them to `out`.
fn read_entries(data: &[u8], pos: usize, end: usize, owner: PropOwner, out: &mut Vec<Entry>) -> (r:
    Result<(), Error>)
    requires
        pos <= end <= data@.len(),
    ensures
        match spec_entries(region(data@, pos, end), owner) {
            Ok(es) => r is Ok && entries_view(final(out)@) == entries_view(old(out)@) + es,
            Err(e) => r is Err && r->Err_0@ == e,
        },
    decreases end - pos,
{
    let ghost s = region(data@, pos, end);
    if pos == end {
        assert(entries_view(old(out)@) + seq![] =~= entries_view(old(out)@));
        return Ok(());
    }
    let id = data[pos];
    let p = match Property::from_byte(id) {
        Some(p) => p,
        None => return Err(Error::InvalidProperty(id)),
    };
    if !owner.permits(p) {
        return Err(Error::InvalidProperty(id));
    }
    assert(s.drop_first() =~= region(data@, (pos + 1) as usize, end));
    let (v, q) = read_value(p.shape(), data, pos + 1, end)?;
    proof {
        lemma_value_within(p.spec_shape(), s.drop_first());
        assert(s.skip(q - pos) =~= region(data@, q, end));
    }
    let ghost e = (p, v@);
    out.push((p, v));
    let ghost mid = out@;
    assert(entries_view(mid) =~= entries_view(old(out)@).push(e));
    let r = read_entries(data, q, end, owner, out);
    proof {
        if let Ok(rest) = spec_entries(region(data@, q, end), owner) {
            assert(entries_view(final(out)@) =~= entries_view(old(out)@) + (seq![e] + rest));
        }
    }
    r
}

/// Decodes a property block starting at `pos`, read no further than `end`.
pub fn read_block(data: &[u8], pos: usize, end: usize, owner: PropOwner) -> (r: Result<
    (Option<Vec<Entry>>, usize),
    Error,
>)
    requires
        pos <= end <= data@.len(),
    ensures
        match r {
            Ok((es, q)) => pos <= q <= end && (spec_block(region(data@, pos, end), owner) matches Ok((v, n)) && q
                == pos + n && match es {
                Some(es) => v == Some(entries_view(es@)),
                None => v is None,
            }),
            Err(e) => spec_block(region(data@, pos, end), owner) matches Err(f) && e@ == f,
        },
{
    let (len, p) = length_at(data, pos, end)?;
    if len == 0 {
        return Ok((None, p));
    }
    if end - p < len {
        return Err(Error::PacketTooShort);
    }
    let mut es: Vec<Entry> = Vec::new();
    proof {
        assert(region(data@, pos, end).subrange(p - pos, p - pos + len) =~= region(
            data@,
            p,
            (p + len) as usize,
        ));
    }
    read_entries(data, p, p + len, owner, &mut es)?;
    assert(entries_view(es@) =~= entries_view(Seq::<Entry>::empty()) + spec_entries(
        region(data@, p, (p + len) as usize),
        owner,
    )->Ok_0);
    Ok((Some(es), p + len))
}

/// Whether a value can be written: strings and blobs of at most 65,535 bytes,
/// variable-length integers of at most 268,435,455.
pub open spec fn value_fits(v: PropValueView) -> bool {
    match v {
        PropValueView::Var(x) => x <= MAX_REMAINING_LENGTH,
        PropValueView::Text(c) => string_fits(c),
        PropValueView::Binary(b) => b.len() <= 65535,
        PropValueView::Pair(k, w) => string_fits(k) && string_fits(w),
        _ => true,
    }
}

/// The bytes of a value on the wire.
pub open spec fn value_bytes(v: PropValueView) -> Seq<u8> {
    match v {
        PropValueView::Byte(b) => seq![b],
        PropValueView::Two(x) => u16_bytes(x),
        PropValueView::Four(x) => u32_bytes(x),
        PropValueView::Var(x) => varint_bytes(x as nat),
        PropValueView::Text(c) => string_bytes(c),
        PropValueView::Binary(b) => binary_bytes(b),
        PropValueView::Pair(k, w) => string_bytes(k) + string_bytes(w),
    }
}

/// The shape of a value.
pub open spec fn shape_of(v: PropValueView) -> Shape {
    match v {
        PropValueView::Byte(_) => Shape::Byte,
        PropValueView::Two(_) => Shape::Two,
        PropValueView::Four(_) => Shape::Four,
        PropValueView::Var(_) => Shape::Var,
        PropValueView::Text(_) => Shape::Text,
        PropValueView::Binary(_) => Shape::Binary,
        PropValueView::Pair(_, _) => Shape::Pair,
    }
}

/// The value has the shape that its identifier calls for.
pub open spec fn shaped(e: EntryView) -> bool {
    shape_of(e.1) == e.0.spec_shape()
}

pub open spec fn entries_fit(es: Seq<EntryView>) -> bool {
    forall|i: int| 0 <= i < es.len() ==> value_fits(#[trigger] es[i].1)
}

pub open spec fn entry_bytes(e: EntryView) -> Seq<u8> {
    seq![e.0.spec_byte()] + value_bytes(e.1)
}

/// The entries one after another.
pub open spec fn entries_bytes(es: Seq<EntryView>) -> Seq<u8>
    decreases es.len(),
{
    if es.len() == 0 {
        seq![]
    } else {
        entries_bytes(es.drop_last()) + entry_bytes(es.last())
    }
}

/// A property block: the length of the entries, then the entries.
pub open spec fn block_bytes(es: Seq<EntryView>) -> Seq<u8> {
    varint_bytes(entries_bytes(es).len()) + entries_bytes(es)
}

pub open spec fn block_fits(es: Seq<EntryView>) -> bool {
    entries_fit(es) && entries_bytes(es).len() <= MAX_REMAINING_LENGTH
}

fn write_value(out: &mut Vec<u8>, v: &PropValue) -> (r: Result<(), Error>)
    ensures
        value_fits(v@) ==> r is Ok && final(out)@ == old(out)@ + value_bytes(v@),
        !value_fits(v@) ==> r is Err && r->Err_0@ == ErrorView::PayloadTooLong,
{
    match v {
        PropValue::Byte(b) => {
            out.push(*b);
            Ok(())
        },
        PropValue::Two(x) => {
            put_u16(out, *x);
            Ok(())
        },
        PropValue::Four(x) => {
            put_u32(out, *x);
            Ok(())
        },
        PropValue::Var(x) => write_length(out, *x as usize),
        PropValue::Text(c) => write_string(out, c.as_str()),
        PropValue::Binary(b) => write_binary(out, b.as_slice()),
        PropValue::Pair(k, w) => {
            write_string(out, k.as_str())?;
            let r = write_string(out, w.as_str());
            assert(final(out)@ =~= old(out)@ + value_bytes(v@) || r is Err);
            r
        },
    }
}

/// Appends the entries of `es` in order.
pub fn write_entries(out: &mut Vec<u8>, es: &Vec<Entry>) -> (r: Result<(), Error>)
    ensures
        entries_fit(entries_view(es@)) ==> r is Ok && final(out)@ == old(out)@ + entries_bytes(
            entries_view(es@),
        ),
        !entries_fit(entries_view(es@)) ==> r is Err && r->Err_0@ == ErrorView::PayloadTooLong,
{
    let ghost v = entries_view(es@);
    let mut i: usize = 0;
    while i < es.len()
        invariant
            i <= es@.len(),
            v == entries_view(es@),
            out@ == old(out)@ + entries_bytes(v.take(i as int)),
            forall|j: int| 0 <= j < i ==> value_fits(#[trigger] v[j].1),
        decreases es@.len() - i,
    {
        let (p, val) = &es[i];
        assert(v[i as int] == entry_view(es@[i as int]));
        out.push(p.byte());
        let r = write_value(out, val);
        if r.is_err() {
            assert(!value_fits(v[i as int].1));
            return r;
        }
        assert(v.take(i + 1).drop_last() =~= v.take(i as int));
        assert(out@ =~= old(out)@ + entries_bytes(v.take(i + 1)));
        i = i + 1;
    }
    assert(v.take(i as int) =~= v);
    Ok(())
}

/// Appends a property block holding `es`: its length, then the entries.
pub fn write_block(out: &mut Vec<u8>, es: &Vec<Entry>) -> (r: Result<(), Error>)
    ensures
        block_fits(entries_view(es@)) ==> r is Ok && final(out)@ == old(out)@ + block_bytes(
            entries_view(es@),
        ),
        !block_fits(entries_view(es@)) ==> r is Err && r->Err_0@ == ErrorView::PayloadTooLong,
{
    let mut body: Vec<u8> = Vec::new();
    write_entries(&mut body, es)?;
    assert(body@ =~= entries_bytes(entries_view(es@)));
    write_length(out, body.len())?;
    crate::codec::put_slice(out, body.as_slice());
    assert(final(out)@ =~= old(out)@ + block_bytes(entries_view(es@)));
    Ok(())
}

pub proof fn lemma_entries_bytes_front(es: Seq<EntryView>)
    requires
        es.len() > 0,
    ensures
        entries_bytes(es) == entry_bytes(es[0]) + entries_bytes(es.drop_first()),
    decreases es.len(),
{
    if es.len() == 1 {
        assert(es.drop_last() =~= seq![]);
        assert(es.drop_first() =~= seq![]);
        assert(entries_bytes(es.drop_last()) =~= seq![]);
        assert(entries_bytes(es.drop_first()) =~= seq![]);
        assert(es.last() == es[0]);
        assert(entries_bytes(es) =~= entry_bytes(es[0]));
    } else {
        lemma_entries_bytes_front(es.drop_last());
        assert(es.drop_last().drop_first() =~= es.drop_first().drop_last());
        assert(es.drop_first().last() == es.last());
        assert(entries_bytes(es) =~= entry_bytes(es[0]) + entries_bytes(es.drop_first()));
    }
}

proof fn lemma_byte_value_round_trip(b: u8, rest: Seq<u8>)
    requires
        true,
    ensures
        spec_value(Shape::Byte, value_bytes(PropValueView::Byte(b)) + rest) == Parsed::<PropValueView>::Ok(
            (PropValueView::Byte(b), value_bytes(PropValueView::Byte(b)).len() as int),
        ),
{
    let v = PropValueView::Byte(b);
    assert((value_bytes(v) + rest)[0] == b);
}

proof fn lemma_two_value_round_trip(x: u16, rest: Seq<u8>)
    requires
        true,
    ensures
        spec_value(Shape::Two, value_bytes(PropValueView::Two(x)) + rest) == Parsed::<PropValueView>::Ok(
            (PropValueView::Two(x), value_bytes(PropValueView::Two(x)).len() as int),
        ),
{
    let v = PropValueView::Two(x);
    crate::codec::lemma_u16_round_trip(x, rest);
}

proof fn lemma_four_value_round_trip(x: u32, rest: Seq<u8>)
    requires
        true,
    ensures
        spec_value(Shape::Four, value_bytes(PropValueView::Four(x)) + rest) == Parsed::<PropValueView>::Ok(
            (PropValueView::Four(x), value_bytes(PropValueView::Four(x)).len() as int),
        ),
{
    let v = PropValueView::Four(x);
    crate::codec::lemma_u32_round_trip(x, rest);
}

proof fn lemma_var_value_round_trip(x: u32, rest: Seq<u8>)
    requires
        x <= MAX_REMAINING_LENGTH,
    ensures
        spec_value(Shape::Var, value_bytes(PropValueView::Var(x)) + rest) == Parsed::<PropValueView>::Ok(
            (PropValueView::Var(x), value_bytes(PropValueView::Var(x)).len() as int),
        ),
{
    let v = PropValueView::Var(x);
    lemma_length_round_trip(x as nat, rest);
}

proof fn lemma_text_value_round_trip(c: Seq<char>, rest: Seq<u8>)
    requires
        string_fits(c),
    ensures
        spec_value(Shape::Text, value_bytes(PropValueView::Text(c)) + rest) == Parsed::<PropValueView>::Ok(
            (PropValueView::Text(c), value_bytes(PropValueView::Text(c)).len() as int),
        ),
{
    let v = PropValueView::Text(c);
    crate::codec::lemma_string_round_trip(c, rest);
}

proof fn lemma_binary_value_round_trip(b: Seq<u8>, rest: Seq<u8>)
    requires
        b.len() <= 65535,
    ensures
        spec_value(Shape::Binary, value_bytes(PropValueView::Binary(b)) + rest) == Parsed::<
            PropValueView,
        >::Ok((PropValueView::Binary(b), value_bytes(PropValueView::Binary(b)).len() as int)),
{
    let bytes = binary_bytes(b);
    assert(value_bytes(PropValueView::Binary(b)) == bytes);
    crate::codec::lemma_binary_round_trip(b, rest);
    assert(bytes.len() == 2 + b.len());
    let r = spec_binary(bytes + rest);
    assert(r == Parsed::<Seq<u8>>::Ok((b, bytes.len() as int)));
}

proof fn lemma_pair_value_round_trip(k: Seq<char>, w: Seq<char>, rest: Seq<u8>)
    requires
        string_fits(k) && string_fits(w),
    ensures
        spec_value(Shape::Pair, value_bytes(PropValueView::Pair(k, w)) + rest) == Parsed::<PropValueView>::Ok(
            (PropValueView::Pair(k, w), value_bytes(PropValueView::Pair(k, w)).len() as int),
        ),
{
    let v = PropValueView::Pair(k, w);
    lemma_pair_round_trip(k, w, rest);
}

pub proof fn lemma_value_round_trip(v: PropValueView, rest: Seq<u8>)
    requires
        value_fits(v),
    ensures
        spec_value(shape_of(v), value_bytes(v) + rest) == Parsed::<PropValueView>::Ok(
            (v, value_bytes(v).len() as int),
        ),
{
    match v {
        PropValueView::Byte(b) => lemma_byte_value_round_trip(b, rest),
        PropValueView::Two(x) => lemma_two_value_round_trip(x, rest),
        PropValueView::Four(x) => lemma_four_value_round_trip(x, rest),
        PropValueView::Var(x) => lemma_var_value_round_trip(x, rest),
        PropValueView::Text(c) => lemma_text_value_round_trip(c, rest),
        PropValueView::Binary(b) => lemma_binary_value_round_trip(b, rest),
        PropValueView::Pair(k, w) => lemma_pair_value_round_trip(k, w, rest),
    }
}

/// Every remaining length up to 268,435,455 is written in one to four bytes and
/// decodes back from them, whatever follows.
pub proof fn lemma_length_round_trip(x: nat, rest: Seq<u8>)
    requires
        x <= MAX_REMAINING_LENGTH,
    ensures
        spec_length(varint_bytes(x) + rest) == Parsed::<nat>::Ok((x, varint_bytes(x).len() as int)),
        1 <= varint_bytes(x).len() <= 4,
{
    crate::codec::lemma_pow128_bounds();
    crate::codec::lemma_varint_round_trip(x, 4, rest);
}

pub proof fn lemma_pair_round_trip(k: Seq<char>, w: Seq<char>, rest: Seq<u8>)
    requires
        string_fits(k),
        string_fits(w),
    ensures
        spec_pair(string_bytes(k) + string_bytes(w) + rest) == Parsed::<
            (Seq<char>, Seq<char>),
        >::Ok(((k, w), (string_bytes(k) + string_bytes(w)).len() as int)),
{
    let s = string_bytes(k) + string_bytes(w) + rest;
    crate::codec::lemma_string_round_trip(k, string_bytes(w) + rest);
    assert(s =~= string_bytes(k) + (string_bytes(w) + rest));
    let n = 2 + encode_utf8(k).len() as int;
    assert(s.skip(n) =~= string_bytes(w) + rest);
    crate::codec::lemma_string_round_trip(w, rest);
}

/// Entries that fit, have their shapes and are permitted to `owner` decode back
/// from their bytes.
pub proof fn lemma_entries_round_trip(es: Seq<EntryView>, owner: PropOwner)
    requires
        entries_fit(es),
        forall|i: int| 0 <= i < es.len() ==> shaped(#[trigger] es[i]),
        forall|i: int| 0 <= i < es.len() ==> owner.spec_permits(#[trigger] es[i].0),
    ensures
        spec_entries(entries_bytes(es), owner) == Result::<Seq<EntryView>, ErrorView>::Ok(es),
    decreases es.len(),
{
    if es.len() == 0 {
        assert(entries_bytes(es) =~= seq![]);
        assert(es =~= seq![]);
    } else {
        lemma_entries_bytes_front(es);
        let e = es[0];
        let tail = es.drop_first();
        let s = entries_bytes(es);
        crate::kinds::lemma_property_byte_round_trip(e.0);
        assert(s[0] == e.0.spec_byte());
        assert(s.drop_first() =~= value_bytes(e.1) + entries_bytes(tail));
        assert(value_fits(es[0].1));
        assert(shaped(es[0]));
        lemma_value_round_trip(e.1, entries_bytes(tail));
        assert(s.skip(1 + value_bytes(e.1).len() as int) =~= entries_bytes(tail));
        assert forall|i: int| 0 <= i < tail.len() implies value_fits(#[trigger] tail[i].1) by {
            assert(tail[i] == es[i + 1]);
        }
        assert forall|i: int| 0 <= i < tail.len() implies shaped(#[trigger] tail[i]) by {
            assert(tail[i] == es[i + 1]);
        }
        assert forall|i: int| 0 <= i < tail.len() implies owner.spec_permits(#[trigger] tail[i].0) by {
            assert(tail[i] == es[i + 1]);
        }
        lemma_entries_round_trip(tail, owner);
        assert(seq![e] + tail =~= es);
    }
}

/// A property block decodes back from its bytes, whatever follows it: to `None`
/// when it holds no entry.
pub proof fn lemma_block_round_trip(es: Seq<EntryView>, owner: PropOwner, rest: Seq<u8>)
    requires
        block_fits(es),
        forall|i: int| 0 <= i < es.len() ==> shaped(#[trigger] es[i]),
        forall|i: int| 0 <= i < es.len() ==> owner.spec_permits(#[trigger] es[i].0),
    ensures
        spec_block(block_bytes(es) + rest, owner) == Parsed::<Option<Seq<EntryView>>>::Ok(
            (if es.len() == 0 { None } else { Some(es) }, block_bytes(es).len() as int),
        ),
{
    let body = entries_bytes(es);
    let s = block_bytes(es) + rest;
    crate::codec::lemma_pow128_bounds();
    crate::codec::lemma_varint_round_trip(body.len(), 4, body + rest);
    assert(s =~= varint_bytes(body.len()) + (body + rest));
    lemma_entries_round_trip(es, owner);
    let n = varint_bytes(body.len()).len() as int;
    assert(s.subrange(n, n + body.len()) =~= body);
    if es.len() == 0 {
        assert(body =~= seq![]);
    } else {
        lemma_entries_bytes_front(es);
    }
}

/// The value of the last `Byte` entry for `p`: a later entry overrides an earlier one.
pub open spec fn last_byte(es: Seq<EntryView>, p: Property) -> Option<u8>
    decreases es.len(),
{
    if es.len() == 0 {
        None
    } else if es.last().0 == p && es.last().1 is Byte {
        Some(es.last().1->Byte_0)
    } else {
        last_byte(es.drop_last(), p)
    }
}

/// The entry for `p` that an optional field gives.
pub open spec fn opt_byte(p: Property, o: Option<u8>) -> Seq<EntryView> {
    match o {
        Some(x) => seq![(p, PropValueView::Byte(x))],
        None => seq![],
    }
}

/// The value of the last `Two` entry for `p`: a later entry overrides an earlier one.
pub open spec fn last_two(es: Seq<EntryView>, p: Property) -> Option<u16>
    decreases es.len(),
{
    if es.len() == 0 {
        None
    } else if es.last().0 == p && es.last().1 is Two {
        Some(es.last().1->Two_0)
    } else {
        last_two(es.drop_last(), p)
    }
}

/// The entry for `p` that an optional field gives.
pub open spec fn opt_two(p: Property, o: Option<u16>) -> Seq<EntryView> {
    match o {
        Some(x) => seq![(p, PropValueView::Two(x))],
        None => seq![],
    }
}

/// The value of the last `Four` entry for `p`: a later entry overrides an earlier one.
pub open spec fn last_four(es: Seq<EntryView>, p: Property) -> Option<u32>
    decreases es.len(),
{
    if es.len() == 0 {
        None
    } else if es.last().0 == p && es.last().1 is Four {
        Some(es.last().1->Four_0)
    } else {
        last_four(es.drop_last(), p)
    }
}

/// The entry for `p` that an optional field gives.
pub open spec fn opt_four(p: Property, o: Option<u32>) -> Seq<EntryView> {
    match o {
        Some(x) => seq![(p, PropValueView::Four(x))],
        None => seq![],
    }
}

/// The value of the last `Text` entry for `p`: a later entry overrides an earlier one.
pub open spec fn last_text(es: Seq<EntryView>, p: Property) -> Option<Seq<char>>
    decreases es.len(),
{
    if es.len() == 0 {
        None
    } else if es.last().0 == p && es.last().1 is Text {
        Some(es.last().1->Text_0)
    } else {
        last_text(es.drop_last(), p)
    }
}

/// The entry for `p` that an optional field gives.
pub open spec fn opt_text(p: Property, o: Option<Seq<char>>) -> Seq<EntryView> {
    match o {
        Some(x) => seq![(p, PropValueView::Text(x))],
        None => seq![],
    }
}

/// The value of the last `Binary` entry for `p`: a later entry overrides an earlier one.
pub open spec fn last_binary(es: Seq<EntryView>, p: Property) -> Option<Seq<u8>>
    decreases es.len(),
{
    if es.len() == 0 {
        None
    } else if es.last().0 == p && es.last().1 is Binary {
        Some(es.last().1->Binary_0)
    } else {
        last_binary(es.drop_last(), p)
    }
}

/// The entry for `p` that an optional field gives.
pub open spec fn opt_binary(p: Property, o: Option<Seq<u8>>) -> Seq<EntryView> {
    match o {
        Some(x) => seq![(p, PropValueView::Binary(x))],
        None => seq![],
    }
}

/// The values of all variable-length entries for `p`, in order.
pub open spec fn all_vars(es: Seq<EntryView>, p: Property) -> Seq<u32>
    decreases es.len(),
{
    if es.len() == 0 {
        seq![]
    } else if es.last().0 == p && es.last().1 is Var {
        all_vars(es.drop_last(), p).push(es.last().1->Var_0)
    } else {
        all_vars(es.drop_last(), p)
    }
}

/// The key-value pairs of all user property entries, in order.
pub open spec fn all_pairs(es: Seq<EntryView>) -> Seq<(Seq<char>, Seq<char>)>
    decreases es.len(),
{
    if es.len() == 0 {
        seq![]
    } else if es.last().0 == Property::UserProperty && es.last().1 is Pair {
        all_pairs(es.drop_last()).push((es.last().1->Pair_0, es.last().1->Pair_1))
    } else {
        all_pairs(es.drop_last())
    }
}

/// The user property entries for a list of pairs.
pub open spec fn pair_entries(ps: Seq<(Seq<char>, Seq<char>)>) -> Seq<EntryView> {
    ps.map_values(|kv: (Seq<char>, Seq<char>)| (Property::UserProperty, PropValueView::Pair(kv.0, kv.1)))
}

/// The entries for a list of subscription identifiers.
pub open spec fn var_entries(p: Property, vs: Seq<u32>) -> Seq<EntryView> {
    vs.map_values(|v: u32| (p, PropValueView::Var(v)))
}

/// Moves the user properties into entries, in order.
pub fn push_pairs(out: &mut Vec<Entry>, pairs: Vec<(String, String)>)
    ensures
        entries_view(final(out)@) == entries_view(old(out)@) + pair_entries(pairs.deep_view()),
{
    let ghost all = pairs.deep_view();
    let mut rest = pairs;
    let ghost mut i: int = 0;
    while rest.len() > 0
        invariant
            0 <= i <= all.len(),
            rest.deep_view() == all.skip(i),
            entries_view(out@) == entries_view(old(out)@) + pair_entries(all.take(i)),
        decreases rest@.len(),
    {
        let ghost first = rest.deep_view()[0];
        assert(rest.deep_view().len() == rest@.len());
        assert(all.skip(i)[0] == all[i]);
        assert(first == all[i]);
        assert(first == (rest@[0].0@, rest@[0].1@));
        let ghost before = rest@;
        let ghost before_deep = rest.deep_view();
        let (k, v) = rest.remove(0);
        let ghost e = (Property::UserProperty, PropValueView::Pair(k@, v@));
        let ghost prev = out@;
        out.push((Property::UserProperty, PropValue::Pair(k, v)));
        proof {
            assert(entries_view(out@) =~= entries_view(prev).push(e));
            assert forall|j: int| 0 <= j < rest@.len() implies rest.deep_view()[j] == all.skip(
                i + 1,
            )[j] by {
                assert(rest@[j] == before[j + 1]);
                assert(before_deep[j + 1] == before[j + 1].deep_view());
                assert(all.skip(i)[j + 1] == all.skip(i + 1)[j]);
            }
            assert(all.take(i + 1) =~= all.take(i).push(first));
            assert(pair_entries(all.take(i + 1)) =~= pair_entries(all.take(i)).push(e));
            assert(entries_view(out@) =~= entries_view(old(out)@) + pair_entries(all.take(i + 1)));
            assert(rest@ =~= before.subrange(1, before.len() as int));
            assert(rest.deep_view() =~= all.skip(i + 1));
            i = i + 1;
        }
    }
    assert(all.take(i) =~= all);
}

pub proof fn lemma_entries_view_drop_first(es: Seq<Entry>)
    requires
        es.len() > 0,
    ensures
        entries_view(es.drop_first()) == entries_view(es).drop_first(),
{
    assert(entries_view(es.drop_first()) =~= entries_view(es).drop_first());
}

/// The bytes of an optional blob.
pub open spec fn blob_view(o: Option<Vec<u8>>) -> Option<Seq<u8>> {
    match o {
        Some(b) => Some(b@),
        None => None,
    }
}

/// Moves an optional field into an entry, if it is set.
pub fn push_opt_byte(out: &mut Vec<Entry>, p: Property, o: Option<u8>)
    ensures
        entries_view(final(out)@) == entries_view(old(out)@) + opt_byte(p, o),
{
    if let Some(x) = o {
        out.push((p, PropValue::Byte(x)));
    }
    assert(entries_view(final(out)@) =~= entries_view(old(out)@) + opt_byte(p, o));
}

/// Moves an optional field into an entry, if it is set.
pub fn push_opt_two(out: &mut Vec<Entry>, p: Property, o: Option<u16>)
    ensures
        entries_view(final(out)@) == entries_view(old(out)@) + opt_two(p, o),
{
    if let Some(x) = o {
        out.push((p, PropValue::Two(x)));
    }
    assert(entries_view(final(out)@) =~= entries_view(old(out)@) + opt_two(p, o));
}

/// Moves an optional field into an entry, if it is set.
pub fn push_opt_four(out: &mut Vec<Entry>, p: Property, o: Option<u32>)
    ensures
        entries_view(final(out)@) == entries_view(old(out)@) + opt_four(p, o),
{
    if let Some(x) = o {
        out.push((p, PropValue::Four(x)));
    }
    assert(entries_view(final(out)@) =~= entries_view(old(out)@) + opt_four(p, o));
}

/// Moves an optional field into an entry, if it is set.
pub fn push_opt_text(out: &mut Vec<Entry>, p: Property, o: Option<String>)
    ensures
        entries_view(final(out)@) == entries_view(old(out)@) + opt_text(p, o.deep_view()),
{
    if let Some(x) = o {
        out.push((p, PropValue::Text(x)));
    }
    assert(entries_view(final(out)@) =~= entries_view(old(out)@) + opt_text(p, o.deep_view()));
}

/// Moves an optional field into an entry, if it is set.
pub fn push_opt_binary(out: &mut Vec<Entry>, p: Property, o: Option<Vec<u8>>)
    ensures
        entries_view(final(out)@) == entries_view(old(out)@) + opt_binary(p, blob_view(o)),
{
    if let Some(x) = o {
        out.push((p, PropValue::Binary(x)));
    }
    assert(entries_view(final(out)@) =~= entries_view(old(out)@) + opt_binary(p, blob_view(o)));
}

/// The bytes of a list of reason codes.
pub open spec fn codes_bytes(codes: Seq<ReasonCode>) -> Seq<u8> {
    codes.map_values(|rc: ReasonCode| rc.spec_byte())
}

/// Appends one byte per reason code, in order.
pub fn put_codes(out: &mut Vec<u8>, codes: &Vec<ReasonCode>)
    ensures
        final(out)@ == old(out)@ + codes_bytes(codes@),
{
    let mut i: usize = 0;
    while i < codes.len()
        invariant
            i <= codes@.len(),
            out@ == old(out)@ + codes_bytes(codes@.take(i as int)),
        decreases codes@.len() - i,
    {
        out.push(codes[i].byte());
        assert(codes_bytes(codes@.take(i + 1)) =~= codes_bytes(codes@.take(i as int)).push(
            codes@[i as int].spec_byte(),
        ));
        i = i + 1;
    }
    assert(codes@.take(i as int) =~= codes@);
}

/// The property block of a v5 packet; nothing in earlier versions.
pub open spec fn v5_block(es: Seq<EntryView>, version: Version) -> Seq<u8> {
    if version == Version::V5 {
        block_bytes(es)
    } else {
        seq![]
    }
}

/// Where a v5 property block is written, it fits.
pub open spec fn v5_block_fits(es: Seq<EntryView>, version: Version) -> bool {
    version == Version::V5 ==> block_fits(es)
}

/// Appends the property block in v5, nothing in earlier versions.
pub fn write_v5_block(out: &mut Vec<u8>, es: &Vec<Entry>, version: Version) -> (r: Result<(), Error>)
    ensures
        v5_block_fits(entries_view(es@), version) ==> r is Ok && final(out)@ == old(out)@
            + v5_block(entries_view(es@), version),
        !v5_block_fits(entries_view(es@), version) ==> r is Err && r->Err_0@
            == ErrorView::PayloadTooLong,
{
    if version == Version::V5 {
        write_block(out, es)
    } else {
        assert(final(out)@ =~= old(out)@ + v5_block(entries_view(es@), version));
        Ok(())
    }
}

pub proof fn lemma_last_byte_append(a: Seq<EntryView>, b: Seq<EntryView>, p: Property)
    ensures
        last_byte(a + b, p) == (if last_byte(b, p) is Some {
            last_byte(b, p)
        } else {
            last_byte(a, p)
        }),
    decreases b.len(),
{
    if b.len() == 0 {
        assert(a + b =~= a);
    } else {
        assert((a + b).drop_last() =~= a + b.drop_last());
        lemma_last_byte_append(a, b.drop_last(), p);
    }
}

pub proof fn lemma_last_byte_of_pairs(ps: Seq<(Seq<char>, Seq<char>)>, p: Property)
    ensures
        last_byte(pair_entries(ps), p) is None,
    decreases ps.len(),
{
    if ps.len() > 0 {
        assert(pair_entries(ps).drop_last() =~= pair_entries(ps.drop_last()));
        lemma_last_byte_of_pairs(ps.drop_last(), p);
    }
}

pub proof fn lemma_last_two_append(a: Seq<EntryView>, b: Seq<EntryView>, p: Property)
    ensures
        last_two(a + b, p) == (if last_two(b, p) is Some {
            last_two(b, p)
        } else {
            last_two(a, p)
        }),
    decreases b.len(),
{
    if b.len() == 0 {
        assert(a + b =~= a);
    } else {
        assert((a + b).drop_last() =~= a + b.drop_last());
        lemma_last_two_append(a, b.drop_last(), p);
    }
}

pub proof fn lemma_last_two_of_pairs(ps: Seq<(Seq<char>, Seq<char>)>, p: Property)
    ensures
        last_two(pair_entries(ps), p) is None,
    decreases ps.len(),
{
    if ps.len() > 0 {
        assert(pair_entries(ps).drop_last() =~= pair_entries(ps.drop_last()));
        lemma_last_two_of_pairs(ps.drop_last(), p);
    }
}

pub proof fn lemma_last_four_append(a: Seq<EntryView>, b: Seq<EntryView>, p: Property)
    ensures
        last_four(a + b, p) == (if last_four(b, p) is Some {
            last_four(b, p)
        } else {
            last_four(a, p)
        }),
    decreases b.len(),
{
    if b.len() == 0 {
        assert(a + b =~= a);
    } else {
        assert((a + b).drop_last() =~= a + b.drop_last());
        lemma_last_four_append(a, b.drop_last(), p);
    }
}

pub proof fn lemma_last_four_of_pairs(ps: Seq<(Seq<char>, Seq<char>)>, p: Property)
    ensures
        last_four(pair_entries(ps), p) is None,
    decreases ps.len(),
{
    if ps.len() > 0 {
        assert(pair_entries(ps).drop_last() =~= pair_entries(ps.drop_last()));
        lemma_last_four_of_pairs(ps.drop_last(), p);
    }
}

pub proof fn lemma_last_text_append(a: Seq<EntryView>, b: Seq<EntryView>, p: Property)
    ensures
        last_text(a + b, p) == (if last_text(b, p) is Some {
            last_text(b, p)
        } else {
            last_text(a, p)
        }),
    decreases b.len(),
{
    if b.len() == 0 {
        assert(a + b =~= a);
    } else {
        assert((a + b).drop_last() =~= a + b.drop_last());
        lemma_last_text_append(a, b.drop_last(), p);
    }
}

pub proof fn lemma_last_text_of_pairs(ps: Seq<(Seq<char>, Seq<char>)>, p: Property)
    ensures
        last_text(pair_entries(ps), p) is None,
    decreases ps.len(),
{
    if ps.len() > 0 {
        assert(pair_entries(ps).drop_last() =~= pair_entries(ps.drop_last()));
        lemma_last_text_of_pairs(ps.drop_last(), p);
    }
}

pub proof fn lemma_last_binary_append(a: Seq<EntryView>, b: Seq<EntryView>, p: Property)
    ensures
        last_binary(a + b, p) == (if last_binary(b, p) is Some {
            last_binary(b, p)
        } else {
            last_binary(a, p)
        }),
    decreases b.len(),
{
    if b.len() == 0 {
        assert(a + b =~= a);
    } else {
        assert((a + b).drop_last() =~= a + b.drop_last());
        lemma_last_binary_append(a, b.drop_last(), p);
    }
}

pub proof fn lemma_last_binary_of_pairs(ps: Seq<(Seq<char>, Seq<char>)>, p: Property)
    ensures
        last_binary(pair_entries(ps), p) is None,
    decreases ps.len(),
{
    if ps.len() > 0 {
        assert(pair_entries(ps).drop_last() =~= pair_entries(ps.drop_last()));
        lemma_last_binary_of_pairs(ps.drop_last(), p);
    }
}

pub proof fn lemma_all_pairs_append(a: Seq<EntryView>, b: Seq<EntryView>)
    ensures
        all_pairs(a + b) == all_pairs(a) + all_pairs(b),
    decreases b.len(),
{
    if b.len() == 0 {
        assert(a + b =~= a);
        assert(all_pairs(a) + all_pairs(b) =~= all_pairs(a));
    } else {
        assert((a + b).drop_last() =~= a + b.drop_last());
        lemma_all_pairs_append(a, b.drop_last());
        assert(all_pairs(a + b) =~= all_pairs(a) + all_pairs(b));
    }
}

pub proof fn lemma_all_pairs_of_pairs(ps: Seq<(Seq<char>, Seq<char>)>)
    ensures
        all_pairs(pair_entries(ps)) == ps,
    decreases ps.len(),
{
    if ps.len() == 0 {
        assert(all_pairs(pair_entries(ps)) =~= ps);
    } else {
        assert(pair_entries(ps).drop_last() =~= pair_entries(ps.drop_last()));
        lemma_all_pairs_of_pairs(ps.drop_last());
        assert(all_pairs(pair_entries(ps)) =~= ps);
    }
}

/// Every entry of a list of user properties has its shape and is a user property.
pub proof fn lemma_pair_entries_shaped(ps: Seq<(Seq<char>, Seq<char>)>)
    ensures
        forall|i: int| 0 <= i < pair_entries(ps).len() ==> shaped(#[trigger] pair_entries(ps)[i])
            && pair_entries(ps)[i].0 == Property::UserProperty,
{
}

/// Moves repeatable integer values into entries for `p`, in order.
pub fn push_vars(out: &mut Vec<Entry>, p: Property, vs: Vec<u32>)
    ensures
        entries_view(final(out)@) == entries_view(old(out)@) + var_entries(p, vs@),
{
    let mut i: usize = 0;
    while i < vs.len()
        invariant
            i <= vs@.len(),
            entries_view(out@) == entries_view(old(out)@) + var_entries(p, vs@.take(i as int)),
        decreases vs@.len() - i,
    {
        let ghost prev = out@;
        out.push((p, PropValue::Var(vs[i])));
        assert(entries_view(out@) =~= entries_view(prev).push((p, PropValueView::Var(vs@[i as int]))));
        assert(var_entries(p, vs@.take(i + 1)) =~= var_entries(p, vs@.take(i as int)).push(
            (p, PropValueView::Var(vs@[i as int])),
        ));
        i = i + 1;
    }
    assert(vs@.take(i as int) =~= vs@);
}

pub proof fn lemma_all_vars_append(a: Seq<EntryView>, b: Seq<EntryView>, p: Property)
    ensures
        all_vars(a + b, p) == all_vars(a, p) + all_vars(b, p),
    decreases b.len(),
{
    if b.len() == 0 {
        assert(a + b =~= a);
        assert(all_vars(a, p) + all_vars(b, p) =~= all_vars(a, p));
    } else {
        assert((a + b).drop_last() =~= a + b.drop_last());
        lemma_all_vars_append(a, b.drop_last(), p);
        assert(all_vars(a + b, p) =~= all_vars(a, p) + all_vars(b, p));
    }
}

pub proof fn lemma_all_vars_of_vars(vs: Seq<u32>, p: Property)
    ensures
        all_vars(var_entries(p, vs), p) == vs,
    decreases vs.len(),
{
    if vs.len() == 0 {
        assert(all_vars(var_entries(p, vs), p) =~= vs);
    } else {
        assert(var_entries(p, vs).drop_last() =~= var_entries(p, vs.drop_last()));
        lemma_all_vars_of_vars(vs.drop_last(), p);
        assert(all_vars(var_entries(p, vs), p) =~= vs);
    }
}

pub proof fn lemma_all_vars_of_pairs(ps: Seq<(Seq<char>, Seq<char>)>, p: Property)
    ensures
        all_vars(pair_entries(ps), p) == Seq::<u32>::empty(),
    decreases ps.len(),
{
    if ps.len() > 0 {
        assert(pair_entries(ps).drop_last() =~= pair_entries(ps.drop_last()));
        lemma_all_vars_of_pairs(ps.drop_last(), p);
    }
}

pub proof fn lemma_all_pairs_of_vars(vs: Seq<u32>, p: Property)
    ensures
        all_pairs(var_entries(p, vs)) == Seq::<(Seq<char>, Seq<char>)>::empty(),
    decreases vs.len(),
{
    if vs.len() > 0 {
        assert(var_entries(p, vs).drop_last() =~= var_entries(p, vs.drop_last()));
        lemma_all_pairs_of_vars(vs.drop_last(), p);
    }
}

/// Every entry of a list of integer values for `p` has its shape where `p`
/// calls for a variable-length integer.
pub proof fn lemma_var_entries_shaped(vs: Seq<u32>, p: Property)
    requires
        p.spec_shape() == Shape::Var,
    ensures
        forall|i: int| 0 <= i < var_entries(p, vs).len() ==> shaped(#[trigger] var_entries(p, vs)[i])
            && var_entries(p, vs)[i].0 == p,
{
}

pub proof fn lemma_last_byte_of_vars(vs: Seq<u32>, q: Property, p: Property)
    ensures
        last_byte(var_entries(q, vs), p) is None,
    decreases vs.len(),
{
    if vs.len() > 0 {
        assert(var_entries(q, vs).drop_last() =~= var_entries(q, vs.drop_last()));
        lemma_last_byte_of_vars(vs.drop_last(), q, p);
    }
}

pub proof fn lemma_last_two_of_vars(vs: Seq<u32>, q: Property, p: Property)
    ensures
        last_two(var_entries(q, vs), p) is None,
    decreases vs.len(),
{
    if vs.len() > 0 {
        assert(var_entries(q, vs).drop_last() =~= var_entries(q, vs.drop_last()));
        lemma_last_two_of_vars(vs.drop_last(), q, p);
    }
}

pub proof fn lemma_last_four_of_vars(vs: Seq<u32>, q: Property, p: Property)
    ensures
        last_four(var_entries(q, vs), p) is None,
    decreases vs.len(),
{
    if vs.len() > 0 {
        assert(var_entries(q, vs).drop_last() =~= var_entries(q, vs.drop_last()));
        lemma_last_four_of_vars(vs.drop_last(), q, p);
    }
}

pub proof fn lemma_last_text_of_vars(vs: Seq<u32>, q: Property, p: Property)
    ensures
        last_text(var_entries(q, vs), p) is None,
    decreases vs.len(),
{
    if vs.len() > 0 {
        assert(var_entries(q, vs).drop_last() =~= var_entries(q, vs.drop_last()));
        lemma_last_text_of_vars(vs.drop_last(), q, p);
    }
}

pub proof fn lemma_last_binary_of_vars(vs: Seq<u32>, q: Property, p: Property)
    ensures
        last_binary(var_entries(q, vs), p) is None,
    decreases vs.len(),
{
    if vs.len() > 0 {
        assert(var_entries(q, vs).drop_last() =~= var_entries(q, vs.drop_last()));
        lemma_last_binary_of_vars(vs.drop_last(), q, p);
    }
}

/// The reason codes that fill `s`, one per byte; a byte outside the table fails
/// with `InvalidReasonCode`.
pub open spec fn spec_codes(s: Seq<u8>) -> Result<Seq<ReasonCode>, ErrorView>
    decreases s.len(),
{
    if s.len() == 0 {
        Ok(seq![])
    } else {
        match ReasonCode::spec_from_byte(s[0]) {
            None => Err(ErrorView::InvalidReasonCode(s[0])),
            Some(rc) => match spec_codes(s.drop_first()) {
                Err(e) => Err(e),
                Ok(rest) => Ok(seq![rc] + rest),
            },
        }
    }
}

/// Decodes the reason codes that fill `[pos, end)` and appends them to `out`.
pub fn read_codes(data: &[u8], pos: usize, end: usize, out: &mut Vec<ReasonCode>) -> (r: Result<
    (),
    Error,
>)
    requires
        pos <= end <= data@.len(),
    ensures
        match spec_codes(region(data@, pos, end)) {
            Ok(cs) => r is Ok && final(out)@ == old(out)@ + cs,
            Err(e) => r is Err && r->Err_0@ == e,
        },
    decreases end - pos,
{
    let ghost s = region(data@, pos, end);
    if pos == end {
        assert(old(out)@ + seq![] =~= old(out)@);
        return Ok(());
    }
    let b = data[pos];
    let rc = match ReasonCode::from_byte(b) {
        Some(rc) => rc,
        None => return Err(Error::InvalidReasonCode(b)),
    };
    out.push(rc);
    assert(s.drop_first() =~= region(data@, (pos + 1) as usize, end));
    let r = read_codes(data, pos + 1, end, out);
    proof {
        if let Ok(rest) = spec_codes(region(data@, (pos + 1) as usize, end)) {
            assert(final(out)@ =~= old(out)@ + (seq![rc] + rest));
        }
    }
    r
}

pub proof fn lemma_codes_round_trip(cs: Seq<ReasonCode>)
    ensures
        spec_codes(codes_bytes(cs)) == Ok::<Seq<ReasonCode>, ErrorView>(cs),
    decreases cs.len(),
{
    if cs.len() == 0 {
        assert(codes_bytes(cs) =~= seq![]);
        assert(cs =~= seq![]);
    } else {
        crate::kinds::lemma_reasoncode_byte_round_trip(cs[0]);
        assert(codes_bytes(cs).drop_first() =~= codes_bytes(cs.drop_first()));
        lemma_codes_round_trip(cs.drop_first());
        assert(seq![cs[0]] + cs.drop_first() =~= cs);
    }
}

} // verus!
