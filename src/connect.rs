use vstd::prelude::*;
use crate::codec::{
    frame_bytes, get_u16, get_u8, lemma_string_round_trip, lemma_u16_round_trip, put_u16,
    read_binary, read_string, region, spec_binary, spec_string, spec_u16, string_bytes,
    string_fits, tracks, u16_bytes, utf8_to_string, write_frame, write_string,
    MAX_REMAINING_LENGTH,
};
use vstd::utf8::{decode_utf8, valid_utf8};
use crate::error::{result_view, Error, ErrorView, Parsed};
use crate::kinds::{Property, QoS, Version};
use crate::property::{
    all_pairs, all_vars, blob_view, block_bytes, block_fits, codes_bytes, entries_bytes,
    entries_fit, entries_view, last_binary, last_byte, last_four, last_text, last_two,
    lemma_all_pairs_append, lemma_all_pairs_of_pairs, lemma_all_pairs_of_vars,
    lemma_all_vars_append, lemma_all_vars_of_pairs, lemma_all_vars_of_vars,
    lemma_block_round_trip, lemma_entries_view_drop_first, lemma_last_binary_append,
    lemma_last_binary_of_pairs, lemma_last_binary_of_vars, lemma_last_byte_append,
    lemma_last_byte_of_pairs, lemma_last_byte_of_vars, lemma_last_four_append,
    lemma_last_four_of_pairs, lemma_last_four_of_vars, lemma_last_text_append,
    lemma_last_text_of_pairs, lemma_last_text_of_vars, lemma_last_two_append,
    lemma_last_two_of_pairs, lemma_last_two_of_vars, lemma_pair_entries_shaped,
    lemma_var_entries_shaped, opt_binary, opt_byte, opt_four, opt_text, opt_two, pair_entries,
    push_opt_binary, push_opt_byte, push_opt_four, push_opt_text, push_opt_two,
    push_pairs, push_vars, put_codes, read_block, shaped, spec_block, spec_codes, read_codes, lemma_codes_round_trip, v5_block,
    v5_block_fits, var_entries, write_block, write_entries, write_v5_block, Entry, EntryView,
    PropOwner, PropValue,
};

verus! {

/// The properties of a v5 CONNECT packet.
#[derive(Debug, Clone)]
pub struct ConnectProperties {
    pub session_expiry_interval: Option<u32>,
    pub receive_maximum: Option<u16>,
    pub max_packet_size: Option<u32>,
    pub topic_alias_max: Option<u16>,
    pub request_response_info: Option<u8>,
    pub request_problem_info: Option<u8>,
    pub user_property: Vec<(String, String)>,
    pub auth_method: Option<String>,
    pub auth_data: Option<Vec<u8>>,
}

/// The mathematical value of a [`ConnectProperties`].
pub struct ConnectPropertiesView {
    pub session_expiry_interval: Option<u32>,
    pub receive_maximum: Option<u16>,
    pub max_packet_size: Option<u32>,
    pub topic_alias_max: Option<u16>,
    pub request_response_info: Option<u8>,
    pub request_problem_info: Option<u8>,
    pub user_property: Seq<(Seq<char>, Seq<char>)>,
    pub auth_method: Option<Seq<char>>,
    pub auth_data: Option<Seq<u8>>,
}

impl View for ConnectProperties {
    type V = ConnectPropertiesView;

    open spec fn view(&self) -> ConnectPropertiesView {
        ConnectPropertiesView {
            session_expiry_interval: self.session_expiry_interval,
            receive_maximum: self.receive_maximum,
            max_packet_size: self.max_packet_size,
            topic_alias_max: self.topic_alias_max,
            request_response_info: self.request_response_info,
            request_problem_info: self.request_problem_info,
            user_property: self.user_property.deep_view(),
            auth_method: self.auth_method.deep_view(),
            auth_data: blob_view(self.auth_data),
        }
    }
}

pub open spec fn connect_properties_view(o: Option<ConnectProperties>) -> Option<ConnectPropertiesView> {
    match o {
        Some(p) => Some(p@),
        None => None,
    }
}

/// The fields that a list of decoded entries gives: for each single-valued
/// property the last entry, for the repeatable ones every entry in order.
pub open spec fn connect_properties_of(es: Seq<EntryView>) -> ConnectPropertiesView {
    ConnectPropertiesView {
        session_expiry_interval: last_four(es, Property::SessionExpiryInterval),
        receive_maximum: last_two(es, Property::ReceiveMaximum),
        max_packet_size: last_four(es, Property::MaxPacketSize),
        topic_alias_max: last_two(es, Property::TopicAliasMax),
        request_response_info: last_byte(es, Property::RequestResponseInfo),
        request_problem_info: last_byte(es, Property::RequestProblemInfo),
        user_property: all_pairs(es),
        auth_method: last_text(es, Property::AuthMethod),
        auth_data: last_binary(es, Property::AuthData),
    }
}

/// A property block at the front of `s`, as these fields.
pub open spec fn spec_connect_properties(s: Seq<u8>) -> Parsed<Option<ConnectPropertiesView>> {
    match spec_block(s, PropOwner::Connect) {
        Ok((Some(es), n)) => Ok((Some(connect_properties_of(es)), n)),
        Ok((None, n)) => Ok((None, n)),
        Err(e) => Err(e),
    }
}

impl ConnectProperties {
    /// No property set.
    pub open spec fn spec_empty(&self) -> bool {
        self.session_expiry_interval is None && self.receive_maximum is None && self.max_packet_size is None && self.topic_alias_max is None && self.request_response_info is None && self.request_problem_info is None && self.user_property@.len() == 0 && self.auth_method is None && self.auth_data is None
    }

    pub fn new() -> (r: ConnectProperties)
        ensures
            r.spec_empty(),
    {
        ConnectProperties {
            session_expiry_interval: None,
            receive_maximum: None,
            max_packet_size: None,
            topic_alias_max: None,
            request_response_info: None,
            request_problem_info: None,
            user_property: Vec::new(),
            auth_method: None,
            auth_data: None,
        }
    }

    fn from_entries(es: Vec<Entry>) -> (r: ConnectProperties)
        ensures
            r@ == connect_properties_of(entries_view(es@)),
    {
        let ghost all = entries_view(es@);
        let mut prop = ConnectProperties::new();
        let mut rest = es;
        let ghost mut i: int = 0;
        assert(all.take(0) =~= Seq::<EntryView>::empty());
        assert(prop.user_property.deep_view() =~= seq![]);
        while rest.len() > 0
            invariant
                0 <= i <= all.len(),
                entries_view(rest@) == all.skip(i),
                prop@ == connect_properties_of(all.take(i)),
            decreases rest@.len(),
        {
            let ghost before = rest@;
            assert(entries_view(before).len() == before.len());
            assert(all.skip(i)[0] == all[i]);
            assert(entries_view(before)[0] == all[i]);
            let (p, v) = rest.remove(0);
            let ghost e = (p, v@);
            assert(e == all[i]);
            let ghost old_prop = prop;
            match (p, v) {
                (Property::SessionExpiryInterval, PropValue::Four(x)) => {
                    prop.session_expiry_interval = Some(x);
                },
                (Property::ReceiveMaximum, PropValue::Two(x)) => {
                    prop.receive_maximum = Some(x);
                },
                (Property::MaxPacketSize, PropValue::Four(x)) => {
                    prop.max_packet_size = Some(x);
                },
                (Property::TopicAliasMax, PropValue::Two(x)) => {
                    prop.topic_alias_max = Some(x);
                },
                (Property::RequestResponseInfo, PropValue::Byte(x)) => {
                    prop.request_response_info = Some(x);
                },
                (Property::RequestProblemInfo, PropValue::Byte(x)) => {
                    prop.request_problem_info = Some(x);
                },
                (Property::UserProperty, PropValue::Pair(key, value)) => {
                    prop.user_property.push((key, value));
                    assert(prop.user_property.deep_view() =~= old_prop.user_property.deep_view().push((e.1->Pair_0, e.1->Pair_1)));
                },
                (Property::AuthMethod, PropValue::Text(x)) => {
                    prop.auth_method = Some(x);
                },
                (Property::AuthData, PropValue::Binary(x)) => {
                    prop.auth_data = Some(x);
                },
                _ => {},
            }
            proof {
                let t = all.take(i + 1);
                assert(t.drop_last() =~= all.take(i));
                assert(t.last() == e);
                lemma_entries_view_drop_first(before);
                assert(rest@ =~= before.drop_first());
                assert(all.skip(i + 1) =~= all.skip(i).drop_first());
                i = i + 1;
            }
        }
        assert(all.take(i) =~= all);
        prop
    }

    /// Decodes a property block starting at `pos`, read no further than `end`:
    /// `None` for an empty block, and the position just after the block.
    pub fn read(data: &[u8], pos: usize, end: usize) -> (r: Result<(Option<ConnectProperties>, usize), Error>)
        requires
            pos <= end <= data@.len(),
        ensures
            match r {
                Ok((p, q)) => spec_connect_properties(region(data@, pos, end)) == Parsed::<
                    Option<ConnectPropertiesView>,
                >::Ok((connect_properties_view(p), q - pos)) && pos <= q <= end,
                Err(e) => spec_connect_properties(region(data@, pos, end)) == Parsed::<
                    Option<ConnectPropertiesView>,
                >::Err(e@),
            },
    {
        let (es, q) = read_block(data, pos, end, PropOwner::Connect)?;
        match es {
            Some(es) => Ok((Some(ConnectProperties::from_entries(es)), q)),
            None => Ok((None, q)),
        }
    }

    /// The entries these fields stand for, in the order they are written.
    pub open spec fn entries(&self) -> Seq<EntryView> {
        opt_four(Property::SessionExpiryInterval, self.session_expiry_interval)
            + opt_two(Property::ReceiveMaximum, self.receive_maximum)
            + opt_four(Property::MaxPacketSize, self.max_packet_size)
            + opt_two(Property::TopicAliasMax, self.topic_alias_max)
            + opt_byte(Property::RequestResponseInfo, self.request_response_info)
            + opt_byte(Property::RequestProblemInfo, self.request_problem_info)
            + pair_entries(self.user_property.deep_view())
            + opt_text(Property::AuthMethod, self.auth_method.deep_view())
            + opt_binary(Property::AuthData, blob_view(self.auth_data))
    }

    fn to_entries(self) -> (r: Vec<Entry>)
        ensures
            entries_view(r@) == self.entries(),
    {
        let ghost me = self;
        let mut es: Vec<Entry> = Vec::new();
        let ghost mut acc: Seq<EntryView> = seq![];
        assert(entries_view(es@) =~= acc);
        let ghost prev = es@;
        push_opt_four(&mut es, Property::SessionExpiryInterval, self.session_expiry_interval);
        proof {
            assert(entries_view(es@) =~= entries_view(prev) + opt_four(Property::SessionExpiryInterval, me.session_expiry_interval));
            acc = acc + opt_four(Property::SessionExpiryInterval, me.session_expiry_interval);
        }
        let ghost prev = es@;
        push_opt_two(&mut es, Property::ReceiveMaximum, self.receive_maximum);
        proof {
            assert(entries_view(es@) =~= entries_view(prev) + opt_two(Property::ReceiveMaximum, me.receive_maximum));
            acc = acc + opt_two(Property::ReceiveMaximum, me.receive_maximum);
        }
        let ghost prev = es@;
        push_opt_four(&mut es, Property::MaxPacketSize, self.max_packet_size);
        proof {
            assert(entries_view(es@) =~= entries_view(prev) + opt_four(Property::MaxPacketSize, me.max_packet_size));
            acc = acc + opt_four(Property::MaxPacketSize, me.max_packet_size);
        }
        let ghost prev = es@;
        push_opt_two(&mut es, Property::TopicAliasMax, self.topic_alias_max);
        proof {
            assert(entries_view(es@) =~= entries_view(prev) + opt_two(Property::TopicAliasMax, me.topic_alias_max));
            acc = acc + opt_two(Property::TopicAliasMax, me.topic_alias_max);
        }
        let ghost prev = es@;
        push_opt_byte(&mut es, Property::RequestResponseInfo, self.request_response_info);
        proof {
            assert(entries_view(es@) =~= entries_view(prev) + opt_byte(Property::RequestResponseInfo, me.request_response_info));
            acc = acc + opt_byte(Property::RequestResponseInfo, me.request_response_info);
        }
        let ghost prev = es@;
        push_opt_byte(&mut es, Property::RequestProblemInfo, self.request_problem_info);
        proof {
            assert(entries_view(es@) =~= entries_view(prev) + opt_byte(Property::RequestProblemInfo, me.request_problem_info));
            acc = acc + opt_byte(Property::RequestProblemInfo, me.request_problem_info);
        }
        let ghost prev = es@;
        push_pairs(&mut es, self.user_property);
        proof {
            assert(entries_view(es@) =~= entries_view(prev) + pair_entries(me.user_property.deep_view()));
            acc = acc + pair_entries(me.user_property.deep_view());
        }
        let ghost prev = es@;
        push_opt_text(&mut es, Property::AuthMethod, self.auth_method);
        proof {
            assert(entries_view(es@) =~= entries_view(prev) + opt_text(Property::AuthMethod, me.auth_method.deep_view()));
            acc = acc + opt_text(Property::AuthMethod, me.auth_method.deep_view());
        }
        let ghost prev = es@;
        push_opt_binary(&mut es, Property::AuthData, self.auth_data);
        proof {
            assert(entries_view(es@) =~= entries_view(prev) + opt_binary(Property::AuthData, blob_view(me.auth_data)));
            acc = acc + opt_binary(Property::AuthData, blob_view(me.auth_data));
        }
        es
    }

    /// Appends the entries, without the block's length: fails with
    /// `PayloadTooLong` where a value does not fit its field.
    pub fn pack(self, out: &mut Vec<u8>) -> (r: Result<(), Error>)
        ensures
            entries_fit(self.entries()) ==> r is Ok && final(out)@ == old(out)@ + entries_bytes(
                self.entries(),
            ),
            !entries_fit(self.entries()) ==> r is Err && r->Err_0@ == ErrorView::PayloadTooLong,
    {
        let es = self.to_entries();
        write_entries(out, &es)
    }

}

#[verifier::spinoff_prover]
#[verifier::rlimit(40)]
proof fn lemma_connect_properties_session_expiry_interval(p: ConnectProperties)
    ensures
        last_four(p.entries(), Property::SessionExpiryInterval) == p.session_expiry_interval,
{
    let a0 = opt_four(Property::SessionExpiryInterval, p.session_expiry_interval);
    let a1 = opt_two(Property::ReceiveMaximum, p.receive_maximum);
    let a2 = opt_four(Property::MaxPacketSize, p.max_packet_size);
    let a3 = opt_two(Property::TopicAliasMax, p.topic_alias_max);
    let a4 = opt_byte(Property::RequestResponseInfo, p.request_response_info);
    let a5 = opt_byte(Property::RequestProblemInfo, p.request_problem_info);
    let a6 = pair_entries(p.user_property.deep_view());
    let a7 = opt_text(Property::AuthMethod, p.auth_method.deep_view());
    let a8 = opt_binary(Property::AuthData, blob_view(p.auth_data));
    let c0 = a0;
    let c1 = c0 + a1;
    let c2 = c1 + a2;
    let c3 = c2 + a3;
    let c4 = c3 + a4;
    let c5 = c4 + a5;
    let c6 = c5 + a6;
    let c7 = c6 + a7;
    let c8 = c7 + a8;
    assert(p.entries() == c8);
    reveal_with_fuel(last_four, 2);
    lemma_last_four_append(c0, a1, Property::SessionExpiryInterval);
    lemma_last_four_append(c1, a2, Property::SessionExpiryInterval);
    lemma_last_four_append(c2, a3, Property::SessionExpiryInterval);
    lemma_last_four_append(c3, a4, Property::SessionExpiryInterval);
    lemma_last_four_append(c4, a5, Property::SessionExpiryInterval);
    lemma_last_four_append(c5, a6, Property::SessionExpiryInterval);
    lemma_last_four_append(c6, a7, Property::SessionExpiryInterval);
    lemma_last_four_append(c7, a8, Property::SessionExpiryInterval);
    lemma_last_four_of_pairs(p.user_property.deep_view(), Property::SessionExpiryInterval);
}

#[verifier::spinoff_prover]
#[verifier::rlimit(40)]
proof fn lemma_connect_properties_receive_maximum(p: ConnectProperties)
    ensures
        last_two(p.entries(), Property::ReceiveMaximum) == p.receive_maximum,
{
    let a0 = opt_four(Property::SessionExpiryInterval, p.session_expiry_interval);
    let a1 = opt_two(Property::ReceiveMaximum, p.receive_maximum);
    let a2 = opt_four(Property::MaxPacketSize, p.max_packet_size);
    let a3 = opt_two(Property::TopicAliasMax, p.topic_alias_max);
    let a4 = opt_byte(Property::RequestResponseInfo, p.request_response_info);
    let a5 = opt_byte(Property::RequestProblemInfo, p.request_problem_info);
    let a6 = pair_entries(p.user_property.deep_view());
    let a7 = opt_text(Property::AuthMethod, p.auth_method.deep_view());
    let a8 = opt_binary(Property::AuthData, blob_view(p.auth_data));
    let c0 = a0;
    let c1 = c0 + a1;
    let c2 = c1 + a2;
    let c3 = c2 + a3;
    let c4 = c3 + a4;
    let c5 = c4 + a5;
    let c6 = c5 + a6;
    let c7 = c6 + a7;
    let c8 = c7 + a8;
    assert(p.entries() == c8);
    reveal_with_fuel(last_two, 2);
    lemma_last_two_append(c0, a1, Property::ReceiveMaximum);
    lemma_last_two_append(c1, a2, Property::ReceiveMaximum);
    lemma_last_two_append(c2, a3, Property::ReceiveMaximum);
    lemma_last_two_append(c3, a4, Property::ReceiveMaximum);
    lemma_last_two_append(c4, a5, Property::ReceiveMaximum);
    lemma_last_two_append(c5, a6, Property::ReceiveMaximum);
    lemma_last_two_append(c6, a7, Property::ReceiveMaximum);
    lemma_last_two_append(c7, a8, Property::ReceiveMaximum);
    lemma_last_two_of_pairs(p.user_property.deep_view(), Property::ReceiveMaximum);
}

#[verifier::spinoff_prover]
#[verifier::rlimit(40)]
proof fn lemma_connect_properties_max_packet_size(p: ConnectProperties)
    ensures
        last_four(p.entries(), Property::MaxPacketSize) == p.max_packet_size,
{
    let a0 = opt_four(Property::SessionExpiryInterval, p.session_expiry_interval);
    let a1 = opt_two(Property::ReceiveMaximum, p.receive_maximum);
    let a2 = opt_four(Property::MaxPacketSize, p.max_packet_size);
    let a3 = opt_two(Property::TopicAliasMax, p.topic_alias_max);
    let a4 = opt_byte(Property::RequestResponseInfo, p.request_response_info);
    let a5 = opt_byte(Property::RequestProblemInfo, p.request_problem_info);
    let a6 = pair_entries(p.user_property.deep_view());
    let a7 = opt_text(Property::AuthMethod, p.auth_method.deep_view());
    let a8 = opt_binary(Property::AuthData, blob_view(p.auth_data));
    let c0 = a0;
    let c1 = c0 + a1;
    let c2 = c1 + a2;
    let c3 = c2 + a3;
    let c4 = c3 + a4;
    let c5 = c4 + a5;
    let c6 = c5 + a6;
    let c7 = c6 + a7;
    let c8 = c7 + a8;
    assert(p.entries() == c8);
    reveal_with_fuel(last_four, 2);
    lemma_last_four_append(c0, a1, Property::MaxPacketSize);
    lemma_last_four_append(c1, a2, Property::MaxPacketSize);
    lemma_last_four_append(c2, a3, Property::MaxPacketSize);
    lemma_last_four_append(c3, a4, Property::MaxPacketSize);
    lemma_last_four_append(c4, a5, Property::MaxPacketSize);
    lemma_last_four_append(c5, a6, Property::MaxPacketSize);
    lemma_last_four_append(c6, a7, Property::MaxPacketSize);
    lemma_last_four_append(c7, a8, Property::MaxPacketSize);
    lemma_last_four_of_pairs(p.user_property.deep_view(), Property::MaxPacketSize);
}

#[verifier::spinoff_prover]
#[verifier::rlimit(40)]
proof fn lemma_connect_properties_topic_alias_max(p: ConnectProperties)
    ensures
        last_two(p.entries(), Property::TopicAliasMax) == p.topic_alias_max,
{
    let a0 = opt_four(Property::SessionExpiryInterval, p.session_expiry_interval);
    let a1 = opt_two(Property::ReceiveMaximum, p.receive_maximum);
    let a2 = opt_four(Property::MaxPacketSize, p.max_packet_size);
    let a3 = opt_two(Property::TopicAliasMax, p.topic_alias_max);
    let a4 = opt_byte(Property::RequestResponseInfo, p.request_response_info);
    let a5 = opt_byte(Property::RequestProblemInfo, p.request_problem_info);
    let a6 = pair_entries(p.user_property.deep_view());
    let a7 = opt_text(Property::AuthMethod, p.auth_method.deep_view());
    let a8 = opt_binary(Property::AuthData, blob_view(p.auth_data));
    let c0 = a0;
    let c1 = c0 + a1;
    let c2 = c1 + a2;
    let c3 = c2 + a3;
    let c4 = c3 + a4;
    let c5 = c4 + a5;
    let c6 = c5 + a6;
    let c7 = c6 + a7;
    let c8 = c7 + a8;
    assert(p.entries() == c8);
    reveal_with_fuel(last_two, 2);
    lemma_last_two_append(c0, a1, Property::TopicAliasMax);
    lemma_last_two_append(c1, a2, Property::TopicAliasMax);
    lemma_last_two_append(c2, a3, Property::TopicAliasMax);
    lemma_last_two_append(c3, a4, Property::TopicAliasMax);
    lemma_last_two_append(c4, a5, Property::TopicAliasMax);
    lemma_last_two_append(c5, a6, Property::TopicAliasMax);
    lemma_last_two_append(c6, a7, Property::TopicAliasMax);
    lemma_last_two_append(c7, a8, Property::TopicAliasMax);
    lemma_last_two_of_pairs(p.user_property.deep_view(), Property::TopicAliasMax);
}

#[verifier::spinoff_prover]
#[verifier::rlimit(40)]
proof fn lemma_connect_properties_request_response_info(p: ConnectProperties)
    ensures
        last_byte(p.entries(), Property::RequestResponseInfo) == p.request_response_info,
{
    let a0 = opt_four(Property::SessionExpiryInterval, p.session_expiry_interval);
    let a1 = opt_two(Property::ReceiveMaximum, p.receive_maximum);
    let a2 = opt_four(Property::MaxPacketSize, p.max_packet_size);
    let a3 = opt_two(Property::TopicAliasMax, p.topic_alias_max);
    let a4 = opt_byte(Property::RequestResponseInfo, p.request_response_info);
    let a5 = opt_byte(Property::RequestProblemInfo, p.request_problem_info);
    let a6 = pair_entries(p.user_property.deep_view());
    let a7 = opt_text(Property::AuthMethod, p.auth_method.deep_view());
    let a8 = opt_binary(Property::AuthData, blob_view(p.auth_data));
    let c0 = a0;
    let c1 = c0 + a1;
    let c2 = c1 + a2;
    let c3 = c2 + a3;
    let c4 = c3 + a4;
    let c5 = c4 + a5;
    let c6 = c5 + a6;
    let c7 = c6 + a7;
    let c8 = c7 + a8;
    assert(p.entries() == c8);
    reveal_with_fuel(last_byte, 2);
    lemma_last_byte_append(c0, a1, Property::RequestResponseInfo);
    lemma_last_byte_append(c1, a2, Property::RequestResponseInfo);
    lemma_last_byte_append(c2, a3, Property::RequestResponseInfo);
    lemma_last_byte_append(c3, a4, Property::RequestResponseInfo);
    lemma_last_byte_append(c4, a5, Property::RequestResponseInfo);
    lemma_last_byte_append(c5, a6, Property::RequestResponseInfo);
    lemma_last_byte_append(c6, a7, Property::RequestResponseInfo);
    lemma_last_byte_append(c7, a8, Property::RequestResponseInfo);
    lemma_last_byte_of_pairs(p.user_property.deep_view(), Property::RequestResponseInfo);
}

#[verifier::spinoff_prover]
#[verifier::rlimit(40)]
proof fn lemma_connect_properties_request_problem_info(p: ConnectProperties)
    ensures
        last_byte(p.entries(), Property::RequestProblemInfo) == p.request_problem_info,
{
    let a0 = opt_four(Property::SessionExpiryInterval, p.session_expiry_interval);
    let a1 = opt_two(Property::ReceiveMaximum, p.receive_maximum);
    let a2 = opt_four(Property::MaxPacketSize, p.max_packet_size);
    let a3 = opt_two(Property::TopicAliasMax, p.topic_alias_max);
    let a4 = opt_byte(Property::RequestResponseInfo, p.request_response_info);
    let a5 = opt_byte(Property::RequestProblemInfo, p.request_problem_info);
    let a6 = pair_entries(p.user_property.deep_view());
    let a7 = opt_text(Property::AuthMethod, p.auth_method.deep_view());
    let a8 = opt_binary(Property::AuthData, blob_view(p.auth_data));
    let c0 = a0;
    let c1 = c0 + a1;
    let c2 = c1 + a2;
    let c3 = c2 + a3;
    let c4 = c3 + a4;
    let c5 = c4 + a5;
    let c6 = c5 + a6;
    let c7 = c6 + a7;
    let c8 = c7 + a8;
    assert(p.entries() == c8);
    reveal_with_fuel(last_byte, 2);
    lemma_last_byte_append(c0, a1, Property::RequestProblemInfo);
    lemma_last_byte_append(c1, a2, Property::RequestProblemInfo);
    lemma_last_byte_append(c2, a3, Property::RequestProblemInfo);
    lemma_last_byte_append(c3, a4, Property::RequestProblemInfo);
    lemma_last_byte_append(c4, a5, Property::RequestProblemInfo);
    lemma_last_byte_append(c5, a6, Property::RequestProblemInfo);
    lemma_last_byte_append(c6, a7, Property::RequestProblemInfo);
    lemma_last_byte_append(c7, a8, Property::RequestProblemInfo);
    lemma_last_byte_of_pairs(p.user_property.deep_view(), Property::RequestProblemInfo);
}

#[verifier::spinoff_prover]
#[verifier::rlimit(40)]
proof fn lemma_connect_properties_user_property(p: ConnectProperties)
    ensures
        all_pairs(p.entries()) == p.user_property.deep_view(),
{
    let a0 = opt_four(Property::SessionExpiryInterval, p.session_expiry_interval);
    let a1 = opt_two(Property::ReceiveMaximum, p.receive_maximum);
    let a2 = opt_four(Property::MaxPacketSize, p.max_packet_size);
    let a3 = opt_two(Property::TopicAliasMax, p.topic_alias_max);
    let a4 = opt_byte(Property::RequestResponseInfo, p.request_response_info);
    let a5 = opt_byte(Property::RequestProblemInfo, p.request_problem_info);
    let a6 = pair_entries(p.user_property.deep_view());
    let a7 = opt_text(Property::AuthMethod, p.auth_method.deep_view());
    let a8 = opt_binary(Property::AuthData, blob_view(p.auth_data));
    let c0 = a0;
    let c1 = c0 + a1;
    let c2 = c1 + a2;
    let c3 = c2 + a3;
    let c4 = c3 + a4;
    let c5 = c4 + a5;
    let c6 = c5 + a6;
    let c7 = c6 + a7;
    let c8 = c7 + a8;
    assert(p.entries() == c8);
    reveal_with_fuel(all_pairs, 2);
    lemma_all_pairs_append(c0, a1);
    lemma_all_pairs_append(c1, a2);
    lemma_all_pairs_append(c2, a3);
    lemma_all_pairs_append(c3, a4);
    lemma_all_pairs_append(c4, a5);
    lemma_all_pairs_append(c5, a6);
    lemma_all_pairs_append(c6, a7);
    lemma_all_pairs_append(c7, a8);
    lemma_all_pairs_of_pairs(p.user_property.deep_view());
    assert(all_pairs(a0) =~= seq![]);
    assert(all_pairs(a1) =~= seq![]);
    assert(all_pairs(a2) =~= seq![]);
    assert(all_pairs(a3) =~= seq![]);
    assert(all_pairs(a4) =~= seq![]);
    assert(all_pairs(a5) =~= seq![]);
    assert(all_pairs(a7) =~= seq![]);
    assert(all_pairs(a8) =~= seq![]);
    assert(all_pairs(a0) + all_pairs(a1) + all_pairs(a2) + all_pairs(a3) + all_pairs(a4) + all_pairs(a5) + all_pairs(a6) + all_pairs(a7) + all_pairs(a8) =~= p.user_property.deep_view());
}

#[verifier::spinoff_prover]
#[verifier::rlimit(40)]
proof fn lemma_connect_properties_auth_method(p: ConnectProperties)
    ensures
        last_text(p.entries(), Property::AuthMethod) == p.auth_method.deep_view(),
{
    let a0 = opt_four(Property::SessionExpiryInterval, p.session_expiry_interval);
    let a1 = opt_two(Property::ReceiveMaximum, p.receive_maximum);
    let a2 = opt_four(Property::MaxPacketSize, p.max_packet_size);
    let a3 = opt_two(Property::TopicAliasMax, p.topic_alias_max);
    let a4 = opt_byte(Property::RequestResponseInfo, p.request_response_info);
    let a5 = opt_byte(Property::RequestProblemInfo, p.request_problem_info);
    let a6 = pair_entries(p.user_property.deep_view());
    let a7 = opt_text(Property::AuthMethod, p.auth_method.deep_view());
    let a8 = opt_binary(Property::AuthData, blob_view(p.auth_data));
    let c0 = a0;
    let c1 = c0 + a1;
    let c2 = c1 + a2;
    let c3 = c2 + a3;
    let c4 = c3 + a4;
    let c5 = c4 + a5;
    let c6 = c5 + a6;
    let c7 = c6 + a7;
    let c8 = c7 + a8;
    assert(p.entries() == c8);
    reveal_with_fuel(last_text, 2);
    lemma_last_text_append(c0, a1, Property::AuthMethod);
    lemma_last_text_append(c1, a2, Property::AuthMethod);
    lemma_last_text_append(c2, a3, Property::AuthMethod);
    lemma_last_text_append(c3, a4, Property::AuthMethod);
    lemma_last_text_append(c4, a5, Property::AuthMethod);
    lemma_last_text_append(c5, a6, Property::AuthMethod);
    lemma_last_text_append(c6, a7, Property::AuthMethod);
    lemma_last_text_append(c7, a8, Property::AuthMethod);
    lemma_last_text_of_pairs(p.user_property.deep_view(), Property::AuthMethod);
}

#[verifier::spinoff_prover]
#[verifier::rlimit(40)]
proof fn lemma_connect_properties_auth_data(p: ConnectProperties)
    ensures
        last_binary(p.entries(), Property::AuthData) == blob_view(p.auth_data),
{
    let a0 = opt_four(Property::SessionExpiryInterval, p.session_expiry_interval);
    let a1 = opt_two(Property::ReceiveMaximum, p.receive_maximum);
    let a2 = opt_four(Property::MaxPacketSize, p.max_packet_size);
    let a3 = opt_two(Property::TopicAliasMax, p.topic_alias_max);
    let a4 = opt_byte(Property::RequestResponseInfo, p.request_response_info);
    let a5 = opt_byte(Property::RequestProblemInfo, p.request_problem_info);
    let a6 = pair_entries(p.user_property.deep_view());
    let a7 = opt_text(Property::AuthMethod, p.auth_method.deep_view());
    let a8 = opt_binary(Property::AuthData, blob_view(p.auth_data));
    let c0 = a0;
    let c1 = c0 + a1;
    let c2 = c1 + a2;
    let c3 = c2 + a3;
    let c4 = c3 + a4;
    let c5 = c4 + a5;
    let c6 = c5 + a6;
    let c7 = c6 + a7;
    let c8 = c7 + a8;
    assert(p.entries() == c8);
    reveal_with_fuel(last_binary, 2);
    lemma_last_binary_append(c0, a1, Property::AuthData);
    lemma_last_binary_append(c1, a2, Property::AuthData);
    lemma_last_binary_append(c2, a3, Property::AuthData);
    lemma_last_binary_append(c3, a4, Property::AuthData);
    lemma_last_binary_append(c4, a5, Property::AuthData);
    lemma_last_binary_append(c5, a6, Property::AuthData);
    lemma_last_binary_append(c6, a7, Property::AuthData);
    lemma_last_binary_append(c7, a8, Property::AuthData);
    lemma_last_binary_of_pairs(p.user_property.deep_view(), Property::AuthData);
}

/// The fields of ConnectProperties decode back from the entries they are written as.
pub proof fn lemma_connect_properties_round_trip(p: ConnectProperties)
    ensures
        connect_properties_of(p.entries()) == p@,
        forall|i: int| 0 <= i < p.entries().len() ==> shaped(#[trigger] p.entries()[i])
            && PropOwner::Connect.spec_permits(p.entries()[i].0),
{
    lemma_connect_properties_session_expiry_interval(p);
    lemma_connect_properties_receive_maximum(p);
    lemma_connect_properties_max_packet_size(p);
    lemma_connect_properties_topic_alias_max(p);
    lemma_connect_properties_request_response_info(p);
    lemma_connect_properties_request_problem_info(p);
    lemma_connect_properties_user_property(p);
    lemma_connect_properties_auth_method(p);
    lemma_connect_properties_auth_data(p);
    let a0 = opt_four(Property::SessionExpiryInterval, p.session_expiry_interval);
    let a1 = opt_two(Property::ReceiveMaximum, p.receive_maximum);
    let a2 = opt_four(Property::MaxPacketSize, p.max_packet_size);
    let a3 = opt_two(Property::TopicAliasMax, p.topic_alias_max);
    let a4 = opt_byte(Property::RequestResponseInfo, p.request_response_info);
    let a5 = opt_byte(Property::RequestProblemInfo, p.request_problem_info);
    let a6 = pair_entries(p.user_property.deep_view());
    let a7 = opt_text(Property::AuthMethod, p.auth_method.deep_view());
    let a8 = opt_binary(Property::AuthData, blob_view(p.auth_data));
    let c0 = a0;
    let c1 = c0 + a1;
    let c2 = c1 + a2;
    let c3 = c2 + a3;
    let c4 = c3 + a4;
    let c5 = c4 + a5;
    let c6 = c5 + a6;
    let c7 = c6 + a7;
    let c8 = c7 + a8;
    assert(p.entries() == c8);
    lemma_pair_entries_shaped(p.user_property.deep_view());
    assert forall|i: int| 0 <= i < p.entries().len() implies shaped(#[trigger] p.entries()[i])
        && PropOwner::Connect.spec_permits(p.entries()[i].0) by {
        if i >= c7.len() {
            assert(p.entries()[i] == a8[i - c7.len()]);
        } else if i >= c6.len() {
            assert(p.entries()[i] == a7[i - c6.len()]);
        } else if i >= c5.len() {
            assert(p.entries()[i] == a6[i - c5.len()]);
        } else if i >= c4.len() {
            assert(p.entries()[i] == a5[i - c4.len()]);
        } else if i >= c3.len() {
            assert(p.entries()[i] == a4[i - c3.len()]);
        } else if i >= c2.len() {
            assert(p.entries()[i] == a3[i - c2.len()]);
        } else if i >= c1.len() {
            assert(p.entries()[i] == a2[i - c1.len()]);
        } else if i >= c0.len() {
            assert(p.entries()[i] == a1[i - c0.len()]);
        } else {
            assert(p.entries()[i] == a0[i]);
        }
    }
}

/// The properties of the will message in a v5 CONNECT packet.
#[derive(Debug, Clone)]
pub struct WillProperties {
    pub content_type: Option<String>,
    pub response_topic: Option<String>,
    pub correlation_data: Option<Vec<u8>>,
    pub will_delay_interval: Option<u32>,
    pub message_expiry_interval: Option<u32>,
    pub payload_format_indicator: Option<u8>,
    pub user_property: Vec<(String, String)>,
}

/// The mathematical value of a [`WillProperties`].
pub struct WillPropertiesView {
    pub content_type: Option<Seq<char>>,
    pub response_topic: Option<Seq<char>>,
    pub correlation_data: Option<Seq<u8>>,
    pub will_delay_interval: Option<u32>,
    pub message_expiry_interval: Option<u32>,
    pub payload_format_indicator: Option<u8>,
    pub user_property: Seq<(Seq<char>, Seq<char>)>,
}

impl View for WillProperties {
    type V = WillPropertiesView;

    open spec fn view(&self) -> WillPropertiesView {
        WillPropertiesView {
            content_type: self.content_type.deep_view(),
            response_topic: self.response_topic.deep_view(),
            correlation_data: blob_view(self.correlation_data),
            will_delay_interval: self.will_delay_interval,
            message_expiry_interval: self.message_expiry_interval,
            payload_format_indicator: self.payload_format_indicator,
            user_property: self.user_property.deep_view(),
        }
    }
}

pub open spec fn will_properties_view(o: Option<WillProperties>) -> Option<WillPropertiesView> {
    match o {
        Some(p) => Some(p@),
        None => None,
    }
}

/// The fields that a list of decoded entries gives: for each single-valued
/// property the last entry, for the repeatable ones every entry in order.
pub open spec fn will_properties_of(es: Seq<EntryView>) -> WillPropertiesView {
    WillPropertiesView {
        content_type: last_text(es, Property::ContentType),
        response_topic: last_text(es, Property::ResponseTopic),
        correlation_data: last_binary(es, Property::CorrelationData),
        will_delay_interval: last_four(es, Property::WillDelayInterval),
        message_expiry_interval: last_four(es, Property::MessageExpiryInterval),
        payload_format_indicator: last_byte(es, Property::PayloadFormatIndicator),
        user_property: all_pairs(es),
    }
}

/// A property block at the front of `s`, as these fields.
pub open spec fn spec_will_properties(s: Seq<u8>) -> Parsed<Option<WillPropertiesView>> {
    match spec_block(s, PropOwner::Will) {
        Ok((Some(es), n)) => Ok((Some(will_properties_of(es)), n)),
        Ok((None, n)) => Ok((None, n)),
        Err(e) => Err(e),
    }
}

impl WillProperties {
    /// No property set.
    pub open spec fn spec_empty(&self) -> bool {
        self.content_type is None && self.response_topic is None && self.correlation_data is None && self.will_delay_interval is None && self.message_expiry_interval is None && self.payload_format_indicator is None && self.user_property@.len() == 0
    }

    pub fn new() -> (r: WillProperties)
        ensures
            r.spec_empty(),
    {
        WillProperties {
            content_type: None,
            response_topic: None,
            correlation_data: None,
            will_delay_interval: None,
            message_expiry_interval: None,
            payload_format_indicator: None,
            user_property: Vec::new(),
        }
    }

    fn from_entries(es: Vec<Entry>) -> (r: WillProperties)
        ensures
            r@ == will_properties_of(entries_view(es@)),
    {
        let ghost all = entries_view(es@);
        let mut prop = WillProperties::new();
        let mut rest = es;
        let ghost mut i: int = 0;
        assert(all.take(0) =~= Seq::<EntryView>::empty());
        assert(prop.user_property.deep_view() =~= seq![]);
        while rest.len() > 0
            invariant
                0 <= i <= all.len(),
                entries_view(rest@) == all.skip(i),
                prop@ == will_properties_of(all.take(i)),
            decreases rest@.len(),
        {
            let ghost before = rest@;
            assert(entries_view(before).len() == before.len());
            assert(all.skip(i)[0] == all[i]);
            assert(entries_view(before)[0] == all[i]);
            let (p, v) = rest.remove(0);
            let ghost e = (p, v@);
            assert(e == all[i]);
            let ghost old_prop = prop;
            match (p, v) {
                (Property::ContentType, PropValue::Text(x)) => {
                    prop.content_type = Some(x);
                },
                (Property::ResponseTopic, PropValue::Text(x)) => {
                    prop.response_topic = Some(x);
                },
                (Property::CorrelationData, PropValue::Binary(x)) => {
                    prop.correlation_data = Some(x);
                },
                (Property::WillDelayInterval, PropValue::Four(x)) => {
                    prop.will_delay_interval = Some(x);
                },
                (Property::MessageExpiryInterval, PropValue::Four(x)) => {
                    prop.message_expiry_interval = Some(x);
                },
                (Property::PayloadFormatIndicator, PropValue::Byte(x)) => {
                    prop.payload_format_indicator = Some(x);
                },
                (Property::UserProperty, PropValue::Pair(key, value)) => {
                    prop.user_property.push((key, value));
                    assert(prop.user_property.deep_view() =~= old_prop.user_property.deep_view().push((e.1->Pair_0, e.1->Pair_1)));
                },
                _ => {},
            }
            proof {
                let t = all.take(i + 1);
                assert(t.drop_last() =~= all.take(i));
                assert(t.last() == e);
                lemma_entries_view_drop_first(before);
                assert(rest@ =~= before.drop_first());
                assert(all.skip(i + 1) =~= all.skip(i).drop_first());
                i = i + 1;
            }
        }
        assert(all.take(i) =~= all);
        prop
    }

    /// Decodes a property block starting at `pos`, read no further than `end`:
    /// `None` for an empty block, and the position just after the block.
    pub fn read(data: &[u8], pos: usize, end: usize) -> (r: Result<(Option<WillProperties>, usize), Error>)
        requires
            pos <= end <= data@.len(),
        ensures
            match r {
                Ok((p, q)) => spec_will_properties(region(data@, pos, end)) == Parsed::<
                    Option<WillPropertiesView>,
                >::Ok((will_properties_view(p), q - pos)) && pos <= q <= end,
                Err(e) => spec_will_properties(region(data@, pos, end)) == Parsed::<
                    Option<WillPropertiesView>,
                >::Err(e@),
            },
    {
        let (es, q) = read_block(data, pos, end, PropOwner::Will)?;
        match es {
            Some(es) => Ok((Some(WillProperties::from_entries(es)), q)),
            None => Ok((None, q)),
        }
    }

    /// The entries these fields stand for, in the order they are written.
    pub open spec fn entries(&self) -> Seq<EntryView> {
        opt_text(Property::ContentType, self.content_type.deep_view())
            + opt_text(Property::ResponseTopic, self.response_topic.deep_view())
            + opt_binary(Property::CorrelationData, blob_view(self.correlation_data))
            + opt_four(Property::WillDelayInterval, self.will_delay_interval)
            + opt_four(Property::MessageExpiryInterval, self.message_expiry_interval)
            + opt_byte(Property::PayloadFormatIndicator, self.payload_format_indicator)
            + pair_entries(self.user_property.deep_view())
    }

    fn to_entries(self) -> (r: Vec<Entry>)
        ensures
            entries_view(r@) == self.entries(),
    {
        let ghost me = self;
        let mut es: Vec<Entry> = Vec::new();
        let ghost mut acc: Seq<EntryView> = seq![];
        assert(entries_view(es@) =~= acc);
        let ghost prev = es@;
        push_opt_text(&mut es, Property::ContentType, self.content_type);
        proof {
            assert(entries_view(es@) =~= entries_view(prev) + opt_text(Property::ContentType, me.content_type.deep_view()));
            acc = acc + opt_text(Property::ContentType, me.content_type.deep_view());
        }
        let ghost prev = es@;
        push_opt_text(&mut es, Property::ResponseTopic, self.response_topic);
        proof {
            assert(entries_view(es@) =~= entries_view(prev) + opt_text(Property::ResponseTopic, me.response_topic.deep_view()));
            acc = acc + opt_text(Property::ResponseTopic, me.response_topic.deep_view());
        }
        let ghost prev = es@;
        push_opt_binary(&mut es, Property::CorrelationData, self.correlation_data);
        proof {
            assert(entries_view(es@) =~= entries_view(prev) + opt_binary(Property::CorrelationData, blob_view(me.correlation_data)));
            acc = acc + opt_binary(Property::CorrelationData, blob_view(me.correlation_data));
        }
        let ghost prev = es@;
        push_opt_four(&mut es, Property::WillDelayInterval, self.will_delay_interval);
        proof {
            assert(entries_view(es@) =~= entries_view(prev) + opt_four(Property::WillDelayInterval, me.will_delay_interval));
            acc = acc + opt_four(Property::WillDelayInterval, me.will_delay_interval);
        }
        let ghost prev = es@;
        push_opt_four(&mut es, Property::MessageExpiryInterval, self.message_expiry_interval);
        proof {
            assert(entries_view(es@) =~= entries_view(prev) + opt_four(Property::MessageExpiryInterval, me.message_expiry_interval));
            acc = acc + opt_four(Property::MessageExpiryInterval, me.message_expiry_interval);
        }
        let ghost prev = es@;
        push_opt_byte(&mut es, Property::PayloadFormatIndicator, self.payload_format_indicator);
        proof {
            assert(entries_view(es@) =~= entries_view(prev) + opt_byte(Property::PayloadFormatIndicator, me.payload_format_indicator));
            acc = acc + opt_byte(Property::PayloadFormatIndicator, me.payload_format_indicator);
        }
        let ghost prev = es@;
        push_pairs(&mut es, self.user_property);
        proof {
            assert(entries_view(es@) =~= entries_view(prev) + pair_entries(me.user_property.deep_view()));
            acc = acc + pair_entries(me.user_property.deep_view());
        }
        es
    }

    /// Appends the entries, without the block's length: fails with
    /// `PayloadTooLong` where a value does not fit its field.
    pub fn pack(self, out: &mut Vec<u8>) -> (r: Result<(), Error>)
        ensures
            entries_fit(self.entries()) ==> r is Ok && final(out)@ == old(out)@ + entries_bytes(
                self.entries(),
            ),
            !entries_fit(self.entries()) ==> r is Err && r->Err_0@ == ErrorView::PayloadTooLong,
    {
        let es = self.to_entries();
        write_entries(out, &es)
    }

}

#[verifier::spinoff_prover]
#[verifier::rlimit(40)]
proof fn lemma_will_properties_content_type(p: WillProperties)
    ensures
        last_text(p.entries(), Property::ContentType) == p.content_type.deep_view(),
{
    let a0 = opt_text(Property::ContentType, p.content_type.deep_view());
    let a1 = opt_text(Property::ResponseTopic, p.response_topic.deep_view());
    let a2 = opt_binary(Property::CorrelationData, blob_view(p.correlation_data));
    let a3 = opt_four(Property::WillDelayInterval, p.will_delay_interval);
    let a4 = opt_four(Property::MessageExpiryInterval, p.message_expiry_interval);
    let a5 = opt_byte(Property::PayloadFormatIndicator, p.payload_format_indicator);
    let a6 = pair_entries(p.user_property.deep_view());
    let c0 = a0;
    let c1 = c0 + a1;
    let c2 = c1 + a2;
    let c3 = c2 + a3;
    let c4 = c3 + a4;
    let c5 = c4 + a5;
    let c6 = c5 + a6;
    assert(p.entries() == c6);
    reveal_with_fuel(last_text, 2);
    lemma_last_text_append(c0, a1, Property::ContentType);
    lemma_last_text_append(c1, a2, Property::ContentType);
    lemma_last_text_append(c2, a3, Property::ContentType);
    lemma_last_text_append(c3, a4, Property::ContentType);
    lemma_last_text_append(c4, a5, Property::ContentType);
    lemma_last_text_append(c5, a6, Property::ContentType);
    lemma_last_text_of_pairs(p.user_property.deep_view(), Property::ContentType);
}

#[verifier::spinoff_prover]
#[verifier::rlimit(40)]
proof fn lemma_will_properties_response_topic(p: WillProperties)
    ensures
        last_text(p.entries(), Property::ResponseTopic) == p.response_topic.deep_view(),
{
    let a0 = opt_text(Property::ContentType, p.content_type.deep_view());
    let a1 = opt_text(Property::ResponseTopic, p.response_topic.deep_view());
    let a2 = opt_binary(Property::CorrelationData, blob_view(p.correlation_data));
    let a3 = opt_four(Property::WillDelayInterval, p.will_delay_interval);
    let a4 = opt_four(Property::MessageExpiryInterval, p.message_expiry_interval);
    let a5 = opt_byte(Property::PayloadFormatIndicator, p.payload_format_indicator);
    let a6 = pair_entries(p.user_property.deep_view());
    let c0 = a0;
    let c1 = c0 + a1;
    let c2 = c1 + a2;
    let c3 = c2 + a3;
    let c4 = c3 + a4;
    let c5 = c4 + a5;
    let c6 = c5 + a6;
    assert(p.entries() == c6);
    reveal_with_fuel(last_text, 2);
    lemma_last_text_append(c0, a1, Property::ResponseTopic);
    lemma_last_text_append(c1, a2, Property::ResponseTopic);
    lemma_last_text_append(c2, a3, Property::ResponseTopic);
    lemma_last_text_append(c3, a4, Property::ResponseTopic);
    lemma_last_text_append(c4, a5, Property::ResponseTopic);
    lemma_last_text_append(c5, a6, Property::ResponseTopic);
    lemma_last_text_of_pairs(p.user_property.deep_view(), Property::ResponseTopic);
}

#[verifier::spinoff_prover]
#[verifier::rlimit(40)]
proof fn lemma_will_properties_correlation_data(p: WillProperties)
    ensures
        last_binary(p.entries(), Property::CorrelationData) == blob_view(p.correlation_data),
{
    let a0 = opt_text(Property::ContentType, p.content_type.deep_view());
    let a1 = opt_text(Property::ResponseTopic, p.response_topic.deep_view());
    let a2 = opt_binary(Property::CorrelationData, blob_view(p.correlation_data));
    let a3 = opt_four(Property::WillDelayInterval, p.will_delay_interval);
    let a4 = opt_four(Property::MessageExpiryInterval, p.message_expiry_interval);
    let a5 = opt_byte(Property::PayloadFormatIndicator, p.payload_format_indicator);
    let a6 = pair_entries(p.user_property.deep_view());
    let c0 = a0;
    let c1 = c0 + a1;
    let c2 = c1 + a2;
    let c3 = c2 + a3;
    let c4 = c3 + a4;
    let c5 = c4 + a5;
    let c6 = c5 + a6;
    assert(p.entries() == c6);
    reveal_with_fuel(last_binary, 2);
    lemma_last_binary_append(c0, a1, Property::CorrelationData);
    lemma_last_binary_append(c1, a2, Property::CorrelationData);
    lemma_last_binary_append(c2, a3, Property::CorrelationData);
    lemma_last_binary_append(c3, a4, Property::CorrelationData);
    lemma_last_binary_append(c4, a5, Property::CorrelationData);
    lemma_last_binary_append(c5, a6, Property::CorrelationData);
    lemma_last_binary_of_pairs(p.user_property.deep_view(), Property::CorrelationData);
}

#[verifier::spinoff_prover]
#[verifier::rlimit(40)]
proof fn lemma_will_properties_will_delay_interval(p: WillProperties)
    ensures
        last_four(p.entries(), Property::WillDelayInterval) == p.will_delay_interval,
{
    let a0 = opt_text(Property::ContentType, p.content_type.deep_view());
    let a1 = opt_text(Property::ResponseTopic, p.response_topic.deep_view());
    let a2 = opt_binary(Property::CorrelationData, blob_view(p.correlation_data));
    let a3 = opt_four(Property::WillDelayInterval, p.will_delay_interval);
    let a4 = opt_four(Property::MessageExpiryInterval, p.message_expiry_interval);
    let a5 = opt_byte(Property::PayloadFormatIndicator, p.payload_format_indicator);
    let a6 = pair_entries(p.user_property.deep_view());
    let c0 = a0;
    let c1 = c0 + a1;
    let c2 = c1 + a2;
    let c3 = c2 + a3;
    let c4 = c3 + a4;
    let c5 = c4 + a5;
    let c6 = c5 + a6;
    assert(p.entries() == c6);
    reveal_with_fuel(last_four, 2);
    lemma_last_four_append(c0, a1, Property::WillDelayInterval);
    lemma_last_four_append(c1, a2, Property::WillDelayInterval);
    lemma_last_four_append(c2, a3, Property::WillDelayInterval);
    lemma_last_four_append(c3, a4, Property::WillDelayInterval);
    lemma_last_four_append(c4, a5, Property::WillDelayInterval);
    lemma_last_four_append(c5, a6, Property::WillDelayInterval);
    lemma_last_four_of_pairs(p.user_property.deep_view(), Property::WillDelayInterval);
}

#[verifier::spinoff_prover]
#[verifier::rlimit(40)]
proof fn lemma_will_properties_message_expiry_interval(p: WillProperties)
    ensures
        last_four(p.entries(), Property::MessageExpiryInterval) == p.message_expiry_interval,
{
    let a0 = opt_text(Property::ContentType, p.content_type.deep_view());
    let a1 = opt_text(Property::ResponseTopic, p.response_topic.deep_view());
    let a2 = opt_binary(Property::CorrelationData, blob_view(p.correlation_data));
    let a3 = opt_four(Property::WillDelayInterval, p.will_delay_interval);
    let a4 = opt_four(Property::MessageExpiryInterval, p.message_expiry_interval);
    let a5 = opt_byte(Property::PayloadFormatIndicator, p.payload_format_indicator);
    let a6 = pair_entries(p.user_property.deep_view());
    let c0 = a0;
    let c1 = c0 + a1;
    let c2 = c1 + a2;
    let c3 = c2 + a3;
    let c4 = c3 + a4;
    let c5 = c4 + a5;
    let c6 = c5 + a6;
    assert(p.entries() == c6);
    reveal_with_fuel(last_four, 2);
    lemma_last_four_append(c0, a1, Property::MessageExpiryInterval);
    lemma_last_four_append(c1, a2, Property::MessageExpiryInterval);
    lemma_last_four_append(c2, a3, Property::MessageExpiryInterval);
    lemma_last_four_append(c3, a4, Property::MessageExpiryInterval);
    lemma_last_four_append(c4, a5, Property::MessageExpiryInterval);
    lemma_last_four_append(c5, a6, Property::MessageExpiryInterval);
    lemma_last_four_of_pairs(p.user_property.deep_view(), Property::MessageExpiryInterval);
}

#[verifier::spinoff_prover]
#[verifier::rlimit(40)]
proof fn lemma_will_properties_payload_format_indicator(p: WillProperties)
    ensures
        last_byte(p.entries(), Property::PayloadFormatIndicator) == p.payload_format_indicator,
{
    let a0 = opt_text(Property::ContentType, p.content_type.deep_view());
    let a1 = opt_text(Property::ResponseTopic, p.response_topic.deep_view());
    let a2 = opt_binary(Property::CorrelationData, blob_view(p.correlation_data));
    let a3 = opt_four(Property::WillDelayInterval, p.will_delay_interval);
    let a4 = opt_four(Property::MessageExpiryInterval, p.message_expiry_interval);
    let a5 = opt_byte(Property::PayloadFormatIndicator, p.payload_format_indicator);
    let a6 = pair_entries(p.user_property.deep_view());
    let c0 = a0;
    let c1 = c0 + a1;
    let c2 = c1 + a2;
    let c3 = c2 + a3;
    let c4 = c3 + a4;
    let c5 = c4 + a5;
    let c6 = c5 + a6;
    assert(p.entries() == c6);
    reveal_with_fuel(last_byte, 2);
    lemma_last_byte_append(c0, a1, Property::PayloadFormatIndicator);
    lemma_last_byte_append(c1, a2, Property::PayloadFormatIndicator);
    lemma_last_byte_append(c2, a3, Property::PayloadFormatIndicator);
    lemma_last_byte_append(c3, a4, Property::PayloadFormatIndicator);
    lemma_last_byte_append(c4, a5, Property::PayloadFormatIndicator);
    lemma_last_byte_append(c5, a6, Property::PayloadFormatIndicator);
    lemma_last_byte_of_pairs(p.user_property.deep_view(), Property::PayloadFormatIndicator);
}

#[verifier::spinoff_prover]
#[verifier::rlimit(40)]
proof fn lemma_will_properties_user_property(p: WillProperties)
    ensures
        all_pairs(p.entries()) == p.user_property.deep_view(),
{
    let a0 = opt_text(Property::ContentType, p.content_type.deep_view());
    let a1 = opt_text(Property::ResponseTopic, p.response_topic.deep_view());
    let a2 = opt_binary(Property::CorrelationData, blob_view(p.correlation_data));
    let a3 = opt_four(Property::WillDelayInterval, p.will_delay_interval);
    let a4 = opt_four(Property::MessageExpiryInterval, p.message_expiry_interval);
    let a5 = opt_byte(Property::PayloadFormatIndicator, p.payload_format_indicator);
    let a6 = pair_entries(p.user_property.deep_view());
    let c0 = a0;
    let c1 = c0 + a1;
    let c2 = c1 + a2;
    let c3 = c2 + a3;
    let c4 = c3 + a4;
    let c5 = c4 + a5;
    let c6 = c5 + a6;
    assert(p.entries() == c6);
    reveal_with_fuel(all_pairs, 2);
    lemma_all_pairs_append(c0, a1);
    lemma_all_pairs_append(c1, a2);
    lemma_all_pairs_append(c2, a3);
    lemma_all_pairs_append(c3, a4);
    lemma_all_pairs_append(c4, a5);
    lemma_all_pairs_append(c5, a6);
    lemma_all_pairs_of_pairs(p.user_property.deep_view());
    assert(all_pairs(a0) =~= seq![]);
    assert(all_pairs(a1) =~= seq![]);
    assert(all_pairs(a2) =~= seq![]);
    assert(all_pairs(a3) =~= seq![]);
    assert(all_pairs(a4) =~= seq![]);
    assert(all_pairs(a5) =~= seq![]);
    assert(all_pairs(a0) + all_pairs(a1) + all_pairs(a2) + all_pairs(a3) + all_pairs(a4) + all_pairs(a5) + all_pairs(a6) =~= p.user_property.deep_view());
}

/// The fields of WillProperties decode back from the entries they are written as.
pub proof fn lemma_will_properties_round_trip(p: WillProperties)
    ensures
        will_properties_of(p.entries()) == p@,
        forall|i: int| 0 <= i < p.entries().len() ==> shaped(#[trigger] p.entries()[i])
            && PropOwner::Will.spec_permits(p.entries()[i].0),
{
    lemma_will_properties_content_type(p);
    lemma_will_properties_response_topic(p);
    lemma_will_properties_correlation_data(p);
    lemma_will_properties_will_delay_interval(p);
    lemma_will_properties_message_expiry_interval(p);
    lemma_will_properties_payload_format_indicator(p);
    lemma_will_properties_user_property(p);
    let a0 = opt_text(Property::ContentType, p.content_type.deep_view());
    let a1 = opt_text(Property::ResponseTopic, p.response_topic.deep_view());
    let a2 = opt_binary(Property::CorrelationData, blob_view(p.correlation_data));
    let a3 = opt_four(Property::WillDelayInterval, p.will_delay_interval);
    let a4 = opt_four(Property::MessageExpiryInterval, p.message_expiry_interval);
    let a5 = opt_byte(Property::PayloadFormatIndicator, p.payload_format_indicator);
    let a6 = pair_entries(p.user_property.deep_view());
    let c0 = a0;
    let c1 = c0 + a1;
    let c2 = c1 + a2;
    let c3 = c2 + a3;
    let c4 = c3 + a4;
    let c5 = c4 + a5;
    let c6 = c5 + a6;
    assert(p.entries() == c6);
    lemma_pair_entries_shaped(p.user_property.deep_view());
    assert forall|i: int| 0 <= i < p.entries().len() implies shaped(#[trigger] p.entries()[i])
        && PropOwner::Will.spec_permits(p.entries()[i].0) by {
        if i >= c5.len() {
            assert(p.entries()[i] == a6[i - c5.len()]);
        } else if i >= c4.len() {
            assert(p.entries()[i] == a5[i - c4.len()]);
        } else if i >= c3.len() {
            assert(p.entries()[i] == a4[i - c3.len()]);
        } else if i >= c2.len() {
            assert(p.entries()[i] == a3[i - c2.len()]);
        } else if i >= c1.len() {
            assert(p.entries()[i] == a2[i - c1.len()]);
        } else if i >= c0.len() {
            assert(p.entries()[i] == a1[i - c0.len()]);
        } else {
            assert(p.entries()[i] == a0[i]);
        }
    }
}

/// CONNECT: the first packet of a session.
#[derive(Debug, Clone)]
pub struct Connect {
    pub protocol_name: String,
    pub protocol_version: Version,
    pub username_flag: bool,
    pub password_flag: bool,
    pub will_retain: bool,
    pub will_qos: QoS,
    pub will_flag: bool,
    pub clean_start: bool,
    pub keep_alive: u16,
    pub properties: Option<ConnectProperties>,
    pub client_id: String,
    pub will_properties: Option<WillProperties>,
    pub will_topic: String,
    pub will_payload: String,
    pub username: String,
    pub password: String,
}

/// The mathematical value of a [`Connect`].
pub struct ConnectView {
    pub protocol_name: Seq<char>,
    pub protocol_version: Version,
    pub username_flag: bool,
    pub password_flag: bool,
    pub will_retain: bool,
    pub will_qos: QoS,
    pub will_flag: bool,
    pub clean_start: bool,
    pub keep_alive: u16,
    pub properties: Option<ConnectPropertiesView>,
    pub client_id: Seq<char>,
    pub will_properties: Option<WillPropertiesView>,
    pub will_topic: Seq<char>,
    pub will_payload: Seq<char>,
    pub username: Seq<char>,
    pub password: Seq<char>,
}

impl View for Connect {
    type V = ConnectView;

    open spec fn view(&self) -> ConnectView {
        ConnectView {
            protocol_name: self.protocol_name@,
            protocol_version: self.protocol_version,
            username_flag: self.username_flag,
            password_flag: self.password_flag,
            will_retain: self.will_retain,
            will_qos: self.will_qos,
            will_flag: self.will_flag,
            clean_start: self.clean_start,
            keep_alive: self.keep_alive,
            properties: connect_properties_view(self.properties),
            client_id: self.client_id@,
            will_properties: will_properties_view(self.will_properties),
            will_topic: self.will_topic@,
            will_payload: self.will_payload@,
            username: self.username@,
            password: self.password@,
        }
    }
}

/// The bytes of "MQTT" or of "MQIsdp".
pub open spec fn is_protocol_name(b: Seq<u8>) -> bool {
    (b.len() == 4 && b[0] == 0x4D && b[1] == 0x51 && b[2] == 0x54 && b[3] == 0x54) || (b.len()
        == 6 && b[0] == 0x4D && b[1] == 0x51 && b[2] == 0x49 && b[3] == 0x73 && b[4] == 0x64
        && b[5] == 0x70)
}

fn check_protocol_name(b: &[u8]) -> (r: bool)
    ensures
        r == is_protocol_name(b@),
{
    (b.len() == 4 && b[0] == 0x4D && b[1] == 0x51 && b[2] == 0x54 && b[3] == 0x54) || (b.len()
        == 6 && b[0] == 0x4D && b[1] == 0x51 && b[2] == 0x49 && b[3] == 0x73 && b[4] == 0x64
        && b[5] == 0x70)
}

/// A string where `flag` says one is present; else the empty string, from no byte.
pub open spec fn spec_opt_string(flag: bool, s: Seq<u8>) -> Parsed<Seq<char>> {
    if flag {
        spec_string(s)
    } else {
        Ok((seq![], 0))
    }
}

fn read_opt_string(flag: bool, data: &[u8], pos: usize, end: usize) -> (r: Result<(String, usize), Error>)
    requires
        pos <= end <= data@.len(),
    ensures
        tracks(r, spec_opt_string(flag, region(data@, pos, end)), pos),
{
    if flag {
        read_string(data, pos, end)
    } else {
        Ok((String::new(), pos))
    }
}

/// A CONNECT body: the protocol name, "MQTT" or "MQIsdp" (another fails with
/// `InvalidProtocol`), then the rest.
pub open spec fn spec_connect(s: Seq<u8>) -> Result<ConnectView, ErrorView> {
    match spec_binary(s) {
        Err(e) => Err(e),
        Ok((name, n)) => if !valid_utf8(name) {
            Err(ErrorView::NotUtf8)
        } else if !is_protocol_name(name) {
            Err(ErrorView::InvalidProtocol(decode_utf8(name)))
        } else {
            spec_connect_header(decode_utf8(name), s.skip(n))
        },
    }
}

/// After the protocol name: the protocol level (3, 4 or 5, else
/// `InvalidProtocolVersion`), the connect flags (username bit 7, password bit 6,
/// will retain bit 5, will QoS bits 4-3, will bit 2, clean start bit 1) and the
/// keepalive.
pub open spec fn spec_connect_header(name: Seq<char>, s: Seq<u8>) -> Result<ConnectView, ErrorView> {
    if s.len() < 1 {
        Err(ErrorView::PacketTooShort)
    } else {
        match Version::spec_from_byte(s[0]) {
            None => Err(ErrorView::InvalidProtocolVersion(s[0])),
            Some(v) => if s.len() < 2 {
                Err(ErrorView::PacketTooShort)
            } else {
                let f = s[1];
                let q = (f / 8 % 4) as u8;
                match QoS::spec_from_byte(q) {
                    None => Err(ErrorView::InvalidQoS(q)),
                    Some(wq) => match spec_u16(s.skip(2)) {
                        Err(e) => Err(e),
                        Ok((ka, _)) => spec_connect_payload(
                            ConnectView {
                                protocol_name: name,
                                protocol_version: v,
                                username_flag: f / 128 % 2 == 1,
                                password_flag: f / 64 % 2 == 1,
                                will_retain: f / 32 % 2 == 1,
                                will_qos: wq,
                                will_flag: f / 4 % 2 == 1,
                                clean_start: f / 2 % 2 == 1,
                                keep_alive: ka,
                                properties: None,
                                client_id: seq![],
                                will_properties: None,
                                will_topic: seq![],
                                will_payload: seq![],
                                username: seq![],
                                password: seq![],
                            },
                            s.skip(4),
                        ),
                    },
                }
            },
        }
    }
}

/// After the keepalive: the property block in v5, then the client identifier.
pub open spec fn spec_connect_payload(c: ConnectView, s: Seq<u8>) -> Result<ConnectView, ErrorView> {
    match (if c.protocol_version == Version::V5 {
        spec_connect_properties(s)
    } else {
        Ok((None, 0int))
    }) {
        Err(e) => Err(e),
        Ok((props, n)) => match spec_string(s.skip(n)) {
            Err(e) => Err(e),
            Ok((id, m)) => spec_connect_will(
                ConnectView { properties: props, client_id: id, ..c },
                s.skip(n + m),
            ),
        },
    }
}

/// Where the will flag is set: the will properties in v5, then the will message.
pub open spec fn spec_connect_will(c: ConnectView, s: Seq<u8>) -> Result<ConnectView, ErrorView> {
    if !c.will_flag {
        spec_connect_credentials(c, s)
    } else {
        match (if c.protocol_version == Version::V5 {
            spec_will_properties(s)
        } else {
            Ok((None, 0int))
        }) {
            Err(e) => Err(e),
            Ok((wp, n)) => spec_will_message(ConnectView { will_properties: wp, ..c }, s.skip(n)),
        }
    }
}

/// The will topic and the will payload.
pub open spec fn spec_will_message(c: ConnectView, s: Seq<u8>) -> Result<ConnectView, ErrorView> {
    match spec_string(s) {
        Err(e) => Err(e),
        Ok((t, m)) => match spec_string(s.skip(m)) {
            Err(e) => Err(e),
            Ok((pl, k)) => spec_connect_credentials(
                ConnectView { will_topic: t, will_payload: pl, ..c },
                s.skip(m + k),
            ),
        },
    }
}

/// The user name where its flag is set, then the password where its flag is set.
pub open spec fn spec_connect_credentials(c: ConnectView, s: Seq<u8>) -> Result<ConnectView, ErrorView> {
    match spec_opt_string(c.username_flag, s) {
        Err(e) => Err(e),
        Ok((u, n)) => match spec_opt_string(c.password_flag, s.skip(n)) {
            Err(e) => Err(e),
            Ok((pw, _)) => Ok(ConnectView { username: u, password: pw, ..c }),
        },
    }
}

impl Connect {
    pub fn new() -> (r: Connect)
        ensures
            r.protocol_name@.len() == 0,
            r.protocol_version == Version::V5,
            !r.username_flag && !r.password_flag && !r.will_retain && !r.will_flag
                && !r.clean_start,
            r.will_qos == QoS::AtMostOnce,
            r.keep_alive == 0,
            r.properties is None && r.will_properties is None,
            r.client_id@.len() == 0 && r.will_topic@.len() == 0 && r.will_payload@.len() == 0,
            r.username@.len() == 0 && r.password@.len() == 0,
    {
        Connect {
            protocol_name: String::new(),
            protocol_version: Version::V5,
            username_flag: false,
            password_flag: false,
            will_retain: false,
            will_qos: QoS::AtMostOnce,
            will_flag: false,
            clean_start: false,
            keep_alive: 0,
            properties: None,
            client_id: String::new(),
            will_properties: None,
            will_topic: String::new(),
            will_payload: String::new(),
            username: String::new(),
            password: String::new(),
        }
    }

    /// Decodes a CONNECT body.
    pub fn read(read: &[u8]) -> (r: Result<Connect, Error>)
        ensures
            result_view(r) == spec_connect(read@),
    {
        let end = read.len();
        assert(region(read@, 0, end) =~= read@);
        let (name, p) = read_binary(read, 0, end)?;
        let known = check_protocol_name(name.as_slice());
        let name = match utf8_to_string(name) {
            Some(s) => s,
            None => return Err(Error::NotUtf8),
        };
        if !known {
            return Err(Error::InvalidProtocol(name));
        }
        assert(region(read@, p, end) =~= read@.skip(p as int));
        Connect::read_header(name, read, p)
    }

    fn read_header(name: String, read: &[u8], pos: usize) -> (r: Result<Connect, Error>)
        requires
            pos <= read@.len(),
        ensures
            result_view(r) == spec_connect_header(name@, read@.skip(pos as int)),
    {
        let end = read.len();
        let ghost s = read@.skip(pos as int);
        assert(region(read@, pos, end) =~= s);
        let (b, p) = get_u8(read, pos, end)?;
        let version = match Version::from_byte(b) {
            Some(v) => v,
            None => return Err(Error::InvalidProtocolVersion(b)),
        };
        let (f, p) = get_u8(read, p, end)?;
        let q = f / 8 % 4;
        let will_qos = match QoS::from_byte(q) {
            Some(wq) => wq,
            None => return Err(Error::InvalidQoS(q)),
        };
        assert(region(read@, p, end) =~= s.skip(2));
        let (keep_alive, p) = get_u16(read, p, end)?;
        let mut c = Connect::new();
        c.protocol_name = name;
        c.protocol_version = version;
        c.username_flag = f / 128 % 2 == 1;
        c.password_flag = f / 64 % 2 == 1;
        c.will_retain = f / 32 % 2 == 1;
        c.will_qos = will_qos;
        c.will_flag = f / 4 % 2 == 1;
        c.clean_start = f / 2 % 2 == 1;
        c.keep_alive = keep_alive;
        assert(c@.client_id =~= seq![] && c@.will_topic =~= seq![] && c@.will_payload =~= seq![]
            && c@.username =~= seq![] && c@.password =~= seq![]);
        assert(region(read@, p, end) =~= s.skip(4));
        Connect::read_payload(c, read, p)
    }

    fn read_payload(c: Connect, read: &[u8], pos: usize) -> (r: Result<Connect, Error>)
        requires
            pos <= read@.len(),
        ensures
            result_view(r) == spec_connect_payload(c@, region(read@, pos, read@.len() as usize)),
    {
        let end = read.len();
        let ghost s = region(read@, pos, end);
        let ghost c0 = c@;
        let mut c = c;
        let (props, p) = if c.protocol_version == Version::V5 {
            ConnectProperties::read(read, pos, end)?
        } else {
            (None, pos)
        };
        let ghost pv = connect_properties_view(props);
        assert((if c0.protocol_version == Version::V5 {
            spec_connect_properties(s)
        } else {
            Ok((None, 0int))
        }) == Parsed::<Option<ConnectPropertiesView>>::Ok((pv, p - pos)));
        assert(region(read@, p, end) =~= s.skip(p - pos));
        let (id, q) = read_string(read, p, end)?;
        let ghost idv = id@;
        c.properties = props;
        c.client_id = id;
        assert(c@ == ConnectView { properties: pv, client_id: idv, ..c0 });
        assert(region(read@, q, end) =~= s.skip(q - pos));
        Connect::read_will(c, read, q)
    }

    fn read_will(c: Connect, read: &[u8], pos: usize) -> (r: Result<Connect, Error>)
        requires
            pos <= read@.len(),
        ensures
            result_view(r) == spec_connect_will(c@, region(read@, pos, read@.len() as usize)),
    {
        if !c.will_flag {
            return Connect::read_credentials(c, read, pos);
        }
        let end = read.len();
        let ghost s = region(read@, pos, end);
        let ghost c0 = c@;
        let mut c = c;
        let (props, p) = if c.protocol_version == Version::V5 {
            WillProperties::read(read, pos, end)?
        } else {
            (None, pos)
        };
        let ghost pv = will_properties_view(props);
        assert((if c0.protocol_version == Version::V5 {
            spec_will_properties(s)
        } else {
            Ok((None, 0int))
        }) == Parsed::<Option<WillPropertiesView>>::Ok((pv, p - pos)));
        c.will_properties = props;
        assert(c@ == ConnectView { will_properties: pv, ..c0 });
        assert(region(read@, p, end) =~= s.skip(p - pos));
        Connect::read_will_message(c, read, p)
    }

    fn read_will_message(c: Connect, read: &[u8], pos: usize) -> (r: Result<Connect, Error>)
        requires
            pos <= read@.len(),
        ensures
            result_view(r) == spec_will_message(c@, region(read@, pos, read@.len() as usize)),
    {
        let end = read.len();
        let ghost s = region(read@, pos, end);
        let ghost c0 = c@;
        let mut c = c;
        let (topic, q) = read_string(read, pos, end)?;
        assert(region(read@, q, end) =~= s.skip(q - pos));
        let (payload, k) = read_string(read, q, end)?;
        let ghost tv = topic@;
        let ghost plv = payload@;
        c.will_topic = topic;
        c.will_payload = payload;
        assert(c@ == ConnectView { will_topic: tv, will_payload: plv, ..c0 });
        assert(region(read@, k, end) =~= s.skip(k - pos));
        Connect::read_credentials(c, read, k)
    }

    fn read_credentials(c: Connect, read: &[u8], pos: usize) -> (r: Result<Connect, Error>)
        requires
            pos <= read@.len(),
        ensures
            result_view(r) == spec_connect_credentials(c@, region(read@, pos, read@.len() as usize)),
    {
        let end = read.len();
        let ghost s = region(read@, pos, end);
        let mut c = c;
        let (username, p) = read_opt_string(c.username_flag, read, pos, end)?;
        c.username = username;
        assert(region(read@, p, end) =~= s.skip(p - pos));
        let (password, _) = read_opt_string(c.password_flag, read, p, end)?;
        c.password = password;
        Ok(c)
    }
}

/// A CONNECT below v5 carries no property block: what follows the keepalive is
/// read as the client identifier, and nothing decodes as properties.
pub proof fn lemma_version_gating(s: Seq<u8>)
    ensures
        spec_connect(s) is Ok && spec_connect(s)->Ok_0.protocol_version != Version::V5
            ==> spec_connect(s)->Ok_0.properties is None && spec_connect(s)->Ok_0.will_properties
            is None,
{
    if let Ok((name, n)) = spec_binary(s) {
        let t = s.skip(n);
        if valid_utf8(name) && is_protocol_name(name) && t.len() >= 2 {
            if let Some(v) = Version::spec_from_byte(t[0]) {
                if v != Version::V5 {
                    lemma_payload_without_properties(t);
                }
            }
        }
    }
}

proof fn lemma_payload_without_properties(t: Seq<u8>)
    requires
        t.len() >= 2,
        Version::spec_from_byte(t[0]) matches Some(v) && v != Version::V5,
    ensures
        forall|name: Seq<char>|
            #![trigger spec_connect_header(name, t)]
            spec_connect_header(name, t) is Ok ==> spec_connect_header(name, t)->Ok_0.properties
                is None && spec_connect_header(name, t)->Ok_0.will_properties is None,
{
    assert forall|name: Seq<char>|
        #![trigger spec_connect_header(name, t)]
        spec_connect_header(name, t) is Ok implies spec_connect_header(name, t)->Ok_0.properties
            is None && spec_connect_header(name, t)->Ok_0.will_properties is None by {
        let f = t[1];
        let q = (f / 8 % 4) as u8;
        if let Some(wq) = QoS::spec_from_byte(q) {
            if let Ok((ka, _)) = spec_u16(t.skip(2)) {
                let v = Version::spec_from_byte(t[0])->Some_0;
                let c0 = ConnectView {
                    protocol_name: name,
                    protocol_version: v,
                    username_flag: f / 128 % 2 == 1,
                    password_flag: f / 64 % 2 == 1,
                    will_retain: f / 32 % 2 == 1,
                    will_qos: wq,
                    will_flag: f / 4 % 2 == 1,
                    clean_start: f / 2 % 2 == 1,
                    keep_alive: ka,
                    properties: None,
                    client_id: seq![],
                    will_properties: None,
                    will_topic: seq![],
                    will_payload: seq![],
                    username: seq![],
                    password: seq![],
                };
                let u = t.skip(4);
                if let Ok((id, m)) = spec_string(u) {
                    let c1 = ConnectView { properties: None, client_id: id, ..c0 };
                    let w = u.skip(m);
                    if c1.will_flag {
                        let c2 = ConnectView { will_properties: None, ..c1 };
                        assert(w.skip(0) =~= w);
                        assert(spec_connect_will(c1, w) == spec_will_message(c2, w));
                    }
                }
            }
        }
    }
}

/// The connect flags: user name bit 7, password bit 6, will retain bit 5, will
/// QoS bits 4-3, will bit 2, clean start bit 1.
pub open spec fn flags_byte(c: ConnectView) -> u8 {
    ((if c.username_flag { 128int } else { 0 }) + (if c.password_flag { 64int } else { 0 }) + (
    if c.will_retain {
        32int
    } else {
        0
    }) + 8 * c.will_qos.spec_byte() + (if c.will_flag { 4int } else { 0 }) + (if c.clean_start {
        2int
    } else {
        0
    })) as u8
}

/// A string where `flag` says one is written; else nothing.
pub open spec fn opt_string_bytes(flag: bool, c: Seq<char>) -> Seq<u8> {
    if flag {
        string_bytes(c)
    } else {
        seq![]
    }
}

impl Connect {
    pub open spec fn prop_entries(&self) -> Seq<EntryView> {
        match self.properties {
            Some(p) => p.entries(),
            None => seq![],
        }
    }

    pub open spec fn will_entries(&self) -> Seq<EntryView> {
        match self.will_properties {
            Some(p) => p.entries(),
            None => seq![],
        }
    }

    /// The user name where its flag is set, then the password where its flag is set.
    pub open spec fn credentials_bytes(&self) -> Seq<u8> {
        opt_string_bytes(self.username_flag, self.username@) + opt_string_bytes(
            self.password_flag,
            self.password@,
        )
    }

    /// Where the will flag is set: the will property block in v5, the will topic
    /// and the will payload.
    pub open spec fn will_bytes(&self) -> Seq<u8> {
        if self.will_flag {
            v5_block(self.will_entries(), self.protocol_version) + string_bytes(self.will_topic@)
                + string_bytes(self.will_payload@)
        } else {
            seq![]
        }
    }

    /// What follows the keepalive.
    pub open spec fn payload_bytes(&self) -> Seq<u8> {
        v5_block(self.prop_entries(), self.protocol_version) + string_bytes(self.client_id@)
            + self.will_bytes() + self.credentials_bytes()
    }

    /// The body: the protocol name, the protocol level, the connect flags, the
    /// keepalive, then the payload; the version of the packet is its own
    /// protocol level.
    pub open spec fn body(&self) -> Seq<u8> {
        string_bytes(self.protocol_name@) + seq![self.protocol_version.spec_byte(), flags_byte(self@)]
            + u16_bytes(self.keep_alive) + self.payload_bytes()
    }

    /// Whether the packet can be written: every string it writes and every block
    /// fits, and so does the body.
    pub open spec fn fits(&self) -> bool {
        &&& string_fits(self.protocol_name@)
        &&& self.payload_fits()
        &&& self.body().len() <= MAX_REMAINING_LENGTH
    }

    /// Appends the whole packet, for its own protocol level; fails with
    /// `PayloadTooLong` where a field does not fit.
    #[verifier::rlimit(100)]
    pub fn pack(self, out: &mut Vec<u8>) -> (r: Result<(), Error>)
        ensures
            self.fits() ==> r is Ok && final(out)@ == old(out)@ + frame_bytes(0x10, self.body()),
            !self.fits() ==> r is Err && r->Err_0@ == ErrorView::PayloadTooLong,
    {
        let ghost me = self;
        let version = self.protocol_version;
        let flags = connect_flags(&self);
        let mut body: Vec<u8> = Vec::new();
        write_string(&mut body, self.protocol_name.as_str())?;
        body.push(version.byte());
        body.push(flags);
        put_u16(&mut body, self.keep_alive);
        let ghost head = body@;
        assert(head =~= string_bytes(me.protocol_name@) + seq![
            me.protocol_version.spec_byte(),
            flags_byte(me@),
        ] + u16_bytes(me.keep_alive));
        let es = connect_entries(self.properties);
        let ws = will_entries(self.will_properties);
        write_payload(
            &mut body,
            version,
            &es,
            &self.client_id,
            self.will_flag,
            &ws,
            &self.will_topic,
            &self.will_payload,
            self.username_flag,
            &self.username,
            self.password_flag,
            &self.password,
        )?;
        assert(body@ =~= head + me.payload_bytes());
        assert(body@ =~= me.body());
        write_frame(out, 0x10, body.as_slice())
    }

    /// Whether the strings and blocks after the keepalive fit.
    pub open spec fn payload_fits(&self) -> bool {
        &&& string_fits(self.client_id@)
        &&& v5_block_fits(self.prop_entries(), self.protocol_version)
        &&& self.will_flag ==> v5_block_fits(self.will_entries(), self.protocol_version)
            && string_fits(self.will_topic@) && string_fits(self.will_payload@)
        &&& self.username_flag ==> string_fits(self.username@)
        &&& self.password_flag ==> string_fits(self.password@)
    }
}

fn connect_entries(o: Option<ConnectProperties>) -> (r: Vec<Entry>)
    ensures
        entries_view(r@) == (match o {
            Some(p) => p.entries(),
            None => seq![],
        }),
{
    match o {
        Some(p) => p.to_entries(),
        None => {
            assert(entries_view(Seq::<Entry>::empty()) =~= seq![]);
            Vec::new()
        },
    }
}

fn will_entries(o: Option<WillProperties>) -> (r: Vec<Entry>)
    ensures
        entries_view(r@) == (match o {
            Some(p) => p.entries(),
            None => seq![],
        }),
{
    match o {
        Some(p) => p.to_entries(),
        None => {
            assert(entries_view(Seq::<Entry>::empty()) =~= seq![]);
            Vec::new()
        },
    }
}

fn connect_flags(c: &Connect) -> (r: u8)
    ensures
        r == flags_byte(c@),
{
    (if c.username_flag { 128u8 } else { 0 }) + (if c.password_flag { 64u8 } else { 0 }) + (
    if c.will_retain {
        32u8
    } else {
        0
    }) + 8 * c.will_qos.byte() + (if c.will_flag { 4u8 } else { 0 }) + (if c.clean_start {
        2u8
    } else {
        0
    })
}

fn write_payload(
    out: &mut Vec<u8>,
    version: Version,
    es: &Vec<Entry>,
    client_id: &String,
    will_flag: bool,
    ws: &Vec<Entry>,
    topic: &String,
    payload: &String,
    username_flag: bool,
    username: &String,
    password_flag: bool,
    password: &String,
) -> (r: Result<(), Error>)
    ensures
        ({
            &&& string_fits(client_id@)
            &&& v5_block_fits(entries_view(es@), version)
            &&& will_flag ==> v5_block_fits(entries_view(ws@), version) && string_fits(topic@)
                && string_fits(payload@)
            &&& username_flag ==> string_fits(username@)
            &&& password_flag ==> string_fits(password@)
        }) ==> r is Ok && final(out)@ == old(out)@ + v5_block(entries_view(es@), version)
            + string_bytes(client_id@) + (if will_flag {
            v5_block(entries_view(ws@), version) + string_bytes(topic@) + string_bytes(payload@)
        } else {
            seq![]
        }) + (opt_string_bytes(username_flag, username@) + opt_string_bytes(
            password_flag,
            password@,
        )),
        !({
            &&& string_fits(client_id@)
            &&& v5_block_fits(entries_view(es@), version)
            &&& will_flag ==> v5_block_fits(entries_view(ws@), version) && string_fits(topic@)
                && string_fits(payload@)
            &&& username_flag ==> string_fits(username@)
            &&& password_flag ==> string_fits(password@)
        }) ==> r is Err && r->Err_0@ == ErrorView::PayloadTooLong,
{
    write_v5_block(out, es, version)?;
    write_string(out, client_id.as_str())?;
    write_will(out, will_flag, ws, version, topic, payload)?;
    write_credentials(out, username_flag, username, password_flag, password)?;
    Ok(())
}

fn write_will(
    out: &mut Vec<u8>,
    will_flag: bool,
    ws: &Vec<Entry>,
    version: Version,
    topic: &String,
    payload: &String,
) -> (r: Result<(), Error>)
    ensures
        (will_flag ==> v5_block_fits(entries_view(ws@), version) && string_fits(topic@)
            && string_fits(payload@)) ==> r is Ok && final(out)@ == old(out)@ + (if will_flag {
            v5_block(entries_view(ws@), version) + string_bytes(topic@) + string_bytes(payload@)
        } else {
            seq![]
        }),
        !(will_flag ==> v5_block_fits(entries_view(ws@), version) && string_fits(topic@)
            && string_fits(payload@)) ==> r is Err && r->Err_0@ == ErrorView::PayloadTooLong,
{
    if will_flag {
        write_v5_block(out, ws, version)?;
        write_string(out, topic.as_str())?;
        write_string(out, payload.as_str())?;
        assert(out@ =~= old(out)@ + (v5_block(entries_view(ws@), version) + string_bytes(topic@)
            + string_bytes(payload@)));
    } else {
        assert(out@ =~= old(out)@ + seq![]);
    }
    Ok(())
}

fn write_credentials(
    out: &mut Vec<u8>,
    username_flag: bool,
    username: &String,
    password_flag: bool,
    password: &String,
) -> (r: Result<(), Error>)
    ensures
        (username_flag ==> string_fits(username@)) && (password_flag ==> string_fits(password@))
            ==> r is Ok && final(out)@ == old(out)@ + opt_string_bytes(username_flag, username@)
            + opt_string_bytes(password_flag, password@),
        !((username_flag ==> string_fits(username@)) && (password_flag ==> string_fits(
            password@,
        ))) ==> r is Err && r->Err_0@ == ErrorView::PayloadTooLong,
{
    if username_flag {
        write_string(out, username.as_str())?;
    }
    let ghost mid = out@;
    if password_flag {
        write_string(out, password.as_str())?;
    }
    assert(out@ =~= old(out)@ + opt_string_bytes(username_flag, username@) + opt_string_bytes(
        password_flag,
        password@,
    ));
    Ok(())
}

} // verus!
