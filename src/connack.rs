use vstd::prelude::*;
use crate::codec::{
    frame_bytes, get_u8, region, write_frame, MAX_REMAINING_LENGTH,
};
use crate::error::{result_view, Error, ErrorView, Parsed};
use crate::kinds::{Property, ReasonCode, Version};
use crate::property::{
    all_pairs, all_vars, blob_view, block_bytes, block_fits, codes_bytes, entries_bytes,
    entries_fit, entries_view, last_binary, last_byte, last_four, last_text, last_two,
    lemma_all_pairs_append, lemma_all_pairs_of_pairs, lemma_all_pairs_of_vars,
    lemma_all_vars_append, lemma_all_vars_of_pairs, lemma_all_vars_of_vars,
    lemma_block_round_trip, lemma_entries_view_drop_first, lemma_last_binary_append,
    lemma_last_binary_of_pairs, lemma_last_binary_of_vars, lemma_last_byte_append,
    lemma_last_byte_of_pairs, lemma_last_byte_of_vars, lemma_last_four_append,
    lemma_last_four_of_pairs, lemma_last_four_of_vars, lemma_last_text_append,
    lemma_last_text_of_pairs, lemma_last_text_of_vars, lemma_last_two_append,
    lemma_last_two_of_pairs, lemma_last_two_of_vars, lemma_pair_entries_shaped,
    lemma_var_entries_shaped, opt_binary, opt_byte, opt_four, opt_text, opt_two, pair_entries,
    push_opt_binary, push_opt_byte, push_opt_four, push_opt_text, push_opt_two,
    push_pairs, push_vars, put_codes, read_block, shaped, spec_block, spec_codes, read_codes, lemma_codes_round_trip, v5_block,
    v5_block_fits, var_entries, write_block, write_entries, write_v5_block, Entry, EntryView,
    PropOwner, PropValue,
};

verus! {

/// The properties of a v5 CONNACK packet.
#[derive(Debug, Clone)]
pub struct ConnAckProperties {
    pub session_expiry_interval: Option<u32>,
    pub assigned_client_identifier: Option<String>,
    pub server_keep_alive: Option<u16>,
    pub auth_method: Option<String>,
    pub auth_data: Option<Vec<u8>>,
    pub response_info: Option<String>,
    pub server_reference: Option<String>,
    pub reason_string: Option<String>,
    pub receive_maximum: Option<u16>,
    pub topic_alias_max: Option<u16>,
    pub maximum_qos: Option<u8>,
    pub retain_available: Option<u8>,
    pub user_property: Vec<(String, String)>,
    pub max_packet_size: Option<u32>,
    pub wildcard_sub_available: Option<u8>,
    pub sub_identifier_available: Option<u8>,
    pub shared_sub_available: Option<u8>,
}

/// The mathematical value of a [`ConnAckProperties`].
pub struct ConnAckPropertiesView {
    pub session_expiry_interval: Option<u32>,
    pub assigned_client_identifier: Option<Seq<char>>,
    pub server_keep_alive: Option<u16>,
    pub auth_method: Option<Seq<char>>,
    pub auth_data: Option<Seq<u8>>,
    pub response_info: Option<Seq<char>>,
    pub server_reference: Option<Seq<char>>,
    pub reason_string: Option<Seq<char>>,
    pub receive_maximum: Option<u16>,
    pub topic_alias_max: Option<u16>,
    pub maximum_qos: Option<u8>,
    pub retain_available: Option<u8>,
    pub user_property: Seq<(Seq<char>, Seq<char>)>,
    pub max_packet_size: Option<u32>,
    pub wildcard_sub_available: Option<u8>,
    pub sub_identifier_available: Option<u8>,
    pub shared_sub_available: Option<u8>,
}

impl View for ConnAckProperties {
    type V = ConnAckPropertiesView;

    open spec fn view(&self) -> ConnAckPropertiesView {
        ConnAckPropertiesView {
            session_expiry_interval: self.session_expiry_interval,
            assigned_client_identifier: self.assigned_client_identifier.deep_view(),
            server_keep_alive: self.server_keep_alive,
            auth_method: self.auth_method.deep_view(),
            auth_data: blob_view(self.auth_data),
            response_info: self.response_info.deep_view(),
            server_reference: self.server_reference.deep_view(),
            reason_string: self.reason_string.deep_view(),
            receive_maximum: self.receive_maximum,
            topic_alias_max: self.topic_alias_max,
            maximum_qos: self.maximum_qos,
            retain_available: self.retain_available,
            user_property: self.user_property.deep_view(),
            max_packet_size: self.max_packet_size,
            wildcard_sub_available: self.wildcard_sub_available,
            sub_identifier_available: self.sub_identifier_available,
            shared_sub_available: self.shared_sub_available,
        }
    }
}

pub open spec fn conn_ack_properties_view(o: Option<ConnAckProperties>) -> Option<ConnAckPropertiesView> {
    match o {
        Some(p) => Some(p@),
        None => None,
    }
}

/// The fields that a list of decoded entries gives: for each single-valued
/// property the last entry, for the repeatable ones every entry in order.
pub open spec fn conn_ack_properties_of(es: Seq<EntryView>) -> ConnAckPropertiesView {
    ConnAckPropertiesView {
        session_expiry_interval: last_four(es, Property::SessionExpiryInterval),
        assigned_client_identifier: last_text(es, Property::AssignedClientIdentifier),
        server_keep_alive: last_two(es, Property::ServerKeepAlive),
        auth_method: last_text(es, Property::AuthMethod),
        auth_data: last_binary(es, Property::AuthData),
        response_info: last_text(es, Property::ResponseInfo),
        server_reference: last_text(es, Property::ServerReference),
        reason_string: last_text(es, Property::ReasonString),
        receive_maximum: last_two(es, Property::ReceiveMaximum),
        topic_alias_max: last_two(es, Property::TopicAliasMax),
        maximum_qos: last_byte(es, Property::MaximumQoS),
        retain_available: last_byte(es, Property::RetainAvailable),
        user_property: all_pairs(es),
        max_packet_size: last_four(es, Property::MaxPacketSize),
        wildcard_sub_available: last_byte(es, Property::WildcardSubAvailable),
        sub_identifier_available: last_byte(es, Property::SubIdentifierAvailable),
        shared_sub_available: last_byte(es, Property::SharedSubAvailable),
    }
}

/// A property block at the front of `s`, as these fields.
pub open spec fn spec_conn_ack_properties(s: Seq<u8>) -> Parsed<Option<ConnAckPropertiesView>> {
    match spec_block(s, PropOwner::ConnAck) {
        Ok((Some(es), n)) => Ok((Some(conn_ack_properties_of(es)), n)),
        Ok((None, n)) => Ok((None, n)),
        Err(e) => Err(e),
    }
}

impl ConnAckProperties {
    /// No property set.
    pub open spec fn spec_empty(&self) -> bool {
        self.session_expiry_interval is None && self.assigned_client_identifier is None && self.server_keep_alive is None && self.auth_method is None && self.auth_data is None && self.response_info is None && self.server_reference is None && self.reason_string is None && self.receive_maximum is None && self.topic_alias_max is None && self.maximum_qos is None && self.retain_available is None && self.user_property@.len() == 0 && self.max_packet_size is None && self.wildcard_sub_available is None && self.sub_identifier_available is None && self.shared_sub_available is None
    }

    pub fn new() -> (r: ConnAckProperties)
        ensures
            r.spec_empty(),
    {
        ConnAckProperties {
            session_expiry_interval: None,
            assigned_client_identifier: None,
            server_keep_alive: None,
            auth_method: None,
            auth_data: None,
            response_info: None,
            server_reference: None,
            reason_string: None,
            receive_maximum: None,
            topic_alias_max: None,
            maximum_qos: None,
            retain_available: None,
            user_property: Vec::new(),
            max_packet_size: None,
            wildcard_sub_available: None,
            sub_identifier_available: None,
            shared_sub_available: None,
        }
    }

    fn from_entries(es: Vec<Entry>) -> (r: ConnAckProperties)
        ensures
            r@ == conn_ack_properties_of(entries_view(es@)),
    {
        let ghost all = entries_view(es@);
        let mut prop = ConnAckProperties::new();
        let mut rest = es;
        let ghost mut i: int = 0;
        assert(all.take(0) =~= Seq::<EntryView>::empty());
        assert(prop.user_property.deep_view() =~= seq![]);
        while rest.len() > 0
            invariant
                0 <= i <= all.len(),
                entries_view(rest@) == all.skip(i),
                prop@ == conn_ack_properties_of(all.take(i)),
            decreases rest@.len(),
        {
            let ghost before = rest@;
            assert(entries_view(before).len() == before.len());
            assert(all.skip(i)[0] == all[i]);
            assert(entries_view(before)[0] == all[i]);
            let (p, v) = rest.remove(0);
            let ghost e = (p, v@);
            assert(e == all[i]);
            let ghost old_prop = prop;
            match (p, v) {
                (Property::SessionExpiryInterval, PropValue::Four(x)) => {
                    prop.session_expiry_interval = Some(x);
                },
                (Property::AssignedClientIdentifier, PropValue::Text(x)) => {
                    prop.assigned_client_identifier = Some(x);
                },
                (Property::ServerKeepAlive, PropValue::Two(x)) => {
                    prop.server_keep_alive = Some(x);
                },
                (Property::AuthMethod, PropValue::Text(x)) => {
                    prop.auth_method = Some(x);
                },
                (Property::AuthData, PropValue::Binary(x)) => {
                    prop.auth_data = Some(x);
                },
                (Property::ResponseInfo, PropValue::Text(x)) => {
                    prop.response_info = Some(x);
                },
                (Property::ServerReference, PropValue::Text(x)) => {
                    prop.server_reference = Some(x);
                },
                (Property::ReasonString, PropValue::Text(x)) => {
                    prop.reason_string = Some(x);
                },
                (Property::ReceiveMaximum, PropValue::Two(x)) => {
                    prop.receive_maximum = Some(x);
                },
                (Property::TopicAliasMax, PropValue::Two(x)) => {
                    prop.topic_alias_max = Some(x);
                },
                (Property::MaximumQoS, PropValue::Byte(x)) => {
                    prop.maximum_qos = Some(x);
                },
                (Property::RetainAvailable, PropValue::Byte(x)) => {
                    prop.retain_available = Some(x);
                },
                (Property::UserProperty, PropValue::Pair(key, value)) => {
                    prop.user_property.push((key, value));
                    assert(prop.user_property.deep_view() =~= old_prop.user_property.deep_view().push((e.1->Pair_0, e.1->Pair_1)));
                },
                (Property::MaxPacketSize, PropValue::Four(x)) => {
                    prop.max_packet_size = Some(x);
                },
                (Property::WildcardSubAvailable, PropValue::Byte(x)) => {
                    prop.wildcard_sub_available = Some(x);
                },
                (Property::SubIdentifierAvailable, PropValue::Byte(x)) => {
                    prop.sub_identifier_available = Some(x);
                },
                (Property::SharedSubAvailable, PropValue::Byte(x)) => {
                    prop.shared_sub_available = Some(x);
                },
                _ => {},
            }
            proof {
                let t = all.take(i + 1);
                assert(t.drop_last() =~= all.take(i));
                assert(t.last() == e);
                lemma_entries_view_drop_first(before);
                assert(rest@ =~= before.drop_first());
                assert(all.skip(i + 1) =~= all.skip(i).drop_first());
                i = i + 1;
            }
        }
        assert(all.take(i) =~= all);
        prop
    }

    /// Decodes a property block starting at `pos`, read no further than `end`:
    /// `None` for an empty block, and the position just after the block.
    pub fn unpack(data: &[u8], pos: usize, end: usize) -> (r: Result<(Option<ConnAckProperties>, usize), Error>)
        requires
            pos <= end <= data@.len(),
        ensures
            match r {
                Ok((p, q)) => spec_conn_ack_properties(region(data@, pos, end)) == Parsed::<
                    Option<ConnAckPropertiesView>,
                >::Ok((conn_ack_properties_view(p), q - pos)) && pos <= q <= end,
                Err(e) => spec_conn_ack_properties(region(data@, pos, end)) == Parsed::<
                    Option<ConnAckPropertiesView>,
                >::Err(e@),
            },
    {
        let (es, q) = read_block(data, pos, end, PropOwner::ConnAck)?;
        match es {
            Some(es) => Ok((Some(ConnAckProperties::from_entries(es)), q)),
            None => Ok((None, q)),
        }
    }

    /// The entries these fields stand for, in the order they are written.
    pub open spec fn entries(&self) -> Seq<EntryView> {
        opt_four(Property::SessionExpiryInterval, self.session_expiry_interval)
            + opt_text(Property::AssignedClientIdentifier, self.assigned_client_identifier.deep_view())
            + opt_two(Property::ServerKeepAlive, self.server_keep_alive)
            + opt_text(Property::AuthMethod, self.auth_method.deep_view())
            + opt_binary(Property::AuthData, blob_view(self.auth_data))
            + opt_text(Property::ResponseInfo, self.response_info.deep_view())
            + opt_text(Property::ServerReference, self.server_reference.deep_view())
            + opt_text(Property::ReasonString, self.reason_string.deep_view())
            + opt_two(Property::ReceiveMaximum, self.receive_maximum)
            + opt_two(Property::TopicAliasMax, self.topic_alias_max)
            + opt_byte(Property::MaximumQoS, self.maximum_qos)
            + opt_byte(Property::RetainAvailable, self.retain_available)
            + pair_entries(self.user_property.deep_view())
            + opt_four(Property::MaxPacketSize, self.max_packet_size)
            + opt_byte(Property::WildcardSubAvailable, self.wildcard_sub_available)
            + opt_byte(Property::SubIdentifierAvailable, self.sub_identifier_available)
            + opt_byte(Property::SharedSubAvailable, self.shared_sub_available)
    }

    fn to_entries(self) -> (r: Vec<Entry>)
        ensures
            entries_view(r@) == self.entries(),
    {
        let ghost me = self;
        let mut es: Vec<Entry> = Vec::new();
        let ghost mut acc: Seq<EntryView> = seq![];
        assert(entries_view(es@) =~= acc);
        let ghost prev = es@;
        push_opt_four(&mut es, Property::SessionExpiryInterval, self.session_expiry_interval);
        proof {
            assert(entries_view(es@) =~= entries_view(prev) + opt_four(Property::SessionExpiryInterval, me.session_expiry_interval));
            acc = acc + opt_four(Property::SessionExpiryInterval, me.session_expiry_interval);
        }
        let ghost prev = es@;
        push_opt_text(&mut es, Property::AssignedClientIdentifier, self.assigned_client_identifier);
        proof {
            assert(entries_view(es@) =~= entries_view(prev) + opt_text(Property::AssignedClientIdentifier, me.assigned_client_identifier.deep_view()));
            acc = acc + opt_text(Property::AssignedClientIdentifier, me.assigned_client_identifier.deep_view());
        }
        let ghost prev = es@;
        push_opt_two(&mut es, Property::ServerKeepAlive, self.server_keep_alive);
        proof {
            assert(entries_view(es@) =~= entries_view(prev) + opt_two(Property::ServerKeepAlive, me.server_keep_alive));
            acc = acc + opt_two(Property::ServerKeepAlive, me.server_keep_alive);
        }
        let ghost prev = es@;
        push_opt_text(&mut es, Property::AuthMethod, self.auth_method);
        proof {
            assert(entries_view(es@) =~= entries_view(prev) + opt_text(Property::AuthMethod, me.auth_method.deep_view()));
            acc = acc + opt_text(Property::AuthMethod, me.auth_method.deep_view());
        }
        let ghost prev = es@;
        push_opt_binary(&mut es, Property::AuthData, self.auth_data);
        proof {
            assert(entries_view(es@) =~= entries_view(prev) + opt_binary(Property::AuthData, blob_view(me.auth_data)));
            acc = acc + opt_binary(Property::AuthData, blob_view(me.auth_data));
        }
        let ghost prev = es@;
        push_opt_text(&mut es, Property::ResponseInfo, self.response_info);
        proof {
            assert(entries_view(es@) =~= entries_view(prev) + opt_text(Property::ResponseInfo, me.response_info.deep_view()));
            acc = acc + opt_text(Property::ResponseInfo, me.response_info.deep_view());
        }
        let ghost prev = es@;
        push_opt_text(&mut es, Property::ServerReference, self.server_reference);
        proof {
            assert(entries_view(es@) =~= entries_view(prev) + opt_text(Property::ServerReference, me.server_reference.deep_view()));
            acc = acc + opt_text(Property::ServerReference, me.server_reference.deep_view());
        }
        let ghost prev = es@;
        push_opt_text(&mut es, Property::ReasonString, self.reason_string);
        proof {
            assert(entries_view(es@) =~= entries_view(prev) + opt_text(Property::ReasonString, me.reason_string.deep_view()));
            acc = acc + opt_text(Property::ReasonString, me.reason_string.deep_view());
        }
        let ghost prev = es@;
        push_opt_two(&mut es, Property::ReceiveMaximum, self.receive_maximum);
        proof {
            assert(entries_view(es@) =~= entries_view(prev) + opt_two(Property::ReceiveMaximum, me.receive_maximum));
            acc = acc + opt_two(Property::ReceiveMaximum, me.receive_maximum);
        }
        let ghost prev = es@;
        push_opt_two(&mut es, Property::TopicAliasMax, self.topic_alias_max);
        proof {
            assert(entries_view(es@) =~= entries_view(prev) + opt_two(Property::TopicAliasMax, me.topic_alias_max));
            acc = acc + opt_two(Property::TopicAliasMax, me.topic_alias_max);
        }
        let ghost prev = es@;
        push_opt_byte(&mut es, Property::MaximumQoS, self.maximum_qos);
        proof {
            assert(entries_view(es@) =~= entries_view(prev) + opt_byte(Property::MaximumQoS, me.maximum_qos));
            acc = acc + opt_byte(Property::MaximumQoS, me.maximum_qos);
        }
        let ghost prev = es@;
        push_opt_byte(&mut es, Property::RetainAvailable, self.retain_available);
        proof {
            assert(entries_view(es@) =~= entries_view(prev) + opt_byte(Property::RetainAvailable, me.retain_available));
            acc = acc + opt_byte(Property::RetainAvailable, me.retain_available);
        }
        let ghost prev = es@;
        push_pairs(&mut es, self.user_property);
        proof {
            assert(entries_view(es@) =~= entries_view(prev) + pair_entries(me.user_property.deep_view()));
            acc = acc + pair_entries(me.user_property.deep_view());
        }
        let ghost prev = es@;
        push_opt_four(&mut es, Property::MaxPacketSize, self.max_packet_size);
        proof {
            assert(entries_view(es@) =~= entries_view(prev) + opt_four(Property::MaxPacketSize, me.max_packet_size));
            acc = acc + opt_four(Property::MaxPacketSize, me.max_packet_size);
        }
        let ghost prev = es@;
        push_opt_byte(&mut es, Property::WildcardSubAvailable, self.wildcard_sub_available);
        proof {
            assert(entries_view(es@) =~= entries_view(prev) + opt_byte(Property::WildcardSubAvailable, me.wildcard_sub_available));
            acc = acc + opt_byte(Property::WildcardSubAvailable, me.wildcard_sub_available);
        }
        let ghost prev = es@;
        push_opt_byte(&mut es, Property::SubIdentifierAvailable, self.sub_identifier_available);
        proof {
            assert(entries_view(es@) =~= entries_view(prev) + opt_byte(Property::SubIdentifierAvailable, me.sub_identifier_available));
            acc = acc + opt_byte(Property::SubIdentifierAvailable, me.sub_identifier_available);
        }
        let ghost prev = es@;
        push_opt_byte(&mut es, Property::SharedSubAvailable, self.shared_sub_available);
        proof {
            assert(entries_view(es@) =~= entries_view(prev) + opt_byte(Property::SharedSubAvailable, me.shared_sub_available));
            acc = acc + opt_byte(Property::SharedSubAvailable, me.shared_sub_available);
        }
        es
    }

    /// Appends the entries, without the block's length: fails with
    /// `PayloadTooLong` where a value does not fit its field.
    pub fn pack(self, out: &mut Vec<u8>) -> (r: Result<(), Error>)
        ensures
            entries_fit(self.entries()) ==> r is Ok && final(out)@ == old(out)@ + entries_bytes(
                self.entries(),
            ),
            !entries_fit(self.entries()) ==> r is Err && r->Err_0@ == ErrorView::PayloadTooLong,
    {
        let es = self.to_entries();
        write_entries(out, &es)
    }

}

#[verifier::spinoff_prover]
#[verifier::rlimit(40)]
proof fn lemma_conn_ack_properties_session_expiry_interval(p: ConnAckProperties)
    ensures
        last_four(p.entries(), Property::SessionExpiryInterval) == p.session_expiry_interval,
{
    let a0 = opt_four(Property::SessionExpiryInterval, p.session_expiry_interval);
    let a1 = opt_text(Property::AssignedClientIdentifier, p.assigned_client_identifier.deep_view());
    let a2 = opt_two(Property::ServerKeepAlive, p.server_keep_alive);
    let a3 = opt_text(Property::AuthMethod, p.auth_method.deep_view());
    let a4 = opt_binary(Property::AuthData, blob_view(p.auth_data));
    let a5 = opt_text(Property::ResponseInfo, p.response_info.deep_view());
    let a6 = opt_text(Property::ServerReference, p.server_reference.deep_view());
    let a7 = opt_text(Property::ReasonString, p.reason_string.deep_view());
    let a8 = opt_two(Property::ReceiveMaximum, p.receive_maximum);
    let a9 = opt_two(Property::TopicAliasMax, p.topic_alias_max);
    let a10 = opt_byte(Property::MaximumQoS, p.maximum_qos);
    let a11 = opt_byte(Property::RetainAvailable, p.retain_available);
    let a12 = pair_entries(p.user_property.deep_view());
    let a13 = opt_four(Property::MaxPacketSize, p.max_packet_size);
    let a14 = opt_byte(Property::WildcardSubAvailable, p.wildcard_sub_available);
    let a15 = opt_byte(Property::SubIdentifierAvailable, p.sub_identifier_available);
    let a16 = opt_byte(Property::SharedSubAvailable, p.shared_sub_available);
    let c0 = a0;
    let c1 = c0 + a1;
    let c2 = c1 + a2;
    let c3 = c2 + a3;
    let c4 = c3 + a4;
    let c5 = c4 + a5;
    let c6 = c5 + a6;
    let c7 = c6 + a7;
    let c8 = c7 + a8;
    let c9 = c8 + a9;
    let c10 = c9 + a10;
    let c11 = c10 + a11;
    let c12 = c11 + a12;
    let c13 = c12 + a13;
    let c14 = c13 + a14;
    let c15 = c14 + a15;
    let c16 = c15 + a16;
    assert(p.entries() == c16);
    reveal_with_fuel(last_four, 2);
    lemma_last_four_append(c0, a1, Property::SessionExpiryInterval);
    lemma_last_four_append(c1, a2, Property::SessionExpiryInterval);
    lemma_last_four_append(c2, a3, Property::SessionExpiryInterval);
    lemma_last_four_append(c3, a4, Property::SessionExpiryInterval);
    lemma_last_four_append(c4, a5, Property::SessionExpiryInterval);
    lemma_last_four_append(c5, a6, Property::SessionExpiryInterval);
    lemma_last_four_append(c6, a7, Property::SessionExpiryInterval);
    lemma_last_four_append(c7, a8, Property::SessionExpiryInterval);
    lemma_last_four_append(c8, a9, Property::SessionExpiryInterval);
    lemma_last_four_append(c9, a10, Property::SessionExpiryInterval);
    lemma_last_four_append(c10, a11, Property::SessionExpiryInterval);
    lemma_last_four_append(c11, a12, Property::SessionExpiryInterval);
    lemma_last_four_append(c12, a13, Property::SessionExpiryInterval);
    lemma_last_four_append(c13, a14, Property::SessionExpiryInterval);
    lemma_last_four_append(c14, a15, Property::SessionExpiryInterval);
    lemma_last_four_append(c15, a16, Property::SessionExpiryInterval);
    lemma_last_four_of_pairs(p.user_property.deep_view(), Property::SessionExpiryInterval);
}

#[verifier::spinoff_prover]
#[verifier::rlimit(40)]
proof fn lemma_conn_ack_properties_assigned_client_identifier(p: ConnAckProperties)
    ensures
        last_text(p.entries(), Property::AssignedClientIdentifier) == p.assigned_client_identifier.deep_view(),
{
    let a0 = opt_four(Property::SessionExpiryInterval, p.session_expiry_interval);
    let a1 = opt_text(Property::AssignedClientIdentifier, p.assigned_client_identifier.deep_view());
    let a2 = opt_two(Property::ServerKeepAlive, p.server_keep_alive);
    let a3 = opt_text(Property::AuthMethod, p.auth_method.deep_view());
    let a4 = opt_binary(Property::AuthData, blob_view(p.auth_data));
    let a5 = opt_text(Property::ResponseInfo, p.response_info.deep_view());
    let a6 = opt_text(Property::ServerReference, p.server_reference.deep_view());
    let a7 = opt_text(Property::ReasonString, p.reason_string.deep_view());
    let a8 = opt_two(Property::ReceiveMaximum, p.receive_maximum);
    let a9 = opt_two(Property::TopicAliasMax, p.topic_alias_max);
    let a10 = opt_byte(Property::MaximumQoS, p.maximum_qos);
    let a11 = opt_byte(Property::RetainAvailable, p.retain_available);
    let a12 = pair_entries(p.user_property.deep_view());
    let a13 = opt_four(Property::MaxPacketSize, p.max_packet_size);
    let a14 = opt_byte(Property::WildcardSubAvailable, p.wildcard_sub_available);
    let a15 = opt_byte(Property::SubIdentifierAvailable, p.sub_identifier_available);
    let a16 = opt_byte(Property::SharedSubAvailable, p.shared_sub_available);
    let c0 = a0;
    let c1 = c0 + a1;
    let c2 = c1 + a2;
    let c3 = c2 + a3;
    let c4 = c3 + a4;
    let c5 = c4 + a5;
    let c6 = c5 + a6;
    let c7 = c6 + a7;
    let c8 = c7 + a8;
    let c9 = c8 + a9;
    let c10 = c9 + a10;
    let c11 = c10 + a11;
    let c12 = c11 + a12;
    let c13 = c12 + a13;
    let c14 = c13 + a14;
    let c15 = c14 + a15;
    let c16 = c15 + a16;
    assert(p.entries() == c16);
    reveal_with_fuel(last_text, 2);
    lemma_last_text_append(c0, a1, Property::AssignedClientIdentifier);
    lemma_last_text_append(c1, a2, Property::AssignedClientIdentifier);
    lemma_last_text_append(c2, a3, Property::AssignedClientIdentifier);
    lemma_last_text_append(c3, a4, Property::AssignedClientIdentifier);
    lemma_last_text_append(c4, a5, Property::AssignedClientIdentifier);
    lemma_last_text_append(c5, a6, Property::AssignedClientIdentifier);
    lemma_last_text_append(c6, a7, Property::AssignedClientIdentifier);
    lemma_last_text_append(c7, a8, Property::AssignedClientIdentifier);
    lemma_last_text_append(c8, a9, Property::AssignedClientIdentifier);
    lemma_last_text_append(c9, a10, Property::AssignedClientIdentifier);
    lemma_last_text_append(c10, a11, Property::AssignedClientIdentifier);
    lemma_last_text_append(c11, a12, Property::AssignedClientIdentifier);
    lemma_last_text_append(c12, a13, Property::AssignedClientIdentifier);
    lemma_last_text_append(c13, a14, Property::AssignedClientIdentifier);
    lemma_last_text_append(c14, a15, Property::AssignedClientIdentifier);
    lemma_last_text_append(c15, a16, Property::AssignedClientIdentifier);
    lemma_last_text_of_pairs(p.user_property.deep_view(), Property::AssignedClientIdentifier);
}

#[verifier::spinoff_prover]
#[verifier::rlimit(40)]
proof fn lemma_conn_ack_properties_server_keep_alive(p: ConnAckProperties)
    ensures
        last_two(p.entries(), Property::ServerKeepAlive) == p.server_keep_alive,
{
    let a0 = opt_four(Property::SessionExpiryInterval, p.session_expiry_interval);
    let a1 = opt_text(Property::AssignedClientIdentifier, p.assigned_client_identifier.deep_view());
    let a2 = opt_two(Property::ServerKeepAlive, p.server_keep_alive);
    let a3 = opt_text(Property::AuthMethod, p.auth_method.deep_view());
    let a4 = opt_binary(Property::AuthData, blob_view(p.auth_data));
    let a5 = opt_text(Property::ResponseInfo, p.response_info.deep_view());
    let a6 = opt_text(Property::ServerReference, p.server_reference.deep_view());
    let a7 = opt_text(Property::ReasonString, p.reason_string.deep_view());
    let a8 = opt_two(Property::ReceiveMaximum, p.receive_maximum);
    let a9 = opt_two(Property::TopicAliasMax, p.topic_alias_max);
    let a10 = opt_byte(Property::MaximumQoS, p.maximum_qos);
    let a11 = opt_byte(Property::RetainAvailable, p.retain_available);
    let a12 = pair_entries(p.user_property.deep_view());
    let a13 = opt_four(Property::MaxPacketSize, p.max_packet_size);
    let a14 = opt_byte(Property::WildcardSubAvailable, p.wildcard_sub_available);
    let a15 = opt_byte(Property::SubIdentifierAvailable, p.sub_identifier_available);
    let a16 = opt_byte(Property::SharedSubAvailable, p.shared_sub_available);
    let c0 = a0;
    let c1 = c0 + a1;
    let c2 = c1 + a2;
    let c3 = c2 + a3;
    let c4 = c3 + a4;
    let c5 = c4 + a5;
    let c6 = c5 + a6;
    let c7 = c6 + a7;
    let c8 = c7 + a8;
    let c9 = c8 + a9;
    let c10 = c9 + a10;
    let c11 = c10 + a11;
    let c12 = c11 + a12;
    let c13 = c12 + a13;
    let c14 = c13 + a14;
    let c15 = c14 + a15;
    let c16 = c15 + a16;
    assert(p.entries() == c16);
    reveal_with_fuel(last_two, 2);
    lemma_last_two_append(c0, a1, Property::ServerKeepAlive);
    lemma_last_two_append(c1, a2, Property::ServerKeepAlive);
    lemma_last_two_append(c2, a3, Property::ServerKeepAlive);
    lemma_last_two_append(c3, a4, Property::ServerKeepAlive);
    lemma_last_two_append(c4, a5, Property::ServerKeepAlive);
    lemma_last_two_append(c5, a6, Property::ServerKeepAlive);
    lemma_last_two_append(c6, a7, Property::ServerKeepAlive);
    lemma_last_two_append(c7, a8, Property::ServerKeepAlive);
    lemma_last_two_append(c8, a9, Property::ServerKeepAlive);
    lemma_last_two_append(c9, a10, Property::ServerKeepAlive);
    lemma_last_two_append(c10, a11, Property::ServerKeepAlive);
    lemma_last_two_append(c11, a12, Property::ServerKeepAlive);
    lemma_last_two_append(c12, a13, Property::ServerKeepAlive);
    lemma_last_two_append(c13, a14, Property::ServerKeepAlive);
    lemma_last_two_append(c14, a15, Property::ServerKeepAlive);
    lemma_last_two_append(c15, a16, Property::ServerKeepAlive);
    lemma_last_two_of_pairs(p.user_property.deep_view(), Property::ServerKeepAlive);
}

#[verifier::spinoff_prover]
#[verifier::rlimit(40)]
proof fn lemma_conn_ack_properties_auth_method(p: ConnAckProperties)
    ensures
        last_text(p.entries(), Property::AuthMethod) == p.auth_method.deep_view(),
{
    let a0 = opt_four(Property::SessionExpiryInterval, p.session_expiry_interval);
    let a1 = opt_text(Property::AssignedClientIdentifier, p.assigned_client_identifier.deep_view());
    let a2 = opt_two(Property::ServerKeepAlive, p.server_keep_alive);
    let a3 = opt_text(Property::AuthMethod, p.auth_method.deep_view());
    let a4 = opt_binary(Property::AuthData, blob_view(p.auth_data));
    let a5 = opt_text(Property::ResponseInfo, p.response_info.deep_view());
    let a6 = opt_text(Property::ServerReference, p.server_reference.deep_view());
    let a7 = opt_text(Property::ReasonString, p.reason_string.deep_view());
    let a8 = opt_two(Property::ReceiveMaximum, p.receive_maximum);
    let a9 = opt_two(Property::TopicAliasMax, p.topic_alias_max);
    let a10 = opt_byte(Property::MaximumQoS, p.maximum_qos);
    let a11 = opt_byte(Property::RetainAvailable, p.retain_available);
    let a12 = pair_entries(p.user_property.deep_view());
    let a13 = opt_four(Property::MaxPacketSize, p.max_packet_size);
    let a14 = opt_byte(Property::WildcardSubAvailable, p.wildcard_sub_available);
    let a15 = opt_byte(Property::SubIdentifierAvailable, p.sub_identifier_available);
    let a16 = opt_byte(Property::SharedSubAvailable, p.shared_sub_available);
    let c0 = a0;
    let c1 = c0 + a1;
    let c2 = c1 + a2;
    let c3 = c2 + a3;
    let c4 = c3 + a4;
    let c5 = c4 + a5;
    let c6 = c5 + a6;
    let c7 = c6 + a7;
    let c8 = c7 + a8;
    let c9 = c8 + a9;
    let c10 = c9 + a10;
    let c11 = c10 + a11;
    let c12 = c11 + a12;
    let c13 = c12 + a13;
    let c14 = c13 + a14;
    let c15 = c14 + a15;
    let c16 = c15 + a16;
    assert(p.entries() == c16);
    reveal_with_fuel(last_text, 2);
    lemma_last_text_append(c0, a1, Property::AuthMethod);
    lemma_last_text_append(c1, a2, Property::AuthMethod);
    lemma_last_text_append(c2, a3, Property::AuthMethod);
    lemma_last_text_append(c3, a4, Property::AuthMethod);
    lemma_last_text_append(c4, a5, Property::AuthMethod);
    lemma_last_text_append(c5, a6, Property::AuthMethod);
    lemma_last_text_append(c6, a7, Property::AuthMethod);
    lemma_last_text_append(c7, a8, Property::AuthMethod);
    lemma_last_text_append(c8, a9, Property::AuthMethod);
    lemma_last_text_append(c9, a10, Property::AuthMethod);
    lemma_last_text_append(c10, a11, Property::AuthMethod);
    lemma_last_text_append(c11, a12, Property::AuthMethod);
    lemma_last_text_append(c12, a13, Property::AuthMethod);
    lemma_last_text_append(c13, a14, Property::AuthMethod);
    lemma_last_text_append(c14, a15, Property::AuthMethod);
    lemma_last_text_append(c15, a16, Property::AuthMethod);
    lemma_last_text_of_pairs(p.user_property.deep_view(), Property::AuthMethod);
}

#[verifier::spinoff_prover]
#[verifier::rlimit(40)]
proof fn lemma_conn_ack_properties_auth_data(p: ConnAckProperties)
    ensures
        last_binary(p.entries(), Property::AuthData) == blob_view(p.auth_data),
{
    let a0 = opt_four(Property::SessionExpiryInterval, p.session_expiry_interval);
    let a1 = opt_text(Property::AssignedClientIdentifier, p.assigned_client_identifier.deep_view());
    let a2 = opt_two(Property::ServerKeepAlive, p.server_keep_alive);
    let a3 = opt_text(Property::AuthMethod, p.auth_method.deep_view());
    let a4 = opt_binary(Property::AuthData, blob_view(p.auth_data));
    let a5 = opt_text(Property::ResponseInfo, p.response_info.deep_view());
    let a6 = opt_text(Property::ServerReference, p.server_reference.deep_view());
    let a7 = opt_text(Property::ReasonString, p.reason_string.deep_view());
    let a8 = opt_two(Property::ReceiveMaximum, p.receive_maximum);
    let a9 = opt_two(Property::TopicAliasMax, p.topic_alias_max);
    let a10 = opt_byte(Property::MaximumQoS, p.maximum_qos);
    let a11 = opt_byte(Property::RetainAvailable, p.retain_available);
    let a12 = pair_entries(p.user_property.deep_view());
    let a13 = opt_four(Property::MaxPacketSize, p.max_packet_size);
    let a14 = opt_byte(Property::WildcardSubAvailable, p.wildcard_sub_available);
    let a15 = opt_byte(Property::SubIdentifierAvailable, p.sub_identifier_available);
    let a16 = opt_byte(Property::SharedSubAvailable, p.shared_sub_available);
    let c0 = a0;
    let c1 = c0 + a1;
    let c2 = c1 + a2;
    let c3 = c2 + a3;
    let c4 = c3 + a4;
    let c5 = c4 + a5;
    let c6 = c5 + a6;
    let c7 = c6 + a7;
    let c8 = c7 + a8;
    let c9 = c8 + a9;
    let c10 = c9 + a10;
    let c11 = c10 + a11;
    let c12 = c11 + a12;
    let c13 = c12 + a13;
    let c14 = c13 + a14;
    let c15 = c14 + a15;
    let c16 = c15 + a16;
    assert(p.entries() == c16);
    reveal_with_fuel(last_binary, 2);
    lemma_last_binary_append(c0, a1, Property::AuthData);
    lemma_last_binary_append(c1, a2, Property::AuthData);
    lemma_last_binary_append(c2, a3, Property::AuthData);
    lemma_last_binary_append(c3, a4, Property::AuthData);
    lemma_last_binary_append(c4, a5, Property::AuthData);
    lemma_last_binary_append(c5, a6, Property::AuthData);
    lemma_last_binary_append(c6, a7, Property::AuthData);
    lemma_last_binary_append(c7, a8, Property::AuthData);
    lemma_last_binary_append(c8, a9, Property::AuthData);
    lemma_last_binary_append(c9, a10, Property::AuthData);
    lemma_last_binary_append(c10, a11, Property::AuthData);
    lemma_last_binary_append(c11, a12, Property::AuthData);
    lemma_last_binary_append(c12, a13, Property::AuthData);
    lemma_last_binary_append(c13, a14, Property::AuthData);
    lemma_last_binary_append(c14, a15, Property::AuthData);
    lemma_last_binary_append(c15, a16, Property::AuthData);
    lemma_last_binary_of_pairs(p.user_property.deep_view(), Property::AuthData);
}

#[verifier::spinoff_prover]
#[verifier::rlimit(40)]
proof fn lemma_conn_ack_properties_response_info(p: ConnAckProperties)
    ensures
        last_text(p.entries(), Property::ResponseInfo) == p.response_info.deep_view(),
{
    let a0 = opt_four(Property::SessionExpiryInterval, p.session_expiry_interval);
    let a1 = opt_text(Property::AssignedClientIdentifier, p.assigned_client_identifier.deep_view());
    let a2 = opt_two(Property::ServerKeepAlive, p.server_keep_alive);
    let a3 = opt_text(Property::AuthMethod, p.auth_method.deep_view());
    let a4 = opt_binary(Property::AuthData, blob_view(p.auth_data));
    let a5 = opt_text(Property::ResponseInfo, p.response_info.deep_view());
    let a6 = opt_text(Property::ServerReference, p.server_reference.deep_view());
    let a7 = opt_text(Property::ReasonString, p.reason_string.deep_view());
    let a8 = opt_two(Property::ReceiveMaximum, p.receive_maximum);
    let a9 = opt_two(Property::TopicAliasMax, p.topic_alias_max);
    let a10 = opt_byte(Property::MaximumQoS, p.maximum_qos);
    let a11 = opt_byte(Property::RetainAvailable, p.retain_available);
    let a12 = pair_entries(p.user_property.deep_view());
    let a13 = opt_four(Property::MaxPacketSize, p.max_packet_size);
    let a14 = opt_byte(Property::WildcardSubAvailable, p.wildcard_sub_available);
    let a15 = opt_byte(Property::SubIdentifierAvailable, p.sub_identifier_available);
    let a16 = opt_byte(Property::SharedSubAvailable, p.shared_sub_available);
    let c0 = a0;
    let c1 = c0 + a1;
    let c2 = c1 + a2;
    let c3 = c2 + a3;
    let c4 = c3 + a4;
    let c5 = c4 + a5;
    let c6 = c5 + a6;
    let c7 = c6 + a7;
    let c8 = c7 + a8;
    let c9 = c8 + a9;
    let c10 = c9 + a10;
    let c11 = c10 + a11;
    let c12 = c11 + a12;
    let c13 = c12 + a13;
    let c14 = c13 + a14;
    let c15 = c14 + a15;
    let c16 = c15 + a16;
    assert(p.entries() == c16);
    reveal_with_fuel(last_text, 2);
    lemma_last_text_append(c0, a1, Property::ResponseInfo);
    lemma_last_text_append(c1, a2, Property::ResponseInfo);
    lemma_last_text_append(c2, a3, Property::ResponseInfo);
    lemma_last_text_append(c3, a4, Property::ResponseInfo);
    lemma_last_text_append(c4, a5, Property::ResponseInfo);
    lemma_last_text_append(c5, a6, Property::ResponseInfo);
    lemma_last_text_append(c6, a7, Property::ResponseInfo);
    lemma_last_text_append(c7, a8, Property::ResponseInfo);
    lemma_last_text_append(c8, a9, Property::ResponseInfo);
    lemma_last_text_append(c9, a10, Property::ResponseInfo);
    lemma_last_text_append(c10, a11, Property::ResponseInfo);
    lemma_last_text_append(c11, a12, Property::ResponseInfo);
    lemma_last_text_append(c12, a13, Property::ResponseInfo);
    lemma_last_text_append(c13, a14, Property::ResponseInfo);
    lemma_last_text_append(c14, a15, Property::ResponseInfo);
    lemma_last_text_append(c15, a16, Property::ResponseInfo);
    lemma_last_text_of_pairs(p.user_property.deep_view(), Property::ResponseInfo);
}

#[verifier::spinoff_prover]
#[verifier::rlimit(40)]
proof fn lemma_conn_ack_properties_server_reference(p: ConnAckProperties)
    ensures
        last_text(p.entries(), Property::ServerReference) == p.server_reference.deep_view(),
{
    let a0 = opt_four(Property::SessionExpiryInterval, p.session_expiry_interval);
    let a1 = opt_text(Property::AssignedClientIdentifier, p.assigned_client_identifier.deep_view());
    let a2 = opt_two(Property::ServerKeepAlive, p.server_keep_alive);
    let a3 = opt_text(Property::AuthMethod, p.auth_method.deep_view());
    let a4 = opt_binary(Property::AuthData, blob_view(p.auth_data));
    let a5 = opt_text(Property::ResponseInfo, p.response_info.deep_view());
    let a6 = opt_text(Property::ServerReference, p.server_reference.deep_view());
    let a7 = opt_text(Property::ReasonString, p.reason_string.deep_view());
    let a8 = opt_two(Property::ReceiveMaximum, p.receive_maximum);
    let a9 = opt_two(Property::TopicAliasMax, p.topic_alias_max);
    let a10 = opt_byte(Property::MaximumQoS, p.maximum_qos);
    let a11 = opt_byte(Property::RetainAvailable, p.retain_available);
    let a12 = pair_entries(p.user_property.deep_view());
    let a13 = opt_four(Property::MaxPacketSize, p.max_packet_size);
    let a14 = opt_byte(Property::WildcardSubAvailable, p.wildcard_sub_available);
    let a15 = opt_byte(Property::SubIdentifierAvailable, p.sub_identifier_available);
    let a16 = opt_byte(Property::SharedSubAvailable, p.shared_sub_available);
    let c0 = a0;
    let c1 = c0 + a1;
    let c2 = c1 + a2;
    let c3 = c2 + a3;
    let c4 = c3 + a4;
    let c5 = c4 + a5;
    let c6 = c5 + a6;
    let c7 = c6 + a7;
    let c8 = c7 + a8;
    let c9 = c8 + a9;
    let c10 = c9 + a10;
    let c11 = c10 + a11;
    let c12 = c11 + a12;
    let c13 = c12 + a13;
    let c14 = c13 + a14;
    let c15 = c14 + a15;
    let c16 = c15 + a16;
    assert(p.entries() == c16);
    reveal_with_fuel(last_text, 2);
    lemma_last_text_append(c0, a1, Property::ServerReference);
    lemma_last_text_append(c1, a2, Property::ServerReference);
    lemma_last_text_append(c2, a3, Property::ServerReference);
    lemma_last_text_append(c3, a4, Property::ServerReference);
    lemma_last_text_append(c4, a5, Property::ServerReference);
    lemma_last_text_append(c5, a6, Property::ServerReference);
    lemma_last_text_append(c6, a7, Property::ServerReference);
    lemma_last_text_append(c7, a8, Property::ServerReference);
    lemma_last_text_append(c8, a9, Property::ServerReference);
    lemma_last_text_append(c9, a10, Property::ServerReference);
    lemma_last_text_append(c10, a11, Property::ServerReference);
    lemma_last_text_append(c11, a12, Property::ServerReference);
    lemma_last_text_append(c12, a13, Property::ServerReference);
    lemma_last_text_append(c13, a14, Property::ServerReference);
    lemma_last_text_append(c14, a15, Property::ServerReference);
    lemma_last_text_append(c15, a16, Property::ServerReference);
    lemma_last_text_of_pairs(p.user_property.deep_view(), Property::ServerReference);
}

#[verifier::spinoff_prover]
#[verifier::rlimit(40)]
proof fn lemma_conn_ack_properties_reason_string(p: ConnAckProperties)
    ensures
        last_text(p.entries(), Property::ReasonString) == p.reason_string.deep_view(),
{
    let a0 = opt_four(Property::SessionExpiryInterval, p.session_expiry_interval);
    let a1 = opt_text(Property::AssignedClientIdentifier, p.assigned_client_identifier.deep_view());
    let a2 = opt_two(Property::ServerKeepAlive, p.server_keep_alive);
    let a3 = opt_text(Property::AuthMethod, p.auth_method.deep_view());
    let a4 = opt_binary(Property::AuthData, blob_view(p.auth_data));
    let a5 = opt_text(Property::ResponseInfo, p.response_info.deep_view());
    let a6 = opt_text(Property::ServerReference, p.server_reference.deep_view());
    let a7 = opt_text(Property::ReasonString, p.reason_string.deep_view());
    let a8 = opt_two(Property::ReceiveMaximum, p.receive_maximum);
    let a9 = opt_two(Property::TopicAliasMax, p.topic_alias_max);
    let a10 = opt_byte(Property::MaximumQoS, p.maximum_qos);
    let a11 = opt_byte(Property::RetainAvailable, p.retain_available);
    let a12 = pair_entries(p.user_property.deep_view());
    let a13 = opt_four(Property::MaxPacketSize, p.max_packet_size);
    let a14 = opt_byte(Property::WildcardSubAvailable, p.wildcard_sub_available);
    let a15 = opt_byte(Property::SubIdentifierAvailable, p.sub_identifier_available);
    let a16 = opt_byte(Property::SharedSubAvailable, p.shared_sub_available);
    let c0 = a0;
    let c1 = c0 + a1;
    let c2 = c1 + a2;
    let c3 = c2 + a3;
    let c4 = c3 + a4;
    let c5 = c4 + a5;
    let c6 = c5 + a6;
    let c7 = c6 + a7;
    let c8 = c7 + a8;
    let c9 = c8 + a9;
    let c10 = c9 + a10;
    let c11 = c10 + a11;
    let c12 = c11 + a12;
    let c13 = c12 + a13;
    let c14 = c13 + a14;
    let c15 = c14 + a15;
    let c16 = c15 + a16;
    assert(p.entries() == c16);
    reveal_with_fuel(last_text, 2);
    lemma_last_text_append(c0, a1, Property::ReasonString);
    lemma_last_text_append(c1, a2, Property::ReasonString);
    lemma_last_text_append(c2, a3, Property::ReasonString);
    lemma_last_text_append(c3, a4, Property::ReasonString);
    lemma_last_text_append(c4, a5, Property::ReasonString);
    lemma_last_text_append(c5, a6, Property::ReasonString);
    lemma_last_text_append(c6, a7, Property::ReasonString);
    lemma_last_text_append(c7, a8, Property::ReasonString);
    lemma_last_text_append(c8, a9, Property::ReasonString);
    lemma_last_text_append(c9, a10, Property::ReasonString);
    lemma_last_text_append(c10, a11, Property::ReasonString);
    lemma_last_text_append(c11, a12, Property::ReasonString);
    lemma_last_text_append(c12, a13, Property::ReasonString);
    lemma_last_text_append(c13, a14, Property::ReasonString);
    lemma_last_text_append(c14, a15, Property::ReasonString);
    lemma_last_text_append(c15, a16, Property::ReasonString);
    lemma_last_text_of_pairs(p.user_property.deep_view(), Property::ReasonString);
}

#[verifier::spinoff_prover]
#[verifier::rlimit(40)]
proof fn lemma_conn_ack_properties_receive_maximum(p: ConnAckProperties)
    ensures
        last_two(p.entries(), Property::ReceiveMaximum) == p.receive_maximum,
{
    let a0 = opt_four(Property::SessionExpiryInterval, p.session_expiry_interval);
    let a1 = opt_text(Property::AssignedClientIdentifier, p.assigned_client_identifier.deep_view());
    let a2 = opt_two(Property::ServerKeepAlive, p.server_keep_alive);
    let a3 = opt_text(Property::AuthMethod, p.auth_method.deep_view());
    let a4 = opt_binary(Property::AuthData, blob_view(p.auth_data));
    let a5 = opt_text(Property::ResponseInfo, p.response_info.deep_view());
    let a6 = opt_text(Property::ServerReference, p.server_reference.deep_view());
    let a7 = opt_text(Property::ReasonString, p.reason_string.deep_view());
    let a8 = opt_two(Property::ReceiveMaximum, p.receive_maximum);
    let a9 = opt_two(Property::TopicAliasMax, p.topic_alias_max);
    let a10 = opt_byte(Property::MaximumQoS, p.maximum_qos);
    let a11 = opt_byte(Property::RetainAvailable, p.retain_available);
    let a12 = pair_entries(p.user_property.deep_view());
    let a13 = opt_four(Property::MaxPacketSize, p.max_packet_size);
    let a14 = opt_byte(Property::WildcardSubAvailable, p.wildcard_sub_available);
    let a15 = opt_byte(Property::SubIdentifierAvailable, p.sub_identifier_available);
    let a16 = opt_byte(Property::SharedSubAvailable, p.shared_sub_available);
    let c0 = a0;
    let c1 = c0 + a1;
    let c2 = c1 + a2;
    let c3 = c2 + a3;
    let c4 = c3 + a4;
    let c5 = c4 + a5;
    let c6 = c5 + a6;
    let c7 = c6 + a7;
    let c8 = c7 + a8;
    let c9 = c8 + a9;
    let c10 = c9 + a10;
    let c11 = c10 + a11;
    let c12 = c11 + a12;
    let c13 = c12 + a13;
    let c14 = c13 + a14;
    let c15 = c14 + a15;
    let c16 = c15 + a16;
    assert(p.entries() == c16);
    reveal_with_fuel(last_two, 2);
    lemma_last_two_append(c0, a1, Property::ReceiveMaximum);
    lemma_last_two_append(c1, a2, Property::ReceiveMaximum);
    lemma_last_two_append(c2, a3, Property::ReceiveMaximum);
    lemma_last_two_append(c3, a4, Property::ReceiveMaximum);
    lemma_last_two_append(c4, a5, Property::ReceiveMaximum);
    lemma_last_two_append(c5, a6, Property::ReceiveMaximum);
    lemma_last_two_append(c6, a7, Property::ReceiveMaximum);
    lemma_last_two_append(c7, a8, Property::ReceiveMaximum);
    lemma_last_two_append(c8, a9, Property::ReceiveMaximum);
    lemma_last_two_append(c9, a10, Property::ReceiveMaximum);
    lemma_last_two_append(c10, a11, Property::ReceiveMaximum);
    lemma_last_two_append(c11, a12, Property::ReceiveMaximum);
    lemma_last_two_append(c12, a13, Property::ReceiveMaximum);
    lemma_last_two_append(c13, a14, Property::ReceiveMaximum);
    lemma_last_two_append(c14, a15, Property::ReceiveMaximum);
    lemma_last_two_append(c15, a16, Property::ReceiveMaximum);
    lemma_last_two_of_pairs(p.user_property.deep_view(), Property::ReceiveMaximum);
}

#[verifier::spinoff_prover]
#[verifier::rlimit(40)]
proof fn lemma_conn_ack_properties_topic_alias_max(p: ConnAckProperties)
    ensures
        last_two(p.entries(), Property::TopicAliasMax) == p.topic_alias_max,
{
    let a0 = opt_four(Property::SessionExpiryInterval, p.session_expiry_interval);
    let a1 = opt_text(Property::AssignedClientIdentifier, p.assigned_client_identifier.deep_view());
    let a2 = opt_two(Property::ServerKeepAlive, p.server_keep_alive);
    let a3 = opt_text(Property::AuthMethod, p.auth_method.deep_view());
    let a4 = opt_binary(Property::AuthData, blob_view(p.auth_data));
    let a5 = opt_text(Property::ResponseInfo, p.response_info.deep_view());
    let a6 = opt_text(Property::ServerReference, p.server_reference.deep_view());
    let a7 = opt_text(Property::ReasonString, p.reason_string.deep_view());
    let a8 = opt_two(Property::ReceiveMaximum, p.receive_maximum);
    let a9 = opt_two(Property::TopicAliasMax, p.topic_alias_max);
    let a10 = opt_byte(Property::MaximumQoS, p.maximum_qos);
    let a11 = opt_byte(Property::RetainAvailable, p.retain_available);
    let a12 = pair_entries(p.user_property.deep_view());
    let a13 = opt_four(Property::MaxPacketSize, p.max_packet_size);
    let a14 = opt_byte(Property::WildcardSubAvailable, p.wildcard_sub_available);
    let a15 = opt_byte(Property::SubIdentifierAvailable, p.sub_identifier_available);
    let a16 = opt_byte(Property::SharedSubAvailable, p.shared_sub_available);
    let c0 = a0;
    let c1 = c0 + a1;
    let c2 = c1 + a2;
    let c3 = c2 + a3;
    let c4 = c3 + a4;
    let c5 = c4 + a5;
    let c6 = c5 + a6;
    let c7 = c6 + a7;
    let c8 = c7 + a8;
    let c9 = c8 + a9;
    let c10 = c9 + a10;
    let c11 = c10 + a11;
    let c12 = c11 + a12;
    let c13 = c12 + a13;
    let c14 = c13 + a14;
    let c15 = c14 + a15;
    let c16 = c15 + a16;
    assert(p.entries() == c16);
    reveal_with_fuel(last_two, 2);
    lemma_last_two_append(c0, a1, Property::TopicAliasMax);
    lemma_last_two_append(c1, a2, Property::TopicAliasMax);
    lemma_last_two_append(c2, a3, Property::TopicAliasMax);
    lemma_last_two_append(c3, a4, Property::TopicAliasMax);
    lemma_last_two_append(c4, a5, Property::TopicAliasMax);
    lemma_last_two_append(c5, a6, Property::TopicAliasMax);
    lemma_last_two_append(c6, a7, Property::TopicAliasMax);
    lemma_last_two_append(c7, a8, Property::TopicAliasMax);
    lemma_last_two_append(c8, a9, Property::TopicAliasMax);
    lemma_last_two_append(c9, a10, Property::TopicAliasMax);
    lemma_last_two_append(c10, a11, Property::TopicAliasMax);
    lemma_last_two_append(c11, a12, Property::TopicAliasMax);
    lemma_last_two_append(c12, a13, Property::TopicAliasMax);
    lemma_last_two_append(c13, a14, Property::TopicAliasMax);
    lemma_last_two_append(c14, a15, Property::TopicAliasMax);
    lemma_last_two_append(c15, a16, Property::TopicAliasMax);
    lemma_last_two_of_pairs(p.user_property.deep_view(), Property::TopicAliasMax);
}

#[verifier::spinoff_prover]
#[verifier::rlimit(40)]
proof fn lemma_conn_ack_properties_maximum_qos(p: ConnAckProperties)
    ensures
        last_byte(p.entries(), Property::MaximumQoS) == p.maximum_qos,
{
    let a0 = opt_four(Property::SessionExpiryInterval, p.session_expiry_interval);
    let a1 = opt_text(Property::AssignedClientIdentifier, p.assigned_client_identifier.deep_view());
    let a2 = opt_two(Property::ServerKeepAlive, p.server_keep_alive);
    let a3 = opt_text(Property::AuthMethod, p.auth_method.deep_view());
    let a4 = opt_binary(Property::AuthData, blob_view(p.auth_data));
    let a5 = opt_text(Property::ResponseInfo, p.response_info.deep_view());
    let a6 = opt_text(Property::ServerReference, p.server_reference.deep_view());
    let a7 = opt_text(Property::ReasonString, p.reason_string.deep_view());
    let a8 = opt_two(Property::ReceiveMaximum, p.receive_maximum);
    let a9 = opt_two(Property::TopicAliasMax, p.topic_alias_max);
    let a10 = opt_byte(Property::MaximumQoS, p.maximum_qos);
    let a11 = opt_byte(Property::RetainAvailable, p.retain_available);
    let a12 = pair_entries(p.user_property.deep_view());
    let a13 = opt_four(Property::MaxPacketSize, p.max_packet_size);
    let a14 = opt_byte(Property::WildcardSubAvailable, p.wildcard_sub_available);
    let a15 = opt_byte(Property::SubIdentifierAvailable, p.sub_identifier_available);
    let a16 = opt_byte(Property::SharedSubAvailable, p.shared_sub_available);
    let c0 = a0;
    let c1 = c0 + a1;
    let c2 = c1 + a2;
    let c3 = c2 + a3;
    let c4 = c3 + a4;
    let c5 = c4 + a5;
    let c6 = c5 + a6;
    let c7 = c6 + a7;
    let c8 = c7 + a8;
    let c9 = c8 + a9;
    let c10 = c9 + a10;
    let c11 = c10 + a11;
    let c12 = c11 + a12;
    let c13 = c12 + a13;
    let c14 = c13 + a14;
    let c15 = c14 + a15;
    let c16 = c15 + a16;
    assert(p.entries() == c16);
    reveal_with_fuel(last_byte, 2);
    lemma_last_byte_append(c0, a1, Property::MaximumQoS);
    lemma_last_byte_append(c1, a2, Property::MaximumQoS);
    lemma_last_byte_append(c2, a3, Property::MaximumQoS);
    lemma_last_byte_append(c3, a4, Property::MaximumQoS);
    lemma_last_byte_append(c4, a5, Property::MaximumQoS);
    lemma_last_byte_append(c5, a6, Property::MaximumQoS);
    lemma_last_byte_append(c6, a7, Property::MaximumQoS);
    lemma_last_byte_append(c7, a8, Property::MaximumQoS);
    lemma_last_byte_append(c8, a9, Property::MaximumQoS);
    lemma_last_byte_append(c9, a10, Property::MaximumQoS);
    lemma_last_byte_append(c10, a11, Property::MaximumQoS);
    lemma_last_byte_append(c11, a12, Property::MaximumQoS);
    lemma_last_byte_append(c12, a13, Property::MaximumQoS);
    lemma_last_byte_append(c13, a14, Property::MaximumQoS);
    lemma_last_byte_append(c14, a15, Property::MaximumQoS);
    lemma_last_byte_append(c15, a16, Property::MaximumQoS);
    lemma_last_byte_of_pairs(p.user_property.deep_view(), Property::MaximumQoS);
}

#[verifier::spinoff_prover]
#[verifier::rlimit(40)]
proof fn lemma_conn_ack_properties_retain_available(p: ConnAckProperties)
    ensures
        last_byte(p.entries(), Property::RetainAvailable) == p.retain_available,
{
    let a0 = opt_four(Property::SessionExpiryInterval, p.session_expiry_interval);
    let a1 = opt_text(Property::AssignedClientIdentifier, p.assigned_client_identifier.deep_view());
    let a2 = opt_two(Property::ServerKeepAlive, p.server_keep_alive);
    let a3 = opt_text(Property::AuthMethod, p.auth_method.deep_view());
    let a4 = opt_binary(Property::AuthData, blob_view(p.auth_data));
    let a5 = opt_text(Property::ResponseInfo, p.response_info.deep_view());
    let a6 = opt_text(Property::ServerReference, p.server_reference.deep_view());
    let a7 = opt_text(Property::ReasonString, p.reason_string.deep_view());
    let a8 = opt_two(Property::ReceiveMaximum, p.receive_maximum);
    let a9 = opt_two(Property::TopicAliasMax, p.topic_alias_max);
    let a10 = opt_byte(Property::MaximumQoS, p.maximum_qos);
    let a11 = opt_byte(Property::RetainAvailable, p.retain_available);
    let a12 = pair_entries(p.user_property.deep_view());
    let a13 = opt_four(Property::MaxPacketSize, p.max_packet_size);
    let a14 = opt_byte(Property::WildcardSubAvailable, p.wildcard_sub_available);
    let a15 = opt_byte(Property::SubIdentifierAvailable, p.sub_identifier_available);
    let a16 = opt_byte(Property::SharedSubAvailable, p.shared_sub_available);
    let c0 = a0;
    let c1 = c0 + a1;
    let c2 = c1 + a2;
    let c3 = c2 + a3;
    let c4 = c3 + a4;
    let c5 = c4 + a5;
    let c6 = c5 + a6;
    let c7 = c6 + a7;
    let c8 = c7 + a8;
    let c9 = c8 + a9;
    let c10 = c9 + a10;
    let c11 = c10 + a11;
    let c12 = c11 + a12;
    let c13 = c12 + a13;
    let c14 = c13 + a14;
    let c15 = c14 + a15;
    let c16 = c15 + a16;
    assert(p.entries() == c16);
    reveal_with_fuel(last_byte, 2);
    lemma_last_byte_append(c0, a1, Property::RetainAvailable);
    lemma_last_byte_append(c1, a2, Property::RetainAvailable);
    lemma_last_byte_append(c2, a3, Property::RetainAvailable);
    lemma_last_byte_append(c3, a4, Property::RetainAvailable);
    lemma_last_byte_append(c4, a5, Property::RetainAvailable);
    lemma_last_byte_append(c5, a6, Property::RetainAvailable);
    lemma_last_byte_append(c6, a7, Property::RetainAvailable);
    lemma_last_byte_append(c7, a8, Property::RetainAvailable);
    lemma_last_byte_append(c8, a9, Property::RetainAvailable);
    lemma_last_byte_append(c9, a10, Property::RetainAvailable);
    lemma_last_byte_append(c10, a11, Property::RetainAvailable);
    lemma_last_byte_append(c11, a12, Property::RetainAvailable);
    lemma_last_byte_append(c12, a13, Property::RetainAvailable);
    lemma_last_byte_append(c13, a14, Property::RetainAvailable);
    lemma_last_byte_append(c14, a15, Property::RetainAvailable);
    lemma_last_byte_append(c15, a16, Property::RetainAvailable);
    lemma_last_byte_of_pairs(p.user_property.deep_view(), Property::RetainAvailable);
}

#[verifier::spinoff_prover]
#[verifier::rlimit(40)]
proof fn lemma_conn_ack_properties_user_property(p: ConnAckProperties)
    ensures
        all_pairs(p.entries()) == p.user_property.deep_view(),
{
    let a0 = opt_four(Property::SessionExpiryInterval, p.session_expiry_interval);
    let a1 = opt_text(Property::AssignedClientIdentifier, p.assigned_client_identifier.deep_view());
    let a2 = opt_two(Property::ServerKeepAlive, p.server_keep_alive);
    let a3 = opt_text(Property::AuthMethod, p.auth_method.deep_view());
    let a4 = opt_binary(Property::AuthData, blob_view(p.auth_data));
    let a5 = opt_text(Property::ResponseInfo, p.response_info.deep_view());
    let a6 = opt_text(Property::ServerReference, p.server_reference.deep_view());
    let a7 = opt_text(Property::ReasonString, p.reason_string.deep_view());
    let a8 = opt_two(Property::ReceiveMaximum, p.receive_maximum);
    let a9 = opt_two(Property::TopicAliasMax, p.topic_alias_max);
    let a10 = opt_byte(Property::MaximumQoS, p.maximum_qos);
    let a11 = opt_byte(Property::RetainAvailable, p.retain_available);
    let a12 = pair_entries(p.user_property.deep_view());
    let a13 = opt_four(Property::MaxPacketSize, p.max_packet_size);
    let a14 = opt_byte(Property::WildcardSubAvailable, p.wildcard_sub_available);
    let a15 = opt_byte(Property::SubIdentifierAvailable, p.sub_identifier_available);
    let a16 = opt_byte(Property::SharedSubAvailable, p.shared_sub_available);
    let c0 = a0;
    let c1 = c0 + a1;
    let c2 = c1 + a2;
    let c3 = c2 + a3;
    let c4 = c3 + a4;
    let c5 = c4 + a5;
    let c6 = c5 + a6;
    let c7 = c6 + a7;
    let c8 = c7 + a8;
    let c9 = c8 + a9;
    let c10 = c9 + a10;
    let c11 = c10 + a11;
    let c12 = c11 + a12;
    let c13 = c12 + a13;
    let c14 = c13 + a14;
    let c15 = c14 + a15;
    let c16 = c15 + a16;
    assert(p.entries() == c16);
    reveal_with_fuel(all_pairs, 2);
    lemma_all_pairs_append(c0, a1);
    lemma_all_pairs_append(c1, a2);
    lemma_all_pairs_append(c2, a3);
    lemma_all_pairs_append(c3, a4);
    lemma_all_pairs_append(c4, a5);
    lemma_all_pairs_append(c5, a6);
    lemma_all_pairs_append(c6, a7);
    lemma_all_pairs_append(c7, a8);
    lemma_all_pairs_append(c8, a9);
    lemma_all_pairs_append(c9, a10);
    lemma_all_pairs_append(c10, a11);
    lemma_all_pairs_append(c11, a12);
    lemma_all_pairs_append(c12, a13);
    lemma_all_pairs_append(c13, a14);
    lemma_all_pairs_append(c14, a15);
    lemma_all_pairs_append(c15, a16);
    lemma_all_pairs_of_pairs(p.user_property.deep_view());
    assert(all_pairs(a0) =~= seq![]);
    assert(all_pairs(a1) =~= seq![]);
    assert(all_pairs(a2) =~= seq![]);
    assert(all_pairs(a3) =~= seq![]);
    assert(all_pairs(a4) =~= seq![]);
    assert(all_pairs(a5) =~= seq![]);
    assert(all_pairs(a6) =~= seq![]);
    assert(all_pairs(a7) =~= seq![]);
    assert(all_pairs(a8) =~= seq![]);
    assert(all_pairs(a9) =~= seq![]);
    assert(all_pairs(a10) =~= seq![]);
    assert(all_pairs(a11) =~= seq![]);
    assert(all_pairs(a13) =~= seq![]);
    assert(all_pairs(a14) =~= seq![]);
    assert(all_pairs(a15) =~= seq![]);
    assert(all_pairs(a16) =~= seq![]);
    assert(all_pairs(a0) + all_pairs(a1) + all_pairs(a2) + all_pairs(a3) + all_pairs(a4) + all_pairs(a5) + all_pairs(a6) + all_pairs(a7) + all_pairs(a8) + all_pairs(a9) + all_pairs(a10) + all_pairs(a11) + all_pairs(a12) + all_pairs(a13) + all_pairs(a14) + all_pairs(a15) + all_pairs(a16) =~= p.user_property.deep_view());
}

#[verifier::spinoff_prover]
#[verifier::rlimit(40)]
proof fn lemma_conn_ack_properties_max_packet_size(p: ConnAckProperties)
    ensures
        last_four(p.entries(), Property::MaxPacketSize) == p.max_packet_size,
{
    let a0 = opt_four(Property::SessionExpiryInterval, p.session_expiry_interval);
    let a1 = opt_text(Property::AssignedClientIdentifier, p.assigned_client_identifier.deep_view());
    let a2 = opt_two(Property::ServerKeepAlive, p.server_keep_alive);
    let a3 = opt_text(Property::AuthMethod, p.auth_method.deep_view());
    let a4 = opt_binary(Property::AuthData, blob_view(p.auth_data));
    let a5 = opt_text(Property::ResponseInfo, p.response_info.deep_view());
    let a6 = opt_text(Property::ServerReference, p.server_reference.deep_view());
    let a7 = opt_text(Property::ReasonString, p.reason_string.deep_view());
    let a8 = opt_two(Property::ReceiveMaximum, p.receive_maximum);
    let a9 = opt_two(Property::TopicAliasMax, p.topic_alias_max);
    let a10 = opt_byte(Property::MaximumQoS, p.maximum_qos);
    let a11 = opt_byte(Property::RetainAvailable, p.retain_available);
    let a12 = pair_entries(p.user_property.deep_view());
    let a13 = opt_four(Property::MaxPacketSize, p.max_packet_size);
    let a14 = opt_byte(Property::WildcardSubAvailable, p.wildcard_sub_available);
    let a15 = opt_byte(Property::SubIdentifierAvailable, p.sub_identifier_available);
    let a16 = opt_byte(Property::SharedSubAvailable, p.shared_sub_available);
    let c0 = a0;
    let c1 = c0 + a1;
    let c2 = c1 + a2;
    let c3 = c2 + a3;
    let c4 = c3 + a4;
    let c5 = c4 + a5;
    let c6 = c5 + a6;
    let c7 = c6 + a7;
    let c8 = c7 + a8;
    let c9 = c8 + a9;
    let c10 = c9 + a10;
    let c11 = c10 + a11;
    let c12 = c11 + a12;
    let c13 = c12 + a13;
    let c14 = c13 + a14;
    let c15 = c14 + a15;
    let c16 = c15 + a16;
    assert(p.entries() == c16);
    reveal_with_fuel(last_four, 2);
    lemma_last_four_append(c0, a1, Property::MaxPacketSize);
    lemma_last_four_append(c1, a2, Property::MaxPacketSize);
    lemma_last_four_append(c2, a3, Property::MaxPacketSize);
    lemma_last_four_append(c3, a4, Property::MaxPacketSize);
    lemma_last_four_append(c4, a5, Property::MaxPacketSize);
    lemma_last_four_append(c5, a6, Property::MaxPacketSize);
    lemma_last_four_append(c6, a7, Property::MaxPacketSize);
    lemma_last_four_append(c7, a8, Property::MaxPacketSize);
    lemma_last_four_append(c8, a9, Property::MaxPacketSize);
    lemma_last_four_append(c9, a10, Property::MaxPacketSize);
    lemma_last_four_append(c10, a11, Property::MaxPacketSize);
    lemma_last_four_append(c11, a12, Property::MaxPacketSize);
    lemma_last_four_append(c12, a13, Property::MaxPacketSize);
    lemma_last_four_append(c13, a14, Property::MaxPacketSize);
    lemma_last_four_append(c14, a15, Property::MaxPacketSize);
    lemma_last_four_append(c15, a16, Property::MaxPacketSize);
    lemma_last_four_of_pairs(p.user_property.deep_view(), Property::MaxPacketSize);
}

#[verifier::spinoff_prover]
#[verifier::rlimit(40)]
proof fn lemma_conn_ack_properties_wildcard_sub_available(p: ConnAckProperties)
    ensures
        last_byte(p.entries(), Property::WildcardSubAvailable) == p.wildcard_sub_available,
{
    let a0 = opt_four(Property::SessionExpiryInterval, p.session_expiry_interval);
    let a1 = opt_text(Property::AssignedClientIdentifier, p.assigned_client_identifier.deep_view());
    let a2 = opt_two(Property::ServerKeepAlive, p.server_keep_alive);
    let a3 = opt_text(Property::AuthMethod, p.auth_method.deep_view());
    let a4 = opt_binary(Property::AuthData, blob_view(p.auth_data));
    let a5 = opt_text(Property::ResponseInfo, p.response_info.deep_view());
    let a6 = opt_text(Property::ServerReference, p.server_reference.deep_view());
    let a7 = opt_text(Property::ReasonString, p.reason_string.deep_view());
    let a8 = opt_two(Property::ReceiveMaximum, p.receive_maximum);
    let a9 = opt_two(Property::TopicAliasMax, p.topic_alias_max);
    let a10 = opt_byte(Property::MaximumQoS, p.maximum_qos);
    let a11 = opt_byte(Property::RetainAvailable, p.retain_available);
    let a12 = pair_entries(p.user_property.deep_view());
    let a13 = opt_four(Property::MaxPacketSize, p.max_packet_size);
    let a14 = opt_byte(Property::WildcardSubAvailable, p.wildcard_sub_available);
    let a15 = opt_byte(Property::SubIdentifierAvailable, p.sub_identifier_available);
    let a16 = opt_byte(Property::SharedSubAvailable, p.shared_sub_available);
    let c0 = a0;
    let c1 = c0 + a1;
    let c2 = c1 + a2;
    let c3 = c2 + a3;
    let c4 = c3 + a4;
    let c5 = c4 + a5;
    let c6 = c5 + a6;
    let c7 = c6 + a7;
    let c8 = c7 + a8;
    let c9 = c8 + a9;
    let c10 = c9 + a10;
    let c11 = c10 + a11;
    let c12 = c11 + a12;
    let c13 = c12 + a13;
    let c14 = c13 + a14;
    let c15 = c14 + a15;
    let c16 = c15 + a16;
    assert(p.entries() == c16);
    reveal_with_fuel(last_byte, 2);
    lemma_last_byte_append(c0, a1, Property::WildcardSubAvailable);
    lemma_last_byte_append(c1, a2, Property::WildcardSubAvailable);
    lemma_last_byte_append(c2, a3, Property::WildcardSubAvailable);
    lemma_last_byte_append(c3, a4, Property::WildcardSubAvailable);
    lemma_last_byte_append(c4, a5, Property::WildcardSubAvailable);
    lemma_last_byte_append(c5, a6, Property::WildcardSubAvailable);
    lemma_last_byte_append(c6, a7, Property::WildcardSubAvailable);
    lemma_last_byte_append(c7, a8, Property::WildcardSubAvailable);
    lemma_last_byte_append(c8, a9, Property::WildcardSubAvailable);
    lemma_last_byte_append(c9, a10, Property::WildcardSubAvailable);
    lemma_last_byte_append(c10, a11, Property::WildcardSubAvailable);
    lemma_last_byte_append(c11, a12, Property::WildcardSubAvailable);
    lemma_last_byte_append(c12, a13, Property::WildcardSubAvailable);
    lemma_last_byte_append(c13, a14, Property::WildcardSubAvailable);
    lemma_last_byte_append(c14, a15, Property::WildcardSubAvailable);
    lemma_last_byte_append(c15, a16, Property::WildcardSubAvailable);
    lemma_last_byte_of_pairs(p.user_property.deep_view(), Property::WildcardSubAvailable);
}

#[verifier::spinoff_prover]
#[verifier::rlimit(40)]
proof fn lemma_conn_ack_properties_sub_identifier_available(p: ConnAckProperties)
    ensures
        last_byte(p.entries(), Property::SubIdentifierAvailable) == p.sub_identifier_available,
{
    let a0 = opt_four(Property::SessionExpiryInterval, p.session_expiry_interval);
    let a1 = opt_text(Property::AssignedClientIdentifier, p.assigned_client_identifier.deep_view());
    let a2 = opt_two(Property::ServerKeepAlive, p.server_keep_alive);
    let a3 = opt_text(Property::AuthMethod, p.auth_method.deep_view());
    let a4 = opt_binary(Property::AuthData, blob_view(p.auth_data));
    let a5 = opt_text(Property::ResponseInfo, p.response_info.deep_view());
    let a6 = opt_text(Property::ServerReference, p.server_reference.deep_view());
    let a7 = opt_text(Property::ReasonString, p.reason_string.deep_view());
    let a8 = opt_two(Property::ReceiveMaximum, p.receive_maximum);
    let a9 = opt_two(Property::TopicAliasMax, p.topic_alias_max);
    let a10 = opt_byte(Property::MaximumQoS, p.maximum_qos);
    let a11 = opt_byte(Property::RetainAvailable, p.retain_available);
    let a12 = pair_entries(p.user_property.deep_view());
    let a13 = opt_four(Property::MaxPacketSize, p.max_packet_size);
    let a14 = opt_byte(Property::WildcardSubAvailable, p.wildcard_sub_available);
    let a15 = opt_byte(Property::SubIdentifierAvailable, p.sub_identifier_available);
    let a16 = opt_byte(Property::SharedSubAvailable, p.shared_sub_available);
    let c0 = a0;
    let c1 = c0 + a1;
    let c2 = c1 + a2;
    let c3 = c2 + a3;
    let c4 = c3 + a4;
    let c5 = c4 + a5;
    let c6 = c5 + a6;
    let c7 = c6 + a7;
    let c8 = c7 + a8;
    let c9 = c8 + a9;
    let c10 = c9 + a10;
    let c11 = c10 + a11;
    let c12 = c11 + a12;
    let c13 = c12 + a13;
    let c14 = c13 + a14;
    let c15 = c14 + a15;
    let c16 = c15 + a16;
    assert(p.entries() == c16);
    reveal_with_fuel(last_byte, 2);
    lemma_last_byte_append(c0, a1, Property::SubIdentifierAvailable);
    lemma_last_byte_append(c1, a2, Property::SubIdentifierAvailable);
    lemma_last_byte_append(c2, a3, Property::SubIdentifierAvailable);
    lemma_last_byte_append(c3, a4, Property::SubIdentifierAvailable);
    lemma_last_byte_append(c4, a5, Property::SubIdentifierAvailable);
    lemma_last_byte_append(c5, a6, Property::SubIdentifierAvailable);
    lemma_last_byte_append(c6, a7, Property::SubIdentifierAvailable);
    lemma_last_byte_append(c7, a8, Property::SubIdentifierAvailable);
    lemma_last_byte_append(c8, a9, Property::SubIdentifierAvailable);
    lemma_last_byte_append(c9, a10, Property::SubIdentifierAvailable);
    lemma_last_byte_append(c10, a11, Property::SubIdentifierAvailable);
    lemma_last_byte_append(c11, a12, Property::SubIdentifierAvailable);
    lemma_last_byte_append(c12, a13, Property::SubIdentifierAvailable);
    lemma_last_byte_append(c13, a14, Property::SubIdentifierAvailable);
    lemma_last_byte_append(c14, a15, Property::SubIdentifierAvailable);
    lemma_last_byte_append(c15, a16, Property::SubIdentifierAvailable);
    lemma_last_byte_of_pairs(p.user_property.deep_view(), Property::SubIdentifierAvailable);
}

#[verifier::spinoff_prover]
#[verifier::rlimit(40)]
proof fn lemma_conn_ack_properties_shared_sub_available(p: ConnAckProperties)
    ensures
        last_byte(p.entries(), Property::SharedSubAvailable) == p.shared_sub_available,
{
    let a0 = opt_four(Property::SessionExpiryInterval, p.session_expiry_interval);
    let a1 = opt_text(Property::AssignedClientIdentifier, p.assigned_client_identifier.deep_view());
    let a2 = opt_two(Property::ServerKeepAlive, p.server_keep_alive);
    let a3 = opt_text(Property::AuthMethod, p.auth_method.deep_view());
    let a4 = opt_binary(Property::AuthData, blob_view(p.auth_data));
    let a5 = opt_text(Property::ResponseInfo, p.response_info.deep_view());
    let a6 = opt_text(Property::ServerReference, p.server_reference.deep_view());
    let a7 = opt_text(Property::ReasonString, p.reason_string.deep_view());
    let a8 = opt_two(Property::ReceiveMaximum, p.receive_maximum);
    let a9 = opt_two(Property::TopicAliasMax, p.topic_alias_max);
    let a10 = opt_byte(Property::MaximumQoS, p.maximum_qos);
    let a11 = opt_byte(Property::RetainAvailable, p.retain_available);
    let a12 = pair_entries(p.user_property.deep_view());
    let a13 = opt_four(Property::MaxPacketSize, p.max_packet_size);
    let a14 = opt_byte(Property::WildcardSubAvailable, p.wildcard_sub_available);
    let a15 = opt_byte(Property::SubIdentifierAvailable, p.sub_identifier_available);
    let a16 = opt_byte(Property::SharedSubAvailable, p.shared_sub_available);
    let c0 = a0;
    let c1 = c0 + a1;
    let c2 = c1 + a2;
    let c3 = c2 + a3;
    let c4 = c3 + a4;
    let c5 = c4 + a5;
    let c6 = c5 + a6;
    let c7 = c6 + a7;
    let c8 = c7 + a8;
    let c9 = c8 + a9;
    let c10 = c9 + a10;
    let c11 = c10 + a11;
    let c12 = c11 + a12;
    let c13 = c12 + a13;
    let c14 = c13 + a14;
    let c15 = c14 + a15;
    let c16 = c15 + a16;
    assert(p.entries() == c16);
    reveal_with_fuel(last_byte, 2);
    lemma_last_byte_append(c0, a1, Property::SharedSubAvailable);
    lemma_last_byte_append(c1, a2, Property::SharedSubAvailable);
    lemma_last_byte_append(c2, a3, Property::SharedSubAvailable);
    lemma_last_byte_append(c3, a4, Property::SharedSubAvailable);
    lemma_last_byte_append(c4, a5, Property::SharedSubAvailable);
    lemma_last_byte_append(c5, a6, Property::SharedSubAvailable);
    lemma_last_byte_append(c6, a7, Property::SharedSubAvailable);
    lemma_last_byte_append(c7, a8, Property::SharedSubAvailable);
    lemma_last_byte_append(c8, a9, Property::SharedSubAvailable);
    lemma_last_byte_append(c9, a10, Property::SharedSubAvailable);
    lemma_last_byte_append(c10, a11, Property::SharedSubAvailable);
    lemma_last_byte_append(c11, a12, Property::SharedSubAvailable);
    lemma_last_byte_append(c12, a13, Property::SharedSubAvailable);
    lemma_last_byte_append(c13, a14, Property::SharedSubAvailable);
    lemma_last_byte_append(c14, a15, Property::SharedSubAvailable);
    lemma_last_byte_append(c15, a16, Property::SharedSubAvailable);
    lemma_last_byte_of_pairs(p.user_property.deep_view(), Property::SharedSubAvailable);
}

/// The fields of ConnAckProperties decode back from the entries they are written as.
pub proof fn lemma_conn_ack_properties_round_trip(p: ConnAckProperties)
    ensures
        conn_ack_properties_of(p.entries()) == p@,
        forall|i: int| 0 <= i < p.entries().len() ==> shaped(#[trigger] p.entries()[i])
            && PropOwner::ConnAck.spec_permits(p.entries()[i].0),
{
    lemma_conn_ack_properties_session_expiry_interval(p);
    lemma_conn_ack_properties_assigned_client_identifier(p);
    lemma_conn_ack_properties_server_keep_alive(p);
    lemma_conn_ack_properties_auth_method(p);
    lemma_conn_ack_properties_auth_data(p);
    lemma_conn_ack_properties_response_info(p);
    lemma_conn_ack_properties_server_reference(p);
    lemma_conn_ack_properties_reason_string(p);
    lemma_conn_ack_properties_receive_maximum(p);
    lemma_conn_ack_properties_topic_alias_max(p);
    lemma_conn_ack_properties_maximum_qos(p);
    lemma_conn_ack_properties_retain_available(p);
    lemma_conn_ack_properties_user_property(p);
    lemma_conn_ack_properties_max_packet_size(p);
    lemma_conn_ack_properties_wildcard_sub_available(p);
    lemma_conn_ack_properties_sub_identifier_available(p);
    lemma_conn_ack_properties_shared_sub_available(p);
    let a0 = opt_four(Property::SessionExpiryInterval, p.session_expiry_interval);
    let a1 = opt_text(Property::AssignedClientIdentifier, p.assigned_client_identifier.deep_view());
    let a2 = opt_two(Property::ServerKeepAlive, p.server_keep_alive);
    let a3 = opt_text(Property::AuthMethod, p.auth_method.deep_view());
    let a4 = opt_binary(Property::AuthData, blob_view(p.auth_data));
    let a5 = opt_text(Property::ResponseInfo, p.response_info.deep_view());
    let a6 = opt_text(Property::ServerReference, p.server_reference.deep_view());
    let a7 = opt_text(Property::ReasonString, p.reason_string.deep_view());
    let a8 = opt_two(Property::ReceiveMaximum, p.receive_maximum);
    let a9 = opt_two(Property::TopicAliasMax, p.topic_alias_max);
    let a10 = opt_byte(Property::MaximumQoS, p.maximum_qos);
    let a11 = opt_byte(Property::RetainAvailable, p.retain_available);
    let a12 = pair_entries(p.user_property.deep_view());
    let a13 = opt_four(Property::MaxPacketSize, p.max_packet_size);
    let a14 = opt_byte(Property::WildcardSubAvailable, p.wildcard_sub_available);
    let a15 = opt_byte(Property::SubIdentifierAvailable, p.sub_identifier_available);
    let a16 = opt_byte(Property::SharedSubAvailable, p.shared_sub_available);
    let c0 = a0;
    let c1 = c0 + a1;
    let c2 = c1 + a2;
    let c3 = c2 + a3;
    let c4 = c3 + a4;
    let c5 = c4 + a5;
    let c6 = c5 + a6;
    let c7 = c6 + a7;
    let c8 = c7 + a8;
    let c9 = c8 + a9;
    let c10 = c9 + a10;
    let c11 = c10 + a11;
    let c12 = c11 + a12;
    let c13 = c12 + a13;
    let c14 = c13 + a14;
    let c15 = c14 + a15;
    let c16 = c15 + a16;
    assert(p.entries() == c16);
    lemma_pair_entries_shaped(p.user_property.deep_view());
    assert forall|i: int| 0 <= i < p.entries().len() implies shaped(#[trigger] p.entries()[i])
        && PropOwner::ConnAck.spec_permits(p.entries()[i].0) by {
        if i >= c15.len() {
            assert(p.entries()[i] == a16[i - c15.len()]);
        } else if i >= c14.len() {
            assert(p.entries()[i] == a15[i - c14.len()]);
        } else if i >= c13.len() {
            assert(p.entries()[i] == a14[i - c13.len()]);
        } else if i >= c12.len() {
            assert(p.entries()[i] == a13[i - c12.len()]);
        } else if i >= c11.len() {
            assert(p.entries()[i] == a12[i - c11.len()]);
        } else if i >= c10.len() {
            assert(p.entries()[i] == a11[i - c10.len()]);
        } else if i >= c9.len() {
            assert(p.entries()[i] == a10[i - c9.len()]);
        } else if i >= c8.len() {
            assert(p.entries()[i] == a9[i - c8.len()]);
        } else if i >= c7.len() {
            assert(p.entries()[i] == a8[i - c7.len()]);
        } else if i >= c6.len() {
            assert(p.entries()[i] == a7[i - c6.len()]);
        } else if i >= c5.len() {
            assert(p.entries()[i] == a6[i - c5.len()]);
        } else if i >= c4.len() {
            assert(p.entries()[i] == a5[i - c4.len()]);
        } else if i >= c3.len() {
            assert(p.entries()[i] == a4[i - c3.len()]);
        } else if i >= c2.len() {
            assert(p.entries()[i] == a3[i - c2.len()]);
        } else if i >= c1.len() {
            assert(p.entries()[i] == a2[i - c1.len()]);
        } else if i >= c0.len() {
            assert(p.entries()[i] == a1[i - c0.len()]);
        } else {
            assert(p.entries()[i] == a0[i]);
        }
    }
}

/// CONNACK: the answer to a CONNECT.
#[derive(Debug, Clone)]
pub struct ConnAck {
    pub session_present: bool,
    pub reason_code: ReasonCode,
    pub properties: Option<ConnAckProperties>,
}

impl ConnAck {
    pub fn new() -> (r: ConnAck)
        ensures
            !r.session_present,
            r.reason_code == ReasonCode::Success,
            r.properties is None,
    {
        ConnAck { session_present: false, reason_code: ReasonCode::Success, properties: None }
    }

    /// The property entries this packet carries.
    pub open spec fn prop_entries(&self) -> Seq<EntryView> {
        match self.properties {
            Some(p) => p.entries(),
            None => seq![],
        }
    }

    /// The body: the session-present flag, the reason code, and in v5 the
    /// property block.
    pub open spec fn body(&self, version: Version) -> Seq<u8> {
        seq![if self.session_present { 1u8 } else { 0u8 }, self.reason_code.spec_byte()] + v5_block(
            self.prop_entries(),
            version,
        )
    }

    pub open spec fn fits(&self, version: Version) -> bool {
        v5_block_fits(self.prop_entries(), version) && self.body(version).len()
            <= MAX_REMAINING_LENGTH
    }

    /// Appends the whole packet; fails with `PayloadTooLong` where a field does
    /// not fit.
    pub fn pack(self, out: &mut Vec<u8>, version: Version) -> (r: Result<(), Error>)
        ensures
            self.fits(version) ==> r is Ok && final(out)@ == old(out)@ + frame_bytes(
                0x20,
                self.body(version),
            ),
            !self.fits(version) ==> r is Err && r->Err_0@ == ErrorView::PayloadTooLong,
    {
        let ghost me = self;
        let es = match self.properties {
            Some(p) => p.to_entries(),
            None => Vec::new(),
        };
        assert(entries_view(es@) =~= me.prop_entries());
        let mut body: Vec<u8> = Vec::new();
        body.push(if self.session_present { 1u8 } else { 0u8 });
        body.push(self.reason_code.byte());
        write_v5_block(&mut body, &es, version)?;
        assert(body@ =~= me.body(version));
        write_frame(out, 0x20, body.as_slice())
    }
}

/// The mathematical value of a [`ConnAck`].
pub struct ConnAckView {
    pub session_present: bool,
    pub reason_code: ReasonCode,
    pub properties: Option<ConnAckPropertiesView>,
}

impl View for ConnAck {
    type V = ConnAckView;

    open spec fn view(&self) -> ConnAckView {
        ConnAckView {
            session_present: self.session_present,
            reason_code: self.reason_code,
            properties: conn_ack_properties_view(self.properties),
        }
    }
}

/// A CONNACK body: the acknowledge flags, whose bit 0 is session-present, the
/// reason code, then in v5 the property block.
pub open spec fn spec_conn_ack(s: Seq<u8>, version: Version) -> Result<ConnAckView, ErrorView> {
    if s.len() < 2 {
        Err(ErrorView::PacketTooShort)
    } else {
        match ReasonCode::spec_from_byte(s[1]) {
            None => Err(ErrorView::InvalidReasonCode(s[1])),
            Some(rc) => match (if version == Version::V5 {
                spec_conn_ack_properties(s.skip(2))
            } else {
                Ok((None, 0int))
            }) {
                Err(e) => Err(e),
                Ok((p, _)) => Ok(
                    ConnAckView { session_present: s[0] % 2 == 1, reason_code: rc, properties: p },
                ),
            },
        }
    }
}

impl ConnAck {
    /// Decodes a CONNACK body.
    pub fn unpack(read: &[u8], version: Version) -> (r: Result<ConnAck, Error>)
        ensures
            result_view(r) == spec_conn_ack(read@, version),
    {
        let end = read.len();
        assert(region(read@, 0, end) =~= read@);
        let (flags, p) = get_u8(read, 0, end)?;
        let (b, p) = get_u8(read, p, end)?;
        let mut ack = ConnAck::new();
        ack.session_present = flags % 2 == 1;
        match ReasonCode::from_byte(b) {
            Some(rc) => ack.reason_code = rc,
            None => return Err(Error::InvalidReasonCode(b)),
        }
        if version == Version::V5 {
            assert(region(read@, p, end) =~= read@.skip(2));
            let (props, _) = ConnAckProperties::unpack(read, p, end)?;
            ack.properties = props;
        }
        Ok(ack)
    }
}

/// A CONNACK decodes back from its body. Below v5 no property block is written,
/// so the properties must be absent to come back; properties that are set but
/// hold no entry decode as none, so they are left out.
pub proof fn lemma_conn_ack_round_trip(p: ConnAck, version: Version)
    requires
        p.fits(version),
        version != Version::V5 ==> p.properties is None,
        p.properties matches Some(q) ==> q.entries().len() > 0,
    ensures
        spec_conn_ack(p.body(version), version) == Ok::<ConnAckView, ErrorView>(p@),
{
    let s = p.body(version);
    crate::kinds::lemma_reasoncode_byte_round_trip(p.reason_code);
    if version == Version::V5 {
        let es = p.prop_entries();
        assert(s.skip(2) =~= block_bytes(es) + seq![]);
        if let Some(q) = p.properties {
            lemma_conn_ack_properties_round_trip(q);
        }
        assert(forall|i: int| 0 <= i < es.len() ==> shaped(#[trigger] es[i])
            && PropOwner::ConnAck.spec_permits(es[i].0));
        lemma_block_round_trip(es, PropOwner::ConnAck, seq![]);
    }
}

/// Encoding the CONNACK that its body decodes to gives that body back.
pub proof fn lemma_conn_ack_bytes_round_trip(p: ConnAck, r: ConnAck, version: Version)
    requires
        p.fits(version),
        version != Version::V5 ==> p.properties is None,
        p.properties matches Some(q) ==> q.entries().len() > 0,
        spec_conn_ack(p.body(version), version) == Ok::<ConnAckView, ErrorView>(r@),
    ensures
        r.body(version) == p.body(version),
{
    lemma_conn_ack_round_trip(p, version);
    if let (Some(a), Some(b)) = (r.properties, p.properties) {
        assert(a@ == b@);
        assert(a.entries() == b.entries());
    }
}

} // verus!
