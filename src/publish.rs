use vstd::prelude::*;
use crate::codec::{
    frame_bytes, get_u16, lemma_string_round_trip, lemma_u16_round_trip, read_string, region,
    spec_string, spec_u16, string_bytes, string_fits, u16_bytes, write_frame, write_string,
    MAX_REMAINING_LENGTH,
};
use crate::error::{result_view, Error, ErrorView, Parsed};
use crate::kinds::{Property, QoS, Version};
use crate::property::{
    all_pairs, all_vars, blob_view, entries_bytes, entries_fit, entries_view, last_binary,
    last_byte, last_four, last_text, last_two, lemma_all_pairs_append, lemma_all_pairs_of_pairs,
    lemma_all_pairs_of_vars, lemma_all_vars_append, lemma_all_vars_of_pairs,
    lemma_all_vars_of_vars, lemma_block_round_trip, lemma_entries_view_drop_first,
    lemma_last_binary_append, lemma_last_binary_of_pairs, lemma_last_binary_of_vars,
    lemma_last_byte_append, lemma_last_byte_of_pairs, lemma_last_byte_of_vars,
    lemma_last_four_append, lemma_last_four_of_pairs, lemma_last_four_of_vars,
    lemma_last_text_append, lemma_last_text_of_pairs, lemma_last_text_of_vars,
    lemma_last_two_append, lemma_last_two_of_pairs, lemma_last_two_of_vars,
    lemma_pair_entries_shaped, lemma_var_entries_shaped, opt_binary, opt_byte, opt_four,
    opt_text, opt_two, pair_entries, push_opt_binary, push_opt_byte, push_opt_four,
    push_opt_text, push_opt_two, push_pairs, push_vars, read_block, shaped, spec_block,
    v5_block, v5_block_fits, var_entries, write_entries, write_v5_block, Entry, EntryView,
    PropOwner, PropValue,
};

verus! {

/// The properties of a v5 PUBLISH packet.
#[derive(Debug, Clone)]
pub struct PublishProperties {
    pub payload_format_indicator: Option<u8>,
    pub message_expiry_interval: Option<u32>,
    pub content_type: Option<String>,
    pub response_topic: Option<String>,
    pub correlation_data: Option<Vec<u8>>,
    pub sub_identifier: Vec<u32>,
    pub topic_alias: Option<u16>,
    pub user_property: Vec<(String, String)>,
}

/// The mathematical value of a [`PublishProperties`].
pub struct PublishPropertiesView {
    pub payload_format_indicator: Option<u8>,
    pub message_expiry_interval: Option<u32>,
    pub content_type: Option<Seq<char>>,
    pub response_topic: Option<Seq<char>>,
    pub correlation_data: Option<Seq<u8>>,
    pub sub_identifier: Seq<u32>,
    pub topic_alias: Option<u16>,
    pub user_property: Seq<(Seq<char>, Seq<char>)>,
}

impl View for PublishProperties {
    type V = PublishPropertiesView;

    open spec fn view(&self) -> PublishPropertiesView {
        PublishPropertiesView {
            payload_format_indicator: self.payload_format_indicator,
            message_expiry_interval: self.message_expiry_interval,
            content_type: self.content_type.deep_view(),
            response_topic: self.response_topic.deep_view(),
            correlation_data: blob_view(self.correlation_data),
            sub_identifier: self.sub_identifier@,
            topic_alias: self.topic_alias,
            user_property: self.user_property.deep_view(),
        }
    }
}

pub open spec fn publish_properties_view(o: Option<PublishProperties>) -> Option<PublishPropertiesView> {
    match o {
        Some(p) => Some(p@),
        None => None,
    }
}

/// The fields that a list of decoded entries gives: for each single-valued
/// property the last entry, for the repeatable ones every entry in order.
pub open spec fn publish_properties_of(es: Seq<EntryView>) -> PublishPropertiesView {
    PublishPropertiesView {
        payload_format_indicator: last_byte(es, Property::PayloadFormatIndicator),
        message_expiry_interval: last_four(es, Property::MessageExpiryInterval),
        content_type: last_text(es, Property::ContentType),
        response_topic: last_text(es, Property::ResponseTopic),
        correlation_data: last_binary(es, Property::CorrelationData),
        sub_identifier: all_vars(es, Property::SubIdentifier),
        topic_alias: last_two(es, Property::TopicAlias),
        user_property: all_pairs(es),
    }
}

/// A property block at the front of `s`, as these fields.
pub open spec fn spec_publish_properties(s: Seq<u8>) -> Parsed<Option<PublishPropertiesView>> {
    match spec_block(s, PropOwner::Publish) {
        Ok((Some(es), n)) => Ok((Some(publish_properties_of(es)), n)),
        Ok((None, n)) => Ok((None, n)),
        Err(e) => Err(e),
    }
}

impl PublishProperties {
    /// No property set.
    pub open spec fn spec_empty(&self) -> bool {
        self.payload_format_indicator is None && self.message_expiry_interval is None && self.content_type is None && self.response_topic is None && self.correlation_data is None && self.sub_identifier@.len() == 0 && self.topic_alias is None && self.user_property@.len() == 0
    }

    pub fn new() -> (r: PublishProperties)
        ensures
            r.spec_empty(),
    {
        PublishProperties {
            payload_format_indicator: None,
            message_expiry_interval: None,
            content_type: None,
            response_topic: None,
            correlation_data: None,
            sub_identifier: Vec::new(),
            topic_alias: None,
            user_property: Vec::new(),
        }
    }

    fn from_entries(es: Vec<Entry>) -> (r: PublishProperties)
        ensures
            r@ == publish_properties_of(entries_view(es@)),
    {
        let ghost all = entries_view(es@);
        let mut prop = PublishProperties::new();
        let mut rest = es;
        let ghost mut i: int = 0;
        assert(all.take(0) =~= Seq::<EntryView>::empty());
        assert(prop.sub_identifier@ =~= seq![]);
        assert(prop.user_property.deep_view() =~= seq![]);
        while rest.len() > 0
            invariant
                0 <= i <= all.len(),
                entries_view(rest@) == all.skip(i),
                prop@ == publish_properties_of(all.take(i)),
            decreases rest@.len(),
        {
            let ghost before = rest@;
            assert(entries_view(before).len() == before.len());
            assert(all.skip(i)[0] == all[i]);
            assert(entries_view(before)[0] == all[i]);
            let (p, v) = rest.remove(0);
            let ghost e = (p, v@);
            assert(e == all[i]);
            let ghost old_prop = prop;
            match (p, v) {
                (Property::PayloadFormatIndicator, PropValue::Byte(x)) => {
                    prop.payload_format_indicator = Some(x);
                },
                (Property::MessageExpiryInterval, PropValue::Four(x)) => {
                    prop.message_expiry_interval = Some(x);
                },
                (Property::ContentType, PropValue::Text(x)) => {
                    prop.content_type = Some(x);
                },
                (Property::ResponseTopic, PropValue::Text(x)) => {
                    prop.response_topic = Some(x);
                },
                (Property::CorrelationData, PropValue::Binary(x)) => {
                    prop.correlation_data = Some(x);
                },
                (Property::SubIdentifier, PropValue::Var(x)) => {
                    prop.sub_identifier.push(x);
                },
                (Property::TopicAlias, PropValue::Two(x)) => {
                    prop.topic_alias = Some(x);
                },
                (Property::UserProperty, PropValue::Pair(key, value)) => {
                    prop.user_property.push((key, value));
                    assert(prop.user_property.deep_view() =~= old_prop.user_property.deep_view().push((e.1->Pair_0, e.1->Pair_1)));
                },
                _ => {},
            }
            proof {
                let t = all.take(i + 1);
                assert(t.drop_last() =~= all.take(i));
                assert(t.last() == e);
                lemma_entries_view_drop_first(before);
                assert(rest@ =~= before.drop_first());
                assert(all.skip(i + 1) =~= all.skip(i).drop_first());
                i = i + 1;
            }
        }
        assert(all.take(i) =~= all);
        prop
    }

    /// Decodes a property block starting at `pos`, read no further than `end`:
    /// `None` for an empty block, and the position just after the block.
    pub fn unpack(data: &[u8], pos: usize, end: usize) -> (r: Result<(Option<PublishProperties>, usize), Error>)
        requires
            pos <= end <= data@.len(),
        ensures
            match r {
                Ok((p, q)) => spec_publish_properties(region(data@, pos, end)) == Parsed::<
                    Option<PublishPropertiesView>,
                >::Ok((publish_properties_view(p), q - pos)) && pos <= q <= end,
                Err(e) => spec_publish_properties(region(data@, pos, end)) == Parsed::<
                    Option<PublishPropertiesView>,
                >::Err(e@),
            },
    {
        let (es, q) = read_block(data, pos, end, PropOwner::Publish)?;
        match es {
            Some(es) => Ok((Some(PublishProperties::from_entries(es)), q)),
            None => Ok((None, q)),
        }
    }

    /// The entries these fields stand for, in the order they are written.
    pub open spec fn entries(&self) -> Seq<EntryView> {
        opt_byte(Property::PayloadFormatIndicator, self.payload_format_indicator)
            + opt_four(Property::MessageExpiryInterval, self.message_expiry_interval)
            + opt_text(Property::ContentType, self.content_type.deep_view())
            + opt_text(Property::ResponseTopic, self.response_topic.deep_view())
            + opt_binary(Property::CorrelationData, blob_view(self.correlation_data))
            + var_entries(Property::SubIdentifier, self.sub_identifier@)
            + opt_two(Property::TopicAlias, self.topic_alias)
            + pair_entries(self.user_property.deep_view())
    }

    fn to_entries(self) -> (r: Vec<Entry>)
        ensures
            entries_view(r@) == self.entries(),
    {
        let ghost me = self;
        let mut es: Vec<Entry> = Vec::new();
        let ghost mut acc: Seq<EntryView> = seq![];
        assert(entries_view(es@) =~= acc);
        let ghost prev = es@;
        push_opt_byte(&mut es, Property::PayloadFormatIndicator, self.payload_format_indicator);
        proof {
            assert(entries_view(es@) =~= entries_view(prev) + opt_byte(Property::PayloadFormatIndicator, me.payload_format_indicator));
            acc = acc + opt_byte(Property::PayloadFormatIndicator, me.payload_format_indicator);
        }
        let ghost prev = es@;
        push_opt_four(&mut es, Property::MessageExpiryInterval, self.message_expiry_interval);
        proof {
            assert(entries_view(es@) =~= entries_view(prev) + opt_four(Property::MessageExpiryInterval, me.message_expiry_interval));
            acc = acc + opt_four(Property::MessageExpiryInterval, me.message_expiry_interval);
        }
        let ghost prev = es@;
        push_opt_text(&mut es, Property::ContentType, self.content_type);
        proof {
            assert(entries_view(es@) =~= entries_view(prev) + opt_text(Property::ContentType, me.content_type.deep_view()));
            acc = acc + opt_text(Property::ContentType, me.content_type.deep_view());
        }
        let ghost prev = es@;
        push_opt_text(&mut es, Property::ResponseTopic, self.response_topic);
        proof {
            assert(entries_view(es@) =~= entries_view(prev) + opt_text(Property::ResponseTopic, me.response_topic.deep_view()));
            acc = acc + opt_text(Property::ResponseTopic, me.response_topic.deep_view());
        }
        let ghost prev = es@;
        push_opt_binary(&mut es, Property::CorrelationData, self.correlation_data);
        proof {
            assert(entries_view(es@) =~= entries_view(prev) + opt_binary(Property::CorrelationData, blob_view(me.correlation_data)));
            acc = acc + opt_binary(Property::CorrelationData, blob_view(me.correlation_data));
        }
        let ghost prev = es@;
        push_vars(&mut es, Property::SubIdentifier, self.sub_identifier);
        proof {
            assert(entries_view(es@) =~= entries_view(prev) + var_entries(Property::SubIdentifier, me.sub_identifier@));
            acc = acc + var_entries(Property::SubIdentifier, me.sub_identifier@);
        }
        let ghost prev = es@;
        push_opt_two(&mut es, Property::TopicAlias, self.topic_alias);
        proof {
            assert(entries_view(es@) =~= entries_view(prev) + opt_two(Property::TopicAlias, me.topic_alias));
            acc = acc + opt_two(Property::TopicAlias, me.topic_alias);
        }
        let ghost prev = es@;
        push_pairs(&mut es, self.user_property);
        proof {
            assert(entries_view(es@) =~= entries_view(prev) + pair_entries(me.user_property.deep_view()));
            acc = acc + pair_entries(me.user_property.deep_view());
        }
        es
    }

    /// Appends the entries, without the block's length: fails with
    /// `PayloadTooLong` where a value does not fit its field.
    pub fn pack(self, out: &mut Vec<u8>) -> (r: Result<(), Error>)
        ensures
            entries_fit(self.entries()) ==> r is Ok && final(out)@ == old(out)@ + entries_bytes(
                self.entries(),
            ),
            !entries_fit(self.entries()) ==> r is Err && r->Err_0@ == ErrorView::PayloadTooLong,
    {
        let es = self.to_entries();
        write_entries(out, &es)
    }

}

/// The fields of PublishProperties decode back from the entries they are written as.
pub proof fn lemma_publish_properties_round_trip(p: PublishProperties)
    ensures
        publish_properties_of(p.entries()) == p@,
        forall|i: int| 0 <= i < p.entries().len() ==> shaped(#[trigger] p.entries()[i])
            && PropOwner::Publish.spec_permits(p.entries()[i].0),
{
    let a0 = opt_byte(Property::PayloadFormatIndicator, p.payload_format_indicator);
    let a1 = opt_four(Property::MessageExpiryInterval, p.message_expiry_interval);
    let a2 = opt_text(Property::ContentType, p.content_type.deep_view());
    let a3 = opt_text(Property::ResponseTopic, p.response_topic.deep_view());
    let a4 = opt_binary(Property::CorrelationData, blob_view(p.correlation_data));
    let a5 = var_entries(Property::SubIdentifier, p.sub_identifier@);
    let a6 = opt_two(Property::TopicAlias, p.topic_alias);
    let a7 = pair_entries(p.user_property.deep_view());
    let c0 = a0;
    let c1 = c0 + a1;
    let c2 = c1 + a2;
    let c3 = c2 + a3;
    let c4 = c3 + a4;
    let c5 = c4 + a5;
    let c6 = c5 + a6;
    let c7 = c6 + a7;
    assert(p.entries() == c7);
    reveal_with_fuel(all_pairs, 2);
    reveal_with_fuel(all_vars, 2);
    reveal_with_fuel(last_binary, 2);
    reveal_with_fuel(last_byte, 2);
    reveal_with_fuel(last_four, 2);
    reveal_with_fuel(last_text, 2);
    reveal_with_fuel(last_two, 2);
    lemma_last_byte_append(c0, a1, Property::PayloadFormatIndicator);
    lemma_last_byte_append(c1, a2, Property::PayloadFormatIndicator);
    lemma_last_byte_append(c2, a3, Property::PayloadFormatIndicator);
    lemma_last_byte_append(c3, a4, Property::PayloadFormatIndicator);
    lemma_last_byte_append(c4, a5, Property::PayloadFormatIndicator);
    lemma_last_byte_append(c5, a6, Property::PayloadFormatIndicator);
    lemma_last_byte_append(c6, a7, Property::PayloadFormatIndicator);
    lemma_last_byte_of_vars(p.sub_identifier@, Property::SubIdentifier, Property::PayloadFormatIndicator);
    lemma_last_byte_of_pairs(p.user_property.deep_view(), Property::PayloadFormatIndicator);
    lemma_last_four_append(c0, a1, Property::MessageExpiryInterval);
    lemma_last_four_append(c1, a2, Property::MessageExpiryInterval);
    lemma_last_four_append(c2, a3, Property::MessageExpiryInterval);
    lemma_last_four_append(c3, a4, Property::MessageExpiryInterval);
    lemma_last_four_append(c4, a5, Property::MessageExpiryInterval);
    lemma_last_four_append(c5, a6, Property::MessageExpiryInterval);
    lemma_last_four_append(c6, a7, Property::MessageExpiryInterval);
    lemma_last_four_of_vars(p.sub_identifier@, Property::SubIdentifier, Property::MessageExpiryInterval);
    lemma_last_four_of_pairs(p.user_property.deep_view(), Property::MessageExpiryInterval);
    lemma_last_text_append(c0, a1, Property::ContentType);
    lemma_last_text_append(c1, a2, Property::ContentType);
    lemma_last_text_append(c2, a3, Property::ContentType);
    lemma_last_text_append(c3, a4, Property::ContentType);
    lemma_last_text_append(c4, a5, Property::ContentType);
    lemma_last_text_append(c5, a6, Property::ContentType);
    lemma_last_text_append(c6, a7, Property::ContentType);
    lemma_last_text_of_vars(p.sub_identifier@, Property::SubIdentifier, Property::ContentType);
    lemma_last_text_of_pairs(p.user_property.deep_view(), Property::ContentType);
    lemma_last_text_append(c0, a1, Property::ResponseTopic);
    lemma_last_text_append(c1, a2, Property::ResponseTopic);
    lemma_last_text_append(c2, a3, Property::ResponseTopic);
    lemma_last_text_append(c3, a4, Property::ResponseTopic);
    lemma_last_text_append(c4, a5, Property::ResponseTopic);
    lemma_last_text_append(c5, a6, Property::ResponseTopic);
    lemma_last_text_append(c6, a7, Property::ResponseTopic);
    lemma_last_text_of_vars(p.sub_identifier@, Property::SubIdentifier, Property::ResponseTopic);
    lemma_last_text_of_pairs(p.user_property.deep_view(), Property::ResponseTopic);
    lemma_last_binary_append(c0, a1, Property::CorrelationData);
    lemma_last_binary_append(c1, a2, Property::CorrelationData);
    lemma_last_binary_append(c2, a3, Property::CorrelationData);
    lemma_last_binary_append(c3, a4, Property::CorrelationData);
    lemma_last_binary_append(c4, a5, Property::CorrelationData);
    lemma_last_binary_append(c5, a6, Property::CorrelationData);
    lemma_last_binary_append(c6, a7, Property::CorrelationData);
    lemma_last_binary_of_vars(p.sub_identifier@, Property::SubIdentifier, Property::CorrelationData);
    lemma_last_binary_of_pairs(p.user_property.deep_view(), Property::CorrelationData);
    lemma_last_two_append(c0, a1, Property::TopicAlias);
    lemma_last_two_append(c1, a2, Property::TopicAlias);
    lemma_last_two_append(c2, a3, Property::TopicAlias);
    lemma_last_two_append(c3, a4, Property::TopicAlias);
    lemma_last_two_append(c4, a5, Property::TopicAlias);
    lemma_last_two_append(c5, a6, Property::TopicAlias);
    lemma_last_two_append(c6, a7, Property::TopicAlias);
    lemma_last_two_of_vars(p.sub_identifier@, Property::SubIdentifier, Property::TopicAlias);
    lemma_last_two_of_pairs(p.user_property.deep_view(), Property::TopicAlias);
    lemma_all_vars_append(c0, a1, Property::SubIdentifier);
    lemma_all_vars_append(c1, a2, Property::SubIdentifier);
    lemma_all_vars_append(c2, a3, Property::SubIdentifier);
    lemma_all_vars_append(c3, a4, Property::SubIdentifier);
    lemma_all_vars_append(c4, a5, Property::SubIdentifier);
    lemma_all_vars_append(c5, a6, Property::SubIdentifier);
    lemma_all_vars_append(c6, a7, Property::SubIdentifier);
    lemma_all_vars_of_vars(p.sub_identifier@, Property::SubIdentifier);
    lemma_all_vars_of_pairs(p.user_property.deep_view(), Property::SubIdentifier);
    lemma_all_pairs_append(c0, a1);
    lemma_all_pairs_append(c1, a2);
    lemma_all_pairs_append(c2, a3);
    lemma_all_pairs_append(c3, a4);
    lemma_all_pairs_append(c4, a5);
    lemma_all_pairs_append(c5, a6);
    lemma_all_pairs_append(c6, a7);
    lemma_all_pairs_of_vars(p.sub_identifier@, Property::SubIdentifier);
    lemma_all_pairs_of_pairs(p.user_property.deep_view());
    assert(all_pairs(a0) =~= seq![]);
    assert(all_vars(a0, Property::SubIdentifier) =~= seq![]);
    assert(all_pairs(a1) =~= seq![]);
    assert(all_vars(a1, Property::SubIdentifier) =~= seq![]);
    assert(all_pairs(a2) =~= seq![]);
    assert(all_vars(a2, Property::SubIdentifier) =~= seq![]);
    assert(all_pairs(a3) =~= seq![]);
    assert(all_vars(a3, Property::SubIdentifier) =~= seq![]);
    assert(all_pairs(a4) =~= seq![]);
    assert(all_vars(a4, Property::SubIdentifier) =~= seq![]);
    assert(all_pairs(a6) =~= seq![]);
    assert(all_vars(a6, Property::SubIdentifier) =~= seq![]);
    assert(all_vars(a0, Property::SubIdentifier) + all_vars(a1, Property::SubIdentifier) + all_vars(a2, Property::SubIdentifier) + all_vars(a3, Property::SubIdentifier) + all_vars(a4, Property::SubIdentifier) + all_vars(a5, Property::SubIdentifier) + all_vars(a6, Property::SubIdentifier) + all_vars(a7, Property::SubIdentifier) =~= p.sub_identifier@);
    assert(all_pairs(a0) + all_pairs(a1) + all_pairs(a2) + all_pairs(a3) + all_pairs(a4) + all_pairs(a5) + all_pairs(a6) + all_pairs(a7) =~= p.user_property.deep_view());
    lemma_var_entries_shaped(p.sub_identifier@, Property::SubIdentifier);
    lemma_pair_entries_shaped(p.user_property.deep_view());
    assert forall|i: int| 0 <= i < p.entries().len() implies shaped(#[trigger] p.entries()[i])
        && PropOwner::Publish.spec_permits(p.entries()[i].0) by {
        if i >= c6.len() {
            assert(p.entries()[i] == a7[i - c6.len()]);
        } else if i >= c5.len() {
            assert(p.entries()[i] == a6[i - c5.len()]);
        } else if i >= c4.len() {
            assert(p.entries()[i] == a5[i - c4.len()]);
        } else if i >= c3.len() {
            assert(p.entries()[i] == a4[i - c3.len()]);
        } else if i >= c2.len() {
            assert(p.entries()[i] == a3[i - c2.len()]);
        } else if i >= c1.len() {
            assert(p.entries()[i] == a2[i - c1.len()]);
        } else if i >= c0.len() {
            assert(p.entries()[i] == a1[i - c0.len()]);
        } else {
            assert(p.entries()[i] == a0[i]);
        }
    }
}

/// PUBLISH: an application message.
#[derive(Debug, Clone)]
pub struct Publish {
    pub dup: bool,
    pub qos: QoS,
    pub retain: bool,
    pub topic_name: String,
    pub packet_id: u16,
    pub properties: Option<PublishProperties>,
    pub payload: Vec<u8>,
}

/// The mathematical value of a [`Publish`].
pub struct PublishView {
    pub dup: bool,
    pub qos: QoS,
    pub retain: bool,
    pub topic_name: Seq<char>,
    pub packet_id: u16,
    pub properties: Option<PublishPropertiesView>,
    pub payload: Seq<u8>,
}

impl View for Publish {
    type V = PublishView;

    open spec fn view(&self) -> PublishView {
        PublishView {
            dup: self.dup,
            qos: self.qos,
            retain: self.retain,
            topic_name: self.topic_name@,
            packet_id: self.packet_id,
            properties: publish_properties_view(self.properties),
            payload: self.payload@,
        }
    }
}

/// The part of a PUBLISH body after the topic name: the packet identifier where
/// QoS is above 0, the property block in v5, then the payload, which runs to the
/// end of the body.
pub open spec fn spec_publish_rest(p: PublishView, s: Seq<u8>, version: Version) -> Result<
    PublishView,
    ErrorView,
> {
    match (if p.qos != QoS::AtMostOnce {
        spec_u16(s)
    } else {
        Ok((0u16, 0int))
    }) {
        Err(e) => Err(e),
        Ok((id, n)) => match (if version == Version::V5 {
            spec_publish_properties(s.skip(n))
        } else {
            Ok((None, 0int))
        }) {
            Err(e) => Err(e),
            Ok((props, m)) => Ok(
                PublishView { packet_id: id, properties: props, payload: s.skip(n + m), ..p },
            ),
        },
    }
}

/// A PUBLISH packet from the flags of its first byte and its body: dup is bit 3,
/// QoS bits 2 and 1 (3 fails with `InvalidQoS`), retain bit 0; the body starts
/// with the topic name.
pub open spec fn spec_publish(s: Seq<u8>, version: Version, byte1: u8) -> Result<PublishView, ErrorView> {
    let q = (byte1 / 2 % 4) as u8;
    match QoS::spec_from_byte(q) {
        None => Err(ErrorView::InvalidQoS(q)),
        Some(qos) => match spec_string(s) {
            Err(e) => Err(e),
            Ok((topic, n)) => spec_publish_rest(
                PublishView {
                    dup: byte1 / 8 % 2 == 1,
                    qos,
                    retain: byte1 % 2 == 1,
                    topic_name: topic,
                    packet_id: 0,
                    properties: None,
                    payload: seq![],
                },
                s.skip(n),
                version,
            ),
        },
    }
}

impl Publish {
    pub fn new() -> (r: Publish)
        ensures
            !r.dup,
            r.qos == QoS::AtMostOnce,
            !r.retain,
            r.topic_name@.len() == 0,
            r.packet_id == 0,
            r.properties is None,
            r.payload@.len() == 0,
    {
        Publish {
            dup: false,
            qos: QoS::AtMostOnce,
            retain: false,
            topic_name: String::new(),
            packet_id: 0,
            properties: None,
            payload: Vec::new(),
        }
    }

    /// Decodes a PUBLISH packet from its body and the first byte of its fixed
    /// header.
    pub fn unpack(read: &[u8], version: Version, byte1: u8) -> (r: Result<Publish, Error>)
        ensures
            result_view(r) == spec_publish(read@, version, byte1),
    {
        let end = read.len();
        assert(region(read@, 0, end) =~= read@);
        let q = byte1 / 2 % 4;
        let qos = match QoS::from_byte(q) {
            Some(qos) => qos,
            None => return Err(Error::InvalidQoS(q)),
        };
        let mut publish = Publish::new();
        publish.dup = byte1 / 8 % 2 == 1;
        publish.qos = qos;
        publish.retain = byte1 % 2 == 1;
        let (topic, p) = read_string(read, 0, end)?;
        publish.topic_name = topic;
        let ghost p0 = p;
        let ghost s = read@.skip(p as int);
        assert(region(read@, p, end) =~= s);
        let mut p = p;
        if publish.qos != QoS::AtMostOnce {
            let (id, q) = get_u16(read, p, end)?;
            publish.packet_id = id;
            p = q;
        }
        assert(region(read@, p, end) =~= s.skip(p - p0));
        if version == Version::V5 {
            let (props, q) = PublishProperties::unpack(read, p, end)?;
            publish.properties = props;
            p = q;
        }
        publish.payload = vstd::slice::slice_to_vec(&read[p..end]);
        assert(publish.payload@ =~= read@.skip(p as int));
        assert(read@.skip(p as int) =~= s.skip(p - p0));
        Ok(publish)
    }
}

impl Publish {
    /// The first byte of the fixed header: type 3 in the upper nibble, then dup
    /// in bit 3, the QoS in bits 2-1 and retain in bit 0.
    pub open spec fn first_byte(&self) -> u8 {
        (48 + (if self.dup { 8int } else { 0 }) + 2 * self.qos.spec_byte() + (if self.retain {
            1int
        } else {
            0
        })) as u8
    }

    /// The property entries this packet carries.
    pub open spec fn prop_entries(&self) -> Seq<EntryView> {
        match self.properties {
            Some(p) => p.entries(),
            None => seq![],
        }
    }

    /// The body: the topic name, the packet identifier where QoS is above 0, the
    /// property block in v5, then the payload.
    pub open spec fn body(&self, version: Version) -> Seq<u8> {
        string_bytes(self.topic_name@) + (if self.qos != QoS::AtMostOnce {
            u16_bytes(self.packet_id)
        } else {
            seq![]
        }) + v5_block(self.prop_entries(), version) + self.payload@
    }

    pub open spec fn fits(&self, version: Version) -> bool {
        string_fits(self.topic_name@) && v5_block_fits(self.prop_entries(), version)
            && self.body(version).len() <= MAX_REMAINING_LENGTH
    }

    /// Appends the whole packet; fails with `PayloadTooLong` where a field does
    /// not fit.
    pub fn pack(self, out: &mut Vec<u8>, version: Version) -> (r: Result<(), Error>)
        ensures
            self.fits(version) ==> r is Ok && final(out)@ == old(out)@ + frame_bytes(
                self.first_byte(),
                self.body(version),
            ),
            !self.fits(version) ==> r is Err && r->Err_0@ == ErrorView::PayloadTooLong,
    {
        let ghost me = self;
        let first = 48 + (if self.dup { 8u8 } else { 0 }) + 2 * self.qos.byte() + (if self.retain {
            1u8
        } else {
            0
        });
        let es = match self.properties {
            Some(p) => p.to_entries(),
            None => Vec::new(),
        };
        assert(entries_view(es@) =~= me.prop_entries());
        let mut body: Vec<u8> = Vec::new();
        write_string(&mut body, self.topic_name.as_str())?;
        if self.qos != QoS::AtMostOnce {
            crate::codec::put_u16(&mut body, self.packet_id);
        }
        write_v5_block(&mut body, &es, version)?;
        crate::codec::put_slice(&mut body, self.payload.as_slice());
        assert(body@ =~= me.body(version));
        write_frame(out, first, body.as_slice())
    }
}

proof fn lemma_publish_flags(p: Publish)
    ensures
        ((p.first_byte() / 2 % 4) as u8) == p.qos.spec_byte(),
        (p.first_byte() / 8 % 2 == 1) == p.dup,
        (p.first_byte() % 2 == 1) == p.retain,
{
}

/// What follows the topic name of a PUBLISH body.
pub open spec fn rest_bytes(p: Publish, version: Version) -> Seq<u8> {
    (if p.qos != QoS::AtMostOnce {
        u16_bytes(p.packet_id)
    } else {
        seq![]
    }) + v5_block(p.prop_entries(), version) + p.payload@
}

proof fn lemma_publish_block_round_trip(p: Publish, version: Version)
    requires
        v5_block_fits(p.prop_entries(), version),
        version != Version::V5 ==> p.properties is None,
        p.properties matches Some(q) ==> q.entries().len() > 0,
    ensures
        (if version == Version::V5 {
            spec_publish_properties(v5_block(p.prop_entries(), version) + p.payload@)
        } else {
            Ok((None, 0int))
        }) == Parsed::<Option<PublishPropertiesView>>::Ok(
            (
                publish_properties_view(p.properties),
                v5_block(p.prop_entries(), version).len() as int,
            ),
        ),
{
    if version == Version::V5 {
        let es = p.prop_entries();
        if let Some(pp) = p.properties {
            lemma_publish_properties_round_trip(pp);
        }
        assert(forall|i: int| 0 <= i < es.len() ==> shaped(#[trigger] es[i])
            && PropOwner::Publish.spec_permits(es[i].0));
        lemma_block_round_trip(es, PropOwner::Publish, p.payload@);
    }
}

#[verifier::spinoff_prover]
#[verifier::rlimit(40)]
proof fn lemma_publish_rest_round_trip(p: Publish, version: Version)
    requires
        v5_block_fits(p.prop_entries(), version),
        p.qos == QoS::AtMostOnce ==> p.packet_id == 0,
        version != Version::V5 ==> p.properties is None,
        p.properties matches Some(q) ==> q.entries().len() > 0,
    ensures
        spec_publish_rest(
            PublishView {
                dup: p.dup,
                qos: p.qos,
                retain: p.retain,
                topic_name: p.topic_name@,
                packet_id: 0,
                properties: None,
                payload: seq![],
            },
            rest_bytes(p, version),
            version,
        ) == Ok::<PublishView, ErrorView>(p@),
{
    let blk = v5_block(p.prop_entries(), version);
    let tail = blk + p.payload@;
    let idb = if p.qos != QoS::AtMostOnce {
        u16_bytes(p.packet_id)
    } else {
        seq![]
    };
    let rest = rest_bytes(p, version);
    assert(rest =~= idb + tail);
    let m = idb.len() as int;
    if p.qos != QoS::AtMostOnce {
        lemma_u16_round_trip(p.packet_id, tail);
    }
    assert((if p.qos != QoS::AtMostOnce {
        spec_u16(rest)
    } else {
        Ok((0u16, 0int))
    }) == Parsed::<u16>::Ok((p.packet_id, m)));
    assert(rest.skip(m) =~= tail);
    lemma_publish_block_round_trip(p, version);
    assert(tail.skip(blk.len() as int) =~= p.payload@);
    assert(rest.skip(m + blk.len()) =~= p.payload@);
}

/// A PUBLISH decodes back from its first byte and its body. A packet identifier
/// is written only above QoS 0, and a property block only in v5, so below them
/// the identifier must be 0 and the properties absent to come back; properties
/// that are set but hold no entry decode as none, so they are left out.
pub proof fn lemma_publish_round_trip(p: Publish, version: Version)
    requires
        p.fits(version),
        p.qos == QoS::AtMostOnce ==> p.packet_id == 0,
        version != Version::V5 ==> p.properties is None,
        p.properties matches Some(q) ==> q.entries().len() > 0,
    ensures
        spec_publish(p.body(version), version, p.first_byte()) == Ok::<PublishView, ErrorView>(
            p@,
        ),
{
    lemma_publish_flags(p);
    crate::kinds::lemma_qos_byte_round_trip(p.qos);
    let rest = rest_bytes(p, version);
    let s = p.body(version);
    assert(s =~= string_bytes(p.topic_name@) + rest);
    lemma_string_round_trip(p.topic_name@, rest);
    let n = 2 + vstd::utf8::encode_utf8(p.topic_name@).len() as int;
    assert(s.skip(n) =~= rest);
    lemma_publish_rest_round_trip(p, version);
}

/// Encoding the PUBLISH that its first byte and body decode to gives them back.
pub proof fn lemma_publish_bytes_round_trip(p: Publish, r: Publish, version: Version)
    requires
        p.fits(version),
        p.qos == QoS::AtMostOnce ==> p.packet_id == 0,
        version != Version::V5 ==> p.properties is None,
        p.properties matches Some(q) ==> q.entries().len() > 0,
        spec_publish(p.body(version), version, p.first_byte()) == Ok::<PublishView, ErrorView>(r@),
    ensures
        r.first_byte() == p.first_byte() && r.body(version) == p.body(version),
{
    lemma_publish_round_trip(p, version);
    if let (Some(a), Some(b)) = (r.properties, p.properties) {
        assert(a@ == b@);
        assert(a.entries() == b.entries());
    }
}

} // verus!
