use vstd::prelude::*;
use crate::codec::{
    frame_bytes, get_u16, get_u8, lemma_string_round_trip, lemma_u16_round_trip, put_u16,
    read_string, region, spec_string, spec_u16, spec_u8, string_bytes, string_fits, u16_bytes,
    write_frame, write_string, MAX_REMAINING_LENGTH,
};
use crate::error::{result_view, Error, ErrorView, Parsed};
use crate::kinds::{Property, QoS, ReasonCode, RetainHandling, Version};
use crate::property::{
    all_pairs, all_vars, blob_view, block_bytes, block_fits, codes_bytes, entries_bytes,
    entries_fit, entries_view, last_binary, last_byte, last_four, last_text, last_two,
    lemma_all_pairs_append, lemma_all_pairs_of_pairs, lemma_all_pairs_of_vars,
    lemma_all_vars_append, lemma_all_vars_of_pairs, lemma_all_vars_of_vars,
    lemma_block_round_trip, lemma_entries_view_drop_first, lemma_last_binary_append,
    lemma_last_binary_of_pairs, lemma_last_binary_of_vars, lemma_last_byte_append,
    lemma_last_byte_of_pairs, lemma_last_byte_of_vars, lemma_last_four_append,
    lemma_last_four_of_pairs, lemma_last_four_of_vars, lemma_last_text_append,
    lemma_last_text_of_pairs, lemma_last_text_of_vars, lemma_last_two_append,
    lemma_last_two_of_pairs, lemma_last_two_of_vars, lemma_pair_entries_shaped,
    lemma_var_entries_shaped, opt_binary, opt_byte, opt_four, opt_text, opt_two, pair_entries,
    push_opt_binary, push_opt_byte, push_opt_four, push_opt_text, push_opt_two,
    push_pairs, push_vars, put_codes, read_block, shaped, spec_block, spec_codes, read_codes, lemma_codes_round_trip, v5_block,
    v5_block_fits, var_entries, write_block, write_entries, write_v5_block, Entry, EntryView,
    PropOwner, PropValue,
};

verus! {

/// The properties of a v5 SUBSCRIBE packet.
#[derive(Debug, Clone)]
pub struct SubscribeProperties {
    pub sub_identifier: Vec<u32>,
    pub user_property: Vec<(String, String)>,
}

/// The mathematical value of a [`SubscribeProperties`].
pub struct SubscribePropertiesView {
    pub sub_identifier: Seq<u32>,
    pub user_property: Seq<(Seq<char>, Seq<char>)>,
}

impl View for SubscribeProperties {
    type V = SubscribePropertiesView;

    open spec fn view(&self) -> SubscribePropertiesView {
        SubscribePropertiesView {
            sub_identifier: self.sub_identifier@,
            user_property: self.user_property.deep_view(),
        }
    }
}

pub open spec fn subscribe_properties_view(o: Option<SubscribeProperties>) -> Option<SubscribePropertiesView> {
    match o {
        Some(p) => Some(p@),
        None => None,
    }
}

/// The fields that a list of decoded entries gives: for each single-valued
/// property the last entry, for the repeatable ones every entry in order.
pub open spec fn subscribe_properties_of(es: Seq<EntryView>) -> SubscribePropertiesView {
    SubscribePropertiesView {
        sub_identifier: all_vars(es, Property::SubIdentifier),
        user_property: all_pairs(es),
    }
}

/// A property block at the front of `s`, as these fields.
pub open spec fn spec_subscribe_properties(s: Seq<u8>) -> Parsed<Option<SubscribePropertiesView>> {
    match spec_block(s, PropOwner::Subscribe) {
        Ok((Some(es), n)) => Ok((Some(subscribe_properties_of(es)), n)),
        Ok((None, n)) => Ok((None, n)),
        Err(e) => Err(e),
    }
}

impl SubscribeProperties {
    /// No property set.
    pub open spec fn spec_empty(&self) -> bool {
        self.sub_identifier@.len() == 0 && self.user_property@.len() == 0
    }

    pub fn new() -> (r: SubscribeProperties)
        ensures
            r.spec_empty(),
    {
        SubscribeProperties {
            sub_identifier: Vec::new(),
            user_property: Vec::new(),
        }
    }

    fn from_entries(es: Vec<Entry>) -> (r: SubscribeProperties)
        ensures
            r@ == subscribe_properties_of(entries_view(es@)),
    {
        let ghost all = entries_view(es@);
        let mut prop = SubscribeProperties::new();
        let mut rest = es;
        let ghost mut i: int = 0;
        assert(all.take(0) =~= Seq::<EntryView>::empty());
        assert(prop.sub_identifier@ =~= seq![]);
        assert(prop.user_property.deep_view() =~= seq![]);
        while rest.len() > 0
            invariant
                0 <= i <= all.len(),
                entries_view(rest@) == all.skip(i),
                prop@ == subscribe_properties_of(all.take(i)),
            decreases rest@.len(),
        {
            let ghost before = rest@;
            assert(entries_view(before).len() == before.len());
            assert(all.skip(i)[0] == all[i]);
            assert(entries_view(before)[0] == all[i]);
            let (p, v) = rest.remove(0);
            let ghost e = (p, v@);
            assert(e == all[i]);
            let ghost old_prop = prop;
            match (p, v) {
                (Property::SubIdentifier, PropValue::Var(x)) => {
                    prop.sub_identifier.push(x);
                },
                (Property::UserProperty, PropValue::Pair(key, value)) => {
                    prop.user_property.push((key, value));
                    assert(prop.user_property.deep_view() =~= old_prop.user_property.deep_view().push((e.1->Pair_0, e.1->Pair_1)));
                },
                _ => {},
            }
            proof {
                let t = all.take(i + 1);
                assert(t.drop_last() =~= all.take(i));
                assert(t.last() == e);
                lemma_entries_view_drop_first(before);
                assert(rest@ =~= before.drop_first());
                assert(all.skip(i + 1) =~= all.skip(i).drop_first());
                i = i + 1;
            }
        }
        assert(all.take(i) =~= all);
        prop
    }

    /// Decodes a property block starting at `pos`, read no further than `end`:
    /// `None` for an empty block, and the position just after the block.
    pub fn unpack(data: &[u8], pos: usize, end: usize) -> (r: Result<(Option<SubscribeProperties>, usize), Error>)
        requires
            pos <= end <= data@.len(),
        ensures
            match r {
                Ok((p, q)) => spec_subscribe_properties(region(data@, pos, end)) == Parsed::<
                    Option<SubscribePropertiesView>,
                >::Ok((subscribe_properties_view(p), q - pos)) && pos <= q <= end,
                Err(e) => spec_subscribe_properties(region(data@, pos, end)) == Parsed::<
                    Option<SubscribePropertiesView>,
                >::Err(e@),
            },
    {
        let (es, q) = read_block(data, pos, end, PropOwner::Subscribe)?;
        match es {
            Some(es) => Ok((Some(SubscribeProperties::from_entries(es)), q)),
            None => Ok((None, q)),
        }
    }

    /// The entries these fields stand for, in the order they are written.
    pub open spec fn entries(&self) -> Seq<EntryView> {
        var_entries(Property::SubIdentifier, self.sub_identifier@)
            + pair_entries(self.user_property.deep_view())
    }

    fn to_entries(self) -> (r: Vec<Entry>)
        ensures
            entries_view(r@) == self.entries(),
    {
        let ghost me = self;
        let mut es: Vec<Entry> = Vec::new();
        let ghost mut acc: Seq<EntryView> = seq![];
        assert(entries_view(es@) =~= acc);
        let ghost prev = es@;
        push_vars(&mut es, Property::SubIdentifier, self.sub_identifier);
        proof {
            assert(entries_view(es@) =~= entries_view(prev) + var_entries(Property::SubIdentifier, me.sub_identifier@));
            acc = acc + var_entries(Property::SubIdentifier, me.sub_identifier@);
        }
        let ghost prev = es@;
        push_pairs(&mut es, self.user_property);
        proof {
            assert(entries_view(es@) =~= entries_view(prev) + pair_entries(me.user_property.deep_view()));
            acc = acc + pair_entries(me.user_property.deep_view());
        }
        es
    }

    /// Appends the entries, without the block's length: fails with
    /// `PayloadTooLong` where a value does not fit its field.
    pub fn pack(self, out: &mut Vec<u8>) -> (r: Result<(), Error>)
        ensures
            entries_fit(self.entries()) ==> r is Ok && final(out)@ == old(out)@ + entries_bytes(
                self.entries(),
            ),
            !entries_fit(self.entries()) ==> r is Err && r->Err_0@ == ErrorView::PayloadTooLong,
    {
        let es = self.to_entries();
        write_entries(out, &es)
    }

}

/// The fields of SubscribeProperties decode back from the entries they are written as.
pub proof fn lemma_subscribe_properties_round_trip(p: SubscribeProperties)
    ensures
        subscribe_properties_of(p.entries()) == p@,
        forall|i: int| 0 <= i < p.entries().len() ==> shaped(#[trigger] p.entries()[i])
            && PropOwner::Subscribe.spec_permits(p.entries()[i].0),
{
    let a0 = var_entries(Property::SubIdentifier, p.sub_identifier@);
    let a1 = pair_entries(p.user_property.deep_view());
    let c0 = a0;
    let c1 = c0 + a1;
    assert(p.entries() == c1);
    reveal_with_fuel(all_pairs, 2);
    reveal_with_fuel(all_vars, 2);
    lemma_all_vars_append(c0, a1, Property::SubIdentifier);
    lemma_all_vars_of_vars(p.sub_identifier@, Property::SubIdentifier);
    lemma_all_vars_of_pairs(p.user_property.deep_view(), Property::SubIdentifier);
    lemma_all_pairs_append(c0, a1);
    lemma_all_pairs_of_vars(p.sub_identifier@, Property::SubIdentifier);
    lemma_all_pairs_of_pairs(p.user_property.deep_view());
    assert(all_vars(a0, Property::SubIdentifier) + all_vars(a1, Property::SubIdentifier) =~= p.sub_identifier@);
    assert(all_pairs(a0) + all_pairs(a1) =~= p.user_property.deep_view());
    lemma_var_entries_shaped(p.sub_identifier@, Property::SubIdentifier);
    lemma_pair_entries_shaped(p.user_property.deep_view());
    assert forall|i: int| 0 <= i < p.entries().len() implies shaped(#[trigger] p.entries()[i])
        && PropOwner::Subscribe.spec_permits(p.entries()[i].0) by {
        if i >= c0.len() {
            assert(p.entries()[i] == a1[i - c0.len()]);
        } else {
            assert(p.entries()[i] == a0[i]);
        }
    }
}

/// The properties of a v5 SUBACK packet.
#[derive(Debug, Clone)]
pub struct SubAckProperties {
    pub reason_string: Option<String>,
    pub user_property: Vec<(String, String)>,
}

/// The mathematical value of a [`SubAckProperties`].
pub struct SubAckPropertiesView {
    pub reason_string: Option<Seq<char>>,
    pub user_property: Seq<(Seq<char>, Seq<char>)>,
}

impl View for SubAckProperties {
    type V = SubAckPropertiesView;

    open spec fn view(&self) -> SubAckPropertiesView {
        SubAckPropertiesView {
            reason_string: self.reason_string.deep_view(),
            user_property: self.user_property.deep_view(),
        }
    }
}

pub open spec fn sub_ack_properties_view(o: Option<SubAckProperties>) -> Option<SubAckPropertiesView> {
    match o {
        Some(p) => Some(p@),
        None => None,
    }
}

/// The fields that a list of decoded entries gives: for each single-valued
/// property the last entry, for the repeatable ones every entry in order.
pub open spec fn sub_ack_properties_of(es: Seq<EntryView>) -> SubAckPropertiesView {
    SubAckPropertiesView {
        reason_string: last_text(es, Property::ReasonString),
        user_property: all_pairs(es),
    }
}

/// A property block at the front of `s`, as these fields.
pub open spec fn spec_sub_ack_properties(s: Seq<u8>) -> Parsed<Option<SubAckPropertiesView>> {
    match spec_block(s, PropOwner::Ack) {
        Ok((Some(es), n)) => Ok((Some(sub_ack_properties_of(es)), n)),
        Ok((None, n)) => Ok((None, n)),
        Err(e) => Err(e),
    }
}

impl SubAckProperties {
    /// No property set.
    pub open spec fn spec_empty(&self) -> bool {
        self.reason_string is None && self.user_property@.len() == 0
    }

    pub fn new() -> (r: SubAckProperties)
        ensures
            r.spec_empty(),
    {
        SubAckProperties {
            reason_string: None,
            user_property: Vec::new(),
        }
    }

    fn from_entries(es: Vec<Entry>) -> (r: SubAckProperties)
        ensures
            r@ == sub_ack_properties_of(entries_view(es@)),
    {
        let ghost all = entries_view(es@);
        let mut prop = SubAckProperties::new();
        let mut rest = es;
        let ghost mut i: int = 0;
        assert(all.take(0) =~= Seq::<EntryView>::empty());
        assert(prop.user_property.deep_view() =~= seq![]);
        while rest.len() > 0
            invariant
                0 <= i <= all.len(),
                entries_view(rest@) == all.skip(i),
                prop@ == sub_ack_properties_of(all.take(i)),
            decreases rest@.len(),
        {
            let ghost before = rest@;
            assert(entries_view(before).len() == before.len());
            assert(all.skip(i)[0] == all[i]);
            assert(entries_view(before)[0] == all[i]);
            let (p, v) = rest.remove(0);
            let ghost e = (p, v@);
            assert(e == all[i]);
            let ghost old_prop = prop;
            match (p, v) {
                (Property::ReasonString, PropValue::Text(x)) => {
                    prop.reason_string = Some(x);
                },
                (Property::UserProperty, PropValue::Pair(key, value)) => {
                    prop.user_property.push((key, value));
                    assert(prop.user_property.deep_view() =~= old_prop.user_property.deep_view().push((e.1->Pair_0, e.1->Pair_1)));
                },
                _ => {},
            }
            proof {
                let t = all.take(i + 1);
                assert(t.drop_last() =~= all.take(i));
                assert(t.last() == e);
                lemma_entries_view_drop_first(before);
                assert(rest@ =~= before.drop_first());
                assert(all.skip(i + 1) =~= all.skip(i).drop_first());
                i = i + 1;
            }
        }
        assert(all.take(i) =~= all);
        prop
    }

    /// Decodes a property block starting at `pos`, read no further than `end`:
    /// `None` for an empty block, and the position just after the block.
    pub fn unpack(data: &[u8], pos: usize, end: usize) -> (r: Result<(Option<SubAckProperties>, usize), Error>)
        requires
            pos <= end <= data@.len(),
        ensures
            match r {
                Ok((p, q)) => spec_sub_ack_properties(region(data@, pos, end)) == Parsed::<
                    Option<SubAckPropertiesView>,
                >::Ok((sub_ack_properties_view(p), q - pos)) && pos <= q <= end,
                Err(e) => spec_sub_ack_properties(region(data@, pos, end)) == Parsed::<
                    Option<SubAckPropertiesView>,
                >::Err(e@),
            },
    {
        let (es, q) = read_block(data, pos, end, PropOwner::Ack)?;
        match es {
            Some(es) => Ok((Some(SubAckProperties::from_entries(es)), q)),
            None => Ok((None, q)),
        }
    }

    /// The entries these fields stand for, in the order they are written.
    pub open spec fn entries(&self) -> Seq<EntryView> {
        opt_text(Property::ReasonString, self.reason_string.deep_view())
            + pair_entries(self.user_property.deep_view())
    }

    fn to_entries(self) -> (r: Vec<Entry>)
        ensures
            entries_view(r@) == self.entries(),
    {
        let ghost me = self;
        let mut es: Vec<Entry> = Vec::new();
        let ghost mut acc: Seq<EntryView> = seq![];
        assert(entries_view(es@) =~= acc);
        let ghost prev = es@;
        push_opt_text(&mut es, Property::ReasonString, self.reason_string);
        proof {
            assert(entries_view(es@) =~= entries_view(prev) + opt_text(Property::ReasonString, me.reason_string.deep_view()));
            acc = acc + opt_text(Property::ReasonString, me.reason_string.deep_view());
        }
        let ghost prev = es@;
        push_pairs(&mut es, self.user_property);
        proof {
            assert(entries_view(es@) =~= entries_view(prev) + pair_entries(me.user_property.deep_view()));
            acc = acc + pair_entries(me.user_property.deep_view());
        }
        es
    }

    /// Appends the entries, without the block's length: fails with
    /// `PayloadTooLong` where a value does not fit its field.
    pub fn pack(self, out: &mut Vec<u8>) -> (r: Result<(), Error>)
        ensures
            entries_fit(self.entries()) ==> r is Ok && final(out)@ == old(out)@ + entries_bytes(
                self.entries(),
            ),
            !entries_fit(self.entries()) ==> r is Err && r->Err_0@ == ErrorView::PayloadTooLong,
    {
        let es = self.to_entries();
        write_entries(out, &es)
    }

}

/// The fields of SubAckProperties decode back from the entries they are written as.
pub proof fn lemma_sub_ack_properties_round_trip(p: SubAckProperties)
    ensures
        sub_ack_properties_of(p.entries()) == p@,
        forall|i: int| 0 <= i < p.entries().len() ==> shaped(#[trigger] p.entries()[i])
            && PropOwner::Ack.spec_permits(p.entries()[i].0),
{
    let a0 = opt_text(Property::ReasonString, p.reason_string.deep_view());
    let a1 = pair_entries(p.user_property.deep_view());
    let c0 = a0;
    let c1 = c0 + a1;
    assert(p.entries() == c1);
    reveal_with_fuel(all_pairs, 2);
    reveal_with_fuel(all_vars, 2);
    reveal_with_fuel(last_text, 2);
    lemma_last_text_append(c0, a1, Property::ReasonString);
    lemma_last_text_of_pairs(p.user_property.deep_view(), Property::ReasonString);
    lemma_all_pairs_append(c0, a1);
    lemma_all_pairs_of_pairs(p.user_property.deep_view());
    assert(all_pairs(a0) =~= seq![]);
    assert(all_vars(a0, Property::SubIdentifier) =~= seq![]);
    assert(all_pairs(a0) + all_pairs(a1) =~= p.user_property.deep_view());
    lemma_pair_entries_shaped(p.user_property.deep_view());
    assert forall|i: int| 0 <= i < p.entries().len() implies shaped(#[trigger] p.entries()[i])
        && PropOwner::Ack.spec_permits(p.entries()[i].0) by {
        if i >= c0.len() {
            assert(p.entries()[i] == a1[i - c0.len()]);
        } else {
            assert(p.entries()[i] == a0[i]);
        }
    }
}

/// The properties of a v5 UNSUBSCRIBE packet.
#[derive(Debug, Clone)]
pub struct UnsubscribeProperties {
    pub sub_identifier: Vec<u32>,
    pub user_property: Vec<(String, String)>,
}

/// The mathematical value of a [`UnsubscribeProperties`].
pub struct UnsubscribePropertiesView {
    pub sub_identifier: Seq<u32>,
    pub user_property: Seq<(Seq<char>, Seq<char>)>,
}

impl View for UnsubscribeProperties {
    type V = UnsubscribePropertiesView;

    open spec fn view(&self) -> UnsubscribePropertiesView {
        UnsubscribePropertiesView {
            sub_identifier: self.sub_identifier@,
            user_property: self.user_property.deep_view(),
        }
    }
}

pub open spec fn unsubscribe_properties_view(o: Option<UnsubscribeProperties>) -> Option<UnsubscribePropertiesView> {
    match o {
        Some(p) => Some(p@),
        None => None,
    }
}

/// The fields that a list of decoded entries gives: for each single-valued
/// property the last entry, for the repeatable ones every entry in order.
pub open spec fn unsubscribe_properties_of(es: Seq<EntryView>) -> UnsubscribePropertiesView {
    UnsubscribePropertiesView {
        sub_identifier: all_vars(es, Property::SubIdentifier),
        user_property: all_pairs(es),
    }
}

/// A property block at the front of `s`, as these fields.
pub open spec fn spec_unsubscribe_properties(s: Seq<u8>) -> Parsed<Option<UnsubscribePropertiesView>> {
    match spec_block(s, PropOwner::Unsubscribe) {
        Ok((Some(es), n)) => Ok((Some(unsubscribe_properties_of(es)), n)),
        Ok((None, n)) => Ok((None, n)),
        Err(e) => Err(e),
    }
}

impl UnsubscribeProperties {
    /// No property set.
    pub open spec fn spec_empty(&self) -> bool {
        self.sub_identifier@.len() == 0 && self.user_property@.len() == 0
    }

    pub fn new() -> (r: UnsubscribeProperties)
        ensures
            r.spec_empty(),
    {
        UnsubscribeProperties {
            sub_identifier: Vec::new(),
            user_property: Vec::new(),
        }
    }

    fn from_entries(es: Vec<Entry>) -> (r: UnsubscribeProperties)
        ensures
            r@ == unsubscribe_properties_of(entries_view(es@)),
    {
        let ghost all = entries_view(es@);
        let mut prop = UnsubscribeProperties::new();
        let mut rest = es;
        let ghost mut i: int = 0;
        assert(all.take(0) =~= Seq::<EntryView>::empty());
        assert(prop.sub_identifier@ =~= seq![]);
        assert(prop.user_property.deep_view() =~= seq![]);
        while rest.len() > 0
            invariant
                0 <= i <= all.len(),
                entries_view(rest@) == all.skip(i),
                prop@ == unsubscribe_properties_of(all.take(i)),
            decreases rest@.len(),
        {
            let ghost before = rest@;
            assert(entries_view(before).len() == before.len());
            assert(all.skip(i)[0] == all[i]);
            assert(entries_view(before)[0] == all[i]);
            let (p, v) = rest.remove(0);
            let ghost e = (p, v@);
            assert(e == all[i]);
            let ghost old_prop = prop;
            match (p, v) {
                (Property::SubIdentifier, PropValue::Var(x)) => {
                    prop.sub_identifier.push(x);
                },
                (Property::UserProperty, PropValue::Pair(key, value)) => {
                    prop.user_property.push((key, value));
                    assert(prop.user_property.deep_view() =~= old_prop.user_property.deep_view().push((e.1->Pair_0, e.1->Pair_1)));
                },
                _ => {},
            }
            proof {
                let t = all.take(i + 1);
                assert(t.drop_last() =~= all.take(i));
                assert(t.last() == e);
                lemma_entries_view_drop_first(before);
                assert(rest@ =~= before.drop_first());
                assert(all.skip(i + 1) =~= all.skip(i).drop_first());
                i = i + 1;
            }
        }
        assert(all.take(i) =~= all);
        prop
    }

    /// Decodes a property block starting at `pos`, read no further than `end`:
    /// `None` for an empty block, and the position just after the block.
    pub fn unpack(data: &[u8], pos: usize, end: usize) -> (r: Result<(Option<UnsubscribeProperties>, usize), Error>)
        requires
            pos <= end <= data@.len(),
        ensures
            match r {
                Ok((p, q)) => spec_unsubscribe_properties(region(data@, pos, end)) == Parsed::<
                    Option<UnsubscribePropertiesView>,
                >::Ok((unsubscribe_properties_view(p), q - pos)) && pos <= q <= end,
                Err(e) => spec_unsubscribe_properties(region(data@, pos, end)) == Parsed::<
                    Option<UnsubscribePropertiesView>,
                >::Err(e@),
            },
    {
        let (es, q) = read_block(data, pos, end, PropOwner::Unsubscribe)?;
        match es {
            Some(es) => Ok((Some(UnsubscribeProperties::from_entries(es)), q)),
            None => Ok((None, q)),
        }
    }

    /// The entries these fields stand for, in the order they are written.
    pub open spec fn entries(&self) -> Seq<EntryView> {
        var_entries(Property::SubIdentifier, self.sub_identifier@)
            + pair_entries(self.user_property.deep_view())
    }

    fn to_entries(self) -> (r: Vec<Entry>)
        ensures
            entries_view(r@) == self.entries(),
    {
        let ghost me = self;
        let mut es: Vec<Entry> = Vec::new();
        let ghost mut acc: Seq<EntryView> = seq![];
        assert(entries_view(es@) =~= acc);
        let ghost prev = es@;
        push_vars(&mut es, Property::SubIdentifier, self.sub_identifier);
        proof {
            assert(entries_view(es@) =~= entries_view(prev) + var_entries(Property::SubIdentifier, me.sub_identifier@));
            acc = acc + var_entries(Property::SubIdentifier, me.sub_identifier@);
        }
        let ghost prev = es@;
        push_pairs(&mut es, self.user_property);
        proof {
            assert(entries_view(es@) =~= entries_view(prev) + pair_entries(me.user_property.deep_view()));
            acc = acc + pair_entries(me.user_property.deep_view());
        }
        es
    }

    /// Appends the entries, without the block's length: fails with
    /// `PayloadTooLong` where a value does not fit its field.
    pub fn pack(self, out: &mut Vec<u8>) -> (r: Result<(), Error>)
        ensures
            entries_fit(self.entries()) ==> r is Ok && final(out)@ == old(out)@ + entries_bytes(
                self.entries(),
            ),
            !entries_fit(self.entries()) ==> r is Err && r->Err_0@ == ErrorView::PayloadTooLong,
    {
        let es = self.to_entries();
        write_entries(out, &es)
    }

}

/// The fields of UnsubscribeProperties decode back from the entries they are written as.
pub proof fn lemma_unsubscribe_properties_round_trip(p: UnsubscribeProperties)
    ensures
        unsubscribe_properties_of(p.entries()) == p@,
        forall|i: int| 0 <= i < p.entries().len() ==> shaped(#[trigger] p.entries()[i])
            && PropOwner::Unsubscribe.spec_permits(p.entries()[i].0),
{
    let a0 = var_entries(Property::SubIdentifier, p.sub_identifier@);
    let a1 = pair_entries(p.user_property.deep_view());
    let c0 = a0;
    let c1 = c0 + a1;
    assert(p.entries() == c1);
    reveal_with_fuel(all_pairs, 2);
    reveal_with_fuel(all_vars, 2);
    lemma_all_vars_append(c0, a1, Property::SubIdentifier);
    lemma_all_vars_of_vars(p.sub_identifier@, Property::SubIdentifier);
    lemma_all_vars_of_pairs(p.user_property.deep_view(), Property::SubIdentifier);
    lemma_all_pairs_append(c0, a1);
    lemma_all_pairs_of_vars(p.sub_identifier@, Property::SubIdentifier);
    lemma_all_pairs_of_pairs(p.user_property.deep_view());
    assert(all_vars(a0, Property::SubIdentifier) + all_vars(a1, Property::SubIdentifier) =~= p.sub_identifier@);
    assert(all_pairs(a0) + all_pairs(a1) =~= p.user_property.deep_view());
    lemma_var_entries_shaped(p.sub_identifier@, Property::SubIdentifier);
    lemma_pair_entries_shaped(p.user_property.deep_view());
    assert forall|i: int| 0 <= i < p.entries().len() implies shaped(#[trigger] p.entries()[i])
        && PropOwner::Unsubscribe.spec_permits(p.entries()[i].0) by {
        if i >= c0.len() {
            assert(p.entries()[i] == a1[i - c0.len()]);
        } else {
            assert(p.entries()[i] == a0[i]);
        }
    }
}

/// The properties of a v5 UNSUBACK packet.
#[derive(Debug, Clone)]
pub struct UnsubAckProperties {
    pub reason_string: Option<String>,
    pub user_property: Vec<(String, String)>,
}

/// The mathematical value of a [`UnsubAckProperties`].
pub struct UnsubAckPropertiesView {
    pub reason_string: Option<Seq<char>>,
    pub user_property: Seq<(Seq<char>, Seq<char>)>,
}

impl View for UnsubAckProperties {
    type V = UnsubAckPropertiesView;

    open spec fn view(&self) -> UnsubAckPropertiesView {
        UnsubAckPropertiesView {
            reason_string: self.reason_string.deep_view(),
            user_property: self.user_property.deep_view(),
        }
    }
}

pub open spec fn unsub_ack_properties_view(o: Option<UnsubAckProperties>) -> Option<UnsubAckPropertiesView> {
    match o {
        Some(p) => Some(p@),
        None => None,
    }
}

/// The fields that a list of decoded entries gives: for each single-valued
/// property the last entry, for the repeatable ones every entry in order.
pub open spec fn unsub_ack_properties_of(es: Seq<EntryView>) -> UnsubAckPropertiesView {
    UnsubAckPropertiesView {
        reason_string: last_text(es, Property::ReasonString),
        user_property: all_pairs(es),
    }
}

/// A property block at the front of `s`, as these fields.
pub open spec fn spec_unsub_ack_properties(s: Seq<u8>) -> Parsed<Option<UnsubAckPropertiesView>> {
    match spec_block(s, PropOwner::Ack) {
        Ok((Some(es), n)) => Ok((Some(unsub_ack_properties_of(es)), n)),
        Ok((None, n)) => Ok((None, n)),
        Err(e) => Err(e),
    }
}

impl UnsubAckProperties {
    /// No property set.
    pub open spec fn spec_empty(&self) -> bool {
        self.reason_string is None && self.user_property@.len() == 0
    }

    pub fn new() -> (r: UnsubAckProperties)
        ensures
            r.spec_empty(),
    {
        UnsubAckProperties {
            reason_string: None,
            user_property: Vec::new(),
        }
    }

    fn from_entries(es: Vec<Entry>) -> (r: UnsubAckProperties)
        ensures
            r@ == unsub_ack_properties_of(entries_view(es@)),
    {
        let ghost all = entries_view(es@);
        let mut prop = UnsubAckProperties::new();
        let mut rest = es;
        let ghost mut i: int = 0;
        assert(all.take(0) =~= Seq::<EntryView>::empty());
        assert(prop.user_property.deep_view() =~= seq![]);
        while rest.len() > 0
            invariant
                0 <= i <= all.len(),
                entries_view(rest@) == all.skip(i),
                prop@ == unsub_ack_properties_of(all.take(i)),
            decreases rest@.len(),
        {
            let ghost before = rest@;
            assert(entries_view(before).len() == before.len());
            assert(all.skip(i)[0] == all[i]);
            assert(entries_view(before)[0] == all[i]);
            let (p, v) = rest.remove(0);
            let ghost e = (p, v@);
            assert(e == all[i]);
            let ghost old_prop = prop;
            match (p, v) {
                (Property::ReasonString, PropValue::Text(x)) => {
                    prop.reason_string = Some(x);
                },
                (Property::UserProperty, PropValue::Pair(key, value)) => {
                    prop.user_property.push((key, value));
                    assert(prop.user_property.deep_view() =~= old_prop.user_property.deep_view().push((e.1->Pair_0, e.1->Pair_1)));
                },
                _ => {},
            }
            proof {
                let t = all.take(i + 1);
                assert(t.drop_last() =~= all.take(i));
                assert(t.last() == e);
                lemma_entries_view_drop_first(before);
                assert(rest@ =~= before.drop_first());
                assert(all.skip(i + 1) =~= all.skip(i).drop_first());
                i = i + 1;
            }
        }
        assert(all.take(i) =~= all);
        prop
    }

    /// Decodes a property block starting at `pos`, read no further than `end`:
    /// `None` for an empty block, and the position just after the block.
    pub fn unpack(data: &[u8], pos: usize, end: usize) -> (r: Result<(Option<UnsubAckProperties>, usize), Error>)
        requires
            pos <= end <= data@.len(),
        ensures
            match r {
                Ok((p, q)) => spec_unsub_ack_properties(region(data@, pos, end)) == Parsed::<
                    Option<UnsubAckPropertiesView>,
                >::Ok((unsub_ack_properties_view(p), q - pos)) && pos <= q <= end,
                Err(e) => spec_unsub_ack_properties(region(data@, pos, end)) == Parsed::<
                    Option<UnsubAckPropertiesView>,
                >::Err(e@),
            },
    {
        let (es, q) = read_block(data, pos, end, PropOwner::Ack)?;
        match es {
            Some(es) => Ok((Some(UnsubAckProperties::from_entries(es)), q)),
            None => Ok((None, q)),
        }
    }

    /// The entries these fields stand for, in the order they are written.
    pub open spec fn entries(&self) -> Seq<EntryView> {
        opt_text(Property::ReasonString, self.reason_string.deep_view())
            + pair_entries(self.user_property.deep_view())
    }

    fn to_entries(self) -> (r: Vec<Entry>)
        ensures
            entries_view(r@) == self.entries(),
    {
        let ghost me = self;
        let mut es: Vec<Entry> = Vec::new();
        let ghost mut acc: Seq<EntryView> = seq![];
        assert(entries_view(es@) =~= acc);
        let ghost prev = es@;
        push_opt_text(&mut es, Property::ReasonString, self.reason_string);
        proof {
            assert(entries_view(es@) =~= entries_view(prev) + opt_text(Property::ReasonString, me.reason_string.deep_view()));
            acc = acc + opt_text(Property::ReasonString, me.reason_string.deep_view());
        }
        let ghost prev = es@;
        push_pairs(&mut es, self.user_property);
        proof {
            assert(entries_view(es@) =~= entries_view(prev) + pair_entries(me.user_property.deep_view()));
            acc = acc + pair_entries(me.user_property.deep_view());
        }
        es
    }

    /// Appends the entries, without the block's length: fails with
    /// `PayloadTooLong` where a value does not fit its field.
    pub fn pack(self, out: &mut Vec<u8>) -> (r: Result<(), Error>)
        ensures
            entries_fit(self.entries()) ==> r is Ok && final(out)@ == old(out)@ + entries_bytes(
                self.entries(),
            ),
            !entries_fit(self.entries()) ==> r is Err && r->Err_0@ == ErrorView::PayloadTooLong,
    {
        let es = self.to_entries();
        write_entries(out, &es)
    }

}

/// The fields of UnsubAckProperties decode back from the entries they are written as.
pub proof fn lemma_unsub_ack_properties_round_trip(p: UnsubAckProperties)
    ensures
        unsub_ack_properties_of(p.entries()) == p@,
        forall|i: int| 0 <= i < p.entries().len() ==> shaped(#[trigger] p.entries()[i])
            && PropOwner::Ack.spec_permits(p.entries()[i].0),
{
    let a0 = opt_text(Property::ReasonString, p.reason_string.deep_view());
    let a1 = pair_entries(p.user_property.deep_view());
    let c0 = a0;
    let c1 = c0 + a1;
    assert(p.entries() == c1);
    reveal_with_fuel(all_pairs, 2);
    reveal_with_fuel(all_vars, 2);
    reveal_with_fuel(last_text, 2);
    lemma_last_text_append(c0, a1, Property::ReasonString);
    lemma_last_text_of_pairs(p.user_property.deep_view(), Property::ReasonString);
    lemma_all_pairs_append(c0, a1);
    lemma_all_pairs_of_pairs(p.user_property.deep_view());
    assert(all_pairs(a0) =~= seq![]);
    assert(all_vars(a0, Property::SubIdentifier) =~= seq![]);
    assert(all_pairs(a0) + all_pairs(a1) =~= p.user_property.deep_view());
    lemma_pair_entries_shaped(p.user_property.deep_view());
    assert forall|i: int| 0 <= i < p.entries().len() implies shaped(#[trigger] p.entries()[i])
        && PropOwner::Ack.spec_permits(p.entries()[i].0) by {
        if i >= c0.len() {
            assert(p.entries()[i] == a1[i - c0.len()]);
        } else {
            assert(p.entries()[i] == a0[i]);
        }
    }
}

/// SUBACK: the answer to a SUBSCRIBE, one reason code per subscription.
#[derive(Debug, Clone)]
pub struct SubAck {
    pub packet_id: u16,
    pub properties: Option<SubAckProperties>,
    pub payload: Vec<ReasonCode>,
}

impl SubAck {
    pub fn new() -> (r: SubAck)
        ensures
            r.packet_id == 0,
            r.properties is None,
            r.payload@.len() == 0,
    {
        SubAck { packet_id: 0, properties: None, payload: Vec::new() }
    }

    /// The property entries this packet carries.
    pub open spec fn prop_entries(&self) -> Seq<EntryView> {
        match self.properties {
            Some(p) => p.entries(),
            None => seq![],
        }
    }

    /// The body: the packet identifier, in v5 the property block, then the reason codes.
    pub open spec fn body(&self, version: Version) -> Seq<u8> {
        u16_bytes(self.packet_id) + v5_block(self.prop_entries(), version) + codes_bytes(self.payload@)
    }

    pub open spec fn fits(&self, version: Version) -> bool {
        v5_block_fits(self.prop_entries(), version) && self.body(version).len()
            <= MAX_REMAINING_LENGTH
    }

    /// Appends the whole packet; fails with `PayloadTooLong` where a field does
    /// not fit.
    pub fn pack(self, out: &mut Vec<u8>, version: Version) -> (r: Result<(), Error>)
        ensures
            self.fits(version) ==> r is Ok && final(out)@ == old(out)@ + frame_bytes(
                0x90,
                self.body(version),
            ),
            !self.fits(version) ==> r is Err && r->Err_0@ == ErrorView::PayloadTooLong,
    {
        let ghost me = self;
        let es = match self.properties {
            Some(p) => p.to_entries(),
            None => Vec::new(),
        };
        assert(entries_view(es@) =~= me.prop_entries());
        let mut body: Vec<u8> = Vec::new();
        crate::codec::put_u16(&mut body, self.packet_id);
        write_v5_block(&mut body, &es, version)?;
        put_codes(&mut body, &self.payload);
        assert(body@ =~= me.body(version));
        write_frame(out, 0x90, body.as_slice())
    }
}

/// UNSUBACK: the answer to an UNSUBSCRIBE; in v5 one reason code per topic.
#[derive(Debug, Clone)]
pub struct UnsubAck {
    pub packet_id: u16,
    pub properties: Option<UnsubAckProperties>,
    pub payload: Vec<ReasonCode>,
}

impl UnsubAck {
    pub fn new() -> (r: UnsubAck)
        ensures
            r.packet_id == 0,
            r.properties is None,
            r.payload@.len() == 0,
    {
        UnsubAck { packet_id: 0, properties: None, payload: Vec::new() }
    }

    /// The property entries this packet carries.
    pub open spec fn prop_entries(&self) -> Seq<EntryView> {
        match self.properties {
            Some(p) => p.entries(),
            None => seq![],
        }
    }

    /// The body: the packet identifier, then in v5 the property block and the reason codes.
    pub open spec fn body(&self, version: Version) -> Seq<u8> {
        u16_bytes(self.packet_id) + if version == Version::V5 {
            block_bytes(self.prop_entries()) + codes_bytes(self.payload@)
        } else {
            seq![]
        }
    }

    pub open spec fn fits(&self, version: Version) -> bool {
        v5_block_fits(self.prop_entries(), version) && self.body(version).len()
            <= MAX_REMAINING_LENGTH
    }

    /// Appends the whole packet; fails with `PayloadTooLong` where a field does
    /// not fit.
    pub fn pack(self, out: &mut Vec<u8>, version: Version) -> (r: Result<(), Error>)
        ensures
            self.fits(version) ==> r is Ok && final(out)@ == old(out)@ + frame_bytes(
                0xB0,
                self.body(version),
            ),
            !self.fits(version) ==> r is Err && r->Err_0@ == ErrorView::PayloadTooLong,
    {
        let ghost me = self;
        let es = match self.properties {
            Some(p) => p.to_entries(),
            None => Vec::new(),
        };
        assert(entries_view(es@) =~= me.prop_entries());
        let mut body: Vec<u8> = Vec::new();
        crate::codec::put_u16(&mut body, self.packet_id);
        write_v5_block(&mut body, &es, version)?;
        if version == Version::V5 {
            put_codes(&mut body, &self.payload);
        }
        assert(body@ =~= me.body(version));
        write_frame(out, 0xB0, body.as_slice())
    }
}

/// One topic filter of a SUBSCRIBE, with its options.
#[derive(Debug, Clone)]
pub struct Subscription {
    pub topic: String,
    pub retain_handling: RetainHandling,
    pub retain_as_published: bool,
    pub no_local: bool,
    pub qos: QoS,
}

/// The mathematical value of a [`Subscription`].
pub struct SubscriptionView {
    pub topic: Seq<char>,
    pub retain_handling: RetainHandling,
    pub retain_as_published: bool,
    pub no_local: bool,
    pub qos: QoS,
}

impl View for Subscription {
    type V = SubscriptionView;

    open spec fn view(&self) -> SubscriptionView {
        SubscriptionView {
            topic: self.topic@,
            retain_handling: self.retain_handling,
            retain_as_published: self.retain_as_published,
            no_local: self.no_local,
            qos: self.qos,
        }
    }
}

pub open spec fn subscriptions_view(v: Seq<Subscription>) -> Seq<SubscriptionView> {
    v.map_values(|x: Subscription| x@)
}

/// The subscriptions that fill `s`: each a topic filter and an options byte,
/// whose bits 5-4 are the retain handling (3 fails), bit 3 retain-as-published,
/// bit 2 no-local and bits 1-0 the QoS (3 fails).
pub open spec fn spec_subscriptions(s: Seq<u8>) -> Result<Seq<SubscriptionView>, ErrorView>
    decreases s.len(),
    via subscriptions_decreases
{
    if s.len() == 0 {
        Ok(seq![])
    } else {
        match spec_string(s) {
            Err(e) => Err(e),
            Ok((topic, n)) => match spec_u8(s.skip(n)) {
                Err(e) => Err(e),
                Ok((o, _)) => {
                    let rh = (o / 16 % 4) as u8;
                    let q = (o % 4) as u8;
                    match RetainHandling::spec_from_byte(rh) {
                        None => Err(ErrorView::InvalidRetainHandling(rh)),
                        Some(h) => match QoS::spec_from_byte(q) {
                            None => Err(ErrorView::InvalidQoS(q)),
                            Some(qos) => match spec_subscriptions(s.skip(n + 1)) {
                                Err(e) => Err(e),
                                Ok(rest) => Ok(
                                    seq![
                                        SubscriptionView {
                                            topic,
                                            retain_handling: h,
                                            retain_as_published: o / 8 % 2 == 1,
                                            no_local: o / 4 % 2 == 1,
                                            qos,
                                        },
                                    ] + rest,
                                ),
                            },
                        },
                    }
                },
            },
        }
    }
}

#[via_fn]
proof fn subscriptions_decreases(s: Seq<u8>) {
    if s.len() != 0 {
        if let Ok((_, n)) = spec_string(s) {
            assert(n >= 2);
        }
    }
}

fn read_subscriptions(data: &[u8], pos: usize, end: usize, out: &mut Vec<Subscription>) -> (r:
    Result<(), Error>)
    requires
        pos <= end <= data@.len(),
    ensures
        match spec_subscriptions(region(data@, pos, end)) {
            Ok(ss) => r is Ok && subscriptions_view(final(out)@) == subscriptions_view(old(out)@)
                + ss,
            Err(e) => r is Err && r->Err_0@ == e,
        },
    decreases end - pos,
{
    let ghost s = region(data@, pos, end);
    if pos == end {
        assert(subscriptions_view(old(out)@) + seq![] =~= subscriptions_view(old(out)@));
        return Ok(());
    }
    let (topic, p) = read_string(data, pos, end)?;
    assert(s.skip(p - pos) =~= region(data@, p, end));
    let (o, q) = get_u8(data, p, end)?;
    let rh = o / 16 % 4;
    let qb = o % 4;
    let retain_handling = match RetainHandling::from_byte(rh) {
        Some(h) => h,
        None => return Err(Error::InvalidRetainHandling(rh)),
    };
    let qos = match QoS::from_byte(qb) {
        Some(qos) => qos,
        None => return Err(Error::InvalidQoS(qb)),
    };
    let sub = Subscription {
        topic,
        retain_handling,
        retain_as_published: o / 8 % 2 == 1,
        no_local: o / 4 % 2 == 1,
        qos,
    };
    let ghost e = sub@;
    out.push(sub);
    assert(subscriptions_view(out@) =~= subscriptions_view(old(out)@).push(e));
    assert(s.skip(q - pos) =~= region(data@, q, end));
    let r = read_subscriptions(data, q, end, out);
    proof {
        if let Ok(rest) = spec_subscriptions(region(data@, q, end)) {
            assert(subscriptions_view(final(out)@) =~= subscriptions_view(old(out)@) + (seq![e]
                + rest));
        }
    }
    r
}

/// SUBSCRIBE: a request for one or more subscriptions.
#[derive(Debug, Clone)]
pub struct Subscribe {
    pub packet_id: u16,
    pub properties: Option<SubscribeProperties>,
    pub payload: Vec<Subscription>,
}

/// The mathematical value of a [`Subscribe`].
pub struct SubscribeView {
    pub packet_id: u16,
    pub properties: Option<SubscribePropertiesView>,
    pub payload: Seq<SubscriptionView>,
}

impl View for Subscribe {
    type V = SubscribeView;

    open spec fn view(&self) -> SubscribeView {
        SubscribeView {
            packet_id: self.packet_id,
            properties: subscribe_properties_view(self.properties),
            payload: subscriptions_view(self.payload@),
        }
    }
}

/// A SUBSCRIBE body: the packet identifier, the property block in v5, then the
/// subscriptions up to the end of the body, at least one (else `EmptyPayload`).
pub open spec fn spec_subscribe(s: Seq<u8>, version: Version) -> Result<SubscribeView, ErrorView> {
    match spec_u16(s) {
        Err(e) => Err(e),
        Ok((id, _)) => match (if version == Version::V5 {
            spec_subscribe_properties(s.skip(2))
        } else {
            Ok((None, 0int))
        }) {
            Err(e) => Err(e),
            Ok((props, m)) => if s.len() <= 2 + m {
                Err(ErrorView::EmptyPayload)
            } else {
                match spec_subscriptions(s.skip(2 + m)) {
                    Err(e) => Err(e),
                    Ok(subs) => Ok(SubscribeView { packet_id: id, properties: props, payload: subs }),
                }
            },
        },
    }
}

impl Subscribe {
    pub fn new() -> (r: Subscribe)
        ensures
            r.packet_id == 0,
            r.properties is None,
            r.payload@.len() == 0,
    {
        Subscribe { packet_id: 0, properties: None, payload: Vec::new() }
    }

    /// Decodes a SUBSCRIBE body.
    pub fn unpack(read: &[u8], version: Version) -> (r: Result<Subscribe, Error>)
        ensures
            result_view(r) == spec_subscribe(read@, version),
    {
        let end = read.len();
        assert(region(read@, 0, end) =~= read@);
        let (packet_id, p) = get_u16(read, 0, end)?;
        let mut sub = Subscribe::new();
        sub.packet_id = packet_id;
        assert(region(read@, p, end) =~= read@.skip(2));
        let mut p = p;
        if version == Version::V5 {
            let (props, q) = SubscribeProperties::unpack(read, p, end)?;
            sub.properties = props;
            p = q;
        }
        assert(region(read@, p, end) =~= read@.skip(p as int));
        if p == end {
            return Err(Error::EmptyPayload);
        }
        assert(subscriptions_view(sub.payload@) =~= seq![]);
        read_subscriptions(read, p, end, &mut sub.payload)?;
        assert(subscriptions_view(sub.payload@) =~= seq![] + spec_subscriptions(read@.skip(p as int))->Ok_0);
        Ok(sub)
    }
}

/// The topic filters that fill `s`.
pub open spec fn spec_topics(s: Seq<u8>) -> Result<Seq<Seq<char>>, ErrorView>
    decreases s.len(),
    via topics_decreases
{
    if s.len() == 0 {
        Ok(seq![])
    } else {
        match spec_string(s) {
            Err(e) => Err(e),
            Ok((topic, n)) => match spec_topics(s.skip(n)) {
                Err(e) => Err(e),
                Ok(rest) => Ok(seq![topic] + rest),
            },
        }
    }
}

#[via_fn]
proof fn topics_decreases(s: Seq<u8>) {
    if s.len() != 0 {
        if let Ok((_, n)) = spec_string(s) {
            assert(n >= 2);
        }
    }
}

fn read_topics(data: &[u8], pos: usize, end: usize, out: &mut Vec<String>) -> (r: Result<(), Error>)
    requires
        pos <= end <= data@.len(),
    ensures
        match spec_topics(region(data@, pos, end)) {
            Ok(ts) => r is Ok && final(out).deep_view() == old(out).deep_view() + ts,
            Err(e) => r is Err && r->Err_0@ == e,
        },
    decreases end - pos,
{
    let ghost s = region(data@, pos, end);
    if pos == end {
        assert(old(out).deep_view() + seq![] =~= old(out).deep_view());
        return Ok(());
    }
    let (topic, p) = read_string(data, pos, end)?;
    let ghost t = topic@;
    out.push(topic);
    assert(out.deep_view() =~= old(out).deep_view().push(t));
    assert(s.skip(p - pos) =~= region(data@, p, end));
    let r = read_topics(data, p, end, out);
    proof {
        if let Ok(rest) = spec_topics(region(data@, p, end)) {
            assert(final(out).deep_view() =~= old(out).deep_view() + (seq![t] + rest));
        }
    }
    r
}

/// UNSUBSCRIBE: a request to drop one or more subscriptions.
#[derive(Debug, Clone)]
pub struct Unsubscribe {
    pub packet_id: u16,
    pub properties: Option<UnsubscribeProperties>,
    pub payload: Vec<String>,
}

/// The mathematical value of an [`Unsubscribe`].
pub struct UnsubscribeView {
    pub packet_id: u16,
    pub properties: Option<UnsubscribePropertiesView>,
    pub payload: Seq<Seq<char>>,
}

impl View for Unsubscribe {
    type V = UnsubscribeView;

    open spec fn view(&self) -> UnsubscribeView {
        UnsubscribeView {
            packet_id: self.packet_id,
            properties: unsubscribe_properties_view(self.properties),
            payload: self.payload.deep_view(),
        }
    }
}

/// An UNSUBSCRIBE body: the packet identifier, the property block in v5, then
/// the topic filters up to the end of the body, at least one (else
/// `EmptyPayload`).
pub open spec fn spec_unsubscribe(s: Seq<u8>, version: Version) -> Result<UnsubscribeView, ErrorView> {
    match spec_u16(s) {
        Err(e) => Err(e),
        Ok((id, _)) => match (if version == Version::V5 {
            spec_unsubscribe_properties(s.skip(2))
        } else {
            Ok((None, 0int))
        }) {
            Err(e) => Err(e),
            Ok((props, m)) => if s.len() <= 2 + m {
                Err(ErrorView::EmptyPayload)
            } else {
                match spec_topics(s.skip(2 + m)) {
                    Err(e) => Err(e),
                    Ok(ts) => Ok(UnsubscribeView { packet_id: id, properties: props, payload: ts }),
                }
            },
        },
    }
}

impl Unsubscribe {
    pub fn new() -> (r: Unsubscribe)
        ensures
            r.packet_id == 0,
            r.properties is None,
            r.payload@.len() == 0,
    {
        Unsubscribe { packet_id: 0, properties: None, payload: Vec::new() }
    }

    /// Decodes an UNSUBSCRIBE body.
    pub fn unpack(read: &[u8], version: Version) -> (r: Result<Unsubscribe, Error>)
        ensures
            result_view(r) == spec_unsubscribe(read@, version),
    {
        let end = read.len();
        assert(region(read@, 0, end) =~= read@);
        let (packet_id, p) = get_u16(read, 0, end)?;
        let mut unsub = Unsubscribe::new();
        unsub.packet_id = packet_id;
        assert(region(read@, p, end) =~= read@.skip(2));
        let mut p = p;
        if version == Version::V5 {
            let (props, q) = UnsubscribeProperties::unpack(read, p, end)?;
            unsub.properties = props;
            p = q;
        }
        assert(region(read@, p, end) =~= read@.skip(p as int));
        if p == end {
            return Err(Error::EmptyPayload);
        }
        assert(unsub.payload.deep_view() =~= seq![]);
        read_topics(read, p, end, &mut unsub.payload)?;
        assert(unsub.payload.deep_view() =~= seq![] + spec_topics(read@.skip(p as int))->Ok_0);
        Ok(unsub)
    }
}

/// The mathematical value of a [`SubAck`].
pub struct SubAckView {
    pub packet_id: u16,
    pub properties: Option<SubAckPropertiesView>,
    pub payload: Seq<ReasonCode>,
}

impl View for SubAck {
    type V = SubAckView;

    open spec fn view(&self) -> SubAckView {
        SubAckView {
            packet_id: self.packet_id,
            properties: sub_ack_properties_view(self.properties),
            payload: self.payload@,
        }
    }
}

/// A SUBACK body: the packet identifier, the property block in v5, then one
/// reason code per byte up to the end of the body.
pub open spec fn spec_sub_ack(s: Seq<u8>, version: Version) -> Result<SubAckView, ErrorView> {
    match spec_u16(s) {
        Err(e) => Err(e),
        Ok((id, _)) => match (if version == Version::V5 {
            spec_sub_ack_properties(s.skip(2))
        } else {
            Ok((None, 0int))
        }) {
            Err(e) => Err(e),
            Ok((props, m)) => match spec_codes(s.skip(2 + m)) {
                Err(e) => Err(e),
                Ok(cs) => Ok(SubAckView { packet_id: id, properties: props, payload: cs }),
            },
        },
    }
}

impl SubAck {
    /// Decodes a SUBACK body.
    pub fn unpack(read: &[u8], version: Version) -> (r: Result<SubAck, Error>)
        ensures
            result_view(r) == spec_sub_ack(read@, version),
    {
        let end = read.len();
        assert(region(read@, 0, end) =~= read@);
        let (packet_id, p) = get_u16(read, 0, end)?;
        let mut ack = SubAck::new();
        ack.packet_id = packet_id;
        assert(region(read@, p, end) =~= read@.skip(2));
        let mut p = p;
        if version == Version::V5 {
            let (props, q) = SubAckProperties::unpack(read, p, end)?;
            ack.properties = props;
            p = q;
        }
        assert(region(read@, p, end) =~= read@.skip(p as int));
        assert(ack.payload@ =~= seq![]);
        read_codes(read, p, end, &mut ack.payload)?;
        assert(ack.payload@ =~= seq![] + spec_codes(read@.skip(p as int))->Ok_0);
        Ok(ack)
    }
}

/// A SUBACK decodes back from its body. Below v5 no property block is written,
/// so the properties must be absent to come back; properties that are set but
/// hold no entry decode as none, so they are left out.
pub proof fn lemma_sub_ack_round_trip(p: SubAck, version: Version)
    requires
        p.fits(version),
        version != Version::V5 ==> p.properties is None,
        p.properties matches Some(q) ==> q.entries().len() > 0,
    ensures
        spec_sub_ack(p.body(version), version) == Ok::<SubAckView, ErrorView>(p@),
{
    let s = p.body(version);
    let es = p.prop_entries();
    let blk = v5_block(es, version);
    let cb = codes_bytes(p.payload@);
    lemma_codes_round_trip(p.payload@);
    if version == Version::V5 {
        crate::codec::lemma_u16_round_trip(p.packet_id, blk + cb);
        assert(s =~= u16_bytes(p.packet_id) + (blk + cb));
        assert(s.skip(2) =~= blk + cb);
        if let Some(q) = p.properties {
            lemma_sub_ack_properties_round_trip(q);
        }
        assert(forall|i: int| 0 <= i < es.len() ==> shaped(#[trigger] es[i])
            && PropOwner::Ack.spec_permits(es[i].0));
        lemma_block_round_trip(es, PropOwner::Ack, cb);
        assert(s.skip(2 + blk.len() as int) =~= cb);
    } else {
        crate::codec::lemma_u16_round_trip(p.packet_id, cb);
        assert(s =~= u16_bytes(p.packet_id) + cb);
        assert(s.skip(2) =~= cb);
        
    }
}

/// The mathematical value of a [`UnsubAck`].
pub struct UnsubAckView {
    pub packet_id: u16,
    pub properties: Option<UnsubAckPropertiesView>,
    pub payload: Seq<ReasonCode>,
}

impl View for UnsubAck {
    type V = UnsubAckView;

    open spec fn view(&self) -> UnsubAckView {
        UnsubAckView {
            packet_id: self.packet_id,
            properties: unsub_ack_properties_view(self.properties),
            payload: self.payload@,
        }
    }
}

/// An UNSUBACK body: the packet identifier; in v5 then the property block and
/// one reason code per byte up to the end of the body. Below v5 nothing more is
/// read.
pub open spec fn spec_unsub_ack(s: Seq<u8>, version: Version) -> Result<UnsubAckView, ErrorView> {
    match spec_u16(s) {
        Err(e) => Err(e),
        Ok((id, _)) => if version != Version::V5 {
            Ok(UnsubAckView { packet_id: id, properties: None, payload: seq![] })
        } else {
            match spec_unsub_ack_properties(s.skip(2)) {
                Err(e) => Err(e),
                Ok((props, m)) => match spec_codes(s.skip(2 + m)) {
                    Err(e) => Err(e),
                    Ok(cs) => Ok(UnsubAckView { packet_id: id, properties: props, payload: cs }),
                },
            }
        },
    }
}

impl UnsubAck {
    /// Decodes a UNSUBACK body.
    pub fn unpack(read: &[u8], version: Version) -> (r: Result<UnsubAck, Error>)
        ensures
            result_view(r) == spec_unsub_ack(read@, version),
    {
        let end = read.len();
        assert(region(read@, 0, end) =~= read@);
        let (packet_id, p) = get_u16(read, 0, end)?;
        let mut ack = UnsubAck::new();
        ack.packet_id = packet_id;
        if version != Version::V5 {
            assert(ack.payload@ =~= seq![]);
            return Ok(ack);
        }
        assert(region(read@, p, end) =~= read@.skip(2));
        let (props, p) = UnsubAckProperties::unpack(read, p, end)?;
        ack.properties = props;
        assert(region(read@, p, end) =~= read@.skip(p as int));
        assert(ack.payload@ =~= seq![]);
        read_codes(read, p, end, &mut ack.payload)?;
        assert(ack.payload@ =~= seq![] + spec_codes(read@.skip(p as int))->Ok_0);
        Ok(ack)
    }
}

/// An UNSUBACK decodes back from its body. Below v5 only the packet identifier
/// is written, so the properties must be absent and the codes empty to come
/// back; properties that are set but hold no entry decode as none, so they are
/// left out.
pub proof fn lemma_unsub_ack_round_trip(p: UnsubAck, version: Version)
    requires
        p.fits(version),
        version != Version::V5 ==> p.properties is None && p.payload@.len() == 0,
        p.properties matches Some(q) ==> q.entries().len() > 0,
    ensures
        spec_unsub_ack(p.body(version), version) == Ok::<UnsubAckView, ErrorView>(p@),
{
    let s = p.body(version);
    let es = p.prop_entries();
    let blk = v5_block(es, version);
    let cb = codes_bytes(p.payload@);
    lemma_codes_round_trip(p.payload@);
    if version == Version::V5 {
        crate::codec::lemma_u16_round_trip(p.packet_id, blk + cb);
        assert(s =~= u16_bytes(p.packet_id) + (blk + cb));
        assert(s.skip(2) =~= blk + cb);
        if let Some(q) = p.properties {
            lemma_unsub_ack_properties_round_trip(q);
        }
        assert(forall|i: int| 0 <= i < es.len() ==> shaped(#[trigger] es[i])
            && PropOwner::Ack.spec_permits(es[i].0));
        lemma_block_round_trip(es, PropOwner::Ack, cb);
        assert(s.skip(2 + blk.len() as int) =~= cb);
    } else {
        crate::codec::lemma_u16_round_trip(p.packet_id, seq![]);
        assert(s =~= u16_bytes(p.packet_id) + seq![]);
        assert(s.skip(2) =~= cb);
        assert(p.payload@ =~= seq![]);
    }
}

/// The options byte of a subscription: retain handling in bits 5-4,
/// retain-as-published bit 3, no-local bit 2, QoS bits 1-0.
pub open spec fn options_byte(s: SubscriptionView) -> u8 {
    (16 * s.retain_handling.spec_byte() + (if s.retain_as_published { 8int } else { 0 }) + (if s.no_local {
        4int
    } else {
        0
    }) + s.qos.spec_byte()) as u8
}

/// A subscription on the wire: its topic filter, then its options byte.
pub open spec fn subscription_bytes(s: SubscriptionView) -> Seq<u8> {
    string_bytes(s.topic) + seq![options_byte(s)]
}

/// Subscriptions one after another.
pub open spec fn subscriptions_bytes(ss: Seq<SubscriptionView>) -> Seq<u8>
    decreases ss.len(),
{
    if ss.len() == 0 {
        seq![]
    } else {
        subscriptions_bytes(ss.drop_last()) + subscription_bytes(ss.last())
    }
}

/// Topic filters one after another.
pub open spec fn topics_bytes(ts: Seq<Seq<char>>) -> Seq<u8>
    decreases ts.len(),
{
    if ts.len() == 0 {
        seq![]
    } else {
        topics_bytes(ts.drop_last()) + string_bytes(ts.last())
    }
}

/// The topic filters of a list of subscriptions.
pub open spec fn subscription_topics(ss: Seq<SubscriptionView>) -> Seq<Seq<char>> {
    ss.map_values(|s: SubscriptionView| s.topic)
}

pub open spec fn topics_fit(ts: Seq<Seq<char>>) -> bool {
    forall|i: int| 0 <= i < ts.len() ==> string_fits(#[trigger] ts[i])
}

fn options(s: &Subscription) -> (r: u8)
    ensures
        r == options_byte(s@),
{
    16 * s.retain_handling.byte() + (if s.retain_as_published { 8u8 } else { 0 }) + (if s.no_local {
        4u8
    } else {
        0
    }) + s.qos.byte()
}

impl Subscribe {
    /// The property entries this packet carries.
    pub open spec fn prop_entries(&self) -> Seq<EntryView> {
        match self.properties {
            Some(p) => p.entries(),
            None => seq![],
        }
    }

    /// The body: the packet identifier, the property block in v5, then the
    /// subscriptions.
    pub open spec fn body(&self, version: Version) -> Seq<u8> {
        u16_bytes(self.packet_id) + v5_block(self.prop_entries(), version) + subscriptions_bytes(
            subscriptions_view(self.payload@),
        )
    }

    pub open spec fn fits(&self, version: Version) -> bool {
        &&& topics_fit(subscription_topics(subscriptions_view(self.payload@)))
        &&& v5_block_fits(self.prop_entries(), version)
        &&& self.body(version).len() <= MAX_REMAINING_LENGTH
    }

    /// Appends the whole packet; fails with `PayloadTooLong` where a field does
    /// not fit.
    pub fn pack(self, out: &mut Vec<u8>, version: Version) -> (r: Result<(), Error>)
        ensures
            self.fits(version) ==> r is Ok && final(out)@ == old(out)@ + frame_bytes(
                0x82,
                self.body(version),
            ),
            !self.fits(version) ==> r is Err && r->Err_0@ == ErrorView::PayloadTooLong,
    {
        let ghost me = self;
        let ghost subs = subscriptions_view(self.payload@);
        let es = match self.properties {
            Some(p) => p.to_entries(),
            None => Vec::new(),
        };
        assert(entries_view(es@) =~= me.prop_entries());
        let mut body: Vec<u8> = Vec::new();
        put_u16(&mut body, self.packet_id);
        write_v5_block(&mut body, &es, version)?;
        let ghost head = body@;
        let mut i: usize = 0;
        while i < self.payload.len()
            invariant
                i <= self.payload@.len(),
                subs == subscriptions_view(self.payload@),
                body@ == head + subscriptions_bytes(subs.take(i as int)),
                forall|j: int| 0 <= j < i ==> string_fits(#[trigger] subs[j].topic),
            decreases self.payload@.len() - i,
        {
            let s = &self.payload[i];
            assert(subs[i as int] == s@);
            if write_string(&mut body, s.topic.as_str()).is_err() {
                assert(!topics_fit(subscription_topics(subs))) by {
                    assert(subscription_topics(subs)[i as int] == s.topic@);
                }
                return Err(Error::PayloadTooLong);
            }
            body.push(options(s));
            assert(subs.take(i + 1).drop_last() =~= subs.take(i as int));
            assert(body@ =~= head + subscriptions_bytes(subs.take(i + 1)));
            i = i + 1;
        }
        assert(subs.take(i as int) =~= subs);
        assert(topics_fit(subscription_topics(subs)));
        assert(body@ =~= me.body(version));
        write_frame(out, 0x82, body.as_slice())
    }
}

impl Unsubscribe {
    /// The property entries this packet carries.
    pub open spec fn prop_entries(&self) -> Seq<EntryView> {
        match self.properties {
            Some(p) => p.entries(),
            None => seq![],
        }
    }

    /// The body: the packet identifier, the property block in v5, then the
    /// topic filters.
    pub open spec fn body(&self, version: Version) -> Seq<u8> {
        u16_bytes(self.packet_id) + v5_block(self.prop_entries(), version) + topics_bytes(
            self.payload.deep_view(),
        )
    }

    pub open spec fn fits(&self, version: Version) -> bool {
        &&& topics_fit(self.payload.deep_view())
        &&& v5_block_fits(self.prop_entries(), version)
        &&& self.body(version).len() <= MAX_REMAINING_LENGTH
    }

    /// Appends the whole packet; fails with `PayloadTooLong` where a field does
    /// not fit.
    pub fn pack(self, out: &mut Vec<u8>, version: Version) -> (r: Result<(), Error>)
        ensures
            self.fits(version) ==> r is Ok && final(out)@ == old(out)@ + frame_bytes(
                0xA2,
                self.body(version),
            ),
            !self.fits(version) ==> r is Err && r->Err_0@ == ErrorView::PayloadTooLong,
    {
        let ghost me = self;
        let ghost ts = self.payload.deep_view();
        let es = match self.properties {
            Some(p) => p.to_entries(),
            None => Vec::new(),
        };
        assert(entries_view(es@) =~= me.prop_entries());
        let mut body: Vec<u8> = Vec::new();
        put_u16(&mut body, self.packet_id);
        write_v5_block(&mut body, &es, version)?;
        let ghost head = body@;
        let mut i: usize = 0;
        while i < self.payload.len()
            invariant
                i <= self.payload@.len(),
                ts == self.payload.deep_view(),
                body@ == head + topics_bytes(ts.take(i as int)),
                forall|j: int| 0 <= j < i ==> string_fits(#[trigger] ts[j]),
            decreases self.payload@.len() - i,
        {
            let t = &self.payload[i];
            assert(ts[i as int] == t@);
            if write_string(&mut body, t.as_str()).is_err() {
                return Err(Error::PayloadTooLong);
            }
            assert(ts.take(i + 1).drop_last() =~= ts.take(i as int));
            assert(body@ =~= head + topics_bytes(ts.take(i + 1)));
            i = i + 1;
        }
        assert(ts.take(i as int) =~= ts);
        assert(body@ =~= me.body(version));
        write_frame(out, 0xA2, body.as_slice())
    }
}

proof fn lemma_options_round_trip(s: SubscriptionView)
    ensures
        RetainHandling::spec_from_byte((options_byte(s) / 16 % 4) as u8) == Some(s.retain_handling),
        QoS::spec_from_byte((options_byte(s) % 4) as u8) == Some(s.qos),
        (options_byte(s) / 8 % 2 == 1) == s.retain_as_published,
        (options_byte(s) / 4 % 2 == 1) == s.no_local,
{
    match s.retain_handling {
        RetainHandling::Sub => {},
        RetainHandling::NewSub => {},
        RetainHandling::Never => {},
    }
    match s.qos {
        QoS::AtMostOnce => {},
        QoS::AtLeastOnce => {},
        QoS::ExactlyOnce => {},
    }
}

proof fn lemma_subscriptions_bytes_front(ss: Seq<SubscriptionView>)
    requires
        ss.len() > 0,
    ensures
        subscriptions_bytes(ss) == subscription_bytes(ss[0]) + subscriptions_bytes(ss.drop_first()),
    decreases ss.len(),
{
    if ss.len() == 1 {
        assert(ss.drop_last() =~= seq![]);
        assert(ss.drop_first() =~= seq![]);
        assert(subscriptions_bytes(ss.drop_last()) =~= seq![]);
        assert(subscriptions_bytes(ss.drop_first()) =~= seq![]);
        assert(subscriptions_bytes(ss) =~= subscription_bytes(ss[0]));
    } else {
        lemma_subscriptions_bytes_front(ss.drop_last());
        assert(ss.drop_last().drop_first() =~= ss.drop_first().drop_last());
        assert(subscriptions_bytes(ss) =~= subscription_bytes(ss[0]) + subscriptions_bytes(
            ss.drop_first(),
        ));
    }
}

proof fn lemma_subscriptions_round_trip(ss: Seq<SubscriptionView>)
    requires
        topics_fit(subscription_topics(ss)),
    ensures
        spec_subscriptions(subscriptions_bytes(ss)) == Ok::<Seq<SubscriptionView>, ErrorView>(ss),
    decreases ss.len(),
{
    if ss.len() == 0 {
        assert(subscriptions_bytes(ss) =~= seq![]);
        assert(ss =~= seq![]);
    } else {
        let x = ss[0];
        let tail = ss.drop_first();
        let b = subscriptions_bytes(ss);
        lemma_subscriptions_bytes_front(ss);
        assert(subscription_topics(ss)[0] == x.topic);
        let rest = seq![options_byte(x)] + subscriptions_bytes(tail);
        assert(b =~= string_bytes(x.topic) + rest);
        lemma_string_round_trip(x.topic, rest);
        let n = 2 + vstd::utf8::encode_utf8(x.topic).len() as int;
        assert(b.skip(n) =~= rest);
        assert(b.skip(n + 1) =~= subscriptions_bytes(tail));
        lemma_options_round_trip(x);
        assert forall|i: int| 0 <= i < tail.len() implies string_fits(
            #[trigger] subscription_topics(tail)[i],
        ) by {
            assert(subscription_topics(tail)[i] == subscription_topics(ss)[i + 1]);
        }
        lemma_subscriptions_round_trip(tail);
        assert(seq![x] + tail =~= ss);
    }
}

proof fn lemma_topics_bytes_front(ts: Seq<Seq<char>>)
    requires
        ts.len() > 0,
    ensures
        topics_bytes(ts) == string_bytes(ts[0]) + topics_bytes(ts.drop_first()),
    decreases ts.len(),
{
    if ts.len() == 1 {
        assert(ts.drop_last() =~= seq![]);
        assert(ts.drop_first() =~= seq![]);
        assert(topics_bytes(ts.drop_last()) =~= seq![]);
        assert(topics_bytes(ts.drop_first()) =~= seq![]);
        assert(topics_bytes(ts) =~= string_bytes(ts[0]));
    } else {
        lemma_topics_bytes_front(ts.drop_last());
        assert(ts.drop_last().drop_first() =~= ts.drop_first().drop_last());
        assert(topics_bytes(ts) =~= string_bytes(ts[0]) + topics_bytes(ts.drop_first()));
    }
}

proof fn lemma_topics_round_trip(ts: Seq<Seq<char>>)
    requires
        topics_fit(ts),
    ensures
        spec_topics(topics_bytes(ts)) == Ok::<Seq<Seq<char>>, ErrorView>(ts),
    decreases ts.len(),
{
    if ts.len() == 0 {
        assert(topics_bytes(ts) =~= seq![]);
        assert(ts =~= seq![]);
    } else {
        let tail = ts.drop_first();
        let b = topics_bytes(ts);
        lemma_topics_bytes_front(ts);
        lemma_string_round_trip(ts[0], topics_bytes(tail));
        let n = 2 + vstd::utf8::encode_utf8(ts[0]).len() as int;
        assert(b.skip(n) =~= topics_bytes(tail));
        assert forall|i: int| 0 <= i < tail.len() implies string_fits(#[trigger] tail[i]) by {
            assert(tail[i] == ts[i + 1]);
        }
        lemma_topics_round_trip(tail);
        assert(seq![ts[0]] + tail =~= ts);
    }
}

/// A SUBSCRIBE with at least one subscription decodes back from its body. Below
/// v5 no property block is written, so the properties must be absent to come
/// back; properties that are set but hold no entry decode as none, so they are
/// left out.
pub proof fn lemma_subscribe_round_trip(p: Subscribe, version: Version)
    requires
        p.fits(version),
        p.payload@.len() > 0,
        version != Version::V5 ==> p.properties is None,
        p.properties matches Some(q) ==> q.entries().len() > 0,
    ensures
        spec_subscribe(p.body(version), version) == Ok::<SubscribeView, ErrorView>(p@),
{
    let s = p.body(version);
    let es = p.prop_entries();
    let blk = v5_block(es, version);
    let sb = subscriptions_bytes(subscriptions_view(p.payload@));
    lemma_subscriptions_round_trip(subscriptions_view(p.payload@));
    lemma_u16_round_trip(p.packet_id, blk + sb);
    assert(s =~= u16_bytes(p.packet_id) + (blk + sb));
    assert(s.skip(2) =~= blk + sb);
    if version == Version::V5 {
        if let Some(q) = p.properties {
            lemma_subscribe_properties_round_trip(q);
        }
        assert(forall|i: int| 0 <= i < es.len() ==> shaped(#[trigger] es[i])
            && PropOwner::Subscribe.spec_permits(es[i].0));
        lemma_block_round_trip(es, PropOwner::Subscribe, sb);
    }
    lemma_subscriptions_bytes_front(subscriptions_view(p.payload@));
    assert(sb.len() > 0);
    assert(s.skip(2 + blk.len() as int) =~= sb);
}

/// An UNSUBSCRIBE with at least one topic decodes back from its body. Below v5
/// no property block is written, so the properties must be absent to come back;
/// properties that are set but hold no entry decode as none, so they are left
/// out.
pub proof fn lemma_unsubscribe_round_trip(p: Unsubscribe, version: Version)
    requires
        p.fits(version),
        p.payload@.len() > 0,
        version != Version::V5 ==> p.properties is None,
        p.properties matches Some(q) ==> q.entries().len() > 0,
    ensures
        spec_unsubscribe(p.body(version), version) == Ok::<UnsubscribeView, ErrorView>(p@),
{
    let s = p.body(version);
    let es = p.prop_entries();
    let blk = v5_block(es, version);
    let tb = topics_bytes(p.payload.deep_view());
    lemma_topics_round_trip(p.payload.deep_view());
    lemma_u16_round_trip(p.packet_id, blk + tb);
    assert(s =~= u16_bytes(p.packet_id) + (blk + tb));
    assert(s.skip(2) =~= blk + tb);
    if version == Version::V5 {
        if let Some(q) = p.properties {
            lemma_unsubscribe_properties_round_trip(q);
        }
        assert(forall|i: int| 0 <= i < es.len() ==> shaped(#[trigger] es[i])
            && PropOwner::Unsubscribe.spec_permits(es[i].0));
        lemma_block_round_trip(es, PropOwner::Unsubscribe, tb);
    }
    lemma_topics_bytes_front(p.payload.deep_view());
    assert(tb.len() > 0);
    assert(s.skip(2 + blk.len() as int) =~= tb);
}

/// Encoding the SUBACK that its body decodes to gives that body back.
pub proof fn lemma_sub_ack_bytes_round_trip(p: SubAck, r: SubAck, version: Version)
    requires
        p.fits(version),
        version != Version::V5 ==> p.properties is None,
        p.properties matches Some(q) ==> q.entries().len() > 0,
        spec_sub_ack(p.body(version), version) == Ok::<SubAckView, ErrorView>(r@),
    ensures
        r.body(version) == p.body(version),
{
    lemma_sub_ack_round_trip(p, version);
    if let (Some(a), Some(b)) = (r.properties, p.properties) {
        assert(a@ == b@);
        assert(a.entries() == b.entries());
    }
}

/// Encoding the UNSUBACK that its body decodes to gives that body back.
pub proof fn lemma_unsub_ack_bytes_round_trip(p: UnsubAck, r: UnsubAck, version: Version)
    requires
        p.fits(version),
        version != Version::V5 ==> p.properties is None && p.payload@.len() == 0,
        p.properties matches Some(q) ==> q.entries().len() > 0,
        spec_unsub_ack(p.body(version), version) == Ok::<UnsubAckView, ErrorView>(r@),
    ensures
        r.body(version) == p.body(version),
{
    lemma_unsub_ack_round_trip(p, version);
    if let (Some(a), Some(b)) = (r.properties, p.properties) {
        assert(a@ == b@);
        assert(a.entries() == b.entries());
    }
}

/// Encoding the SUBSCRIBE that its body decodes to gives that body back.
pub proof fn lemma_subscribe_bytes_round_trip(p: Subscribe, r: Subscribe, version: Version)
    requires
        p.fits(version),
        p.payload@.len() > 0,
        version != Version::V5 ==> p.properties is None,
        p.properties matches Some(q) ==> q.entries().len() > 0,
        spec_subscribe(p.body(version), version) == Ok::<SubscribeView, ErrorView>(r@),
    ensures
        r.body(version) == p.body(version),
{
    lemma_subscribe_round_trip(p, version);
    if let (Some(a), Some(b)) = (r.properties, p.properties) {
        assert(a@ == b@);
        assert(a.entries() == b.entries());
    }
}

/// Encoding the UNSUBSCRIBE that its body decodes to gives that body back.
pub proof fn lemma_unsubscribe_bytes_round_trip(p: Unsubscribe, r: Unsubscribe, version: Version)
    requires
        p.fits(version),
        p.payload@.len() > 0,
        version != Version::V5 ==> p.properties is None,
        p.properties matches Some(q) ==> q.entries().len() > 0,
        spec_unsubscribe(p.body(version), version) == Ok::<UnsubscribeView, ErrorView>(r@),
    ensures
        r.body(version) == p.body(version),
{
    lemma_unsubscribe_round_trip(p, version);
    if let (Some(a), Some(b)) = (r.properties, p.properties) {
        assert(a@ == b@);
        assert(a.entries() == b.entries());
    }
}

} // verus!
