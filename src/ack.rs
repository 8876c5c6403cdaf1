use vstd::prelude::*;
use crate::codec::{
    frame_bytes, lemma_u16_round_trip, get_u16, get_u8, region, spec_u16, u16_bytes, write_frame,
    MAX_REMAINING_LENGTH,
};
use crate::error::{result_view, Error, ErrorView, Parsed};
use crate::kinds::{Property, ReasonCode, Version};
use crate::property::{
    all_pairs, lemma_all_pairs_append, lemma_all_pairs_of_pairs, lemma_block_round_trip,
    lemma_last_text_append, lemma_last_text_of_pairs, lemma_pair_entries_shaped, shaped,
    block_bytes, block_fits, write_block, entries_bytes, entries_fit, entries_view, last_text,
    lemma_entries_view_drop_first, opt_text, pair_entries, push_opt_text, push_pairs, read_block,
    spec_block, write_entries, Entry, EntryView, PropOwner, PropValue,
};

verus! {

/// The properties of a v5 PUBACK packet.
#[derive(Debug, Clone)]
pub struct PubAckProperties {
    pub reason_string: Option<String>,
    pub user_property: Vec<(String, String)>,
}

/// The mathematical value of a [`PubAckProperties`].
pub struct PubAckPropertiesView {
    pub reason_string: Option<Seq<char>>,
    pub user_property: Seq<(Seq<char>, Seq<char>)>,
}

impl View for PubAckProperties {
    type V = PubAckPropertiesView;

    open spec fn view(&self) -> PubAckPropertiesView {
        PubAckPropertiesView {
            reason_string: self.reason_string.deep_view(),
            user_property: self.user_property.deep_view(),
        }
    }
}

pub open spec fn pub_ack_properties_view(o: Option<PubAckProperties>) -> Option<PubAckPropertiesView> {
    match o {
        Some(p) => Some(p@),
        None => None,
    }
}

/// The fields that a list of decoded entries gives: for each single-valued
/// property the last entry, for the repeatable ones every entry in order.
pub open spec fn pub_ack_properties_of(es: Seq<EntryView>) -> PubAckPropertiesView {
    PubAckPropertiesView {
        reason_string: last_text(es, Property::ReasonString),
        user_property: all_pairs(es),
    }
}

/// A property block at the front of `s`, as these fields.
pub open spec fn spec_pub_ack_properties(s: Seq<u8>) -> Parsed<Option<PubAckPropertiesView>> {
    match spec_block(s, PropOwner::Ack) {
        Ok((Some(es), n)) => Ok((Some(pub_ack_properties_of(es)), n)),
        Ok((None, n)) => Ok((None, n)),
        Err(e) => Err(e),
    }
}

impl PubAckProperties {
    /// No property set.
    pub open spec fn spec_empty(&self) -> bool {
        self.reason_string is None && self.user_property@.len() == 0
    }

    pub fn new() -> (r: PubAckProperties)
        ensures
            r.spec_empty(),
    {
        PubAckProperties {
            reason_string: None,
            user_property: Vec::new(),
        }
    }

    fn from_entries(es: Vec<Entry>) -> (r: PubAckProperties)
        ensures
            r@ == pub_ack_properties_of(entries_view(es@)),
    {
        let ghost all = entries_view(es@);
        let mut prop = PubAckProperties::new();
        let mut rest = es;
        let ghost mut i: int = 0;
        assert(all.take(0) =~= Seq::<EntryView>::empty());
        assert(prop.user_property.deep_view() =~= seq![]);
        while rest.len() > 0
            invariant
                0 <= i <= all.len(),
                entries_view(rest@) == all.skip(i),
                prop@ == pub_ack_properties_of(all.take(i)),
            decreases rest@.len(),
        {
            let ghost before = rest@;
            assert(entries_view(before).len() == before.len());
            assert(all.skip(i)[0] == all[i]);
            assert(entries_view(before)[0] == all[i]);
            let (p, v) = rest.remove(0);
            let ghost e = (p, v@);
            assert(e == all[i]);
            let ghost old_prop = prop;
            match (p, v) {
                (Property::ReasonString, PropValue::Text(x)) => {
                    prop.reason_string = Some(x);
                },
                (Property::UserProperty, PropValue::Pair(key, value)) => {
                    prop.user_property.push((key, value));
                    assert(prop.user_property.deep_view() =~= old_prop.user_property.deep_view().push((e.1->Pair_0, e.1->Pair_1)));
                },
                _ => {},
            }
            proof {
                let t = all.take(i + 1);
                assert(t.drop_last() =~= all.take(i));
                assert(t.last() == e);
                lemma_entries_view_drop_first(before);
                assert(rest@ =~= before.drop_first());
                assert(all.skip(i + 1) =~= all.skip(i).drop_first());
                i = i + 1;
            }
        }
        assert(all.take(i) =~= all);
        prop
    }

    /// Decodes a property block starting at `pos`, read no further than `end`:
    /// `None` for an empty block, and the position just after the block.
    pub fn unpack(data: &[u8], pos: usize, end: usize) -> (r: Result<(Option<PubAckProperties>, usize), Error>)
        requires
            pos <= end <= data@.len(),
        ensures
            match r {
                Ok((p, q)) => spec_pub_ack_properties(region(data@, pos, end)) == Parsed::<
                    Option<PubAckPropertiesView>,
                >::Ok((pub_ack_properties_view(p), q - pos)) && pos <= q <= end,
                Err(e) => spec_pub_ack_properties(region(data@, pos, end)) == Parsed::<
                    Option<PubAckPropertiesView>,
                >::Err(e@),
            },
    {
        let (es, q) = read_block(data, pos, end, PropOwner::Ack)?;
        match es {
            Some(es) => Ok((Some(PubAckProperties::from_entries(es)), q)),
            None => Ok((None, q)),
        }
    }

    /// The entries these fields stand for, in the order they are written.
    pub open spec fn entries(&self) -> Seq<EntryView> {
        opt_text(Property::ReasonString, self.reason_string.deep_view())
            + pair_entries(self.user_property.deep_view())
    }

    fn to_entries(self) -> (r: Vec<Entry>)
        ensures
            entries_view(r@) == self.entries(),
    {
        let ghost me = self;
        let mut es: Vec<Entry> = Vec::new();
        let ghost mut acc: Seq<EntryView> = seq![];
        assert(entries_view(es@) =~= acc);
        let ghost prev = es@;
        push_opt_text(&mut es, Property::ReasonString, self.reason_string);
        proof {
            assert(entries_view(es@) =~= entries_view(prev) + opt_text(Property::ReasonString, me.reason_string.deep_view()));
            acc = acc + opt_text(Property::ReasonString, me.reason_string.deep_view());
        }
        let ghost prev = es@;
        push_pairs(&mut es, self.user_property);
        proof {
            assert(entries_view(es@) =~= entries_view(prev) + pair_entries(me.user_property.deep_view()));
            acc = acc + pair_entries(me.user_property.deep_view());
        }
        es
    }

    /// Appends the entries, without the block's length: fails with
    /// `PayloadTooLong` where a value does not fit its field.
    pub fn write(self, out: &mut Vec<u8>) -> (r: Result<(), Error>)
        ensures
            entries_fit(self.entries()) ==> r is Ok && final(out)@ == old(out)@ + entries_bytes(
                self.entries(),
            ),
            !entries_fit(self.entries()) ==> r is Err && r->Err_0@ == ErrorView::PayloadTooLong,
    {
        let es = self.to_entries();
        write_entries(out, &es)
    }

}

/// The properties of a v5 PUBREC packet.
#[derive(Debug, Clone)]
pub struct PubRecProperties {
    pub reason_string: Option<String>,
    pub user_property: Vec<(String, String)>,
}

/// The mathematical value of a [`PubRecProperties`].
pub struct PubRecPropertiesView {
    pub reason_string: Option<Seq<char>>,
    pub user_property: Seq<(Seq<char>, Seq<char>)>,
}

impl View for PubRecProperties {
    type V = PubRecPropertiesView;

    open spec fn view(&self) -> PubRecPropertiesView {
        PubRecPropertiesView {
            reason_string: self.reason_string.deep_view(),
            user_property: self.user_property.deep_view(),
        }
    }
}

pub open spec fn pub_rec_properties_view(o: Option<PubRecProperties>) -> Option<PubRecPropertiesView> {
    match o {
        Some(p) => Some(p@),
        None => None,
    }
}

/// The fields that a list of decoded entries gives: for each single-valued
/// property the last entry, for the repeatable ones every entry in order.
pub open spec fn pub_rec_properties_of(es: Seq<EntryView>) -> PubRecPropertiesView {
    PubRecPropertiesView {
        reason_string: last_text(es, Property::ReasonString),
        user_property: all_pairs(es),
    }
}

/// A property block at the front of `s`, as these fields.
pub open spec fn spec_pub_rec_properties(s: Seq<u8>) -> Parsed<Option<PubRecPropertiesView>> {
    match spec_block(s, PropOwner::Ack) {
        Ok((Some(es), n)) => Ok((Some(pub_rec_properties_of(es)), n)),
        Ok((None, n)) => Ok((None, n)),
        Err(e) => Err(e),
    }
}

impl PubRecProperties {
    /// No property set.
    pub open spec fn spec_empty(&self) -> bool {
        self.reason_string is None && self.user_property@.len() == 0
    }

    pub fn new() -> (r: PubRecProperties)
        ensures
            r.spec_empty(),
    {
        PubRecProperties {
            reason_string: None,
            user_property: Vec::new(),
        }
    }

    fn from_entries(es: Vec<Entry>) -> (r: PubRecProperties)
        ensures
            r@ == pub_rec_properties_of(entries_view(es@)),
    {
        let ghost all = entries_view(es@);
        let mut prop = PubRecProperties::new();
        let mut rest = es;
        let ghost mut i: int = 0;
        assert(all.take(0) =~= Seq::<EntryView>::empty());
        assert(prop.user_property.deep_view() =~= seq![]);
        while rest.len() > 0
            invariant
                0 <= i <= all.len(),
                entries_view(rest@) == all.skip(i),
                prop@ == pub_rec_properties_of(all.take(i)),
            decreases rest@.len(),
        {
            let ghost before = rest@;
            assert(entries_view(before).len() == before.len());
            assert(all.skip(i)[0] == all[i]);
            assert(entries_view(before)[0] == all[i]);
            let (p, v) = rest.remove(0);
            let ghost e = (p, v@);
            assert(e == all[i]);
            let ghost old_prop = prop;
            match (p, v) {
                (Property::ReasonString, PropValue::Text(x)) => {
                    prop.reason_string = Some(x);
                },
                (Property::UserProperty, PropValue::Pair(key, value)) => {
                    prop.user_property.push((key, value));
                    assert(prop.user_property.deep_view() =~= old_prop.user_property.deep_view().push((e.1->Pair_0, e.1->Pair_1)));
                },
                _ => {},
            }
            proof {
                let t = all.take(i + 1);
                assert(t.drop_last() =~= all.take(i));
                assert(t.last() == e);
                lemma_entries_view_drop_first(before);
                assert(rest@ =~= before.drop_first());
                assert(all.skip(i + 1) =~= all.skip(i).drop_first());
                i = i + 1;
            }
        }
        assert(all.take(i) =~= all);
        prop
    }

    /// Decodes a property block starting at `pos`, read no further than `end`:
    /// `None` for an empty block, and the position just after the block.
    pub fn unpack(data: &[u8], pos: usize, end: usize) -> (r: Result<(Option<PubRecProperties>, usize), Error>)
        requires
            pos <= end <= data@.len(),
        ensures
            match r {
                Ok((p, q)) => spec_pub_rec_properties(region(data@, pos, end)) == Parsed::<
                    Option<PubRecPropertiesView>,
                >::Ok((pub_rec_properties_view(p), q - pos)) && pos <= q <= end,
                Err(e) => spec_pub_rec_properties(region(data@, pos, end)) == Parsed::<
                    Option<PubRecPropertiesView>,
                >::Err(e@),
            },
    {
        let (es, q) = read_block(data, pos, end, PropOwner::Ack)?;
        match es {
            Some(es) => Ok((Some(PubRecProperties::from_entries(es)), q)),
            None => Ok((None, q)),
        }
    }

    /// The entries these fields stand for, in the order they are written.
    pub open spec fn entries(&self) -> Seq<EntryView> {
        opt_text(Property::ReasonString, self.reason_string.deep_view())
            + pair_entries(self.user_property.deep_view())
    }

    fn to_entries(self) -> (r: Vec<Entry>)
        ensures
            entries_view(r@) == self.entries(),
    {
        let ghost me = self;
        let mut es: Vec<Entry> = Vec::new();
        let ghost mut acc: Seq<EntryView> = seq![];
        assert(entries_view(es@) =~= acc);
        let ghost prev = es@;
        push_opt_text(&mut es, Property::ReasonString, self.reason_string);
        proof {
            assert(entries_view(es@) =~= entries_view(prev) + opt_text(Property::ReasonString, me.reason_string.deep_view()));
            acc = acc + opt_text(Property::ReasonString, me.reason_string.deep_view());
        }
        let ghost prev = es@;
        push_pairs(&mut es, self.user_property);
        proof {
            assert(entries_view(es@) =~= entries_view(prev) + pair_entries(me.user_property.deep_view()));
            acc = acc + pair_entries(me.user_property.deep_view());
        }
        es
    }

    /// Appends the entries, without the block's length: fails with
    /// `PayloadTooLong` where a value does not fit its field.
    pub fn pack(self, out: &mut Vec<u8>) -> (r: Result<(), Error>)
        ensures
            entries_fit(self.entries()) ==> r is Ok && final(out)@ == old(out)@ + entries_bytes(
                self.entries(),
            ),
            !entries_fit(self.entries()) ==> r is Err && r->Err_0@ == ErrorView::PayloadTooLong,
    {
        let es = self.to_entries();
        write_entries(out, &es)
    }

}

/// The properties of a v5 PUBREL packet.
#[derive(Debug, Clone)]
pub struct PubRelProperties {
    pub reason_string: Option<String>,
    pub user_property: Vec<(String, String)>,
}

/// The mathematical value of a [`PubRelProperties`].
pub struct PubRelPropertiesView {
    pub reason_string: Option<Seq<char>>,
    pub user_property: Seq<(Seq<char>, Seq<char>)>,
}

impl View for PubRelProperties {
    type V = PubRelPropertiesView;

    open spec fn view(&self) -> PubRelPropertiesView {
        PubRelPropertiesView {
            reason_string: self.reason_string.deep_view(),
            user_property: self.user_property.deep_view(),
        }
    }
}

pub open spec fn pub_rel_properties_view(o: Option<PubRelProperties>) -> Option<PubRelPropertiesView> {
    match o {
        Some(p) => Some(p@),
        None => None,
    }
}

/// The fields that a list of decoded entries gives: for each single-valued
/// property the last entry, for the repeatable ones every entry in order.
pub open spec fn pub_rel_properties_of(es: Seq<EntryView>) -> PubRelPropertiesView {
    PubRelPropertiesView {
        reason_string: last_text(es, Property::ReasonString),
        user_property: all_pairs(es),
    }
}

/// A property block at the front of `s`, as these fields.
pub open spec fn spec_pub_rel_properties(s: Seq<u8>) -> Parsed<Option<PubRelPropertiesView>> {
    match spec_block(s, PropOwner::Ack) {
        Ok((Some(es), n)) => Ok((Some(pub_rel_properties_of(es)), n)),
        Ok((None, n)) => Ok((None, n)),
        Err(e) => Err(e),
    }
}

impl PubRelProperties {
    /// No property set.
    pub open spec fn spec_empty(&self) -> bool {
        self.reason_string is None && self.user_property@.len() == 0
    }

    pub fn new() -> (r: PubRelProperties)
        ensures
            r.spec_empty(),
    {
        PubRelProperties {
            reason_string: None,
            user_property: Vec::new(),
        }
    }

    fn from_entries(es: Vec<Entry>) -> (r: PubRelProperties)
        ensures
            r@ == pub_rel_properties_of(entries_view(es@)),
    {
        let ghost all = entries_view(es@);
        let mut prop = PubRelProperties::new();
        let mut rest = es;
        let ghost mut i: int = 0;
        assert(all.take(0) =~= Seq::<EntryView>::empty());
        assert(prop.user_property.deep_view() =~= seq![]);
        while rest.len() > 0
            invariant
                0 <= i <= all.len(),
                entries_view(rest@) == all.skip(i),
                prop@ == pub_rel_properties_of(all.take(i)),
            decreases rest@.len(),
        {
            let ghost before = rest@;
            assert(entries_view(before).len() == before.len());
            assert(all.skip(i)[0] == all[i]);
            assert(entries_view(before)[0] == all[i]);
            let (p, v) = rest.remove(0);
            let ghost e = (p, v@);
            assert(e == all[i]);
            let ghost old_prop = prop;
            match (p, v) {
                (Property::ReasonString, PropValue::Text(x)) => {
                    prop.reason_string = Some(x);
                },
                (Property::UserProperty, PropValue::Pair(key, value)) => {
                    prop.user_property.push((key, value));
                    assert(prop.user_property.deep_view() =~= old_prop.user_property.deep_view().push((e.1->Pair_0, e.1->Pair_1)));
                },
                _ => {},
            }
            proof {
                let t = all.take(i + 1);
                assert(t.drop_last() =~= all.take(i));
                assert(t.last() == e);
                lemma_entries_view_drop_first(before);
                assert(rest@ =~= before.drop_first());
                assert(all.skip(i + 1) =~= all.skip(i).drop_first());
                i = i + 1;
            }
        }
        assert(all.take(i) =~= all);
        prop
    }

    /// Decodes a property block starting at `pos`, read no further than `end`:
    /// `None` for an empty block, and the position just after the block.
    pub fn unpack(data: &[u8], pos: usize, end: usize) -> (r: Result<(Option<PubRelProperties>, usize), Error>)
        requires
            pos <= end <= data@.len(),
        ensures
            match r {
                Ok((p, q)) => spec_pub_rel_properties(region(data@, pos, end)) == Parsed::<
                    Option<PubRelPropertiesView>,
                >::Ok((pub_rel_properties_view(p), q - pos)) && pos <= q <= end,
                Err(e) => spec_pub_rel_properties(region(data@, pos, end)) == Parsed::<
                    Option<PubRelPropertiesView>,
                >::Err(e@),
            },
    {
        let (es, q) = read_block(data, pos, end, PropOwner::Ack)?;
        match es {
            Some(es) => Ok((Some(PubRelProperties::from_entries(es)), q)),
            None => Ok((None, q)),
        }
    }

    /// The entries these fields stand for, in the order they are written.
    pub open spec fn entries(&self) -> Seq<EntryView> {
        opt_text(Property::ReasonString, self.reason_string.deep_view())
            + pair_entries(self.user_property.deep_view())
    }

    fn to_entries(self) -> (r: Vec<Entry>)
        ensures
            entries_view(r@) == self.entries(),
    {
        let ghost me = self;
        let mut es: Vec<Entry> = Vec::new();
        let ghost mut acc: Seq<EntryView> = seq![];
        assert(entries_view(es@) =~= acc);
        let ghost prev = es@;
        push_opt_text(&mut es, Property::ReasonString, self.reason_string);
        proof {
            assert(entries_view(es@) =~= entries_view(prev) + opt_text(Property::ReasonString, me.reason_string.deep_view()));
            acc = acc + opt_text(Property::ReasonString, me.reason_string.deep_view());
        }
        let ghost prev = es@;
        push_pairs(&mut es, self.user_property);
        proof {
            assert(entries_view(es@) =~= entries_view(prev) + pair_entries(me.user_property.deep_view()));
            acc = acc + pair_entries(me.user_property.deep_view());
        }
        es
    }

    /// Appends the entries, without the block's length: fails with
    /// `PayloadTooLong` where a value does not fit its field.
    pub fn pack(self, out: &mut Vec<u8>) -> (r: Result<(), Error>)
        ensures
            entries_fit(self.entries()) ==> r is Ok && final(out)@ == old(out)@ + entries_bytes(
                self.entries(),
            ),
            !entries_fit(self.entries()) ==> r is Err && r->Err_0@ == ErrorView::PayloadTooLong,
    {
        let es = self.to_entries();
        write_entries(out, &es)
    }

}

/// The properties of a v5 PUBCOMP packet.
#[derive(Debug, Clone)]
pub struct PubCompProperties {
    pub reason_string: Option<String>,
    pub user_property: Vec<(String, String)>,
}

/// The mathematical value of a [`PubCompProperties`].
pub struct PubCompPropertiesView {
    pub reason_string: Option<Seq<char>>,
    pub user_property: Seq<(Seq<char>, Seq<char>)>,
}

impl View for PubCompProperties {
    type V = PubCompPropertiesView;

    open spec fn view(&self) -> PubCompPropertiesView {
        PubCompPropertiesView {
            reason_string: self.reason_string.deep_view(),
            user_property: self.user_property.deep_view(),
        }
    }
}

pub open spec fn pub_comp_properties_view(o: Option<PubCompProperties>) -> Option<PubCompPropertiesView> {
    match o {
        Some(p) => Some(p@),
        None => None,
    }
}

/// The fields that a list of decoded entries gives: for each single-valued
/// property the last entry, for the repeatable ones every entry in order.
pub open spec fn pub_comp_properties_of(es: Seq<EntryView>) -> PubCompPropertiesView {
    PubCompPropertiesView {
        reason_string: last_text(es, Property::ReasonString),
        user_property: all_pairs(es),
    }
}

/// A property block at the front of `s`, as these fields.
pub open spec fn spec_pub_comp_properties(s: Seq<u8>) -> Parsed<Option<PubCompPropertiesView>> {
    match spec_block(s, PropOwner::Ack) {
        Ok((Some(es), n)) => Ok((Some(pub_comp_properties_of(es)), n)),
        Ok((None, n)) => Ok((None, n)),
        Err(e) => Err(e),
    }
}

impl PubCompProperties {
    /// No property set.
    pub open spec fn spec_empty(&self) -> bool {
        self.reason_string is None && self.user_property@.len() == 0
    }

    pub fn new() -> (r: PubCompProperties)
        ensures
            r.spec_empty(),
    {
        PubCompProperties {
            reason_string: None,
            user_property: Vec::new(),
        }
    }

    fn from_entries(es: Vec<Entry>) -> (r: PubCompProperties)
        ensures
            r@ == pub_comp_properties_of(entries_view(es@)),
    {
        let ghost all = entries_view(es@);
        let mut prop = PubCompProperties::new();
        let mut rest = es;
        let ghost mut i: int = 0;
        assert(all.take(0) =~= Seq::<EntryView>::empty());
        assert(prop.user_property.deep_view() =~= seq![]);
        while rest.len() > 0
            invariant
                0 <= i <= all.len(),
                entries_view(rest@) == all.skip(i),
                prop@ == pub_comp_properties_of(all.take(i)),
            decreases rest@.len(),
        {
            let ghost before = rest@;
            assert(entries_view(before).len() == before.len());
            assert(all.skip(i)[0] == all[i]);
            assert(entries_view(before)[0] == all[i]);
            let (p, v) = rest.remove(0);
            let ghost e = (p, v@);
            assert(e == all[i]);
            let ghost old_prop = prop;
            match (p, v) {
                (Property::ReasonString, PropValue::Text(x)) => {
                    prop.reason_string = Some(x);
                },
                (Property::UserProperty, PropValue::Pair(key, value)) => {
                    prop.user_property.push((key, value));
                    assert(prop.user_property.deep_view() =~= old_prop.user_property.deep_view().push((e.1->Pair_0, e.1->Pair_1)));
                },
                _ => {},
            }
            proof {
                let t = all.take(i + 1);
                assert(t.drop_last() =~= all.take(i));
                assert(t.last() == e);
                lemma_entries_view_drop_first(before);
                assert(rest@ =~= before.drop_first());
                assert(all.skip(i + 1) =~= all.skip(i).drop_first());
                i = i + 1;
            }
        }
        assert(all.take(i) =~= all);
        prop
    }

    /// Decodes a property block starting at `pos`, read no further than `end`:
    /// `None` for an empty block, and the position just after the block.
    pub fn unpack(data: &[u8], pos: usize, end: usize) -> (r: Result<(Option<PubCompProperties>, usize), Error>)
        requires
            pos <= end <= data@.len(),
        ensures
            match r {
                Ok((p, q)) => spec_pub_comp_properties(region(data@, pos, end)) == Parsed::<
                    Option<PubCompPropertiesView>,
                >::Ok((pub_comp_properties_view(p), q - pos)) && pos <= q <= end,
                Err(e) => spec_pub_comp_properties(region(data@, pos, end)) == Parsed::<
                    Option<PubCompPropertiesView>,
                >::Err(e@),
            },
    {
        let (es, q) = read_block(data, pos, end, PropOwner::Ack)?;
        match es {
            Some(es) => Ok((Some(PubCompProperties::from_entries(es)), q)),
            None => Ok((None, q)),
        }
    }

    /// The entries these fields stand for, in the order they are written.
    pub open spec fn entries(&self) -> Seq<EntryView> {
        opt_text(Property::ReasonString, self.reason_string.deep_view())
            + pair_entries(self.user_property.deep_view())
    }

    fn to_entries(self) -> (r: Vec<Entry>)
        ensures
            entries_view(r@) == self.entries(),
    {
        let ghost me = self;
        let mut es: Vec<Entry> = Vec::new();
        let ghost mut acc: Seq<EntryView> = seq![];
        assert(entries_view(es@) =~= acc);
        let ghost prev = es@;
        push_opt_text(&mut es, Property::ReasonString, self.reason_string);
        proof {
            assert(entries_view(es@) =~= entries_view(prev) + opt_text(Property::ReasonString, me.reason_string.deep_view()));
            acc = acc + opt_text(Property::ReasonString, me.reason_string.deep_view());
        }
        let ghost prev = es@;
        push_pairs(&mut es, self.user_property);
        proof {
            assert(entries_view(es@) =~= entries_view(prev) + pair_entries(me.user_property.deep_view()));
            acc = acc + pair_entries(me.user_property.deep_view());
        }
        es
    }

    /// Appends the entries, without the block's length: fails with
    /// `PayloadTooLong` where a value does not fit its field.
    pub fn pack(self, out: &mut Vec<u8>) -> (r: Result<(), Error>)
        ensures
            entries_fit(self.entries()) ==> r is Ok && final(out)@ == old(out)@ + entries_bytes(
                self.entries(),
            ),
            !entries_fit(self.entries()) ==> r is Err && r->Err_0@ == ErrorView::PayloadTooLong,
    {
        let es = self.to_entries();
        write_entries(out, &es)
    }

}

/// Whether an acknowledgement carries its reason code and property block: only
/// in v5, and, where `short` allows leaving them out, not for a `Success` with no
/// property.
pub open spec fn ack_tail(rc: ReasonCode, es: Seq<EntryView>, version: Version, short: bool) -> bool {
    version == Version::V5 && (!short || rc != ReasonCode::Success || es.len() > 0)
}

/// The body of PUBACK, PUBREC, PUBREL and PUBCOMP.
pub open spec fn ack_body(
    packet_id: u16,
    rc: ReasonCode,
    es: Seq<EntryView>,
    version: Version,
    short: bool,
) -> Seq<u8> {
    if ack_tail(rc, es, version, short) {
        u16_bytes(packet_id) + seq![rc.spec_byte()] + block_bytes(es)
    } else {
        u16_bytes(packet_id)
    }
}

/// Whether an acknowledgement can be written: its property block fits where it
/// is written, and so does the body.
pub open spec fn ack_fits(
    packet_id: u16,
    rc: ReasonCode,
    es: Seq<EntryView>,
    version: Version,
    short: bool,
) -> bool {
    (ack_tail(rc, es, version, short) ==> block_fits(es)) && ack_body(
        packet_id,
        rc,
        es,
        version,
        short,
    ).len() <= MAX_REMAINING_LENGTH
}

fn write_ack(
    out: &mut Vec<u8>,
    first: u8,
    packet_id: u16,
    rc: ReasonCode,
    es: Vec<Entry>,
    version: Version,
    short: bool,
) -> (r: Result<(), Error>)
    ensures
        ack_fits(packet_id, rc, entries_view(es@), version, short) ==> r is Ok && final(out)@
            == old(out)@ + frame_bytes(
            first,
            ack_body(packet_id, rc, entries_view(es@), version, short),
        ),
        !ack_fits(packet_id, rc, entries_view(es@), version, short) ==> r is Err && r->Err_0@
            == ErrorView::PayloadTooLong,
{
    let ghost ev = entries_view(es@);
    let mut body: Vec<u8> = Vec::new();
    crate::codec::put_u16(&mut body, packet_id);
    if version == Version::V5 && (!short || rc != ReasonCode::Success || es.len() > 0) {
        body.push(rc.byte());
        write_block(&mut body, &es)?;
    }
    assert(body@ =~= ack_body(packet_id, rc, ev, version, short));
    write_frame(out, first, body.as_slice())
}

/// PUBACK: the answer to a QoS 1 PUBLISH.
#[derive(Debug, Clone)]
pub struct PubAck {
    pub packet_id: u16,
    pub reason_code: ReasonCode,
    pub properties: Option<PubAckProperties>,
}

impl PubAck {
    pub fn new() -> (r: PubAck)
        ensures
            r.packet_id == 0,
            r.reason_code == ReasonCode::Success,
            r.properties is None,
    {
        PubAck { packet_id: 0, reason_code: ReasonCode::Success, properties: None }
    }

    /// The property entries this packet carries.
    pub open spec fn prop_entries(&self) -> Seq<EntryView> {
        match self.properties {
            Some(p) => p.entries(),
            None => seq![],
        }
    }

    /// Appends the whole packet; fails with `PayloadTooLong` where a field does
    /// not fit.
    pub fn write(self, out: &mut Vec<u8>, version: Version) -> (r: Result<(), Error>)
        ensures
            ack_fits(self.packet_id, self.reason_code, self.prop_entries(), version, true) ==> r is Ok
                && final(out)@ == old(out)@ + frame_bytes(
                0x40,
                ack_body(self.packet_id, self.reason_code, self.prop_entries(), version, true),
            ),
            !ack_fits(self.packet_id, self.reason_code, self.prop_entries(), version, true) ==> r is Err
                && r->Err_0@ == ErrorView::PayloadTooLong,
    {
        let es = match self.properties {
            Some(p) => p.to_entries(),
            None => Vec::new(),
        };
        assert(entries_view(es@) =~= self.prop_entries());
        write_ack(out, 0x40, self.packet_id, self.reason_code, es, version, true)
    }
}

/// PUBREC: the first answer to a QoS 2 PUBLISH.
#[derive(Debug, Clone)]
pub struct PubRec {
    pub packet_id: u16,
    pub reason_code: ReasonCode,
    pub properties: Option<PubRecProperties>,
}

impl PubRec {
    pub fn new() -> (r: PubRec)
        ensures
            r.packet_id == 0,
            r.reason_code == ReasonCode::Success,
            r.properties is None,
    {
        PubRec { packet_id: 0, reason_code: ReasonCode::Success, properties: None }
    }

    /// The property entries this packet carries.
    pub open spec fn prop_entries(&self) -> Seq<EntryView> {
        match self.properties {
            Some(p) => p.entries(),
            None => seq![],
        }
    }

    /// Appends the whole packet; fails with `PayloadTooLong` where a field does
    /// not fit.
    pub fn pack(self, out: &mut Vec<u8>, version: Version) -> (r: Result<(), Error>)
        ensures
            ack_fits(self.packet_id, self.reason_code, self.prop_entries(), version, true) ==> r is Ok
                && final(out)@ == old(out)@ + frame_bytes(
                0x50,
                ack_body(self.packet_id, self.reason_code, self.prop_entries(), version, true),
            ),
            !ack_fits(self.packet_id, self.reason_code, self.prop_entries(), version, true) ==> r is Err
                && r->Err_0@ == ErrorView::PayloadTooLong,
    {
        let es = match self.properties {
            Some(p) => p.to_entries(),
            None => Vec::new(),
        };
        assert(entries_view(es@) =~= self.prop_entries());
        write_ack(out, 0x50, self.packet_id, self.reason_code, es, version, true)
    }
}

/// PUBREL: the release of a QoS 2 PUBLISH.
#[derive(Debug, Clone)]
pub struct PubRel {
    pub packet_id: u16,
    pub reason_code: ReasonCode,
    pub properties: Option<PubRelProperties>,
}

impl PubRel {
    pub fn new() -> (r: PubRel)
        ensures
            r.packet_id == 0,
            r.reason_code == ReasonCode::Success,
            r.properties is None,
    {
        PubRel { packet_id: 0, reason_code: ReasonCode::Success, properties: None }
    }

    /// The property entries this packet carries.
    pub open spec fn prop_entries(&self) -> Seq<EntryView> {
        match self.properties {
            Some(p) => p.entries(),
            None => seq![],
        }
    }

    /// Appends the whole packet; fails with `PayloadTooLong` where a field does
    /// not fit.
    pub fn pack(self, out: &mut Vec<u8>, version: Version) -> (r: Result<(), Error>)
        ensures
            ack_fits(self.packet_id, self.reason_code, self.prop_entries(), version, false) ==> r is Ok
                && final(out)@ == old(out)@ + frame_bytes(
                0x62,
                ack_body(self.packet_id, self.reason_code, self.prop_entries(), version, false),
            ),
            !ack_fits(self.packet_id, self.reason_code, self.prop_entries(), version, false) ==> r is Err
                && r->Err_0@ == ErrorView::PayloadTooLong,
    {
        let es = match self.properties {
            Some(p) => p.to_entries(),
            None => Vec::new(),
        };
        assert(entries_view(es@) =~= self.prop_entries());
        write_ack(out, 0x62, self.packet_id, self.reason_code, es, version, false)
    }
}

/// PUBCOMP: the answer to a PUBREL.
#[derive(Debug, Clone)]
pub struct PubComp {
    pub packet_id: u16,
    pub reason_code: ReasonCode,
    pub properties: Option<PubCompProperties>,
}

impl PubComp {
    pub fn new() -> (r: PubComp)
        ensures
            r.packet_id == 0,
            r.reason_code == ReasonCode::Success,
            r.properties is None,
    {
        PubComp { packet_id: 0, reason_code: ReasonCode::Success, properties: None }
    }

    /// The property entries this packet carries.
    pub open spec fn prop_entries(&self) -> Seq<EntryView> {
        match self.properties {
            Some(p) => p.entries(),
            None => seq![],
        }
    }

    /// Appends the whole packet; fails with `PayloadTooLong` where a field does
    /// not fit.
    pub fn pack(self, out: &mut Vec<u8>, version: Version) -> (r: Result<(), Error>)
        ensures
            ack_fits(self.packet_id, self.reason_code, self.prop_entries(), version, true) ==> r is Ok
                && final(out)@ == old(out)@ + frame_bytes(
                0x70,
                ack_body(self.packet_id, self.reason_code, self.prop_entries(), version, true),
            ),
            !ack_fits(self.packet_id, self.reason_code, self.prop_entries(), version, true) ==> r is Err
                && r->Err_0@ == ErrorView::PayloadTooLong,
    {
        let es = match self.properties {
            Some(p) => p.to_entries(),
            None => Vec::new(),
        };
        assert(entries_view(es@) =~= self.prop_entries());
        write_ack(out, 0x70, self.packet_id, self.reason_code, es, version, true)
    }
}

/// The mathematical value of a [`PubRel`].
pub struct PubRelView {
    pub packet_id: u16,
    pub reason_code: ReasonCode,
    pub properties: Option<PubRelPropertiesView>,
}

impl View for PubRel {
    type V = PubRelView;

    open spec fn view(&self) -> PubRelView {
        PubRelView {
            packet_id: self.packet_id,
            reason_code: self.reason_code,
            properties: pub_rel_properties_view(self.properties),
        }
    }
}

/// A PUBREL body: the packet identifier; then, in v5 and where the body goes
/// on, the reason code; then, where it still goes on, the property block.
/// Anything after that is not read.
pub open spec fn spec_pub_rel(s: Seq<u8>, version: Version) -> Result<PubRelView, ErrorView> {
    match spec_u16(s) {
        Err(e) => Err(e),
        Ok((id, _)) => if s.len() == 2 || version != Version::V5 {
            Ok(PubRelView { packet_id: id, reason_code: ReasonCode::Success, properties: None })
        } else {
            match ReasonCode::spec_from_byte(s[2]) {
                None => Err(ErrorView::InvalidReasonCode(s[2])),
                Some(rc) => if s.len() == 3 {
                    Ok(PubRelView { packet_id: id, reason_code: rc, properties: None })
                } else {
                    match spec_pub_rel_properties(s.skip(3)) {
                        Ok((p, _)) => Ok(PubRelView { packet_id: id, reason_code: rc, properties: p }),
                        Err(e) => Err(e),
                    }
                },
            }
        },
    }
}

impl PubRel {
    /// Decodes a PUBREL body.
    pub fn unpack(read: &[u8], version: Version) -> (r: Result<PubRel, Error>)
        ensures
            result_view(r) == spec_pub_rel(read@, version),
    {
        let end = read.len();
        assert(region(read@, 0, end) =~= read@);
        let (packet_id, p) = get_u16(read, 0, end)?;
        let mut pubrel = PubRel::new();
        pubrel.packet_id = packet_id;
        if p == end || version != Version::V5 {
            return Ok(pubrel);
        }
        let (b, p) = get_u8(read, p, end)?;
        match ReasonCode::from_byte(b) {
            Some(rc) => pubrel.reason_code = rc,
            None => return Err(Error::InvalidReasonCode(b)),
        }
        if p == end {
            return Ok(pubrel);
        }
        assert(region(read@, p, end) =~= read@.skip(3));
        let (props, _) = PubRelProperties::unpack(read, p, end)?;
        pubrel.properties = props;
        Ok(pubrel)
    }
}

/// The fields of PUBREL properties decode back from the entries they are
/// written as.
pub proof fn lemma_pub_rel_properties_round_trip(p: PubRelProperties)
    ensures
        pub_rel_properties_of(p.entries()) == p@,
        forall|i: int| 0 <= i < p.entries().len() ==> shaped(#[trigger] p.entries()[i])
            && PropOwner::Ack.spec_permits(p.entries()[i].0),
{
    let ups = p.user_property.deep_view();
    let a = opt_text(Property::ReasonString, p.reason_string.deep_view());
    let b = pair_entries(ups);
    reveal_with_fuel(last_text, 2);
    reveal_with_fuel(all_pairs, 2);
    lemma_last_text_append(a, b, Property::ReasonString);
    lemma_last_text_of_pairs(ups, Property::ReasonString);
    lemma_all_pairs_append(a, b);
    lemma_all_pairs_of_pairs(ups);
    assert(all_pairs(a) =~= seq![]);
    assert(all_pairs(a) + ups =~= ups);
    lemma_pair_entries_shaped(ups);
    assert forall|i: int| 0 <= i < p.entries().len() implies shaped(#[trigger] p.entries()[i])
        && PropOwner::Ack.spec_permits(p.entries()[i].0) by {
        if i >= a.len() {
            assert(p.entries()[i] == b[i - a.len()]);
        }
    }
}

/// A PUBREL decodes back from its v5 body. Properties that are set but hold no
/// entry are written as an empty block, which decodes as no properties; they
/// are left out.
pub proof fn lemma_pub_rel_round_trip(p: PubRel)
    requires
        ack_fits(p.packet_id, p.reason_code, p.prop_entries(), Version::V5, false),
        p.properties matches Some(q) ==> q.entries().len() > 0,
    ensures
        spec_pub_rel(
            ack_body(p.packet_id, p.reason_code, p.prop_entries(), Version::V5, false),
            Version::V5,
        ) == Ok::<PubRelView, ErrorView>(p@),
{
    let es = p.prop_entries();
    let blk = block_bytes(es);
    let s = ack_body(p.packet_id, p.reason_code, es, Version::V5, false);
    if !ack_tail(p.reason_code, es, Version::V5, false) {
        lemma_u16_round_trip(p.packet_id, seq![]);
        assert(s =~= u16_bytes(p.packet_id) + seq![]);
    } else {
        assert(s =~= u16_bytes(p.packet_id) + (seq![p.reason_code.spec_byte()] + blk));
        lemma_u16_round_trip(p.packet_id, seq![p.reason_code.spec_byte()] + blk);
        crate::kinds::lemma_reasoncode_byte_round_trip(p.reason_code);
        assert(s[2] == p.reason_code.spec_byte());
        assert(s.skip(3) =~= blk + seq![]);
        if let Some(q) = p.properties {
            lemma_pub_rel_properties_round_trip(q);
        }
        assert(forall|i: int| 0 <= i < es.len() ==> shaped(#[trigger] es[i])
            && PropOwner::Ack.spec_permits(es[i].0));
        lemma_block_round_trip(es, PropOwner::Ack, seq![]);
        assert(blk.len() >= 1);
    }
}

/// Encoding the PUBREL that its v5 bytes decode to gives those bytes back.
pub proof fn lemma_pub_rel_bytes_round_trip(p: PubRel, r: PubRel)
    requires
        ack_fits(p.packet_id, p.reason_code, p.prop_entries(), Version::V5, false),
        p.properties matches Some(q) ==> q.entries().len() > 0,
        spec_pub_rel(
            ack_body(p.packet_id, p.reason_code, p.prop_entries(), Version::V5, false),
            Version::V5,
        ) == Ok::<PubRelView, ErrorView>(r@),
    ensures
        ack_body(r.packet_id, r.reason_code, r.prop_entries(), Version::V5, false) == ack_body(
            p.packet_id,
            p.reason_code,
            p.prop_entries(),
            Version::V5,
            false,
        ),
{
    lemma_pub_rel_round_trip(p);
    if let (Some(a), Some(b)) = (r.properties, p.properties) {
        assert(a@ == b@);
        assert(a.entries() == b.entries());
    }
}


/// The mathematical value of a [`PubAck`].
pub struct PubAckView {
    pub packet_id: u16,
    pub reason_code: ReasonCode,
    pub properties: Option<PubAckPropertiesView>,
}

impl View for PubAck {
    type V = PubAckView;

    open spec fn view(&self) -> PubAckView {
        PubAckView {
            packet_id: self.packet_id,
            reason_code: self.reason_code,
            properties: pub_ack_properties_view(self.properties),
        }
    }
}

/// A PUBACK body: the packet identifier; then, in v5 and where the body goes
/// on, the reason code; then, where it still goes on, the property block.
/// Anything after that is not read.
pub open spec fn spec_pub_ack(s: Seq<u8>, version: Version) -> Result<PubAckView, ErrorView> {
    match spec_u16(s) {
        Err(e) => Err(e),
        Ok((id, _)) => if s.len() == 2 || version != Version::V5 {
            Ok(PubAckView { packet_id: id, reason_code: ReasonCode::Success, properties: None })
        } else {
            match ReasonCode::spec_from_byte(s[2]) {
                None => Err(ErrorView::InvalidReasonCode(s[2])),
                Some(rc) => if s.len() == 3 {
                    Ok(PubAckView { packet_id: id, reason_code: rc, properties: None })
                } else {
                    match spec_pub_ack_properties(s.skip(3)) {
                        Ok((p, _)) => Ok(PubAckView { packet_id: id, reason_code: rc, properties: p }),
                        Err(e) => Err(e),
                    }
                },
            }
        },
    }
}

impl PubAck {
    /// Decodes a PUBACK body.
    pub fn unpack(read: &[u8], version: Version) -> (r: Result<PubAck, Error>)
        ensures
            result_view(r) == spec_pub_ack(read@, version),
    {
        let end = read.len();
        assert(region(read@, 0, end) =~= read@);
        let (packet_id, p) = get_u16(read, 0, end)?;
        let mut pubrel = PubAck::new();
        pubrel.packet_id = packet_id;
        if p == end || version != Version::V5 {
            return Ok(pubrel);
        }
        let (b, p) = get_u8(read, p, end)?;
        match ReasonCode::from_byte(b) {
            Some(rc) => pubrel.reason_code = rc,
            None => return Err(Error::InvalidReasonCode(b)),
        }
        if p == end {
            return Ok(pubrel);
        }
        assert(region(read@, p, end) =~= read@.skip(3));
        let (props, _) = PubAckProperties::unpack(read, p, end)?;
        pubrel.properties = props;
        Ok(pubrel)
    }
}

/// The fields of PUBACK properties decode back from the entries they are
/// written as.
pub proof fn lemma_pub_ack_properties_round_trip(p: PubAckProperties)
    ensures
        pub_ack_properties_of(p.entries()) == p@,
        forall|i: int| 0 <= i < p.entries().len() ==> shaped(#[trigger] p.entries()[i])
            && PropOwner::Ack.spec_permits(p.entries()[i].0),
{
    let ups = p.user_property.deep_view();
    let a = opt_text(Property::ReasonString, p.reason_string.deep_view());
    let b = pair_entries(ups);
    reveal_with_fuel(last_text, 2);
    reveal_with_fuel(all_pairs, 2);
    lemma_last_text_append(a, b, Property::ReasonString);
    lemma_last_text_of_pairs(ups, Property::ReasonString);
    lemma_all_pairs_append(a, b);
    lemma_all_pairs_of_pairs(ups);
    assert(all_pairs(a) =~= seq![]);
    assert(all_pairs(a) + ups =~= ups);
    lemma_pair_entries_shaped(ups);
    assert forall|i: int| 0 <= i < p.entries().len() implies shaped(#[trigger] p.entries()[i])
        && PropOwner::Ack.spec_permits(p.entries()[i].0) by {
        if i >= a.len() {
            assert(p.entries()[i] == b[i - a.len()]);
        }
    }
}

/// A PUBACK decodes back from its v5 body. Properties that are set but hold no
/// entry are written as an empty block, which decodes as no properties; they
/// are left out.
pub proof fn lemma_pub_ack_round_trip(p: PubAck)
    requires
        ack_fits(p.packet_id, p.reason_code, p.prop_entries(), Version::V5, true),
        p.properties matches Some(q) ==> q.entries().len() > 0,
    ensures
        spec_pub_ack(
            ack_body(p.packet_id, p.reason_code, p.prop_entries(), Version::V5, true),
            Version::V5,
        ) == Ok::<PubAckView, ErrorView>(p@),
{
    let es = p.prop_entries();
    let blk = block_bytes(es);
    let s = ack_body(p.packet_id, p.reason_code, es, Version::V5, true);
    if !ack_tail(p.reason_code, es, Version::V5, true) {
        lemma_u16_round_trip(p.packet_id, seq![]);
        assert(s =~= u16_bytes(p.packet_id) + seq![]);
    } else {
        assert(s =~= u16_bytes(p.packet_id) + (seq![p.reason_code.spec_byte()] + blk));
        lemma_u16_round_trip(p.packet_id, seq![p.reason_code.spec_byte()] + blk);
        crate::kinds::lemma_reasoncode_byte_round_trip(p.reason_code);
        assert(s[2] == p.reason_code.spec_byte());
        assert(s.skip(3) =~= blk + seq![]);
        if let Some(q) = p.properties {
            lemma_pub_ack_properties_round_trip(q);
        }
        assert(forall|i: int| 0 <= i < es.len() ==> shaped(#[trigger] es[i])
            && PropOwner::Ack.spec_permits(es[i].0));
        lemma_block_round_trip(es, PropOwner::Ack, seq![]);
        assert(blk.len() >= 1);
    }
}

/// Encoding the PUBACK that its v5 bytes decode to gives those bytes back.
pub proof fn lemma_pub_ack_bytes_round_trip(p: PubAck, r: PubAck)
    requires
        ack_fits(p.packet_id, p.reason_code, p.prop_entries(), Version::V5, true),
        p.properties matches Some(q) ==> q.entries().len() > 0,
        spec_pub_ack(
            ack_body(p.packet_id, p.reason_code, p.prop_entries(), Version::V5, true),
            Version::V5,
        ) == Ok::<PubAckView, ErrorView>(r@),
    ensures
        ack_body(r.packet_id, r.reason_code, r.prop_entries(), Version::V5, true) == ack_body(
            p.packet_id,
            p.reason_code,
            p.prop_entries(),
            Version::V5,
            true,
        ),
{
    lemma_pub_ack_round_trip(p);
    if let (Some(a), Some(b)) = (r.properties, p.properties) {
        assert(a@ == b@);
        assert(a.entries() == b.entries());
    }
}


/// The mathematical value of a [`PubRec`].
pub struct PubRecView {
    pub packet_id: u16,
    pub reason_code: ReasonCode,
    pub properties: Option<PubRecPropertiesView>,
}

impl View for PubRec {
    type V = PubRecView;

    open spec fn view(&self) -> PubRecView {
        PubRecView {
            packet_id: self.packet_id,
            reason_code: self.reason_code,
            properties: pub_rec_properties_view(self.properties),
        }
    }
}

/// A PUBREC body: the packet identifier; then, in v5 and where the body goes
/// on, the reason code; then, where it still goes on, the property block.
/// Anything after that is not read.
pub open spec fn spec_pub_rec(s: Seq<u8>, version: Version) -> Result<PubRecView, ErrorView> {
    match spec_u16(s) {
        Err(e) => Err(e),
        Ok((id, _)) => if s.len() == 2 || version != Version::V5 {
            Ok(PubRecView { packet_id: id, reason_code: ReasonCode::Success, properties: None })
        } else {
            match ReasonCode::spec_from_byte(s[2]) {
                None => Err(ErrorView::InvalidReasonCode(s[2])),
                Some(rc) => if s.len() == 3 {
                    Ok(PubRecView { packet_id: id, reason_code: rc, properties: None })
                } else {
                    match spec_pub_rec_properties(s.skip(3)) {
                        Ok((p, _)) => Ok(PubRecView { packet_id: id, reason_code: rc, properties: p }),
                        Err(e) => Err(e),
                    }
                },
            }
        },
    }
}

impl PubRec {
    /// Decodes a PUBREC body.
    pub fn unpack(read: &[u8], version: Version) -> (r: Result<PubRec, Error>)
        ensures
            result_view(r) == spec_pub_rec(read@, version),
    {
        let end = read.len();
        assert(region(read@, 0, end) =~= read@);
        let (packet_id, p) = get_u16(read, 0, end)?;
        let mut pubrel = PubRec::new();
        pubrel.packet_id = packet_id;
        if p == end || version != Version::V5 {
            return Ok(pubrel);
        }
        let (b, p) = get_u8(read, p, end)?;
        match ReasonCode::from_byte(b) {
            Some(rc) => pubrel.reason_code = rc,
            None => return Err(Error::InvalidReasonCode(b)),
        }
        if p == end {
            return Ok(pubrel);
        }
        assert(region(read@, p, end) =~= read@.skip(3));
        let (props, _) = PubRecProperties::unpack(read, p, end)?;
        pubrel.properties = props;
        Ok(pubrel)
    }
}

/// The fields of PUBREC properties decode back from the entries they are
/// written as.
pub proof fn lemma_pub_rec_properties_round_trip(p: PubRecProperties)
    ensures
        pub_rec_properties_of(p.entries()) == p@,
        forall|i: int| 0 <= i < p.entries().len() ==> shaped(#[trigger] p.entries()[i])
            && PropOwner::Ack.spec_permits(p.entries()[i].0),
{
    let ups = p.user_property.deep_view();
    let a = opt_text(Property::ReasonString, p.reason_string.deep_view());
    let b = pair_entries(ups);
    reveal_with_fuel(last_text, 2);
    reveal_with_fuel(all_pairs, 2);
    lemma_last_text_append(a, b, Property::ReasonString);
    lemma_last_text_of_pairs(ups, Property::ReasonString);
    lemma_all_pairs_append(a, b);
    lemma_all_pairs_of_pairs(ups);
    assert(all_pairs(a) =~= seq![]);
    assert(all_pairs(a) + ups =~= ups);
    lemma_pair_entries_shaped(ups);
    assert forall|i: int| 0 <= i < p.entries().len() implies shaped(#[trigger] p.entries()[i])
        && PropOwner::Ack.spec_permits(p.entries()[i].0) by {
        if i >= a.len() {
            assert(p.entries()[i] == b[i - a.len()]);
        }
    }
}

/// A PUBREC decodes back from its v5 body. Properties that are set but hold no
/// entry are written as an empty block, which decodes as no properties; they
/// are left out.
pub proof fn lemma_pub_rec_round_trip(p: PubRec)
    requires
        ack_fits(p.packet_id, p.reason_code, p.prop_entries(), Version::V5, true),
        p.properties matches Some(q) ==> q.entries().len() > 0,
    ensures
        spec_pub_rec(
            ack_body(p.packet_id, p.reason_code, p.prop_entries(), Version::V5, true),
            Version::V5,
        ) == Ok::<PubRecView, ErrorView>(p@),
{
    let es = p.prop_entries();
    let blk = block_bytes(es);
    let s = ack_body(p.packet_id, p.reason_code, es, Version::V5, true);
    if !ack_tail(p.reason_code, es, Version::V5, true) {
        lemma_u16_round_trip(p.packet_id, seq![]);
        assert(s =~= u16_bytes(p.packet_id) + seq![]);
    } else {
        assert(s =~= u16_bytes(p.packet_id) + (seq![p.reason_code.spec_byte()] + blk));
        lemma_u16_round_trip(p.packet_id, seq![p.reason_code.spec_byte()] + blk);
        crate::kinds::lemma_reasoncode_byte_round_trip(p.reason_code);
        assert(s[2] == p.reason_code.spec_byte());
        assert(s.skip(3) =~= blk + seq![]);
        if let Some(q) = p.properties {
            lemma_pub_rec_properties_round_trip(q);
        }
        assert(forall|i: int| 0 <= i < es.len() ==> shaped(#[trigger] es[i])
            && PropOwner::Ack.spec_permits(es[i].0));
        lemma_block_round_trip(es, PropOwner::Ack, seq![]);
        assert(blk.len() >= 1);
    }
}

/// Encoding the PUBREC that its v5 bytes decode to gives those bytes back.
pub proof fn lemma_pub_rec_bytes_round_trip(p: PubRec, r: PubRec)
    requires
        ack_fits(p.packet_id, p.reason_code, p.prop_entries(), Version::V5, true),
        p.properties matches Some(q) ==> q.entries().len() > 0,
        spec_pub_rec(
            ack_body(p.packet_id, p.reason_code, p.prop_entries(), Version::V5, true),
            Version::V5,
        ) == Ok::<PubRecView, ErrorView>(r@),
    ensures
        ack_body(r.packet_id, r.reason_code, r.prop_entries(), Version::V5, true) == ack_body(
            p.packet_id,
            p.reason_code,
            p.prop_entries(),
            Version::V5,
            true,
        ),
{
    lemma_pub_rec_round_trip(p);
    if let (Some(a), Some(b)) = (r.properties, p.properties) {
        assert(a@ == b@);
        assert(a.entries() == b.entries());
    }
}


/// The mathematical value of a [`PubComp`].
pub struct PubCompView {
    pub packet_id: u16,
    pub reason_code: ReasonCode,
    pub properties: Option<PubCompPropertiesView>,
}

impl View for PubComp {
    type V = PubCompView;

    open spec fn view(&self) -> PubCompView {
        PubCompView {
            packet_id: self.packet_id,
            reason_code: self.reason_code,
            properties: pub_comp_properties_view(self.properties),
        }
    }
}

/// A PUBCOMP body: the packet identifier; then, in v5 and where the body goes
/// on, the reason code; then, where it still goes on, the property block.
/// Anything after that is not read.
pub open spec fn spec_pub_comp(s: Seq<u8>, version: Version) -> Result<PubCompView, ErrorView> {
    match spec_u16(s) {
        Err(e) => Err(e),
        Ok((id, _)) => if s.len() == 2 || version != Version::V5 {
            Ok(PubCompView { packet_id: id, reason_code: ReasonCode::Success, properties: None })
        } else {
            match ReasonCode::spec_from_byte(s[2]) {
                None => Err(ErrorView::InvalidReasonCode(s[2])),
                Some(rc) => if s.len() == 3 {
                    Ok(PubCompView { packet_id: id, reason_code: rc, properties: None })
                } else {
                    match spec_pub_comp_properties(s.skip(3)) {
                        Ok((p, _)) => Ok(PubCompView { packet_id: id, reason_code: rc, properties: p }),
                        Err(e) => Err(e),
                    }
                },
            }
        },
    }
}

impl PubComp {
    /// Decodes a PUBCOMP body.
    pub fn unpack(read: &[u8], version: Version) -> (r: Result<PubComp, Error>)
        ensures
            result_view(r) == spec_pub_comp(read@, version),
    {
        let end = read.len();
        assert(region(read@, 0, end) =~= read@);
        let (packet_id, p) = get_u16(read, 0, end)?;
        let mut pubrel = PubComp::new();
        pubrel.packet_id = packet_id;
        if p == end || version != Version::V5 {
            return Ok(pubrel);
        }
        let (b, p) = get_u8(read, p, end)?;
        match ReasonCode::from_byte(b) {
            Some(rc) => pubrel.reason_code = rc,
            None => return Err(Error::InvalidReasonCode(b)),
        }
        if p == end {
            return Ok(pubrel);
        }
        assert(region(read@, p, end) =~= read@.skip(3));
        let (props, _) = PubCompProperties::unpack(read, p, end)?;
        pubrel.properties = props;
        Ok(pubrel)
    }
}

/// The fields of PUBCOMP properties decode back from the entries they are
/// written as.
pub proof fn lemma_pub_comp_properties_round_trip(p: PubCompProperties)
    ensures
        pub_comp_properties_of(p.entries()) == p@,
        forall|i: int| 0 <= i < p.entries().len() ==> shaped(#[trigger] p.entries()[i])
            && PropOwner::Ack.spec_permits(p.entries()[i].0),
{
    let ups = p.user_property.deep_view();
    let a = opt_text(Property::ReasonString, p.reason_string.deep_view());
    let b = pair_entries(ups);
    reveal_with_fuel(last_text, 2);
    reveal_with_fuel(all_pairs, 2);
    lemma_last_text_append(a, b, Property::ReasonString);
    lemma_last_text_of_pairs(ups, Property::ReasonString);
    lemma_all_pairs_append(a, b);
    lemma_all_pairs_of_pairs(ups);
    assert(all_pairs(a) =~= seq![]);
    assert(all_pairs(a) + ups =~= ups);
    lemma_pair_entries_shaped(ups);
    assert forall|i: int| 0 <= i < p.entries().len() implies shaped(#[trigger] p.entries()[i])
        && PropOwner::Ack.spec_permits(p.entries()[i].0) by {
        if i >= a.len() {
            assert(p.entries()[i] == b[i - a.len()]);
        }
    }
}

/// A PUBCOMP decodes back from its v5 body. Properties that are set but hold no
/// entry are written as an empty block, which decodes as no properties; they
/// are left out.
pub proof fn lemma_pub_comp_round_trip(p: PubComp)
    requires
        ack_fits(p.packet_id, p.reason_code, p.prop_entries(), Version::V5, true),
        p.properties matches Some(q) ==> q.entries().len() > 0,
    ensures
        spec_pub_comp(
            ack_body(p.packet_id, p.reason_code, p.prop_entries(), Version::V5, true),
            Version::V5,
        ) == Ok::<PubCompView, ErrorView>(p@),
{
    let es = p.prop_entries();
    let blk = block_bytes(es);
    let s = ack_body(p.packet_id, p.reason_code, es, Version::V5, true);
    if !ack_tail(p.reason_code, es, Version::V5, true) {
        lemma_u16_round_trip(p.packet_id, seq![]);
        assert(s =~= u16_bytes(p.packet_id) + seq![]);
    } else {
        assert(s =~= u16_bytes(p.packet_id) + (seq![p.reason_code.spec_byte()] + blk));
        lemma_u16_round_trip(p.packet_id, seq![p.reason_code.spec_byte()] + blk);
        crate::kinds::lemma_reasoncode_byte_round_trip(p.reason_code);
        assert(s[2] == p.reason_code.spec_byte());
        assert(s.skip(3) =~= blk + seq![]);
        if let Some(q) = p.properties {
            lemma_pub_comp_properties_round_trip(q);
        }
        assert(forall|i: int| 0 <= i < es.len() ==> shaped(#[trigger] es[i])
            && PropOwner::Ack.spec_permits(es[i].0));
        lemma_block_round_trip(es, PropOwner::Ack, seq![]);
        assert(blk.len() >= 1);
    }
}

/// Encoding the PUBCOMP that its v5 bytes decode to gives those bytes back.
pub proof fn lemma_pub_comp_bytes_round_trip(p: PubComp, r: PubComp)
    requires
        ack_fits(p.packet_id, p.reason_code, p.prop_entries(), Version::V5, true),
        p.properties matches Some(q) ==> q.entries().len() > 0,
        spec_pub_comp(
            ack_body(p.packet_id, p.reason_code, p.prop_entries(), Version::V5, true),
            Version::V5,
        ) == Ok::<PubCompView, ErrorView>(r@),
    ensures
        ack_body(r.packet_id, r.reason_code, r.prop_entries(), Version::V5, true) == ack_body(
            p.packet_id,
            p.reason_code,
            p.prop_entries(),
            Version::V5,
            true,
        ),
{
    lemma_pub_comp_round_trip(p);
    if let (Some(a), Some(b)) = (r.properties, p.properties) {
        assert(a@ == b@);
        assert(a.entries() == b.entries());
    }
}

} // verus!
