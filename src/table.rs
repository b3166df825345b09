//! The parse result: a table of tags keyed by name, where a later entry
//! replaces an earlier one of the same name.
use vstd::prelude::*;
use crate::nic_tag::{NicTag, NicTagView};

verus! {

broadcast use vstd::set::group_set_axioms;

/// Tags keyed by their names.
pub struct TagTable {
    tags: Vec<NicTag>,
    model: Ghost<Map<Seq<char>, NicTagView>>,
}

impl View for TagTable {
    type V = Map<Seq<char>, NicTagView>;

    closed spec fn view(&self) -> Map<Seq<char>, NicTagView> {
        self.model@
    }
}

impl TagTable {
    /// The stored records, one per key, in no particular order.
    pub closed spec fn entries_spec(&self) -> Seq<NicTagView> {
        self.tags@.map_values(|t: NicTag| t@)
    }

    /// Well-formedness: the records have distinct names, each is the value of
    /// its own name in the map, and every key of the map has a record.
    pub closed spec fn wf(&self) -> bool {
        let es = self.entries_spec();
        &&& self.model@.dom().finite()
        &&& self.model@.dom().len() == es.len()
        &&& forall|i: int, j: int|
            0 <= i < j < es.len() ==> (#[trigger] es[i]).name != (#[trigger] es[j]).name
        &&& forall|i: int|
            0 <= i < es.len() ==> self.model@.contains_key((#[trigger] es[i]).name)
                && self.model@[es[i].name] == es[i]
        &&& forall|k: Seq<char>|
            #[trigger] self.model@.contains_key(k) ==> exists|i: int|
                0 <= i < es.len() && (#[trigger] es[i]).name == k
    }

    /// Every key of the map has a record, every record is the value of its
    /// name, and there are exactly as many records as keys.
    pub proof fn lemma_entries(&self)
        requires
            self.wf(),
        ensures
            self.entries_spec().len() == self@.dom().len(),
            self@.dom().finite(),
            forall|i: int|
                0 <= i < self.entries_spec().len() ==> self@.contains_key(
                    (#[trigger] self.entries_spec()[i]).name,
                ) && self@[self.entries_spec()[i].name] == self.entries_spec()[i],
            forall|k: Seq<char>|
                #[trigger] self@.contains_key(k) ==> exists|i: int|
                    0 <= i < self.entries_spec().len() && (#[trigger] self.entries_spec()[i]).name
                        == k,
    {
    }

    /// An empty table.
    pub fn new() -> (r: TagTable)
        ensures
            r.wf(),
            r@ == Map::<Seq<char>, NicTagView>::empty(),
    {
        let r = TagTable { tags: Vec::new(), model: Ghost(Map::empty()) };
        assert(r.entries_spec() =~= Seq::empty());
        r
    }

    /// The number of keys.
    pub fn len(&self) -> (r: usize)
        requires
            self.wf(),
        ensures
            r == self@.dom().len(),
    {
        self.tags.len()
    }

    /// The record stored at position `i`.
    pub fn entry(&self, i: usize) -> (r: &NicTag)
        requires
            self.wf(),
            i < self@.dom().len(),
        ensures
            r@ == self.entries_spec()[i as int],
    {
        &self.tags[i]
    }

    /// Stores `tag` under its name, replacing any record of that name.
    pub fn insert(&mut self, tag: NicTag)
        requires
            old(self).wf(),
        ensures
            final(self).wf(),
            final(self)@ == old(self)@.insert(tag@.name, tag@),
    {
        let ghost old_es = self.entries_spec();
        let ghost k = tag@.name;
        let mut i: usize = 0;
        while i < self.tags.len()
            invariant
                self.wf(),
                self.entries_spec() == old_es,
                self@ == old(self)@,
                k == tag@.name,
                0 <= i <= old_es.len(),
                forall|j: int| 0 <= j < i ==> (#[trigger] old_es[j]).name != k,
            decreases old_es.len() - i,
        {
            assert(old_es[i as int] == self.tags@[i as int]@);
            if self.tags[i].name.eq(&tag.name) {
                let ghost m = self.model@.insert(k, tag@);
                assert(old_es[i as int].name == k);
                self.tags[i] = tag;
                self.model = Ghost(m);
                let ghost es = self.entries_spec();
                assert(es =~= old_es.update(i as int, tag@));
                assert(m.dom() =~= old(self)@.dom());
                assert forall|kk: Seq<char>| #[trigger] m.contains_key(kk) implies exists|j: int|
                    0 <= j < es.len() && (#[trigger] es[j]).name == kk by {
                    if kk == k {
                        assert(es[i as int].name == kk);
                    } else {
                        let j = choose|j: int| 0 <= j < old_es.len() && (#[trigger] old_es[j]).name == kk;
                        assert(es[j].name == kk);
                    }
                }
                return;
            }
            i = i + 1;
        }
        assert(!self.model@.contains_key(k)) by {
            if self.model@.contains_key(k) {
                let j = choose|j: int| 0 <= j < old_es.len() && (#[trigger] old_es[j]).name == k;
                assert(old_es[j].name == k);
            }
        }
        let ghost m = self.model@.insert(k, tag@);
        self.tags.push(tag);
        self.model = Ghost(m);
        let ghost es = self.entries_spec();
        assert(es =~= old_es.push(tag@));
        assert forall|kk: Seq<char>| #[trigger] m.contains_key(kk) implies exists|j: int|
            0 <= j < es.len() && (#[trigger] es[j]).name == kk by {
            if kk == k {
                assert(es[old_es.len() as int].name == kk);
            } else {
                let j = choose|j: int| 0 <= j < old_es.len() && (#[trigger] old_es[j]).name == kk;
                assert(es[j].name == kk);
            }
        }
    }
}

} // verus!
