//! A set of identifiers, kept as a list in which none occurs twice.

use vstd::prelude::*;
use crate::text::same_str;

verus! {

/// The identifiers that a list of strings holds.
pub open spec fn texts_of(ids: Seq<String>) -> Set<Seq<char>> {
    Set::new(|id: Seq<char>| exists|i: int| 0 <= i < ids.len() && (#[trigger] ids[i])@ == id)
}

/// A set of identifiers.
pub struct IdSet {
    ids: Vec<String>,
}

impl View for IdSet {
    type V = Set<Seq<char>>;

    closed spec fn view(&self) -> Set<Seq<char>> {
        texts_of(self.ids@)
    }
}

fn holds(ids: &Vec<String>, id: &str) -> (r: bool)
    ensures
        r == texts_of(ids@).contains(id@),
{
    let mut i: usize = 0;
    while i < ids.len()
        invariant
            i <= ids.len(),
            forall|k: int| 0 <= k < i ==> (#[trigger] ids@[k])@ != id@,
        decreases ids.len() - i,
    {
        if same_str(ids[i].as_str(), id) {
            return true;
        }
        i += 1;
    }
    false
}

impl IdSet {
    /// The empty set.
    pub fn new() -> (s: IdSet)
        ensures
            s@ == Set::<Seq<char>>::empty(),
    {
        let s = IdSet { ids: Vec::new() };
        proof {
            assert(s@ =~= Set::<Seq<char>>::empty());
        }
        s
    }

    /// Whether the set holds `id`.
    pub fn contains(&self, id: &str) -> (r: bool)
        ensures
            r == self@.contains(id@),
    {
        holds(&self.ids, id)
    }

    /// Puts `id` into the set.
    pub fn insert(&mut self, id: &str)
        ensures
            final(self)@ == old(self)@.insert(id@),
    {
        if !holds(&self.ids, id) {
            let ghost before = self.ids@;
            self.ids.push(id.to_owned());
            proof {
                assert forall|x: Seq<char>| texts_of(self.ids@).contains(x) == texts_of(
                    before,
                ).insert(id@).contains(x) by {
                    if texts_of(self.ids@).contains(x) {
                        let i = choose|i: int| 0 <= i < self.ids@.len() && (#[trigger] self.ids@[i])@ == x;
                        if i < before.len() {
                            assert(before[i]@ == x);
                        }
                    }
                    if texts_of(before).contains(x) {
                        let i = choose|i: int| 0 <= i < before.len() && (#[trigger] before[i])@ == x;
                        assert(self.ids@[i]@ == x);
                    }
                    if x == id@ {
                        assert(self.ids@[before.len() as int]@ == x);
                    }
                }
                assert(self@ =~= old(self)@.insert(id@));
            }
        } else {
            proof {
                assert(self@ =~= old(self)@.insert(id@));
            }
        }
    }

    /// Keeps the identifiers that `other` holds too and drops the rest.
    pub fn retain_in(&mut self, other: &IdSet)
        ensures
            final(self)@ == old(self)@.intersect(other@),
    {
        self.retain_among(&other.ids);
    }

    /// Keeps the identifiers that are among `current` and drops the rest.
    pub fn retain_among(&mut self, current: &Vec<String>)
        ensures
            final(self)@ == old(self)@.intersect(texts_of(current@)),
    {
        let mut kept: Vec<String> = Vec::new();
        let mut i: usize = 0;
        while i < self.ids.len()
            invariant
                i <= self.ids.len(),
                self.ids@ == old(self).ids@,
                texts_of(kept@) == texts_of(self.ids@.take(i as int)).intersect(texts_of(current@)),
            decreases self.ids.len() - i,
        {
            let ghost before = kept@;
            let ghost seen = self.ids@.take(i as int);
            let ghost next = self.ids@.take(i + 1);
            let id = self.ids[i].clone();
            let keep = holds(current, id.as_str());
            if keep {
                kept.push(id);
            }
            proof {
                assert(next =~= seen.push(self.ids@[i as int]));
                assert forall|x: Seq<char>| texts_of(kept@).contains(x) == texts_of(next).intersect(
                    texts_of(current@),
                ).contains(x) by {
                    if texts_of(kept@).contains(x) {
                        let k = choose|k: int| 0 <= k < kept@.len() && (#[trigger] kept@[k])@ == x;
                        if k < before.len() {
                            assert(before[k]@ == x);
                            assert(texts_of(before).contains(x));
                            let j = choose|j: int| 0 <= j < seen.len() && (#[trigger] seen[j])@ == x;
                            assert(next[j]@ == x);
                        } else {
                            assert(next[i as int]@ == x);
                        }
                    }
                    if texts_of(next).intersect(texts_of(current@)).contains(x) {
                        let j = choose|j: int| 0 <= j < next.len() && (#[trigger] next[j])@ == x;
                        if j < i {
                            assert(seen[j]@ == x);
                            assert(texts_of(seen).contains(x));
                            assert(texts_of(before).contains(x));
                            let k = choose|k: int|
                                0 <= k < before.len() && (#[trigger] before[k])@ == x;
                            assert(kept@[k]@ == x);
                        } else {
                            assert(kept@[before.len() as int]@ == x);
                        }
                    }
                }
                assert(texts_of(kept@) =~= texts_of(next).intersect(texts_of(current@)));
            }
            i += 1;
        }
        proof {
            assert(self.ids@.take(i as int) =~= self.ids@);
        }
        self.ids = kept;
    }
}

} // verus!
