use vstd::prelude::*;
use crate::clock::unix_now_secs;
use crate::perception::BoundingBox;
use crate::strutil::str_eq;

verus! {

/// The last known whereabouts of one intent: where the element was,
/// its semantic embedding, and when it was last resolved.
#[derive(Clone, Debug)]
pub struct NeuralMapEntry {
    pub location: BoundingBox,
    pub embedding: Vec<i32>,
    pub last_seen: u64,
}

/// The warm cache from intent to last known element: one entry per
/// intent, superseded in place by newer writes with the same key and
/// never deleted.
#[derive(Debug)]
pub struct NeuralMap {
    entries: Vec<(String, NeuralMapEntry)>,
}

impl NeuralMap {
    /// Keys are pairwise distinct.
    pub closed spec fn wf(self) -> bool {
        forall|i: int, j: int|
            0 <= i < j < self.entries@.len() ==> self.entries@[i].0@ != self.entries@[j].0@
    }

    /// The map holds an entry for this intent.
    pub closed spec fn spec_contains(self, intent: Seq<char>) -> bool {
        exists|i: int| 0 <= i < self.entries@.len() && self.entries@[i].0@ == intent
    }

    /// The entry held for this intent.
    pub closed spec fn spec_get(self, intent: Seq<char>) -> NeuralMapEntry {
        let i = choose|i: int| 0 <= i < self.entries@.len() && self.entries@[i].0@ == intent;
        self.entries@[i].1
    }

    /// Number of intents held.
    pub closed spec fn spec_len(self) -> nat {
        self.entries@.len()
    }

    /// An empty map.
    pub fn new() -> (r: NeuralMap)
        ensures
            r.wf(),
            r.spec_len() == 0,
            forall|k: Seq<char>| !r.spec_contains(k),
    {
        NeuralMap { entries: Vec::new() }
    }

    /// Index of the entry for this intent, if one is held.
    fn find_index(&self, intent: &str) -> (r: Option<usize>)
        ensures
            r is Some <==> self.spec_contains(intent@),
            r is Some ==> {
                let i = r.unwrap() as int;
                0 <= i < self.entries@.len() && self.entries@[i].0@ == intent@
            },
    {
        let mut i: usize = 0;
        while i < self.entries.len()
            invariant
                i <= self.entries@.len(),
                forall|k: int| 0 <= k < i ==> self.entries@[k].0@ != intent@,
            decreases self.entries@.len() - i,
        {
            if str_eq(self.entries[i].0.as_str(), intent) {
                return Some(i);
            }
            i = i + 1;
        }
        None
    }

    /// Reads the entry last stored for this intent.
    pub fn get(&self, intent: &str) -> (r: Option<&NeuralMapEntry>)
        requires
            self.wf(),
        ensures
            r is Some <==> self.spec_contains(intent@),
            r is Some ==> *r.unwrap() == self.spec_get(intent@),
    {
        match self.find_index(intent) {
            Some(i) => {
                proof {
                    let j = choose|j: int|
                        0 <= j < self.entries@.len() && self.entries@[j].0@ == intent@;
                    assert(j == i as int);
                }
                Some(&self.entries[i].1)
            },
            None => None,
        }
    }

    /// Creates or supersedes the entry for this intent, stamping it
    /// with the clock; every other intent's entry is untouched.
    pub fn update(&mut self, intent: &str, embedding: Vec<i32>, location: BoundingBox)
        requires
            old(self).wf(),
        ensures
            final(self).wf(),
            final(self).spec_contains(intent@),
            final(self).spec_get(intent@).location == location,
            final(self).spec_get(intent@).embedding@ == embedding@,
            forall|k: Seq<char>|
                k != intent@ ==> final(self).spec_contains(k) == old(self).spec_contains(k),
            forall|k: Seq<char>|
                k != intent@ && old(self).spec_contains(k) ==> final(self).spec_get(k) == old(
                    self,
                ).spec_get(k),
            old(self).spec_contains(intent@) ==> final(self).spec_len() == old(self).spec_len(),
            !old(self).spec_contains(intent@) ==> final(self).spec_len() == old(self).spec_len()
                + 1,
    {
        let last_seen = unix_now_secs();
        let entry = NeuralMapEntry { location, embedding, last_seen };
        let ghost olds = self.entries@;
        let ghost mut new_index: int = 0;
        match self.find_index(intent) {
            Some(i) => {
                let (k, _) = self.entries.remove(i);
                self.entries.insert(i, (k, entry));
                proof {
                    new_index = i as int;
                    assert(self.entries@.len() == olds.len());
                    assert(self.entries@[i as int].0@ == intent@);
                    assert(self.entries@[i as int].1 == entry);
                    assert forall|m: int|
                        0 <= m < self.entries@.len() && m != i implies self.entries@[m]
                        == olds[m] by {
                        assert(olds.remove(i as int).insert(i as int, (k, entry))[m] == olds[m]);
                    }
                    lemma_update_keeps(olds, self.entries@, i as int, intent@);
                }
            },
            None => {
                self.entries.push((String::from_str(intent), entry));
                proof {
                    new_index = olds.len() as int;
                    assert(self.entries@.len() == olds.len() + 1);
                    assert(self.entries@[new_index].0@ == intent@);
                    assert(self.entries@[new_index].1 == entry);
                    assert(forall|m: int| 0 <= m < olds.len() ==> self.entries@[m] == olds[m]);
                    assert(self.entries@.take(olds.len() as int) =~= olds);
                    lemma_push_keeps(olds, self.entries@, intent@);
                }
            },
        }
        proof {
            let news = self.entries@;
            assert(0 <= new_index < news.len());
            assert(news[new_index].0@ == intent@ && news[new_index].1 == entry);
            assert(forall|m: int|
                0 <= m < news.len() && m != new_index ==> 0 <= m < olds.len() && news[m]
                    == olds[m]);
            assert(self.spec_contains(intent@));
            assert(self.spec_get(intent@) == entry) by {
                let c = choose|c: int| 0 <= c < news.len() && news[c].0@ == intent@;
                if c != new_index {
                    assert(news[c].0@ != news[new_index].0@);
                }
            }
            assert forall|k: Seq<char>| k != intent@ implies self.spec_contains(k) == old(
                self,
            ).spec_contains(k) by {
                if self.spec_contains(k) {
                    let m = choose|m: int| 0 <= m < news.len() && news[m].0@ == k;
                    assert(m != new_index);
                    assert(olds[m].0@ == k);
                    assert(old(self).spec_contains(k));
                }
                if old(self).spec_contains(k) {
                    let m = choose|m: int| 0 <= m < olds.len() && olds[m].0@ == k;
                    if m == new_index {
                        assert(olds[m].0@ != intent@);
                        assert(news[m].0@ == k || news[m].0@ == intent@);
                    }
                    assert(news[m].0@ == k);
                    assert(self.spec_contains(k));
                }
            }
            assert forall|k: Seq<char>|
                k != intent@ && old(self).spec_contains(k) implies self.spec_get(k) == old(
                self,
            ).spec_get(k) by {
                let m1 = choose|m: int| 0 <= m < news.len() && news[m].0@ == k;
                let m2 = choose|m: int| 0 <= m < olds.len() && olds[m].0@ == k;
                assert(news[m1].0@ == k);
                assert(m1 != new_index);
                assert(olds[m1].0@ == k);
                if m1 != m2 {
                    assert(olds[m1].0@ != olds[m2].0@);
                }
            }
        }
    }
}

/// After replacing the entry at `i` (whose key is `intent`), every
/// other key still maps to its old entry and uniqueness is kept.
proof fn lemma_update_keeps(
    olds: Seq<(String, NeuralMapEntry)>,
    news: Seq<(String, NeuralMapEntry)>,
    i: int,
    intent: Seq<char>,
)
    requires
        olds.len() == news.len(),
        0 <= i < olds.len(),
        olds[i].0@ == intent,
        news[i].0@ == intent,
        forall|m: int| 0 <= m < news.len() && m != i ==> news[m] == olds[m],
        forall|a: int, b: int| 0 <= a < b < olds.len() ==> olds[a].0@ != olds[b].0@,
    ensures
        forall|a: int, b: int| 0 <= a < b < news.len() ==> news[a].0@ != news[b].0@,
{
    assert forall|a: int, b: int| 0 <= a < b < news.len() implies news[a].0@ != news[b].0@ by {
        assert(olds[a].0@ != olds[b].0@);
        if a == i {
            assert(news[a].0@ == olds[a].0@);
        }
        if b == i {
            assert(news[b].0@ == olds[b].0@);
        }
    }
}

/// After pushing a new entry for `intent`, every other key still maps
/// to its old entry and uniqueness is kept.
proof fn lemma_push_keeps(
    olds: Seq<(String, NeuralMapEntry)>,
    news: Seq<(String, NeuralMapEntry)>,
    intent: Seq<char>,
)
    requires
        news.len() == olds.len() + 1,
        news.take(olds.len() as int) == olds,
        news.last().0@ == intent,
        forall|m: int| 0 <= m < olds.len() ==> olds[m].0@ != intent,
        forall|a: int, b: int| 0 <= a < b < olds.len() ==> olds[a].0@ != olds[b].0@,
    ensures
        forall|a: int, b: int| 0 <= a < b < news.len() ==> news[a].0@ != news[b].0@,
{
    assert forall|a: int, b: int| 0 <= a < b < news.len() implies news[a].0@ != news[b].0@ by {
        assert(news[a] == news.take(olds.len() as int)[a]);
        if b < olds.len() {
            assert(news[b] == news.take(olds.len() as int)[b]);
        }
    }
}

} // verus!
