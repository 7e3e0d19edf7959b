//! The association map: an ordered mapping from MIME type to the ordered
//! list of handler identifiers that declared it.
//!
//! Keys appear in discovery order and are unique; a key exists only once at
//! least one handler has been folded in, so no candidate list is ever empty.

use vstd::prelude::*;
use vstd::pervasive::VecAdditionalExecFns;

verus! {

/// Spec-level contents of the association map: each element pairs a MIME
/// type with its ordered candidate handler list.
pub type AssocView = Seq<(Seq<char>, Seq<Seq<char>>)>;

/// Whether `m` holds an entry for key `k`.
pub open spec fn has_key(m: AssocView, k: Seq<char>) -> bool {
    exists|i: int| 0 <= i < m.len() && (#[trigger] m[i]).0 == k
}

/// The position of key `k` in `m`; meaningful only when `has_key(m, k)`
/// holds and keys are unique.
pub open spec fn key_index(m: AssocView, k: Seq<char>) -> int {
    choose|i: int| 0 <= i < m.len() && (#[trigger] m[i]).0 == k
}

/// Well-formedness: keys are unique and every candidate list is non-empty.
pub open spec fn wf_assoc(m: AssocView) -> bool {
    &&& forall|i: int, j: int|
        0 <= i < j < m.len() ==> (#[trigger] m[i]).0 != (#[trigger] m[j]).0
    &&& forall|i: int| 0 <= i < m.len() ==> (#[trigger] m[i]).1.len() > 0
}

/// One aggregation step: append `handler` to the candidate list of `k`,
/// creating the entry at the end of the map when `k` is new.
pub open spec fn upsert(m: AssocView, k: Seq<char>, handler: Seq<char>) -> AssocView {
    if has_key(m, k) {
        let i = key_index(m, k);
        m.update(i, (k, m[i].1.push(handler)))
    } else {
        m.push((k, seq![handler]))
    }
}

/// Upserting preserves well-formedness: keys stay unique and the touched
/// candidate list stays non-empty.
pub proof fn lemma_upsert_preserves_wf(m: AssocView, k: Seq<char>, handler: Seq<char>)
    requires
        wf_assoc(m),
    ensures
        wf_assoc(upsert(m, k, handler)),
{
    if has_key(m, k) {
        let i = key_index(m, k);
        assert(0 <= i < m.len() && m[i].0 == k);
    }
}

/// The total number of candidate slots over all entries of `m`.
pub open spec fn candidate_count(m: AssocView) -> int
    decreases m.len(),
{
    if m.len() == 0 {
        0
    } else {
        m[0].1.len() + candidate_count(m.drop_first())
    }
}

/// Appending an entry adds its candidate list's length to the count.
pub proof fn lemma_candidate_count_push(m: AssocView, e: (Seq<char>, Seq<Seq<char>>))
    ensures
        candidate_count(m.push(e)) == candidate_count(m) + e.1.len(),
    decreases m.len(),
{
    if m.len() == 0 {
        assert(m.push(e)[0] == e);
        assert(m.push(e).drop_first() =~= Seq::<(Seq<char>, Seq<Seq<char>>)>::empty());
        assert(candidate_count(Seq::<(Seq<char>, Seq<Seq<char>>)>::empty()) == 0);
        assert(candidate_count(m.push(e)) == e.1.len() + 0);
    } else {
        assert(m.push(e)[0] == m[0]);
        assert(m.push(e).drop_first() =~= m.drop_first().push(e));
        lemma_candidate_count_push(m.drop_first(), e);
        assert(candidate_count(m.push(e)) == m[0].1.len() + candidate_count(
            m.drop_first().push(e),
        ));
    }
}

/// The MIME-type association map built by the aggregator.
pub struct AssocMap {
    entries: Vec<(String, Vec<String>)>,
}

impl View for AssocMap {
    type V = AssocView;

    closed spec fn view(&self) -> AssocView {
        self.entries.deep_view()
    }
}

impl AssocMap {
    /// Well-formedness of the map's contents.
    pub open spec fn wf(&self) -> bool {
        wf_assoc(self@)
    }

    /// An empty association map.
    pub fn new() -> (r: AssocMap)
        ensures
            r@ == AssocView::empty(),
            r.wf(),
    {
        let r = AssocMap { entries: Vec::new() };
        proof {
            assert(r@ =~~= AssocView::empty());
        }
        r
    }

    /// The number of MIME types in the map.
    pub fn len(&self) -> (n: usize)
        ensures
            n == self@.len(),
    {
        self.entries.len()
    }

    /// The MIME type of the entry at position `i`.
    pub fn key_at(&self, i: usize) -> (k: &String)
        requires
            i < self@.len(),
        ensures
            k@ == self@[i as int].0,
    {
        &self.entries[i].0
    }

    /// The ordered candidate handler list of the entry at position `i`.
    pub fn handlers_at(&self, i: usize) -> (hs: &Vec<String>)
        requires
            i < self@.len(),
        ensures
            hs.deep_view() == self@[i as int].1,
    {
        &self.entries[i].1
    }

    /// The total number of candidates over all entries, saturating at the
    /// machine limit.
    #[verifier::loop_isolation(false)]
    pub fn total_candidates(&self) -> (n: usize)
        ensures
            candidate_count(self@) <= usize::MAX ==> n == candidate_count(self@),
            candidate_count(self@) > usize::MAX ==> n == usize::MAX,
    {
        let ghost m = self@;
        let mut n: usize = 0;
        let ghost sofar: int = 0;
        let len = self.entries.len();
        let mut i: usize = 0;
        proof {
            assert(m.subrange(0, 0) =~= Seq::empty());
        }
        while i < len
            invariant
                0 <= i <= len,
                len == m.len(),
                sofar == candidate_count(m.subrange(0, i as int)),
                sofar <= usize::MAX ==> n == sofar,
                sofar > usize::MAX ==> n == usize::MAX,
            decreases len - i,
        {
            let here = self.entries[i].1.len();
            proof {
                assert(m.subrange(0, i as int + 1) =~= m.subrange(0, i as int).push(
                    m[i as int],
                ));
                lemma_candidate_count_push(m.subrange(0, i as int), m[i as int]);
                assert(here == m[i as int].1.len());
            }
            n = n.saturating_add(here);
            proof {
                sofar = sofar + here;
            }
            i = i + 1;
        }
        proof {
            assert(m.subrange(0, len as int) =~= m);
        }
        n
    }

    /// Appends `handler` to the entry for `mime`, creating the entry when
    /// `mime` is not yet a key.
    #[verifier::loop_isolation(false)]
    pub fn upsert(&mut self, mime: &String, handler: &String)
        requires
            old(self).wf(),
        ensures
            final(self).wf(),
            final(self)@ == upsert(old(self)@, mime@, handler@),
    {
        proof {
            lemma_upsert_preserves_wf(old(self)@, mime@, handler@);
        }
        let n = self.entries.len();
        let mut i: usize = 0;
        while i < n
            invariant
                *self == *old(self),
                n == self@.len(),
                0 <= i <= n,
                forall|j: int| 0 <= j < i ==> (#[trigger] self@[j]).0 != mime@,
            decreases n - i,
        {
            if self.entries[i].0 == *mime {
                let key = self.entries[i].0.clone();
                let mut list = self.entries[i].1.clone();
                proof {
                    assert forall|p: int| 0 <= p < list.len() implies list@[p]
                        == old(self).entries@[i as int].1@[p] by {
                        assert(cloned::<String>(old(self).entries@[i as int].1[p], list[p]));
                    }
                    assert(list@ =~= old(self).entries@[i as int].1@);
                }
                list.push(handler.clone());
                self.entries.set(i, (key, list));
                proof {
                    let m = old(self)@;
                    assert(m[i as int].0 == mime@);
                    assert(has_key(m, mime@));
                    let w = key_index(m, mime@);
                    assert(0 <= w < m.len() && m[w].0 == mime@);
                    if w < i as int {
                        assert(m[w].0 != mime@);
                    } else if w > i as int {
                        assert(m[i as int].0 != m[w].0);
                    }
                    assert(w == i as int);
                    assert(self@ =~~= upsert(m, mime@, handler@));
                }
                return ;
            }
            i = i + 1;
        }
        self.entries.push((mime.clone(), vec![handler.clone()]));
        proof {
            let m = old(self)@;
            assert(!has_key(m, mime@));
            assert(self@ =~~= upsert(m, mime@, handler@));
        }
    }
}

} // verus!
