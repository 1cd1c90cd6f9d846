//! The treasury record: the persistent binding of an authority identity to
//! the canonical proof value of its derived vault address. One record per
//! authority; created once, never updated or deleted.

use vstd::prelude::*;
use crate::derivation::is_canonical_bump;

verus! {

/// A treasury record: the authority that owns it and the canonical bump
/// produced by address derivation when the record was created. Both are
/// set once and never mutated.
#[derive(Clone, Copy, Debug)]
pub struct Treasury {
    pub authority: [u8; 32],
    pub bump: u8,
}

impl Treasury {
    /// The record's stored bump is the canonical one for its authority,
    /// so its vault address is always reproducible from its own fields.
    pub open spec fn wf(self) -> bool {
        is_canonical_bump(self.authority@, self.bump)
    }
}

/// The record that `s` holds for authority `a`: the first record carrying
/// it, or `None` where no record does.
pub open spec fn rec_in(s: Seq<Treasury>, a: Seq<u8>) -> Option<Treasury>
    decreases s.len(),
{
    if s.len() == 0 {
        None
    } else if s[0].authority@ == a {
        Some(s[0])
    } else {
        rec_in(s.drop_first(), a)
    }
}

/// The record for the first entry carrying `a` is the record of `a`.
pub proof fn lemma_rec_first_match(s: Seq<Treasury>, i: int, a: Seq<u8>)
    requires
        0 <= i < s.len(),
        s[i].authority@ == a,
        forall|j: int| 0 <= j < i ==> s[j].authority@ != a,
    ensures
        rec_in(s, a) == Some(s[i]),
    decreases s.len(),
{
    if i > 0 {
        lemma_rec_first_match(s.drop_first(), i - 1, a);
    }
}

/// An authority that no record carries has no record.
pub proof fn lemma_rec_no_match(s: Seq<Treasury>, a: Seq<u8>)
    requires
        forall|j: int| 0 <= j < s.len() ==> s[j].authority@ != a,
    ensures
        rec_in(s, a) is None,
    decreases s.len(),
{
    if s.len() > 0 {
        lemma_rec_no_match(s.drop_first(), a);
    }
}

/// Appending a record for an authority that no record carries gives that
/// authority the new record and changes no other.
pub proof fn lemma_rec_push(s: Seq<Treasury>, t: Treasury)
    requires
        forall|j: int| 0 <= j < s.len() ==> s[j].authority@ != t.authority@,
    ensures
        forall|x: Seq<u8>|
            rec_in(s.push(t), x) == if x == t.authority@ {
                Some(t)
            } else {
                rec_in(s, x)
            },
    decreases s.len(),
{
    if s.len() == 0 {
        assert(s.push(t)[0] == t);
        assert(s.push(t).drop_first() =~= Seq::<Treasury>::empty());
        assert forall|x: Seq<u8>|
            rec_in(s.push(t), x) == if x == t.authority@ {
                Some(t)
            } else {
                rec_in(s, x)
            } by {
            if x != t.authority@ {
                assert(rec_in(s.push(t), x) == rec_in(s.push(t).drop_first(), x));
                assert(rec_in(Seq::<Treasury>::empty(), x) is None);
            }
        }
    } else {
        assert(s.push(t).drop_first() =~= s.drop_first().push(t));
        lemma_rec_push(s.drop_first(), t);
        assert forall|x: Seq<u8>|
            rec_in(s.push(t), x) == if x == t.authority@ {
                Some(t)
            } else {
                rec_in(s, x)
            } by {
            let sp = s.push(t);
            assert(sp[0] == s[0]);
            if x == s[0].authority@ {
                assert(x != t.authority@);
                assert(rec_in(sp, x) == Some(sp[0]));
                assert(rec_in(s, x) == Some(s[0]));
            } else {
                assert(rec_in(sp, x) == rec_in(sp.drop_first(), x));
                assert(rec_in(s, x) == rec_in(s.drop_first(), x));
                assert(rec_in(sp.drop_first(), x) == if x == t.authority@ {
                    Some(t)
                } else {
                    rec_in(s.drop_first(), x)
                });
            }
        }
    }
}

/// The storage layer for treasury records, keyed by authority identity:
/// it refuses to allocate a second record over an existing one.
pub struct TreasuryStore {
    records: Vec<Treasury>,
}

impl TreasuryStore {
    /// The record stored for authority `a`, if any.
    pub closed spec fn record_of(self, a: Seq<u8>) -> Option<Treasury> {
        rec_in(self.records@, a)
    }

    /// An empty store: no authority has a record.
    pub fn new() -> (r: TreasuryStore)
        ensures
            forall|x: Seq<u8>| r.record_of(x) is None,
    {
        let r = TreasuryStore { records: Vec::new() };
        proof {
            assert(forall|x: Seq<u8>| rec_in(r.records@, x) is None);
        }
        r
    }

    /// The index of the first record carrying `authority`, if any.
    fn find_index(&self, authority: &[u8; 32]) -> (r: Option<usize>)
        ensures
            match r {
                Some(i) => i < self.records@.len() && self.records@[i as int].authority@
                    == authority@ && forall|j: int|
                    0 <= j < i ==> self.records@[j].authority@ != authority@,
                None => forall|j: int|
                    0 <= j < self.records@.len() ==> self.records@[j].authority@ != authority@,
            },
    {
        let mut i: usize = 0;
        while i < self.records.len()
            invariant
                i <= self.records@.len(),
                forall|j: int| 0 <= j < i ==> self.records@[j].authority@ != authority@,
            decreases self.records@.len() - i,
        {
            if crate::derivation::bytes_eq(&self.records[i].authority, authority) {
                return Some(i);
            }
            i += 1;
        }
        None
    }

    /// Read the record stored for `authority`, if any.
    pub fn get_record(&self, authority: &[u8; 32]) -> (r: Option<Treasury>)
        ensures
            r == self.record_of(authority@),
    {
        match self.find_index(authority) {
            Some(i) => {
                proof {
                    lemma_rec_first_match(self.records@, i as int, authority@);
                }
                Some(self.records[i])
            },
            None => {
                proof {
                    lemma_rec_no_match(self.records@, authority@);
                }
                None
            },
        }
    }

    /// Allocate a record for an authority that has none: the storage
    /// collaborator's create-once primitive.
    pub(crate) fn insert_new(&mut self, t: Treasury)
        requires
            old(self).record_of(t.authority@) is None,
        ensures
            final(self).record_of(t.authority@) == Some(t),
            forall|x: Seq<u8>|
                x != t.authority@ ==> final(self).record_of(x) == old(self).record_of(x),
    {
        proof {
            lemma_rec_none_means_no_match(self.records@, t.authority@);
            lemma_rec_push(self.records@, t);
        }
        self.records.push(t);
    }
}

/// Where no record is found for `a`, no entry carries `a`.
pub proof fn lemma_rec_none_means_no_match(s: Seq<Treasury>, a: Seq<u8>)
    requires
        rec_in(s, a) is None,
    ensures
        forall|j: int| 0 <= j < s.len() ==> s[j].authority@ != a,
    decreases s.len(),
{
    if s.len() > 0 {
        lemma_rec_none_means_no_match(s.drop_first(), a);
        assert forall|j: int| 0 <= j < s.len() implies s[j].authority@ != a by {
            if j > 0 {
                assert(s.drop_first()[j - 1] == s[j]);
            }
        }
    }
}

} // verus!
