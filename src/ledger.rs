//! The store of records, kept in insertion order and looked up by address.

use vstd::prelude::*;
use crate::key::Pubkey;
use crate::records::{Certificate, Event, Institution, Platform};

verus! {

/// Whether some entry of `s` sits at address `a`.
pub open spec fn has_key<T>(s: Seq<(Pubkey, T)>, a: Seq<u8>) -> bool {
    exists|i: int| 0 <= i < s.len() && s[i].0.bytes@ == a
}

/// The position of the entry at address `a`, where there is one.
pub open spec fn key_index<T>(s: Seq<(Pubkey, T)>, a: Seq<u8>) -> int {
    choose|i: int| 0 <= i < s.len() && s[i].0.bytes@ == a
}

/// No two entries of `s` sit at the same address.
pub open spec fn keys_unique<T>(s: Seq<(Pubkey, T)>) -> bool {
    forall|i: int, j: int|
        0 <= i < s.len() && 0 <= j < s.len() && s[i].0.bytes@ == s[j].0.bytes@ ==> i == j
}

/// Every record that the program keeps, and the notifications it emitted.
/// Built once and handed to every operation.
pub struct Ledger {
    /// The key of the program that derives the addresses.
    pub program_id: Pubkey,
    pub platform: Option<Platform>,
    pub institutions: Vec<(Pubkey, Institution)>,
    pub certificates: Vec<(Pubkey, Certificate)>,
    /// Append-only: one entry for each committed change.
    pub events: Vec<Event>,
}

/// How many certificates of `s` the institution at address `a` issued.
pub open spec fn count_issued(s: Seq<(Pubkey, Certificate)>, a: Seq<u8>) -> nat
    decreases s.len(),
{
    if s.len() == 0 {
        0
    } else {
        count_issued(s.drop_last(), a) + if s.last().1.institution.bytes@ == a {
            1nat
        } else {
            0nat
        }
    }
}

impl Ledger {
    /// Each address holds at most one institution and at most one
    /// certificate; without a platform there is no record; the platform's
    /// counters equal the numbers of records; every certificate names a
    /// registered institution, and each institution's count is the number of
    /// certificates that name it.
    pub open spec fn wf(&self) -> bool {
        &&& keys_unique(self.institutions@)
        &&& keys_unique(self.certificates@)
        &&& match self.platform {
            None => self.institutions@.len() == 0 && self.certificates@.len() == 0,
            Some(p) => p.total_institutions == self.institutions@.len()
                && p.total_certificates == self.certificates@.len(),
        }
        &&& forall|j: int| 0 <= j < self.certificates@.len()
            ==> has_key(self.institutions@, #[trigger] self.certificates@[j].1.institution.bytes@)
        &&& forall|j: int| 0 <= j < self.institutions@.len()
            ==> (#[trigger] self.institutions@[j]).1.certificates_issued
                == count_issued(self.certificates@, self.institutions@[j].0.bytes@)
    }

    /// An empty ledger for the program with key `program_id`.
    pub fn new(program_id: Pubkey) -> (r: Ledger)
        ensures
            r.wf(),
            r.program_id == program_id,
            r.platform is None,
            r.institutions@.len() == 0,
            r.certificates@.len() == 0,
            r.events@.len() == 0,
    {
        Ledger {
            program_id,
            platform: None,
            institutions: Vec::new(),
            certificates: Vec::new(),
            events: Vec::new(),
        }
    }
}

/// The position of the entry at address `a`, or `None` where there is none.
pub fn find_key<T>(s: &Vec<(Pubkey, T)>, a: &Pubkey) -> (r: Option<usize>)
    requires
        keys_unique(s@),
    ensures
        match r {
            Some(i) => has_key(s@, a.bytes@) && i == key_index(s@, a.bytes@) && i < s@.len(),
            None => !has_key(s@, a.bytes@),
        },
{
    let mut i: usize = 0;
    while i < s.len()
        invariant
            0 <= i <= s@.len(),
            keys_unique(s@),
            forall|j: int| 0 <= j < i ==> s@[j].0.bytes@ != a.bytes@,
        decreases s@.len() - i,
    {
        if s[i].0.same_as(a) {
            proof {
                lemma_key_index(s@, a.bytes@, i as int);
            }
            return Some(i);
        }
        i = i + 1;
    }
    None
}

/// In a list without repeated addresses, the entry at `a` is the one found.
pub proof fn lemma_key_index<T>(s: Seq<(Pubkey, T)>, a: Seq<u8>, i: int)
    requires
        keys_unique(s),
        0 <= i < s.len(),
        s[i].0.bytes@ == a,
    ensures
        has_key(s, a),
        key_index(s, a) == i,
{
    assert(has_key(s, a));
}

/// Appending an entry at a new address keeps the addresses unique, and
/// leaves the earlier entries where they were.
pub proof fn lemma_push_unique<T>(s: Seq<(Pubkey, T)>, k: Pubkey, v: T)
    requires
        keys_unique(s),
        !has_key(s, k.bytes@),
    ensures
        keys_unique(s.push((k, v))),
        has_key(s.push((k, v)), k.bytes@),
        key_index(s.push((k, v)), k.bytes@) == s.len(),
        forall|a: Seq<u8>| #[trigger] has_key(s, a) ==> has_key(s.push((k, v)), a) && key_index(s.push((k, v)), a) == key_index(s, a),
{
    let t = s.push((k, v));
    assert forall|i: int, j: int|
        0 <= i < t.len() && 0 <= j < t.len() && t[i].0.bytes@ == t[j].0.bytes@ implies i == j by {
        if i < s.len() && j == s.len() {
            assert(s[i].0.bytes@ == k.bytes@);
        } else if j < s.len() && i == s.len() {
            assert(s[j].0.bytes@ == k.bytes@);
        }
    }
    lemma_key_index(t, k.bytes@, s.len() as int);
    assert forall|a: Seq<u8>| #[trigger] has_key(s, a) implies has_key(t, a) && key_index(t, a) == key_index(s, a) by {
        let i = key_index(s, a);
        lemma_key_index(t, a, i);
    }
}

/// Replacing the value of an entry keeps every address where it was.
pub proof fn lemma_update_unique<T>(s: Seq<(Pubkey, T)>, i: int, v: T)
    requires
        keys_unique(s),
        0 <= i < s.len(),
    ensures
        keys_unique(s.update(i, (s[i].0, v))),
        forall|a: Seq<u8>| #[trigger] has_key(s.update(i, (s[i].0, v)), a) == has_key(s, a),
        forall|a: Seq<u8>| has_key(s, a) ==> #[trigger] key_index(s.update(i, (s[i].0, v)), a) == key_index(s, a),
{
    let t = s.update(i, (s[i].0, v));
    assert forall|a: Seq<u8>| #[trigger] has_key(t, a) == has_key(s, a) by {
        if has_key(t, a) {
            let j = key_index(t, a);
            assert(s[j].0.bytes@ == a);
        }
        if has_key(s, a) {
            let j = key_index(s, a);
            assert(t[j].0.bytes@ == a);
        }
    }
    assert forall|a: Seq<u8>| has_key(s, a) implies #[trigger] key_index(t, a) == key_index(s, a) by {
        let j = key_index(s, a);
        assert(t[j].0.bytes@ == a);
        lemma_key_index(t, a, j);
    }
}

/// Appending a certificate counts once for its own institution only.
pub proof fn lemma_count_push(s: Seq<(Pubkey, Certificate)>, x: (Pubkey, Certificate), a: Seq<u8>)
    ensures
        count_issued(s.push(x), a) == count_issued(s, a) + if x.1.institution.bytes@ == a {
            1nat
        } else {
            0nat
        },
{
    assert(s.push(x).drop_last() =~= s);
}

/// Replacing a certificate by one of the same institution keeps every count.
pub proof fn lemma_count_update(s: Seq<(Pubkey, Certificate)>, i: int, x: (Pubkey, Certificate), a: Seq<u8>)
    requires
        0 <= i < s.len(),
        x.1.institution == s[i].1.institution,
    ensures
        count_issued(s.update(i, x), a) == count_issued(s, a),
    decreases s.len(),
{
    let t = s.update(i, x);
    if i < s.len() - 1 {
        lemma_count_update(s.drop_last(), i, x, a);
        assert(t.drop_last() =~= s.drop_last().update(i, x));
    } else {
        assert(t.drop_last() =~= s.drop_last());
    }
}

/// An institution that no certificate names has issued none.
pub proof fn lemma_count_zero(s: Seq<(Pubkey, Certificate)>, a: Seq<u8>)
    requires
        forall|j: int| 0 <= j < s.len() ==> (#[trigger] s[j]).1.institution.bytes@ != a,
    ensures
        count_issued(s, a) == 0,
    decreases s.len(),
{
    if s.len() > 0 {
        assert forall|j: int| 0 <= j < s.drop_last().len() implies (#[trigger] s.drop_last()[j]).1.institution.bytes@ != a by {
            assert(s.drop_last()[j] == s[j]);
        }
        lemma_count_zero(s.drop_last(), a);
        assert(s[s.len() - 1] == s.last());
    }
}

} // verus!
