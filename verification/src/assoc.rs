//! First-match lookup over sequences of address pairs, used for both the
//! update links and the removal metadata of the distributed store.

use vstd::prelude::*;
use crate::address::Address;

verus! {

/// The mathematical value of a vector of address pairs.
pub open spec fn pair_views(s: Seq<(Address, Address)>) -> Seq<(Seq<u8>, Seq<u8>)> {
    s.map_values(|p: (Address, Address)| (p.0@, p.1@))
}

/// The value recorded under a key: the second component of the first pair
/// whose first component equals the key.
pub open spec fn assoc_get(s: Seq<(Seq<u8>, Seq<u8>)>, k: Seq<u8>) -> Option<Seq<u8>>
    decreases s.len(),
{
    if s.len() == 0 {
        None
    } else if s[0].0 == k {
        Some(s[0].1)
    } else {
        assoc_get(s.drop_first(), k)
    }
}

/// Whether any pair is recorded under a key.
pub open spec fn assoc_has(s: Seq<(Seq<u8>, Seq<u8>)>, k: Seq<u8>) -> bool {
    assoc_get(s, k) is Some
}

/// A key is absent exactly when no pair carries it.
pub proof fn lemma_assoc_none_iff_no_key(s: Seq<(Seq<u8>, Seq<u8>)>, k: Seq<u8>)
    ensures
        (assoc_get(s, k) is None) <==> (forall|j: int|
            0 <= j < s.len() ==> (#[trigger] s[j]).0 != k),
    decreases s.len(),
{
    if s.len() > 0 {
        lemma_assoc_none_iff_no_key(s.drop_first(), k);
        assert forall|j: int| 1 <= j < s.len() implies #[trigger] s[j] == s.drop_first()[j - 1] by {}
        if assoc_get(s, k) is None {
            assert forall|j: int| 0 <= j < s.len() implies (#[trigger] s[j]).0 != k by {
                if j >= 1 {
                    assert(s[j] == s.drop_first()[j - 1]);
                }
            }
        }
        if forall|j: int| 0 <= j < s.len() ==> (#[trigger] s[j]).0 != k {
            assert forall|j: int| 0 <= j < s.drop_first().len() implies (#[trigger] s.drop_first()[j]).0
                != k by {
                assert(s.drop_first()[j] == s[j + 1]);
            }
        }
    }
}

/// A recorded key is carried by some pair, whose value the lookup returns.
pub proof fn lemma_assoc_some_exists(s: Seq<(Seq<u8>, Seq<u8>)>, k: Seq<u8>)
    requires
        assoc_has(s, k),
    ensures
        exists|j: int|
            0 <= j < s.len() && (#[trigger] s[j]).0 == k && Some(s[j].1) == assoc_get(s, k),
    decreases s.len(),
{
    if s[0].0 == k {
        assert(0 <= 0 < s.len() && s[0].0 == k && Some(s[0].1) == assoc_get(s, k));
    } else {
        lemma_assoc_some_exists(s.drop_first(), k);
        let j0 = choose|j: int|
            0 <= j < s.drop_first().len() && (#[trigger] s.drop_first()[j]).0 == k && Some(
                s.drop_first()[j].1,
            ) == assoc_get(s.drop_first(), k);
        assert(s[j0 + 1] == s.drop_first()[j0]);
        assert(0 <= j0 + 1 < s.len() && s[j0 + 1].0 == k && Some(s[j0 + 1].1) == assoc_get(s, k));
    }
}

/// The first matching pair determines the lookup result.
pub proof fn lemma_assoc_first_match(s: Seq<(Seq<u8>, Seq<u8>)>, k: Seq<u8>, i: int)
    requires
        0 <= i < s.len(),
        s[i].0 == k,
        forall|j: int| 0 <= j < i ==> (#[trigger] s[j]).0 != k,
    ensures
        assoc_get(s, k) == Some(s[i].1),
    decreases i,
{
    if i > 0 {
        assert forall|j: int| 0 <= j < i - 1 implies (#[trigger] s.drop_first()[j]).0 != k by {
            assert(s.drop_first()[j] == s[j + 1]);
        }
        assert(s.drop_first()[i - 1] == s[i]);
        lemma_assoc_first_match(s.drop_first(), k, i - 1);
    }
}

/// Appending a pair leaves every recorded key's value unchanged and records
/// the new pair's key exactly when it was absent before.
pub proof fn lemma_assoc_push(s: Seq<(Seq<u8>, Seq<u8>)>, k: Seq<u8>, p: (Seq<u8>, Seq<u8>))
    ensures
        assoc_get(s.push(p), k) == (if assoc_get(s, k) is Some {
            assoc_get(s, k)
        } else if p.0 == k {
            Some(p.1)
        } else {
            None::<Seq<u8>>
        }),
    decreases s.len(),
{
    if s.len() == 0 {
        assert(s.push(p)[0] == p);
        assert(s.push(p).drop_first() =~= Seq::<(Seq<u8>, Seq<u8>)>::empty());
    } else {
        assert(s.push(p)[0] == s[0]);
        assert(s.push(p).drop_first() =~= s.drop_first().push(p));
        lemma_assoc_push(s.drop_first(), k, p);
    }
}

/// Looks a key up in a vector of pairs; the result is exactly the first-match
/// lookup over the vector's mathematical value.
pub fn find_value(pairs: &Vec<(Address, Address)>, key: &Address) -> (r: Option<Address>)
    ensures
        match r {
            Some(v) => assoc_get(pair_views(pairs@), key@) == Some(v@),
            None => assoc_get(pair_views(pairs@), key@) is None,
        },
{
    let ghost s = pair_views(pairs@);
    let mut i: usize = 0;
    while i < pairs.len()
        invariant
            i <= pairs.len(),
            s == pair_views(pairs@),
            s.len() == pairs@.len(),
            forall|j: int| 0 <= j < i ==> (#[trigger] s[j]).0 != key@,
        decreases pairs.len() - i,
    {
        let p = &pairs[i];
        proof {
            assert(s[i as int] == (pairs@[i as int].0@, pairs@[i as int].1@));
        }
        if p.0.same_as(key) {
            proof {
                lemma_assoc_first_match(s, key@, i as int);
            }
            return Some(p.1.clone());
        }
        i = i + 1;
    }
    proof {
        lemma_assoc_none_iff_no_key(s, key@);
    }
    None
}

} // verus!
