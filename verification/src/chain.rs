//! The local chain: an ordered, append-only sequence of committed entries,
//! exclusively owned and appended to by a single local agent.

use vstd::prelude::*;
use crate::address::Address;
use crate::entry::{addr_of, Entry, EntryV};

verus! {

/// One committed record: the entry, its content address, and the address the
/// record logically supersedes (for a tombstone, the removed entry).
#[derive(Debug)]
pub struct ChainItem {
    pub entry: Entry,
    pub address: Address,
    pub replaces: Option<Address>,
}

/// The mathematical value of a chain record.
#[verifier::ext_equal]
pub struct ChainItemV {
    pub entry: EntryV,
    pub address: Seq<u8>,
    pub replaces: Option<Seq<u8>>,
}

impl View for ChainItem {
    type V = ChainItemV;

    open spec fn view(&self) -> ChainItemV {
        ChainItemV {
            entry: self.entry@,
            address: self.address@,
            replaces: match self.replaces {
                Some(a) => Some(a@),
                None => None,
            },
        }
    }
}

/// Every record's address is the content address of its entry.
pub open spec fn chain_wf(c: Seq<ChainItemV>) -> bool {
    forall|i: int| 0 <= i < c.len() ==> (#[trigger] c[i]).address == addr_of(c[i].entry)
}

/// The entry committed under an address: the first record that carries it.
pub open spec fn chain_lookup(c: Seq<ChainItemV>, a: Seq<u8>) -> Option<EntryV>
    decreases c.len(),
{
    if c.len() == 0 {
        None
    } else if c[0].address == a {
        Some(c[0].entry)
    } else {
        chain_lookup(c.drop_first(), a)
    }
}

/// An address is uncommitted exactly when no record carries it.
pub proof fn lemma_chain_lookup_none_iff(c: Seq<ChainItemV>, a: Seq<u8>)
    ensures
        (chain_lookup(c, a) is None) <==> (forall|j: int|
            0 <= j < c.len() ==> (#[trigger] c[j]).address != a),
    decreases c.len(),
{
    if c.len() > 0 {
        lemma_chain_lookup_none_iff(c.drop_first(), a);
        if chain_lookup(c, a) is None {
            assert forall|j: int| 0 <= j < c.len() implies (#[trigger] c[j]).address != a by {
                if j >= 1 {
                    assert(c[j] == c.drop_first()[j - 1]);
                }
            }
        }
        if forall|j: int| 0 <= j < c.len() ==> (#[trigger] c[j]).address != a {
            assert forall|j: int| 0 <= j < c.drop_first().len() implies (#[trigger] c.drop_first()[j]).address
                != a by {
                assert(c.drop_first()[j] == c[j + 1]);
            }
        }
    }
}

/// The first matching record determines the lookup result.
pub proof fn lemma_chain_lookup_first_match(c: Seq<ChainItemV>, a: Seq<u8>, i: int)
    requires
        0 <= i < c.len(),
        c[i].address == a,
        forall|j: int| 0 <= j < i ==> (#[trigger] c[j]).address != a,
    ensures
        chain_lookup(c, a) == Some(c[i].entry),
    decreases i,
{
    if i > 0 {
        assert forall|j: int| 0 <= j < i - 1 implies (#[trigger] c.drop_first()[j]).address != a by {
            assert(c.drop_first()[j] == c[j + 1]);
        }
        assert(c.drop_first()[i - 1] == c[i]);
        lemma_chain_lookup_first_match(c.drop_first(), a, i - 1);
    }
}

/// Appending a record never changes what an already committed address
/// resolves to, and commits the new record's address exactly when it was
/// uncommitted before.
pub proof fn lemma_chain_lookup_push(c: Seq<ChainItemV>, a: Seq<u8>, x: ChainItemV)
    ensures
        chain_lookup(c.push(x), a) == (if chain_lookup(c, a) is Some {
            chain_lookup(c, a)
        } else if x.address == a {
            Some(x.entry)
        } else {
            None::<EntryV>
        }),
    decreases c.len(),
{
    if c.len() == 0 {
        let cp = c.push(x);
        assert(cp[0] == x);
        assert(chain_lookup(c, a) is None);
        if x.address == a {
            assert(chain_lookup(cp, a) == Some(x.entry));
        } else {
            assert(cp.drop_first() =~= Seq::<ChainItemV>::empty());
            assert(chain_lookup(cp.drop_first(), a) is None);
            assert(chain_lookup(cp, a) is None);
        }
    } else {
        assert(c.push(x)[0] == c[0]);
        assert(c.push(x).drop_first() =~= c.drop_first().push(x));
        lemma_chain_lookup_push(c.drop_first(), a, x);
        if c[0].address == a {
            assert(chain_lookup(c, a) == Some(c[0].entry));
            assert(chain_lookup(c.push(x), a) == Some(c[0].entry));
        } else {
            assert(chain_lookup(c, a) == chain_lookup(c.drop_first(), a));
            assert(chain_lookup(c.push(x), a) == chain_lookup(c.drop_first().push(x), a));
        }
    }
}

/// On a content-addressed chain, whatever an address resolves to has exactly
/// that address.
pub proof fn lemma_chain_lookup_content_addressed(c: Seq<ChainItemV>, x: Seq<u8>)
    requires
        chain_wf(c),
        chain_lookup(c, x) is Some,
    ensures
        chain_lookup(c, x) matches Some(e) && addr_of(e) == x,
    decreases c.len(),
{
    if c[0].address == x {
        assert(c[0].address == addr_of(c[0].entry));
    } else {
        assert forall|j: int|
            0 <= j < c.drop_first().len() implies (#[trigger] c.drop_first()[j]).address == addr_of(
            c.drop_first()[j].entry,
        ) by {
            assert(c.drop_first()[j] == c[j + 1]);
        }
        lemma_chain_lookup_content_addressed(c.drop_first(), x);
    }
}

/// The local append-only chain.
#[derive(Debug)]
pub struct Chain {
    items: Vec<ChainItem>,
}

impl View for Chain {
    type V = Seq<ChainItemV>;

    closed spec fn view(&self) -> Seq<ChainItemV> {
        self.items@.map_values(|it: ChainItem| it@)
    }
}

impl Chain {
    /// Well-formedness: content addressing holds for every record.
    pub open spec fn wf(&self) -> bool {
        chain_wf(self@)
    }

    /// An empty chain.
    pub fn new() -> (r: Chain)
        ensures
            r@ =~= Seq::<ChainItemV>::empty(),
            r.wf(),
    {
        let c = Chain { items: Vec::new() };
        proof {
            assert(c@ =~= Seq::<ChainItemV>::empty());
        }
        c
    }

    /// The number of committed records.
    pub fn len(&self) -> (r: usize)
        ensures
            r == self@.len(),
    {
        self.items.len()
    }

    /// The record at a position.
    pub fn get(&self, i: usize) -> (r: &ChainItem)
        requires
            i < self@.len(),
        ensures
            r@ == self@[i as int],
    {
        &self.items[i]
    }

    /// Appends an entry, deriving and returning its address.  The append is
    /// the only way the chain ever changes: records are never rewritten.
    pub fn append(&mut self, entry: Entry, replaces: Option<Address>) -> (r: Address)
        requires
            old(self).wf(),
        ensures
            final(self).wf(),
            r@ == addr_of(entry@),
            final(self)@ =~= old(self)@.push(
                ChainItemV {
                    entry: entry@,
                    address: addr_of(entry@),
                    replaces: match replaces {
                        Some(a) => Some(a@),
                        None => None::<Seq<u8>>,
                    },
                },
            ),
    {
        let address = entry.address();
        let out = address.clone();
        let item = ChainItem { entry, address, replaces };
        let ghost prev = self@;
        let ghost itemv = item@;
        self.items.push(item);
        proof {
            assert(self@ =~= prev.push(itemv));
        }
        out
    }

    /// Finds the first record committed under an address.
    pub fn find_by_address(&self, a: &Address) -> (r: Option<&ChainItem>)
        ensures
            match r {
                Some(it) => chain_lookup(self@, a@) == Some(it@.entry) && it@.address == a@,
                None => chain_lookup(self@, a@) is None,
            },
    {
        let mut i: usize = 0;
        while i < self.items.len()
            invariant
                i <= self.items.len(),
                self@.len() == self.items@.len(),
                forall|j: int| 0 <= j < i ==> (#[trigger] self@[j]).address != a@,
            decreases self.items.len() - i,
        {
            let it = &self.items[i];
            proof {
                assert(self@[i as int] == self.items@[i as int]@);
            }
            if it.address.same_as(a) {
                proof {
                    lemma_chain_lookup_first_match(self@, a@, i as int);
                }
                return Some(it);
            }
            i = i + 1;
        }
        proof {
            lemma_chain_lookup_none_iff(self@, a@);
        }
        None
    }
}

} // verus!
