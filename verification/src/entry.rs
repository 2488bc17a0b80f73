//! Content-addressed entries, their canonical addresses, and the outcome of
//! resolving an address to its latest version.

use vstd::prelude::*;
use crate::address::Address;

verus! {

/// Tag byte that opens the canonical encoding of an ordinary data entry.
pub const DATA_TAG: u8 = 0;

/// Tag byte that opens the canonical encoding of a deletion entry.
pub const DELETION_TAG: u8 = 1;

/// An immutable content-addressed value.  The deletion variant is the
/// tombstone: an entry whose content says "this address is removed" and
/// carries the address it removes.
#[derive(Debug, PartialEq, Eq)]
pub enum Entry {
    /// Ordinary application content.
    Data(Vec<u8>),
    /// A tombstone referencing the removed entry's address.
    Deletion(Address),
}

/// The mathematical value of an entry.
#[verifier::ext_equal]
pub enum EntryV {
    Data(Seq<u8>),
    Deletion(Seq<u8>),
}

impl View for Entry {
    type V = EntryV;

    open spec fn view(&self) -> EntryV {
        match self {
            Entry::Data(c) => EntryV::Data(c@),
            Entry::Deletion(a) => EntryV::Deletion(a@),
        }
    }
}

/// The address of an entry: its canonical encoding, variant tag included.
/// Deriving the address from the tagged content makes it deterministic and
/// gives a tombstone for address X an address different from X itself.
pub open spec fn addr_of(e: EntryV) -> Seq<u8> {
    match e {
        EntryV::Data(c) => seq![DATA_TAG] + c,
        EntryV::Deletion(d) => seq![DELETION_TAG] + d,
    }
}

fn tagged(tag: u8, data: &Vec<u8>) -> (r: Vec<u8>)
    ensures
        r@ == seq![tag] + data@,
{
    let mut out: Vec<u8> = Vec::new();
    out.push(tag);
    let mut i: usize = 0;
    while i < data.len()
        invariant
            i <= data.len(),
            out@ == (seq![tag] + data@.take(i as int)),
        decreases data.len() - i,
    {
        out.push(data[i]);
        proof {
            assert(out@ =~= seq![tag] + data@.take(i + 1));
        }
        i = i + 1;
    }
    proof {
        assert(out@ =~= seq![tag] + data@);
    }
    out
}

impl Clone for Entry {
    fn clone(&self) -> (r: Self)
        ensures
            r@ == self@,
    {
        match self {
            Entry::Data(c) => {
                let mut out: Vec<u8> = Vec::new();
                let mut i: usize = 0;
                while i < c.len()
                    invariant
                        i <= c.len(),
                        out@ == c@.take(i as int),
                    decreases c.len() - i,
                {
                    out.push(c[i]);
                    proof {
                        assert(out@ =~= c@.take(i + 1));
                    }
                    i = i + 1;
                }
                proof {
                    assert(out@ =~= c@);
                }
                Entry::Data(out)
            },
            Entry::Deletion(a) => Entry::Deletion(a.clone()),
        }
    }
}

impl Entry {
    /// Computes the entry's content address.
    pub fn address(&self) -> (r: Address)
        ensures
            r@ == addr_of(self@),
    {
        match self {
            Entry::Data(c) => Address::from_bytes(tagged(DATA_TAG, c)),
            Entry::Deletion(a) => Address::from_bytes(tagged(DELETION_TAG, a.bytes())),
        }
    }
}

/// Addresses separate entries: distinct entries have distinct addresses.
pub proof fn lemma_addr_of_injective(e1: EntryV, e2: EntryV)
    ensures
        addr_of(e1) == addr_of(e2) ==> e1 == e2,
{
    if addr_of(e1) == addr_of(e2) {
        match (e1, e2) {
            (EntryV::Data(c1), EntryV::Data(c2)) => {
                assert(seq![DATA_TAG] + c1 == seq![DATA_TAG] + c2);
                assert(c1.len() == c2.len());
                assert forall|i: int| 0 <= i < c1.len() implies c1[i] == c2[i] by {
                    assert((seq![DATA_TAG] + c1)[i + 1] == c1[i]);
                    assert((seq![DATA_TAG] + c2)[i + 1] == c2[i]);
                }
                assert(c1 =~= c2);
            },
            (EntryV::Data(c1), EntryV::Deletion(d2)) => {
                assert(addr_of(e1)[0] == DATA_TAG);
                assert(addr_of(e2)[0] == DELETION_TAG);
            },
            (EntryV::Deletion(d1), EntryV::Data(c2)) => {
                assert(addr_of(e1)[0] == DELETION_TAG);
                assert(addr_of(e2)[0] == DATA_TAG);
            },
            (EntryV::Deletion(d1), EntryV::Deletion(d2)) => {
                assert(seq![DELETION_TAG] + d1 == seq![DELETION_TAG] + d2);
                assert(d1.len() == d2.len());
                assert forall|i: int| 0 <= i < d1.len() implies d1[i] == d2[i] by {
                    assert((seq![DELETION_TAG] + d1)[i + 1] == d1[i]);
                    assert((seq![DELETION_TAG] + d2)[i + 1] == d2[i]);
                }
                assert(d1 =~= d2);
            },
        }
    }
}

/// A tombstone's address always differs from the address it removes: the
/// tagged encoding is one byte longer than the removed address itself.
pub proof fn lemma_tombstone_address_differs(d: Seq<u8>)
    ensures
        addr_of(EntryV::Deletion(d)) != d,
{
    assert(addr_of(EntryV::Deletion(d)).len() == d.len() + 1);
}

/// The outcome of resolving an address: not found, or found with the latest
/// reachable version, its address, and, where removal metadata exists, the
/// address of the tombstone that removed it.
#[derive(Debug)]
pub enum EntryResult {
    NotFound,
    Found { entry: Entry, address: Address, removed_by: Option<Address> },
}

/// The mathematical value of a resolution outcome.
#[verifier::ext_equal]
pub enum EntryResultV {
    NotFound,
    Found { entry: EntryV, address: Seq<u8>, removed_by: Option<Seq<u8>> },
}

impl View for EntryResult {
    type V = EntryResultV;

    open spec fn view(&self) -> EntryResultV {
        match self {
            EntryResult::NotFound => EntryResultV::NotFound,
            EntryResult::Found { entry, address, removed_by } => EntryResultV::Found {
                entry: entry@,
                address: address@,
                removed_by: match removed_by {
                    Some(t) => Some(t@),
                    None => None,
                },
            },
        }
    }
}

impl EntryResult {
    /// Whether the resolution found an entry.
    pub fn found(&self) -> (r: bool)
        ensures
            r == (self@ is Found),
    {
        match self {
            EntryResult::NotFound => false,
            EntryResult::Found { .. } => true,
        }
    }

    /// The latest reachable version of the entry, if one was found.
    pub fn latest(&self) -> (r: Option<&Entry>)
        ensures
            match r {
                Some(e) => self@ matches EntryResultV::Found { entry, .. } && e@ == entry,
                None => self@ is NotFound,
            },
    {
        match self {
            EntryResult::NotFound => None,
            EntryResult::Found { entry, .. } => Some(entry),
        }
    }

    /// The address of the latest reachable version, if one was found.
    pub fn latest_address(&self) -> (r: Option<&Address>)
        ensures
            match r {
                Some(a) => self@ matches EntryResultV::Found { address, .. } && a@ == address,
                None => self@ is NotFound,
            },
    {
        match self {
            EntryResult::NotFound => None,
            EntryResult::Found { address, .. } => Some(address),
        }
    }

    /// The tombstone recorded against the found entry, if any.
    pub fn removed_by(&self) -> (r: Option<&Address>)
        ensures
            match r {
                Some(t) => self@ matches EntryResultV::Found { removed_by, .. }
                    && removed_by == Some(t@),
                None => self@ is NotFound || (self@ matches EntryResultV::Found { removed_by, .. }
                    && removed_by is None),
            },
    {
        match self {
            EntryResult::NotFound => None,
            EntryResult::Found { removed_by, .. } => match removed_by {
                Some(t) => Some(t),
                None => None,
            },
        }
    }
}

} // verus!
