//! The validator: applies the active rule set to a candidate entry and its
//! validation context.  A pure decision point — no commit, no propagation.

use vstd::prelude::*;
use crate::address::Address;
use crate::entry::{addr_of, Entry, EntryV};

verus! {

/// Whether the entry under validation arrives via local chain authorship or
/// via network replication.
#[derive(Clone, Copy, Debug, PartialEq, Eq, Structural)]
pub enum EntryLifecycle {
    Chain,
    Dht,
}

/// The action the entry under validation declares.
#[derive(Clone, Copy, Debug, PartialEq, Eq, Structural)]
pub enum EntryAction {
    Create,
    Modify,
    Delete,
}

/// The contextual evidence a validator needs to judge a candidate entry.
/// The bundle is keyed to the candidate: it records the address of the entry
/// it was assembled for.
#[derive(Debug)]
pub struct ValidationPackage {
    pub subject: Address,
}

impl View for ValidationPackage {
    type V = Seq<u8>;

    open spec fn view(&self) -> Seq<u8> {
        self.subject@
    }
}

/// Everything the validator consumes besides the entry itself: the evidence
/// package, the lifecycle tag, and the declared action.  Constructed once per
/// pipeline run and consumed once.
#[derive(Debug)]
pub struct ValidationData {
    pub package: ValidationPackage,
    pub lifecycle: EntryLifecycle,
    pub action: EntryAction,
}

/// The mathematical value of the validation context.
#[verifier::ext_equal]
pub struct ValidationDataV {
    pub package: Seq<u8>,
    pub lifecycle: EntryLifecycle,
    pub action: EntryAction,
}

impl View for ValidationData {
    type V = ValidationDataV;

    open spec fn view(&self) -> ValidationDataV {
        ValidationDataV { package: self.package@, lifecycle: self.lifecycle, action: self.action }
    }
}

/// A rule rejection, carrying a human-readable reason.
#[derive(Debug)]
pub struct ValidationFailure {
    pub reason: String,
}

/// The pluggable rule set the validator applies.  Deletion rules: addresses
/// listed here may not be removed.
#[derive(Debug)]
pub struct ValidationRules {
    pub no_delete: Vec<Address>,
}

/// The mathematical value of a list of addresses.
pub open spec fn addr_views(s: Seq<Address>) -> Seq<Seq<u8>> {
    s.map_values(|x: Address| x@)
}

impl View for ValidationRules {
    type V = Seq<Seq<u8>>;

    open spec fn view(&self) -> Seq<Seq<u8>> {
        addr_views(self.no_delete@)
    }
}

/// Reason reported when a delete action presents an entry that is not a
/// deletion entry.
pub open spec fn reason_not_a_deletion() -> Seq<char> {
    "delete validation requires a deletion entry"@
}

/// Reason reported when the evidence package was assembled for a different
/// entry than the one under validation.
pub open spec fn reason_package_mismatch() -> Seq<char> {
    "validation package does not match the entry"@
}

/// Reason reported when the rule set forbids removing the referenced address.
pub open spec fn reason_removal_forbidden() -> Seq<char> {
    "the active rules forbid removing this entry"@
}

/// The verdict of the active rule set: no reason means the entry passes.
/// Deterministic in the entry and its validation context.
pub open spec fn validation_verdict(e: EntryV, d: ValidationDataV, banned: Seq<Seq<u8>>) -> Option<
    Seq<char>,
> {
    if d.action != EntryAction::Delete {
        None
    } else {
        match e {
            EntryV::Data(_) => Some(reason_not_a_deletion()),
            EntryV::Deletion(removed) => if d.package != addr_of(e) {
                Some(reason_package_mismatch())
            } else if banned.contains(removed) {
                Some(reason_removal_forbidden())
            } else {
                None
            },
        }
    }
}

fn contains_address(list: &Vec<Address>, a: &Address) -> (r: bool)
    ensures
        r == addr_views(list@).contains(a@),
{
    let ghost s = addr_views(list@);
    let mut i: usize = 0;
    while i < list.len()
        invariant
            i <= list.len(),
            s == addr_views(list@),
            s.len() == list@.len(),
            forall|j: int| 0 <= j < i ==> s[j] != a@,
        decreases list.len() - i,
    {
        proof {
            assert(s[i as int] == list@[i as int]@);
        }
        if list[i].same_as(a) {
            proof {
                assert(s[i as int] == a@);
            }
            return true;
        }
        i = i + 1;
    }
    proof {
        assert(!s.contains(a@));
    }
    false
}

/// Applies the active rule set to (entry, validation context).  Returns
/// nothing on a pass; on a rejection, the failure carries exactly the
/// verdict's reason.  The pipeline aborts on rejection with no durable side
/// effects.
pub fn validate(entry: &Entry, data: &ValidationData, rules: &ValidationRules) -> (r: Result<
    (),
    ValidationFailure,
>)
    ensures
        match r {
            Ok(_) => validation_verdict(entry@, data@, rules@) is None,
            Err(f) => validation_verdict(entry@, data@, rules@) == Some(f.reason@),
        },
{
    if !matches!(data.action, EntryAction::Delete) {
        return Ok(());
    }
    match entry {
        Entry::Data(_) => Err(
            ValidationFailure { reason: "delete validation requires a deletion entry".to_owned() },
        ),
        Entry::Deletion(removed) => {
            let subject = entry.address();
            if !data.package.subject.same_as(&subject) {
                return Err(
                    ValidationFailure {
                        reason: "validation package does not match the entry".to_owned(),
                    },
                );
            }
            if contains_address(&rules.no_delete, removed) {
                return Err(
                    ValidationFailure {
                        reason: "the active rules forbid removing this entry".to_owned(),
                    },
                );
            }
            Ok(())
        },
    }
}

} // verus!
