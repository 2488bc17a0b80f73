//! The removal orchestrator: the public entry point that sequences entry
//! resolution, tombstone construction, validation-package building,
//! validation, the chain commit, and the propagation of removal metadata into
//! one fail-fast pipeline.
//!
//! A stage never begins before its predecessor succeeded, and nothing is
//! rolled back: in particular, once the tombstone is committed, a propagation
//! failure leaves the commit in place (an accepted eventual-consistency gap,
//! closed by the transport's own retries, not by this pipeline).

use vstd::prelude::*;
use crate::address::{decode_address, hex_decoded, is_hex_encoding};
use crate::assoc::{
    assoc_get, assoc_has, lemma_assoc_none_iff_no_key, lemma_assoc_push, lemma_assoc_some_exists,
};
use crate::chain::{
    chain_lookup, lemma_chain_lookup_content_addressed, lemma_chain_lookup_push, ChainItemV,
};
use crate::entry::{addr_of, lemma_addr_of_injective, Entry, EntryResult, EntryResultV, EntryV};
use crate::errors::{RemovalError, RemovalErrorV};
use crate::system::{
    commit_post, propagate_post, propagate_spec, resolve_spec, resolved_address, sys_wf, System,
    SystemV,
};
use crate::validation::{
    validate, validation_verdict, EntryAction, EntryLifecycle, ValidationData, ValidationDataV,
};

verus! {

/// The tombstone for a resolved latest address: a deletion entry referencing
/// exactly that address.
pub open spec fn tombstone_for(latest: Seq<u8>) -> EntryV {
    EntryV::Deletion(latest)
}

/// The validation context the pipeline hands the validator: the evidence
/// package built for the tombstone, the local-authorship lifecycle, and the
/// delete action.
pub open spec fn delete_validation_data(latest: Seq<u8>) -> ValidationDataV {
    ValidationDataV {
        package: addr_of(tombstone_for(latest)),
        lifecycle: EntryLifecycle::Chain,
        action: EntryAction::Delete,
    }
}

/// The outcome of the pipeline on a well-formed address: which stage fails
/// first, if any, under the system's rules and failure modes.
pub open spec fn pipeline_verdict(s: SystemV, a: Seq<u8>) -> Result<(), RemovalErrorV> {
    if s.faults.resolve_fails {
        Err(RemovalErrorV::Unspecified)
    } else {
        match resolve_spec(s, a) {
            EntryResultV::NotFound => Err(RemovalErrorV::Unspecified),
            EntryResultV::Found { entry, address, removed_by } => {
                if s.faults.package_fails {
                    Err(RemovalErrorV::Unspecified)
                } else {
                    match validation_verdict(
                        tombstone_for(address),
                        delete_validation_data(address),
                        s.banned,
                    ) {
                        Some(reason) => Err(RemovalErrorV::ValidationFailed(reason)),
                        None => if s.faults.commit_fails {
                            Err(RemovalErrorV::CommitFailed)
                        } else if s.faults.propagate_fails {
                            Err(RemovalErrorV::PropagationFailed)
                        } else {
                            Ok(())
                        },
                    }
                }
            },
        }
    }
}

/// The system once the tombstone for the resolved latest address has been
/// committed, `replaces` recording the removed address.
pub open spec fn committed_tombstone_post(s: SystemV, a: Seq<u8>) -> SystemV {
    let latest = resolved_address(s, a);
    commit_post(s, tombstone_for(latest), Some(latest))
}

/// The system once removal metadata for the committed tombstone has also been
/// propagated.
pub open spec fn propagated_post(s: SystemV, a: Seq<u8>) -> SystemV {
    let latest = resolved_address(s, a);
    propagate_post(committed_tombstone_post(s, a), latest, addr_of(tombstone_for(latest)))
}

/// The system after the pipeline ran on a well-formed address: untouched up
/// to and including a commit failure; committed but not propagated on a
/// propagation failure; committed and propagated on success.
pub open spec fn pipeline_post(s: SystemV, a: Seq<u8>) -> SystemV {
    match pipeline_verdict(s, a) {
        Ok(_) => propagated_post(s, a),
        Err(e) => match e {
            RemovalErrorV::PropagationFailed => committed_tombstone_post(s, a),
            _ => s,
        },
    }
}

/// The caller-visible outcome of a removal request on a serialized address.
pub open spec fn removal_verdict(s: SystemV, args: Seq<u8>) -> Result<(), RemovalErrorV> {
    if !is_hex_encoding(args) {
        Err(RemovalErrorV::ArgumentDeserializationFailed)
    } else {
        pipeline_verdict(s, hex_decoded(args))
    }
}

/// The system after a removal request on a serialized address.
pub open spec fn removal_post(s: SystemV, args: Seq<u8>) -> SystemV {
    if !is_hex_encoding(args) {
        s
    } else {
        pipeline_post(s, hex_decoded(args))
    }
}

/// The removal entry point.  Takes the serialized (hex) form of the address
/// whose entry is to be removed; returns nothing on success and one of the
/// closed error codes on failure.  The outcome and the system's new value are
/// exactly `removal_verdict` and `removal_post`.
pub fn invoke_remove_entry(system: &mut System, args: &[u8]) -> (r: Result<(), RemovalError>)
    requires
        old(system).wf(),
    ensures
        final(system).wf(),
        final(system)@ == removal_post(old(system)@, args@),
        match r {
            Ok(_) => removal_verdict(old(system)@, args@) is Ok,
            Err(e) => removal_verdict(old(system)@, args@) == Err::<(), RemovalErrorV>(e@),
        },
{
    let ghost s0 = system@;
    // Parse the argument; reject input that is not an address.
    let requested = match decode_address(args) {
        None => {
            return Err(RemovalError::ArgumentDeserializationFailed);
        },
        Some(a) => a,
    };
    let ghost a = requested@;
    // Resolve the latest version of the entry at the requested address.
    let entry_result = match system.resolve_latest(&requested) {
        Err(_) => {
            return Err(RemovalError::Unspecified);
        },
        Ok(res) => res,
    };
    let latest = match entry_result {
        EntryResult::NotFound => {
            return Err(RemovalError::Unspecified);
        },
        EntryResult::Found { address, .. } => address,
    };
    proof {
        assert(latest@ == resolved_address(s0, a));
    }
    // The tombstone references the resolved latest address, never a stale one.
    let deletion_entry = Entry::Deletion(latest.clone());
    // Assemble the evidence the validator needs.
    let package = match system.build_validation_package(&deletion_entry) {
        Err(_) => {
            return Err(RemovalError::Unspecified);
        },
        Ok(p) => p,
    };
    let validation_data = ValidationData {
        package,
        lifecycle: EntryLifecycle::Chain,
        action: EntryAction::Delete,
    };
    proof {
        assert(validation_data@ =~= delete_validation_data(latest@));
    }
    // Apply the active rule set; abort with the validator's reason on a
    // rejection, before anything durable happens.
    match validate(&deletion_entry, &validation_data, system.rules()) {
        Err(f) => {
            return Err(RemovalError::ValidationFailed(f));
        },
        Ok(_) => {},
    }
    // Commit the tombstone, recording which address it removes.
    let tombstone_address = match system.commit(deletion_entry, Some(latest.clone())) {
        Err(_) => {
            return Err(RemovalError::CommitFailed);
        },
        Ok(t) => t,
    };
    // Propagate removal metadata; the commit stands even if this fails.
    match system.propagate_removal(&latest, &tombstone_address) {
        Err(_) => Err(RemovalError::PropagationFailed),
        Ok(_) => Ok(()),
    }
}

/// An address that was never committed cannot be removed: the request reports
/// the unspecified failure and the system is left exactly as it was --- no
/// chain record, no removal metadata.
pub proof fn lemma_uncommitted_removal_is_unspecified(s: SystemV, a: Seq<u8>)
    requires
        sys_wf(s),
        chain_lookup(s.chain, a) is None,
    ensures
        pipeline_verdict(s, a) == Err::<(), RemovalErrorV>(RemovalErrorV::Unspecified),
        pipeline_post(s, a) == s,
{
    assert forall|j: int| 0 <= j < s.links.len() implies (#[trigger] s.links[j]).0 != a by {
        assert(chain_lookup(s.chain, s.links[j].0) is Some);
    }
    lemma_assoc_none_iff_no_key(s.links, a);
    assert(resolved_address(s, a) == a);
}

/// Input that does not parse as an address is rejected deterministically,
/// with zero side effects.
pub proof fn lemma_malformed_argument_has_no_effect(s: SystemV, args: Seq<u8>)
    requires
        !is_hex_encoding(args),
    ensures
        removal_verdict(s, args) == Err::<(), RemovalErrorV>(
            RemovalErrorV::ArgumentDeserializationFailed,
        ),
        removal_post(s, args) == s,
{
}

/// If the validator rejects the tombstone, no chain commit and no propagation
/// occur: the system is untouched.
pub proof fn lemma_validation_failure_has_no_effect(s: SystemV, a: Seq<u8>)
    requires
        pipeline_verdict(s, a) matches Err(e) && e is ValidationFailed,
    ensures
        pipeline_post(s, a) == s,
{
}

/// If the chain commit fails, no propagation occurs: the system is untouched.
pub proof fn lemma_commit_failure_stops_propagation(s: SystemV, a: Seq<u8>)
    requires
        pipeline_verdict(s, a) == Err::<(), RemovalErrorV>(RemovalErrorV::CommitFailed),
    ensures
        pipeline_post(s, a) == s,
{
}

/// Propagating the same (removed address, tombstone address) pair twice
/// leaves the removal metadata of a single propagation.
pub proof fn lemma_propagation_idempotent(m: Seq<(Seq<u8>, Seq<u8>)>, d: Seq<u8>, t: Seq<u8>)
    ensures
        propagate_spec(propagate_spec(m, d, t), d, t) == propagate_spec(m, d, t),
{
    if !assoc_has(m, d) {
        lemma_assoc_push(m, d, (d, t));
    }
}

/// Removing a committed entry that is the latest of its lineage and was not
/// removed before succeeds, and afterwards resolving its address reports the
/// original entry marked removed by a tombstone whose referenced address is
/// exactly the removed address.
pub proof fn lemma_removed_entry_resolves_removed(s: SystemV, a: Seq<u8>)
    requires
        sys_wf(s),
        !s.faults.resolve_fails,
        !s.faults.package_fails,
        !s.faults.commit_fails,
        !s.faults.propagate_fails,
        chain_lookup(s.chain, a) is Some,
        !assoc_has(s.links, a),
        !assoc_has(s.removals, a),
        !s.banned.contains(a),
    ensures
        pipeline_verdict(s, a) is Ok,
        ({
            let s2 = pipeline_post(s, a);
            let t = addr_of(EntryV::Deletion(a));
            &&& resolve_spec(s2, a) matches EntryResultV::Found { entry, address, removed_by }
                && Some(entry) == chain_lookup(s.chain, a) && address == a && removed_by == Some(t)
            &&& chain_lookup(s2.chain, t) == Some(EntryV::Deletion(a))
        }),
{
    let t = addr_of(EntryV::Deletion(a));
    let item = ChainItemV { entry: EntryV::Deletion(a), address: t, replaces: Some(a) };
    assert(resolved_address(s, a) == a);
    assert(pipeline_verdict(s, a) is Ok);
    let s2 = pipeline_post(s, a);
    assert(s2.chain == s.chain.push(item));
    assert(s2.links == s.links);
    assert(s2.removals == s.removals.push((a, t)));
    assert(resolved_address(s2, a) == a);
    lemma_chain_lookup_push(s.chain, a, item);
    lemma_assoc_push(s.removals, a, (a, t));
    lemma_chain_lookup_push(s.chain, t, item);
    if chain_lookup(s.chain, t) is Some {
        lemma_chain_lookup_content_addressed(s.chain, t);
        let e1 = choose|e1: EntryV| chain_lookup(s.chain, t) == Some(e1);
        lemma_addr_of_injective(e1, EntryV::Deletion(a));
    }
}

/// If the requested address was superseded, the pipeline tombstones the
/// resolved latest address, never the requested one: the committed record's
/// deletion entry and `replaces` field both carry the link's target, which
/// differs from the requested address.
pub proof fn lemma_tombstone_references_latest(s: SystemV, a: Seq<u8>, b: Seq<u8>)
    requires
        sys_wf(s),
        !s.faults.resolve_fails,
        !s.faults.package_fails,
        !s.faults.commit_fails,
        !s.faults.propagate_fails,
        assoc_get(s.links, a) == Some(b),
        !s.banned.contains(b),
    ensures
        pipeline_verdict(s, a) is Ok,
        b != a,
        pipeline_post(s, a).chain == s.chain.push(
            ChainItemV {
                entry: EntryV::Deletion(b),
                address: addr_of(EntryV::Deletion(b)),
                replaces: Some(b),
            },
        ),
{
    lemma_assoc_some_exists(s.links, a);
    let j = choose|j: int|
        0 <= j < s.links.len() && (#[trigger] s.links[j]).0 == a && Some(s.links[j].1) == assoc_get(
            s.links,
            a,
        );
    assert(s.links[j].1 == b);
    assert(chain_lookup(s.chain, s.links[j].1) is Some);
    assert(s.links[j].1 != s.links[j].0);
    assert(resolved_address(s, a) == b);
    assert(pipeline_verdict(s, a) is Ok);
}

} // verus!
