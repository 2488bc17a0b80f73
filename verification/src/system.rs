//! The pipeline's context: the local chain, the distributed store's update
//! links and removal metadata, the active rule set, and a model of the
//! environment's failure modes.  Each stage of the removal pipeline is an
//! operation here, with an exact contract over the system's mathematical
//! value.

use vstd::prelude::*;
use crate::address::Address;
use crate::assoc::{assoc_get, assoc_has, find_value, lemma_assoc_none_iff_no_key, pair_views};
use crate::chain::{chain_lookup, chain_wf, lemma_chain_lookup_push, Chain, ChainItemV};
use crate::entry::{addr_of, Entry, EntryResult, EntryResultV, EntryV};
use crate::errors::{CommitError, PackageError, PropagationError, ResolveError};
use crate::validation::{addr_views, ValidationPackage, ValidationRules};

verus! {

/// Which stages' underlying mechanisms fail: transport faults for lookups and
/// propagation, a missing-context fault for package building, a storage fault
/// for commits.  These model the environment; they are not decisions of the
/// pipeline itself.
#[derive(Clone, Copy, Debug, PartialEq, Eq, Structural)]
pub struct Faults {
    pub resolve_fails: bool,
    pub package_fails: bool,
    pub commit_fails: bool,
    pub propagate_fails: bool,
}

impl Default for Faults {
    /// A healthy environment: no stage fails.
    fn default() -> (r: Faults)
        ensures
            !r.resolve_fails,
            !r.package_fails,
            !r.commit_fails,
            !r.propagate_fails,
    {
        Faults { resolve_fails: false, package_fails: false, commit_fails: false, propagate_fails: false }
    }
}

/// The mathematical value of the whole system.
#[verifier::ext_equal]
pub struct SystemV {
    /// The local chain's committed records, in append order.
    pub chain: Seq<ChainItemV>,
    /// Update links: each pair maps a superseded address to the latest
    /// version of its lineage.
    pub links: Seq<(Seq<u8>, Seq<u8>)>,
    /// Removal metadata: each pair maps a removed address to the address of
    /// the tombstone that removed it.
    pub removals: Seq<(Seq<u8>, Seq<u8>)>,
    /// Addresses the active rule set refuses to remove.
    pub banned: Seq<Seq<u8>>,
    /// The environment's failure modes.
    pub faults: Faults,
}

/// Well-formedness of the system:
/// - content addressing holds on the chain;
/// - every update link connects committed addresses;
/// - links are fully resolved: no link's target is itself superseded, so
///   following one link always lands on the latest version;
/// - at most one link per superseded address, and at most one removal record
///   per removed address.
pub open spec fn sys_wf(s: SystemV) -> bool {
    &&& chain_wf(s.chain)
    &&& (forall|i: int|
        0 <= i < s.links.len() ==> chain_lookup(s.chain, (#[trigger] s.links[i]).0) is Some)
    &&& (forall|i: int|
        0 <= i < s.links.len() ==> chain_lookup(s.chain, (#[trigger] s.links[i]).1) is Some)
    &&& (forall|i: int, j: int|
        0 <= i < s.links.len() && 0 <= j < s.links.len() ==> (#[trigger] s.links[i]).1 != (
        #[trigger] s.links[j]).0)
    &&& (forall|i: int, j: int|
        0 <= i < j < s.links.len() ==> (#[trigger] s.links[i]).0 != (#[trigger] s.links[j]).0)
    &&& (forall|i: int, j: int|
        0 <= i < j < s.removals.len() ==> (#[trigger] s.removals[i]).0 != (
        #[trigger] s.removals[j]).0)
}

/// The latest version of an address's lineage: the link target if the address
/// was superseded, the address itself otherwise.
pub open spec fn resolved_address(s: SystemV, a: Seq<u8>) -> Seq<u8> {
    match assoc_get(s.links, a) {
        Some(b) => b,
        None => a,
    }
}

/// What resolving an address yields when the lookup mechanism works: not
/// found if the latest version was never committed, otherwise the latest
/// entry, its address, and any removal metadata recorded against it.
pub open spec fn resolve_spec(s: SystemV, a: Seq<u8>) -> EntryResultV {
    let r = resolved_address(s, a);
    match chain_lookup(s.chain, r) {
        None => EntryResultV::NotFound,
        Some(e) => EntryResultV::Found { entry: e, address: r, removed_by: assoc_get(s.removals, r) },
    }
}

/// Resolution never yields a stale intermediate version: on a well-formed
/// system the resolved address is not itself superseded by any update link.
pub proof fn lemma_resolution_is_never_stale(s: SystemV, a: Seq<u8>)
    requires
        sys_wf(s),
    ensures
        !assoc_has(s.links, resolved_address(s, a)),
{
    lemma_assoc_none_iff_no_key(s.links, a);
    match assoc_get(s.links, a) {
        None => {
        },
        Some(b) => {
            crate::assoc::lemma_assoc_some_exists(s.links, a);
            let i = choose|i: int|
                0 <= i < s.links.len() && (#[trigger] s.links[i]).0 == a && Some(s.links[i].1)
                    == assoc_get(s.links, a);
            assert forall|j: int| 0 <= j < s.links.len() implies (#[trigger] s.links[j]).0 != b by {
                assert(s.links[i].1 != s.links[j].0);
            }
            lemma_assoc_none_iff_no_key(s.links, b);
        },
    }
}

/// The system after a successful commit: one record appended, nothing else
/// touched.
pub open spec fn commit_post(s: SystemV, e: EntryV, replaces: Option<Seq<u8>>) -> SystemV {
    SystemV {
        chain: s.chain.push(ChainItemV { entry: e, address: addr_of(e), replaces }),
        ..s
    }
}

/// Removal metadata after a propagation: unchanged if the removed address
/// already carries a record (propagation is idempotent), else extended by the
/// new pair.
pub open spec fn propagate_spec(m: Seq<(Seq<u8>, Seq<u8>)>, d: Seq<u8>, t: Seq<u8>) -> Seq<
    (Seq<u8>, Seq<u8>),
> {
    if assoc_has(m, d) {
        m
    } else {
        m.push((d, t))
    }
}

/// The system after a successful propagation.
pub open spec fn propagate_post(s: SystemV, d: Seq<u8>, t: Seq<u8>) -> SystemV {
    SystemV { removals: propagate_spec(s.removals, d, t), ..s }
}

/// Update links after recording that `from` was superseded by `to`: links
/// that pointed at `from` are re-aimed at `to` (keeping them fully resolved),
/// and the link from `from` itself is appended.
pub open spec fn relinked(links: Seq<(Seq<u8>, Seq<u8>)>, from: Seq<u8>, to: Seq<u8>) -> Seq<
    (Seq<u8>, Seq<u8>),
> {
    links.map_values(
        |p: (Seq<u8>, Seq<u8>)|
            if p.1 == from {
                (p.0, to)
            } else {
                p
            },
    ).push((from, to))
}

/// The system after a successful update of `from` to the entry `e`: the new
/// version is committed and the update links are rewritten.
pub open spec fn update_post(s: SystemV, from: Seq<u8>, e: EntryV) -> SystemV {
    SystemV { links: relinked(s.links, from, addr_of(e)), ..commit_post(s, e, Some(from)) }
}

/// The distributed store's view from this node: update links and removal
/// metadata.
#[derive(Debug)]
struct Dht {
    links: Vec<(Address, Address)>,
    removals: Vec<(Address, Address)>,
}

/// The pipeline's context: chain, distributed store, rules, environment.
#[derive(Debug)]
pub struct System {
    chain: Chain,
    dht: Dht,
    rules: ValidationRules,
    faults: Faults,
}

impl View for System {
    type V = SystemV;

    closed spec fn view(&self) -> SystemV {
        SystemV {
            chain: self.chain@,
            links: pair_views(self.dht.links@),
            removals: pair_views(self.dht.removals@),
            banned: addr_views(self.rules.no_delete@),
            faults: self.faults,
        }
    }
}

impl System {
    /// Well-formedness of the whole system.
    pub open spec fn wf(&self) -> bool {
        sys_wf(self@)
    }

    /// A fresh system: empty chain, no links, no removal metadata, an empty
    /// rule set, and a healthy environment.
    pub fn new() -> (r: System)
        ensures
            r.wf(),
            r@.chain =~= Seq::<ChainItemV>::empty(),
            r@.links =~= Seq::<(Seq<u8>, Seq<u8>)>::empty(),
            r@.removals =~= Seq::<(Seq<u8>, Seq<u8>)>::empty(),
            r@.banned =~= Seq::<Seq<u8>>::empty(),
            !r@.faults.resolve_fails,
            !r@.faults.package_fails,
            !r@.faults.commit_fails,
            !r@.faults.propagate_fails,
    {
        let s = System {
            chain: Chain::new(),
            dht: Dht { links: Vec::new(), removals: Vec::new() },
            rules: ValidationRules { no_delete: Vec::new() },
            faults: Faults::default(),
        };
        proof {
            assert(s@.links =~= Seq::<(Seq<u8>, Seq<u8>)>::empty());
            assert(s@.removals =~= Seq::<(Seq<u8>, Seq<u8>)>::empty());
            assert(s@.banned =~= Seq::<Seq<u8>>::empty());
        }
        s
    }

    /// Replaces the environment's failure modes (fault injection for tests
    /// and callers that model outages).
    pub fn set_faults(&mut self, faults: Faults)
        ensures
            final(self)@ == (SystemV { faults, ..old(self)@ }),
            old(self).wf() ==> final(self).wf(),
    {
        self.faults = faults;
    }

    /// Replaces the active rule set.
    pub fn set_rules(&mut self, rules: ValidationRules)
        ensures
            final(self)@ == (SystemV { banned: rules@, ..old(self)@ }),
            old(self).wf() ==> final(self).wf(),
    {
        self.rules = rules;
    }

    /// The active rule set.
    pub fn rules(&self) -> (r: &ValidationRules)
        ensures
            r@ == self@.banned,
    {
        &self.rules
    }

    /// The local chain.
    pub fn chain(&self) -> (r: &Chain)
        ensures
            r@ == self@.chain,
    {
        &self.chain
    }

    /// The removal metadata recorded against an address, if any.
    pub fn removal_metadata(&self, deleted: &Address) -> (r: Option<Address>)
        ensures
            match r {
                Some(t) => assoc_get(self@.removals, deleted@) == Some(t@),
                None => assoc_get(self@.removals, deleted@) is None,
            },
    {
        find_value(&self.dht.removals, deleted)
    }

    /// Entry Resolver.  Read-only: finds the latest known version of the
    /// entry at an address.  Fails (distinctly from "not found") exactly when
    /// the lookup mechanism fails.
    pub fn resolve_latest(&self, address: &Address) -> (r: Result<EntryResult, ResolveError>)
        requires
            self.wf(),
        ensures
            r is Err <==> self@.faults.resolve_fails,
            r matches Ok(res) ==> res@ == resolve_spec(self@, address@),
    {
        if self.faults.resolve_fails {
            return Err(ResolveError);
        }
        let resolved: Address = match find_value(&self.dht.links, address) {
            Some(b) => b,
            None => address.clone(),
        };
        proof {
            assert(resolved@ == resolved_address(self@, address@));
        }
        match self.chain.find_by_address(&resolved) {
            None => Ok(EntryResult::NotFound),
            Some(it) => {
                let entry = it.entry.clone();
                let removed_by = find_value(&self.dht.removals, &resolved);
                let res = EntryResult::Found { entry, address: resolved, removed_by };
                proof {
                    assert(res@ =~= resolve_spec(self@, address@));
                }
                Ok(res)
            },
        }
    }

    /// Validation Package Builder.  Assembles the contextual evidence the
    /// validator needs for a candidate entry; fails exactly when the required
    /// context cannot be assembled.
    pub fn build_validation_package(&self, entry: &Entry) -> (r: Result<
        ValidationPackage,
        PackageError,
    >)
        ensures
            r is Err <==> self@.faults.package_fails,
            r matches Ok(p) ==> p@ == addr_of(entry@),
    {
        if self.faults.package_fails {
            return Err(PackageError);
        }
        Ok(ValidationPackage { subject: entry.address() })
    }

    /// Chain Committer.  Appends a validated entry to the local chain,
    /// recording which prior address it supersedes or removes.  On success
    /// the entry is durably part of the append order and its address is
    /// stable; on failure nothing changes.
    pub fn commit(&mut self, entry: Entry, replaces: Option<Address>) -> (r: Result<
        Address,
        CommitError,
    >)
        requires
            old(self).wf(),
        ensures
            final(self).wf(),
            r is Err <==> old(self)@.faults.commit_fails,
            r is Err ==> final(self)@ == old(self)@,
            r matches Ok(a) ==> a@ == addr_of(entry@) && final(self)@ == commit_post(
                old(self)@,
                entry@,
                match replaces {
                    Some(x) => Some(x@),
                    None => None::<Seq<u8>>,
                },
            ),
    {
        if self.faults.commit_fails {
            return Err(CommitError);
        }
        let ghost prev = self@;
        let ghost entryv = entry@;
        let ghost replacesv = match replaces {
            Some(ref x) => Some(x@),
            None => None::<Seq<u8>>,
        };
        let a = self.chain.append(entry, replaces);
        proof {
            let itemv = ChainItemV { entry: entryv, address: addr_of(entryv), replaces: replacesv };
            assert(self@ =~= commit_post(prev, entryv, replacesv));
            assert forall|i: int|
                0 <= i < self@.links.len() implies chain_lookup(
                self@.chain,
                (#[trigger] self@.links[i]).0,
            ) is Some by {
                lemma_chain_lookup_push(prev.chain, self@.links[i].0, itemv);
            }
            assert forall|i: int|
                0 <= i < self@.links.len() implies chain_lookup(
                self@.chain,
                (#[trigger] self@.links[i]).1,
            ) is Some by {
                lemma_chain_lookup_push(prev.chain, self@.links[i].1, itemv);
            }
        }
        Ok(a)
    }

    /// DHT Removal Propagator.  Records removal metadata against the removed
    /// address.  Idempotent: an address that already carries a record is left
    /// as it is.  Fails exactly when the underlying transport rejects the
    /// write, and then changes nothing locally.
    pub fn propagate_removal(&mut self, deleted: &Address, tombstone: &Address) -> (r: Result<
        (),
        PropagationError,
    >)
        requires
            old(self).wf(),
        ensures
            final(self).wf(),
            r is Err <==> old(self)@.faults.propagate_fails,
            r is Err ==> final(self)@ == old(self)@,
            r is Ok ==> final(self)@ == propagate_post(old(self)@, deleted@, tombstone@),
    {
        if self.faults.propagate_fails {
            return Err(PropagationError);
        }
        let ghost prev = self@;
        match find_value(&self.dht.removals, deleted) {
            Some(_) => {
                proof {
                    assert(self@ =~= propagate_post(prev, deleted@, tombstone@));
                }
                Ok(())
            },
            None => {
                self.dht.removals.push((deleted.clone(), tombstone.clone()));
                proof {
                    assert(pair_views(self.dht.removals@) =~= prev.removals.push(
                        (deleted@, tombstone@),
                    ));
                    assert(self@ =~= propagate_post(prev, deleted@, tombstone@));
                    lemma_assoc_none_iff_no_key(prev.removals, deleted@);
                    assert forall|i: int, j: int|
                        0 <= i < j < self@.removals.len() implies (#[trigger] self@.removals[i]).0
                        != (#[trigger] self@.removals[j]).0 by {
                        if j < prev.removals.len() {
                            assert(prev.removals[i] == self@.removals[i]);
                            assert(prev.removals[j] == self@.removals[j]);
                        } else {
                            assert(self@.removals[j] == (deleted@, tombstone@));
                            assert(prev.removals[i] == self@.removals[i]);
                        }
                    }
                }
                Ok(())
            },
        }
    }

    /// Records that the entry at `from` was superseded by a new version:
    /// commits the new entry (with `replaces = from`) and rewrites the update
    /// links so every lineage still points directly at its latest version.
    /// Versioning context for the removal pipeline, which must always
    /// tombstone the latest version.
    pub fn record_update(&mut self, from: &Address, entry: Entry) -> (r: Result<
        Address,
        CommitError,
    >)
        requires
            old(self).wf(),
            chain_lookup(old(self)@.chain, from@) is Some,
            !assoc_has(old(self)@.links, from@),
            !assoc_has(old(self)@.links, addr_of(entry@)),
            addr_of(entry@) != from@,
        ensures
            final(self).wf(),
            r is Err <==> old(self)@.faults.commit_fails,
            r is Err ==> final(self)@ == old(self)@,
            r matches Ok(na) ==> na@ == addr_of(entry@) && final(self)@ == update_post(
                old(self)@,
                from@,
                entry@,
            ),
    {
        let ghost prev = self@;
        let ghost entryv = entry@;
        let na = match self.commit(entry, Some(from.clone())) {
            Err(e) => {
                return Err(e);
            },
            Ok(a) => a,
        };
        let ghost mid = self@;
        let ghost t = addr_of(entryv);
        let n = self.dht.links.len();
        let mut new_links: Vec<(Address, Address)> = Vec::new();
        let mut i: usize = 0;
        while i < n
            invariant
                i <= n,
                n == self.dht.links.len(),
                self@ == mid,
                mid.links.len() == n,
                na@ == t,
                new_links@.len() == i,
                forall|j: int|
                    0 <= j < i ==> pair_views(new_links@)[j] == (if (#[trigger] mid.links[j]).1
                        == from@ {
                        (mid.links[j].0, t)
                    } else {
                        mid.links[j]
                    }),
            decreases n - i,
        {
            let p = &self.dht.links[i];
            proof {
                assert(mid.links[i as int] == (p.0@, p.1@));
            }
            if p.1.same_as(from) {
                let first = p.0.clone();
                new_links.push((first, na.clone()));
            } else {
                let first = p.0.clone();
                let second = p.1.clone();
                new_links.push((first, second));
            }
            proof {
                assert(pair_views(new_links@)[i as int] == (if mid.links[i as int].1 == from@ {
                    (mid.links[i as int].0, t)
                } else {
                    mid.links[i as int]
                }));
            }
            i = i + 1;
        }
        new_links.push((from.clone(), na.clone()));
        self.dht.links = new_links;
        proof {
            let relinks = relinked(prev.links, from@, t);
            assert(prev.links == mid.links);
            assert forall|j: int| 0 <= j < n implies pair_views(self.dht.links@)[j] == relinks[j] by {
                assert(relinks[j] == (if (#[trigger] mid.links[j]).1 == from@ {
                    (mid.links[j].0, t)
                } else {
                    mid.links[j]
                }));
            }
            assert(pair_views(self.dht.links@)[n as int] == (from@, t));
            assert(relinks[n as int] == (from@, t));
            assert(pair_views(self.dht.links@) =~= relinks);
            assert(self@ =~= update_post(prev, from@, entryv));
            lemma_sys_wf_relinked(prev, mid, from@, entryv);
        }
        Ok(na)
    }
}

/// After a commit of the new version `e` and the rewrite of the update links,
/// the system is well formed again.
proof fn lemma_sys_wf_relinked(prev: SystemV, mid: SystemV, from: Seq<u8>, e: EntryV)
    requires
        sys_wf(prev),
        sys_wf(mid),
        mid == commit_post(prev, e, Some(from)),
        chain_lookup(prev.chain, from) is Some,
        !assoc_has(prev.links, from),
        !assoc_has(prev.links, addr_of(e)),
        addr_of(e) != from,
    ensures
        sys_wf(update_post(prev, from, e)),
{
    let t = addr_of(e);
    let post = update_post(prev, from, e);
    let l2 = post.links;
    let n = prev.links.len();
    let itemv = ChainItemV { entry: e, address: t, replaces: Some(from) };
    lemma_assoc_none_iff_no_key(prev.links, from);
    lemma_assoc_none_iff_no_key(prev.links, t);
    assert(post.chain == mid.chain);
    assert(l2.len() == n + 1);
    assert forall|j: int| 0 <= j < n implies #[trigger] l2[j] == (if prev.links[j].1 == from {
        (prev.links[j].0, t)
    } else {
        prev.links[j]
    }) by {}
    assert(l2[n as int] == (from, t));
    // keys are committed
    assert forall|i: int|
        0 <= i < l2.len() implies chain_lookup(post.chain, (#[trigger] l2[i]).0) is Some by {
        if i < n {
            assert(l2[i].0 == prev.links[i].0);
            assert(chain_lookup(mid.chain, prev.links[i].0) is Some);
        } else {
            lemma_chain_lookup_push(prev.chain, from, itemv);
        }
    }
    // targets are committed
    assert forall|i: int|
        0 <= i < l2.len() implies chain_lookup(post.chain, (#[trigger] l2[i]).1) is Some by {
        lemma_chain_lookup_push(prev.chain, l2[i].1, itemv);
        if i < n && prev.links[i].1 != from {
            assert(l2[i].1 == prev.links[i].1);
            assert(chain_lookup(mid.chain, prev.links[i].1) is Some);
        } else {
            assert(l2[i].1 == t);
        }
    }
    // links stay fully resolved: no target is a key
    assert forall|i: int, j: int|
        0 <= i < l2.len() && 0 <= j < l2.len() implies (#[trigger] l2[i]).1 != (
    #[trigger] l2[j]).0 by {
        if j < n {
            assert(l2[j].0 == prev.links[j].0);
            if i < n {
                if prev.links[i].1 == from {
                    assert(l2[i].1 == t);
                    assert(prev.links[j].0 != t);
                } else {
                    assert(l2[i].1 == prev.links[i].1);
                }
            } else {
                assert(l2[i].1 == t);
                assert(prev.links[j].0 != t);
            }
        } else {
            assert(l2[j].0 == from);
            if i < n {
                if prev.links[i].1 == from {
                    assert(l2[i].1 == t);
                } else {
                    assert(l2[i].1 == prev.links[i].1);
                    assert(prev.links[i].1 != from);
                }
            } else {
                assert(l2[i].1 == t);
            }
        }
    }
    // at most one link per superseded address
    assert forall|i: int, j: int|
        0 <= i < j < l2.len() implies (#[trigger] l2[i]).0 != (#[trigger] l2[j]).0 by {
        if j < n {
            assert(l2[i].0 == prev.links[i].0);
            assert(l2[j].0 == prev.links[j].0);
        } else {
            assert(l2[i].0 == prev.links[i].0);
            assert(l2[j].0 == from);
            assert(prev.links[i].0 != from);
        }
    }
}

} // verus!
