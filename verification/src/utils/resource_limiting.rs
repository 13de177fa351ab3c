//! Resource limiting: servers register named resources with a capacity, and
//! each call claims some units of each resource before it runs. A call that
//! would take a resource over its capacity is refused; the units of a call
//! that ran are given back.

use crate::text::str_eq;
use crate::types::error::Error;
use arrayvec::ArrayVec;
use vstd::prelude::*;

verus! {

/// Maximum number of resource kinds.
pub const RESOURCE_COUNT: usize = 8;

/// Units of each resource kind.
pub type ResourceTable = [u16; 8];

/// Vector of at most [`RESOURCE_COUNT`] items.
pub type ResourceVec<T> = ArrayVec<T, 8>;

#[verifier::external_type_specification]
#[verifier::external_body]
#[verifier::reject_recursive_types(T)]
pub struct ExArrayVec<T, const CAP: usize>(ArrayVec<T, CAP>);

/// The labels held by a vector of resource labels, in order.
pub uninterp spec fn label_vec_items(v: ArrayVec<&'static str, 8>) -> Seq<Seq<char>>;

/// Calls `ArrayVec::new`: an empty vector of labels.
#[verifier::external_body]
fn label_vec_new() -> (res: ArrayVec<&'static str, 8>)
    ensures
        label_vec_items(res) == Seq::<Seq<char>>::empty(),
{
    ArrayVec::new()
}

/// Calls `ArrayVec::len`: the number of labels, which never exceeds the
/// capacity of the vector.
#[verifier::external_body]
fn label_vec_len(v: &ArrayVec<&'static str, 8>) -> (res: usize)
    ensures
        res == label_vec_items(*v).len(),
        res <= RESOURCE_COUNT,
{
    v.len()
}

/// Calls `ArrayVec::get`: the label at position `i`.
#[verifier::external_body]
fn label_vec_get(v: &ArrayVec<&'static str, 8>, i: usize) -> (res: &'static str)
    requires
        i < label_vec_items(*v).len(),
    ensures
        res@ == label_vec_items(*v)[i as int],
{
    v[i]
}

/// Calls `ArrayVec::try_push`: appends the label when the vector is not full
/// and reports whether it did; a full vector is left unchanged.
#[verifier::external_body]
fn label_vec_try_push(v: &mut ArrayVec<&'static str, 8>, label: &'static str) -> (res: bool)
    ensures
        res == (label_vec_items(*old(v)).len() < RESOURCE_COUNT),
        res ==> label_vec_items(*final(v)) == label_vec_items(*old(v)).push(label@),
        !res ==> *final(v) == *old(v),
{
    match v.try_push(label) {
        Ok(()) => true,
        Err(_) => false,
    }
}

/// The position of the first occurrence of `label` in `labels`.
pub open spec fn label_index(labels: Seq<Seq<char>>, label: Seq<char>) -> int {
    choose|i: int| 0 <= i < labels.len() && labels[i] == label && forall|j: int| 0 <= j < i ==> labels[j] != label
}

/// The most units a resource of capacity `capacity` can have in use: the
/// capacity itself, or, for a capacity of `0` (no limit), whatever a `u16`
/// holds.
pub open spec fn limit_of(capacity: u16) -> int {
    if capacity == 0 {
        u16::MAX as int
    } else {
        capacity as int
    }
}

/// Whether every resource can take the units on top of its current total.
pub open spec fn fits(totals: Seq<u16>, units: Seq<u16>, capacities: Seq<u16>) -> bool {
    forall|i: int| 0 <= i < RESOURCE_COUNT ==> totals[i] + units[i] <= limit_of(capacities[i])
}

/// The first resource that cannot take the units on top of its current total.
pub open spec fn first_over_capacity(totals: Seq<u16>, units: Seq<u16>, capacities: Seq<u16>) -> int {
    choose|i: int|
        0 <= i < RESOURCE_COUNT && totals[i] + units[i] > limit_of(capacities[i]) && forall|j: int|
            0 <= j < i ==> totals[j] + units[j] <= limit_of(capacities[j])
}

/// Sum, resource by resource.
pub open spec fn add_tables(a: Seq<u16>, b: Seq<u16>) -> Seq<u16> {
    Seq::new(RESOURCE_COUNT as nat, |i: int| (a[i] + b[i]) as u16)
}

/// Difference, resource by resource.
pub open spec fn sub_tables(a: Seq<u16>, b: Seq<u16>) -> Seq<u16> {
    Seq::new(RESOURCE_COUNT as nat, |i: int| (a[i] - b[i]) as u16)
}

/// Units claimed by a call, given back by [`Resources::release`].
#[derive(Debug)]
pub struct ResourceGuard {
    units: ResourceTable,
}

impl ResourceGuard {
    /// The units the guard holds.
    pub closed spec fn units(&self) -> Seq<u16> {
        self.units@
    }
}

/// Resource kinds, their capacities and defaults, and the units in use.
#[derive(Debug)]
pub struct Resources {
    /// Resources currently in use by executing calls.
    totals: ResourceTable,
    /// Max capacity for all resource kinds
    pub capacities: ResourceTable,
    /// Default value for all resource kinds; unless a method has a resource limit defined,
    /// this is the cost of a call (0 means no default limit)
    pub defaults: ResourceTable,
    /// Labels for every registered resource
    pub labels: ResourceVec<&'static str>,
}

impl Resources {
    /// The units in use, resource by resource.
    pub closed spec fn totals(&self) -> Seq<u16> {
        self.totals@
    }

    /// The capacity of each resource.
    pub closed spec fn capacity_table(&self) -> Seq<u16> {
        self.capacities@
    }

    /// The default units of each resource.
    pub closed spec fn default_table(&self) -> Seq<u16> {
        self.defaults@
    }

    /// The labels of the registered resources, in order of registration.
    pub closed spec fn label_seq(&self) -> Seq<Seq<char>> {
        label_vec_items(self.labels)
    }

    /// The well-formedness of the resources: labels are distinct, and
    /// unregistered resources have no capacity or default.
    pub closed spec fn wf(&self) -> bool {
        &&& self.label_seq().len() <= RESOURCE_COUNT
        &&& forall|i: int, j: int|
            0 <= i < j < self.label_seq().len() ==> self.label_seq()[i] != self.label_seq()[j]
        &&& forall|i: int| self.label_seq().len() <= i < RESOURCE_COUNT ==> self.capacities@[i] == 0 && self.defaults@[i] == 0
    }

    /// No resource kinds, nothing in use.
    pub fn new() -> (res: Self)
        ensures
            res.wf(),
            res.totals() == seq![0u16; 8],
            res.capacity_table() == seq![0u16; 8],
            res.default_table() == seq![0u16; 8],
            res.label_seq() == Seq::<Seq<char>>::empty(),
    {
        let res = Resources {
            totals: [0; 8],
            capacities: [0; 8],
            defaults: [0; 8],
            labels: label_vec_new(),
        };
        assert(res.totals@ =~= seq![0u16; 8]);
        assert(res.capacity_table() =~= seq![0u16; 8]);
        assert(res.default_table() =~= seq![0u16; 8]);
        res
    }

    /// Register a new resource kind. Errors if `label` is already registered, or if the total
    /// number of registered resources would exceed 8.
    pub fn register(&mut self, label: &'static str, capacity: u16, default: u16) -> (res: Result<(), Error>)
        requires
            old(self).wf(),
        ensures
            final(self).wf(),
            old(self).label_seq().contains(label@) ==> res == Err::<(), Error>(
                Error::ResourceNameAlreadyTaken(label),
            ) && *final(self) == *old(self),
            !old(self).label_seq().contains(label@) && old(self).label_seq().len() == RESOURCE_COUNT
                ==> res == Err::<(), Error>(Error::MaxResourcesReached) && *final(self) == *old(self),
            !old(self).label_seq().contains(label@) && old(self).label_seq().len() < RESOURCE_COUNT ==> {
                let idx = old(self).label_seq().len() as int;
                &&& res is Ok
                &&& final(self).label_seq() == old(self).label_seq().push(label@)
                &&& final(self).capacity_table() == old(self).capacity_table().update(idx, capacity)
                &&& final(self).default_table() == old(self).default_table().update(idx, default)
                &&& final(self).totals() == old(self).totals()
            },
    {
        let n = label_vec_len(&self.labels);
        let mut i: usize = 0;
        while i < n
            invariant
                n == self.label_seq().len(),
                *self == *old(self),
                old(self).wf(),
                i <= n,
                forall|j: int| 0 <= j < i ==> self.label_seq()[j] != label@,
            decreases n - i,
        {
            if str_eq(label_vec_get(&self.labels, i), label) {
                return Err(Error::ResourceNameAlreadyTaken(label));
            }
            i = i + 1;
        }
        let idx = n;
        if !label_vec_try_push(&mut self.labels, label) {
            return Err(Error::MaxResourcesReached);
        }
        self.capacities[idx] = capacity;
        self.defaults[idx] = default;
        Ok(())
    }

    /// The default units of each resource.
    pub fn default_units(&self) -> (res: ResourceTable)
        ensures
            res@ == self.default_table(),
    {
        self.defaults
    }

    /// The capacity of resource `i`.
    pub fn capacity(&self, i: usize) -> (res: u16)
        requires
            i < RESOURCE_COUNT,
        ensures
            res == self.capacity_table()[i as int],
    {
        self.capacities[i]
    }

    /// The position of the resource registered under `label`, if any.
    pub fn position_of(&self, label: &str) -> (res: Option<usize>)
        requires
            self.wf(),
        ensures
            res is None <==> !self.label_seq().contains(label@),
            res matches Some(i) ==> i < self.label_seq().len() && i < RESOURCE_COUNT && i == label_index(self.label_seq(), label@),
    {
        let n = label_vec_len(&self.labels);
        let mut i: usize = 0;
        while i < n
            invariant
                n == self.label_seq().len(),
                self.wf(),
                i <= n,
                forall|j: int| 0 <= j < i ==> self.label_seq()[j] != label@,
            decreases n - i,
        {
            if str_eq(label_vec_get(&self.labels, i), label) {
                proof {
                    let c = label_index(self.label_seq(), label@);
                    assert(0 <= i < self.label_seq().len() && self.label_seq()[i as int] == label@
                        && forall|j: int| 0 <= j < i ==> self.label_seq()[j] != label@);
                    if c < i {
                        assert(self.label_seq()[c] != label@);
                    }
                    if c > i {
                        assert(self.label_seq()[i as int] != label@);
                    }
                }
                return Some(i);
            }
            i = i + 1;
        }
        None
    }

    /// Attempt to claim `units` units for each resource, incrementing current totals.
    /// If successful, returns a [`ResourceGuard`] holding the units, to be given back with
    /// [`Resources::release`].
    pub fn claim(&mut self, units: ResourceTable) -> (res: Result<ResourceGuard, Error>)
        requires
            old(self).wf(),
        ensures
            final(self).wf(),
            final(self).capacity_table() == old(self).capacity_table(),
            final(self).default_table() == old(self).default_table(),
            final(self).label_seq() == old(self).label_seq(),
            res is Ok <==> fits(old(self).totals(), units@, old(self).capacity_table()),
            res matches Ok(guard) ==> guard.units() == units@ && final(self).totals() == add_tables(
                old(self).totals(),
                units@,
            ),
            res is Err ==> final(self).totals() == old(self).totals() && ({
                let i = first_over_capacity(old(self).totals(), units@, old(self).capacity_table());
                res == Err::<ResourceGuard, Error>(Error::ResourceAtCapacity(
                    if i < old(self).label_seq().len() { res->Err_0->ResourceAtCapacity_0 } else { "<UNKNOWN>" },
                )) && (i < old(self).label_seq().len() ==> res->Err_0->ResourceAtCapacity_0@ == old(self).label_seq()[i])
            }),
    {
        let mut sum = self.totals;
        let mut idx: usize = 0;
        let mut over: bool = false;
        while idx < RESOURCE_COUNT && !over
            invariant
                idx <= RESOURCE_COUNT,
                forall|j: int| 0 <= j < idx ==> self.totals@[j] + units@[j] <= limit_of(self.capacities@[j]),
                forall|j: int| 0 <= j < idx ==> sum@[j] == self.totals@[j] + units@[j],
                forall|j: int| idx <= j < RESOURCE_COUNT ==> sum@[j] == self.totals@[j],
                over ==> idx < RESOURCE_COUNT && self.totals@[idx as int] + units@[idx as int] > limit_of(self.capacities@[idx as int]),
            decreases RESOURCE_COUNT - idx, if over { 0int } else { 1int },
        {
            let checked = sum[idx].checked_add(units[idx]);
            let within = match checked {
                Some(s) => self.capacities[idx] == 0 || s <= self.capacities[idx],
                None => false,
            };
            match checked {
                Some(s) if within => {
                    sum[idx] = s;
                    idx = idx + 1;
                },
                _ => {
                    over = true;
                },
            }
        }
        if over {
            proof {
                let i = first_over_capacity(self.totals@, units@, self.capacities@);
                assert(self.totals@[idx as int] + units@[idx as int] > limit_of(self.capacities@[idx as int]));
                if i < idx {
                    assert(self.totals@[i] + units@[i] <= limit_of(self.capacities@[i]));
                }
                if i > idx {
                    assert(self.totals@[idx as int] + units@[idx as int] <= limit_of(self.capacities@[idx as int]));
                }
                assert(i == idx);
            }
            let label = if idx < label_vec_len(&self.labels) {
                label_vec_get(&self.labels, idx)
            } else {
                "<UNKNOWN>"
            };
            return Err(Error::ResourceAtCapacity(label));
        }
        self.totals = sum;
        assert(self.totals@ =~= add_tables(old(self).totals@, units@));
        Ok(ResourceGuard { units })
    }

    /// Gives back the units that a guard holds.
    pub fn release(&mut self, guard: ResourceGuard)
        requires
            old(self).wf(),
            forall|i: int| 0 <= i < RESOURCE_COUNT ==> guard.units()[i] <= old(self).totals()[i],
        ensures
            final(self).wf(),
            final(self).capacity_table() == old(self).capacity_table(),
            final(self).default_table() == old(self).default_table(),
            final(self).label_seq() == old(self).label_seq(),
            final(self).totals() == sub_tables(old(self).totals(), guard.units()),
    {
        let mut idx: usize = 0;
        while idx < RESOURCE_COUNT
            invariant
                idx <= RESOURCE_COUNT,
                self.capacities == old(self).capacities,
                self.defaults == old(self).defaults,
                self.labels == old(self).labels,
                old(self).wf(),
                forall|i: int| 0 <= i < RESOURCE_COUNT ==> guard.units()[i] <= old(self).totals()[i],
                forall|j: int| 0 <= j < idx ==> self.totals@[j] == old(self).totals@[j] - guard.units@[j],
                forall|j: int| idx <= j < RESOURCE_COUNT ==> self.totals@[j] == old(self).totals@[j],
            decreases RESOURCE_COUNT - idx,
        {
            assert(guard.units()[idx as int] <= old(self).totals()[idx as int]);
            self.totals[idx] = self.totals[idx] - guard.units[idx];
            idx = idx + 1;
        }
        assert(self.totals@ =~= sub_tables(old(self).totals@, guard.units@));
        assert(self.label_seq() == old(self).label_seq());
    }
}

/// The tables of units in use, of capacities and of defaults have one entry
/// per resource kind.
pub proof fn lemma_totals_len(r: &Resources)
    ensures
        r.totals().len() == RESOURCE_COUNT,
        r.capacity_table().len() == RESOURCE_COUNT,
        r.default_table().len() == RESOURCE_COUNT,
{
}

/// Claiming units and then giving them back leaves the totals as they were.
pub proof fn lemma_claim_release(totals: Seq<u16>, units: Seq<u16>)
    requires
        totals.len() == RESOURCE_COUNT,
        units.len() == RESOURCE_COUNT,
        forall|i: int| 0 <= i < RESOURCE_COUNT ==> totals[i] + units[i] <= u16::MAX,
    ensures
        sub_tables(add_tables(totals, units), units) == totals,
{
    assert(sub_tables(add_tables(totals, units), units) =~= totals);
}

} // verus!
