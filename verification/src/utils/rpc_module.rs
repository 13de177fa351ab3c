//! Collections of RPC methods: registration, merging, lookup, and the
//! resources each method claims when it runs.
//!
//! The callbacks themselves (synchronous or asynchronous closures) are
//! opaque here: a [`MethodCallback`] is generic over them.

use crate::assoc::AssocList;
use crate::text::str_eq;
use crate::types::error::Error;
use crate::types::v2::error::ErrorCode;
use crate::types::v2::params::Id;
use crate::utils::helpers::{error_answer, error_answer_json};
use crate::utils::resource_limiting::{
    add_tables, fits, label_index, ResourceGuard, ResourceTable, Resources, RESOURCE_COUNT,
};
use arrayvec::ArrayVec;
use std::sync::Arc;
use vstd::prelude::*;

verus! {

/// The (label, units) pairs held by a vector of resource claims, in order.
pub uninterp spec fn claim_vec_items(v: ArrayVec<(&'static str, u16), 8>) -> Seq<(Seq<char>, u16)>;

/// Calls `ArrayVec::new`: an empty vector of resource claims.
#[verifier::external_body]
fn claim_vec_new() -> (res: ArrayVec<(&'static str, u16), 8>)
    ensures
        claim_vec_items(res) == Seq::<(Seq<char>, u16)>::empty(),
{
    ArrayVec::new()
}

/// Calls `ArrayVec::clone`: a second vector with the same claims.
#[verifier::external_body]
fn claim_vec_clone(v: &ArrayVec<(&'static str, u16), 8>) -> (res: ArrayVec<(&'static str, u16), 8>)
    ensures
        claim_vec_items(res) == claim_vec_items(*v),
{
    v.clone()
}

/// Calls `ArrayVec::try_push`: appends the claim when the vector is not full
/// and reports whether it did; a full vector is left unchanged.
#[verifier::external_body]
fn claim_vec_try_push(v: &mut ArrayVec<(&'static str, u16), 8>, label: &'static str, units: u16) -> (res: bool)
    ensures
        res == (claim_vec_items(*old(v)).len() < RESOURCE_COUNT),
        res ==> claim_vec_items(*final(v)) == claim_vec_items(*old(v)).push((label@, units)),
        !res ==> *final(v) == *old(v),
{
    match v.try_push((label, units)) {
        Ok(()) => true,
        Err(_) => false,
    }
}

/// Calls `ArrayVec::len`: the number of claims, which never exceeds the
/// capacity of the vector.
#[verifier::external_body]
fn claim_vec_len(v: &ArrayVec<(&'static str, u16), 8>) -> (res: usize)
    ensures
        res == claim_vec_items(*v).len(),
        res <= RESOURCE_COUNT,
{
    v.len()
}

/// Calls `ArrayVec::get`: the claim at position `i`.
#[verifier::external_body]
fn claim_vec_get(v: &ArrayVec<(&'static str, u16), 8>, i: usize) -> (res: (&'static str, u16))
    requires
        i < claim_vec_items(*v).len(),
    ensures
        (res.0@, res.1) == claim_vec_items(*v)[i as int],
{
    v[i]
}

/// Information about resources the method uses during its execution.
/// Initialized when the server starts.
#[derive(Debug)]
pub enum MethodResources {
    /// Uninitialized resource table, mapping string label to units.
    Uninitialized(ArrayVec<(&'static str, u16), 8>),
    /// Initialized resource table containing units for each resource.
    Initialized(ResourceTable),
}

/// Whether two resource tables of methods claim the same.
pub open spec fn same_resources(a: MethodResources, b: MethodResources) -> bool {
    match (a, b) {
        (MethodResources::Uninitialized(x), MethodResources::Uninitialized(y)) => claim_vec_items(x)
            == claim_vec_items(y),
        (MethodResources::Initialized(x), MethodResources::Initialized(y)) => x == y,
        _ => false,
    }
}

/// The position of the first claim whose label is not registered.
pub open spec fn first_unknown_label(labels: Seq<Seq<char>>, claims: Seq<(Seq<char>, u16)>) -> int {
    choose|j: int|
        0 <= j < claims.len() && !labels.contains(claims[j].0) && forall|k: int|
            0 <= k < j ==> labels.contains(#[trigger] claims[k].0)
}

/// The units of each resource that a method with these claims uses: the
/// defaults, overridden by each claim in order, except that a resource with
/// capacity 0 is unlimited and costs nothing.
pub open spec fn claimed_table(
    defaults: Seq<u16>,
    capacities: Seq<u16>,
    labels: Seq<Seq<char>>,
    claims: Seq<(Seq<char>, u16)>,
) -> Seq<u16>
    decreases claims.len(),
{
    if claims.len() == 0 {
        defaults
    } else {
        let m = claimed_table(defaults, capacities, labels, claims.drop_last());
        let (l, u) = claims.last();
        let i = label_index(labels, l);
        m.update(i, if capacities[i] == 0 { 0u16 } else { u })
    }
}

impl MethodResources {
    /// The resource table of a method, with labels resolved against
    /// `resources`. A table that is initialized already is kept as it is.
    /// Fails with the first claim whose label is not registered.
    pub fn initialize(&self, method_name: &'static str, resources: &Resources) -> (res: Result<
        MethodResources,
        Error,
    >)
        requires
            resources.wf(),
        ensures
            self matches MethodResources::Initialized(t) ==> res matches Ok(
                MethodResources::Initialized(t2),
            ) && t2@ == t@,
            self matches MethodResources::Uninitialized(v) ==> ({
                let claims = claim_vec_items(*v);
                let labels = resources.label_seq();
                if forall|j: int| 0 <= j < claims.len() ==> labels.contains(#[trigger] claims[j].0) {
                    res matches Ok(MethodResources::Initialized(t)) && t@ == claimed_table(
                        resources.default_table(),
                        resources.capacity_table(),
                        labels,
                        claims,
                    )
                } else {
                    res matches Err(Error::ResourceNameNotFoundForMethod(l, m)) && l@ == claims[first_unknown_label(labels, claims)].0 && m == method_name
                }
            }),
    {
        match self {
            MethodResources::Initialized(t) => Ok(MethodResources::Initialized(*t)),
            MethodResources::Uninitialized(uninit) => {
                let ghost claims = claim_vec_items(*uninit);
                let ghost labels = resources.label_seq();
                let mut map = resources.default_units();
                let n = claim_vec_len(uninit);
                let mut k: usize = 0;
                while k < n
                    invariant
                        n == claims.len(),
                        *self == MethodResources::Uninitialized(*uninit),
                        claims == claim_vec_items(*uninit),
                        labels == resources.label_seq(),
                        resources.wf(),
                        k <= n,
                        forall|j: int| 0 <= j < k ==> labels.contains(#[trigger] claims[j].0),
                        map@ == claimed_table(resources.default_table(), resources.capacity_table(), labels, claims.take(k as int)),
                    decreases n - k,
                {
                    let (label, units) = claim_vec_get(uninit, k);
                    let found = resources.position_of(label);
                    match found {
                        Some(idx) => {
                            let cap = resources.capacity(idx);
                            map[idx] = if cap == 0 { 0 } else { units };
                            proof {
                                assert(claims.take(k + 1).drop_last() =~= claims.take(k as int));
                                assert(labels.contains(claims[k as int].0));
                            }
                        },
                        None => {
                            proof {
                                assert(0 <= k < claims.len() && !labels.contains(claims[k as int].0)
                                    && forall|m: int| 0 <= m < k ==> labels.contains(#[trigger] claims[m].0));
                                let j = first_unknown_label(labels, claims);
                                if j < k {
                                    assert(labels.contains(claims[j].0));
                                }
                                if j > k {
                                    assert(labels.contains(claims[k as int].0));
                                }
                            }
                            return Err(Error::ResourceNameNotFoundForMethod(label, method_name));
                        },
                    }
                    k = k + 1;
                }
                proof {
                    assert(claims.take(n as int) =~= claims);
                }
                Ok(MethodResources::Initialized(map))
            },
        }
    }
}

/// The resource table that a method's resources resolve to against the
/// registered resources; `None` when one of its labels is not registered.
pub open spec fn method_table(resources: &Resources, r: MethodResources) -> Option<Seq<u16>> {
    match r {
        MethodResources::Initialized(t) => Some(t@),
        MethodResources::Uninitialized(v) => {
            let claims = claim_vec_items(v);
            if forall|j: int| 0 <= j < claims.len() ==> resources.label_seq().contains(#[trigger] claims[j].0) {
                Some(claimed_table(resources.default_table(), resources.capacity_table(), resources.label_seq(), claims))
            } else {
                None
            }
        },
    }
}

/// Builder for configuring resources used by a method.
#[derive(Debug)]
pub struct MethodResourcesBuilder {
    build: ArrayVec<(&'static str, u16), 8>,
}

impl MethodResourcesBuilder {
    /// The claims added so far, in order.
    pub closed spec fn claims(&self) -> Seq<(Seq<char>, u16)> {
        claim_vec_items(self.build)
    }

    /// A builder without claims.
    pub fn new() -> (res: Self)
        ensures
            res.claims() == Seq::<(Seq<char>, u16)>::empty(),
    {
        MethodResourcesBuilder { build: claim_vec_new() }
    }

    /// Define how many units of a given named resource the method uses during its execution.
    pub fn resource(self, label: &'static str, units: u16) -> (res: Result<Self, Error>)
        ensures
            self.claims().len() < RESOURCE_COUNT ==> (res matches Ok(b) && b.claims() == self.claims().push((label@, units))),
            self.claims().len() >= RESOURCE_COUNT ==> res == Err::<Self, Error>(Error::MaxResourcesReached),
    {
        let mut this = self;
        if claim_vec_try_push(&mut this.build, label, units) {
            Ok(this)
        } else {
            Err(Error::MaxResourcesReached)
        }
    }

    /// The uninitialized resource table of the claims.
    pub fn build(self) -> (res: MethodResources)
        ensures
            (res matches MethodResources::Uninitialized(v) && claim_vec_items(v) == self.claims()),
    {
        MethodResources::Uninitialized(self.build)
    }
}

/// Method callback wrapper that contains a sync or async closure,
/// plus a table with resources it needs to claim to run.
#[derive(Debug)]
pub struct MethodCallback<K> {
    callback: K,
    resources: MethodResources,
}

impl<K> MethodCallback<K> {
    /// The callback.
    pub closed spec fn spec_callback(&self) -> K {
        self.callback
    }

    /// The resource table of the method.
    pub closed spec fn spec_resources(&self) -> MethodResources {
        self.resources
    }

    /// A method with the given callback that claims no resources yet.
    pub fn new(callback: K) -> (res: Self)
        ensures
            res.spec_callback() == callback,
            (res.spec_resources() matches MethodResources::Uninitialized(v) && claim_vec_items(v).len() == 0),
    {
        MethodCallback { callback, resources: MethodResources::Uninitialized(claim_vec_new()) }
    }

    /// The callback.
    pub fn callback(&self) -> (res: &K)
        ensures
            *res == self.spec_callback(),
    {
        &self.callback
    }

    /// Replaces the resource table of the method.
    pub fn set_resources(&mut self, resources: MethodResources)
        ensures
            final(self).spec_callback() == old(self).spec_callback(),
            final(self).spec_resources() == resources,
    {
        self.resources = resources;
    }

    /// Attempt to claim resources prior to executing a method. On success returns a guard
    /// holding the claimed units.
    pub fn claim(&self, name: &str, resources: &mut Resources) -> (res: Result<ResourceGuard, Error>)
        requires
            old(resources).wf(),
        ensures
            final(resources).wf(),
            self.spec_resources() is Uninitialized ==> res == Err::<ResourceGuard, Error>(
                Error::UninitializedMethod(res->Err_0->UninitializedMethod_0),
            ) && res->Err_0->UninitializedMethod_0@ == name@ && *final(resources) == *old(resources),
            self.spec_resources() matches MethodResources::Initialized(units) ==> ({
                &&& res is Ok <==> crate::utils::resource_limiting::fits(old(resources).totals(), units@, old(resources).capacity_table())
                &&& res matches Ok(g) ==> g.units() == units@ && final(resources).totals() == crate::utils::resource_limiting::add_tables(old(resources).totals(), units@)
                &&& res is Err ==> final(resources).totals() == old(resources).totals()
            }),
            final(resources).capacity_table() == old(resources).capacity_table(),
            final(resources).default_table() == old(resources).default_table(),
            final(resources).label_seq() == old(resources).label_seq(),
    {
        match &self.resources {
            MethodResources::Uninitialized(_) => Err(Error::UninitializedMethod(name.to_owned())),
            MethodResources::Initialized(units) => resources.claim(*units),
        }
    }
}

impl<K: Clone> MethodCallback<K> {
    /// A second method with a clone of the callback and the same resources.
    pub fn duplicate(&self) -> (res: Self)
        ensures
            cloned(self.spec_callback(), res.spec_callback()),
            same_resources(self.spec_resources(), res.spec_resources()),
    {
        let resources = match &self.resources {
            MethodResources::Uninitialized(claims) => MethodResources::Uninitialized(claim_vec_clone(claims)),
            MethodResources::Initialized(units) => MethodResources::Initialized(*units),
        };
        MethodCallback { callback: self.callback.clone(), resources }
    }
}

/// How a call proceeds, decided before its callback runs.
pub enum CallPlan<'a, K> {
    /// No method has that name: the request is answered with this error text.
    NotFound {
        /// The answer to send.
        answer: String,
    },
    /// The resources of the method could not be claimed: the request is
    /// answered with this error text.
    Busy {
        /// The name of the method.
        name: &'static str,
        /// The answer to send.
        answer: String,
    },
    /// The callback runs, holding the claimed units until it is done.
    Run {
        /// The name of the method.
        name: &'static str,
        /// The callback to run.
        callback: &'a K,
        /// The claimed units.
        guard: ResourceGuard,
    },
}

/// Collection of synchronous and asynchronous methods, by name.
#[derive(Debug)]
pub struct Methods<K> {
    callbacks: AssocList<&'static str, MethodCallback<K>>,
}

impl<K> Methods<K> {
    /// The methods, by name.
    pub closed spec fn map(&self) -> Map<Seq<char>, MethodCallback<K>> {
        self.callbacks.map()
    }

    /// The names of the methods, in order of registration.
    pub closed spec fn names(&self) -> Seq<Seq<char>> {
        self.callbacks.entries().map_values(|e: (&'static str, MethodCallback<K>)| e.0@)
    }

    /// The internal list is well formed.
    pub closed spec fn wf(&self) -> bool {
        self.callbacks.wf()
    }

    /// The names of the methods are the keys of the map, each once.
    pub proof fn lemma_names_are_keys(&self)
        requires
            self.wf(),
        ensures
            self.names().no_duplicates(),
            forall|n: Seq<char>| self.names().contains(n) <==> self.map().contains_key(n),
            self.names().len() == self.map().dom().len(),
    {
        let e = self.callbacks.entries();
        let names = self.names();
        assert forall|i: int, j: int| 0 <= i < names.len() && 0 <= j < names.len() && i != j implies names[i]
            != names[j] by {
            assert(e[i].0@ == names[i] && e[j].0@ == names[j]);
        }
        assert forall|n: Seq<char>| self.names().contains(n) <==> self.map().contains_key(n) by {
            if self.names().contains(n) {
                let i = choose|i: int| 0 <= i < names.len() && names[i] == n;
                self.callbacks.lemma_entry_in_map(i);
            }
            if self.map().contains_key(n) {
                let i = choose|i: int| 0 <= i < e.len() && (#[trigger] e[i]).0@ == n;
                assert(names[i] == n);
            }
        }
        self.callbacks.lemma_len();
    }

    /// Creates a new empty [`Methods`].
    pub fn new() -> (res: Self)
        ensures
            res.wf(),
            res.map() == Map::<Seq<char>, MethodCallback<K>>::empty(),
    {
        Methods { callbacks: AssocList::new() }
    }

    /// Fails if a method with this name is registered already.
    pub fn verify_method_name(&self, name: &'static str) -> (res: Result<(), Error>)
        requires
            self.wf(),
        ensures
            res is Ok <==> !self.map().contains_key(name@),
            res is Err ==> res == Err::<(), Error>(Error::MethodAlreadyRegistered(res->Err_0->MethodAlreadyRegistered_0))
                && res->Err_0->MethodAlreadyRegistered_0@ == name@,
    {
        match self.callbacks.find(&name) {
            Some(_) => Err(Error::MethodAlreadyRegistered(name.to_owned())),
            None => Ok(()),
        }
    }

    /// Inserts the method callback for a given name, or returns an error if the name was
    /// already taken.
    pub fn verify_and_insert(&mut self, name: &'static str, callback: MethodCallback<K>) -> (res: Result<(), Error>)
        requires
            old(self).wf(),
        ensures
            final(self).wf(),
            res is Ok <==> !old(self).map().contains_key(name@),
            res is Ok ==> final(self).map() == old(self).map().insert(name@, callback),
            res is Err ==> final(self).map() == old(self).map() && res == Err::<(), Error>(
                Error::MethodAlreadyRegistered(res->Err_0->MethodAlreadyRegistered_0),
            ) && res->Err_0->MethodAlreadyRegistered_0@ == name@,
    {
        match self.callbacks.find(&name) {
            Some(_) => Err(Error::MethodAlreadyRegistered(name.to_owned())),
            None => {
                self.callbacks.insert_new(name, callback);
                Ok(())
            },
        }
    }

    /// Returns the method callback.
    pub fn method(&self, method_name: &str) -> (res: Option<&MethodCallback<K>>)
        requires
            self.wf(),
        ensures
            res is Some <==> self.map().contains_key(method_name@),
            res matches Some(cb) ==> *cb == self.map()[method_name@],
    {
        match self.method_with_name(method_name) {
            Some((_, cb)) => Some(cb),
            None => None,
        }
    }

    /// Returns the method callback along with its name. The returned name is same as the
    /// `method_name`, but its lifetime bound is `'static`.
    pub fn method_with_name(&self, method_name: &str) -> (res: Option<(&'static str, &MethodCallback<K>)>)
        requires
            self.wf(),
        ensures
            res is Some <==> self.map().contains_key(method_name@),
            res matches Some((n, cb)) ==> n@ == method_name@ && *cb == self.map()[method_name@],
    {
        let n = self.callbacks.len();
        let mut i: usize = 0;
        while i < n
            invariant
                n == self.callbacks.entries().len(),
                self.wf(),
                i <= n,
                forall|j: int| 0 <= j < i ==> (#[trigger] self.callbacks.entries()[j]).0@ != method_name@,
            decreases n - i,
        {
            let entry = self.callbacks.entry_at(i);
            if str_eq(entry.0, method_name) {
                proof {
                    self.callbacks.lemma_entry_in_map(i as int);
                }
                return Some((entry.0, &entry.1));
            }
            i = i + 1;
        }
        proof {
            if self.map().contains_key(method_name@) {
                let j = choose|j: int| 0 <= j < self.callbacks.entries().len() && (#[trigger] self.callbacks.entries()[j]).0@ == method_name@;
                assert(self.callbacks.entries()[j].0@ != method_name@);
            }
        }
        None
    }

    /// The names of all registered methods, in order of registration.
    pub fn method_names(&self) -> (res: Vec<&'static str>)
        ensures
            res@.map_values(|s: &'static str| s@) == self.names(),
    {
        let n = self.callbacks.len();
        let mut out: Vec<&'static str> = Vec::new();
        let mut i: usize = 0;
        while i < n
            invariant
                n == self.callbacks.entries().len(),
                i <= n,
                out@.len() == i,
                forall|j: int| 0 <= j < i ==> (#[trigger] out@[j])@ == self.callbacks.entries()[j].0@,
            decreases n - i,
        {
            out.push(self.callbacks.entry_at(i).0);
            i = i + 1;
        }
        assert(out@.map_values(|s: &'static str| s@) =~= self.names());
        out
    }

    /// Initialize resources for all methods in this collection. A method whose resources are
    /// initialized already is left as it is. Fails when some method claims a resource that is
    /// not registered.
    pub fn initialize_resources(self, resources: &Resources) -> (res: Result<Self, Error>)
        requires
            self.wf(),
            resources.wf(),
        ensures
            res is Ok <==> forall|n: Seq<char>| #[trigger] self.map().contains_key(n) ==> method_table(
                resources,
                self.map()[n].spec_resources(),
            ) is Some,
            res matches Ok(m) ==> {
                &&& m.wf()
                &&& m.map().dom() == self.map().dom()
                &&& forall|n: Seq<char>| #[trigger] self.map().contains_key(n) ==> {
                    &&& m.map()[n].spec_callback() == self.map()[n].spec_callback()
                    &&& m.map()[n].spec_resources() matches MethodResources::Initialized(t)
                    &&& Some(t@) == method_table(resources, self.map()[n].spec_resources())
                }
            },
            res matches Err(e) ==> exists|n: Seq<char>| #[trigger] self.map().contains_key(n)
                && method_table(resources, self.map()[n].spec_resources()) is None && (
            e matches Error::ResourceNameNotFoundForMethod(_, m) && m@ == n),
    {
        let mut this = self;
        let ghost orig = this.callbacks.entries();
        let n = this.callbacks.len();
        let mut i: usize = 0;
        while i < n
            invariant
                n == orig.len(),
                i <= n,
                self.wf(),
                orig == self.callbacks.entries(),
                this.callbacks.entries().len() == n,
                resources.wf(),
                AssocList::<&'static str, MethodCallback<K>>::distinct_keys(orig),
                forall|j: int| 0 <= j < n ==> (#[trigger] this.callbacks.entries()[j]).0 == orig[j].0,
                forall|j: int| 0 <= j < n ==> (#[trigger] this.callbacks.entries()[j]).1.spec_callback() == orig[j].1.spec_callback(),
                forall|j: int| i <= j < n ==> (#[trigger] this.callbacks.entries()[j]).1 == orig[j].1,
                forall|j: int| 0 <= j < i ==> method_table(resources, (#[trigger] orig[j]).1.spec_resources()) is Some,
                forall|j: int| 0 <= j < i ==> ((#[trigger] this.callbacks.entries()[j]).1.spec_resources() matches MethodResources::Initialized(t)
                    && Some(t@) == method_table(resources, orig[j].1.spec_resources())),
            decreases n - i,
        {
            let ghost before = this.callbacks.entries();
            let name = this.callbacks.entry_at(i).0;
            let initialized = this.callbacks.entry_at(i).1.resources.initialize(name, resources);
            match initialized {
                Ok(r) => {
                    proof {
                        match orig[i as int].1.spec_resources() {
                            MethodResources::Initialized(t) => {},
                            MethodResources::Uninitialized(v) => {},
                        }
                    }
                    let cb = this.callbacks.value_mut_at(i);
                    cb.set_resources(r);
                },
                Err(e) => {
                    proof {
                        let k = orig[i as int].0@;
                        self.callbacks.lemma_entry_in_map(i as int);
                        assert(self.map().contains_key(k));
                        assert(method_table(resources, self.map()[k].spec_resources()) is None);
                    }
                    return Err(e);
                },
            }
            i = i + 1;
        }
        proof {
            assert forall|a: int, b: int|
                0 <= a < this.callbacks.entries().len() && 0 <= b < this.callbacks.entries().len() && a != b implies
                (#[trigger] this.callbacks.entries()[a]).0@ != (#[trigger] this.callbacks.entries()[b]).0@ by {
                assert(orig[a].0@ != orig[b].0@);
            }
            assert(this.callbacks.wf());
            assert forall|k: Seq<char>| #[trigger] this.map().contains_key(k) <==> self.map().contains_key(k) by {
                if this.map().contains_key(k) {
                    let a = choose|a: int| 0 <= a < this.callbacks.entries().len() && (#[trigger] this.callbacks.entries()[a]).0@ == k;
                    self.callbacks.lemma_entry_in_map(a);
                }
                if self.map().contains_key(k) {
                    let a = choose|a: int| 0 <= a < orig.len() && (#[trigger] orig[a]).0@ == k;
                    this.callbacks.lemma_entry_in_map(a);
                }
            }
            assert(this.map().dom() =~= self.map().dom());
            assert forall|k: Seq<char>| #[trigger] self.map().contains_key(k) implies {
                &&& method_table(resources, self.map()[k].spec_resources()) is Some
                &&& this.map()[k].spec_callback() == self.map()[k].spec_callback()
                &&& this.map()[k].spec_resources() matches MethodResources::Initialized(t)
                &&& Some(t@) == method_table(resources, self.map()[k].spec_resources())
            } by {
                let a = choose|a: int| 0 <= a < orig.len() && (#[trigger] orig[a]).0@ == k;
                self.callbacks.lemma_entry_in_map(a);
                this.callbacks.lemma_entry_in_map(a);
            }
        }
        Ok(this)
    }

    /// Merge two [`Methods`]'s by adding all [`MethodCallback`]s from `other` into `self`.
    /// Fails if any of the methods in `other` is present already, and then leaves `self` as it
    /// was.
    pub fn merge(&mut self, other: Methods<K>) -> (res: Result<(), Error>)
        requires
            old(self).wf(),
            other.wf(),
        ensures
            final(self).wf(),
            res is Ok <==> old(self).map().dom().disjoint(other.map().dom()),
            res is Ok ==> final(self).map() == old(self).map().union_prefer_right(other.map()),
            res matches Err(e) ==> final(self).map() == old(self).map() && (e matches Error::MethodAlreadyRegistered(n)
                && old(self).map().contains_key(n@) && other.map().contains_key(n@)),
    {
        let n = other.callbacks.len();
        let mut i: usize = 0;
        while i < n
            invariant
                n == other.callbacks.entries().len(),
                i <= n,
                self.wf(),
                other.wf(),
                *self == *old(self),
                forall|j: int| 0 <= j < i ==> !self.map().contains_key((#[trigger] other.callbacks.entries()[j]).0@),
            decreases n - i,
        {
            let name = other.callbacks.entry_at(i).0;
            match self.verify_method_name(name) {
                Ok(()) => {},
                Err(e) => {
                    proof {
                        other.callbacks.lemma_entry_in_map(i as int);
                    }
                    return Err(e);
                },
            }
            i = i + 1;
        }
        proof {
            assert forall|k: Seq<char>| self.map().contains_key(k) && other.map().contains_key(k) implies false by {
                let a = choose|a: int| 0 <= a < other.callbacks.entries().len() && (#[trigger] other.callbacks.entries()[a]).0@ == k;
            }
            assert(self.map().dom().disjoint(other.map().dom()));
        }
        let mut rest = other;
        while rest.callbacks.len() > 0
            invariant
                self.wf(),
                rest.wf(),
                self.map().dom().disjoint(rest.map().dom()),
                self.map().union_prefer_right(rest.map()) == old(self).map().union_prefer_right(other.map()),
            decreases rest.callbacks.entries().len(),
        {
            let last = rest.callbacks.len() - 1;
            let ghost before_self = self.map();
            let ghost before_rest = rest.map();
            let (k, v) = rest.callbacks.remove_at(last);
            self.callbacks.insert_new(k, v);
            proof {
                assert(self.map().union_prefer_right(rest.map()) =~= before_self.union_prefer_right(before_rest));
                assert(self.map().dom().disjoint(rest.map().dom()));
            }
        }
        proof {
            rest.callbacks.lemma_len();
            assert(rest.map().dom().len() == 0);
            assert(rest.map() =~= Map::<Seq<char>, MethodCallback<K>>::empty()) by {
                assert forall|k: Seq<char>| !rest.map().contains_key(k) by {
                    if rest.map().contains_key(k) {
                        vstd::set::axiom_set_remove_len(rest.map().dom(), k);
                    }
                }
            }
            assert(self.map().union_prefer_right(rest.map()) =~= self.map());
        }
        Ok(())
    }

    /// Decides how a request for `method_name` with ID `id` proceeds while
    /// checking that the call does not exhaust the available resources: an
    /// unknown method is answered "method not found"; a method whose units
    /// cannot be claimed (or whose resources were never initialized) is
    /// answered "server is busy"; otherwise its units are claimed and its
    /// callback runs.
    pub fn plan_call(&self, id: Id, method_name: &str, resources: &mut Resources) -> (res: CallPlan<'_, K>)
        requires
            self.wf(),
            old(resources).wf(),
        ensures
            final(resources).wf(),
            final(resources).capacity_table() == old(resources).capacity_table(),
            final(resources).default_table() == old(resources).default_table(),
            final(resources).label_seq() == old(resources).label_seq(),
            !self.map().contains_key(method_name@) ==> (res matches CallPlan::NotFound { answer } && answer@
                == error_answer_json(ErrorCode::MethodNotFound, id)) && *final(resources) == *old(resources),
            self.map().contains_key(method_name@) ==> ({
                let cb = self.map()[method_name@];
                let runs = cb.spec_resources() matches MethodResources::Initialized(units) && fits(
                    old(resources).totals(),
                    units@,
                    old(resources).capacity_table(),
                );
                &&& runs ==> (res matches CallPlan::Run { name, callback, guard } && name@ == method_name@
                    && *callback == cb.spec_callback() && guard.units() == cb.spec_resources()->Initialized_0@
                    && final(resources).totals() == add_tables(old(resources).totals(), guard.units()))
                &&& !runs ==> (res matches CallPlan::Busy { name, answer } && name@ == method_name@ && answer@
                    == error_answer_json(ErrorCode::ServerIsBusy, id)) && final(resources).totals()
                    == old(resources).totals()
            }),
    {
        match self.method_with_name(method_name) {
            Some((name, callback)) => match callback.claim(method_name, resources) {
                Ok(guard) => CallPlan::Run { name, callback: callback.callback(), guard },
                Err(_) => CallPlan::Busy { name, answer: error_answer(ErrorCode::ServerIsBusy, id) },
            },
            None => CallPlan::NotFound { answer: error_answer(ErrorCode::MethodNotFound, id) },
        }
    }
}

/// Sets of JSON-RPC methods can be organized into a "module"s that are in turn registered on the server or,
/// alternatively, merged with other modules to construct a cohesive API. [`RpcModule`] wraps an additional context
/// argument that can be used to access data during call execution.
#[derive(Debug)]
pub struct RpcModule<Context, K> {
    ctx: Arc<Context>,
    methods: Methods<K>,
}

impl<Context, K> RpcModule<Context, K> {
    /// The methods of the module.
    pub closed spec fn spec_methods(&self) -> Methods<K> {
        self.methods
    }

    /// The shared context.
    pub closed spec fn spec_context(&self) -> Context {
        *self.ctx
    }

    /// The methods are well formed.
    pub open spec fn wf(&self) -> bool {
        self.spec_methods().wf()
    }

    /// Create a new module with a given shared `Context`.
    pub fn new(ctx: Context) -> (res: Self)
        ensures
            res.wf(),
            res.spec_methods().map() == Map::<Seq<char>, MethodCallback<K>>::empty(),
            res.spec_context() == ctx,
    {
        RpcModule { ctx: Arc::new(ctx), methods: Methods::new() }
    }

    /// The shared context, to hand to the callbacks.
    pub fn context(&self) -> (res: &Arc<Context>)
        ensures
            **res == self.spec_context(),
    {
        &self.ctx
    }

    /// The methods of the module.
    pub fn methods(&self) -> (res: &Methods<K>)
        ensures
            *res == self.spec_methods(),
    {
        &self.methods
    }

    /// The methods of the module, without the context.
    pub fn into_methods(self) -> (res: Methods<K>)
        ensures
            res == self.spec_methods(),
    {
        self.methods
    }

    /// Returns the method callback.
    pub fn method(&self, method_name: &str) -> (res: Option<&MethodCallback<K>>)
        requires
            self.wf(),
        ensures
            res is Some <==> self.spec_methods().map().contains_key(method_name@),
            res matches Some(cb) ==> *cb == self.spec_methods().map()[method_name@],
    {
        self.methods.method(method_name)
    }

    /// Register a new RPC method, or fail if the name is taken already.
    pub fn register_method(&mut self, method_name: &'static str, callback: MethodCallback<K>) -> (res: Result<(), Error>)
        requires
            old(self).wf(),
        ensures
            final(self).wf(),
            final(self).spec_context() == old(self).spec_context(),
            res is Ok <==> !old(self).spec_methods().map().contains_key(method_name@),
            res is Ok ==> final(self).spec_methods().map() == old(self).spec_methods().map().insert(method_name@, callback),
            res is Err ==> final(self).spec_methods().map() == old(self).spec_methods().map() && (res matches Err(
                Error::MethodAlreadyRegistered(n),
            ) && n@ == method_name@),
    {
        self.methods.verify_and_insert(method_name, callback)
    }

    /// Register a new RPC subscription: the method that starts it and the one that ends it,
    /// whose names must differ and be free.
    pub fn register_subscription(
        &mut self,
        subscribe_method_name: &'static str,
        unsubscribe_method_name: &'static str,
        subscribe: MethodCallback<K>,
        unsubscribe: MethodCallback<K>,
    ) -> (res: Result<(), Error>)
        requires
            old(self).wf(),
        ensures
            final(self).wf(),
            final(self).spec_context() == old(self).spec_context(),
            subscribe_method_name@ == unsubscribe_method_name@ ==> (res matches Err(Error::SubscriptionNameConflict(n))
                && n@ == subscribe_method_name@),
            subscribe_method_name@ != unsubscribe_method_name@ && old(self).spec_methods().map().contains_key(
                subscribe_method_name@,
            ) ==> (res matches Err(Error::MethodAlreadyRegistered(n)) && n@ == subscribe_method_name@),
            subscribe_method_name@ != unsubscribe_method_name@ && !old(self).spec_methods().map().contains_key(
                subscribe_method_name@,
            ) && old(self).spec_methods().map().contains_key(unsubscribe_method_name@) ==> (res matches Err(
                Error::MethodAlreadyRegistered(n),
            ) && n@ == unsubscribe_method_name@),
            res is Err ==> final(self).spec_methods().map() == old(self).spec_methods().map(),
            res is Ok <==> (subscribe_method_name@ != unsubscribe_method_name@ && !old(self).spec_methods().map().contains_key(
                subscribe_method_name@,
            ) && !old(self).spec_methods().map().contains_key(unsubscribe_method_name@)),
            res is Ok ==> final(self).spec_methods().map() == old(self).spec_methods().map().insert(
                subscribe_method_name@,
                subscribe,
            ).insert(unsubscribe_method_name@, unsubscribe),
    {
        if crate::text::str_eq(subscribe_method_name, unsubscribe_method_name) {
            return Err(Error::SubscriptionNameConflict(subscribe_method_name.to_owned()));
        }
        match self.methods.verify_method_name(subscribe_method_name) {
            Ok(()) => {},
            Err(e) => return Err(e),
        }
        match self.methods.verify_method_name(unsubscribe_method_name) {
            Ok(()) => {},
            Err(e) => return Err(e),
        }
        let _ = self.methods.verify_and_insert(subscribe_method_name, subscribe);
        let _ = self.methods.verify_and_insert(unsubscribe_method_name, unsubscribe);
        Ok(())
    }

    /// Merge two [`RpcModule`]'s by adding all methods from `other` into `self`; the contexts
    /// may differ. Fails if any of the methods in `other` is present already.
    pub fn merge<Context2>(&mut self, other: RpcModule<Context2, K>) -> (res: Result<(), Error>)
        requires
            old(self).wf(),
            other.wf(),
        ensures
            final(self).wf(),
            final(self).spec_context() == old(self).spec_context(),
            res is Ok <==> old(self).spec_methods().map().dom().disjoint(other.spec_methods().map().dom()),
            res is Ok ==> final(self).spec_methods().map() == old(self).spec_methods().map().union_prefer_right(
                other.spec_methods().map(),
            ),
            res is Err ==> final(self).spec_methods().map() == old(self).spec_methods().map(),
    {
        self.methods.merge(other.methods)
    }
}

impl<Context, K: Clone> RpcModule<Context, K> {
    /// Register an alias for an existing_method. Alias uniqueness is enforced.
    pub fn register_alias(&mut self, alias: &'static str, existing_method: &'static str) -> (res: Result<(), Error>)
        requires
            old(self).wf(),
        ensures
            final(self).wf(),
            final(self).spec_context() == old(self).spec_context(),
            old(self).spec_methods().map().contains_key(alias@) ==> (res matches Err(Error::MethodAlreadyRegistered(n))
                && n@ == alias@),
            !old(self).spec_methods().map().contains_key(alias@) && !old(self).spec_methods().map().contains_key(
                existing_method@,
            ) ==> (res matches Err(Error::MethodNotFound(n)) && n@ == existing_method@),
            res is Err ==> final(self).spec_methods().map() == old(self).spec_methods().map(),
            res is Ok <==> (!old(self).spec_methods().map().contains_key(alias@) && old(self).spec_methods().map().contains_key(
                existing_method@,
            )),
            res is Ok ==> ({
                let existing = old(self).spec_methods().map()[existing_method@];
                let added = final(self).spec_methods().map()[alias@];
                &&& final(self).spec_methods().map() == old(self).spec_methods().map().insert(alias@, added)
                &&& cloned(existing.spec_callback(), added.spec_callback())
                &&& same_resources(existing.spec_resources(), added.spec_resources())
            }),
    {
        match self.methods.verify_method_name(alias) {
            Ok(()) => {},
            Err(e) => return Err(e),
        }
        let callback = match self.methods.method(existing_method) {
            Some(callback) => callback.duplicate(),
            None => return Err(Error::MethodNotFound(existing_method.to_owned())),
        };
        let _ = self.methods.verify_and_insert(alias, callback);
        Ok(())
    }
}

} // verus!
