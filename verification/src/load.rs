//! Load orchestration. Fetching is a capability of the surrounding
//! application; the core drives it through `CatalogLoader`, a step-by-step
//! builder that names the next file to fetch and assembles the catalog, all
//! or nothing: a `LoadedIndex` exists only once every candidate scenario has
//! been supplied, so no partial catalog is ever observable. `State` mirrors
//! the session's load status; a new load may start only in its initial
//! state, so no two loads run against the same session at once.

use vstd::prelude::*;

use crate::catalog::{Index, LoadedIndex, Scenario, ScenarioMeta};
use crate::errors::FetchError;

verus! {

/// The candidate scenario list of an index: the declared scenarios in
/// order, then the beta scenario if present.
pub open spec fn candidates_of(index: Index) -> Seq<ScenarioMeta> {
    match index.beta {
        Some(b) => index.scenarios@.push(b),
        None => index.scenarios@,
    }
}

/// An in-progress catalog load: the fetched index, and the scenario bodies
/// supplied so far, each paired with its candidate entry, in candidate
/// order.
pub struct CatalogLoader {
    index: Index,
    fetched: Vec<(ScenarioMeta, Scenario)>,
}

impl CatalogLoader {
    /// The index this load is assembling.
    pub closed spec fn index_spec(&self) -> Index {
        self.index
    }

    /// The scenario bodies supplied so far, paired with their candidates.
    pub closed spec fn fetched_spec(&self) -> Seq<(ScenarioMeta, Scenario)> {
        self.fetched@
    }

    /// Internal consistency: never more bodies than candidates, and each
    /// supplied body sits under its own candidate entry.
    pub open spec fn wf(&self) -> bool {
        &&& self.fetched_spec().len() <= candidates_of(self.index_spec()).len()
        &&& forall|k: int|
            0 <= k < self.fetched_spec().len() ==> (#[trigger] self.fetched_spec()[k]).0
                == candidates_of(self.index_spec())[k]
    }

    /// Starts a load for a freshly fetched index.
    pub fn new(index: Index) -> (r: Self)
        ensures
            r.wf(),
            r.index_spec() == index,
            r.fetched_spec().len() == 0,
    {
        CatalogLoader { index, fetched: Vec::new() }
    }

    /// The filename of the next scenario to fetch, or nothing once every
    /// candidate has been supplied.
    pub fn next_filename(&self) -> (r: Option<&String>)
        requires
            self.wf(),
        ensures
            r is Some <==> self.fetched_spec().len() < candidates_of(self.index_spec()).len(),
            r matches Some(f) ==> *f == candidates_of(self.index_spec())[
                self.fetched_spec().len() as int].filename,
    {
        let k = self.fetched.len();
        if k < self.index.scenarios.len() {
            Some(&self.index.scenarios[k].filename)
        } else {
            match &self.index.beta {
                Some(b) if k == self.index.scenarios.len() => Some(&b.filename),
                _ => None,
            }
        }
    }

    /// Supplies the body of the next candidate, in order.
    pub fn supply(&mut self, scenario: Scenario)
        requires
            old(self).wf(),
            old(self).fetched_spec().len() < candidates_of(old(self).index_spec()).len(),
        ensures
            final(self).wf(),
            final(self).index_spec() == old(self).index_spec(),
            final(self).fetched_spec().len() == old(self).fetched_spec().len() + 1,
            final(self).fetched_spec() == old(self).fetched_spec().push(
                (
                    candidates_of(old(self).index_spec())[old(self).fetched_spec().len() as int],
                    scenario,
                ),
            ),
    {
        let k = self.fetched.len();
        let meta = if k < self.index.scenarios.len() {
            self.index.scenarios[k].clone()
        } else {
            match &self.index.beta {
                Some(b) => b.clone(),
                None => {
                    proof {
                        assert(candidates_of(self.index).len() == self.index.scenarios@.len());
                        assert(false);
                    }
                    unreached()
                },
            }
        };
        self.fetched.push((meta, scenario));
    }

    /// Whether every candidate's body has been supplied.
    pub fn is_complete(&self) -> (r: bool)
        requires
            self.wf(),
        ensures
            r == (self.fetched_spec().len() == candidates_of(self.index_spec()).len()),
    {
        match &self.index.beta {
            // `wf` bounds the count by the candidates, so strictly more than
            // the declared scenarios means exactly one more: the beta entry.
            Some(_) => self.fetched.len() > self.index.scenarios.len(),
            None => self.fetched.len() == self.index.scenarios.len(),
        }
    }

    /// Yields the loaded catalog — but only once the load is complete, so a
    /// partially loaded catalog can never be observed. The scenario list
    /// holds one entry per candidate (the declared scenarios plus the beta
    /// one if present), in candidate order, each meta paired with its
    /// supplied body.
    pub fn finish(self) -> (r: Option<LoadedIndex>)
        requires
            self.wf(),
        ensures
            r is Some <==> self.fetched_spec().len() == candidates_of(self.index_spec()).len(),
            r matches Some(l) ==> {
                &&& l.inner == self.index_spec()
                &&& l.scenarios@ == self.fetched_spec()
                &&& l.scenarios@.len() == self.index_spec().scenarios@.len() + (
                if self.index_spec().beta is Some {
                    1int
                } else {
                    0int
                })
                &&& forall|k: int|
                    0 <= k < l.scenarios@.len() ==> (#[trigger] l.scenarios@[k]).0
                        == candidates_of(self.index_spec())[k]
            },
    {
        let complete = self.is_complete();
        if complete {
            Some(LoadedIndex { inner: self.index, scenarios: self.fetched })
        } else {
            None
        }
    }
}

impl Index {
    /// Assembles the catalog from this index and the scenario bodies
    /// fetched for its candidates, one body per candidate in candidate
    /// order. Anything else — too few bodies, too many — yields no catalog
    /// at all.
    pub fn load_scenarios(self, bodies: Vec<Scenario>) -> (r: Option<LoadedIndex>)
        ensures
            r is Some <==> bodies@.len() == candidates_of(self).len(),
            r matches Some(l) ==> {
                &&& l.inner == self
                &&& l.scenarios@.len() == candidates_of(self).len()
                &&& forall|k: int|
                    0 <= k < l.scenarios@.len() ==> (#[trigger] l.scenarios@[k]).0
                        == candidates_of(self)[k] && l.scenarios@[k].1 == bodies@[k]
            },
    {
        let ghost index = self;
        let ghost all = bodies@;
        let mut loader = CatalogLoader::new(self);
        let mut bodies = bodies;
        #[verifier::loop_isolation(false)]
        while bodies.len() > 0
            invariant
                loader.wf(),
                loader.index_spec() == index,
                loader.fetched_spec().len() + bodies@.len() == all.len(),
                bodies@ == all.skip(loader.fetched_spec().len() as int),
                forall|k: int|
                    0 <= k < loader.fetched_spec().len()
                        ==> (#[trigger] loader.fetched_spec()[k]).1 == all[k],
            decreases bodies@.len(),
        {
            if loader.is_complete() {
                // More bodies than candidates: the load does not fit this
                // index.
                return None;
            }
            let ghost done = loader.fetched_spec().len() as int;
            let body = bodies.remove(0);
            proof {
                assert(body == all[done]);
                assert(bodies@ =~= all.skip(done + 1));
            }
            loader.supply(body);
        }
        loader.finish()
    }
}

/// The session's load status, as the surrounding application drives it:
/// nothing attempted yet, a load in flight, a catalog available, or a load
/// failed with the error to display. A failed load leaves no catalog
/// behind.
pub enum State {
    Initial,
    Loading,
    Loaded,
    Error(FetchError),
}

impl State {
    /// Whether no load has been attempted yet — the only state a new load
    /// may start from, so a second request never runs beside one in flight.
    pub fn is_initial(&self) -> (r: bool)
        ensures
            r == (*self matches State::Initial),
    {
        match self {
            State::Initial => true,
            _ => false,
        }
    }
}

} // verus!
