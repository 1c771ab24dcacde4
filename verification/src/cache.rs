//! The propagation cache: a full re-evaluation of every stored clue against
//! the current registry snapshot, producing an advisory map of derived
//! states and the set of clues that currently carry no new information.

use vstd::prelude::*;

use crate::constraints::{solvable_spec, solve_safe, verdict_spec, Constraint, Solvable,
    SolvedState};
use crate::element::{ElementIdentifier, Elements, ElementType};

verus! {

/// Advisory derived states, keyed by the element identifier each clue
/// resolved. Backed by a `hashbrown::HashMap`, which Verus does not read;
/// `cache_entries` names what it holds.
#[verifier::external_body]
pub struct SolvedCache {
    inner: hashbrown::HashMap<ElementIdentifier, SolvedState>,
}

/// What a cache holds, as a map from identifier to derived state.
pub uninterp spec fn cache_entries(c: SolvedCache) -> Map<ElementIdentifier, SolvedState>;

/// The contents of a cache that holds nothing.
pub open spec fn empty_cache() -> Map<ElementIdentifier, SolvedState> {
    Map::empty()
}

/// The contents of an unresolved set that holds nothing.
pub open spec fn empty_unsolved() -> Set<Constraint> {
    Set::empty()
}

/// The stored clues that yielded no verdict. Backed by a
/// `hashbrown::HashSet`, which Verus does not read; `unsolved_entries`
/// names what it holds.
#[verifier::external_body]
pub struct UnsolvedSet {
    inner: hashbrown::HashSet<Constraint>,
}

/// What an unresolved set holds.
pub uninterp spec fn unsolved_entries(s: UnsolvedSet) -> Set<Constraint>;

impl SolvedCache {
    /// Relies on hashbrown::HashMap::new: a fresh map holds nothing.
    #[verifier::external_body]
    pub fn new() -> (c: SolvedCache)
        ensures
            cache_entries(c) == empty_cache(),
    {
        SolvedCache { inner: hashbrown::HashMap::new() }
    }

    /// Relies on hashbrown::HashMap::insert: the value is stored under the
    /// key, replacing any earlier value; `ElementIdentifier` compares and
    /// hashes structurally through its derived impls.
    #[verifier::external_body]
    pub fn insert(&mut self, id: ElementIdentifier, state: SolvedState)
        ensures
            cache_entries(*final(self)) == cache_entries(*old(self)).insert(id, state),
    {
        self.inner.insert(id, state);
    }

    /// Relies on hashbrown::HashMap::get: the value most recently stored
    /// under the key, if any.
    #[verifier::external_body]
    pub fn get(&self, id: &ElementIdentifier) -> (r: Option<SolvedState>)
        ensures
            r == if cache_entries(*self).dom().contains(*id) {
                Some(cache_entries(*self)[*id])
            } else {
                None::<SolvedState>
            },
    {
        self.inner.get(id).copied()
    }

    /// Relies on hashbrown::HashMap::len: the number of keys held.
    #[verifier::external_body]
    pub fn len(&self) -> (n: usize)
        ensures
            n == cache_entries(*self).dom().len(),
    {
        self.inner.len()
    }
}

impl UnsolvedSet {
    /// Relies on hashbrown::HashSet::new: a fresh set holds nothing.
    #[verifier::external_body]
    pub fn new() -> (s: UnsolvedSet)
        ensures
            unsolved_entries(s) == empty_unsolved(),
    {
        UnsolvedSet { inner: hashbrown::HashSet::new() }
    }

    /// Relies on hashbrown::HashSet::insert: the value joins the set;
    /// inserting a value equal (by the derived structural equality) to one
    /// already present leaves the set unchanged.
    #[verifier::external_body]
    pub fn insert(&mut self, c: Constraint)
        ensures
            unsolved_entries(*final(self)) == unsolved_entries(*old(self)).insert(c),
    {
        self.inner.insert(c);
    }

    /// Relies on hashbrown::HashSet::contains.
    #[verifier::external_body]
    pub fn contains(&self, c: &Constraint) -> (b: bool)
        ensures
            b == unsolved_entries(*self).contains(*c),
    {
        self.inner.contains(c)
    }

    /// Relies on hashbrown::HashSet::len: the number of values held.
    #[verifier::external_body]
    pub fn len(&self) -> (n: usize)
        ensures
            n == unsolved_entries(*self).len(),
    {
        self.inner.len()
    }
}

/// The advisory map a full recomputation produces: every clue that yields a
/// verdict contributes an entry keyed by its resolved identifier, later
/// clues overwriting earlier entries for the same identifier.
pub open spec fn refresh_cache_spec(cs: Seq<Constraint>, e: Elements) -> Map<
    ElementIdentifier,
    SolvedState,
>
    decreases cs.len(),
{
    if cs.len() == 0 {
        Map::empty()
    } else {
        let prev = refresh_cache_spec(cs.drop_last(), e);
        match solvable_spec(cs.last()@, e) {
            Solvable::Yes(x) => prev.insert(x, verdict_spec(cs.last()@, e, x)),
            _ => prev,
        }
    }
}

/// The clues a full recomputation classifies as carrying no information:
/// those whose pre-check came back `No` or `AlreadySolved`.
pub open spec fn refresh_unsolved_spec(cs: Seq<Constraint>, e: Elements) -> Set<Constraint>
    decreases cs.len(),
{
    if cs.len() == 0 {
        Set::empty()
    } else {
        let prev = refresh_unsolved_spec(cs.drop_last(), e);
        match solvable_spec(cs.last()@, e) {
            Solvable::Yes(_) => prev,
            _ => prev.insert(cs.last()),
        }
    }
}

/// Whether every stored clue can safely be solved against the snapshot.
pub open spec fn all_solve_safe(cs: Seq<Constraint>, e: Elements) -> bool {
    forall|i: int| 0 <= i < cs.len() ==> solve_safe(#[trigger] cs[i]@, e)
}

/// Checks the guard `refresh` relies on: any stored clue whose pre-check
/// names a unique unresolved leaf must name one inside the registry.
pub fn refresh_safe(constraints: &Vec<Constraint>, elements: &Elements) -> (b: bool)
    ensures
        b == all_solve_safe(constraints@, *elements),
{
    let mut i: usize = 0;
    while i < constraints.len()
        invariant
            i <= constraints@.len(),
            forall|k: int| 0 <= k < i ==> solve_safe(#[trigger] constraints@[k]@, *elements),
        decreases constraints@.len() - i,
    {
        match constraints[i].solveable(elements) {
            Solvable::Yes(x) => {
                let in_range = match x.element_type {
                    ElementType::Location => x.index < elements.locations.len(),
                    ElementType::Person => x.index < elements.people.len(),
                    ElementType::Weapon => x.index < elements.weapons.len(),
                };
                if !in_range {
                    return false;
                }
            },
            _ => {},
        }
        i += 1;
    }
    true
}

/// Re-evaluates every stored clue against the snapshot, from scratch: each
/// derived verdict lands in the cache under its resolved identifier, and
/// each clue with no verdict lands in the unresolved set.
pub fn refresh(constraints: &Vec<Constraint>, elements: &Elements) -> (r: (SolvedCache, UnsolvedSet))
    requires
        all_solve_safe(constraints@, *elements),
    ensures
        cache_entries(r.0) == refresh_cache_spec(constraints@, *elements),
        unsolved_entries(r.1) == refresh_unsolved_spec(constraints@, *elements),
{
    let mut cache = SolvedCache::new();
    let mut unsolved = UnsolvedSet::new();
    let mut i: usize = 0;
    proof {
        assert(constraints@.take(0) =~= Seq::<Constraint>::empty());
    }
    while i < constraints.len()
        invariant
            i <= constraints@.len(),
            all_solve_safe(constraints@, *elements),
            cache_entries(cache) == refresh_cache_spec(constraints@.take(i as int), *elements),
            unsolved_entries(unsolved) == refresh_unsolved_spec(
                constraints@.take(i as int),
                *elements,
            ),
        decreases constraints@.len() - i,
    {
        let constraint = &constraints[i];
        proof {
            assert(constraints@.take(i + 1 as int).drop_last() =~= constraints@.take(i as int));
            assert(constraints@.take(i + 1 as int).last() == constraints@[i as int]);
        }
        match constraint.solve(elements) {
            Ok((element, state)) => {
                cache.insert(element, state);
            },
            Err(Solvable::No | Solvable::AlreadySolved) => {
                unsolved.insert(constraint.clone());
            },
            _ => {},
        }
        i += 1;
    }
    proof {
        assert(constraints@.take(constraints@.len() as int) =~= constraints@);
    }
    (cache, unsolved)
}

/// A refresh is a pure function of the stored clues and the snapshot: with
/// no registry mutation in between, a second refresh yields exactly the
/// cache entries and unresolved set of the first.
pub proof fn lemma_refresh_idempotent(
    cs: Seq<Constraint>,
    e: Elements,
    first: (Map<ElementIdentifier, SolvedState>, Set<Constraint>),
    second: (Map<ElementIdentifier, SolvedState>, Set<Constraint>),
)
    requires
        first.0 == refresh_cache_spec(cs, e),
        first.1 == refresh_unsolved_spec(cs, e),
        second.0 == refresh_cache_spec(cs, e),
        second.1 == refresh_unsolved_spec(cs, e),
    ensures
        first == second,
{
}

} // verus!
