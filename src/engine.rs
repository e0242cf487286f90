//! The simulation: particles, their tags, and the behaviour tree.
use vstd::prelude::*;
use crate::behaviour::{
    all_wf, evaluate, hood_in_range, near_tags, outcome, views, Motion, Node, Outcome, TagTest,
};
use crate::tags::TagMap;

verus! {

broadcast use {vstd::seq::group_seq_axioms, vstd::std_specs::vec::group_vec_axioms};

/// Why an operation on the simulation was refused.
#[derive(Clone, Copy, Debug, PartialEq, Eq, Structural)]
pub enum SimError {
    /// Behaviour data that names no behaviour or lacks a required field.
    MalformedTree,
    /// A particle index past the last particle.
    IndexOutOfRange,
    /// A coordinate buffer whose length does not fit the dimensionality.
    DimensionalityMismatch,
}

/// What one step yields for particle `i` of a store whose tags are `all`,
/// with its neighbour lists in `hood`.
pub open spec fn step_outcome<P>(
    tree: Seq<Node<P>>,
    all: Seq<Map<Seq<char>, Seq<char>>>,
    hood: Seq<Vec<usize>>,
    i: int,
) -> Outcome<P> {
    outcome(tree, all[i], near_tags(all, hood))
}

/// The coordinates of the first `n` particles whose tags pass `test`, in order.
pub open spec fn picked<S>(
    coords: Seq<S>,
    dims: nat,
    all: Seq<Map<Seq<char>, Seq<char>>>,
    test: TagTest,
    n: int,
) -> Seq<S>
    decreases n,
{
    if n <= 0 {
        Seq::empty()
    } else if test.holds_for(all[n - 1]) {
        picked(coords, dims, all, test, n - 1) + coords.subrange((n - 1) * dims, n * dims)
    } else {
        picked(coords, dims, all, test, n - 1)
    }
}

proof fn lemma_row_fits(i: int, d: int, n: int, dims: int)
    requires
        0 <= i < n,
        0 <= d < dims,
    ensures
        0 <= i * dims + d < n * dims,
        (i + 1) * dims <= n * dims,
        (i + 1) * dims == i * dims + dims,
{
    assert(0 <= i * dims + d < n * dims) by (nonlinear_arith)
        requires
            0 <= i < n,
            0 <= d < dims,
    ;
    assert((i + 1) * dims <= n * dims) by (nonlinear_arith)
        requires
            0 <= i < n,
            0 <= d < dims,
    ;
    assert((i + 1) * dims == i * dims + dims) by (nonlinear_arith);
}

/// `sim` is a fresh simulation: `dims` is two or three and divides the
/// length of `coords`, which `sim` holds unchanged, with one particle without
/// tags for each `dims` coordinates, and `tree` as its behaviour tree.
pub open spec fn created<P: Copy, S: Copy>(
    sim: Simulation<P, S>,
    coords: Seq<S>,
    dims: usize,
    tree: Seq<Node<P>>,
) -> bool {
    &&& dims == 2 || dims == 3
    &&& coords.len() % (dims as nat) == 0
    &&& sim.wf()
    &&& sim.coords_view() == coords
    &&& sim.dims_view() == dims
    &&& sim.tree_view() == tree
    &&& sim.tags_view().len() == coords.len() / (dims as nat)
    &&& forall|i: int|
        0 <= i < sim.tags_view().len() ==> #[trigger] sim.tags_view()[i] == Map::<
            Seq<char>,
            Seq<char>,
        >::empty()
}

/// A particle simulation over coordinates of type `S`, with behaviour
/// parameters of type `P`. Coordinates are stored flat, `dims` per particle.
pub struct Simulation<P, S> {
    behaviours: Vec<Node<P>>,
    tags: Vec<TagMap>,
    coords: Vec<S>,
    dims: usize,
}

impl<P: Copy, S: Copy> Simulation<P, S> {
    /// The behaviour tree.
    pub closed spec fn tree_view(&self) -> Seq<Node<P>> {
        self.behaviours@
    }

    /// The tags of each particle.
    pub closed spec fn tags_view(&self) -> Seq<Map<Seq<char>, Seq<char>>> {
        views(self.tags@)
    }

    /// The coordinates, `dims_view()` per particle.
    pub closed spec fn coords_view(&self) -> Seq<S> {
        self.coords@
    }

    /// Coordinates per particle.
    pub closed spec fn dims_view(&self) -> nat {
        self.dims as nat
    }

    /// Two or three coordinates per particle, a coordinate row for each
    /// particle's tags, and well-formed tags.
    pub closed spec fn wf(&self) -> bool {
        &&& self.dims == 2 || self.dims == 3
        &&& self.coords@.len() == self.tags@.len() * self.dims
        &&& all_wf(self.tags@)
    }

    /// Builds a simulation from a flat coordinate buffer, `dims` numbers per
    /// particle. Every particle starts without tags.
    pub fn create(coords: Vec<S>, dims: usize, behaviours: Vec<Node<P>>) -> (r: Result<
        Self,
        SimError,
    >)
        ensures
            match r {
                Ok(sim) => created(sim, coords@, dims, behaviours@),
                Err(e) => {
                    &&& e == SimError::DimensionalityMismatch
                    &&& !((dims == 2 || dims == 3) && coords@.len() % (dims as nat) == 0)
                },
            },
    {
        if dims != 2 && dims != 3 {
            return Err(SimError::DimensionalityMismatch);
        }
        if coords.len() % dims != 0 {
            return Err(SimError::DimensionalityMismatch);
        }
        let n = coords.len() / dims;
        assert(coords@.len() == n * dims) by (nonlinear_arith)
            requires
                coords@.len() % (dims as nat) == 0,
                n == coords@.len() / (dims as nat),
                dims > 0,
        ;
        let mut tags: Vec<TagMap> = Vec::new();
        let mut i: usize = 0;
        while i < n
            invariant
                i <= n,
                tags@.len() == i,
                all_wf(tags@),
                forall|j: int| 0 <= j < i ==> #[trigger] tags@[j]@ == Map::<
                    Seq<char>,
                    Seq<char>,
                >::empty(),
            decreases n - i,
        {
            tags.push(TagMap::new());
            i += 1;
        }
        Ok(Simulation { behaviours, tags, coords, dims })
    }

    /// The number of particles.
    pub fn len(&self) -> (r: usize)
        ensures
            r == self.tags_view().len(),
    {
        self.tags.len()
    }

    /// Coordinates per particle.
    pub fn dims(&self) -> (r: usize)
        ensures
            r == self.dims_view(),
    {
        self.dims
    }

    /// The behaviour tree.
    pub fn behaviours(&self) -> (r: &Vec<Node<P>>)
        ensures
            r@ == self.tree_view(),
    {
        &self.behaviours
    }

    /// The value of tag `key` of particle `idx`, the empty string where it
    /// has none.
    pub fn tag(&self, idx: usize, key: &String) -> (r: Result<String, SimError>)
        requires
            self.wf(),
        ensures
            match r {
                Ok(v) => idx < self.tags_view().len() && v@ == crate::tags::tag_of(
                    self.tags_view()[idx as int],
                    key@,
                ),
                Err(e) => e == SimError::IndexOutOfRange && idx >= self.tags_view().len(),
            },
    {
        if idx >= self.tags.len() {
            return Err(SimError::IndexOutOfRange);
        }
        Ok(self.tags[idx].get(key))
    }

    /// Sets tag `key` of particle `idx` to `value`.
    pub fn set_meta(&mut self, idx: usize, key: String, value: String) -> (r: Result<
        (),
        SimError,
    >)
        requires
            old(self).wf(),
        ensures
            final(self).wf(),
            final(self).tree_view() == old(self).tree_view(),
            final(self).coords_view() == old(self).coords_view(),
            final(self).dims_view() == old(self).dims_view(),
            match r {
                Ok(_) => idx < old(self).tags_view().len() && final(self).tags_view() == old(
                    self,
                ).tags_view().update(idx as int, old(self).tags_view()[idx as int].insert(key@, value@)),
                Err(e) => e == SimError::IndexOutOfRange && idx >= old(self).tags_view().len()
                    && final(self).tags_view() == old(self).tags_view(),
            },
    {
        if idx >= self.tags.len() {
            return Err(SimError::IndexOutOfRange);
        }
        self.tags[idx].insert(key, value);
        assert(views(self.tags@) =~= views(old(self).tags@).update(
            idx as int,
            views(old(self).tags@)[idx as int].insert(key@, value@),
        ));
        Ok(())
    }

    /// Puts `behaviours` in place of the behaviour tree.
    pub fn replace_behaviors(&mut self, behaviours: Vec<Node<P>>)
        requires
            old(self).wf(),
        ensures
            final(self).wf(),
            final(self).tree_view() == behaviours@,
            final(self).tags_view() == old(self).tags_view(),
            final(self).coords_view() == old(self).coords_view(),
            final(self).dims_view() == old(self).dims_view(),
    {
        self.behaviours = behaviours;
    }

    /// All coordinates, particle by particle.
    pub fn get(&self) -> (r: Vec<S>)
        ensures
            r@ == self.coords_view(),
    {
        let n = self.coords.len();
        let mut out: Vec<S> = Vec::new();
        let mut i: usize = 0;
        while i < n
            invariant
                n == self.coords@.len(),
                i <= n,
                out@ == self.coords@.take(i as int),
            decreases n - i,
        {
            out.push(self.coords[i]);
            assert(out@ =~= self.coords@.take(i + 1));
            i += 1;
        }
        assert(self.coords@.take(n as int) =~= self.coords@);
        out
    }

    /// The coordinates of the particles whose tags pass `test`, in order.
    pub fn get_if(&self, test: &TagTest) -> (r: Vec<S>)
        requires
            self.wf(),
        ensures
            r@ == picked(
                self.coords_view(),
                self.dims_view(),
                self.tags_view(),
                *test,
                self.tags_view().len() as int,
            ),
    {
        let n = self.tags.len();
        let dims = self.dims;
        let mut out: Vec<S> = Vec::new();
        let mut i: usize = 0;
        while i < n
            invariant
                self.wf(),
                n == self.tags@.len(),
                dims == self.dims,
                i <= n,
                out@ == picked(self.coords@, dims as nat, views(self.tags@), *test, i as int),
            decreases n - i,
        {
            if test.check(&self.tags[i]) {
                let ghost before = out@;
                proof {
                    lemma_row_fits(i as int, 0, n as int, dims as int);
                    assert(n * dims == self.coords@.len());
                }
                let total = self.coords.len();
                let row = i * dims;
                let mut d: usize = 0;
                while d < dims
                    invariant
                        self.wf(),
                        n == self.tags@.len(),
                        dims == self.dims,
                        i < n,
                        d <= dims,
                        (i + 1) * dims == i * dims + dims,
                        i * dims + dims <= self.coords@.len(),
                        total == self.coords@.len(),
                        row == i * dims,
                        out@ == before + self.coords@.subrange(
                            i * dims as int,
                            i * dims + d as int,
                        ),
                    decreases dims - d,
                {
                    out.push(self.coords[row + d]);
                    assert(out@ =~= before + self.coords@.subrange(
                        i * dims as int,
                        i * dims + d + 1 as int,
                    ));
                    d += 1;
                }
                proof {
                    lemma_row_fits(i as int, 0, n as int, dims as int);
                }
            }
            i += 1;
        }
        out
    }
    /// Advances the tags by one step and returns each particle's motion, in
    /// particle order. Every particle is evaluated against the tags held
    /// before the step; only then are the tags it was assigned merged into
    /// its own. `hoods[i]` lists, slot by slot, the neighbours of particle `i`
    /// that the spatial index over the positions before the step found.
    pub fn step(&mut self, hoods: &Vec<Vec<Vec<usize>>>) -> (plans: Vec<Motion<P>>)
        requires
            old(self).wf(),
            hoods@.len() == old(self).tags_view().len(),
            forall|i: int|
                0 <= i < hoods@.len() ==> hood_in_range(
                    #[trigger] hoods@[i]@,
                    old(self).tags_view().len(),
                ),
        ensures
            final(self).wf(),
            final(self).tree_view() == old(self).tree_view(),
            final(self).coords_view() == old(self).coords_view(),
            final(self).dims_view() == old(self).dims_view(),
            plans@.len() == old(self).tags_view().len(),
            final(self).tags_view().len() == old(self).tags_view().len(),
            forall|i: int|
                0 <= i < plans@.len() ==> {
                    let o = step_outcome(old(self).tree_view(), old(self).tags_view(), hoods@[i]@, i);
                    &&& (#[trigger] plans@[i]).from_rest == o.0
                    &&& plans@[i].pushes@ == o.1
                    &&& final(self).tags_view()[i] == old(self).tags_view()[i].union_prefer_right(o.2)
                },
    {
        let ghost start = self.tags@;
        let n = self.tags.len();
        let mut plans: Vec<Motion<P>> = Vec::new();
        let mut sets: Vec<TagMap> = Vec::new();
        let mut i: usize = 0;
        while i < n
            invariant
                self.wf(),
                self.tags@ == start,
                *self == *old(self),
                n == start.len(),
                i <= n,
                hoods@.len() == n,
                forall|j: int| 0 <= j < n ==> hood_in_range(#[trigger] hoods@[j]@, n as nat),
                plans@.len() == i,
                sets@.len() == i,
                forall|j: int|
                    0 <= j < i ==> {
                        let o = step_outcome(self.behaviours@, views(start), hoods@[j]@, j);
                        &&& (#[trigger] sets@[j]).wf()
                        &&& plans@[j].from_rest == o.0
                        &&& plans@[j].pushes@ == o.1
                        &&& sets@[j]@ == o.2
                    },
            decreases n - i,
        {
            assert(self.tags@[i as int].wf());
            let (m, t) = evaluate(&self.behaviours, &self.tags[i], &self.tags, &hoods[i]);
            plans.push(m);
            sets.push(t);
            i += 1;
        }
        let mut i: usize = 0;
        while i < n
            invariant
                self.dims == 2 || self.dims == 3,
                self.coords@.len() == n * self.dims,
                self.behaviours@ == old(self).behaviours@,
                self.coords@ == old(self).coords@,
                self.dims == old(self).dims,
                start == old(self).tags@,
                self.tags@.len() == n,
                n == start.len(),
                all_wf(self.tags@),
                all_wf(start),
                i <= n,
                sets@.len() == n,
                forall|j: int| 0 <= j < n ==> (#[trigger] sets@[j]).wf(),
                forall|j: int|
                    0 <= j < i ==> #[trigger] self.tags@[j]@ == start[j]@.union_prefer_right(
                        sets@[j]@,
                    ),
                forall|j: int| i <= j < n ==> #[trigger] self.tags@[j] == start[j],
            decreases n - i,
        {
            assert(sets@[i as int].wf());
            self.tags[i].extend(&sets[i]);
            i += 1;
        }
        assert forall|i: int| 0 <= i < plans@.len() implies {
            let o = step_outcome(old(self).tree_view(), old(self).tags_view(), hoods@[i]@, i);
            &&& (#[trigger] plans@[i]).from_rest == o.0
            &&& plans@[i].pushes@ == o.1
            &&& self.tags_view()[i] == old(self).tags_view()[i].union_prefer_right(o.2)
        } by {
            assert(sets@[i].wf());
        }
        plans
    }

    /// Puts `coords` in place of the particles' coordinates; a buffer of
    /// another length is refused.
    pub fn set_positions(&mut self, coords: Vec<S>) -> (r: Result<(), SimError>)
        requires
            old(self).wf(),
        ensures
            final(self).wf(),
            final(self).tree_view() == old(self).tree_view(),
            final(self).tags_view() == old(self).tags_view(),
            final(self).dims_view() == old(self).dims_view(),
            match r {
                Ok(_) => coords@.len() == old(self).coords_view().len() && final(self).coords_view()
                    == coords@,
                Err(e) => e == SimError::DimensionalityMismatch && coords@.len() != old(
                    self,
                ).coords_view().len() && final(self).coords_view() == old(self).coords_view(),
            },
    {
        if coords.len() != self.coords.len() {
            return Err(SimError::DimensionalityMismatch);
        }
        self.coords = coords;
        Ok(())
    }
}

/// Relabelling the particles before a step relabels what the step yields:
/// when particle `k` of the second store is particle `perm[k]` of the first,
/// with the same tags and the same neighbours under their new indices, it
/// receives the same motion and the same tags as particle `perm[k]` does.
pub proof fn law_order_independent<P>(
    tree: Seq<Node<P>>,
    all: Seq<Map<Seq<char>, Seq<char>>>,
    hoods: Seq<Seq<Vec<usize>>>,
    perm: Seq<int>,
    all2: Seq<Map<Seq<char>, Seq<char>>>,
    hoods2: Seq<Seq<Vec<usize>>>,
)
    requires
        perm.len() == all.len(),
        forall|k: int| 0 <= k < perm.len() ==> 0 <= #[trigger] perm[k] < all.len(),
        forall|k: int, l: int| 0 <= k < l < perm.len() ==> perm[k] != perm[l],
        hoods.len() == all.len(),
        forall|i: int| 0 <= i < hoods.len() ==> hood_in_range(#[trigger] hoods[i], all.len()),
        all2.len() == all.len(),
        forall|k: int| 0 <= k < all2.len() ==> #[trigger] all2[k] == all[perm[k]],
        hoods2.len() == all.len(),
        forall|k: int| 0 <= k < hoods2.len() ==> hood_in_range(#[trigger] hoods2[k], all.len()),
        forall|k: int| 0 <= k < hoods2.len() ==> (#[trigger] hoods2[k]).len() == hoods[perm[k]].len(),
        forall|k: int, s: int|
            0 <= k < hoods2.len() && 0 <= s < hoods2[k].len() ==> (#[trigger] hoods2[k][s])@.len()
                == hoods[perm[k]][s]@.len(),
        forall|k: int, s: int, m: int|
            0 <= k < hoods2.len() && 0 <= s < hoods2[k].len() && 0 <= m < hoods2[k][s]@.len()
                ==> perm[(#[trigger] hoods2[k][s]@[m]) as int] == hoods[perm[k]][s]@[m],
    ensures
        forall|k: int|
            0 <= k < all2.len() ==> #[trigger] step_outcome(tree, all2, hoods2[k], k)
                == step_outcome(tree, all, hoods[perm[k]], perm[k]),
{
    assert forall|k: int| 0 <= k < all2.len() implies #[trigger] step_outcome(
        tree,
        all2,
        hoods2[k],
        k,
    ) == step_outcome(tree, all, hoods[perm[k]], perm[k]) by {
        let h2 = hoods2[k];
        let h = hoods[perm[k]];
        let n2 = near_tags(all2, h2);
        let n1 = near_tags(all, h);
        assert forall|s: int| 0 <= s < n2.len() implies #[trigger] n2[s] == n1[s] by {
            assert forall|m: int| 0 <= m < n2[s].len() implies #[trigger] n2[s][m] == n1[s][m] by {
                assert(perm[h2[s]@[m] as int] == h[s]@[m]);
            }
            assert(n2[s] =~= n1[s]);
        }
        assert(n2 =~= n1);
    }
}

/// Reading the positions of a simulation straight after it was created from
/// `coords` gives `coords` back, unchanged: `get` returns `coords_view()`.
pub proof fn law_read_after_create<P: Copy, S: Copy>(
    coords: Seq<S>,
    dims: usize,
    tree: Seq<Node<P>>,
    sim: Simulation<P, S>,
)
    requires
        created(sim, coords, dims, tree),
    ensures
        sim.coords_view() == coords,
{
}

} // verus!
