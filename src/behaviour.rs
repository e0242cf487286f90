//! The behaviour tree and its evaluation for one particle.
use vstd::prelude::*;
use crate::tags::{tag_of, TagMap};
use crate::text::same_chars;

verus! {

broadcast use {vstd::seq::group_seq_axioms, vstd::std_specs::vec::group_vec_axioms};

/// What a behaviour node does.
#[derive(Clone, Copy, Debug, PartialEq, Eq, Structural)]
pub enum Kind {
    If,
    Repel,
    Attract,
    Dampen,
    Collide,
    Assign,
    Stop,
}

/// The name under which a host writes each kind.
pub open spec fn kind_named(name: Seq<char>) -> Option<Kind> {
    if name == "if"@ {
        Some(Kind::If)
    } else if name == "repel"@ {
        Some(Kind::Repel)
    } else if name == "attract"@ {
        Some(Kind::Attract)
    } else if name == "dampen"@ {
        Some(Kind::Dampen)
    } else if name == "collide"@ {
        Some(Kind::Collide)
    } else if name == "set"@ {
        Some(Kind::Assign)
    } else if name == "stop"@ {
        Some(Kind::Stop)
    } else {
        None
    }
}

impl Kind {
    /// The kind written `name`, or `None` for a name that is no kind.
    pub fn from_name(name: &str) -> (r: Option<Kind>)
        ensures
            r == kind_named(name@),
    {
        if same_chars(name, "if") {
            Some(Kind::If)
        } else if same_chars(name, "repel") {
            Some(Kind::Repel)
        } else if same_chars(name, "attract") {
            Some(Kind::Attract)
        } else if same_chars(name, "dampen") {
            Some(Kind::Dampen)
        } else if same_chars(name, "collide") {
            Some(Kind::Collide)
        } else if same_chars(name, "set") {
            Some(Kind::Assign)
        } else if same_chars(name, "stop") {
            Some(Kind::Stop)
        } else {
            None
        }
    }
}

/// Whether a tag value `actual` passes a comparison `op` against `value`:
/// `"=="` asks for equal strings, `"!="` for different ones, and any other
/// operator never passes.
pub open spec fn passes(op: Seq<char>, value: Seq<char>, actual: Seq<char>) -> bool {
    (op == "!="@ && value != actual) || (op == "=="@ && value == actual)
}

/// A comparison of one tag of a particle with a fixed value.
pub struct TagTest {
    pub op: String,
    pub key: String,
    pub value: String,
}

impl TagTest {
    /// The particle with tags `tags` passes the test.
    pub open spec fn holds_for(&self, tags: Map<Seq<char>, Seq<char>>) -> bool {
        passes(self.op@, self.value@, tag_of(tags, self.key@))
    }

    /// A collision test with the value `"NOP"` passes whatever the neighbours hold.
    pub open spec fn unconditional(&self) -> bool {
        self.value@ == "NOP"@
    }

    /// Whether the particle with tags `tags` passes the test.
    pub fn check(&self, tags: &TagMap) -> (r: bool)
        requires
            tags.wf(),
        ensures
            r == self.holds_for(tags@),
    {
        let actual = tags.get(&self.key);
        let equal = self.value == actual;
        (same_chars(self.op.as_str(), "!=") && !equal) || (same_chars(self.op.as_str(), "==")
            && equal)
    }

    /// Whether the value marks a collision test that always passes.
    pub fn is_unconditional(&self) -> (r: bool)
        ensures
            r == self.unconditional(),
    {
        same_chars(self.value.as_str(), "NOP")
    }
}

impl Default for TagTest {
    /// The test that a node without one stands for: its operator `"NOP"`
    /// never passes, and its empty value is not unconditional.
    fn default() -> (r: TagTest)
        ensures
            r.op@ == "NOP"@,
            r.key@ == Seq::<char>::empty(),
            r.value@ == Seq::<char>::empty(),
            forall|tags: Map<Seq<char>, Seq<char>>| !r.holds_for(tags),
            !r.unconditional(),
    {
        broadcast use vstd::string::to_string_from_display_ensures_for_str;

        let r = TagTest { op: "NOP".to_string(), key: String::new(), value: String::new() };
        proof {
            reveal_strlit("NOP");
            reveal_strlit("==");
            reveal_strlit("!=");
            assert(r.op@ != "=="@ && r.op@ != "!="@) by {
                assert(r.op@.len() != "=="@.len());
            }
            assert(r.value@ != "NOP"@) by {
                assert(r.value@.len() != "NOP"@.len());
            }
        }
        r
    }
}

/// One node of a behaviour tree. `params` holds the numeric parameters, which
/// only the host reads; `slot` names the neighbour list that a collision node
/// consults.
pub struct Node<P> {
    pub kind: Kind,
    pub params: P,
    pub test: Option<TagTest>,
    pub key: Option<String>,
    pub value: Option<String>,
    pub slot: usize,
    pub children: Vec<Node<P>>,
}

/// One change of velocity, applied by the host with the node's parameters.
#[derive(Debug, PartialEq, Eq)]
pub enum Push<P> {
    /// Subtract the node's force contribution (repel).
    Away(P),
    /// Add the node's force contribution (attract).
    Toward(P),
    /// Scale the velocity by one minus the node's force (dampen).
    Damp(P),
}

/// How a particle's velocity is formed in a step: start from its current
/// velocity, or from rest, and apply the pushes in order.
pub struct Motion<P> {
    pub from_rest: bool,
    pub pushes: Vec<Push<P>>,
}

/// What evaluating a list of nodes yields: whether velocity starts from rest,
/// the pushes, and the tags assigned.
pub type Outcome<P> = (bool, Seq<Push<P>>, Map<Seq<char>, Seq<char>>);

/// The neighbour list of a slot; a slot without a list has no neighbours.
pub open spec fn near_of(
    near: Seq<Seq<Map<Seq<char>, Seq<char>>>>,
    slot: usize,
) -> Seq<Map<Seq<char>, Seq<char>>> {
    if slot < near.len() {
        near[slot as int]
    } else {
        Seq::empty()
    }
}

/// A conditional node takes its branch: its test holds of the particle's own
/// tags. A node without a test never takes it.
pub open spec fn if_taken<P>(b: Node<P>, tags: Map<Seq<char>, Seq<char>>) -> bool {
    match b.test {
        Some(t) => t.holds_for(tags),
        None => false,
    }
}

/// A collision node takes its branch: its test is unconditional, or holds of
/// some neighbour within its radius. A node without a test never takes it.
pub open spec fn collide_taken<P>(
    b: Node<P>,
    near: Seq<Seq<Map<Seq<char>, Seq<char>>>>,
) -> bool {
    match b.test {
        Some(t) => t.unconditional() || exists|m: int|
            0 <= m < near_of(near, b.slot).len() && t.holds_for(
                #[trigger] near_of(near, b.slot)[m],
            ),
        None => false,
    }
}

/// A taken branch decides the velocity in place of what came before it, and
/// its tags are merged over those assigned before.
pub open spec fn take_branch<P>(before: Outcome<P>, branch: Outcome<P>) -> Outcome<P> {
    (branch.0, branch.1, before.2.union_prefer_right(branch.2))
}

/// The outcome of the first `k` nodes of `nodes`, evaluated in order for a
/// particle with tags `tags` whose collision neighbours, slot by slot, have
/// the tags in `near`.
pub open spec fn run<P>(
    nodes: Seq<Node<P>>,
    k: int,
    tags: Map<Seq<char>, Seq<char>>,
    near: Seq<Seq<Map<Seq<char>, Seq<char>>>>,
) -> Outcome<P>
    decreases nodes, k,
    via run_decreases::<P>
{
    if k <= 0 || k > nodes.len() {
        (false, Seq::empty(), Map::empty())
    } else {
        let before = run(nodes, k - 1, tags, near);
        let b = nodes[k - 1];
        match b.kind {
            Kind::If => if if_taken(b, tags) {
                take_branch(before, run(b.children@, b.children@.len() as int, tags, near))
            } else {
                before
            },
            Kind::Collide => if collide_taken(b, near) {
                take_branch(before, run(b.children@, b.children@.len() as int, tags, near))
            } else {
                before
            },
            Kind::Repel => (before.0, before.1.push(Push::Away(b.params)), before.2),
            Kind::Attract => (before.0, before.1.push(Push::Toward(b.params)), before.2),
            Kind::Dampen => (before.0, before.1.push(Push::Damp(b.params)), before.2),
            Kind::Assign => match (b.key, b.value) {
                (Some(key), Some(value)) => (before.0, before.1, before.2.insert(key@, value@)),
                _ => before,
            },
            Kind::Stop => (true, Seq::empty(), before.2),
        }
    }
}

#[via_fn]
proof fn run_decreases<P>(
    nodes: Seq<Node<P>>,
    k: int,
    tags: Map<Seq<char>, Seq<char>>,
    near: Seq<Seq<Map<Seq<char>, Seq<char>>>>,
) {
    if 0 < k <= nodes.len() {
        let b = nodes[k - 1];
        assert(decreases_to!(nodes => b));
        assert(decreases_to!(b => b.children));
        assert(decreases_to!(b.children => b.children@));
    }
}

/// The outcome of a whole list of nodes.
pub open spec fn outcome<P>(
    nodes: Seq<Node<P>>,
    tags: Map<Seq<char>, Seq<char>>,
    near: Seq<Seq<Map<Seq<char>, Seq<char>>>>,
) -> Outcome<P> {
    run(nodes, nodes.len() as int, tags, near)
}

/// The tags of each particle.
pub open spec fn views(all: Seq<TagMap>) -> Seq<Map<Seq<char>, Seq<char>>> {
    all.map_values(|t: TagMap| t@)
}

/// The tags of the neighbours that `hood` lists, slot by slot.
pub open spec fn near_tags(all: Seq<Map<Seq<char>, Seq<char>>>, hood: Seq<Vec<usize>>) -> Seq<
    Seq<Map<Seq<char>, Seq<char>>>,
> {
    hood.map_values(|l: Vec<usize>| l@.map_values(|j: usize| all[j as int]))
}

/// Every index in `hood` names one of `n` particles.
pub open spec fn hood_in_range(hood: Seq<Vec<usize>>, n: nat) -> bool {
    forall|s: int, m: int| 0 <= s < hood.len() && 0 <= m < hood[s]@.len() ==> hood[s]@[m] < n
}

/// Every tag map is well formed.
pub open spec fn all_wf(all: Seq<TagMap>) -> bool {
    forall|j: int| 0 <= j < all.len() ==> #[trigger] all[j].wf()
}

/// Whether a collision node takes its branch, with the neighbour lists of
/// `hood` read in the tags of `all`.
fn collide_fires<P>(b: &Node<P>, all: &Vec<TagMap>, hood: &Vec<Vec<usize>>) -> (r: bool)
    requires
        all_wf(all@),
        hood_in_range(hood@, all@.len()),
    ensures
        r == collide_taken(*b, near_tags(views(all@), hood@)),
{
    let ghost near = near_tags(views(all@), hood@);
    match &b.test {
        None => false,
        Some(t) => {
            if t.is_unconditional() {
                return true;
            }
            if b.slot >= hood.len() {
                assert(near_of(near, b.slot).len() == 0);
                return false;
            }
            let list = &hood[b.slot];
            assert(near_of(near, b.slot) == list@.map_values(|j: usize| views(all@)[j as int]));
            let n = list.len();
            let mut m: usize = 0;
            while m < n
                invariant
                    n == list@.len(),
                    m <= n,
                    list@ == hood@[b.slot as int]@,
                    b.test == Some(*t),
                    !t.unconditional(),
                    near == near_tags(views(all@), hood@),
                    b.slot < hood@.len(),
                    near_of(near, b.slot) == list@.map_values(|j: usize| views(all@)[j as int]),
                    all_wf(all@),
                    hood_in_range(hood@, all@.len()),
                    forall|q: int| 0 <= q < m ==> !t.holds_for(#[trigger] near_of(near, b.slot)[q]),
                decreases n - m,
            {
                let j = list[m];
                assert(j < all@.len());
                if t.check(&all[j]) {
                    assert(near_of(near, b.slot)[m as int] == all@[j as int]@);
                    return true;
                }
                assert(near_of(near, b.slot)[m as int] == all@[j as int]@);
                m += 1;
            }
            false
        },
    }
}

/// Evaluates `nodes` in order for the particle whose tags are `tags`. `all`
/// holds every particle's tags before the step, and `hood` lists, for each
/// slot, the indices of the particle's neighbours within that slot's radius.
pub fn evaluate<P: Copy>(
    nodes: &Vec<Node<P>>,
    tags: &TagMap,
    all: &Vec<TagMap>,
    hood: &Vec<Vec<usize>>,
) -> (r: (Motion<P>, TagMap))
    requires
        tags.wf(),
        all_wf(all@),
        hood_in_range(hood@, all@.len()),
    ensures
        r.1.wf(),
        (r.0.from_rest, r.0.pushes@, r.1@) == outcome(nodes@, tags@, near_tags(views(all@), hood@)),
    decreases nodes@,
{
    let ghost near = near_tags(views(all@), hood@);
    let mut from_rest = false;
    let mut pushes: Vec<Push<P>> = Vec::new();
    let mut sets = TagMap::new();
    let n = nodes.len();
    let mut i: usize = 0;
    assert(pushes@ =~= Seq::<Push<P>>::empty());
    while i < n
        invariant
            n == nodes@.len(),
            i <= n,
            sets.wf(),
            tags.wf(),
            all_wf(all@),
            hood_in_range(hood@, all@.len()),
            near == near_tags(views(all@), hood@),
            (from_rest, pushes@, sets@) == run(nodes@, i as int, tags@, near),
        decreases n - i,
    {
        let b = &nodes[i];
        proof {
            assert(decreases_to!(nodes@ => nodes@[i as int]));
            assert(decreases_to!(nodes@[i as int] => nodes@[i as int].children));
            assert(decreases_to!(nodes@[i as int].children => nodes@[i as int].children@));
        }
        match b.kind {
            Kind::If => {
                let taken = match &b.test {
                    Some(t) => t.check(tags),
                    None => false,
                };
                if taken {
                    let (m, s) = evaluate(&b.children, tags, all, hood);
                    from_rest = m.from_rest;
                    pushes = m.pushes;
                    sets.extend(&s);
                }
            },
            Kind::Collide => {
                if collide_fires(b, all, hood) {
                    let (m, s) = evaluate(&b.children, tags, all, hood);
                    from_rest = m.from_rest;
                    pushes = m.pushes;
                    sets.extend(&s);
                }
            },
            Kind::Repel => {
                pushes.push(Push::Away(b.params));
            },
            Kind::Attract => {
                pushes.push(Push::Toward(b.params));
            },
            Kind::Dampen => {
                pushes.push(Push::Damp(b.params));
            },
            Kind::Assign => {
                match (&b.key, &b.value) {
                    (Some(k), Some(v)) => {
                        sets.insert(k.clone(), v.clone());
                    },
                    _ => {},
                }
            },
            Kind::Stop => {
                from_rest = true;
                pushes = Vec::new();
                assert(pushes@ =~= Seq::<Push<P>>::empty());
            },
        }
        i += 1;
    }
    (Motion { from_rest, pushes }, sets)
}

/// A collision node whose test carries the value `"NOP"` takes its branch
/// whatever tags its neighbours hold, and whether it has neighbours or not.
pub proof fn law_collide_unconditional<P>(
    b: Node<P>,
    tags: Map<Seq<char>, Seq<char>>,
    near: Seq<Seq<Map<Seq<char>, Seq<char>>>>,
)
    requires
        b.kind == Kind::Collide,
        b.test is Some,
        b.test->Some_0.unconditional(),
    ensures
        outcome(seq![b], tags, near) == take_branch(
            (false, Seq::<Push<P>>::empty(), Map::<Seq<char>, Seq<char>>::empty()),
            outcome(b.children@, tags, near),
        ),
{
    reveal_with_fuel(run, 2);
    assert(seq![b][0] == b);
}

/// A collision node whose test is not unconditional, and which has no
/// neighbour within its radius, leaves the outcome as it was.
pub proof fn law_collide_alone<P>(
    b: Node<P>,
    tags: Map<Seq<char>, Seq<char>>,
    near: Seq<Seq<Map<Seq<char>, Seq<char>>>>,
)
    requires
        b.kind == Kind::Collide,
        near_of(near, b.slot).len() == 0,
        !(b.test is Some && b.test->Some_0.unconditional()),
    ensures
        outcome(seq![b], tags, near) == (
            false,
            Seq::<Push<P>>::empty(),
            Map::<Seq<char>, Seq<char>>::empty(),
        ),
{
    reveal_with_fuel(run, 2);
    assert(seq![b][0] == b);
}

} // verus!
