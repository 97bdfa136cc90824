//! The graph of item tags and their parents: what the relation walk finds
//! in it, and why a link that passes the checks never closes a cycle.
use vstd::prelude::*;
use crate::ids::ItemTagId;
use super::{
    first_relation_spec, link_step_spec, next_relation_spec, LinkAction, LinkEvent, TagsRelation,
};

verus! {

/// The parents of `t` in the graph; none for a tag the graph does not hold.
pub open spec fn parents_in(g: Map<ItemTagId, Seq<ItemTagId>>, t: ItemTagId) -> Seq<ItemTagId> {
    if g.contains_key(t) {
        g[t]
    } else {
        Seq::empty()
    }
}

/// `p` climbs the graph: each tag after the first is a parent of the one
/// before it.
pub open spec fn is_climb(g: Map<ItemTagId, Seq<ItemTagId>>, p: Seq<ItemTagId>) -> bool {
    forall|i: int| 0 <= i < p.len() - 1 ==> #[trigger] parents_in(g, p[i]).contains(p[i + 1])
}

/// `a` is an ancestor of `t`: a climb of at least one step leads from `t`
/// to `a`.
pub open spec fn is_ancestor(g: Map<ItemTagId, Seq<ItemTagId>>, a: ItemTagId, t: ItemTagId) -> bool {
    exists|p: Seq<ItemTagId>|
        #[trigger] is_climb(g, p) && p.len() >= 2 && p[0] == t && p[p.len() - 1] == a
}

/// No tag is its own ancestor.
pub open spec fn acyclic(g: Map<ItemTagId, Seq<ItemTagId>>) -> bool {
    forall|t: ItemTagId| !#[trigger] is_ancestor(g, t, t)
}

/// The graph once `child` is linked under `parent`: `parent` becomes one
/// more parent of `child`.
pub open spec fn with_link(g: Map<ItemTagId, Seq<ItemTagId>>, parent: ItemTagId, child: ItemTagId) -> Map<
    ItemTagId,
    Seq<ItemTagId>,
> {
    g.insert(child, parents_in(g, child).push(parent))
}

/// The parents of the tags of a generation, all together.
pub open spec fn next_generation(g: Map<ItemTagId, Seq<ItemTagId>>, gen: Seq<ItemTagId>) -> Seq<
    ItemTagId,
> {
    gen.map_values(|t: ItemTagId| parents_in(g, t)).flatten()
}

/// The `k`-th generation above `t`: `t` itself, then the parents of each
/// generation in turn.
pub open spec fn generation(g: Map<ItemTagId, Seq<ItemTagId>>, t: ItemTagId, k: nat) -> Seq<
    ItemTagId,
>
    decreases k,
{
    if k == 0 {
        seq![t]
    } else {
        next_generation(g, generation(g, t, (k - 1) as nat))
    }
}

/// What the walk from generation `k` on finds, reading at most `rounds`
/// more generations (see `next_relation_spec`).
pub open spec fn walk_from(
    g: Map<ItemTagId, Seq<ItemTagId>>,
    t: ItemTagId,
    a: ItemTagId,
    k: nat,
    rounds: nat,
) -> Option<TagsRelation>
    decreases rounds,
{
    if rounds == 0 {
        None
    } else {
        match next_relation_spec(generation(g, t, k + 1), a) {
            Some(r) => Some(r),
            None => walk_from(g, t, a, k + 1, (rounds - 1) as nat),
        }
    }
}

/// What the walk that asks how `t` stands to `a` finds: the first step on
/// the parents of `t` (see `first_relation_spec`), then at most `rounds`
/// steps, each on the next generation.
pub open spec fn relation_walk(
    g: Map<ItemTagId, Seq<ItemTagId>>,
    t: ItemTagId,
    a: ItemTagId,
    rounds: nat,
) -> Option<TagsRelation> {
    match first_relation_spec(
        if g.contains_key(t) {
            Some(g[t])
        } else {
            None
        },
        a,
    ) {
        Some(r) => Some(r),
        None => walk_from(g, t, a, 1, rounds),
    }
}

/// A tag is in the flattening exactly when some listed sequence holds it.
proof fn lemma_flatten_contains<A>(ss: Seq<Seq<A>>, x: A)
    ensures
        ss.flatten().contains(x) <==> exists|i: int| 0 <= i < ss.len() && #[trigger] ss[i].contains(x),
    decreases ss.len(),
{
    if ss.len() > 0 {
        let rest = ss.drop_first();
        lemma_flatten_contains(rest, x);
        let f = ss.flatten();
        assert(f == ss[0] + rest.flatten());
        if f.contains(x) {
            let k = choose|k: int| 0 <= k < f.len() && f[k] == x;
            if k < ss[0].len() {
                assert(ss[0][k] == x);
                assert(ss[0].contains(x));
            } else {
                assert(rest.flatten()[k - ss[0].len()] == x);
                assert(rest.flatten().contains(x));
                let i = choose|i: int| 0 <= i < rest.len() && #[trigger] rest[i].contains(x);
                assert(ss[i + 1] == rest[i]);
            }
        }
        if exists|i: int| 0 <= i < ss.len() && #[trigger] ss[i].contains(x) {
            let i = choose|i: int| 0 <= i < ss.len() && #[trigger] ss[i].contains(x);
            if i == 0 {
                let k = choose|k: int| 0 <= k < ss[0].len() && ss[0][k] == x;
                assert(f[k] == x);
            } else {
                assert(rest[i - 1] == ss[i]);
                assert(rest.flatten().contains(x));
                let k = choose|k: int| 0 <= k < rest.flatten().len() && rest.flatten()[k] == x;
                assert(f[k + ss[0].len()] == x);
            }
        }
    }
}

/// A tag is in the next generation exactly when it is a parent of a tag of
/// the generation.
proof fn lemma_next_generation_contains(
    g: Map<ItemTagId, Seq<ItemTagId>>,
    gen: Seq<ItemTagId>,
    x: ItemTagId,
)
    ensures
        next_generation(g, gen).contains(x) <==> exists|i: int|
            0 <= i < gen.len() && #[trigger] parents_in(g, gen[i]).contains(x),
{
    let ss = gen.map_values(|t: ItemTagId| parents_in(g, t));
    lemma_flatten_contains(ss, x);
    assert forall|i: int| 0 <= i < gen.len() implies #[trigger] ss[i] == parents_in(g, gen[i]) by {}
    if next_generation(g, gen).contains(x) {
        let i = choose|i: int| 0 <= i < ss.len() && #[trigger] ss[i].contains(x);
        assert(parents_in(g, gen[i]).contains(x));
    }
    if exists|i: int| 0 <= i < gen.len() && #[trigger] parents_in(g, gen[i]).contains(x) {
        let i = choose|i: int| 0 <= i < gen.len() && #[trigger] parents_in(g, gen[i]).contains(x);
        assert(ss[i].contains(x));
    }
}

/// Every tag of generation `k` is reached from `t` by a climb of `k` steps.
proof fn lemma_generation_climbs(g: Map<ItemTagId, Seq<ItemTagId>>, t: ItemTagId, k: nat, x: ItemTagId)
    requires
        generation(g, t, k).contains(x),
    ensures
        exists|p: Seq<ItemTagId>|
            #[trigger] is_climb(g, p) && p.len() == k + 1 && p[0] == t && p[p.len() - 1] == x,
    decreases k,
{
    if k == 0 {
        let p = seq![t];
        assert(generation(g, t, 0)[0] == t);
        assert(is_climb(g, p));
    } else {
        let prev = generation(g, t, (k - 1) as nat);
        lemma_next_generation_contains(g, prev, x);
        let i = choose|i: int| 0 <= i < prev.len() && #[trigger] parents_in(g, prev[i]).contains(x);
        let y = prev[i];
        assert(prev.contains(y));
        lemma_generation_climbs(g, t, (k - 1) as nat, y);
        let q = choose|q: Seq<ItemTagId>|
            #[trigger] is_climb(g, q) && q.len() == k && q[0] == t && q[q.len() - 1] == y;
        let p = q.push(x);
        assert forall|j: int| 0 <= j < p.len() - 1 implies #[trigger] parents_in(g, p[j]).contains(
            p[j + 1],
        ) by {
            if j < q.len() - 1 {
                assert(p[j] == q[j] && p[j + 1] == q[j + 1]);
                assert(parents_in(g, q[j]).contains(q[j + 1]));
            } else {
                assert(p[j] == y && p[j + 1] == x);
            }
        }
        assert(is_climb(g, p));
    }
}

/// The tag reached after `m` steps of a climb from `t` is in generation `m`.
proof fn lemma_climb_in_generation(
    g: Map<ItemTagId, Seq<ItemTagId>>,
    t: ItemTagId,
    p: Seq<ItemTagId>,
    m: nat,
)
    requires
        is_climb(g, p),
        p.len() > 0,
        p[0] == t,
        m < p.len(),
    ensures
        generation(g, t, m).contains(p[m as int]),
    decreases m,
{
    if m == 0 {
        assert(generation(g, t, 0)[0] == t);
    } else {
        let prev = generation(g, t, (m - 1) as nat);
        lemma_climb_in_generation(g, t, p, (m - 1) as nat);
        let i = choose|i: int| 0 <= i < prev.len() && prev[i] == p[m - 1];
        let s = m - 1;
        assert(parents_in(g, p[s]).contains(p[s + 1]));
        assert(s + 1 == m);
        assert(parents_in(g, prev[i]).contains(p[m as int]));
        lemma_next_generation_contains(g, prev, p[m as int]);
    }
}

/// Once a generation is empty, so is every later one.
proof fn lemma_empty_generation_stays(g: Map<ItemTagId, Seq<ItemTagId>>, t: ItemTagId, k: nat, j: nat)
    requires
        generation(g, t, k).len() == 0,
        k <= j,
    ensures
        generation(g, t, j).len() == 0,
    decreases j,
{
    if j > k {
        lemma_empty_generation_stays(g, t, k, (j - 1) as nat);
        let prev = generation(g, t, (j - 1) as nat);
        assert(prev.map_values(|x: ItemTagId| parents_in(g, x)) =~= Seq::<Seq<ItemTagId>>::empty());
    }
}

/// A tag that no generation from the first to the `k`-th holds, while
/// generation `k + 1` is empty, is no ancestor.
proof fn lemma_no_ancestor_past_empty(g: Map<ItemTagId, Seq<ItemTagId>>, t: ItemTagId, a: ItemTagId, k: nat)
    requires
        forall|j: nat| 1 <= j <= k ==> !#[trigger] generation(g, t, j).contains(a),
        generation(g, t, k + 1).len() == 0,
    ensures
        !is_ancestor(g, a, t),
{
    if is_ancestor(g, a, t) {
        let p = choose|p: Seq<ItemTagId>|
            #[trigger] is_climb(g, p) && p.len() >= 2 && p[0] == t && p[p.len() - 1] == a;
        let last = (p.len() - 1) as nat;
        if last <= k {
            lemma_climb_in_generation(g, t, p, last);
            assert(generation(g, t, last).contains(a));
        } else {
            lemma_climb_in_generation(g, t, p, k + 1);
            assert(generation(g, t, k + 1).contains(p[(k + 1) as int]));
        }
    }
}

/// A tag held by generation `k`, for `k` at least one, is an ancestor.
proof fn lemma_found_is_ancestor(g: Map<ItemTagId, Seq<ItemTagId>>, t: ItemTagId, a: ItemTagId, k: nat)
    requires
        k >= 1,
        generation(g, t, k).contains(a),
    ensures
        is_ancestor(g, a, t),
{
    lemma_generation_climbs(g, t, k, a);
    let p = choose|p: Seq<ItemTagId>|
        #[trigger] is_climb(g, p) && p.len() == k + 1 && p[0] == t && p[p.len() - 1] == a;
    assert(is_climb(g, p) && p.len() >= 2 && p[0] == t && p[p.len() - 1] == a);
}

proof fn lemma_walk_from(g: Map<ItemTagId, Seq<ItemTagId>>, t: ItemTagId, a: ItemTagId, k: nat, rounds: nat)
    requires
        k >= 1,
        forall|j: nat| 1 <= j <= k ==> !#[trigger] generation(g, t, j).contains(a),
    ensures
        walk_from(g, t, a, k, rounds) == Some(TagsRelation::Ancestor) ==> is_ancestor(g, a, t),
        walk_from(g, t, a, k, rounds) == Some(TagsRelation::NotRelated) ==> !is_ancestor(g, a, t),
        walk_from(g, t, a, k, rounds) != Some(TagsRelation::TargetNotFound),
    decreases rounds,
{
    if rounds > 0 {
        let next = generation(g, t, k + 1);
        if next.len() == 0 {
            lemma_no_ancestor_past_empty(g, t, a, k);
        } else if next.contains(a) {
            lemma_found_is_ancestor(g, t, a, k + 1);
        } else {
            assert forall|j: nat| 1 <= j <= k + 1 implies !#[trigger] generation(g, t, j).contains(a) by {
                if j <= k {
                    assert(!generation(g, t, j).contains(a));
                }
            }
            lemma_walk_from(g, t, a, k + 1, (rounds - 1) as nat);
        }
    }
}

/// The first generation above a tag of the graph is its parents.
proof fn lemma_first_generation(g: Map<ItemTagId, Seq<ItemTagId>>, t: ItemTagId)
    ensures
        generation(g, t, 1) == parents_in(g, t),
{
    let ss = seq![t].map_values(|x: ItemTagId| parents_in(g, x));
    assert(generation(g, t, 0) == seq![t]);
    assert(ss.len() == 1);
    assert(ss[0] == parents_in(g, t));
    ss.lemma_flatten_one_element();
}

/// The relation walk tells the truth: when it finds `Ancestor`, `a` is an
/// ancestor of `t`; when it finds `NotRelated`, `a` is not; when it finds
/// `TargetNotFound`, the graph holds no `t`.
pub proof fn lemma_relation_walk_is_right(
    g: Map<ItemTagId, Seq<ItemTagId>>,
    t: ItemTagId,
    a: ItemTagId,
    rounds: nat,
)
    ensures
        relation_walk(g, t, a, rounds) == Some(TagsRelation::Ancestor) ==> is_ancestor(g, a, t),
        relation_walk(g, t, a, rounds) == Some(TagsRelation::NotRelated) ==> !is_ancestor(g, a, t),
        relation_walk(g, t, a, rounds) == Some(TagsRelation::TargetNotFound) ==> !g.contains_key(t),
{
    if g.contains_key(t) {
        lemma_first_generation(g, t);
        let first = g[t];
        if first.len() == 0 {
            assert forall|j: nat| 1 <= j <= 0 implies !#[trigger] generation(g, t, j).contains(a) by {}
            lemma_no_ancestor_past_empty(g, t, a, 0);
        } else if first.contains(a) {
            lemma_found_is_ancestor(g, t, a, 1);
        } else {
            assert forall|j: nat| 1 <= j <= 1 implies !#[trigger] generation(g, t, j).contains(a) by {}
            lemma_walk_from(g, t, a, 1, rounds);
        }
    }
}

/// Step `k` of `p` climbs the graph `g`.
pub open spec fn step_in(g: Map<ItemTagId, Seq<ItemTagId>>, p: Seq<ItemTagId>, k: int) -> bool {
    parents_in(g, p[k]).contains(p[k + 1])
}

/// A parent in the linked graph is an old parent, or the new link.
proof fn lemma_linked_parents(
    g: Map<ItemTagId, Seq<ItemTagId>>,
    parent: ItemTagId,
    child: ItemTagId,
    y: ItemTagId,
    z: ItemTagId,
)
    requires
        parents_in(with_link(g, parent, child), y).contains(z),
    ensures
        parents_in(g, y).contains(z) || (y == child && z == parent),
{
    if y == child {
        let old_parents = parents_in(g, child);
        let k = choose|k: int| 0 <= k < old_parents.push(parent).len() && old_parents.push(parent)[k] == z;
        if k < old_parents.len() {
            assert(old_parents[k] == z);
        }
    }
}

/// The first step of `p`, from `s` on, that does not climb `g`.
proof fn first_new_step(g: Map<ItemTagId, Seq<ItemTagId>>, p: Seq<ItemTagId>, s: int) -> (j: int)
    requires
        0 <= s,
        forall|k: int| 0 <= k < s ==> #[trigger] step_in(g, p, k),
        exists|k: int| s <= k < p.len() - 1 && !#[trigger] step_in(g, p, k),
    ensures
        0 <= j < p.len() - 1,
        !step_in(g, p, j),
        forall|k: int| 0 <= k < j ==> #[trigger] step_in(g, p, k),
    decreases p.len() - s,
{
    if !step_in(g, p, s) {
        s
    } else {
        first_new_step(g, p, s + 1)
    }
}

/// The last step of `p`, up to `e`, that does not climb `g`.
proof fn last_new_step(g: Map<ItemTagId, Seq<ItemTagId>>, p: Seq<ItemTagId>, e: int) -> (i: int)
    requires
        e < p.len() - 1,
        forall|k: int| e < k < p.len() - 1 ==> #[trigger] step_in(g, p, k),
        exists|k: int| 0 <= k <= e && !#[trigger] step_in(g, p, k),
    ensures
        0 <= i < p.len() - 1,
        !step_in(g, p, i),
        forall|k: int| i < k < p.len() - 1 ==> #[trigger] step_in(g, p, k),
    decreases e + 1,
{
    if !step_in(g, p, e) {
        e
    } else {
        last_new_step(g, p, e - 1)
    }
}

/// Linking `child` under `parent` closes no cycle in a graph without one,
/// when the two differ and `child` is not already an ancestor of `parent`.
pub proof fn lemma_link_keeps_acyclic(
    g: Map<ItemTagId, Seq<ItemTagId>>,
    parent: ItemTagId,
    child: ItemTagId,
)
    requires
        acyclic(g),
        parent != child,
        !is_ancestor(g, child, parent),
    ensures
        acyclic(with_link(g, parent, child)),
{
    let h = with_link(g, parent, child);
    assert forall|x: ItemTagId| !#[trigger] is_ancestor(h, x, x) by {
        if is_ancestor(h, x, x) {
            let p = choose|p: Seq<ItemTagId>|
                #[trigger] is_climb(h, p) && p.len() >= 2 && p[0] == x && p[p.len() - 1] == x;
            let n = p.len() as int;
            if exists|k: int| 0 <= k < n - 1 && !#[trigger] step_in(g, p, k) {
                let j = first_new_step(g, p, 0);
                let i = last_new_step(g, p, n - 2);
                assert(parents_in(h, p[j]).contains(p[j + 1]));
                lemma_linked_parents(g, parent, child, p[j], p[j + 1]);
                assert(parents_in(h, p[i]).contains(p[i + 1]));
                lemma_linked_parents(g, parent, child, p[i], p[i + 1]);
                let a = n - i - 1;
                let q = p.subrange(i + 1, n) + p.subrange(1, j + 1);
                assert(q.len() == a + j);
                assert(q[0] == parent);
                assert(q[q.len() - 1] == child);
                assert forall|idx: int| 0 <= idx < q.len() - 1 implies #[trigger] parents_in(
                    g,
                    q[idx],
                ).contains(q[idx + 1]) by {
                    if idx + 1 < a {
                        let s = i + 1 + idx;
                        assert(step_in(g, p, s));
                        assert(q[idx] == p[s] && q[idx + 1] == p[s + 1]);
                    } else if idx + 1 == a {
                        assert(step_in(g, p, 0));
                        assert(q[idx] == p[n - 1] && q[idx + 1] == p[1]);
                    } else {
                        let s = 1 + idx - a;
                        assert(step_in(g, p, s));
                        assert(q[idx] == p[s] && q[idx + 1] == p[s + 1]);
                    }
                }
                assert(is_climb(g, q));
                assert(is_ancestor(g, child, parent));
            } else {
                assert forall|k: int| 0 <= k < p.len() - 1 implies #[trigger] parents_in(
                    g,
                    p[k],
                ).contains(p[k + 1]) by {
                    assert(step_in(g, p, k));
                }
                assert(is_climb(g, p));
                assert(is_ancestor(g, x, x));
            }
        }
    }
}

/// A link that the steps allow keeps the graph free of cycles: once the
/// link is started, the relation walk of `parent` against `child` is handed
/// to the step, and the step saves the link, the graph with the link has no
/// cycle when the graph had none.
pub proof fn lemma_allowed_link_keeps_acyclic(
    g: Map<ItemTagId, Seq<ItemTagId>>,
    parent: ItemTagId,
    child: ItemTagId,
    rounds: nat,
    relation: TagsRelation,
)
    requires
        acyclic(g),
        link_step_spec(parent, child, LinkEvent::Start) == LinkAction::CheckRelation,
        relation_walk(g, parent, child, rounds) == Some(relation),
        link_step_spec(parent, child, LinkEvent::Relation(relation)) == LinkAction::Link,
    ensures
        acyclic(with_link(g, parent, child)),
{
    lemma_relation_walk_is_right(g, parent, child, rounds);
    lemma_link_keeps_acyclic(g, parent, child);
}

/// In a finite graph without cycles a climb visits each tag of the graph
/// at most once before its last tag, so it takes at most as many steps as
/// the graph has tags.
proof fn lemma_climb_bounded(g: Map<ItemTagId, Seq<ItemTagId>>, p: Seq<ItemTagId>)
    requires
        acyclic(g),
        g.dom().finite(),
        is_climb(g, p),
        p.len() >= 1,
    ensures
        p.len() <= g.dom().len() + 1,
{
    let q = p.take(p.len() - 1);
    assert forall|i: int| 0 <= i < q.len() implies g.dom().contains(#[trigger] q[i]) by {
        assert(parents_in(g, p[i]).contains(p[i + 1]));
        assert(q[i] == p[i]);
    }
    assert forall|i: int, j: int|
        0 <= i < q.len() && 0 <= j < q.len() && i != j implies q[i] != q[j] by {
        if q[i] == q[j] {
            let lo = if i < j { i } else { j };
            let hi = if i < j { j } else { i };
            let r = p.subrange(lo, hi + 1);
            assert forall|k: int| 0 <= k < r.len() - 1 implies #[trigger] parents_in(g, r[k]).contains(
                r[k + 1],
            ) by {
                assert(r[k] == p[lo + k] && r[k + 1] == p[lo + k + 1]);
                assert(parents_in(g, p[lo + k]).contains(p[lo + k + 1]));
            }
            assert(is_climb(g, r));
            assert(r[0] == p[lo] && r[r.len() - 1] == p[hi]);
            assert(is_ancestor(g, p[lo], p[lo]));
        }
    }
    assert(q.no_duplicates());
    q.unique_seq_to_set();
    assert(q.to_set().subset_of(g.dom()));
    vstd::set_lib::lemma_len_subset(q.to_set(), g.dom());
}

/// In a finite graph without cycles the generation past the number of tags
/// is empty.
proof fn lemma_generations_run_out(g: Map<ItemTagId, Seq<ItemTagId>>, t: ItemTagId)
    requires
        acyclic(g),
        g.dom().finite(),
    ensures
        generation(g, t, g.dom().len() + 1).len() == 0,
{
    let k = g.dom().len() + 1;
    if generation(g, t, k).len() > 0 {
        let x = generation(g, t, k)[0];
        assert(generation(g, t, k).contains(x));
        lemma_generation_climbs(g, t, k, x);
        let p = choose|p: Seq<ItemTagId>|
            #[trigger] is_climb(g, p) && p.len() == k + 1 && p[0] == t && p[p.len() - 1] == x;
        lemma_climb_bounded(g, p);
    }
}

proof fn lemma_walk_from_ends(g: Map<ItemTagId, Seq<ItemTagId>>, t: ItemTagId, a: ItemTagId, k: nat, rounds: nat)
    requires
        rounds >= 1,
        generation(g, t, k + rounds).len() == 0,
    ensures
        walk_from(g, t, a, k, rounds) is Some,
    decreases rounds,
{
    let next = generation(g, t, k + 1);
    if next.len() != 0 && !next.contains(a) {
        if rounds == 1 {
            assert(k + rounds == k + 1);
        } else {
            assert((k + 1) + (rounds - 1) == k + rounds);
            lemma_walk_from_ends(g, t, a, k + 1, (rounds - 1) as nat);
        }
    }
}

/// On a finite graph without cycles the relation walk ends: reading as many
/// generations as the graph has tags, it always gives an answer.
pub proof fn lemma_relation_walk_ends(g: Map<ItemTagId, Seq<ItemTagId>>, t: ItemTagId, a: ItemTagId)
    requires
        acyclic(g),
        g.dom().finite(),
    ensures
        relation_walk(g, t, a, g.dom().len()) is Some,
{
    if g.contains_key(t) {
        lemma_first_generation(g, t);
        let first = g[t];
        if first.len() != 0 && !first.contains(a) {
            vstd::set_lib::lemma_set_empty_equivalency_len(g.dom());
            assert(g.dom().contains(t));
            assert(g.dom().len() >= 1);
            lemma_generations_run_out(g, t);
            assert(1 + g.dom().len() == g.dom().len() + 1);
            lemma_walk_from_ends(g, t, a, 1, g.dom().len());
        }
    }
}

} // verus!
