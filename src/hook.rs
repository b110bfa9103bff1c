//! The hook: selecting anchors near the cursor, latching onto one on a button
//! press, letting go on release, and the pull between player and anchor.
use vstd::prelude::*;

use crate::entities::{
    anchors_wf, Anchor, Player, ANCHOR_PULL, DAMP_DEN, DAMP_NUM, PLAYER_PULL, SELECT_RADIUS,
};
use crate::geometry::{
    add_clamped_spec, add_points, dist2, distance_squared, div_trunc, point_bounded, pull,
    pull_toward, Point, LIMIT,
};

verus! {

/// An anchor at `p` is within reach of the cursor at `c`: its distance is
/// strictly below the selection radius.
pub open spec fn within_reach(p: Point, c: Point) -> bool {
    dist2(p, c) < SELECT_RADIUS * SELECT_RADIUS
}

/// Every anchor marked selected exactly when it is within reach of `c`.
pub open spec fn select_spec(s: Seq<Anchor>, c: Point) -> Seq<Anchor> {
    Seq::new(s.len(), |i: int| Anchor { selected: within_reach(s[i].position, c), ..s[i] })
}

/// How far a selected anchor is from the cursor, for picking among several:
/// without a cursor every anchor ranks the same.
pub open spec fn rank(a: Anchor, cursor: Option<Point>) -> int {
    match cursor {
        Some(c) => dist2(a.position, c),
        None => 0,
    }
}

/// Anchor `i` is the one a button press hooks: the selected anchor nearest to
/// the cursor, the first of them where several are equally near.
pub open spec fn is_pick(s: Seq<Anchor>, cursor: Option<Point>, i: int) -> bool {
    &&& 0 <= i < s.len()
    &&& s[i].selected
    &&& forall|j: int|
        0 <= j < s.len() && #[trigger] s[j].selected ==> rank(s[i], cursor) <= rank(s[j], cursor)
    &&& forall|j: int|
        0 <= j < i && #[trigger] s[j].selected ==> rank(s[i], cursor) < rank(s[j], cursor)
}

/// A button press: the picked anchor becomes hooked, every other one is let go.
pub open spec fn attach_spec(s: Seq<Anchor>, cursor: Option<Point>) -> Seq<Anchor> {
    Seq::new(s.len(), |i: int| Anchor { hooked: is_pick(s, cursor, i), ..s[i] })
}

/// A button release: every anchor is let go.
pub open spec fn release_spec(s: Seq<Anchor>) -> Seq<Anchor> {
    Seq::new(s.len(), |i: int| Anchor { hooked: false, ..s[i] })
}

/// At most one anchor is hooked.
pub open spec fn single_hook(s: Seq<Anchor>) -> bool {
    forall|i: int, j: int|
        0 <= i < s.len() && 0 <= j < s.len() && #[trigger] s[i].hooked && #[trigger] s[j].hooked
            ==> i == j
}

/// `t` has the hooks of `s`, anchor for anchor.
pub open spec fn same_hooks(s: Seq<Anchor>, t: Seq<Anchor>) -> bool {
    &&& s.len() == t.len()
    &&& forall|i: int| #![trigger t[i]] 0 <= i < s.len() ==> t[i].hooked == s[i].hooked
}

/// Keeping the hooks keeps the single-hook rule.
pub proof fn lemma_same_hooks_single(s: Seq<Anchor>, t: Seq<Anchor>)
    requires
        single_hook(s),
        same_hooks(s, t),
    ensures
        single_hook(t),
{
    assert forall|i: int, j: int|
        0 <= i < t.len() && 0 <= j < t.len() && #[trigger] t[i].hooked && #[trigger] t[j].hooked
            implies i == j by {
        assert(s[i].hooked && s[j].hooked);
    }
}

/// After a release no anchor is hooked.
pub proof fn lemma_release_single(s: Seq<Anchor>)
    ensures
        single_hook(release_spec(s)),
        !any_hooked(release_spec(s)),
{
}

pub open spec fn any_hooked(s: Seq<Anchor>) -> bool {
    exists|i: int| 0 <= i < s.len() && #[trigger] s[i].hooked
}

/// The player's velocity after each hooked anchor among `s` has pulled it.
pub open spec fn pulled_velocity(v: Point, pos: Point, s: Seq<Anchor>) -> Point
    decreases s.len(),
{
    if s.len() == 0 {
        v
    } else {
        let before = pulled_velocity(v, pos, s.drop_last());
        if s.last().hooked {
            add_clamped_spec(before, pull_toward(pos, s.last().position, PLAYER_PULL as int))
        } else {
            before
        }
    }
}

/// A velocity component slowed by the damping factor, rounded toward zero.
pub open spec fn damp(v: int) -> int {
    div_trunc(v * DAMP_NUM, DAMP_DEN as int)
}

/// An anchor after one tick of hook forces: pulled toward the player at
/// `pos` where hooked, slowed down otherwise.
pub open spec fn anchor_forced(a: Anchor, pos: Point) -> Anchor {
    if a.hooked {
        Anchor {
            velocity: add_clamped_spec(a.velocity, pull_toward(a.position, pos, ANCHOR_PULL as int)),
            ..a
        }
    } else {
        Anchor { velocity: Point { x: damp(a.velocity.x as int) as i64, y: damp(a.velocity.y as int) as i64 }, ..a }
    }
}

/// Hook forces on the player and the anchors, all from the positions at the
/// start of the tick.
pub open spec fn forces_spec(p: Player, s: Seq<Anchor>) -> (Player, Seq<Anchor>) {
    (
        Player { velocity: pulled_velocity(p.velocity, p.position, s), ..p },
        Seq::new(s.len(), |i: int| anchor_forced(s[i], p.position)),
    )
}

/// `t` holds the same bodies as `s`, in the same order, whatever their flags.
pub open spec fn same_bodies(s: Seq<Anchor>, t: Seq<Anchor>) -> bool {
    &&& s.len() == t.len()
    &&& forall|i: int|
        #![trigger t[i]]
        0 <= i < s.len() ==> t[i].position == s[i].position && t[i].velocity == s[i].velocity
}

/// Changing flags keeps every anchor well formed.
pub proof fn lemma_same_bodies_wf(s: Seq<Anchor>, t: Seq<Anchor>)
    requires
        anchors_wf(s),
        same_bodies(s, t),
    ensures
        anchors_wf(t),
{
    assert forall|i: int| 0 <= i < t.len() implies #[trigger] t[i].wf() by {
        assert(s[i].wf());
        assert(t[i].position == s[i].position && t[i].velocity == s[i].velocity);
    }
}

/// Marks each anchor selected exactly when it lies within the selection
/// radius of the cursor at world position `c`.
pub fn select(anchors: &mut Vec<Anchor>, c: Point)
    requires
        anchors_wf(old(anchors)@),
        point_bounded(c),
    ensures
        final(anchors)@ == select_spec(old(anchors)@, c),
        anchors_wf(final(anchors)@),
{
    let n = anchors.len();
    let ghost s0 = anchors@;
    let r2: u128 = (SELECT_RADIUS as u128) * (SELECT_RADIUS as u128);
    for i in 0..n
        invariant
            n == s0.len(),
            anchors@.len() == n,
            anchors_wf(s0),
            point_bounded(c),
            r2 == SELECT_RADIUS * SELECT_RADIUS,
            forall|j: int| 0 <= j < i ==> anchors@[j] == select_spec(s0, c)[j],
            forall|j: int| i <= j < n ==> anchors@[j] == s0[j],
    {
        let mut a = anchors[i];
        assert(s0[i as int].wf());
        a.selected = distance_squared(a.position, c) < r2;
        anchors.set(i, a);
    }
    assert(anchors@ =~= select_spec(s0, c));
    proof {
        lemma_same_bodies_wf(s0, anchors@);
    }
}

/// The rank of `a` as `rank` defines it.
fn rank_of(a: &Anchor, cursor: Option<Point>) -> (r: u128)
    requires
        a.wf(),
        cursor matches Some(c) ==> point_bounded(c),
    ensures
        r == rank(*a, cursor),
{
    match cursor {
        Some(c) => distance_squared(a.position, c),
        None => 0,
    }
}

/// The index of the anchor that a button press hooks, if any is selected.
pub fn pick(anchors: &Vec<Anchor>, cursor: Option<Point>) -> (r: Option<usize>)
    requires
        anchors_wf(anchors@),
        cursor matches Some(c) ==> point_bounded(c),
    ensures
        r matches Some(i) ==> is_pick(anchors@, cursor, i as int),
        r is None ==> forall|j: int| 0 <= j < anchors@.len() ==> !(#[trigger] anchors@[j].selected),
{
    let n = anchors.len();
    let mut best: Option<usize> = None;
    let mut best_rank: u128 = 0;
    for i in 0..n
        invariant
            n == anchors@.len(),
            anchors_wf(anchors@),
            cursor matches Some(c) ==> point_bounded(c),
            best is None ==> forall|j: int| 0 <= j < i ==> !(#[trigger] anchors@[j].selected),
            best matches Some(b) ==> {
                &&& b < i
                &&& anchors@[b as int].selected
                &&& best_rank == rank(anchors@[b as int], cursor)
                &&& forall|j: int|
                    0 <= j < i && #[trigger] anchors@[j].selected ==> best_rank <= rank(
                        anchors@[j],
                        cursor,
                    )
                &&& forall|j: int|
                    0 <= j < b && #[trigger] anchors@[j].selected ==> best_rank < rank(
                        anchors@[j],
                        cursor,
                    )
            },
    {
        if anchors[i].selected {
            let k = rank_of(&anchors[i], cursor);
            match best {
                None => {
                    best = Some(i);
                    best_rank = k;
                },
                Some(_) => {
                    if k < best_rank {
                        best = Some(i);
                        best_rank = k;
                    }
                },
            }
        }
    }
    best
}

/// At most one anchor is ever picked.
pub proof fn lemma_pick_unique(s: Seq<Anchor>, cursor: Option<Point>, i: int, j: int)
    requires
        is_pick(s, cursor, i),
        is_pick(s, cursor, j),
    ensures
        i == j,
{
    if i < j {
        assert(s[i].selected);
    } else if j < i {
        assert(s[j].selected);
    }
}

/// A button press hooks the selected anchor nearest to the cursor and lets go
/// of every other one. Returns whether an anchor is hooked afterwards.
pub fn attach(anchors: &mut Vec<Anchor>, cursor: Option<Point>) -> (hooked: bool)
    requires
        anchors_wf(old(anchors)@),
        cursor matches Some(c) ==> point_bounded(c),
    ensures
        final(anchors)@ == attach_spec(old(anchors)@, cursor),
        anchors_wf(final(anchors)@),
        single_hook(final(anchors)@),
        hooked == any_hooked(final(anchors)@),
{
    let ghost s0 = anchors@;
    let chosen = pick(anchors, cursor);
    let n = anchors.len();
    proof {
        if let Some(b) = chosen {
            assert forall|j: int| 0 <= j < n implies is_pick(s0, cursor, j) == (j == b) by {
                if is_pick(s0, cursor, j) {
                    lemma_pick_unique(s0, cursor, j, b as int);
                }
            }
        }
    }
    for i in 0..n
        invariant
            n == s0.len(),
            anchors@.len() == n,
            anchors_wf(s0),
            chosen matches Some(b) ==> forall|j: int|
                0 <= j < n ==> is_pick(s0, cursor, j) == (j == b),
            chosen is None ==> forall|j: int| 0 <= j < n ==> !(#[trigger] s0[j].selected),
            forall|j: int| 0 <= j < i ==> anchors@[j] == attach_spec(s0, cursor)[j],
            forall|j: int| i <= j < n ==> anchors@[j] == s0[j],
    {
        let mut a = anchors[i];
        a.hooked = match chosen {
            Some(b) => b == i,
            None => false,
        };
        anchors.set(i, a);
    }
    assert(anchors@ =~= attach_spec(s0, cursor));
    proof {
        lemma_same_bodies_wf(s0, anchors@);
    }
    proof {
        if let Some(b) = chosen {
            assert(anchors@[b as int].hooked);
        }
    }
    chosen.is_some()
}

/// A button release lets go of every anchor.
pub fn release(anchors: &mut Vec<Anchor>)
    requires
        anchors_wf(old(anchors)@),
    ensures
        final(anchors)@ == release_spec(old(anchors)@),
        anchors_wf(final(anchors)@),
{
    let n = anchors.len();
    let ghost s0 = anchors@;
    for i in 0..n
        invariant
            n == s0.len(),
            anchors@.len() == n,
            anchors_wf(s0),
            forall|j: int| 0 <= j < i ==> anchors@[j] == release_spec(s0)[j],
            forall|j: int| i <= j < n ==> anchors@[j] == s0[j],
    {
        let mut a = anchors[i];
        a.hooked = false;
        anchors.set(i, a);
    }
    assert(anchors@ =~= release_spec(s0));
    proof {
        lemma_same_bodies_wf(s0, anchors@);
    }
}

/// A velocity component slowed by the damping factor.
fn damp_component(v: i64) -> (r: i64)
    requires
        -LIMIT <= v <= LIMIT,
    ensures
        r == damp(v as int),
        -LIMIT <= r <= LIMIT,
{
    if v >= 0 {
        v * DAMP_NUM / DAMP_DEN
    } else {
        -((-v) * DAMP_NUM / DAMP_DEN)
    }
}

/// Applies one tick of hook forces: each hooked anchor and the player pull
/// toward each other, and every other anchor slows down. All pulls use the
/// positions at the start of the tick.
pub fn apply_forces(player: &mut Player, anchors: &mut Vec<Anchor>)
    requires
        old(player).wf(),
        anchors_wf(old(anchors)@),
    ensures
        (*final(player), final(anchors)@) == forces_spec(*old(player), old(anchors)@),
        final(player).wf(),
        anchors_wf(final(anchors)@),
{
    let n = anchors.len();
    let ghost s0 = anchors@;
    let ghost p0 = *player;
    let pos = player.position;
    let mut v = player.velocity;
    assert(s0.subrange(0, 0) =~= Seq::<Anchor>::empty());
    for i in 0..n
        invariant
            n == s0.len(),
            anchors@.len() == n,
            anchors_wf(s0),
            p0.wf(),
            pos == p0.position,
            point_bounded(v),
            v == pulled_velocity(p0.velocity, pos, s0.subrange(0, i as int)),
            forall|j: int| 0 <= j < i ==> anchors@[j] == anchor_forced(s0[j], pos),
            forall|j: int| 0 <= j < i ==> (#[trigger] anchors@[j]).wf(),
            forall|j: int| i <= j < n ==> anchors@[j] == s0[j],
    {
        let mut a = anchors[i];
        assert(s0[i as int].wf());
        assert(s0.subrange(0, i + 1).drop_last() =~= s0.subrange(0, i as int));
        if a.hooked {
            v = add_points(v, pull(pos, a.position, PLAYER_PULL));
            a.velocity = add_points(a.velocity, pull(a.position, pos, ANCHOR_PULL));
        } else {
            a.velocity = Point { x: damp_component(a.velocity.x), y: damp_component(a.velocity.y) };
        }
        anchors.set(i, a);
    }
    assert(s0.subrange(0, n as int) =~= s0);
    player.velocity = v;
    assert(anchors@ =~= forces_spec(p0, s0).1);
}

} // verus!
