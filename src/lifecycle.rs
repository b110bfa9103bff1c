//! Keeping anchors ahead of the player: spawning above its best height and
//! dropping those left far below.
use vstd::prelude::*;

use crate::entities::{anchors_wf, Anchor, Board, Player, LOOKAHEAD, SPAWN_MAX_GAP};
use crate::geometry::{clamp, Point, LIMIT};
use crate::hook::single_hook;

verus! {

/// The height of the highest anchor, or zero where that is higher or there
/// is none.
pub open spec fn highest(s: Seq<Anchor>) -> int
    decreases s.len(),
{
    if s.len() == 0 {
        0
    } else {
        let rest = highest(s.drop_last());
        if s.last().position.y > rest {
            s.last().position.y as int
        } else {
            rest
        }
    }
}

/// The anchors of `s` at or above `floor`, in their order.
pub open spec fn kept_above(s: Seq<Anchor>, floor: int) -> Seq<Anchor>
    decreases s.len(),
{
    if s.len() == 0 {
        s
    } else {
        let rest = kept_above(s.drop_last(), floor);
        if s.last().position.y >= floor {
            rest.push(s.last())
        } else {
            rest
        }
    }
}

/// No anchor is far enough above the player's best height.
pub open spec fn needs_spawn(p: Player, s: Seq<Anchor>) -> bool {
    highest(s) - p.max_height < LOOKAHEAD
}

/// The anchor spawned at horizontal position `x`, `gap` above the best height.
pub open spec fn spawned(p: Player, x: int, gap: int) -> Anchor {
    Anchor {
        position: Point { x: x as i64, y: clamp(p.max_height + gap) as i64 },
        velocity: Point { x: 0, y: 0 },
        selected: false,
        hooked: false,
    }
}

/// The anchors after the spawn rule, given the drawn position.
pub open spec fn spawn_spec(p: Player, s: Seq<Anchor>, x: int, gap: int) -> Seq<Anchor> {
    if needs_spawn(p, s) {
        s.push(spawned(p, x, gap))
    } else {
        s
    }
}

/// The lowest height at which an anchor is kept.
pub open spec fn floor_of(p: Player, b: Board) -> int {
    p.max_height + b.bottom_offset
}

/// The anchors after the despawn rule.
pub open spec fn despawn_spec(p: Player, s: Seq<Anchor>, b: Board) -> Seq<Anchor> {
    kept_above(s, floor_of(p, b))
}

/// Where a spawned anchor may be placed.
pub open spec fn spawn_draw_ok(b: Board, x: int, gap: int) -> bool {
    b.left <= x < b.right && b.top_offset <= gap < SPAWN_MAX_GAP
}

/// No anchor is higher than `highest`.
pub proof fn lemma_highest_bounds(s: Seq<Anchor>)
    ensures
        highest(s) >= 0,
        forall|i: int| 0 <= i < s.len() ==> highest(s) >= (#[trigger] s[i]).position.y,
    decreases s.len(),
{
    if s.len() > 0 {
        lemma_highest_bounds(s.drop_last());
        assert forall|i: int| 0 <= i < s.len() implies highest(s) >= (#[trigger] s[i]).position.y by {
            if i < s.len() - 1 {
                assert(s.drop_last()[i] == s[i]);
            }
        }
    }
}

/// Among well-formed anchors `highest` is within the coordinate limit.
proof fn lemma_highest_limit(s: Seq<Anchor>)
    requires
        anchors_wf(s),
    ensures
        0 <= highest(s) <= LIMIT,
    decreases s.len(),
{
    if s.len() > 0 {
        assert(s[s.len() - 1].wf());
        assert forall|i: int| 0 <= i < s.drop_last().len() implies #[trigger] s.drop_last()[i].wf() by {
            assert(s[i].wf());
        }
        lemma_highest_limit(s.drop_last());
    }
}

/// A positive `highest` is the height of one of the anchors.
pub proof fn lemma_highest_attained(s: Seq<Anchor>)
    requires
        highest(s) > 0,
    ensures
        exists|i: int| 0 <= i < s.len() && (#[trigger] s[i]).position.y == highest(s),
    decreases s.len(),
{
    if s.last().position.y > highest(s.drop_last()) {
        assert(s[s.len() - 1].position.y == highest(s));
    } else {
        lemma_highest_attained(s.drop_last());
        let i = choose|i: int|
            0 <= i < s.drop_last().len() && (#[trigger] s.drop_last()[i]).position.y == highest(
                s.drop_last(),
            );
        assert(s[i] == s.drop_last()[i]);
    }
}

/// Every kept anchor is at or above the floor, and every anchor of `s` at or
/// above the floor is kept.
pub proof fn lemma_kept_above(s: Seq<Anchor>, floor: int)
    ensures
        kept_above(s, floor).len() <= s.len(),
        forall|i: int|
            0 <= i < kept_above(s, floor).len() ==> (#[trigger] kept_above(s, floor)[i]).position.y
                >= floor,
        forall|i: int|
            0 <= i < kept_above(s, floor).len() ==> s.contains(#[trigger] kept_above(s, floor)[i]),
        forall|i: int|
            0 <= i < s.len() && (#[trigger] s[i]).position.y >= floor ==> kept_above(
                s,
                floor,
            ).contains(s[i]),
    decreases s.len(),
{
    if s.len() > 0 {
        let d = s.drop_last();
        let rest = kept_above(d, floor);
        lemma_kept_above(d, floor);
        let k = kept_above(s, floor);
        assert forall|i: int| 0 <= i < k.len() implies s.contains(#[trigger] k[i]) by {
            if i < rest.len() {
                assert(k[i] == rest[i]);
                let j = choose|j: int| 0 <= j < d.len() && d[j] == rest[i];
                assert(s[j] == d[j]);
            } else {
                assert(k[i] == s[s.len() - 1]);
            }
        }
        assert forall|i: int| 0 <= i < k.len() implies (#[trigger] k[i]).position.y >= floor by {
            if i < rest.len() {
                assert(k[i] == rest[i]);
            }
        }
        assert forall|i: int|
            0 <= i < s.len() && (#[trigger] s[i]).position.y >= floor implies k.contains(s[i]) by {
            if i < s.len() - 1 {
                assert(d[i] == s[i]);
                let j = choose|j: int| 0 <= j < rest.len() && rest[j] == d[i];
                assert(k[j] == rest[j]);
            } else {
                assert(k[k.len() - 1] == s[i]);
            }
        }
    }
}

/// Dropping anchors keeps the single-hook rule.
pub proof fn lemma_kept_above_single(s: Seq<Anchor>, floor: int)
    requires
        single_hook(s),
    ensures
        single_hook(kept_above(s, floor)),
    decreases s.len(),
{
    if s.len() > 0 {
        let d = s.drop_last();
        assert(single_hook(d)) by {
            assert forall|i: int, j: int|
                0 <= i < d.len() && 0 <= j < d.len() && #[trigger] d[i].hooked
                    && #[trigger] d[j].hooked implies i == j by {
                assert(s[i] == d[i] && s[j] == d[j]);
            }
        }
        lemma_kept_above_single(d, floor);
        lemma_kept_above(d, floor);
        let rest = kept_above(d, floor);
        let k = kept_above(s, floor);
        if s.last().position.y >= floor {
            assert forall|i: int, j: int|
                0 <= i < k.len() && 0 <= j < k.len() && #[trigger] k[i].hooked
                    && #[trigger] k[j].hooked implies i == j by {
                if i < rest.len() && j < rest.len() {
                    assert(k[i] == rest[i] && k[j] == rest[j]);
                } else if i < rest.len() || j < rest.len() {
                    let m = if i < rest.len() { i } else { j };
                    assert(k[m] == rest[m]);
                    assert(d.contains(rest[m]));
                    let q = choose|q: int| 0 <= q < d.len() && d[q] == rest[m];
                    assert(s[q] == d[q]);
                    assert(s[s.len() - 1].hooked);
                }
            }
        }
    }
}

/// Anchors kept from well-formed ones are well formed.
pub proof fn lemma_kept_above_wf(s: Seq<Anchor>, floor: int)
    requires
        anchors_wf(s),
    ensures
        anchors_wf(kept_above(s, floor)),
{
    lemma_kept_above(s, floor);
    let k = kept_above(s, floor);
    assert forall|i: int| 0 <= i < k.len() implies #[trigger] k[i].wf() by {
        assert(s.contains(k[i]));
        let j = choose|j: int| 0 <= j < s.len() && s[j] == k[i];
        assert(s[j].wf());
    }
}

/// The height of the highest anchor, or zero where that is higher.
pub fn highest_anchor(anchors: &Vec<Anchor>) -> (r: i64)
    requires
        anchors_wf(anchors@),
    ensures
        r == highest(anchors@),
{
    let n = anchors.len();
    let mut best: i64 = 0;
    assert(anchors@.subrange(0, 0) =~= Seq::<Anchor>::empty());
    for i in 0..n
        invariant
            n == anchors@.len(),
            best == highest(anchors@.subrange(0, i as int)),
    {
        assert(anchors@.subrange(0, i + 1).drop_last() =~= anchors@.subrange(0, i as int));
        let y = anchors[i].position.y;
        if y > best {
            best = y;
        }
    }
    assert(anchors@.subrange(0, n as int) =~= anchors@);
    best
}

/// Spawns one anchor at horizontal position `x`, `gap` above the player's
/// best height, where no anchor stands `LOOKAHEAD` above it. Returns whether
/// it did.
pub fn spawn_if_needed(
    player: &Player,
    anchors: &mut Vec<Anchor>,
    board: &Board,
    x: i64,
    gap: i64,
) -> (added: bool)
    requires
        player.wf(),
        board.wf(),
        anchors_wf(old(anchors)@),
        spawn_draw_ok(*board, x as int, gap as int),
    ensures
        final(anchors)@ == spawn_spec(*player, old(anchors)@, x as int, gap as int),
        added == needs_spawn(*player, old(anchors)@),
        anchors_wf(final(anchors)@),
{
    let top = highest_anchor(anchors);
    proof {
        lemma_highest_limit(anchors@);
    }
    if top - player.max_height < LOOKAHEAD {
        let y = if player.max_height > LIMIT - gap {
            LIMIT
        } else {
            player.max_height + gap
        };
        anchors.push(Anchor::at(Point { x, y }));
        proof {
            let s = anchors@;
            assert forall|i: int| 0 <= i < s.len() implies #[trigger] s[i].wf() by {
                if i < s.len() - 1 {
                    assert(s[i] == old(anchors)@[i]);
                }
            }
        }
        true
    } else {
        false
    }
}

/// Drops every anchor below the player's best height plus the board's
/// bottom offset, keeping the others in order.
pub fn despawn_below(player: &Player, anchors: &mut Vec<Anchor>, board: &Board)
    requires
        player.wf(),
        board.wf(),
        anchors_wf(old(anchors)@),
    ensures
        final(anchors)@ == despawn_spec(*player, old(anchors)@, *board),
        anchors_wf(final(anchors)@),
{
    let floor = player.max_height + board.bottom_offset;
    let ghost s0 = anchors@;
    let n = anchors.len();
    let mut kept: Vec<Anchor> = Vec::new();
    assert(s0.subrange(0, 0) =~= Seq::<Anchor>::empty());
    for i in 0..n
        invariant
            n == s0.len(),
            anchors@ == s0,
            floor == floor_of(*player, *board),
            kept@ == kept_above(s0.subrange(0, i as int), floor as int),
    {
        assert(s0.subrange(0, i + 1).drop_last() =~= s0.subrange(0, i as int));
        let a = anchors[i];
        if a.position.y >= floor {
            kept.push(a);
        }
    }
    assert(s0.subrange(0, n as int) =~= s0);
    *anchors = kept;
    proof {
        lemma_kept_above_wf(s0, floor as int);
    }
}

} // verus!
