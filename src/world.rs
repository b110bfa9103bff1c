//! The game: its state machine and the fixed-order tick that drives the
//! player and the anchors.
use vstd::prelude::*;

use crate::entities::{anchors_wf, Anchor, Board, Player, SPAWN_MAX_GAP};
use crate::geometry::{dist2, distance, div_trunc, is_isqrt, midpoint, point_bounded, Point, LIMIT};
use crate::hook::{
    any_hooked, apply_forces, attach, attach_spec, forces_spec, lemma_same_hooks_single, release,
    release_spec, same_hooks, select, select_spec, single_hook,
};
use crate::lifecycle::{
    despawn_below, despawn_spec, floor_of, lemma_kept_above_single, spawn_draw_ok, spawn_if_needed,
    spawn_spec,
};
use crate::physics::{
    apply_gravity, check_too_low, collide_walls, gravity_spec, move_anchors, move_anchors_spec,
    move_player, move_player_spec, outside_walls, too_low, too_low_spec, walls_spec,
};

verus! {

/// Where the game is.
#[derive(Clone, Copy, Debug, PartialEq, Eq, Structural)]
pub enum GameState {
    /// Before the first round.
    WarmUp,
    /// Between rounds, waiting for a replay.
    Menu,
    /// A round is running.
    Playing,
    /// The game is over for good.
    Ended,
}

/// What the platform reports for one tick.
#[derive(Clone, Copy, Debug, PartialEq, Eq, Structural)]
pub struct TickInput {
    /// The cursor in world coordinates, if it is over the window.
    pub cursor: Option<Point>,
    /// The primary button went down since the last tick.
    pub pressed: bool,
    /// The primary button went up since the last tick.
    pub released: bool,
}

/// What happened during one tick, for sound and presentation.
#[derive(Clone, Copy, Debug, PartialEq, Eq, Structural)]
pub struct TickEvents {
    /// A button press hooked an anchor.
    pub attached: bool,
    /// The player hit a side wall.
    pub bounced: bool,
    /// The player fell too far below its best height.
    pub fell: bool,
    /// The round ended.
    pub left_playing: bool,
}

/// The rod drawn between the player and its hooked anchor.
#[derive(Clone, Copy, Debug, PartialEq, Eq, Structural)]
pub struct HookLine {
    pub start: Point,
    pub end: Point,
    pub midpoint: Point,
    /// The distance between the ends, rounded down.
    pub length: u64,
}

/// The whole simulation: the state machine, the player, the anchors.
pub struct World {
    pub state: GameState,
    /// The player: present in a round and in the menu after it, absent
    /// before the first round and once the game has ended.
    pub player: Option<Player>,
    pub anchors: Vec<Anchor>,
    pub board: Board,
    /// Whether a round that ends goes to the menu; otherwise the game ends.
    pub with_menu: bool,
    /// The score of the round that ended the game.
    pub last_score: i64,
}

/// The world with its anchors as a sequence.
pub struct WorldModel {
    pub state: GameState,
    pub player: Option<Player>,
    pub anchors: Seq<Anchor>,
    pub board: Board,
    pub with_menu: bool,
    pub last_score: i64,
}

impl View for World {
    type V = WorldModel;

    open spec fn view(&self) -> WorldModel {
        WorldModel {
            state: self.state,
            player: self.player,
            anchors: self.anchors@,
            board: self.board,
            with_menu: self.with_menu,
            last_score: self.last_score,
        }
    }
}

impl WorldModel {
    pub open spec fn wf(self) -> bool {
        &&& self.board.wf()
        &&& anchors_wf(self.anchors)
        &&& single_hook(self.anchors)
        &&& (self.player matches Some(p) ==> p.wf())
        &&& (self.state == GameState::Playing ==> self.player is Some)
        &&& 0 <= self.last_score <= LIMIT
    }

    /// The player's best height in the current or last round.
    pub open spec fn score(self) -> int {
        match self.player {
            Some(p) => p.max_height as int,
            None => self.last_score as int,
        }
    }
}

/// The cursor lies within the coordinate limit, if there is one.
pub open spec fn input_ok(input: TickInput) -> bool {
    input.cursor matches Some(c) ==> point_bounded(c)
}

/// The first hooked anchor, if any.
pub open spec fn first_hooked(s: Seq<Anchor>, i: int) -> bool {
    0 <= i < s.len() && s[i].hooked && forall|j: int| 0 <= j < i ==> !(#[trigger] s[j]).hooked
}

/// A round starts: the player at its spawn point and no anchors.
pub open spec fn enter_playing_spec(m: WorldModel) -> WorldModel {
    WorldModel {
        state: GameState::Playing,
        player: Some(Player::start_spec()),
        anchors: Seq::empty(),
        ..m
    }
}

/// A round ends: the anchors go; with a menu the player stays for its score,
/// without one the game ends and keeps only the score.
pub open spec fn leave_playing_spec(m: WorldModel) -> WorldModel {
    if m.with_menu {
        WorldModel { state: GameState::Menu, anchors: Seq::empty(), ..m }
    } else {
        WorldModel {
            state: GameState::Ended,
            player: None,
            anchors: Seq::empty(),
            last_score: m.player.unwrap().max_height,
            ..m
        }
    }
}

/// The anchors after the cursor has been read.
pub open spec fn select_stage_spec(s: Seq<Anchor>, input: TickInput) -> Seq<Anchor> {
    match input.cursor {
        Some(c) => select_spec(s, c),
        None => s,
    }
}

/// The anchors after the cursor and the button have been read.
pub open spec fn hook_stage_spec(s: Seq<Anchor>, input: TickInput) -> Seq<Anchor> {
    let selected = select_stage_spec(s, input);
    let attached = if input.pressed {
        attach_spec(selected, input.cursor)
    } else {
        selected
    };
    if input.released {
        release_spec(attached)
    } else {
        attached
    }
}

/// The player after hook forces, gravity and movement.
pub open spec fn flight_spec(p: Player, s: Seq<Anchor>) -> Player {
    move_player_spec(gravity_spec(forces_spec(p, s).0))
}

/// The player after hook forces, gravity, movement and the walls, and the
/// anchors after hook forces and movement.
pub open spec fn motion_spec(p: Player, s: Seq<Anchor>, b: Board) -> (Player, Seq<Anchor>) {
    (walls_spec(flight_spec(p, s), b), move_anchors_spec(forces_spec(p, s).1))
}

/// A running round with a live player.
pub open spec fn live_round(m: WorldModel) -> bool {
    m.state == GameState::Playing && !m.player.unwrap().dead
}

/// One tick of a running round, for a live player, with `x` and `gap` drawn
/// for a possible new anchor.
pub open spec fn playing_tick_spec(m: WorldModel, input: TickInput, x: int, gap: int) -> WorldModel {
    let hooked = hook_stage_spec(m.anchors, input);
    let moved = motion_spec(m.player.unwrap(), hooked, m.board);
    let p = too_low_spec(moved.0, m.board);
    let spawned = spawn_spec(p, moved.1, x, gap);
    WorldModel { player: Some(p), anchors: despawn_spec(p, spawned, m.board), ..m }
}

/// One tick of the whole game.
pub open spec fn tick_spec(m: WorldModel, input: TickInput, x: int, gap: int) -> WorldModel {
    match m.state {
        GameState::WarmUp => enter_playing_spec(m),
        GameState::Playing => if m.player.unwrap().dead {
            leave_playing_spec(m)
        } else {
            playing_tick_spec(m, input, x, gap)
        },
        _ => m,
    }
}

/// Relies on rand's `thread_rng().gen_range(lo..hi)`: a value drawn from
/// `lo..hi`; the call panics on an empty range.
#[verifier::external_body]
fn random_in(lo: i64, hi: i64) -> (r: i64)
    requires
        lo < hi,
    ensures
        lo <= r < hi,
{
    rand::Rng::gen_range(&mut rand::thread_rng(), lo..hi)
}

impl World {
    /// A world before its first round, on `board`.
    pub fn new(board: Board, with_menu: bool) -> (w: World)
        requires
            board.wf(),
        ensures
            w@.wf(),
            w@.state == GameState::WarmUp,
            w@.player is None,
            w@.anchors.len() == 0,
            w@.board == board,
            w@.with_menu == with_menu,
            w@.last_score == 0,
    {
        World {
            state: GameState::WarmUp,
            player: None,
            anchors: Vec::new(),
            board,
            with_menu,
            last_score: 0,
        }
    }

    /// Starts a round: the player back at its spawn point with no score, and
    /// the board cleared of anchors.
    pub fn enter_playing(&mut self)
        requires
            old(self)@.wf(),
        ensures
            final(self)@ == enter_playing_spec(old(self)@),
            final(self)@.wf(),
    {
        self.state = GameState::Playing;
        self.player = Some(Player::start());
        self.anchors = Vec::new();
        assert(self@.anchors =~= Seq::<Anchor>::empty());
    }

    /// Ends the round of a present player.
    fn leave_playing(&mut self)
        requires
            old(self)@.wf(),
            old(self).player is Some,
        ensures
            final(self)@ == leave_playing_spec(old(self)@),
            final(self)@.wf(),
    {
        self.anchors = Vec::new();
        if self.with_menu {
            self.state = GameState::Menu;
        } else {
            self.state = GameState::Ended;
            match self.player {
                Some(p) => {
                    self.last_score = p.max_height;
                },
                None => {},
            }
            self.player = None;
        }
        assert(self@.anchors =~= Seq::<Anchor>::empty());
    }

    /// Starts a new round from the menu. Returns whether the game was in the
    /// menu; otherwise nothing changes.
    pub fn replay(&mut self) -> (started: bool)
        requires
            old(self)@.wf(),
        ensures
            started == (old(self)@.state == GameState::Menu),
            started ==> final(self)@ == enter_playing_spec(old(self)@),
            !started ==> final(self)@ == old(self)@,
            final(self)@.wf(),
    {
        if self.state == GameState::Menu {
            self.enter_playing();
            true
        } else {
            false
        }
    }

    /// One tick with `x` and `gap` as the drawn horizontal position and
    /// height above the best height of an anchor, should one be spawned.
    ///
    /// Warm-up starts the first round. In a round, a dead player ends it;
    /// otherwise the tick reads the cursor and the button, applies the hook
    /// forces and gravity, moves everything, bounces off the walls, checks
    /// for a fall, and spawns and drops anchors, in that order. The menu and
    /// the end are left as they are.
    pub fn tick_with(&mut self, input: &TickInput, x: i64, gap: i64) -> (ev: TickEvents)
        requires
            old(self)@.wf(),
            input_ok(*input),
            spawn_draw_ok(old(self).board, x as int, gap as int),
        ensures
            final(self)@ == tick_spec(old(self)@, *input, x as int, gap as int),
            final(self)@.wf(),
            ev.left_playing == (old(self)@.state == GameState::Playing && old(
                self,
            )@.player.unwrap().dead),
            ev.attached == (live_round(old(self)@) && input.pressed && any_hooked(
                attach_spec(select_stage_spec(old(self)@.anchors, *input), input.cursor),
            )),
            ev.bounced == (live_round(old(self)@) && outside_walls(
                flight_spec(old(self)@.player.unwrap(), hook_stage_spec(old(self)@.anchors, *input)),
                old(self).board,
            )),
            ev.fell == (live_round(old(self)@) && too_low(
                motion_spec(
                    old(self)@.player.unwrap(),
                    hook_stage_spec(old(self)@.anchors, *input),
                    old(self).board,
                ).0,
                old(self).board,
            )),
    {
        let mut ev = TickEvents { attached: false, bounced: false, fell: false, left_playing: false };
        match self.state {
            GameState::WarmUp => {
                self.enter_playing();
            },
            GameState::Playing => {
                let mut p = match self.player {
                    Some(p) => p,
                    None => {
                        return ev;
                    },
                };
                if p.dead {
                    self.leave_playing();
                    ev.left_playing = true;
                } else {
                    let ghost s0 = self.anchors@;
                    if let Some(c) = input.cursor {
                        select(&mut self.anchors, c);
                    }
                    let ghost s1 = self.anchors@;
                    assert(same_hooks(s0, s1));
                    proof {
                        lemma_same_hooks_single(s0, s1);
                    }
                    if input.pressed {
                        ev.attached = attach(&mut self.anchors, input.cursor);
                    }
                    if input.released {
                        release(&mut self.anchors);
                    }
                    let ghost s3 = self.anchors@;
                    assert(s3 == hook_stage_spec(s0, *input));
                    apply_forces(&mut p, &mut self.anchors);
                    apply_gravity(&mut p);
                    move_player(&mut p);
                    move_anchors(&mut self.anchors);
                    let ghost s5 = self.anchors@;
                    assert(same_hooks(s3, s5));
                    proof {
                        lemma_same_hooks_single(s3, s5);
                    }
                    ev.bounced = collide_walls(&mut p, &self.board);
                    ev.fell = check_too_low(&mut p, &self.board);
                    spawn_if_needed(&p, &mut self.anchors, &self.board, x, gap);
                    let ghost s6 = self.anchors@;
                    assert(single_hook(s6)) by {
                        if s6.len() > s5.len() {
                            assert forall|i: int, j: int|
                                0 <= i < s6.len() && 0 <= j < s6.len() && #[trigger] s6[i].hooked
                                    && #[trigger] s6[j].hooked implies i == j by {
                                assert(i < s5.len() ==> s6[i] == s5[i]);
                                assert(j < s5.len() ==> s6[j] == s5[j]);
                            }
                        }
                    }
                    despawn_below(&p, &mut self.anchors, &self.board);
                    proof {
                        lemma_kept_above_single(s6, floor_of(p, self.board));
                    }
                    self.player = Some(p);
                }
            },
            _ => {},
        }
        ev
    }

    /// One tick, drawing at random where a new anchor would go: across the
    /// board, between the board's top offset and `SPAWN_MAX_GAP` above the
    /// best height. The result is the tick of `tick_with` for some such draw.
    pub fn tick(&mut self, input: &TickInput) -> (ev: TickEvents)
        requires
            old(self)@.wf(),
            input_ok(*input),
        ensures
            final(self)@.wf(),
            exists|x: int, gap: int|
                spawn_draw_ok(old(self).board, x, gap) && final(self)@ == tick_spec(
                    old(self)@,
                    *input,
                    x,
                    gap,
                ),
    {
        let x = random_in(self.board.left, self.board.right);
        let gap = random_in(self.board.top_offset, SPAWN_MAX_GAP);
        self.tick_with(input, x, gap)
    }

    /// The player's best height in the current round, or in the last one
    /// once the game has ended.
    pub fn score(&self) -> (r: i64)
        requires
            self@.wf(),
        ensures
            r == self@.score(),
    {
        match self.player {
            Some(p) => p.max_height,
            None => self.last_score,
        }
    }

    /// The rod from the player to the first hooked anchor, if there are both.
    pub fn hook_line(&self) -> (r: Option<HookLine>)
        requires
            self@.wf(),
        ensures
            r is None ==> self@.player is None || !any_hooked(self@.anchors),
            r matches Some(l) ==> {
                &&& self@.player is Some
                &&& exists|i: int|
                    first_hooked(self@.anchors, i) && l.end == self@.anchors[i].position
                &&& l.start == self@.player.unwrap().position
                &&& l.midpoint.x == div_trunc(l.start.x + l.end.x, 2)
                &&& l.midpoint.y == div_trunc(l.start.y + l.end.y, 2)
                &&& is_isqrt(dist2(l.start, l.end), l.length as int)
            },
    {
        let p = match self.player {
            Some(p) => p,
            None => {
                return None;
            },
        };
        let n = self.anchors.len();
        for i in 0..n
            invariant
                n == self.anchors@.len(),
                self@.wf(),
                self@.player == Some(p),
                forall|j: int| 0 <= j < i ==> !(#[trigger] self.anchors@[j]).hooked,
        {
            let a = self.anchors[i];
            if a.hooked {
                assert(self.anchors@[i as int].wf());
                assert(first_hooked(self@.anchors, i as int));
                return Some(
                    HookLine {
                        start: p.position,
                        end: a.position,
                        midpoint: midpoint(p.position, a.position),
                        length: distance(p.position, a.position),
                    },
                );
            }
        }
        None
    }
}

} // verus!
