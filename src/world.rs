//! The game world: the player, enemies and stars, the score, the high-score
//! list, the spawn timers and the state machine that spawns and clears them.
use vstd::prelude::*;
use crate::geometry::{
    Direction, Playfield, Position, abs, POS_LIMIT, UNITS_PER_PIXEL, DIRECTION_SCALE, advance,
    advance_spec, bounds_spec, clamp_spec, confine, get_bounds, touching, touching_spec,
    unit_direction, lemma_confined_within_bounds, is_root, unit_spec,
};
use crate::random::{draw_below, DRAW_RANGE};
use crate::timer::{SpawnTimer, lemma_timer_fires_on_crossing, sum};

verus! {

pub const PLAYER_SPEED: i64 = 500;
pub const PLAYER_SIZE: i64 = 64 * UNITS_PER_PIXEL;
pub const NUMBER_OF_ENEMIES: usize = 4;
pub const ENEMY_SPEED: i64 = 200;
pub const ENEMY_SIZE: i64 = 64 * UNITS_PER_PIXEL;
pub const NUMBER_OF_STARS: usize = 10;
pub const STAR_SIZE: i64 = 30 * UNITS_PER_PIXEL;
/// Star spawn interval, in nanoseconds.
pub const STAR_SPAWN_TIME: u64 = 1_000_000_000;
/// Enemy spawn interval, in nanoseconds.
pub const ENEMY_SPAWN_TIME: u64 = 5_000_000_000;

/// The top-level mode of the game.
#[derive(Clone, Copy, Debug, PartialEq, Eq, Structural)]
pub enum AppState {
    MainMenu,
    InGame,
    GameOver,
}

/// An enemy ball and the direction it travels in.
#[derive(Clone, Copy, Debug, PartialEq, Eq, Structural)]
pub struct Enemy {
    pub position: Position,
    pub direction: Direction,
}

/// Raised when an enemy reaches the player; carries the score at that moment.
#[derive(Clone, Copy, Debug, PartialEq, Eq, Structural)]
pub struct GameOver {
    pub score: u32,
}

/// Movement keys held during a frame (vi-style: H left, L right, K up, J down).
#[derive(Clone, Copy, Debug, PartialEq, Eq, Structural)]
pub struct Keys {
    pub left: bool,
    pub right: bool,
    pub up: bool,
    pub down: bool,
}

/// What happened during one frame, for sounds and messages.
#[derive(Debug)]
pub struct FrameReport {
    /// Stars picked up.
    pub picked: u32,
    /// One sound per enemy that bounced off an edge.
    pub bounce_sounds: Vec<BounceSound>,
    /// The game over raised by an enemy that reached the player, if any.
    pub game_over: Option<GameOver>,
    pub star_spawned: bool,
    pub enemy_spawned: bool,
}

/// Scores of finished games, oldest first.
#[derive(Debug)]
pub struct HighScores {
    pub scores: Vec<(String, u32)>,
}

impl View for HighScores {
    type V = Seq<(Seq<char>, u32)>;

    open spec fn view(&self) -> Seq<(Seq<char>, u32)> {
        Seq::new(self.scores@.len(), |i: int| (self.scores@[i].0@, self.scores@[i].1))
    }
}

/// Everything the game keeps between frames.
#[derive(Debug)]
pub struct World {
    pub field: Playfield,
    pub state: AppState,
    pub player: Option<Position>,
    pub enemies: Vec<Enemy>,
    pub stars: Vec<Position>,
    pub score: u32,
    pub high_scores: HighScores,
    pub star_timer: SpawnTimer,
    pub enemy_timer: SpawnTimer,
}

/// The name recorded beside every high score.
pub open spec fn player_name() -> Seq<char> {
    seq!['P', 'l', 'a', 'y', 'e', 'r']
}

impl Enemy {
    pub open spec fn wf(self) -> bool {
        self.position.wf() && self.direction.wf()
    }
}

/// One coordinate of a spawn point: in `[0, extent)`, or 0 on an empty extent.
pub open spec fn on_axis(v: int, extent: int) -> bool {
    if extent > 0 { 0 <= v < extent } else { v == 0 }
}

/// `p` is a spawn point of the playfield: `0 <= x < width`, `0 <= y < height`.
pub open spec fn on_field(p: Position, field: Playfield) -> bool {
    on_axis(p.x as int, field.width as int) && on_axis(p.y as int, field.height as int)
}

/// A freshly drawn enemy direction: the unit vector of a vector whose
/// components lie in `[-DIRECTION_SCALE, DIRECTION_SCALE]`, one of them at
/// least half that in size (so that rounding the length stays small).
pub open spec fn spawn_direction(d: Direction) -> bool {
    exists|x: int, y: int, len: int|
        -DIRECTION_SCALE <= x <= DIRECTION_SCALE && -DIRECTION_SCALE <= y <= DIRECTION_SCALE
            && (abs(x) >= DIRECTION_SCALE / 2 || abs(y) >= DIRECTION_SCALE / 2)
            && is_root(x * x + y * y, len) && d == unit_spec(x, y, len)
}

/// Doubles a non-zero vector until one component is at least half of
/// `DIRECTION_SCALE`; its direction stays the same.
fn scale_up(x: i64, y: i64) -> (r: (i64, i64))
    requires
        abs(x as int) <= DIRECTION_SCALE,
        abs(y as int) <= DIRECTION_SCALE,
        x != 0 || y != 0,
    ensures
        abs(r.0 as int) <= DIRECTION_SCALE,
        abs(r.1 as int) <= DIRECTION_SCALE,
        abs(r.0 as int) >= DIRECTION_SCALE / 2 || abs(r.1 as int) >= DIRECTION_SCALE / 2,
{
    let mut a = x;
    let mut b = y;
    while (a > -500 && a < 500) && (b > -500 && b < 500)
        invariant
            abs(a as int) <= DIRECTION_SCALE,
            abs(b as int) <= DIRECTION_SCALE,
            a != 0 || b != 0,
        decreases 2000 - abs(a as int) - abs(b as int),
    {
        a = 2 * a;
        b = 2 * b;
    }
    (a, b)
}

/// The two sounds an enemy can make when it bounces.
#[derive(Clone, Copy, Debug, PartialEq, Eq, Structural)]
pub enum BounceSound {
    Pluck1,
    Pluck2,
}

/// The sound for a draw: the first when the draw lies in the upper half of
/// its range (a uniform number above one half), else the second.
pub open spec fn bounce_sound_spec(draw: int) -> BounceSound {
    if 2 * draw > DRAW_RANGE { BounceSound::Pluck1 } else { BounceSound::Pluck2 }
}

pub fn bounce_sound(draw: u32) -> (r: BounceSound)
    ensures
        r == bounce_sound_spec(draw as int),
{
    if draw > 2_147_483_648 {
        BounceSound::Pluck1
    } else {
        BounceSound::Pluck2
    }
}

/// One of the two bounce sounds, chosen by a random draw (either may come).
fn random_bounce_sound() -> (r: BounceSound) {
    let v: u32 = rand::random::<u32>();
    bounce_sound(v)
}

/// The high scores after `update_high_scores` has run once per event, in order.
pub open spec fn record_all(scores: Seq<(Seq<char>, u32)>, events: Seq<GameOver>) -> Seq<(Seq<char>, u32)>
    decreases events.len(),
{
    if events.len() == 0 {
        scores
    } else {
        record_all(scores, events.drop_last()).push((player_name(), events.last().score))
    }
}

/// Each game over adds exactly one entry to the high scores: after a run of
/// events the list has grown by their number, keeps what it held, and ends
/// with their scores in the order the events came.
pub proof fn lemma_high_scores_in_order(scores: Seq<(Seq<char>, u32)>, events: Seq<GameOver>)
    ensures
        record_all(scores, events).len() == scores.len() + events.len(),
        record_all(scores, events).subrange(0, scores.len() as int) == scores,
        forall|k: int| 0 <= k < events.len() ==> #[trigger] record_all(scores, events)[scores.len() + k]
            == (player_name(), events[k].score),
    decreases events.len(),
{
    if events.len() > 0 {
        let prev = events.drop_last();
        lemma_high_scores_in_order(scores, prev);
        let r = record_all(scores, events);
        let rp = record_all(scores, prev);
        assert(r.subrange(0, scores.len() as int) =~= rp.subrange(0, scores.len() as int));
        assert forall|k: int| 0 <= k < events.len() implies #[trigger] r[scores.len() + k]
            == (player_name(), events[k].score) by {
            if k < prev.len() {
                assert(r[scores.len() + k] == rp[scores.len() + k]);
                assert(prev[k] == events[k]);
            }
        }
    }
}

/// The spawn timers of a new world, ticked during a game once per frame
/// time in `deltas`, each fire on the frame where the accumulated time
/// crosses a multiple of their interval, and at most once per frame.
pub proof fn lemma_spawn_timers_fire_on_crossing(deltas: Seq<u64>)
    ensures
        ({
            let s = SpawnTimer { duration: STAR_SPAWN_TIME, elapsed: 0, finished: false }.after_ticks(deltas);
            let e = SpawnTimer { duration: ENEMY_SPAWN_TIME, elapsed: 0, finished: false }.after_ticks(deltas);
            deltas.len() > 0 ==> {
                &&& s.finished <==> sum(deltas) / (STAR_SPAWN_TIME as int)
                    > sum(deltas.drop_last()) / (STAR_SPAWN_TIME as int)
                &&& e.finished <==> sum(deltas) / (ENEMY_SPAWN_TIME as int)
                    > sum(deltas.drop_last()) / (ENEMY_SPAWN_TIME as int)
            }
        }),
{
    lemma_timer_fires_on_crossing(STAR_SPAWN_TIME, deltas);
    lemma_timer_fires_on_crossing(ENEMY_SPAWN_TIME, deltas);
}

/// Where the player appears: the middle of the playfield.
pub open spec fn center(field: Playfield) -> Position {
    Position { x: (field.width / 2) as i64, y: (field.height / 2) as i64 }
}

/// One axis of the held keys: -1, 0 or 1.
pub open spec fn key_axis(neg: bool, pos: bool) -> int {
    (if pos { 1int } else { 0int }) - (if neg { 1int } else { 0int })
}

/// `d` is the unit direction of the held keys.
pub open spec fn is_key_direction(keys: Keys, d: Direction) -> bool {
    let x = key_axis(keys.left, keys.right) * DIRECTION_SCALE;
    let y = key_axis(keys.down, keys.up) * DIRECTION_SCALE;
    exists|len: int| is_root(x * x + y * y, len) && d == unit_spec(x, y, len)
}

/// The unit direction of the held keys; opposite keys cancel.
pub fn key_direction(keys: Keys) -> (d: Direction)
    ensures
        is_key_direction(keys, d),
        d.wf(),
{
    let mut x: i64 = 0;
    let mut y: i64 = 0;
    if keys.left {
        x = x - DIRECTION_SCALE;
    }
    if keys.right {
        x = x + DIRECTION_SCALE;
    }
    if keys.up {
        y = y + DIRECTION_SCALE;
    }
    if keys.down {
        y = y - DIRECTION_SCALE;
    }
    assert(x == key_axis(keys.left, keys.right) * DIRECTION_SCALE);
    assert(y == key_axis(keys.down, keys.up) * DIRECTION_SCALE);
    unit_direction(x, y)
}

/// `p` confined to the box of an entity of width `size`.
pub open spec fn confine_spec(p: Position, field: Playfield, size: int) -> Position {
    let (x_min, x_max, y_min, y_max) = bounds_spec(field, size);
    Position { x: clamp_spec(p.x as int, x_min, x_max) as i64, y: clamp_spec(p.y as int, y_min, y_max) as i64 }
}

/// `p` lies in `[size/2, dimension - size/2]` on both axes, whenever an
/// entity of width `size` fits in the window.
pub open spec fn within_window(p: Position, field: Playfield, size: int) -> bool {
    size <= field.width && size <= field.height ==> {
        &&& size / 2 <= p.x <= field.width - size / 2
        &&& size / 2 <= p.y <= field.height - size / 2
    }
}

proof fn lemma_confine_wf(p: Position, field: Playfield, size: int)
    requires
        p.wf(),
        field.wf(),
        0 <= size <= POS_LIMIT,
    ensures
        confine_spec(p, field, size).wf(),
{
}

/// Distance below which the player picks up a star: the sum of their radii.
pub const STAR_REACH: i64 = 32 * UNITS_PER_PIXEL + 15 * UNITS_PER_PIXEL;

/// Distance below which an enemy reaches the player: the sum of their radii.
pub const ENEMY_REACH: i64 = 32 * UNITS_PER_PIXEL + 32 * UNITS_PER_PIXEL;

/// The stars that a player at `p` does not touch, in their order.
pub open spec fn stars_left(p: Position, stars: Seq<Position>) -> Seq<Position> {
    stars.filter(out_of_reach(p))
}

/// Whether a star lies out of reach of a player at `p`.
pub open spec fn out_of_reach(p: Position) -> spec_fn(Position) -> bool {
    |s: Position| !touching_spec(p, s, STAR_REACH as int)
}

/// Whether some enemy touches a player at `p`.
pub open spec fn enemy_reaches(p: Position, enemies: Seq<Enemy>) -> bool {
    exists|i: int| 0 <= i < enemies.len() && touching_spec(p, #[trigger] enemies[i].position, ENEMY_REACH as int)
}

/// Whether an enemy has left its confinement box.
pub open spec fn left_box(e: Enemy, field: Playfield) -> bool {
    let (x_min, x_max, y_min, y_max) = bounds_spec(field, ENEMY_SIZE as int);
    ||| e.position.x < x_min || e.position.x > x_max
    ||| e.position.y < y_min || e.position.y > y_max
}

/// The player after moving along `d` for `dt` nanoseconds.
pub open spec fn advanced_player(player: Option<Position>, d: Direction, dt: int) -> Option<Position> {
    match player {
        Some(p) => Some(advance_spec(p, d, PLAYER_SPEED as int, dt)),
        None => None,
    }
}

/// The player after moving along `d` and being confined.
pub open spec fn moved_player(w: World, d: Direction, dt: int) -> Option<Position> {
    match advanced_player(w.player, d, dt) {
        Some(p) => Some(confine_spec(p, w.field, PLAYER_SIZE as int)),
        None => None,
    }
}

/// The enemies after moving along their directions for `dt` nanoseconds.
pub open spec fn advanced_enemies(w: World, dt: int) -> Seq<Enemy> {
    Seq::new(w.enemies@.len(), |i: int| Enemy {
        position: advance_spec(w.enemies@[i].position, w.enemies@[i].direction,
            ENEMY_SPEED as int, dt),
        ..w.enemies@[i]
    })
}

/// An enemy after bouncing off the edges it crossed and being confined.
pub open spec fn settled_enemy(e: Enemy, field: Playfield) -> Enemy {
    let b = bounce_spec(e, field);
    Enemy { position: confine_spec(b.position, field, ENEMY_SIZE as int), ..b }
}

/// The enemies after moving, bouncing and being confined.
pub open spec fn moved_enemies(w: World, dt: int) -> Seq<Enemy> {
    Seq::new(w.enemies@.len(), |i: int| settled_enemy(advanced_enemies(w, dt)[i], w.field))
}

/// A spawn timer after a frame: ticked during a game, untouched otherwise.
pub open spec fn frame_timer(t: SpawnTimer, state: AppState, dt: int) -> SpawnTimer {
    if state == AppState::InGame { t.tick_spec(dt) } else { t }
}

/// What one frame does to the world `w`, the player moving along `d`:
/// everything moves and is confined; if an enemy then reaches the player
/// the game ends with its score recorded; otherwise the reachable stars are
/// picked up, the timers tick and at most one star and one enemy are
/// spawned at the end of their lists.
pub open spec fn frame_outcome(w: World, n: World, r: FrameReport, d: Direction, dt: int) -> bool {
    let mp = moved_player(w, d, dt);
    let es = moved_enemies(w, dt);
    let hit = mp is Some && enemy_reaches(mp->Some_0, es);
    let kept = match mp {
        Some(p) => stars_left(p, w.stars@),
        None => w.stars@,
    };
    &&& n.field == w.field
    &&& r.bounce_sounds@.len() == advanced_enemies(w, dt).filter(outside_box(w.field)).len()
    &&& (r.game_over is Some <==> hit)
    &&& hit ==> {
        &&& r.game_over == Some(GameOver { score: w.score })
        &&& n.state == AppState::MainMenu
        &&& n.player is None
        &&& n.enemies@.len() == 0
        &&& n.stars@.len() == 0
        &&& n.score == w.score
        &&& n.high_scores@ == w.high_scores@.push((player_name(), w.score))
        &&& n.star_timer == w.star_timer
        &&& n.enemy_timer == w.enemy_timer
        &&& r.picked == 0 && !r.star_spawned && !r.enemy_spawned
    }
    &&& !hit ==> {
        &&& n.state == w.state
        &&& n.player == mp
        &&& n.high_scores == w.high_scores
        &&& r.picked == w.stars@.len() - kept.len()
        &&& n.score == w.score + r.picked
        &&& n.star_timer == frame_timer(w.star_timer, w.state, dt)
        &&& n.enemy_timer == frame_timer(w.enemy_timer, w.state, dt)
        &&& r.star_spawned == (w.state == AppState::InGame && n.star_timer.finished)
        &&& r.enemy_spawned == (w.state == AppState::InGame && n.enemy_timer.finished)
        &&& n.stars@.len() == kept.len() + if r.star_spawned { 1int } else { 0int }
        &&& n.stars@.subrange(0, kept.len() as int) == kept
        &&& r.star_spawned ==> on_field(n.stars@.last(), w.field)
        &&& n.enemies@.len() == es.len() + if r.enemy_spawned { 1int } else { 0int }
        &&& n.enemies@.subrange(0, es.len() as int) == es
        &&& r.enemy_spawned ==> on_field(n.enemies@.last().position, w.field)
            && spawn_direction(n.enemies@.last().direction)
    }
}

/// Whether an enemy has left its confinement box, as a predicate.
pub open spec fn outside_box(field: Playfield) -> spec_fn(Enemy) -> bool {
    |e: Enemy| left_box(e, field)
}

/// The enemy with its direction turned back on each axis it left its box by.
pub open spec fn bounce_spec(e: Enemy, field: Playfield) -> Enemy {
    let (x_min, x_max, y_min, y_max) = bounds_spec(field, ENEMY_SIZE as int);
    let dx = if e.position.x < x_min || e.position.x > x_max { -e.direction.x } else { e.direction.x as int };
    let dy = if e.position.y < y_min || e.position.y > y_max { -e.direction.y } else { e.direction.y as int };
    Enemy { position: e.position, direction: Direction { x: dx as i64, y: dy as i64 } }
}

impl World {
    /// The invariant kept by every operation.
    pub open spec fn wf(self) -> bool {
        &&& self.field.wf()
        &&& self.star_timer.wf() && self.star_timer.duration == STAR_SPAWN_TIME
        &&& self.enemy_timer.wf() && self.enemy_timer.duration == ENEMY_SPAWN_TIME
        &&& (self.player matches Some(p) ==> p.wf())
        &&& forall|i: int| 0 <= i < self.stars@.len() ==> (#[trigger] self.stars@[i]).wf()
        &&& forall|i: int| 0 <= i < self.enemies@.len() ==> (#[trigger] self.enemies@[i]).wf()
        &&& self.state != AppState::InGame ==> {
            &&& self.player is None
            &&& self.enemies@.len() == 0
            &&& self.stars@.len() == 0
        }
    }

    /// A world in the main menu, with no entity, a zero score and no high score.
    pub fn new(field: Playfield) -> (r: World)
        requires
            field.wf(),
        ensures
            r.wf(),
            r.field == field,
            r.state == AppState::MainMenu,
            r.player is None,
            r.enemies@.len() == 0,
            r.stars@.len() == 0,
            r.score == 0,
            r.high_scores@.len() == 0,
            r.star_timer == (SpawnTimer { duration: STAR_SPAWN_TIME, elapsed: 0, finished: false }),
            r.enemy_timer == (SpawnTimer { duration: ENEMY_SPAWN_TIME, elapsed: 0, finished: false }),
    {
        World {
            field,
            state: AppState::MainMenu,
            player: None,
            enemies: Vec::new(),
            stars: Vec::new(),
            score: 0,
            high_scores: HighScores { scores: Vec::new() },
            star_timer: SpawnTimer::new(STAR_SPAWN_TIME),
            enemy_timer: SpawnTimer::new(ENEMY_SPAWN_TIME),
        }
    }

    /// Places the player in the middle of the playfield.
    pub fn spawn_player(&mut self)
        requires
            old(self).wf(),
            old(self).state == AppState::InGame,
        ensures
            final(self).wf(),
            *final(self) == (World { player: Some(center(old(self).field)), ..*old(self) }),
    {
        self.player = Some(Position { x: self.field.width / 2, y: self.field.height / 2 });
    }

    /// Removes the player, if there is one.
    pub fn despawn_player(&mut self)
        requires
            old(self).wf(),
            old(self).state == AppState::InGame,
        ensures
            final(self).wf(),
            *final(self) == (World { player: None, ..*old(self) }),
    {
        self.player = None;
    }

    /// A position drawn uniformly over the playfield.
    fn random_position(&self) -> (r: Position)
        requires
            self.field.wf(),
        ensures
            r.wf(),
            on_field(r, self.field),
    {
        let x = draw_below(self.field.width);
        let y = draw_below(self.field.height);
        Position { x, y }
    }

    /// An enemy at a random position, heading in a random direction.
    fn random_enemy(&self) -> (r: Enemy)
        requires
            self.field.wf(),
        ensures
            r.wf(),
            on_field(r.position, self.field),
            spawn_direction(r.direction),
    {
        let position = self.random_position();
        let mut dx = draw_below(2 * DIRECTION_SCALE + 1) - DIRECTION_SCALE;
        let dy = draw_below(2 * DIRECTION_SCALE + 1) - DIRECTION_SCALE;
        if dx == 0 && dy == 0 {
            dx = DIRECTION_SCALE;
        }
        let (sx, sy) = scale_up(dx, dy);
        let direction = unit_direction(sx, sy);
        Enemy { position, direction }
    }

    /// Adds `NUMBER_OF_ENEMIES` enemies at random places.
    pub fn spawn_enemies(&mut self)
        requires
            old(self).wf(),
            old(self).state == AppState::InGame,
        ensures
            final(self).wf(),
            final(self).enemies@.len() == old(self).enemies@.len() + NUMBER_OF_ENEMIES,
            final(self).enemies@.subrange(0, old(self).enemies@.len() as int)
                == old(self).enemies@,
            forall|i: int| old(self).enemies@.len() <= i < final(self).enemies@.len() ==> {
                &&& on_field(#[trigger] final(self).enemies@[i].position, old(self).field)
                &&& spawn_direction(final(self).enemies@[i].direction)
            },
            *final(self) == (World { enemies: final(self).enemies, ..*old(self) }),
    {
        let ghost start = self.enemies@;
        let mut k: usize = 0;
        while k < NUMBER_OF_ENEMIES
            invariant
                self.wf(),
                self.state == AppState::InGame,
                k <= NUMBER_OF_ENEMIES,
                self.enemies@.len() == start.len() + k,
                self.enemies@.subrange(0, start.len() as int) == start,
                forall|i: int| start.len() <= i < self.enemies@.len() ==> {
                    &&& on_field(#[trigger] self.enemies@[i].position, self.field)
                    &&& spawn_direction(self.enemies@[i].direction)
                },
                *self == (World { enemies: self.enemies, ..*old(self) }),
            decreases NUMBER_OF_ENEMIES - k,
        {
            let e = self.random_enemy();
            self.enemies.push(e);
            assert(self.enemies@.subrange(0, start.len() as int) =~= start);
            k = k + 1;
        }
    }

    /// Adds `NUMBER_OF_STARS` stars at random places.
    pub fn spawn_stars(&mut self)
        requires
            old(self).wf(),
            old(self).state == AppState::InGame,
        ensures
            final(self).wf(),
            final(self).stars@.len() == old(self).stars@.len() + NUMBER_OF_STARS,
            final(self).stars@.subrange(0, old(self).stars@.len() as int) == old(self).stars@,
            forall|i: int| old(self).stars@.len() <= i < final(self).stars@.len() ==> on_field(
                #[trigger] final(self).stars@[i], old(self).field),
            *final(self) == (World { stars: final(self).stars, ..*old(self) }),
    {
        let ghost start = self.stars@;
        let mut k: usize = 0;
        while k < NUMBER_OF_STARS
            invariant
                self.wf(),
                self.state == AppState::InGame,
                k <= NUMBER_OF_STARS,
                self.stars@.len() == start.len() + k,
                self.stars@.subrange(0, start.len() as int) == start,
                forall|i: int| start.len() <= i < self.stars@.len() ==> on_field(
                    #[trigger] self.stars@[i], self.field),
                *self == (World { stars: self.stars, ..*old(self) }),
            decreases NUMBER_OF_STARS - k,
        {
            let s = self.random_position();
            self.stars.push(s);
            assert(self.stars@.subrange(0, start.len() as int) =~= start);
            k = k + 1;
        }
    }

    /// Removes every enemy.
    pub fn despawn_enemies(&mut self)
        requires
            old(self).wf(),
        ensures
            final(self).wf(),
            final(self).enemies@.len() == 0,
            *final(self) == (World { enemies: final(self).enemies, ..*old(self) }),
    {
        self.enemies.clear();
    }

    /// Removes every star.
    pub fn despawn_stars(&mut self)
        requires
            old(self).wf(),
        ensures
            final(self).wf(),
            final(self).stars@.len() == 0,
            *final(self) == (World { stars: final(self).stars, ..*old(self) }),
    {
        self.stars.clear();
    }

    /// Starts a game: the score goes back to zero and the player, the
    /// enemies and the stars are spawned.
    pub fn enter_in_game(&mut self)
        requires
            old(self).wf(),
            old(self).state != AppState::InGame,
        ensures
            final(self).wf(),
            final(self).state == AppState::InGame,
            final(self).player == Some(center(old(self).field)),
            final(self).enemies@.len() == NUMBER_OF_ENEMIES,
            final(self).stars@.len() == NUMBER_OF_STARS,
            forall|i: int| 0 <= i < NUMBER_OF_ENEMIES ==> {
                &&& on_field(#[trigger] final(self).enemies@[i].position, old(self).field)
                &&& spawn_direction(final(self).enemies@[i].direction)
            },
            forall|i: int| 0 <= i < NUMBER_OF_STARS ==> on_field(
                #[trigger] final(self).stars@[i], old(self).field),
            final(self).score == 0,
            final(self).field == old(self).field,
            final(self).high_scores == old(self).high_scores,
            final(self).star_timer == old(self).star_timer,
            final(self).enemy_timer == old(self).enemy_timer,
    {
        self.state = AppState::InGame;
        self.score = 0;
        self.spawn_player();
        self.spawn_enemies();
        self.spawn_stars();
    }

    /// Leaves a game for `next`: every player, enemy and star is removed.
    pub fn exit_in_game(&mut self, next: AppState)
        requires
            old(self).wf(),
            old(self).state == AppState::InGame,
            next != AppState::InGame,
        ensures
            final(self).wf(),
            final(self).state == next,
            final(self).player is None,
            final(self).enemies@.len() == 0,
            final(self).stars@.len() == 0,
            final(self).score == old(self).score,
            final(self).field == old(self).field,
            final(self).high_scores == old(self).high_scores,
            final(self).star_timer == old(self).star_timer,
            final(self).enemy_timer == old(self).enemy_timer,
    {
        self.despawn_player();
        self.despawn_enemies();
        self.despawn_stars();
        self.state = next;
    }

    /// Moves the player along the held keys at `PLAYER_SPEED` for `dt` nanoseconds.
    pub fn player_movement(&mut self, keys: Keys, dt: u64)
        requires
            old(self).wf(),
        ensures
            final(self).wf(),
            *final(self) == (World { player: final(self).player, ..*old(self) }),
            final(self).player is Some <==> old(self).player is Some,
            old(self).player is None ==> *final(self) == *old(self),
            exists|d: Direction| #[trigger] is_key_direction(keys, d) && final(self).player
                == advanced_player(old(self).player, d, dt as int),
    {
        let d = key_direction(keys);
        if let Some(p) = self.player {
            self.player = Some(advance(p, d, PLAYER_SPEED, dt));
        }
    }

    /// Keeps the player inside the window.
    pub fn confine_player_movement(&mut self)
        requires
            old(self).wf(),
        ensures
            final(self).wf(),
            old(self).player is None ==> *final(self) == *old(self),
            old(self).player matches Some(p) ==> *final(self) == (World {
                player: Some(confine_spec(p, old(self).field, PLAYER_SIZE as int)),
                ..*old(self)
            }),
            final(self).player matches Some(q) ==> within_window(q, final(self).field, PLAYER_SIZE as int),
    {
        if let Some(p) = self.player {
            let b = get_bounds(&self.field, PLAYER_SIZE);
            let q = confine(p, &b);
            proof {
                lemma_confine_wf(p, self.field, PLAYER_SIZE as int);
                if PLAYER_SIZE <= self.field.width && PLAYER_SIZE <= self.field.height {
                    lemma_confined_within_bounds(self.field, PLAYER_SIZE as int, p);
                }
            }
            self.player = Some(q);
        }
    }

    /// Moves every enemy along its direction at `ENEMY_SPEED` for `dt` nanoseconds.
    pub fn enemy_movement(&mut self, dt: u64)
        requires
            old(self).wf(),
        ensures
            final(self).wf(),
            *final(self) == (World { enemies: final(self).enemies, ..*old(self) }),
            final(self).enemies@.len() == old(self).enemies@.len(),
            forall|i: int| 0 <= i < old(self).enemies@.len() ==> #[trigger] final(self).enemies@[i]
                == (Enemy {
                    position: advance_spec(old(self).enemies@[i].position,
                        old(self).enemies@[i].direction, ENEMY_SPEED as int, dt as int),
                    ..old(self).enemies@[i]
                }),
    {
        let mut moved: Vec<Enemy> = Vec::new();
        let n = self.enemies.len();
        let mut i: usize = 0;
        while i < n
            invariant
                self.wf(),
                *self == *old(self),
                n == self.enemies@.len(),
                i <= n,
                moved@.len() == i,
                forall|j: int| 0 <= j < i ==> #[trigger] moved@[j] == (Enemy {
                    position: advance_spec(self.enemies@[j].position,
                        self.enemies@[j].direction, ENEMY_SPEED as int, dt as int),
                    ..self.enemies@[j]
                }),
                forall|j: int| 0 <= j < i ==> (#[trigger] moved@[j]).wf(),
            decreases n - i,
        {
            let e = self.enemies[i];
            assert(self.enemies@[i as int].wf());
            let q = advance(e.position, e.direction, ENEMY_SPEED, dt);
            moved.push(Enemy { position: q, direction: e.direction });
            i = i + 1;
        }
        self.enemies = moved;
    }

    /// Turns back every enemy that has left its confinement box, on each axis
    /// it left by; returns one randomly chosen sound per enemy that bounced.
    pub fn update_enemy_direction(&mut self) -> (sounds: Vec<BounceSound>)
        requires
            old(self).wf(),
        ensures
            final(self).wf(),
            *final(self) == (World { enemies: final(self).enemies, ..*old(self) }),
            final(self).enemies@.len() == old(self).enemies@.len(),
            forall|i: int| 0 <= i < old(self).enemies@.len() ==> #[trigger] final(self).enemies@[i]
                == bounce_spec(old(self).enemies@[i], old(self).field),
            sounds@.len() == old(self).enemies@.filter(outside_box(old(self).field)).len(),
    {
        let b = get_bounds(&self.field, ENEMY_SIZE);
        let mut turned: Vec<Enemy> = Vec::new();
        let mut sounds: Vec<BounceSound> = Vec::new();
        let n = self.enemies.len();
        let mut i: usize = 0;
        while i < n
            invariant
                self.wf(),
                *self == *old(self),
                n == self.enemies@.len(),
                i <= n,
                (b.x_min as int, b.x_max as int, b.y_min as int, b.y_max as int)
                    == bounds_spec(self.field, ENEMY_SIZE as int),
                turned@.len() == i,
                forall|j: int| 0 <= j < i ==> #[trigger] turned@[j]
                    == bounce_spec(self.enemies@[j], self.field),
                forall|j: int| 0 <= j < i ==> (#[trigger] turned@[j]).wf(),
                sounds@.len() == self.enemies@.subrange(0, i as int).filter(
                    outside_box(self.field)).len(),
            decreases n - i,
        {
            let e = self.enemies[i];
            assert(self.enemies@[i as int].wf());
            let mut d = e.direction;
            let mut changed = false;
            if e.position.x < b.x_min || e.position.x > b.x_max {
                d.x = -d.x;
                changed = true;
            }
            if e.position.y < b.y_min || e.position.y > b.y_max {
                d.y = -d.y;
                changed = true;
            }
            proof {
                let b1 = self.enemies@.subrange(0, i + 1);
                assert(b1.drop_last() =~= self.enemies@.subrange(0, i as int));
                assert(b1.last() == e);
                reveal(Seq::filter);
                assert(b1.filter(outside_box(self.field)) == if outside_box(self.field)(b1.last()) {
                    b1.drop_last().filter(outside_box(self.field)).push(b1.last())
                } else {
                    b1.drop_last().filter(outside_box(self.field))
                });
                assert(outside_box(self.field)(e) == changed);
                self.enemies@.subrange(0, i as int).lemma_filter_len(outside_box(self.field));
            }
            if changed {
                let snd = random_bounce_sound();
                sounds.push(snd);
            }
            turned.push(Enemy { position: e.position, direction: d });
            i = i + 1;
        }
        assert(self.enemies@.subrange(0, n as int) =~= self.enemies@);
        self.enemies = turned;
        sounds
    }

    /// Keeps every enemy inside the window.
    pub fn confine_enemy_movement(&mut self)
        requires
            old(self).wf(),
        ensures
            final(self).wf(),
            *final(self) == (World { enemies: final(self).enemies, ..*old(self) }),
            final(self).enemies@.len() == old(self).enemies@.len(),
            forall|i: int| 0 <= i < old(self).enemies@.len() ==> #[trigger] final(self).enemies@[i]
                == (Enemy {
                    position: confine_spec(old(self).enemies@[i].position, old(self).field,
                        ENEMY_SIZE as int),
                    ..old(self).enemies@[i]
                }),
            forall|i: int| 0 <= i < final(self).enemies@.len() ==> within_window(
                #[trigger] final(self).enemies@[i].position, final(self).field, ENEMY_SIZE as int),
    {
        let b = get_bounds(&self.field, ENEMY_SIZE);
        let mut kept: Vec<Enemy> = Vec::new();
        let n = self.enemies.len();
        let mut i: usize = 0;
        while i < n
            invariant
                self.wf(),
                *self == *old(self),
                n == self.enemies@.len(),
                i <= n,
                (b.x_min as int, b.x_max as int, b.y_min as int, b.y_max as int)
                    == bounds_spec(self.field, ENEMY_SIZE as int),
                kept@.len() == i,
                forall|j: int| 0 <= j < i ==> #[trigger] kept@[j] == (Enemy {
                    position: confine_spec(self.enemies@[j].position, self.field, ENEMY_SIZE as int),
                    ..self.enemies@[j]
                }),
                forall|j: int| 0 <= j < i ==> (#[trigger] kept@[j]).wf(),
                forall|j: int| 0 <= j < i ==> within_window(
                    #[trigger] kept@[j].position, self.field, ENEMY_SIZE as int),
            decreases n - i,
        {
            let e = self.enemies[i];
            assert(self.enemies@[i as int].wf());
            let q = confine(e.position, &b);
            proof {
                lemma_confine_wf(e.position, self.field, ENEMY_SIZE as int);
                if ENEMY_SIZE <= self.field.width && ENEMY_SIZE <= self.field.height {
                    lemma_confined_within_bounds(self.field, ENEMY_SIZE as int, e.position);
                }
            }
            kept.push(Enemy { position: q, direction: e.direction });
            i = i + 1;
        }
        self.enemies = kept;
    }

    /// The player picks up the star at index `i`: the score goes up by one
    /// and that star, and no other, is removed.
    pub fn pick_up_star(&mut self, i: usize)
        requires
            old(self).wf(),
            i < old(self).stars@.len(),
            old(self).score < u32::MAX,
        ensures
            final(self).wf(),
            final(self).score == old(self).score + 1,
            final(self).stars@ == old(self).stars@.remove(i as int),
            final(self).stars@.len() == old(self).stars@.len() - 1,
            *final(self) == (World { stars: final(self).stars, score: final(self).score, ..*old(self) }),
    {
        self.score = self.score + 1;
        self.stars.remove(i);
        proof {
            assert forall|k: int| 0 <= k < self.stars@.len() implies (#[trigger] self.stars@[k]).wf() by {
                if k < i {
                    assert(self.stars@[k] == old(self).stars@[k]);
                } else {
                    assert(self.stars@[k] == old(self).stars@[k + 1]);
                }
            }
        }
    }

    /// Every star the player touches is picked up, one point each; returns
    /// how many were picked.
    pub fn player_hit_stars(&mut self) -> (picked: u32)
        requires
            old(self).wf(),
            old(self).score + old(self).stars@.len() <= u32::MAX,
        ensures
            final(self).wf(),
            old(self).player is None ==> *final(self) == *old(self) && picked == 0,
            old(self).player matches Some(p) ==> {
                &&& final(self).stars@ == stars_left(p, old(self).stars@)
                &&& picked == old(self).stars@.len() - final(self).stars@.len()
                &&& final(self).score == old(self).score + picked
                &&& *final(self) == (World {
                    stars: final(self).stars,
                    score: final(self).score,
                    ..*old(self)
                })
            },
    {
        let p = match self.player {
            Some(p) => p,
            None => {
                return 0;
            },
        };
        let ghost start = self.stars@;
        let n = self.stars.len();
        let mut i: usize = 0;
        let mut j: usize = 0;
        let mut picked: u32 = 0;
        while j < n
            invariant
                self.wf(),
                self.player == Some(p),
                n == start.len(),
                j <= n,
                old(self).score + n <= u32::MAX,
                i == start.subrange(0, j as int).filter(out_of_reach(p)).len(),
                self.stars@ == start.subrange(0, j as int).filter(out_of_reach(p)) + start.subrange(j as int, n as int),
                picked == j - i,
                self.score == old(self).score + picked,
                *self == (World { stars: self.stars, score: self.score, ..*old(self) }),
                forall|k: int| 0 <= k < n ==> (#[trigger] start[k]).wf(),
            decreases n - j,
        {
            proof {
                start.subrange(0, j as int).lemma_filter_len(out_of_reach(p));
                reveal(Seq::filter);
                let b = start.subrange(0, j + 1);
                assert(b.drop_last() =~= start.subrange(0, j as int));
                assert(b.last() == start[j as int]);
                assert(b.filter(out_of_reach(p)) == if out_of_reach(p)(b.last()) {
                    b.drop_last().filter(out_of_reach(p)).push(b.last())
                } else {
                    b.drop_last().filter(out_of_reach(p))
                });
                assert(start.subrange(j as int, n as int)[0] == start[j as int]);
                assert(start.subrange(j as int, n as int).subrange(1, n - j)
                    =~= start.subrange(j + 1, n as int));
            }
            let ghost a = start.subrange(0, j as int).filter(out_of_reach(p));
            assert(self.stars@[i as int] == start[j as int]);
            let s = self.stars[i];
            let ghost rest = start.subrange(j as int, n as int);
            let ghost before = self.stars@;
            assert(before == a + rest);
            let hit = touching(p, s, STAR_REACH);
            assert(out_of_reach(p)(start[j as int]) == !touching_spec(p, start[j as int], STAR_REACH as int));
            if hit {
                assert(start.subrange(0, j + 1).filter(out_of_reach(p)) == a);
                self.pick_up_star(i);
                picked = picked + 1;
                assert(self.stars@ == before.remove(i as int));
                assert(self.stars@ =~= a + rest.subrange(1, n - j));
            } else {
                assert(out_of_reach(p)(start[j as int]));
                assert(start.subrange(0, j + 1).filter(out_of_reach(p)) == a.push(start[j as int]));
                i = i + 1;
                assert(self.stars@ =~= a.push(start[j as int]) + rest.subrange(1, n - j));
            }
            j = j + 1;
        }
        assert(start.subrange(0, n as int) =~= start);
        assert(self.stars@ =~= stars_left(p, start));
        picked
    }

    /// If an enemy touches the player, the player is removed and one
    /// `GameOver` carrying the current score is returned.
    pub fn player_hit_enemies(&mut self) -> (r: Option<GameOver>)
        requires
            old(self).wf(),
        ensures
            final(self).wf(),
            old(self).player is None ==> *final(self) == *old(self) && r is None,
            old(self).player matches Some(p) ==> if enemy_reaches(p, old(self).enemies@) {
                &&& r == Some(GameOver { score: old(self).score })
                &&& *final(self) == (World { player: None, ..*old(self) })
            } else {
                r is None && *final(self) == *old(self)
            },
    {
        let p = match self.player {
            Some(p) => p,
            None => {
                return None;
            },
        };
        let n = self.enemies.len();
        let mut i: usize = 0;
        while i < n
            invariant
                self.wf(),
                *self == *old(self),
                self.player == Some(p),
                n == self.enemies@.len(),
                i <= n,
                forall|k: int| 0 <= k < i ==> !touching_spec(p,
                    #[trigger] self.enemies@[k].position, ENEMY_REACH as int),
            decreases n - i,
        {
            let e = self.enemies[i];
            assert(self.enemies@[i as int].wf());
            if touching(p, e.position, ENEMY_REACH) {
                self.player = None;
                return Some(GameOver { score: self.score });
            }
            i = i + 1;
        }
        None
    }

    /// Appends the score of a finished game to the high scores, under the
    /// player's name.
    pub fn update_high_scores(&mut self, event: GameOver)
        requires
            old(self).wf(),
        ensures
            final(self).wf(),
            final(self).high_scores@ == old(self).high_scores@.push((player_name(), event.score)),
            *final(self) == (World { high_scores: final(self).high_scores, ..*old(self) }),
    {
        let name = "Player".to_owned();
        proof {
            reveal_strlit("Player");
            assert(name@ =~= player_name());
        }
        self.high_scores.scores.push((name, event.score));
        assert(self.high_scores.scores@.last().0@ == player_name());
        assert(self.high_scores@ =~= old(self).high_scores@.push((player_name(), event.score)));
    }

    /// Appends the score of each event, in order, to the high scores.
    pub fn update_high_scores_all(&mut self, events: &Vec<GameOver>)
        requires
            old(self).wf(),
        ensures
            final(self).wf(),
            final(self).high_scores@ == record_all(old(self).high_scores@, events@),
            *final(self) == (World { high_scores: final(self).high_scores, ..*old(self) }),
    {
        let mut i: usize = 0;
        while i < events.len()
            invariant
                self.wf(),
                i <= events@.len(),
                self.high_scores@ == record_all(old(self).high_scores@, events@.subrange(0, i as int)),
                *self == (World { high_scores: self.high_scores, ..*old(self) }),
            decreases events@.len() - i,
        {
            self.update_high_scores(events[i]);
            assert(events@.subrange(0, i + 1).drop_last() =~= events@.subrange(0, i as int));
            i = i + 1;
        }
        assert(events@.subrange(0, i as int) =~= events@);
    }

    /// Takes a new window size; entities keep their positions until the next
    /// confinement.
    pub fn resize(&mut self, field: Playfield)
        requires
            old(self).wf(),
            field.wf(),
        ensures
            final(self).wf(),
            *final(self) == (World { field, ..*old(self) }),
    {
        self.field = field;
    }

    /// Reacts to the end of a game: the score is recorded and, if a game is
    /// running, the world returns to the main menu.
    pub fn end_game(&mut self, event: GameOver)
        requires
            old(self).wf(),
        ensures
            final(self).wf(),
            final(self).high_scores@ == old(self).high_scores@.push((player_name(), event.score)),
            final(self).state == (if old(self).state == AppState::InGame {
                AppState::MainMenu
            } else {
                old(self).state
            }),
            final(self).player is None,
            final(self).enemies@.len() == 0,
            final(self).stars@.len() == 0,
            final(self).score == old(self).score,
            final(self).field == old(self).field,
            final(self).star_timer == old(self).star_timer,
            final(self).enemy_timer == old(self).enemy_timer,
    {
        self.update_high_scores(event);
        if self.state == AppState::InGame {
            self.exit_in_game(AppState::MainMenu);
        }
    }

    /// Advances the star timer by `dt` nanoseconds while a game runs.
    pub fn tick_star_spawn_timer(&mut self, dt: u64)
        requires
            old(self).wf(),
        ensures
            final(self).wf(),
            *final(self) == (World {
                star_timer: if old(self).state == AppState::InGame {
                    old(self).star_timer.tick_spec(dt as int)
                } else {
                    old(self).star_timer
                },
                ..*old(self)
            }),
    {
        if self.state == AppState::InGame {
            self.star_timer.tick(dt);
        }
    }

    /// Advances the enemy timer by `dt` nanoseconds while a game runs.
    pub fn tick_enemy_spawn_timer(&mut self, dt: u64)
        requires
            old(self).wf(),
        ensures
            final(self).wf(),
            *final(self) == (World {
                enemy_timer: if old(self).state == AppState::InGame {
                    old(self).enemy_timer.tick_spec(dt as int)
                } else {
                    old(self).enemy_timer
                },
                ..*old(self)
            }),
    {
        if self.state == AppState::InGame {
            self.enemy_timer.tick(dt);
        }
    }

    /// Adds one star at a random place when the star timer fired on its last
    /// tick during a game; returns whether it did.
    pub fn spawn_stars_over_time(&mut self) -> (spawned: bool)
        requires
            old(self).wf(),
        ensures
            final(self).wf(),
            spawned == (old(self).state == AppState::InGame && old(self).star_timer.finished),
            final(self).stars@.len() == old(self).stars@.len() + if spawned { 1int } else { 0int },
            final(self).stars@.subrange(0, old(self).stars@.len() as int) == old(self).stars@,
            spawned ==> on_field(final(self).stars@.last(), old(self).field),
            *final(self) == (World { stars: final(self).stars, ..*old(self) }),
    {
        if self.state == AppState::InGame && self.star_timer.finished() {
            let s = self.random_position();
            self.stars.push(s);
            assert(self.stars@.subrange(0, old(self).stars@.len() as int) =~= old(self).stars@);
            true
        } else {
            assert(self.stars@.subrange(0, old(self).stars@.len() as int) =~= old(self).stars@);
            false
        }
    }

    /// Adds one enemy at a random place, in a random direction, when the enemy
    /// timer fired on its last tick during a game; returns whether it did.
    pub fn spawn_enemies_over_time(&mut self) -> (spawned: bool)
        requires
            old(self).wf(),
        ensures
            final(self).wf(),
            spawned == (old(self).state == AppState::InGame && old(self).enemy_timer.finished),
            final(self).enemies@.len() == old(self).enemies@.len() + if spawned { 1int } else { 0int },
            final(self).enemies@.subrange(0, old(self).enemies@.len() as int) == old(self).enemies@,
            spawned ==> on_field(final(self).enemies@.last().position, old(self).field)
                && spawn_direction(final(self).enemies@.last().direction),
            *final(self) == (World { enemies: final(self).enemies, ..*old(self) }),
    {
        if self.state == AppState::InGame && self.enemy_timer.finished() {
            let e = self.random_enemy();
            self.enemies.push(e);
            assert(self.enemies@.subrange(0, old(self).enemies@.len() as int) =~= old(self).enemies@);
            true
        } else {
            assert(self.enemies@.subrange(0, old(self).enemies@.len() as int) =~= old(self).enemies@);
            false
        }
    }

    /// One frame of play, systems in order: the player moves and is confined,
    /// the enemies move, bounce and are confined, collisions are resolved,
    /// then the spawn timers tick and may spawn. A game over ends the game.
    pub fn frame(&mut self, keys: Keys, dt: u64) -> (r: FrameReport)
        requires
            old(self).wf(),
            old(self).score + old(self).stars@.len() <= u32::MAX,
        ensures
            final(self).wf(),
            exists|d: Direction| #[trigger] is_key_direction(keys, d)
                && frame_outcome(*old(self), *final(self), r, d, dt as int),
            final(self).field == old(self).field,
            old(self).state != AppState::InGame ==> final(self).state == old(self).state,
            r.game_over is Some ==> r.game_over == Some(GameOver { score: old(self).score })
                && final(self).state == AppState::MainMenu
                && final(self).high_scores@ == old(self).high_scores@.push(
                    (player_name(), r.game_over->Some_0.score))
                && old(self).player is Some,
            r.game_over is None ==> {
                &&& final(self).high_scores == old(self).high_scores
                &&& final(self).state == old(self).state
                &&& final(self).player is Some <==> old(self).player is Some
                &&& final(self).score == old(self).score + r.picked
                &&& (final(self).player matches Some(q) ==> within_window(
                    q, final(self).field, PLAYER_SIZE as int))
                &&& final(self).enemies@.len() == old(self).enemies@.len()
                    + if r.enemy_spawned { 1int } else { 0int }
                &&& forall|i: int| 0 <= i < old(self).enemies@.len() ==> within_window(
                    #[trigger] final(self).enemies@[i].position, final(self).field, ENEMY_SIZE as int)
            },
    {
        let ghost w = *self;
        self.player_movement(keys, dt);
        let ghost d = choose|d: Direction| #[trigger] is_key_direction(keys, d)
            && self.player == advanced_player(w.player, d, dt as int);
        self.confine_player_movement();
        assert(self.player == moved_player(w, d, dt as int));
        self.enemy_movement(dt);
        assert(self.enemies@ =~= advanced_enemies(w, dt as int));
        let bounce_sounds = self.update_enemy_direction();
        self.confine_enemy_movement();
        let ghost confined = self.enemies@;
        assert(confined =~= moved_enemies(w, dt as int));
        let hit = self.player_hit_enemies();
        if let Some(event) = hit {
            self.end_game(event);
            let r = FrameReport {
                picked: 0,
                bounce_sounds,
                game_over: hit,
                star_spawned: false,
                enemy_spawned: false,
            };
            assert(frame_outcome(w, *self, r, d, dt as int));
            return r;
        }
        let picked = self.player_hit_stars();
        self.tick_star_spawn_timer(dt);
        let star_spawned = self.spawn_stars_over_time();
        self.tick_enemy_spawn_timer(dt);
        let ghost before = self.enemies@;
        assert(before == confined);
        let enemy_spawned = self.spawn_enemies_over_time();
        assert forall|i: int| 0 <= i < before.len() implies self.enemies@[i] == before[i] by {
            assert(self.enemies@.subrange(0, before.len() as int)[i] == self.enemies@[i]);
        }
        assert forall|i: int| 0 <= i < old(self).enemies@.len() implies within_window(
            #[trigger] self.enemies@[i].position, self.field, ENEMY_SIZE as int) by {
            assert(self.enemies@[i] == confined[i]);
            assert(within_window(confined[i].position, self.field, ENEMY_SIZE as int));
        }
        let r = FrameReport { picked, bounce_sounds, game_over: None, star_spawned, enemy_spawned };
        assert(frame_outcome(w, *self, r, d, dt as int));
        r
    }
}

} // verus!
