//! The plasma (projectile) lifecycle manager.
//!
//! A pool of reusable projectile slots, advanced one simulation step at a
//! time.  The voxel world itself stays outside the library: a driver asks
//! `advance_plasma` where a projectile moved, queries the world's
//! line-of-sight predicate, and reports the answer to `settle_plasma`, which
//! applies the per-kind impact policy and says which sphere to melt.
//! Fragmentation of `Multi` plasmas and the ballistics of detached falling
//! sprites are handled entirely in the library.

use vstd::prelude::*;

use crate::geom::{clamp_coord, clamp_i64, vec_in_range, IVec3, Vec3, COORD_SCALE};
use crate::image::Color;
use crate::rng::{next_state, range_value, Rng};

verus! {

/// Projectiles leave the simulation when `x` or `y` exits `[0, WORLD_EDGE)`.
pub const WORLD_EDGE: i64 = 1024 * COORD_SCALE;

/// `Multi` plasmas older than this many milliseconds fragment spontaneously.
pub const FRAGMENT_AGE_MS: u64 = 4000;

/// Falling sprites are dropped once their `z` coordinate exceeds this.
pub const FALL_LIMIT: i64 = 120 * COORD_SCALE;

/// Downward acceleration per step, in fixed-point units (0.01 world units).
pub const GRAVITY_STEP: i64 = 1;

#[derive(Clone, Copy, Debug, PartialEq, Eq, Structural)]
pub enum PlasmaType {
    Single(u32),
    Multi(u32),
    Rapid,
    Bomb,
}

pub open spec fn click_delay(t: PlasmaType) -> u32 {
    match t {
        PlasmaType::Single(_) => 1000,
        PlasmaType::Multi(_) => 1000,
        PlasmaType::Rapid => 200,
        PlasmaType::Bomb => 20000,
    }
}

/// The impact radius of a plasma kind.
pub open spec fn plasma_size(t: PlasmaType) -> u32 {
    match t {
        PlasmaType::Single(level) => level,
        PlasmaType::Multi(level) => level,
        PlasmaType::Rapid => 4,
        PlasmaType::Bomb => 100,
    }
}

/// Whole world units travelled per step.
pub open spec fn plasma_speed(t: PlasmaType) -> i64 {
    match t {
        PlasmaType::Multi(_) => 3,
        PlasmaType::Single(_) => 4,
        PlasmaType::Rapid => 10,
        PlasmaType::Bomb => 1,
    }
}

impl PlasmaType {
    /// Milliseconds the trigger stays blocked after firing this kind.
    pub fn get_click_delay(&self) -> (d: u32)
        ensures
            d == click_delay(*self),
    {
        match *self {
            PlasmaType::Single(_) => 1000,
            PlasmaType::Multi(_) => 1000,
            PlasmaType::Rapid => 200,
            PlasmaType::Bomb => 20000,
        }
    }
}

#[derive(Clone, Copy, Debug, PartialEq, Eq, Structural)]
pub struct Plasma {
    pub pos: Vec3,
    pub dir: Vec3,
    pub free: bool,
    pub born_tick: u32,
    pub typ: PlasmaType,
}

impl Plasma {
    pub fn get_size(&self) -> (s: u32)
        ensures
            s == plasma_size(self.typ),
    {
        match self.typ {
            PlasmaType::Single(level) => level,
            PlasmaType::Multi(level) => level,
            PlasmaType::Rapid => 4,
            PlasmaType::Bomb => 100,
        }
    }

    pub fn get_speed(&self) -> (s: i64)
        ensures
            s == plasma_speed(self.typ),
            1 <= s <= 10,
    {
        match self.typ {
            PlasmaType::Multi(_) => 3,
            PlasmaType::Single(_) => 4,
            PlasmaType::Rapid => 10,
            PlasmaType::Bomb => 1,
        }
    }
}

/// A detached block of voxels falling under gravity.  The engine's sprite is
/// identified by a caller-chosen handle.
#[derive(Clone, Copy, Debug, PartialEq, Eq, Structural)]
pub struct FallingSprite {
    pub sprite: u64,
    pub pos: Vec3,
    pub dir: Vec3,
}

/// A sphere the driver must melt and then subtract from the world.
#[derive(Clone, Copy, Debug, PartialEq, Eq, Structural)]
pub struct MeltJob {
    pub center: IVec3,
    pub radius: u32,
}

/// What one projectile did when it was advanced.
#[derive(Clone, Copy, Debug, PartialEq, Eq, Structural)]
pub enum AdvanceOutcome {
    /// The slot holds no live projectile.
    FreeSlot,
    /// The projectile left the world plane and its slot was freed.
    OutOfBounds,
    /// An old `Multi` fragmented spontaneously; its slot was freed and a
    /// snapshot was queued for `handle_new_plasmas`.
    Fragmented,
    /// The projectile moved; the driver must ask the world whether the path
    /// from `new_pos` back to `old_pos` is blocked and report the answer to
    /// `settle_plasma`.
    Moved { old_pos: Vec3, new_pos: Vec3 },
}

// ---------------------------------------------------------------------------
// Spec-level model of a single plasma step.
// ---------------------------------------------------------------------------

pub open spec fn make_plasma(pos: Vec3, dir: Vec3, now_tick: u32, typ: PlasmaType) -> Plasma {
    Plasma { pos, dir, free: false, born_tick: now_tick, typ }
}

pub open spec fn freed(p: Plasma) -> Plasma {
    Plasma { free: true, ..p }
}

/// The position after one step of motion, each coordinate clamped.
pub open spec fn advanced_pos(p: Vec3, d: Vec3, speed: int) -> Vec3 {
    Vec3 {
        x: clamp_coord(p.x + d.x * speed) as i64,
        y: clamp_coord(p.y + d.y * speed) as i64,
        z: clamp_coord(p.z + d.z * speed) as i64,
    }
}

pub open spec fn moved_plasma(p: Plasma) -> Plasma {
    Plasma { pos: advanced_pos(p.pos, p.dir, plasma_speed(p.typ) as int), ..p }
}

pub open spec fn out_of_world(v: Vec3) -> bool {
    v.x < 0 || v.x >= WORLD_EDGE || v.y < 0 || v.y >= WORLD_EDGE
}

/// `Multi` plasmas accelerate downward each step; other kinds fly straight.
pub open spec fn after_gravity(p: Plasma) -> Plasma {
    match p.typ {
        PlasmaType::Multi(_) => Plasma {
            dir: Vec3 { z: clamp_coord(p.dir.z + GRAVITY_STEP) as i64, ..p.dir },
            ..p
        },
        _ => p,
    }
}

/// A live `Multi` above level 1 fragments once its age passes the window,
/// impact or not.
pub open spec fn timed_fragmenting(p: Plasma, tick: u32) -> bool {
    match p.typ {
        PlasmaType::Multi(level) => level > 1 && p.born_tick + FRAGMENT_AGE_MS < tick,
        _ => false,
    }
}

/// The per-kind impact policy applied to a projectile that hit the world.
pub open spec fn after_impact(p: Plasma) -> Plasma {
    match p.typ {
        PlasmaType::Single(level) => if level <= 1 {
            freed(p)
        } else {
            Plasma { typ: PlasmaType::Single((level - 2) as u32), ..p }
        },
        PlasmaType::Multi(_) => freed(p),
        PlasmaType::Rapid => freed(p),
        PlasmaType::Bomb => freed(p),
    }
}

/// Whether a hit queues the projectile for fragmentation.
pub open spec fn impact_fragments(p: Plasma) -> bool {
    match p.typ {
        PlasmaType::Multi(level) => level > 1,
        _ => false,
    }
}

// ---------------------------------------------------------------------------
// Counting free and live slots.
// ---------------------------------------------------------------------------

pub open spec fn count_free(s: Seq<Plasma>) -> nat
    decreases s.len(),
{
    if s.len() == 0 {
        0
    } else {
        count_free(s.drop_last()) + if s.last().free {
            1nat
        } else {
            0nat
        }
    }
}

/// The number of live (non-free) slots.
pub open spec fn live_count(s: Seq<Plasma>) -> int {
    s.len() - count_free(s)
}

proof fn lemma_count_free_le_len(s: Seq<Plasma>)
    ensures
        count_free(s) <= s.len(),
    decreases s.len(),
{
    if s.len() > 0 {
        lemma_count_free_le_len(s.drop_last());
    }
}

proof fn lemma_count_free_at(s: Seq<Plasma>, i: int)
    requires
        0 <= i < s.len(),
    ensures
        s[i].free ==> count_free(s) >= 1,
        !s[i].free ==> count_free(s) <= s.len() - 1,
    decreases s.len(),
{
    lemma_count_free_le_len(s.drop_last());
    if i < s.len() - 1 {
        lemma_count_free_at(s.drop_last(), i);
    }
}

proof fn lemma_count_free_all_live(s: Seq<Plasma>)
    requires
        forall|k: int| 0 <= k < s.len() ==> !s[k].free,
    ensures
        count_free(s) == 0,
    decreases s.len(),
{
    if s.len() > 0 {
        lemma_count_free_all_live(s.drop_last());
    }
}

proof fn lemma_count_free_update(s: Seq<Plasma>, i: int, p: Plasma)
    requires
        0 <= i < s.len(),
    ensures
        count_free(s.update(i, p)) == count_free(s) - (if s[i].free {
            1int
        } else {
            0int
        }) + (if p.free {
            1int
        } else {
            0int
        }),
    decreases s.len(),
{
    let t = s.update(i, p);
    if i == s.len() - 1 {
        assert(t.drop_last() =~= s.drop_last());
    } else {
        assert(t.drop_last() =~= s.drop_last().update(i, p));
        lemma_count_free_update(s.drop_last(), i, p);
    }
}

proof fn lemma_count_free_push(s: Seq<Plasma>, p: Plasma)
    ensures
        count_free(s.push(p)) == count_free(s) + (if p.free {
            1int
        } else {
            0int
        }),
{
    assert(s.push(p).drop_last() =~= s);
}

// ---------------------------------------------------------------------------
// The first free slot, and insertion.
// ---------------------------------------------------------------------------

pub open spec fn first_free_from(s: Seq<Plasma>, i: int) -> int
    decreases s.len() - i,
{
    if i < 0 || i >= s.len() {
        -1
    } else if s[i].free {
        i
    } else {
        first_free_from(s, i + 1)
    }
}

/// The index of the first free slot, or -1 when every slot is live.
pub open spec fn first_free(s: Seq<Plasma>) -> int {
    first_free_from(s, 0)
}

/// Insertion reuses the first free slot and appends only when none exists.
pub open spec fn add_plasma_spec(
    s: Seq<Plasma>,
    pos: Vec3,
    dir: Vec3,
    now_tick: u32,
    typ: PlasmaType,
) -> Seq<Plasma> {
    let j = first_free(s);
    if j >= 0 {
        s.update(j, make_plasma(pos, dir, now_tick, typ))
    } else {
        s.push(make_plasma(pos, dir, now_tick, typ))
    }
}

proof fn lemma_first_free_found(s: Seq<Plasma>, j: int, i: int)
    requires
        0 <= j <= i < s.len(),
        s[i].free,
        forall|k: int| j <= k < i ==> !s[k].free,
    ensures
        first_free_from(s, j) == i,
    decreases i - j,
{
    if j < i {
        lemma_first_free_found(s, j + 1, i);
    }
}

proof fn lemma_first_free_none(s: Seq<Plasma>, j: int)
    requires
        0 <= j <= s.len(),
        forall|k: int| j <= k < s.len() ==> !s[k].free,
    ensures
        first_free_from(s, j) == -1,
    decreases s.len() - j,
{
    if j < s.len() {
        lemma_first_free_none(s, j + 1);
    }
}

// ---------------------------------------------------------------------------
// Random directions.
// ---------------------------------------------------------------------------

/// The direction drawn from generator state `s`: three successive draws in
/// `[-COORD_SCALE, COORD_SCALE)`, one fixed-point world unit each way.
pub open spec fn random_dir(s: u64) -> Vec3 {
    Vec3 {
        x: range_value(s, -COORD_SCALE as int, COORD_SCALE as int) as i64,
        y: range_value(next_state(s), -COORD_SCALE as int, COORD_SCALE as int) as i64,
        z: range_value(next_state(next_state(s)), -COORD_SCALE as int, COORD_SCALE as int) as i64,
    }
}

/// The generator state after the three draws of `random_dir`.
pub open spec fn next3(s: u64) -> u64 {
    next_state(next_state(next_state(s)))
}

/// A unit-ish random direction for detached fragments.
pub fn random_unit_dir(rng: &mut Rng) -> (d: Vec3)
    ensures
        d == random_dir(old(rng)@),
        final(rng)@ == next3(old(rng)@),
        vec_in_range(d),
{
    let x = rng.gen_range(-COORD_SCALE, COORD_SCALE);
    let y = rng.gen_range(-COORD_SCALE, COORD_SCALE);
    let z = rng.gen_range(-COORD_SCALE, COORD_SCALE);
    Vec3 { x, y, z }
}

/// A fragment direction: a random direction scaled by two.
pub open spec fn fragment_dir(s: u64) -> Vec3 {
    let d = random_dir(s);
    Vec3 { x: (2 * d.x) as i64, y: (2 * d.y) as i64, z: (2 * d.z) as i64 }
}

/// A random draw color: three successive byte draws.
pub open spec fn random_color(s: u64) -> Color {
    Color {
        r: range_value(s, 0, 256) as u8,
        g: range_value(next_state(s), 0, 256) as u8,
        b: range_value(next_state(next_state(s)), 0, 256) as u8,
    }
}

/// The draw color of a plasma kind; a `Multi` sparkles with a fresh random
/// color every frame.
pub fn plasma_color(typ: &PlasmaType, rng: &mut Rng) -> (c: Color)
    ensures
        match *typ {
            PlasmaType::Single(_) => c == (Color { r: 0x99, g: 0, b: 0x99 }) && final(rng)@ == old(
                rng,
            )@,
            PlasmaType::Multi(_) => c == random_color(old(rng)@) && final(rng)@ == next3(
                old(rng)@,
            ),
            PlasmaType::Rapid => c == (Color { r: 255, g: 255, b: 255 }) && final(rng)@ == old(
                rng,
            )@,
            PlasmaType::Bomb => c == (Color { r: 255, g: 0, b: 0 }) && final(rng)@ == old(rng)@,
        },
{
    match *typ {
        PlasmaType::Single(_) => Color::rgb(0x99, 0, 0x99),
        PlasmaType::Multi(_) => {
            let r = rng.gen_range(0, 256) as u8;
            let g = rng.gen_range(0, 256) as u8;
            let b = rng.gen_range(0, 256) as u8;
            Color { r, g, b }
        },
        PlasmaType::Rapid => Color::rgb(255, 255, 255),
        PlasmaType::Bomb => Color::rgb(255, 0, 0),
    }
}

// ---------------------------------------------------------------------------
// Deferred fragmentation.
// ---------------------------------------------------------------------------

/// The fragmentation level carried by a queued snapshot.
pub open spec fn spawn_level(t: PlasmaType) -> u32 {
    match t {
        PlasmaType::Multi(level) => level,
        _ => 1,
    }
}

/// Five children of half the level, inserted at the parent's last position,
/// each with a fresh random direction scaled by two and birth tick zero.
pub open spec fn spawn_children_spec(
    s: Seq<Plasma>,
    pos: Vec3,
    level: u32,
    st: u64,
    k: nat,
) -> (Seq<Plasma>, u64)
    decreases k,
{
    if k == 0 {
        (s, st)
    } else {
        let s1 = add_plasma_spec(s, pos, fragment_dir(st), 0, PlasmaType::Multi(level / 2));
        spawn_children_spec(s1, pos, level, next3(st), (k - 1) as nat)
    }
}

/// The pool after every queued snapshot has spawned its children.
pub open spec fn handle_spec(s: Seq<Plasma>, pending: Seq<Plasma>, st: u64) -> (Seq<Plasma>, u64)
    decreases pending.len(),
{
    if pending.len() == 0 {
        (s, st)
    } else {
        let p = pending[0];
        if spawn_level(p.typ) <= 1 {
            handle_spec(s, pending.drop_first(), st)
        } else {
            let (s1, st1) = spawn_children_spec(s, p.pos, spawn_level(p.typ), st, 5);
            handle_spec(s1, pending.drop_first(), st1)
        }
    }
}

/// With nothing queued, spawning changes neither the pool nor the generator:
/// absent `Multi` fragmentation, one whole update step never increases the
/// number of live projectiles.
pub proof fn lemma_handle_empty(s: Seq<Plasma>, st: u64)
    ensures
        handle_spec(s, Seq::<Plasma>::empty(), st) == (s, st),
{
}

/// Inserting one projectile raises the live count by exactly one.
pub proof fn lemma_add_spec_live(
    s: Seq<Plasma>,
    pos: Vec3,
    dir: Vec3,
    now_tick: u32,
    typ: PlasmaType,
)
    ensures
        live_count(add_plasma_spec(s, pos, dir, now_tick, typ)) == live_count(s) + 1,
{
    let j = first_free(s);
    lemma_first_free_props(s);
    if j >= 0 {
        lemma_count_free_update(s, j, make_plasma(pos, dir, now_tick, typ));
    } else {
        lemma_count_free_push(s, make_plasma(pos, dir, now_tick, typ));
    }
}

/// The first free slot is free, everything before it is live, and it exists
/// exactly when some slot is free.
pub proof fn lemma_first_free_props(s: Seq<Plasma>)
    ensures
        first_free(s) >= 0 ==> 0 <= first_free(s) < s.len() && s[first_free(s)].free,
        first_free(s) == -1 ==> count_free(s) == 0,
    decreases s.len(),
{
    lemma_first_free_from_props(s, 0);
    if first_free(s) == -1 {
        lemma_count_free_all_live(s);
    }
}

proof fn lemma_first_free_from_props(s: Seq<Plasma>, j: int)
    requires
        0 <= j <= s.len(),
    ensures
        first_free_from(s, j) >= 0 ==> j <= first_free_from(s, j) < s.len() && s[first_free_from(
            s,
            j,
        )].free,
        first_free_from(s, j) == -1 ==> forall|k: int| j <= k < s.len() ==> !s[k].free,
    decreases s.len() - j,
{
    if j < s.len() && !s[j].free {
        lemma_first_free_from_props(s, j + 1);
    }
}

/// Spawning a round of fragment children raises the live count by exactly
/// the number of children.
pub proof fn lemma_spawn_children_live(s: Seq<Plasma>, pos: Vec3, level: u32, st: u64, k: nat)
    ensures
        live_count(spawn_children_spec(s, pos, level, st, k).0) == live_count(s) + k,
    decreases k,
{
    if k > 0 {
        let s1 = add_plasma_spec(s, pos, fragment_dir(st), 0, PlasmaType::Multi(level / 2));
        lemma_add_spec_live(s, pos, fragment_dir(st), 0, PlasmaType::Multi(level / 2));
        lemma_spawn_children_live(s1, pos, level, next3(st), (k - 1) as nat);
    }
}

/// A live fragment child of a `Multi` parent: half the parent's level, the
/// parent's last position, and birth tick zero.
pub open spec fn is_child_of(q: Plasma, pos: Vec3, level: u32) -> bool {
    !q.free && q.pos == pos && q.born_tick == 0 && q.typ == PlasmaType::Multi(level / 2)
}

/// Insertion touches at most one slot, and whatever it writes is the new
/// projectile.
pub proof fn lemma_add_spec_entries(
    s: Seq<Plasma>,
    pos: Vec3,
    dir: Vec3,
    now_tick: u32,
    typ: PlasmaType,
)
    ensures
        ({
            let s1 = add_plasma_spec(s, pos, dir, now_tick, typ);
            &&& s1.len() >= s.len()
            &&& forall|j: int|
                0 <= j < s1.len() ==> (0 <= j < s.len() && s1[j] == s[j]) || s1[j] == make_plasma(
                    pos,
                    dir,
                    now_tick,
                    typ,
                )
        }),
{
    lemma_first_free_props(s);
}

/// Spawning a round of fragment children only inserts live children of half
/// the level at the parent's last position; every other slot is untouched.
pub proof fn lemma_spawn_children_entries(s: Seq<Plasma>, pos: Vec3, level: u32, st: u64, k: nat)
    ensures
        ({
            let s2 = spawn_children_spec(s, pos, level, st, k).0;
            &&& s2.len() >= s.len()
            &&& forall|j: int|
                0 <= j < s2.len() ==> (0 <= j < s.len() && s2[j] == s[j]) || is_child_of(
                    s2[j],
                    pos,
                    level,
                )
        }),
    decreases k,
{
    if k > 0 {
        let d = fragment_dir(st);
        let s1 = add_plasma_spec(s, pos, d, 0, PlasmaType::Multi(level / 2));
        lemma_add_spec_entries(s, pos, d, 0, PlasmaType::Multi(level / 2));
        lemma_spawn_children_entries(s1, pos, level, next3(st), (k - 1) as nat);
    }
}

// ---------------------------------------------------------------------------
// Falling sprites.
// ---------------------------------------------------------------------------

pub open spec fn moved_sprite(f: FallingSprite) -> FallingSprite {
    FallingSprite { pos: advanced_pos(f.pos, f.dir, 1), ..f }
}

pub open spec fn sprite_gravity(f: FallingSprite) -> FallingSprite {
    FallingSprite { dir: Vec3 { z: clamp_coord(f.dir.z + GRAVITY_STEP) as i64, ..f.dir }, ..f }
}

/// One step of every falling sprite: move by the velocity, drop the ones that
/// fell past `FALL_LIMIT`, accelerate the rest downward.
pub open spec fn step_sprites(s: Seq<FallingSprite>) -> Seq<FallingSprite>
    decreases s.len(),
{
    if s.len() == 0 {
        Seq::empty()
    } else {
        let m = moved_sprite(s.last());
        step_sprites(s.drop_last()) + if m.pos.z > FALL_LIMIT {
            Seq::empty()
        } else {
            seq![sprite_gravity(m)]
        }
    }
}

/// The sprite handles dropped by one step, in scan order.
pub open spec fn fallen_sprites(s: Seq<FallingSprite>) -> Seq<u64>
    decreases s.len(),
{
    if s.len() == 0 {
        Seq::empty()
    } else {
        let m = moved_sprite(s.last());
        fallen_sprites(s.drop_last()) + if m.pos.z > FALL_LIMIT {
            seq![s.last().sprite]
        } else {
            Seq::empty()
        }
    }
}

// ---------------------------------------------------------------------------
// The manager.
// ---------------------------------------------------------------------------

/// A stored projectile keeps its coordinates in range.
pub open spec fn plasma_ok(p: Plasma) -> bool {
    vec_in_range(p.pos) && vec_in_range(p.dir)
}

/// A stored falling sprite keeps its coordinates in range.
pub open spec fn sprite_ok(f: FallingSprite) -> bool {
    vec_in_range(f.pos) && vec_in_range(f.dir)
}

pub struct PlasmaManager {
    plasmas: Vec<Plasma>,
    falling_sprites: Vec<FallingSprite>,
    pending_fragments: Vec<Plasma>,
    free_plasmas: usize,
}

impl PlasmaManager {
    pub closed spec fn plasmas_view(&self) -> Seq<Plasma> {
        self.plasmas@
    }

    pub closed spec fn sprites_view(&self) -> Seq<FallingSprite> {
        self.falling_sprites@
    }

    pub closed spec fn pending_view(&self) -> Seq<Plasma> {
        self.pending_fragments@
    }

    /// Every stored coordinate is in range and the free-slot counter matches
    /// the pool.
    pub closed spec fn wf(&self) -> bool {
        &&& self.free_plasmas == count_free(self.plasmas@)
        &&& forall|i: int| 0 <= i < self.plasmas@.len() ==> plasma_ok(#[trigger] self.plasmas@[i])
        &&& forall|i: int|
            0 <= i < self.pending_fragments@.len() ==> plasma_ok(
                #[trigger] self.pending_fragments@[i],
            )
        &&& forall|i: int|
            0 <= i < self.falling_sprites@.len() ==> sprite_ok(#[trigger] self.falling_sprites@[i])
    }

    pub fn new() -> (m: PlasmaManager)
        ensures
            m.wf(),
            m.plasmas_view() == Seq::<Plasma>::empty(),
            m.sprites_view() == Seq::<FallingSprite>::empty(),
            m.pending_view() == Seq::<Plasma>::empty(),
    {
        let m = PlasmaManager {
            plasmas: Vec::new(),
            falling_sprites: Vec::new(),
            pending_fragments: Vec::new(),
            free_plasmas: 0,
        };
        proof {
            assert(m.plasmas@ =~= Seq::<Plasma>::empty());
            assert(m.falling_sprites@ =~= Seq::<FallingSprite>::empty());
            assert(m.pending_fragments@ =~= Seq::<Plasma>::empty());
        }
        m
    }

    /// Insert a projectile, reusing the first free slot; the pool grows only
    /// when every slot is live.
    pub fn add_plasma(&mut self, pos: &Vec3, dir: &Vec3, now_tick: u32, typ: PlasmaType)
        requires
            old(self).wf(),
            vec_in_range(*pos),
            vec_in_range(*dir),
        ensures
            final(self).wf(),
            final(self).plasmas_view() == add_plasma_spec(
                old(self).plasmas_view(),
                *pos,
                *dir,
                now_tick,
                typ,
            ),
            final(self).sprites_view() == old(self).sprites_view(),
            final(self).pending_view() == old(self).pending_view(),
            count_free(old(self).plasmas_view()) > 0 ==> final(self).plasmas_view().len() == old(
                self,
            ).plasmas_view().len(),
            count_free(old(self).plasmas_view()) == 0 ==> final(self).plasmas_view().len() == old(
                self,
            ).plasmas_view().len() + 1,
            live_count(final(self).plasmas_view()) == live_count(old(self).plasmas_view()) + 1,
    {
        let ghost s0 = self.plasmas@;
        let p = Plasma { pos: *pos, dir: *dir, free: false, born_tick: now_tick, typ };
        let n = self.plasmas.len();
        let mut i: usize = 0;
        while i < n
            invariant
                old(self).wf(),
                self == old(self),
                s0 == self.plasmas@,
                n == self.plasmas@.len(),
                0 <= i <= n,
                forall|k: int| 0 <= k < i ==> !self.plasmas@[k].free,
                p == make_plasma(*pos, *dir, now_tick, typ),
                vec_in_range(*pos),
                vec_in_range(*dir),
            decreases n - i,
        {
            if self.plasmas[i].free {
                proof {
                    lemma_first_free_found(s0, 0, i as int);
                    lemma_count_free_at(s0, i as int);
                    lemma_count_free_update(s0, i as int, p);
                }
                self.plasmas[i] = p;
                self.free_plasmas = self.free_plasmas - 1;
                return ;
            }
            i = i + 1;
        }
        proof {
            lemma_first_free_none(s0, 0);
            lemma_count_free_all_live(s0);
            lemma_count_free_push(s0, p);
        }
        self.plasmas.push(p);
    }

    /// Advance projectile `i` one step: move it, free it if it left the world
    /// plane, apply `Multi` gravity and the timed fragmentation window.
    pub fn advance_plasma(&mut self, i: usize, tick: u32) -> (r: AdvanceOutcome)
        requires
            old(self).wf(),
            i < old(self).plasmas_view().len(),
        ensures
            final(self).wf(),
            final(self).sprites_view() == old(self).sprites_view(),
            final(self).plasmas_view().len() == old(self).plasmas_view().len(),
            live_count(final(self).plasmas_view()) <= live_count(old(self).plasmas_view()),
            ({
                let s0 = old(self).plasmas_view();
                let q0 = old(self).pending_view();
                let s1 = final(self).plasmas_view();
                let q1 = final(self).pending_view();
                let p0 = s0[i as int];
                let p1 = moved_plasma(p0);
                let p2 = after_gravity(p1);
                if p0.free {
                    r == AdvanceOutcome::FreeSlot && s1 == s0 && q1 == q0
                } else if out_of_world(p1.pos) {
                    r == AdvanceOutcome::OutOfBounds && s1 == s0.update(i as int, freed(p1))
                        && q1 == q0
                } else if timed_fragmenting(p2, tick) {
                    r == AdvanceOutcome::Fragmented && s1 == s0.update(i as int, freed(p2))
                        && q1 == q0.push(p2)
                } else {
                    r == (AdvanceOutcome::Moved { old_pos: p0.pos, new_pos: p2.pos })
                        && s1 == s0.update(i as int, p2) && q1 == q0
                }
            }),
    {
        let ghost s0 = self.plasmas@;
        let _len = self.plasmas.len();
        let p = self.plasmas[i];
        if p.free {
            return AdvanceOutcome::FreeSlot;
        }
        let speed = p.get_speed();
        let mut q = p;
        q.pos = Vec3 {
            x: crate::geom::advance_coord(p.pos.x, p.dir.x, speed),
            y: crate::geom::advance_coord(p.pos.y, p.dir.y, speed),
            z: crate::geom::advance_coord(p.pos.z, p.dir.z, speed),
        };
        if q.pos.x < 0 || q.pos.x >= WORLD_EDGE || q.pos.y < 0 || q.pos.y >= WORLD_EDGE {
            q.free = true;
            proof {
                lemma_count_free_at(s0, i as int);
                lemma_count_free_update(s0, i as int, q);
            }
            self.free_plasmas = self.free_plasmas + 1;
            self.plasmas[i] = q;
            return AdvanceOutcome::OutOfBounds;
        }
        let mut fragment = false;
        match q.typ {
            PlasmaType::Multi(level) => {
                q.dir = Vec3 { x: q.dir.x, y: q.dir.y, z: clamp_i64(q.dir.z + GRAVITY_STEP) };
                if level > 1 && (q.born_tick as u64) + FRAGMENT_AGE_MS < (tick as u64) {
                    fragment = true;
                }
            },
            _ => {},
        }
        if fragment {
            self.pending_fragments.push(q);
            q.free = true;
            proof {
                lemma_count_free_at(s0, i as int);
                lemma_count_free_update(s0, i as int, q);
            }
            self.free_plasmas = self.free_plasmas + 1;
            self.plasmas[i] = q;
            return AdvanceOutcome::Fragmented;
        }
        proof {
            lemma_count_free_at(s0, i as int);
            lemma_count_free_update(s0, i as int, q);
        }
        let old_pos = p.pos;
        let new_pos = q.pos;
        self.plasmas[i] = q;
        AdvanceOutcome::Moved { old_pos, new_pos }
    }

    /// Report the world's answer for a projectile that `advance_plasma` said
    /// had `Moved`.  A hit applies the kind's impact policy and names the
    /// sphere to melt; a miss changes nothing.
    pub fn settle_plasma(&mut self, i: usize, hit: Option<IVec3>) -> (melt: Option<MeltJob>)
        requires
            old(self).wf(),
            i < old(self).plasmas_view().len(),
            !old(self).plasmas_view()[i as int].free,
        ensures
            final(self).wf(),
            final(self).sprites_view() == old(self).sprites_view(),
            final(self).plasmas_view().len() == old(self).plasmas_view().len(),
            live_count(final(self).plasmas_view()) <= live_count(old(self).plasmas_view()),
            ({
                let s0 = old(self).plasmas_view();
                let q0 = old(self).pending_view();
                let s1 = final(self).plasmas_view();
                let q1 = final(self).pending_view();
                let p0 = s0[i as int];
                match hit {
                    Option::None => melt == Option::<MeltJob>::None && s1 == s0 && q1 == q0,
                    Option::Some(hp) => {
                        &&& s1 == s0.update(i as int, after_impact(p0))
                        &&& melt == Option::Some(
                            MeltJob { center: hp, radius: plasma_size(after_impact(p0).typ) },
                        )
                        &&& q1 == if impact_fragments(p0) {
                            q0.push(p0)
                        } else {
                            q0
                        }
                    },
                }
            }),
    {
        let ghost s0 = self.plasmas@;
        let _len = self.plasmas.len();
        let hp = match hit {
            Option::None => {
                return Option::None;
            },
            Option::Some(hp) => hp,
        };
        let p = self.plasmas[i];
        let mut q = p;
        let mut destroyed = false;
        let mut spawn = false;
        match p.typ {
            PlasmaType::Single(level) => {
                if level <= 1 {
                    destroyed = true;
                } else {
                    q.typ = PlasmaType::Single(level - 2);
                }
            },
            PlasmaType::Rapid => {
                destroyed = true;
            },
            PlasmaType::Multi(level) => {
                destroyed = true;
                if level > 1 {
                    spawn = true;
                }
            },
            PlasmaType::Bomb => {
                destroyed = true;
            },
        }
        let radius = q.get_size();
        if spawn {
            self.pending_fragments.push(p);
        }
        if destroyed {
            q.free = true;
            proof {
                lemma_count_free_at(s0, i as int);
            }
            self.free_plasmas = self.free_plasmas + 1;
        }
        proof {
            lemma_count_free_update(s0, i as int, q);
        }
        self.plasmas[i] = q;
        Option::Some(MeltJob { center: hp, radius })
    }

    /// Record a sprite detached by a melt, together with its drift direction.
    pub fn add_falling_sprite(&mut self, sprite: u64, pos: Vec3, dir: Vec3)
        requires
            old(self).wf(),
            vec_in_range(pos),
            vec_in_range(dir),
        ensures
            final(self).wf(),
            final(self).plasmas_view() == old(self).plasmas_view(),
            final(self).pending_view() == old(self).pending_view(),
            final(self).sprites_view() == old(self).sprites_view().push(
                FallingSprite { sprite, pos, dir },
            ),
    {
        self.falling_sprites.push(FallingSprite { sprite, pos, dir });
    }

    /// Spawn the queued fragment children: five `Multi(level/2)` plasmas per
    /// queued snapshot above level 1, then clear the queue.  With an empty
    /// queue the pool is left exactly as it was.
    /// Five fragment children of one queued snapshot.
    fn spawn_children(&mut self, pos: &Vec3, level: u32, rng: &mut Rng)
        requires
            old(self).wf(),
            vec_in_range(*pos),
        ensures
            final(self).wf(),
            final(self).sprites_view() == old(self).sprites_view(),
            final(self).pending_view() == old(self).pending_view(),
            final(self).plasmas_view() == spawn_children_spec(
                old(self).plasmas_view(),
                *pos,
                level,
                old(rng)@,
                5,
            ).0,
            final(rng)@ == spawn_children_spec(
                old(self).plasmas_view(),
                *pos,
                level,
                old(rng)@,
                5,
            ).1,
    {
        let ghost s_entry = self.plasmas@;
        let ghost st_entry = rng@;
        let mut k: usize = 0;
        while k < 5
            invariant
                self.wf(),
                0 <= k <= 5,
                vec_in_range(*pos),
                self.pending_fragments@ == old(self).pending_fragments@,
                self.falling_sprites@ == old(self).falling_sprites@,
                spawn_children_spec(self.plasmas@, *pos, level, rng@, (5 - k) as nat)
                    == spawn_children_spec(s_entry, *pos, level, st_entry, 5),
            decreases 5 - k,
        {
            let d = random_unit_dir(rng);
            let dir = Vec3 { x: 2 * d.x, y: 2 * d.y, z: 2 * d.z };
            self.add_plasma(pos, &dir, 0, PlasmaType::Multi(level / 2));
            k = k + 1;
        }
    }

    #[verifier::rlimit(60)]
    pub fn handle_new_plasmas(&mut self, rng: &mut Rng)
        requires
            old(self).wf(),
        ensures
            final(self).wf(),
            final(self).sprites_view() == old(self).sprites_view(),
            final(self).pending_view() == Seq::<Plasma>::empty(),
            final(self).plasmas_view() == handle_spec(
                old(self).plasmas_view(),
                old(self).pending_view(),
                old(rng)@,
            ).0,
            final(rng)@ == handle_spec(
                old(self).plasmas_view(),
                old(self).pending_view(),
                old(rng)@,
            ).1,
    {
        let ghost s_orig = self.plasmas@;
        let ghost pending_orig = self.pending_fragments@;
        let ghost st_orig = rng@;
        let n = self.pending_fragments.len();
        let mut idx: usize = 0;
        proof {
            assert(pending_orig.skip(0) =~= pending_orig);
        }
        while idx < n
            invariant
                self.wf(),
                n == self.pending_fragments@.len(),
                0 <= idx <= n,
                self.pending_fragments@ == pending_orig,
                self.falling_sprites@ == old(self).falling_sprites@,
                handle_spec(self.plasmas@, pending_orig.skip(idx as int), rng@) == handle_spec(
                    s_orig,
                    pending_orig,
                    st_orig,
                ),
            decreases n - idx,
        {
            let ghost s_before = self.plasmas@;
            let ghost st_before = rng@;
            let ghost pend = pending_orig.skip(idx as int);
            let p = self.pending_fragments[idx];
            let level = match p.typ {
                PlasmaType::Multi(level) => level,
                _ => 1,
            };
            proof {
                assert(pend[0] == p);
                assert(level == spawn_level(p.typ));
                assert(pend.drop_first() =~= pending_orig.skip(idx as int + 1));
            }
            if level > 1 {
                self.spawn_children(&p.pos, level, rng);
                proof {
                    assert(handle_spec(s_before, pend, st_before) == handle_spec(
                        self.plasmas@,
                        pend.drop_first(),
                        rng@,
                    ));
                }
            } else {
                proof {
                    assert(handle_spec(s_before, pend, st_before) == handle_spec(
                        self.plasmas@,
                        pend.drop_first(),
                        rng@,
                    ));
                }
            }
            idx = idx + 1;
        }
        proof {
            assert(pending_orig.skip(n as int) =~= Seq::<Plasma>::empty());
        }
        self.pending_fragments.clear();
        proof {
            assert(self.pending_fragments@ =~= Seq::<Plasma>::empty());
        }
    }

    /// Move every falling sprite one step, drop the fallen ones, and return
    /// the handles of the sprites that were dropped.
    pub fn update_falling_sprites(&mut self) -> (removed: Vec<u64>)
        requires
            old(self).wf(),
        ensures
            final(self).wf(),
            final(self).plasmas_view() == old(self).plasmas_view(),
            final(self).pending_view() == old(self).pending_view(),
            final(self).sprites_view() == step_sprites(old(self).sprites_view()),
            removed@ == fallen_sprites(old(self).sprites_view()),
    {
        let ghost s0 = self.falling_sprites@;
        let n = self.falling_sprites.len();
        let mut kept: Vec<FallingSprite> = Vec::new();
        let mut removed: Vec<u64> = Vec::new();
        let mut i: usize = 0;
        proof {
            assert(s0.take(0) =~= Seq::<FallingSprite>::empty());
        }
        while i < n
            invariant
                self.wf(),
                self == old(self),
                n == self.falling_sprites@.len(),
                0 <= i <= n,
                kept@ == step_sprites(s0.take(i as int)),
                removed@ == fallen_sprites(s0.take(i as int)),
                s0 == self.falling_sprites@,
                forall|k: int| 0 <= k < kept@.len() ==> sprite_ok(#[trigger] kept@[k]),
            decreases n - i,
        {
            let f = self.falling_sprites[i];
            let mut m = f;
            m.pos = Vec3 {
                x: crate::geom::advance_coord(f.pos.x, f.dir.x, 1),
                y: crate::geom::advance_coord(f.pos.y, f.dir.y, 1),
                z: crate::geom::advance_coord(f.pos.z, f.dir.z, 1),
            };
            proof {
                assert(s0.take(i as int + 1).drop_last() =~= s0.take(i as int));
            }
            if m.pos.z > FALL_LIMIT {
                removed.push(f.sprite);
            } else {
                m.dir = Vec3 { x: m.dir.x, y: m.dir.y, z: clamp_i64(m.dir.z + GRAVITY_STEP) };
                kept.push(m);
            }
            i = i + 1;
        }
        proof {
            assert(s0.take(n as int) =~= s0);
        }
        self.falling_sprites = kept;
        removed
    }

    // -----------------------------------------------------------------------
    // Read access for drivers and tests.
    // -----------------------------------------------------------------------

    /// The live (non-free) projectile count.
    pub fn live_plasma_count(&self) -> (n: usize)
        requires
            self.wf(),
        ensures
            n == live_count(self.plasmas_view()),
    {
        proof {
            lemma_count_free_le_len(self.plasmas@);
        }
        self.plasmas.len() - self.free_plasmas
    }

    pub fn plasma_count(&self) -> (n: usize)
        ensures
            n == self.plasmas_view().len(),
    {
        self.plasmas.len()
    }

    pub fn plasma_at(&self, i: usize) -> (p: Plasma)
        requires
            i < self.plasmas_view().len(),
        ensures
            p == self.plasmas_view()[i as int],
    {
        self.plasmas[i]
    }

    pub fn free_count(&self) -> (n: usize)
        requires
            self.wf(),
        ensures
            n == count_free(self.plasmas_view()),
    {
        self.free_plasmas
    }

    pub fn falling_sprite_count(&self) -> (n: usize)
        ensures
            n == self.sprites_view().len(),
    {
        self.falling_sprites.len()
    }

    pub fn falling_sprite_at(&self, i: usize) -> (f: FallingSprite)
        requires
            i < self.sprites_view().len(),
        ensures
            f == self.sprites_view()[i as int],
    {
        self.falling_sprites[i]
    }
}

} // verus!
