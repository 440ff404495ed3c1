//! The session state machine: the data model and its two controllers.
//!
//! Timestamps are in milliseconds since session start; coordinates are
//! integer window units with the origin at the window's centre.

use vstd::prelude::*;
use crate::sample::{sample_coord, sample_index};

verus! {

/// Default window width, in coordinate units.
pub const WINDOW_WIDTH: u32 = 720;

/// Default window height, in coordinate units.
pub const WINDOW_HEIGHT: u32 = 720;

/// Default number of targets a fresh session is seeded with.
pub const TARGET_COUNT: usize = 50;

/// The growth radius a session starts with.
pub const INITIAL_GROWTH: u32 = 20;

/// The cap on the growth radius: collection still removes targets in
/// range once the cap is reached, but the radius no longer grows.
pub const MAX_GROWTH: u32 = 100;

/// How much the growth radius gains per collected target (below the cap).
pub const GROWTH_STEP: u32 = 2;

/// Minimum time between two decays, in milliseconds.
pub const DECAY_PERIOD: u64 = 250;

/// A 2D point in window coordinates.
#[derive(Clone, Copy, Debug, PartialEq, Eq, Structural)]
pub struct Point {
    pub x: i32,
    pub y: i32,
}

/// How a session stands: still running, all targets collected, or all
/// targets decayed away.
#[derive(Clone, Copy, Debug, PartialEq, Eq, Structural)]
pub enum Outcome {
    Active,
    Won,
    Lost,
}

/// One interactive session: pointer, targets, growth radius, decay clock
/// and outcome flag.
#[derive(Clone, Debug)]
pub struct Session {
    pub pointer: Point,
    pub targets: Vec<Point>,
    pub growth: u32,
    pub last_decay_time: u64,
    pub outcome: Outcome,
}

/// The squared Euclidean distance between two points.
pub open spec fn dist_sq(a: Point, b: Point) -> int {
    (a.x - b.x) * (a.x - b.x) + (a.y - b.y) * (a.y - b.y)
}

/// Whether `t` lies strictly within radius `g` of `pos`.
pub open spec fn near(pos: Point, t: Point, g: int) -> bool {
    dist_sq(pos, t) < g * g
}

/// Whether `t` lies inside a centred window of the given size.
pub open spec fn in_window(t: Point, width: u32, height: u32) -> bool {
    &&& -((width / 2) as int) <= t.x < (width / 2) as int
    &&& -((height / 2) as int) <= t.y < (height / 2) as int
}

/// What one pointer-move event does to the field, processed in stored
/// order against the live growth radius: a target within the current
/// radius is consumed and, below the cap, the radius gains `GROWTH_STEP`
/// before the next target is tested; every other target is kept. The
/// result is the final radius and the kept targets, in order.
pub open spec fn collect_from(targets: Seq<Point>, pos: Point, g: int) -> (int, Seq<Point>)
    decreases targets.len(),
{
    if targets.len() == 0 {
        (g, Seq::<Point>::empty())
    } else {
        let t = targets[0];
        if near(pos, t, g) {
            let g1: int = if g < MAX_GROWTH { g + GROWTH_STEP } else { g };
            collect_from(targets.drop_first(), pos, g1)
        } else {
            let r = collect_from(targets.drop_first(), pos, g);
            (r.0, seq![t] + r.1)
        }
    }
}

/// How one pointer-move event relates the session before the call to the
/// session after it: the pointer is updated, the field and the radius are
/// what `collect_from` yields, the decay clock is untouched, and an
/// active session whose field empties is Won.
pub open spec fn move_rel(pre: Session, post: Session, pos: Point) -> bool {
    let r = collect_from(pre.targets@, pos, pre.growth as int);
    &&& post.pointer == pos
    &&& post.growth as int == r.0
    &&& post.targets@ == r.1
    &&& post.last_decay_time == pre.last_decay_time
    &&& post.outcome == (if r.1.len() == 0 && pre.outcome == Outcome::Active {
        Outcome::Won
    } else {
        pre.outcome
    })
}

/// Whether the two sessions hold the same observable state.
pub open spec fn same_session(a: Session, b: Session) -> bool {
    &&& a.pointer == b.pointer
    &&& a.targets@ == b.targets@
    &&& a.growth == b.growth
    &&& a.last_decay_time == b.last_decay_time
    &&& a.outcome == b.outcome
}

/// Whether a clock tick at `now` makes decay fire: there is a target to
/// remove and more than a full period has elapsed since the last decay.
pub open spec fn decay_due(s: Session, now: u64) -> bool {
    s.targets@.len() > 0 && now > s.last_decay_time + DECAY_PERIOD
}

/// How one clock tick relates the session before the call to the session
/// after it: when decay is due, exactly one target (at some index) is
/// removed, the decay clock moves to `now`, and a field emptied this way
/// means Lost; otherwise nothing changes.
pub open spec fn tick_rel(pre: Session, post: Session, now: u64) -> bool {
    if decay_due(pre, now) {
        &&& post.pointer == pre.pointer
        &&& post.growth == pre.growth
        &&& post.last_decay_time == now
        &&& (exists|i: int|
            0 <= i < pre.targets@.len() && post.targets@ == pre.targets@.remove(i))
        &&& post.outcome == (if pre.targets@.len() == 1 {
            Outcome::Lost
        } else {
            pre.outcome
        })
    } else {
        same_session(pre, post)
    }
}

/// The square of a value bounded by `b` in magnitude is bounded by the
/// square of `b`.
proof fn lemma_square_bound(a: int, b: int)
    requires
        -b <= a <= b,
        0 <= b,
    ensures
        0 <= a * a <= b * b,
{
    assert(0 <= a * a && a * a <= b * b) by (nonlinear_arith)
        requires
            -b <= a,
            a <= b,
            0 <= b;
}

/// Squaring is monotone on non-negative values.
proof fn lemma_square_monotone(a: int, b: int)
    requires
        0 <= a <= b,
    ensures
        a * a <= b * b,
{
    assert(a * a <= b * b) by (nonlinear_arith)
        requires
            0 <= a,
            a <= b;
}

/// Whether `t` lies strictly within radius `growth` of `pos`, computed
/// exactly on widened integers.
fn near_exec(pos: Point, t: Point, growth: u32) -> (r: bool)
    ensures
        r == near(pos, t, growth as int),
{
    let dx: i64 = pos.x as i64 - t.x as i64;
    let dy: i64 = pos.y as i64 - t.y as i64;
    proof {
        lemma_square_bound(dx as int, 0x1_0000_0000);
        lemma_square_bound(dy as int, 0x1_0000_0000);
        lemma_square_bound(growth as int, 0x1_0000_0000);
    }
    let dsq: i128 = (dx as i128) * (dx as i128) + (dy as i128) * (dy as i128);
    let g: i128 = growth as i128;
    dsq < g * g
}

impl Session {
    /// Well-formedness: the growth radius stays an even value between its
    /// initial value and its cap, and a finished session has no targets
    /// left.
    pub open spec fn wf(self) -> bool {
        &&& INITIAL_GROWTH <= self.growth <= MAX_GROWTH
        &&& self.growth % 2 == 0
        &&& self.outcome != Outcome::Active ==> self.targets@.len() == 0
    }

    /// Start a session: `n` targets drawn uniformly at random within a
    /// centred `width` by `height` window, the pointer at the origin, the
    /// growth radius at its initial value, the decay clock at zero, and
    /// the outcome Active.
    pub fn new(width: u32, height: u32, n: usize) -> (s: Session)
        requires
            2 <= width,
            2 <= height,
        ensures
            s.wf(),
            s.pointer == (Point { x: 0, y: 0 }),
            s.targets@.len() == n,
            forall|j: int| 0 <= j < n ==> in_window(#[trigger] s.targets@[j], width, height),
            s.growth == INITIAL_GROWTH,
            s.last_decay_time == 0,
            s.outcome == Outcome::Active,
    {
        let half_w: i32 = (width / 2) as i32;
        let half_h: i32 = (height / 2) as i32;
        let mut targets: Vec<Point> = Vec::new();
        let mut i: usize = 0;
        while i < n
            invariant
                i <= n,
                targets@.len() == i,
                half_w == (width / 2) as i32,
                half_h == (height / 2) as i32,
                2 <= width,
                2 <= height,
                forall|j: int| 0 <= j < i ==> in_window(#[trigger] targets@[j], width, height),
            decreases n - i,
        {
            let x: i32 = sample_coord(-half_w, half_w);
            let y: i32 = sample_coord(-half_h, half_h);
            targets.push(Point { x, y });
            i = i + 1;
        }
        Session {
            pointer: Point { x: 0, y: 0 },
            targets,
            growth: INITIAL_GROWTH,
            last_decay_time: 0,
            outcome: Outcome::Active,
        }
    }

    /// Start a session over a given field of targets; everything else as
    /// in `new`.
    pub fn with_targets(targets: Vec<Point>) -> (s: Session)
        ensures
            s.wf(),
            s.pointer == (Point { x: 0, y: 0 }),
            s.targets@ == targets@,
            s.growth == INITIAL_GROWTH,
            s.last_decay_time == 0,
            s.outcome == Outcome::Active,
    {
        Session {
            pointer: Point { x: 0, y: 0 },
            targets,
            growth: INITIAL_GROWTH,
            last_decay_time: 0,
            outcome: Outcome::Active,
        }
    }

    /// The collection controller: record the new pointer position, sweep
    /// the field in stored order against the live growth radius, and mark
    /// an active session Won when nothing is left.
    pub fn on_pointer_move(&mut self, pos: Point)
        requires
            old(self).wf(),
        ensures
            final(self).wf(),
            move_rel(*old(self), *final(self), pos),
    {
        self.pointer = pos;
        let ghost orig: Seq<Point> = self.targets@;
        let ghost g0: int = self.growth as int;
        let n: usize = self.targets.len();
        let mut far: Vec<Point> = Vec::new();
        let mut i: usize = 0;
        proof {
            assert(orig.skip(0) =~= orig);
        }
        while i < n
            invariant
                i <= n,
                n == self.targets@.len(),
                self.targets@ == orig,
                self.pointer == pos,
                self.last_decay_time == old(self).last_decay_time,
                self.outcome == old(self).outcome,
                INITIAL_GROWTH <= self.growth <= MAX_GROWTH,
                self.growth % 2 == 0,
                collect_from(orig, pos, g0).0 == collect_from(
                    orig.skip(i as int),
                    pos,
                    self.growth as int,
                ).0,
                collect_from(orig, pos, g0).1 == far@ + collect_from(
                    orig.skip(i as int),
                    pos,
                    self.growth as int,
                ).1,
            decreases n - i,
        {
            let t = self.targets[i];
            proof {
                assert(orig.skip(i as int)[0] == orig[i as int]);
                assert(orig.skip(i as int).drop_first() =~= orig.skip(i as int + 1));
            }
            if near_exec(pos, t, self.growth) {
                if self.growth < MAX_GROWTH {
                    self.growth = self.growth + GROWTH_STEP;
                }
            } else {
                let ghost prev_far: Seq<Point> = far@;
                let ghost rest: Seq<Point> = collect_from(
                    orig.skip(i as int + 1),
                    pos,
                    self.growth as int,
                ).1;
                far.push(t);
                proof {
                    assert(far@ =~= prev_far + seq![t]);
                    assert(prev_far + (seq![t] + rest) =~= (prev_far + seq![t]) + rest);
                }
            }
            i = i + 1;
        }
        proof {
            assert(orig.skip(n as int) =~= Seq::<Point>::empty());
            assert(collect_from(orig, pos, g0).1 =~= far@);
        }
        self.targets = far;
        if self.targets.len() == 0 {
            if self.outcome == Outcome::Active {
                self.outcome = Outcome::Won;
            }
        }
    }

    /// The decay controller: once per period, remove one target chosen
    /// uniformly at random, and mark the session Lost when the removal
    /// empties the field. Safe to call at any rate; a tick before the
    /// period has elapsed, or on an empty field, changes nothing — so a
    /// repeated tick with the same `now` decays at most once.
    pub fn tick(&mut self, now: u64)
        requires
            old(self).wf(),
        ensures
            final(self).wf(),
            tick_rel(*old(self), *final(self), now),
            !decay_due(*final(self), now),
    {
        if self.targets.len() > 0 && now > self.last_decay_time && now - self.last_decay_time
            > DECAY_PERIOD {
            let i = sample_index(self.targets.len());
            self.targets.remove(i);
            if self.targets.len() == 0 {
                self.outcome = Outcome::Lost;
            }
            self.last_decay_time = now;
            proof {
                assert(self.targets@ == old(self).targets@.remove(i as int));
            }
        }
    }
}

/// The growth radius never decreases under collection, stays even, and
/// stays at or below the cap.
pub proof fn lemma_collect_growth_bounds(targets: Seq<Point>, pos: Point, g: int)
    requires
        0 <= g,
    ensures
        g <= collect_from(targets, pos, g).0,
        g % 2 == 0 ==> collect_from(targets, pos, g).0 % 2 == 0,
        g % 2 == 0 && g <= MAX_GROWTH ==> collect_from(targets, pos, g).0 <= MAX_GROWTH,
    decreases targets.len(),
{
    if targets.len() > 0 {
        let t = targets[0];
        if near(pos, t, g) {
            let g1: int = if g < MAX_GROWTH { g + GROWTH_STEP } else { g };
            lemma_collect_growth_bounds(targets.drop_first(), pos, g1);
        } else {
            lemma_collect_growth_bounds(targets.drop_first(), pos, g);
        }
    }
}

/// Collection removes only targets within the growth radius: a target of
/// the field that is absent from the kept field was within the final
/// radius (it was consumed while the radius was no larger than that).
pub proof fn lemma_collect_removes_only_near(targets: Seq<Point>, pos: Point, g: int)
    requires
        0 <= g,
    ensures
        forall|t: Point|
            targets.contains(t) && !collect_from(targets, pos, g).1.contains(t)
                ==> dist_sq(pos, t) < collect_from(targets, pos, g).0 * collect_from(
                targets,
                pos,
                g,
            ).0,
    decreases targets.len(),
{
    if targets.len() > 0 {
        let t0 = targets[0];
        let r = collect_from(targets, pos, g);
        if near(pos, t0, g) {
            let g1: int = if g < MAX_GROWTH { g + GROWTH_STEP } else { g };
            lemma_collect_removes_only_near(targets.drop_first(), pos, g1);
            lemma_collect_growth_bounds(targets.drop_first(), pos, g1);
            assert(g <= r.0);
            lemma_square_monotone(g, r.0);
            assert forall|t: Point|
                targets.contains(t) && !r.1.contains(t) implies dist_sq(pos, t) < r.0 * r.0 by {
                if t == t0 {
                    assert(dist_sq(pos, t) < g * g);
                } else {
                    assert(targets.drop_first().contains(t)) by {
                        let i = choose|i: int| 0 <= i < targets.len() && targets[i] == t;
                        assert(targets.drop_first()[i - 1] == t);
                    }
                }
            }
        } else {
            lemma_collect_removes_only_near(targets.drop_first(), pos, g);
            assert forall|t: Point|
                targets.contains(t) && !r.1.contains(t) implies dist_sq(pos, t) < r.0 * r.0 by {
                let rr = collect_from(targets.drop_first(), pos, g);
                assert(r.1 == seq![t0] + rr.1);
                assert(r.1[0] == t0);
                assert(r.1.contains(t0));
                if t != t0 {
                    assert(targets.drop_first().contains(t)) by {
                        let i = choose|i: int| 0 <= i < targets.len() && targets[i] == t;
                        assert(targets.drop_first()[i - 1] == t);
                    }
                    assert(!rr.1.contains(t)) by {
                        if rr.1.contains(t) {
                            let j = choose|j: int| 0 <= j < rr.1.len() && rr.1[j] == t;
                            assert(r.1[j + 1] == t);
                        }
                    }
                }
            }
        }
    }
}

/// One pointer move never shrinks the growth radius, never pushes it past
/// the cap, and removes only targets within the (final) growth radius.
pub proof fn lemma_move_growth(pre: Session, post: Session, pos: Point)
    requires
        pre.wf(),
        move_rel(pre, post, pos),
    ensures
        pre.growth <= post.growth <= MAX_GROWTH,
        forall|t: Point|
            pre.targets@.contains(t) && !post.targets@.contains(t) ==> dist_sq(pos, t) < (
            post.growth as int) * (post.growth as int),
{
    lemma_collect_growth_bounds(pre.targets@, pos, pre.growth as int);
    lemma_collect_removes_only_near(pre.targets@, pos, pre.growth as int);
}

/// The outcome changes at most once, away from Active only: a tick never
/// touches the outcome of a finished session, and when a tick does change
/// the outcome, it takes an active session to Lost.
pub proof fn lemma_tick_outcome(pre: Session, post: Session, now: u64)
    requires
        pre.wf(),
        tick_rel(pre, post, now),
    ensures
        pre.outcome != Outcome::Active ==> post.outcome == pre.outcome,
        post.outcome != pre.outcome ==> pre.outcome == Outcome::Active && post.outcome
            == Outcome::Lost,
{
}

/// The outcome changes at most once, away from Active only: a pointer
/// move never touches the outcome of a finished session, and when a move
/// does change the outcome, it takes an active session to Won.
pub proof fn lemma_move_outcome(pre: Session, post: Session, pos: Point)
    requires
        pre.wf(),
        move_rel(pre, post, pos),
    ensures
        pre.outcome != Outcome::Active ==> post.outcome == pre.outcome,
        post.outcome != pre.outcome ==> pre.outcome == Outcome::Active && post.outcome
            == Outcome::Won,
{
}

/// Decay never fires before a full period has elapsed, and removes
/// exactly one target when it does fire.
pub proof fn lemma_decay_rate(pre: Session, post: Session, now: u64)
    requires
        tick_rel(pre, post, now),
    ensures
        now <= pre.last_decay_time + DECAY_PERIOD ==> same_session(pre, post),
        decay_due(pre, now) ==> post.targets@.len() == pre.targets@.len() - 1,
{
}

/// The decay clock never moves backwards, and moves only when a decay
/// actually occurs.
pub proof fn lemma_decay_clock_monotone(pre: Session, post: Session, now: u64)
    requires
        tick_rel(pre, post, now),
    ensures
        pre.last_decay_time <= post.last_decay_time,
        post.last_decay_time != pre.last_decay_time ==> decay_due(pre, now),
{
}

/// Ticking twice with the same clock value decays at most once: whatever
/// the first tick did, the second changes nothing.
pub proof fn lemma_tick_idempotent(s0: Session, s1: Session, s2: Session, now: u64)
    requires
        tick_rel(s0, s1, now),
        tick_rel(s1, s2, now),
    ensures
        same_session(s1, s2),
{
}

} // verus!
