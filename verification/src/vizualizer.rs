//! The interactive dashboard model.
//!
//! The dashboard owns the two aggregates, a fixed severity filter and
//! an active-tab selector, and steps a small state machine on keyboard
//! events: the tab key cycles the view, the quit key ends the session,
//! everything else leaves the state unchanged. The secondary view
//! plots a curve computed from the aggregate counts; to keep every
//! step exact, its points live on a milli-unit integer grid: a
//! coordinate value of 1000 stands for 1.0.

use vstd::prelude::*;
use crate::LogFormatter;
use crate::formatter::{LogEntry, Logs};
use crate::scanner::LogStats;

verus! {

/// The integer square root: the greatest `r` with `r * r <= n`.
pub open spec fn spec_isqrt(n: nat) -> nat
    decreases n,
{
    if n == 0 {
        0
    } else {
        let p = spec_isqrt((n - 1) as nat);
        if (p + 1) * (p + 1) <= n {
            p + 1
        } else {
            p
        }
    }
}

/// [`spec_isqrt`] is bracketed by the two neighbouring squares.
proof fn lemma_isqrt_bounds(n: nat)
    ensures
        spec_isqrt(n) * spec_isqrt(n) <= n,
        n < (spec_isqrt(n) + 1) * (spec_isqrt(n) + 1),
    decreases n,
{
    if n == 0 {
        assert(spec_isqrt(n) == 0);
        assert(spec_isqrt(n) * spec_isqrt(n) <= n) by (nonlinear_arith)
            requires
                n == 0nat,
                spec_isqrt(n) == 0nat,
        ;
        assert(n < (spec_isqrt(n) + 1) * (spec_isqrt(n) + 1)) by (nonlinear_arith)
            requires
                n == 0nat,
                spec_isqrt(n) == 0nat,
        ;
    } else {
        lemma_isqrt_bounds((n - 1) as nat);
        let p = spec_isqrt((n - 1) as nat);
        assert(p * p <= n - 1);
        assert(n - 1 < (p + 1) * (p + 1));
        if (p + 1) * (p + 1) <= n {
            assert(spec_isqrt(n) == p + 1);
            assert(n < (p + 2) * (p + 2)) by (nonlinear_arith)
                requires
                    n <= (p + 1) * (p + 1),
                    p >= 0,
            ;
            assert(spec_isqrt(n) * spec_isqrt(n) <= n);
            assert(n < (spec_isqrt(n) + 1) * (spec_isqrt(n) + 1));
        } else {
            assert(spec_isqrt(n) == p);
            assert(spec_isqrt(n) * spec_isqrt(n) <= n);
            assert(n < (spec_isqrt(n) + 1) * (spec_isqrt(n) + 1));
        }
    }
}

/// Any `r` bracketed by the neighbouring squares is the square root.
proof fn lemma_isqrt_unique(n: nat, r: nat)
    requires
        r * r <= n,
        n < (r + 1) * (r + 1),
    ensures
        r == spec_isqrt(n),
{
    lemma_isqrt_bounds(n);
    let q = spec_isqrt(n);
    assert(r == q) by (nonlinear_arith)
        requires
            r * r <= n,
            n < (r + 1) * (r + 1),
            q * q <= n,
            n < (q + 1) * (q + 1),
    ;
}

/// Executable integer square root.
pub fn isqrt(n: u64) -> (r: u64)
    requires
        n < 0x1000000000000,
    ensures
        r as nat == spec_isqrt(n as nat),
        r < 0x1000000,
{
    let mut r: u64 = 0;
    while (r + 1) * (r + 1) <= n
        invariant
            n < 0x1000000000000,
            r * r <= n,
            r < 0x1000000,
            (r + 1) * (r + 1) <= 0x1000000000000,
        decreases n - r * r,
    {
        proof {
            assert((r + 1) < 0x1000000) by (nonlinear_arith)
                requires
                    (r + 1) * (r + 1) <= n,
                    n < 0x1000000000000,
            ;
            assert((r + 2) * (r + 2) <= 0x1000000000000) by (nonlinear_arith)
                requires
                    r + 2 <= 0x1000000,
            ;
            assert(r * r < (r + 1) * (r + 1)) by (nonlinear_arith);
        }
        r = r + 1;
    }
    proof {
        lemma_isqrt_unique(n as nat, r as nat);
    }
    r
}

/// The curve value at `x`, in nano units: with `x`, `a` and `b` on the
/// milli grid, `1_000_000_000 * y^2 = x^3 + 1000 * a * x + 1_000_000 * b`.
pub open spec fn spec_y2_nano(a: int, b: int, x: int) -> int {
    x * x * x + a * x * 1000 + b * 1000000
}

/// The plotted points of the curve `y^2 = x^3 + a * x + b`, sampled at
/// `x_min`, `x_min + step`, ... up to `x_max`, all on the milli grid:
/// where the curve value is non-negative the positive and the negative
/// root are emitted, elsewhere nothing.
pub open spec fn spec_curve_points(a: int, b: int, x_min: int, x_max: int, step: int) -> Seq<
    (i64, i64),
>
    decreases x_max + step - x_min,
{
    if x_min > x_max || step < 1 || x_max - x_min < 0 {
        Seq::empty()
    } else {
        let y2 = spec_y2_nano(a, b, x_min);
        let here = if y2 >= 0 {
            let y = spec_isqrt((y2 / 1000) as nat) as i64;
            seq![(x_min as i64, y), (x_min as i64, (-y) as i64)]
        } else {
            Seq::empty()
        };
        here + spec_curve_points(a, b, x_min + step, x_max, step)
    }
}

/// The curve value at `x`, computed exactly on the milli grid.
fn y2_nano(a: i64, b: i64, x: i64) -> (r: i64)
    requires
        -1000000 <= a <= 1000000,
        -1000000 <= b <= 1000000,
        -10000 <= x <= 10000,
    ensures
        r == spec_y2_nano(a as int, b as int, x as int),
        -12000000000000 <= r <= 12000000000000,
{
    proof {
        assert(-1000000000000 <= x * x * x <= 1000000000000) by (nonlinear_arith)
            requires
                -10000 <= x <= 10000,
        ;
        assert(-10000000000 <= a * x <= 10000000000) by (nonlinear_arith)
            requires
                -1000000 <= a <= 1000000,
                -10000 <= x <= 10000,
        ;
        assert(-100000000 <= x * x <= 100000000) by (nonlinear_arith)
            requires
                -10000 <= x <= 10000,
        ;
    }
    let x3 = x * x * x;
    let ax = a * x * 1000;
    let bm = b * 1000000;
    x3 + ax + bm
}

/// A curve with milli-grid coefficients, built from two aggregate
/// ratios.
pub struct EllipticCurve {
    pub a: i64,
    pub b: i64,
}

impl EllipticCurve {
    /// A curve with the given milli-grid coefficients.
    pub fn new(a: i64, b: i64) -> (r: EllipticCurve)
        ensures
            r.a == a,
            r.b == b,
    {
        EllipticCurve { a, b }
    }

    /// Sample the curve from `x_min` to `x_max` at `step`, all in
    /// milli units. The result is a function of the coefficients and
    /// the sampling grid alone, so equal inputs give the identical
    /// point sequence.
    pub fn calculate_points(&self, x_min: i64, x_max: i64, step: i64) -> (r: Vec<(i64, i64)>)
        requires
            -1000000 <= self.a <= 1000000,
            -1000000 <= self.b <= 1000000,
            -10000 <= x_min <= 10000,
            -10000 <= x_max <= 10000,
            1 <= step <= 20000,
        ensures
            r@ == spec_curve_points(self.a as int, self.b as int, x_min as int, x_max as int, step as int),
    {
        let mut points: Vec<(i64, i64)> = Vec::new();
        proof {
            assert(points@ + spec_curve_points(
                self.a as int,
                self.b as int,
                x_min as int,
                x_max as int,
                step as int,
            ) =~= spec_curve_points(
                self.a as int,
                self.b as int,
                x_min as int,
                x_max as int,
                step as int,
            ));
        }
        let mut x = x_min;
        while x <= x_max
            invariant
                -1000000 <= self.a <= 1000000,
                -1000000 <= self.b <= 1000000,
                -10000 <= x_min <= 10000,
                -10000 <= x_max <= 10000,
                1 <= step <= 20000,
                x_min <= x,
                points@ + spec_curve_points(self.a as int, self.b as int, x as int, x_max as int, step as int)
                    == spec_curve_points(self.a as int, self.b as int, x_min as int, x_max as int, step as int),
            decreases x_max + step - x,
        {
            let y2 = y2_nano(self.a, self.b, x);
            if y2 >= 0 {
                let yq = (y2 as u64) / 1000;
                proof {
                    assert(yq == spec_y2_nano(self.a as int, self.b as int, x as int) / 1000);
                    assert(yq < 0x1000000000000);
                }
                let y = isqrt(yq) as i64;
                points.push((x, y));
                points.push((x, -y));
            }
            proof {
                assert(points@ + spec_curve_points(self.a as int, self.b as int, x + step, x_max as int, step as int)
                    =~= spec_curve_points(self.a as int, self.b as int, x_min as int, x_max as int, step as int));
            }
            x = x + step;
        }
        proof {
            assert(points@ =~= spec_curve_points(self.a as int, self.b as int, x_min as int, x_max as int, step as int));
        }
        points
    }
}

/// Whether the dashboard session is still accepting input.
#[derive(Clone, Copy, PartialEq, Eq, Structural, Debug)]
pub enum RunState {
    Running,
    Terminated,
}

/// A keyboard event, as the dashboard understands it: the quit key,
/// the tab-advance key, or anything else.
#[derive(Clone, Copy, PartialEq, Eq, Structural, Debug)]
pub enum InputEvent {
    Quit,
    NextTab,
    Other,
}

/// The session-state transition for one event: the quit key ends a
/// running session; every other event, and every event once the
/// session has ended, leaves the state as it is.
pub open spec fn spec_step(s: RunState, ev: InputEvent) -> RunState {
    if s == RunState::Running && ev == InputEvent::Quit {
        RunState::Terminated
    } else {
        s
    }
}

/// Terminal-mode restoration fires on exactly the transition out of
/// `Running`.
pub open spec fn spec_cleanup(s: RunState, ev: InputEvent) -> bool {
    s == RunState::Running && ev == InputEvent::Quit
}

/// The session state after a whole sequence of events.
pub open spec fn run_state_after(s: RunState, evs: Seq<InputEvent>) -> RunState
    decreases evs.len(),
{
    if evs.len() == 0 {
        s
    } else {
        run_state_after(spec_step(s, evs[0]), evs.drop_first())
    }
}

/// How many times restoration fires over a whole sequence of events.
pub open spec fn cleanup_count(s: RunState, evs: Seq<InputEvent>) -> int
    decreases evs.len(),
{
    if evs.len() == 0 {
        0
    } else {
        (if spec_cleanup(s, evs[0]) {
            1int
        } else {
            0int
        }) + cleanup_count(spec_step(s, evs[0]), evs.drop_first())
    }
}

/// Does the sequence contain the quit key?
pub open spec fn has_quit(evs: Seq<InputEvent>) -> bool
    decreases evs.len(),
{
    if evs.len() == 0 {
        false
    } else {
        evs[0] == InputEvent::Quit || has_quit(evs.drop_first())
    }
}

/// A part-to-whole ratio on the milli grid.
pub open spec fn ratio_milli(part: int, total: int) -> int
    recommends
        total > 0,
{
    part * 1000 / total
}

/// The plotted point sequence for an aggregate: empty when nothing
/// was counted, else the curve with the error and warning ratios as
/// coefficients, sampled over the fixed grid.
pub open spec fn spec_app_points(stats: LogStats) -> Seq<(i64, i64)> {
    if stats.total_messages == 0 {
        Seq::empty()
    } else {
        spec_curve_points(
            ratio_milli(stats.error_messages as int, stats.total_messages as int),
            ratio_milli(stats.warning_messages as int, stats.total_messages as int),
            -5000,
            5000,
            100,
        )
    }
}

/// The entries of one severity category, in insertion order.
pub open spec fn spec_filtered(entries: Seq<LogEntry>, level: LogFormatter) -> Seq<LogEntry>
    decreases entries.len(),
{
    if entries.len() == 0 {
        Seq::empty()
    } else if entries.last().level == level {
        spec_filtered(entries.drop_last(), level).push(entries.last())
    } else {
        spec_filtered(entries.drop_last(), level)
    }
}

/// The dashboard: the two aggregates it presents, the fixed severity
/// filter, the active tab, the precomputed curve points, and the
/// session state.
pub struct App {
    pub logs: Logs,
    pub stats: LogStats,
    pub filter: Option<LogFormatter>,
    pub tab: usize,
    pub points: Vec<(i64, i64)>,
    pub state: RunState,
}

impl App {
    /// The dashboard's invariant: the tab selector stays within the
    /// two views.
    pub open spec fn inv(self) -> bool {
        self.tab < 2
    }

    /// Build the dashboard over the two aggregates: it starts running
    /// on the first tab with the caller's filter, and the curve points
    /// are computed once from the aggregate counts — an aggregate with
    /// nothing counted plots nothing.
    pub fn new(logs: Logs, stats: LogStats, filter: Option<LogFormatter>) -> (r: App)
        requires
            stats.wf(),
        ensures
            r.inv(),
            r.logs == logs,
            r.stats == stats,
            r.filter == filter,
            r.tab == 0,
            r.state == RunState::Running,
            r.points@ == spec_app_points(stats),
    {
        let points: Vec<(i64, i64)>;
        if stats.total_messages == 0 {
            points = Vec::new();
            proof {
                assert(points@ =~= spec_app_points(stats));
            }
        } else {
            let total = stats.total_messages as u128;
            let a128 = (stats.error_messages as u128) * 1000 / total;
            let b128 = (stats.warning_messages as u128) * 1000 / total;
            proof {
                let ee = stats.error_messages as int;
                let ww = stats.warning_messages as int;
                let tt = stats.total_messages as int;
                assert(a128 as int == ee * 1000 / tt);
                assert(b128 as int == ww * 1000 / tt);
                assert(ee * 1000 / tt <= 1000) by (nonlinear_arith)
                    requires
                        0 <= ee <= tt,
                        tt >= 1,
                ;
                assert(ww * 1000 / tt <= 1000) by (nonlinear_arith)
                    requires
                        0 <= ww <= tt,
                        tt >= 1,
                ;
            }
            let a = a128 as i64;
            let b = b128 as i64;
            let curve = EllipticCurve::new(a, b);
            points = curve.calculate_points(-5000, 5000, 100);
            proof {
                assert(a as int == ratio_milli(stats.error_messages as int, stats.total_messages as int));
                assert(b as int == ratio_milli(stats.warning_messages as int, stats.total_messages as int));
            }
        }
        App { logs, stats, filter, tab: 0, points, state: RunState::Running }
    }

    /// React to one keyboard event: the quit key ends a running
    /// session and asks for terminal restoration; the tab key cycles
    /// the running view; everything else changes nothing. The
    /// aggregates, the filter and the points are never touched.
    pub fn handle_key(&mut self, ev: InputEvent) -> (cleanup: bool)
        requires
            old(self).inv(),
        ensures
            final(self).inv(),
            final(self).logs == old(self).logs,
            final(self).stats == old(self).stats,
            final(self).filter == old(self).filter,
            final(self).points == old(self).points,
            final(self).state == spec_step(old(self).state, ev),
            cleanup == spec_cleanup(old(self).state, ev),
            ev == InputEvent::NextTab && old(self).state == RunState::Running ==> final(
                self
            ).tab as int == (old(self).tab + 1) % 2,
            !(ev == InputEvent::NextTab && old(self).state == RunState::Running) ==> final(
                self
            ).tab == old(self).tab,
    {
        match self.state {
            RunState::Running => match ev {
                InputEvent::Quit => {
                    self.state = RunState::Terminated;
                    true
                },
                InputEvent::NextTab => {
                    self.tab = (self.tab + 1) % 2;
                    false
                },
                InputEvent::Other => false,
            },
            RunState::Terminated => false,
        }
    }

    /// The entries of one severity category, in insertion order: the
    /// content of that category's pane, and of the single pane when
    /// the filter selects that category.
    pub fn filtered_entries(&self, level: LogFormatter) -> (r: Vec<LogEntry>)
        ensures
            r@ == spec_filtered(self.logs.entries@, level),
    {
        let mut out: Vec<LogEntry> = Vec::new();
        let n = self.logs.entries.len();
        let mut i: usize = 0;
        while i < n
            invariant
                i <= n,
                n == self.logs.entries@.len(),
                out@ == spec_filtered(self.logs.entries@.take(i as int), level),
            decreases n - i,
        {
            let e = &self.logs.entries[i];
            if e.level == level {
                out.push(e.clone());
            }
            proof {
                assert(self.logs.entries@.take(i + 1).drop_last() =~= self.logs.entries@.take(
                    i as int,
                ));
                assert(self.logs.entries@.take(i + 1).last() == self.logs.entries@[i as int]);
            }
            i = i + 1;
        }
        proof {
            assert(self.logs.entries@.take(n as int) =~= self.logs.entries@);
        }
        out
    }

    /// The names of the two views, in tab order.
    pub fn tab_titles() -> (r: Vec<&'static str>)
        ensures
            r@.len() == 2,
            r@[0]@ == "Logs"@,
            r@[1]@ == "Elliptic Curve"@,
    {
        let mut v: Vec<&'static str> = Vec::new();
        v.push("Logs");
        v.push("Elliptic Curve");
        v
    }
}

/// Once the session has ended, nothing moves it and restoration never
/// fires again.
proof fn lemma_terminated_absorbing(evs: Seq<InputEvent>)
    ensures
        run_state_after(RunState::Terminated, evs) == RunState::Terminated,
        cleanup_count(RunState::Terminated, evs) == 0,
    decreases evs.len(),
{
    if evs.len() > 0 {
        lemma_terminated_absorbing(evs.drop_first());
    }
}

/// From `Running`, a sequence of events containing the quit key always
/// ends `Terminated`, and terminal restoration fires exactly once —
/// whatever tab or filter was active, since the session state ignores
/// both; without a quit key the session keeps running and restoration
/// never fires.
pub proof fn lemma_quit_cleanup(evs: Seq<InputEvent>)
    ensures
        has_quit(evs) ==> run_state_after(RunState::Running, evs) == RunState::Terminated,
        cleanup_count(RunState::Running, evs) == if has_quit(evs) {
            1int
        } else {
            0int
        },
    decreases evs.len(),
{
    if evs.len() > 0 {
        if evs[0] == InputEvent::Quit {
            lemma_terminated_absorbing(evs.drop_first());
        } else {
            lemma_quit_cleanup(evs.drop_first());
        }
    }
}

/// The plotted point sequence is deterministic: two aggregates with
/// the same counters plot the identical ordered sequence, and an
/// aggregate with nothing counted plots nothing.
pub proof fn lemma_points_deterministic(s1: LogStats, s2: LogStats)
    requires
        s1.model() == s2.model(),
    ensures
        spec_app_points(s1) == spec_app_points(s2),
        s1.total_messages == 0 ==> spec_app_points(s1) == Seq::<(i64, i64)>::empty(),
{
    assert(s1.total_messages == s2.total_messages);
    assert(s1.error_messages == s2.error_messages);
    assert(s1.warning_messages == s2.warning_messages);
}

} // verus!
