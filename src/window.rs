//! A season window: two instants in milliseconds since the Unix epoch, and
//! how much of the span between them has gone by at a given instant.

use vstd::prelude::*;
use vstd::arithmetic::div_mod::{
    lemma_div_is_ordered, lemma_div_plus_one, lemma_fundamental_div_mod,
    lemma_fundamental_div_mod_converse,
};

verus! {

/// The share of the window from `start` to `end` that has gone by at `now`,
/// in hundredths of a percent, rounded down. Not clamped: an instant before
/// the start gives a negative share, one after the end more than 10000.
pub open spec fn time_progress_spec(start: int, end: int, now: int) -> int {
    ((now - start) * 10000) / (end - start)
}

/// The share of the window that has gone by moves with the instant: it
/// never falls as time goes on, and two instants at least a ten-thousandth
/// of the window apart show different shares. The exact share,
/// `(now - start) / (end - start)`, differs for any two distinct instants.
pub proof fn lemma_time_progress_moves(start: int, end: int, now1: int, now2: int)
    requires
        start < end,
        now1 < now2,
    ensures
        time_progress_spec(start, end, now1) <= time_progress_spec(start, end, now2),
        (now2 - now1) * 10000 >= end - start ==> time_progress_spec(start, end, now1)
            < time_progress_spec(start, end, now2),
        (now1 - start) * (end - start) < (now2 - start) * (end - start),
{
    let span = end - start;
    let a = (now1 - start) * 10000;
    let b = (now2 - start) * 10000;
    assert(a < b);
    lemma_div_is_ordered(a, b, span);
    if (now2 - now1) * 10000 >= span {
        assert(a + span <= b);
        lemma_div_is_ordered(span + a, b, span);
        lemma_div_plus_one(a, span);
    }
    assert((now1 - start) * span < (now2 - start) * span) by (nonlinear_arith)
        requires
            now1 < now2,
            span > 0,
    ;
}

/// A season window with a name for display, such as the date it ends.
pub struct ProgressWindow {
    start_ms: i64,
    end_ms: i64,
    label: String,
}

impl ProgressWindow {
    /// The window opens before it closes.
    pub open spec fn wf(&self) -> bool {
        self.start_spec() < self.end_spec()
    }

    /// When the window opens.
    pub closed spec fn start_spec(&self) -> int {
        self.start_ms as int
    }

    /// When the window closes.
    pub closed spec fn end_spec(&self) -> int {
        self.end_ms as int
    }

    /// The window's name.
    pub closed spec fn label_spec(&self) -> Seq<char> {
        self.label@
    }

    /// The window from `start_ms` to `end_ms`, named `label`.
    pub fn new(start_ms: i64, end_ms: i64, label: String) -> (r: ProgressWindow)
        requires
            start_ms < end_ms,
        ensures
            r.wf(),
            r.start_spec() == start_ms,
            r.end_spec() == end_ms,
            r.label_spec() == label@,
    {
        ProgressWindow { start_ms, end_ms, label }
    }

    /// When the window opens.
    pub fn start_ms(&self) -> (r: i64)
        ensures
            r == self.start_spec(),
    {
        self.start_ms
    }

    /// When the window closes.
    pub fn end_ms(&self) -> (r: i64)
        ensures
            r == self.end_spec(),
    {
        self.end_ms
    }

    /// The window's name.
    pub fn label(&self) -> (r: &str)
        ensures
            r@ == self.label_spec(),
    {
        self.label.as_str()
    }

    /// The share of this window that has gone by at `now_ms`, in hundredths
    /// of a percent, rounded down.
    pub fn progress_at(&self, now_ms: i64) -> (r: i128)
        requires
            self.wf(),
        ensures
            r == time_progress_spec(self.start_spec(), self.end_spec(), now_ms as int),
    {
        time_progress_basis_points(self.start_ms, self.end_ms, now_ms)
    }
}

/// The share of the window from `start_ms` to `end_ms` that has gone by at
/// `now_ms`, in hundredths of a percent, rounded down and not clamped.
pub fn time_progress_basis_points(start_ms: i64, end_ms: i64, now_ms: i64) -> (r: i128)
    requires
        start_ms < end_ms,
    ensures
        r == time_progress_spec(start_ms as int, end_ms as int, now_ms as int),
{
    let span: i128 = end_ms as i128 - start_ms as i128;
    let scaled: i128 = (now_ms as i128 - start_ms as i128) * 10000;
    if scaled >= 0 {
        scaled / span
    } else {
        let q: i128 = (-scaled) / span;
        let rem: i128 = (-scaled) % span;
        proof {
            lemma_fundamental_div_mod(-scaled as int, span as int);
            let (x, d, qi, ri) = (scaled as int, span as int, q as int, rem as int);
            assert(-x == d * qi + ri);
            assert(x == (-qi) * d - ri) by (nonlinear_arith)
                requires
                    -x == d * qi + ri,
            ;
            assert(x == (-qi - 1) * d + (d - ri)) by (nonlinear_arith)
                requires
                    x == (-qi) * d - ri,
            ;
        }
        if rem == 0 {
            proof {
                lemma_fundamental_div_mod_converse(scaled as int, span as int, -q, 0);
            }
            -q
        } else {
            proof {
                lemma_fundamental_div_mod_converse(
                    scaled as int,
                    span as int,
                    -q - 1,
                    span - rem,
                );
            }
            -q - 1
        }
    }
}

} // verus!
