//! The tracker's state and its one event: the level text the player typed,
//! the season window, and the figures shown for them at a given instant.

use vstd::prelude::*;
use crate::level::{level_of, parse_level};
use crate::window::{time_progress_spec, ProgressWindow};
use crate::xp::{
    cumulative_xp, cumulative_xp_to_level, percent_complete_basis_points, total_xp,
    total_xp_spec, xp_at, xp_for_level,
};

verus! {

/// How far through the pass the level text `text` is, in hundredths of a
/// percent, rounded down.
pub open spec fn xp_percent_of(text: Seq<char>) -> nat {
    cumulative_xp(level_of(text)) * 10000 / total_xp_spec()
}

/// Showing the tracker twice with an unchanged level text gives the same
/// level and XP figures both times, whatever instants the two showings are
/// at: those figures depend on the level text alone.
pub proof fn lemma_xp_figures_repeat(first: Seq<char>, second: Seq<char>)
    requires
        first == second,
    ensures
        level_of(first) == level_of(second),
        cumulative_xp(level_of(first)) == cumulative_xp(level_of(second)),
        xp_percent_of(first) == xp_percent_of(second),
{
}

/// An event for the tracker.
pub enum Msg {
    /// The player changed the level text to this.
    Update(String),
}

/// Everything the tracker shows at one instant. Percentages are in
/// hundredths of a percent, rounded down; the share of the window that has
/// gone by is also given exactly, as `elapsed_ms / span_ms`.
pub struct ProgressView {
    /// The level read from the level text.
    pub level: usize,
    /// The XP awarded for reaching that level.
    pub level_xp: u64,
    /// The XP gathered through that level.
    pub cumulative_xp: u64,
    /// The XP of the whole pass.
    pub total_xp: u64,
    /// `cumulative_xp` as a share of `total_xp`.
    pub xp_percent: u64,
    /// The share of the season window that has gone by.
    pub time_percent: i128,
    /// Milliseconds from the window's start to the instant shown.
    pub elapsed_ms: i128,
    /// Milliseconds from the window's start to its end.
    pub span_ms: i128,
}

/// The tracker: the level text as typed, and the season window it measures
/// time against.
pub struct Model {
    pub level: String,
    pub window: ProgressWindow,
}

impl Model {
    /// The window is a proper one.
    pub open spec fn wf(&self) -> bool {
        self.window.wf()
    }

    /// A tracker on `window`, with the level text at its default, `15`.
    pub fn create(window: ProgressWindow) -> (r: Model)
        requires
            window.wf(),
        ensures
            r.wf(),
            r.level@ == "15"@,
            r.window == window,
    {
        Model { level: String::from_str("15"), window }
    }

    /// Takes one event: the level text becomes the one typed. The tracker
    /// is then to be shown again, so this returns `true`.
    pub fn update(&mut self, msg: Msg) -> (should_render: bool)
        ensures
            match msg {
                Msg::Update(text) => final(self).level@ == text@,
            },
            final(self).window == old(self).window,
            should_render,
    {
        match msg {
            Msg::Update(text) => self.level = text,
        }
        true
    }

    /// The level that the current text stands for.
    pub fn level(&self) -> (r: usize)
        ensures
            r == level_of(self.level@),
    {
        parse_level(self.level.as_str())
    }

    /// The figures to show at the instant `now_ms`, in milliseconds since
    /// the Unix epoch. Nothing is kept from an earlier call: each one reads
    /// the level text anew and measures the window against `now_ms`.
    pub fn view(&self, now_ms: i64) -> (r: ProgressView)
        requires
            self.wf(),
        ensures
            r.level == level_of(self.level@),
            r.level_xp == xp_at(level_of(self.level@)),
            r.cumulative_xp == cumulative_xp(level_of(self.level@)),
            r.total_xp == total_xp_spec(),
            r.xp_percent == xp_percent_of(self.level@),
            r.time_percent == time_progress_spec(
                self.window.start_spec(),
                self.window.end_spec(),
                now_ms as int,
            ),
            r.elapsed_ms == now_ms - self.window.start_spec(),
            r.span_ms == self.window.end_spec() - self.window.start_spec(),
    {
        let level = self.level();
        ProgressView {
            level,
            level_xp: xp_for_level(level),
            cumulative_xp: cumulative_xp_to_level(level),
            total_xp: total_xp(),
            xp_percent: percent_complete_basis_points(level),
            time_percent: self.window.progress_at(now_ms),
            elapsed_ms: now_ms as i128 - self.window.start_ms() as i128,
            span_ms: self.window.end_ms() as i128 - self.window.start_ms() as i128,
        }
    }
}

} // verus!
