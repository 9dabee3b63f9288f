//! The whole way from the logs of the repositories to the calendar image.

use crate::history::{all_changes, all_dates, RepoLog};
use crate::index::index_of;
use crate::render::{frame_of, render, Frame, FrameView};
use crate::stats::stats_of;
use crate::summary::History;
use crate::theme::Theme;
use crate::years::active_years_of;
use vstd::prelude::*;

verus! {

/// The calendar image of the logs of some repositories: the image of the
/// active years of their daily index, over their daily index and statistics.
pub open spec fn calendar_of(logs: Seq<RepoLog>, theme: Theme) -> FrameView {
    let index = index_of(all_dates(logs));
    let stats = stats_of(all_changes(logs));
    frame_of(index, stats, theme, active_years_of(index))
}

/// Aggregates the logs, selects the active years and renders them.
pub fn generate(logs: &Vec<RepoLog>, theme: &Theme) -> (frame: Frame)
    ensures
        frame@ == calendar_of(logs@, *theme),
{
    let history = History::gather(logs);
    let years = history.active_years();
    render(&history, theme, &years)
}

} // verus!
