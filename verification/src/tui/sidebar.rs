//! How the file list of the terminal UI marks each file's status.
use vstd::prelude::*;
use crate::tui::app::App;
use crate::tui::theme::{Color, Theme, theme_of};
use crate::types::FileStatus;

verus! {

/// The one-letter mark of a file status.
pub open spec fn status_letter(status: FileStatus) -> Seq<char> {
    match status {
        FileStatus::Added => "A"@,
        FileStatus::Modified => "M"@,
        FileStatus::Deleted => "D"@,
        FileStatus::Renamed => "R"@,
        FileStatus::Copied => "C"@,
    }
}

/// The one-letter mark of a file status: `A`, `M`, `D`, `R` or `C`.
pub fn status_symbol(status: &FileStatus) -> (r: &'static str)
    ensures
        r@ == status_letter(*status),
{
    match status {
        FileStatus::Added => "A",
        FileStatus::Modified => "M",
        FileStatus::Deleted => "D",
        FileStatus::Renamed => "R",
        FileStatus::Copied => "C",
    }
}

/// The theme colour a file status is shown in: success for added, warning
/// for modified, danger for deleted, link for renamed and copied files.
pub open spec fn status_tint(status: FileStatus, t: Theme) -> Color {
    match status {
        FileStatus::Added => t.success,
        FileStatus::Modified => t.warning,
        FileStatus::Deleted => t.danger,
        FileStatus::Renamed | FileStatus::Copied => t.link,
    }
}

/// The colour a file status is shown in under the app's theme.
pub fn status_color(status: &FileStatus, app: &App) -> (r: Color)
    ensures
        r == status_tint(*status, theme_of(app.theme_id@)),
{
    let theme = app.theme();
    match status {
        FileStatus::Added => theme.success,
        FileStatus::Modified => theme.warning,
        FileStatus::Deleted => theme.danger,
        FileStatus::Renamed | FileStatus::Copied => theme.link,
    }
}

} // verus!
