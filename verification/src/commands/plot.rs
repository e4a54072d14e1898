//! Plot sheets: what is drawn, at which place, and where it goes.

use crate::arrivals::copy_text;
use crate::document::{Layer, Rgba};
use crate::error::AppError;
use crate::files::{DialogRequest, Files, Request};
use crate::ids::{IdSet, SceneEntityId};
use crate::ieee::{equal64, f64_equal, Point3};
use crate::items::OpenTriangulation;
use crate::jobs::{job_queued, last_work, one_key, JobKey, Work};
use crate::names::{drawing_stem, sanitised_file_stem};
use crate::state::{App, Platform};
use crate::text::{file_part, file_stem, join, known_path, lemma_not_blank, stem_of, text_of, trim, trimmed};
use vstd::prelude::*;
use vstd::string::*;

verus! {

/// More rows than this stop being a legend.
pub const MAX_LEGEND_ENTRIES: usize = 12;

/// What a sheet is centred on.
#[derive(Clone, Copy, PartialEq, Eq, Structural, Debug)]
pub enum PlotCentre {
    AllData,
    CurrentView,
    Explicit,
}

/// The dialog that describes a sheet. Numbers are the bits of an `f64`.
pub struct PlotDialog {
    pub title: String,
    pub drawing_number: String,
    pub project_name: String,
    pub date: String,
    pub scale: u64,
    pub centre: PlotCentre,
    pub centre_east: u64,
    pub centre_north: u64,
}

/// The dialog, where it is open.
pub struct Plot {
    pub dialog: Option<PlotDialog>,
}

/// A row of the legend.
pub struct LegendEntry {
    pub label: String,
    pub color: Rgba,
}

/// Where a sheet goes.
pub enum PlotTarget {
    File(String),
    Browser(String),
}

/// A sheet to be drawn. `layout` is a key to where its parts lie.
pub struct PlotSheet {
    pub legend: Vec<LegendEntry>,
    pub layout: u64,
    pub centre: Point3,
    pub target: PlotTarget,
}

/// What is known of the view when a sheet is asked for: the layout that the
/// dialog's settings give, if they give one, the middle of everything visible,
/// the middle of the view, if there is a renderer, and whether the renderer
/// could draw the map.
#[derive(Clone, Copy, PartialEq, Eq, Structural, Debug)]
pub struct PlotFacts {
    pub layout: Option<u64>,
    pub data_centre: Option<Point3>,
    pub view_centre: Option<Point3>,
    pub captured: bool,
}

/// What the rows of a legend are.
pub open spec fn legend_model(rows: Seq<LegendEntry>) -> Seq<(Seq<char>, Rgba)> {
    rows.map_values(|e: LegendEntry| (e.label@, e.color))
}

/// A surface has its row.
pub open spec fn surface_shown(t: OpenTriangulation, hidden: Set<SceneEntityId>) -> bool {
    t.state.loaded && !hidden.contains(SceneEntityId::Triangulation(t.id))
}

/// The rows of the surfaces, in their order.
pub open spec fn surface_rows(s: Seq<OpenTriangulation>, hidden: Set<SceneEntityId>) -> Seq<(Seq<char>, Rgba)>
    decreases s.len(),
{
    if s.len() == 0 {
        Seq::empty()
    } else {
        let before = surface_rows(s.drop_last(), hidden);
        if surface_shown(s.last(), hidden) {
            before.push((s.last().name@, s.last().color))
        } else {
            before
        }
    }
}

/// The rows of the layers, in their order.
pub open spec fn layer_rows(s: Seq<Layer>) -> Seq<(Seq<char>, Rgba)>
    decreases s.len(),
{
    if s.len() == 0 {
        Seq::empty()
    } else {
        let before = layer_rows(s.drop_last());
        if s.last().loaded {
            before.push((s.last().name@, s.last().color))
        } else {
            before
        }
    }
}

/// Every row that could be in the legend.
pub open spec fn all_rows(app: App) -> Seq<(Seq<char>, Rgba)> {
    let surfaces = surface_rows(app.items.triangulations@, app.visibility.hidden@);
    match app.workspace.active() {
        Some(p) => surfaces + layer_rows(p.document.layers@),
        None => surfaces,
    }
}

/// The legend: the visible surfaces and then the loaded layers, as far as
/// there is room.
pub open spec fn legend(app: App) -> Seq<(Seq<char>, Rgba)> {
    let rows = all_rows(app);
    if rows.len() > MAX_LEGEND_ENTRIES {
        rows.take(MAX_LEGEND_ENTRIES as int)
    } else {
        rows
    }
}

/// The name that a sheet is offered under, apart from its extension: made of
/// the drawing number, or of the title where there is none.
pub open spec fn plot_stem(dialog: PlotDialog) -> Seq<char> {
    let number = trimmed(dialog.drawing_number@);
    let title = trimmed(dialog.title@);
    if number.len() > 0 {
        drawing_stem(number)
    } else if title.len() > 0 {
        drawing_stem(title)
    } else {
        drawing_stem("Plot"@)
    }
}

/// The name that a sheet is offered under.
pub fn plot_file_name(dialog: &PlotDialog) -> (r: String)
    ensures
        r@ == plot_stem(*dialog) + ".png"@,
{
    let number = trim(dialog.drawing_number.as_str());
    let title = trim(dialog.title.as_str());
    let stem = if number.as_str().unicode_len() > 0 {
        sanitised_file_stem(number.as_str())
    } else if title.as_str().unicode_len() > 0 {
        sanitised_file_stem(title.as_str())
    } else {
        sanitised_file_stem("Plot")
    };
    join(stem.as_str(), ".png")
}

/// The character is an ASCII digit.
pub open spec fn is_digit(c: char) -> bool {
    '0' <= c && c <= '9'
}

/// The number that two digits write.
pub open spec fn two_digits(a: char, b: char) -> int {
    10 * (a as int - '0' as int) + (b as int - '0' as int)
}

/// The text is a date: a year of at least four digits, with a sign before it
/// where it has more or lies before the year nought, then the month and the
/// day in two digits each, parted by hyphens.
pub open spec fn date_shaped(s: Seq<char>) -> bool {
    let n = s.len() as int;
    &&& n >= 10
    &&& is_digit(s[0]) || (n > 10 && (s[0] == '+' || s[0] == '-'))
    &&& forall|i: int| 1 <= i < n - 6 ==> is_digit(#[trigger] s[i])
    &&& s[n - 6] == '-' && s[n - 3] == '-'
    &&& is_digit(s[n - 5]) && is_digit(s[n - 4]) && 1 <= two_digits(s[n - 5], s[n - 4]) <= 12
    &&& is_digit(s[n - 2]) && is_digit(s[n - 1]) && 1 <= two_digits(s[n - 2], s[n - 1]) <= 31
}

/// `chrono::Local::now`, formatted as year, month and day: today's date. Which
/// it is rests on the time and the place, so only how it is written is stated.
#[verifier::external_body]
fn today() -> (r: String)
    ensures
        date_shaped(r@),
{
    chrono::Local::now().format("%Y-%m-%d").to_string()
}

/// The dialog once it was opened: a date, a project's name and a centre are
/// filled in where they were missing.
pub open spec fn dialog_filled(from: PlotDialog, path: Option<Seq<char>>, data_centre: Option<Point3>, post: PlotDialog) -> bool {
    &&& post == (PlotDialog {
        date: post.date,
        project_name: post.project_name,
        centre_east: post.centre_east,
        centre_north: post.centre_north,
        ..from
    })
    &&& trimmed(from.date@).len() > 0 ==> post.date == from.date
    &&& trimmed(from.date@).len() == 0 ==> date_shaped(post.date@)
    &&& trimmed(from.project_name@).len() > 0 || path is None ==> post.project_name == from.project_name
    &&& (trimmed(from.project_name@).len() == 0 && path is Some && known_path(path->0)) ==> post.project_name@ == stem_of(file_part(path->0))
    &&& (post.centre_east, post.centre_north) == (match data_centre {
        Some(c) if f64_equal(from.centre_east, 0) && f64_equal(from.centre_north, 0) => (c.x, c.y),
        _ => (from.centre_east, from.centre_north),
    })
}

/// A dialog that was opened shows a date.
pub proof fn law_opened_dialog_has_a_date(from: PlotDialog, path: Option<Seq<char>>, data_centre: Option<Point3>, post: PlotDialog)
    requires
        dialog_filled(from, path, data_centre, post),
    ensures
        trimmed(post.date@).len() > 0,
{
    if trimmed(from.date@).len() == 0 {
        lemma_not_blank(post.date@);
    }
}

/// The path of the active project.
pub open spec fn active_path(app: App) -> Option<Seq<char>> {
    match app.workspace.active() {
        Some(p) => text_of(p.path),
        None => None,
    }
}

/// Where a sheet is centred, or why it cannot be.
pub open spec fn sheet_centre(dialog: PlotDialog, facts: PlotFacts) -> Result<Point3, AppError> {
    match dialog.centre {
        PlotCentre::Explicit => Ok(
            Point3 {
                x: dialog.centre_east,
                y: dialog.centre_north,
                z: match facts.data_centre {
                    Some(c) => c.z,
                    None => 0,
                },
            },
        ),
        PlotCentre::CurrentView => match facts.view_centre {
            Some(c) => Ok(c),
            None => Err(AppError::RendererMissing),
        },
        PlotCentre::AllData => match facts.data_centre {
            Some(c) => Ok(c),
            None => Err(AppError::NothingVisible),
        },
    }
}

/// Why a sheet cannot be drawn.
pub open spec fn sheet_refused(app: App, facts: PlotFacts) -> Option<AppError> {
    match app.plot.dialog {
        None => Some(AppError::DialogClosed),
        Some(dialog) => if facts.layout is None {
            Some(AppError::LayoutRefused)
        } else {
            match sheet_centre(dialog, facts) {
                Err(e) => Some(e),
                Ok(_) => if facts.view_centre is None {
                    Some(AppError::RendererMissing)
                } else if !facts.captured {
                    Some(AppError::CaptureFailed)
                } else {
                    None
                },
            }
        },
    }
}

/// The sheet that is drawn.
pub open spec fn is_sheet(app: App, facts: PlotFacts, target: PlotTarget, sheet: PlotSheet) -> bool {
    &&& legend_model(sheet.legend@) == legend(app)
    &&& facts.layout == Some(sheet.layout)
    &&& sheet_centre(app.plot.dialog->0, facts) == Ok::<Point3, AppError>(sheet.centre)
    &&& sheet.target == target
}

/// What drawing a sheet does: the dialog closes, and the sheet is composed in
/// the background, or in the browser as soon as its map has been read.
pub open spec fn sheet_written(pre: App, target: PlotTarget, facts: PlotFacts, r: Result<(), AppError>, post: App) -> bool {
    match sheet_refused(pre, facts) {
        Some(e) => r == Err::<(), AppError>(e) && post == pre,
        None => {
            let closed = App { plot: Plot { dialog: None }, frame: pre.frame.redraw(), ..pre };
            &&& r == Ok::<(), AppError>(())
            &&& if pre.platform == Platform::Native {
                &&& job_queued(closed, "Composing engineering drawing…"@, seq![JobKey::Anonymous], last_work(post), post)
                &&& last_work(post) matches Work::ComposeSheet(sheet) && is_sheet(pre, facts, target, sheet)
            } else {
                let asked = post.files.requests@;
                &&& post == (App { files: Files { requests: post.files.requests, ..pre.files }, ..closed })
                &&& asked.len() == pre.files.requests@.len() + 1
                &&& asked.drop_last() == pre.files.requests@
                &&& asked.last() matches Request::ComposeSheet(sheet) && is_sheet(pre, facts, target, sheet)
            }
        },
    }
}

/// What asking where a sheet goes does.
pub open spec fn sheet_destination_asked(pre: App, facts: PlotFacts, r: Result<(), AppError>, post: App) -> bool {
    match pre.plot.dialog {
        None => r == Err::<(), AppError>(AppError::DialogClosed) && post == pre,
        Some(dialog) => if facts.layout is None {
            r == Err::<(), AppError>(AppError::LayoutRefused) && post == pre
        } else if pre.platform == Platform::Browser {
            exists|name: String| name@ == plot_stem(dialog) + ".png"@ && #[trigger] sheet_written(pre, PlotTarget::Browser(name), facts, r, post)
        } else {
            &&& r == Ok::<(), AppError>(())
            &&& post == (App { files: Files { dialogs: post.files.dialogs, ..pre.files }, ..pre })
            &&& post.files.dialogs@.len() == pre.files.dialogs@.len() + 1
            &&& post.files.dialogs@.drop_last() == pre.files.dialogs@
            &&& post.files.dialogs@.last() matches DialogRequest::ExportPlotSheet { file_name } && file_name@ == plot_stem(dialog) + ".png"@
        },
    }
}

fn surface_entries(s: &Vec<OpenTriangulation>, hidden: &IdSet<SceneEntityId>) -> (r: Vec<LegendEntry>)
    ensures
        legend_model(r@) == surface_rows(s@, hidden@),
{
    let mut rows: Vec<LegendEntry> = Vec::new();
    let mut i: usize = 0;
    assert(s@.take(0) =~= Seq::<OpenTriangulation>::empty());
    assert(legend_model(rows@) =~= surface_rows(s@.take(0), hidden@));
    while i < s.len()
        invariant
            i <= s.len(),
            legend_model(rows@) == surface_rows(s@.take(i as int), hidden@),
        decreases s.len() - i,
    {
        let ghost before = rows@;
        assert(s@.take(i + 1).drop_last() =~= s@.take(i as int));
        if s[i].state.loaded && !hidden.contains(SceneEntityId::Triangulation(s[i].id)) {
            rows.push(LegendEntry { label: s[i].name.clone(), color: s[i].color });
            assert(legend_model(rows@) =~= legend_model(before).push((s@[i as int].name@, s@[i as int].color)));
        }
        i += 1;
    }
    assert(s@.take(s@.len() as int) =~= s@);
    rows
}

fn layer_entries(s: &Vec<Layer>) -> (r: Vec<LegendEntry>)
    ensures
        legend_model(r@) == layer_rows(s@),
{
    let mut rows: Vec<LegendEntry> = Vec::new();
    let mut i: usize = 0;
    assert(s@.take(0) =~= Seq::<Layer>::empty());
    assert(legend_model(rows@) =~= layer_rows(s@.take(0)));
    while i < s.len()
        invariant
            i <= s.len(),
            legend_model(rows@) == layer_rows(s@.take(i as int)),
        decreases s.len() - i,
    {
        let ghost before = rows@;
        assert(s@.take(i + 1).drop_last() =~= s@.take(i as int));
        if s[i].loaded {
            rows.push(LegendEntry { label: s[i].name.clone(), color: s[i].color });
            assert(legend_model(rows@) =~= legend_model(before).push((s@[i as int].name@, s@[i as int].color)));
        }
        i += 1;
    }
    assert(s@.take(s@.len() as int) =~= s@);
    rows
}

fn plot_centre(dialog: &PlotDialog, facts: PlotFacts) -> (r: Result<Point3, AppError>)
    ensures
        r == sheet_centre(*dialog, facts),
{
    match dialog.centre {
        PlotCentre::Explicit => {
            let z: u64 = match facts.data_centre {
                Some(c) => c.z,
                None => 0,
            };
            Ok(Point3 { x: dialog.centre_east, y: dialog.centre_north, z })
        },
        PlotCentre::CurrentView => match facts.view_centre {
            Some(c) => Ok(c),
            None => Err(AppError::RendererMissing),
        },
        PlotCentre::AllData => match facts.data_centre {
            Some(c) => Ok(c),
            None => Err(AppError::NothingVisible),
        },
    }
}

impl PlotDialog {
    fn fill(&mut self, path: &Option<String>, data_centre: Option<Point3>)
        ensures
            dialog_filled(*old(self), text_of(*path), data_centre, *final(self)),
    {
        if trim(self.date.as_str()).as_str().unicode_len() == 0 {
            self.date = today();
        }
        if trim(self.project_name.as_str()).as_str().unicode_len() == 0 {
            match path {
                Some(p) => match file_stem(p.as_str()) {
                    Some(stem) => {
                        self.project_name = stem;
                    },
                    None => {},
                },
                None => {},
            }
        }
        match data_centre {
            Some(c) => {
                if equal64(self.centre_east, 0) && equal64(self.centre_north, 0) {
                    self.centre_east = c.x;
                    self.centre_north = c.y;
                }
            },
            None => {},
        }
    }
}

impl App {
    /// The rows of the legend.
    pub fn plot_legend_entries(&self) -> (r: Vec<LegendEntry>)
        ensures
            legend_model(r@) == legend(*self),
    {
        let mut rows = surface_entries(&self.items.triangulations, &self.visibility.hidden);
        match self.workspace.active_project() {
            Some(project) => {
                let mut more = layer_entries(&project.document.layers);
                let ghost (a, b) = (rows@, more@);
                rows.append(&mut more);
                assert(legend_model(rows@) =~= legend_model(a) + legend_model(b));
            },
            None => {},
        }
        let ghost all = rows@;
        if rows.len() > MAX_LEGEND_ENTRIES {
            rows.truncate(MAX_LEGEND_ENTRIES);
            assert(legend_model(rows@) =~= legend_model(all).take(MAX_LEGEND_ENTRIES as int));
        }
        rows
    }

    /// Opens the dialog that describes a sheet. `fresh` is a dialog that
    /// nothing was entered in.
    pub fn open_plot_dialog(&mut self, fresh: PlotDialog, data_centre: Option<Point3>)
        ensures
            *final(self) == (App { plot: final(self).plot, ..*old(self) }),
            final(self).plot.dialog matches Some(shown) && dialog_filled(
                match old(self).plot.dialog {
                    Some(d) => d,
                    None => fresh,
                },
                active_path(*old(self)),
                data_centre,
                shown,
            ),
    {
        let path = match self.workspace.active_project() {
            Some(p) => copy_text(&p.path),
            None => None,
        };
        let mut dialog = match self.plot.dialog.take() {
            Some(d) => d,
            None => fresh,
        };
        dialog.fill(&path, data_centre);
        self.plot.dialog = Some(dialog);
    }

    /// Takes over a scale at which everything visible fits. `scale` is that
    /// scale, or why there is none.
    pub fn fit_plot_scale_to_data(&mut self, scale: Result<u64, AppError>) -> (r: Result<(), AppError>)
        ensures
            match (old(self).plot.dialog, scale) {
                (None, _) => r is Ok && *final(self) == *old(self),
                (Some(_), Err(e)) => r == Err::<(), AppError>(e) && *final(self) == *old(self),
                (Some(dialog), Ok(s)) => {
                    &&& r is Ok
                    &&& *final(self) == (App {
                        plot: Plot { dialog: Some(PlotDialog { scale: s, centre: PlotCentre::AllData, ..dialog }) },
                        frame: old(self).frame.redraw(),
                        ..*old(self)
                    })
                },
            },
    {
        if self.plot.dialog.is_none() {
            return Ok(());
        }
        let s: u64 = match scale {
            Ok(s) => s,
            Err(e) => {
                return Err(e);
            },
        };
        match self.plot.dialog.take() {
            Some(mut dialog) => {
                dialog.scale = s;
                dialog.centre = PlotCentre::AllData;
                self.plot.dialog = Some(dialog);
            },
            None => {},
        }
        self.frame.redraw_requested = true;
        Ok(())
    }

    /// Draws a sheet.
    pub fn write_plot_sheet(&mut self, target: PlotTarget, facts: PlotFacts) -> (r: Result<(), AppError>)
        requires
            old(self).jobs.next_ticket < u64::MAX,
        ensures
            sheet_written(*old(self), target, facts, r, *final(self)),
    {
        let centre = match &self.plot.dialog {
            None => {
                return Err(AppError::DialogClosed);
            },
            Some(dialog) => plot_centre(dialog, facts),
        };
        let layout: u64 = match facts.layout {
            Some(layout) => layout,
            None => {
                return Err(AppError::LayoutRefused);
            },
        };
        let centre: Point3 = match centre {
            Ok(c) => c,
            Err(e) => {
                return Err(e);
            },
        };
        if facts.view_centre.is_none() {
            return Err(AppError::RendererMissing);
        }
        if !facts.captured {
            return Err(AppError::CaptureFailed);
        }
        let sheet = PlotSheet { legend: self.plot_legend_entries(), layout, centre, target };
        self.plot = Plot { dialog: None };
        self.frame.redraw_requested = true;
        if self.platform == Platform::Native {
            self.spawn_job("Composing engineering drawing…".to_owned(), one_key(JobKey::Anonymous), Work::ComposeSheet(sheet));
        } else {
            self.files.requests.push(Request::ComposeSheet(sheet));
            assert(self.files.requests@.drop_last() =~= old(self).files.requests@);
        }
        Ok(())
    }

    /// Asks where a sheet goes, once its settings are known to be good.
    pub fn choose_plot_sheet_destination(&mut self, facts: PlotFacts) -> (r: Result<(), AppError>)
        requires
            old(self).jobs.next_ticket < u64::MAX,
        ensures
            sheet_destination_asked(*old(self), facts, r, *final(self)),
    {
        let file_name = match &self.plot.dialog {
            None => {
                return Err(AppError::DialogClosed);
            },
            Some(dialog) => plot_file_name(dialog),
        };
        if facts.layout.is_none() {
            return Err(AppError::LayoutRefused);
        }
        if self.platform == Platform::Browser {
            let r = self.write_plot_sheet(PlotTarget::Browser(file_name), facts);
            assert(sheet_written(*old(self), PlotTarget::Browser(file_name), facts, r, *self));
            r
        } else {
            self.files.dialogs.push(DialogRequest::ExportPlotSheet { file_name });
            assert(self.files.dialogs@.drop_last() =~= old(self).files.dialogs@);
            Ok(())
        }
    }
}

} // verus!
