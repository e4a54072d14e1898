//! Names, paths and numbers as text, and the sheets that are plotted.

use crate::commands::plot::{
    dialog_filled, layer_rows, legend, plot_stem, sheet_centre, sheet_refused, sheet_written, surface_rows, PlotDialog, PlotFacts, PlotTarget,
};
use crate::document::Layer;
use crate::error::AppError;
use crate::files::Request;
use crate::fresh::{hex_char, hex_digit, hyphenated};
use crate::ids::SceneEntityId;
use crate::ieee::{f64_equal, Point3};
use crate::items::OpenTriangulation;
use crate::jobs::Work;
use crate::names::{
    ascii_alphanumeric, cleaned, drawing_chars, drawing_stem, ends_in_lower_omf, export_stem, file_stem_for, invalid_in_file_name, numbered,
    plain_ascii, recovery_name, recovery_stem, unscored, unscored_end, unscored_start,
};
use crate::state::{App, Platform};
use crate::text::{
    completed, decimal_digits, extension_of, file_part, known_path, last_dot, last_slash, stem_of, trimmed, trimmed_end, trimmed_start, white,
};
use vstd::prelude::*;

verus! {

/// A text is cut out of another: so many characters are left out before it.
pub open spec fn cut_out(s: Seq<char>, r: Seq<char>, from: int) -> bool {
    0 <= from && from + r.len() <= s.len() && r == s.subrange(from, from + r.len())
}

proof fn lemma_trimmed_start(s: Seq<char>)
    ensures
        trimmed_start(s).len() <= s.len(),
        trimmed_start(s) == s.skip(s.len() - trimmed_start(s).len()),
        forall|i: int| 0 <= i < s.len() - trimmed_start(s).len() ==> white(#[trigger] s[i]),
        trimmed_start(s).len() > 0 ==> !white(trimmed_start(s)[0]),
    decreases s.len(),
{
    if s.len() > 0 && white(s[0]) {
        let rest = s.drop_first();
        lemma_trimmed_start(rest);
        let r = trimmed_start(s);
        assert(r =~= s.skip(s.len() - r.len()));
        assert forall|i: int| 0 <= i < s.len() - r.len() implies white(#[trigger] s[i]) by {
            if i > 0 {
                assert(rest[i - 1] == s[i]);
            }
        }
    } else {
        assert(s.skip(0) =~= s);
    }
}

proof fn lemma_trimmed_end(s: Seq<char>)
    ensures
        trimmed_end(s).len() <= s.len(),
        trimmed_end(s) == s.take(trimmed_end(s).len() as int),
        forall|i: int| trimmed_end(s).len() <= i < s.len() ==> white(#[trigger] s[i]),
        trimmed_end(s).len() > 0 ==> !white(trimmed_end(s).last()),
    decreases s.len(),
{
    if s.len() > 0 && white(s.last()) {
        let front = s.drop_last();
        lemma_trimmed_end(front);
        let r = trimmed_end(s);
        assert(r =~= s.take(r.len() as int));
        assert forall|i: int| r.len() <= i < s.len() implies white(#[trigger] s[i]) by {
            if i < s.len() - 1 {
                assert(front[i] == s[i]);
            }
        }
    } else {
        assert(s.take(s.len() as int) =~= s);
    }
}

/// Trimming a text takes white characters off its ends and nothing else.
pub proof fn law_trimming(s: Seq<char>)
    ensures
        exists|from: int|
            #[trigger] cut_out(s, trimmed(s), from) && (forall|i: int| 0 <= i < from ==> white(#[trigger] s[i])) && (forall|i: int|
                from + trimmed(s).len() <= i < s.len() ==> white(#[trigger] s[i])),
        trimmed(s).len() > 0 ==> !white(trimmed(s)[0]) && !white(trimmed(s).last()),
{
    lemma_trimmed_start(s);
    let mid = trimmed_start(s);
    lemma_trimmed_end(mid);
    let r = trimmed(s);
    let from = s.len() - mid.len();
    assert(r =~= s.subrange(from, from + r.len()));
    assert(cut_out(s, r, from));
    assert forall|i: int| from + r.len() <= i < s.len() implies white(#[trigger] s[i]) by {
        assert(mid[i - from] == s[i]);
    }
    if r.len() > 0 {
        assert(r[0] == mid[0]);
    }
}

/// Of the plain characters, the white ones are blanks, tabs and line ends.
pub proof fn law_white_characters(c: char)
    ensures
        (c as u32) < 128 ==> (white(c) <==> c == ' ' || (0x9 <= c as u32 && c as u32 <= 0xd)),
        ascii_alphanumeric(c) ==> !white(c),
{
}

/// What the digits of a text say.
pub open spec fn said(s: Seq<char>) -> int
    decreases s.len(),
{
    if s.len() == 0 {
        0
    } else {
        10 * said(s.drop_last()) + (s.last() as int - '0' as int)
    }
}

/// The digits of a number say it, and none of them is idle.
pub proof fn law_digits_say_the_number(n: nat)
    ensures
        said(decimal_digits(n)) == n,
        decimal_digits(n).len() > 0,
        forall|i: int| 0 <= i < decimal_digits(n).len() ==> '0' <= #[trigger] decimal_digits(n)[i] && decimal_digits(n)[i] <= '9',
        n > 0 ==> decimal_digits(n)[0] != '0',
        n == 0 ==> decimal_digits(n).len() == 1,
    decreases n,
{
    let s = decimal_digits(n);
    if n < 10 {
        assert(s.drop_last() =~= Seq::<char>::empty());
        assert(said(s.drop_last()) == 0);
    } else {
        law_digits_say_the_number(n / 10);
        assert(s.drop_last() =~= decimal_digits(n / 10));
    }
}

/// The file part of a path is what stands behind its last slash.
pub proof fn law_file_part(path: Seq<char>)
    ensures
        file_part(path).len() <= path.len(),
        file_part(path) == path.skip(path.len() - file_part(path).len()),
        forall|i: int| 0 <= i < file_part(path).len() ==> #[trigger] file_part(path)[i] != '/',
        file_part(path).len() < path.len() ==> path[path.len() - file_part(path).len() - 1] == '/',
{
    lemma_last_slash(path);
    let at = last_slash(path);
    let r = file_part(path);
    assert forall|i: int| 0 <= i < r.len() implies #[trigger] r[i] != '/' by {
        assert(path[at + 1 + i] != '/');
    }
}

proof fn lemma_last_slash(s: Seq<char>)
    ensures
        -1 <= last_slash(s) < s.len(),
        last_slash(s) >= 0 ==> s[last_slash(s)] == '/',
        forall|i: int| last_slash(s) < i < s.len() ==> #[trigger] s[i] != '/',
    decreases s.len(),
{
    if s.len() > 0 && s.last() != '/' {
        let front = s.drop_last();
        lemma_last_slash(front);
        assert forall|i: int| last_slash(s) < i < s.len() implies #[trigger] s[i] != '/' by {
            if i < s.len() - 1 {
                assert(front[i] == s[i]);
            }
        }
    }
}

proof fn lemma_last_dot(s: Seq<char>)
    ensures
        -1 <= last_dot(s) < s.len(),
        last_dot(s) >= 0 ==> s[last_dot(s)] == '.',
        forall|i: int| last_dot(s) < i < s.len() ==> #[trigger] s[i] != '.',
    decreases s.len(),
{
    if s.len() > 0 && s.last() != '.' {
        let front = s.drop_last();
        lemma_last_dot(front);
        assert forall|i: int| last_dot(s) < i < s.len() implies #[trigger] s[i] != '.' by {
            if i < s.len() - 1 {
                assert(front[i] == s[i]);
            }
        }
    }
}

/// A file name is its stem, a dot and its extension; a name without a dot, or
/// with none but the first character, is all stem.
pub proof fn law_stem_and_extension(s: Seq<char>)
    ensures
        extension_of(s) matches Some(e) ==> s == stem_of(s) + seq!['.'] + e && stem_of(s).len() > 0 && forall|i: int| 0 <= i < e.len() ==> #[trigger] e[i] != '.',
        extension_of(s) is None ==> stem_of(s) == s && forall|i: int| 1 <= i < s.len() ==> #[trigger] s[i] != '.',
{
    lemma_last_dot(s);
    let at = last_dot(s);
    if at > 0 {
        let e = s.skip(at + 1);
        assert(s =~= s.take(at) + seq!['.'] + e);
        assert forall|i: int| 0 <= i < e.len() implies #[trigger] e[i] != '.' by {
            assert(s[at + 1 + i] != '.');
        }
    }
}

/// Cleaning a name puts a score in the place of each character that a file
/// name cannot hold and leaves the others.
pub proof fn law_cleaned_names(s: Seq<char>, i: int)
    requires
        0 <= i < s.len(),
    ensures
        cleaned(s).len() == s.len(),
        cleaned(s)[i] == if s[i] == '/' || s[i] == '\\' || s[i] == ':' || s[i] == '*' || s[i] == '?' || s[i] == '"' || s[i] == '<' || s[i] == '>' || s[i] == '|' {
            '_'
        } else {
            s[i]
        },
        plain_ascii(s).len() == s.len(),
        plain_ascii(s)[i] == if ascii_alphanumeric(s[i]) || s[i] == '-' {
            s[i]
        } else {
            '_'
        },
        drawing_chars(s).len() == s.len(),
        'a' <= s[i] && s[i] <= 'z' ==> drawing_chars(s)[i] == s[i],
        '0' <= s[i] && s[i] <= '9' ==> drawing_chars(s)[i] == s[i],
        s[i] == ' ' || s[i] == '/' || s[i] == '.' || s[i] == '-' || s[i] == '_' ==> drawing_chars(s)[i] == '_',
{
}

/// A stem that a file name can hold and that has no white ends stays as it is.
pub proof fn law_good_stems_stay(name: Seq<char>)
    requires
        name.len() > 0,
        !white(name[0]) && !white(name.last()),
        forall|i: int| 0 <= i < name.len() ==> !invalid_in_file_name(#[trigger] name[i]),
    ensures
        file_stem_for(name) == name,
{
    lemma_trim_nothing(name);
    assert(cleaned(name) =~= name);
}

proof fn lemma_trim_nothing(s: Seq<char>)
    requires
        s.len() > 0,
        !white(s[0]) && !white(s.last()),
    ensures
        trimmed(s) == s,
{
}

proof fn lemma_unscored_start(s: Seq<char>)
    ensures
        unscored_start(s).len() <= s.len(),
        unscored_start(s) == s.skip(s.len() - unscored_start(s).len()),
        forall|i: int| 0 <= i < s.len() - unscored_start(s).len() ==> #[trigger] s[i] == '_',
        unscored_start(s).len() > 0 ==> unscored_start(s)[0] != '_',
    decreases s.len(),
{
    if s.len() > 0 && s[0] == '_' {
        let rest = s.drop_first();
        lemma_unscored_start(rest);
        let r = unscored_start(s);
        assert(r =~= s.skip(s.len() - r.len()));
        assert forall|i: int| 0 <= i < s.len() - r.len() implies #[trigger] s[i] == '_' by {
            if i > 0 {
                assert(rest[i - 1] == s[i]);
            }
        }
    } else {
        assert(s.skip(0) =~= s);
    }
}

proof fn lemma_unscored_end(s: Seq<char>)
    ensures
        unscored_end(s).len() <= s.len(),
        unscored_end(s) == s.take(unscored_end(s).len() as int),
        forall|i: int| unscored_end(s).len() <= i < s.len() ==> #[trigger] s[i] == '_',
        unscored_end(s).len() > 0 ==> unscored_end(s).last() != '_',
    decreases s.len(),
{
    if s.len() > 0 && s.last() == '_' {
        let front = s.drop_last();
        lemma_unscored_end(front);
        let r = unscored_end(s);
        assert(r =~= s.take(r.len() as int));
        assert forall|i: int| r.len() <= i < s.len() implies #[trigger] s[i] == '_' by {
            if i < s.len() - 1 {
                assert(front[i] == s[i]);
            }
        }
    } else {
        assert(s.take(s.len() as int) =~= s);
    }
}

/// Taking scores off the ends of a name takes nothing else.
pub proof fn law_scores_are_taken_off(s: Seq<char>)
    ensures
        exists|from: int|
            #[trigger] cut_out(s, unscored(s), from) && (forall|i: int| 0 <= i < from ==> #[trigger] s[i] == '_') && (forall|i: int|
                from + unscored(s).len() <= i < s.len() ==> #[trigger] s[i] == '_'),
        unscored(s).len() > 0 ==> unscored(s)[0] != '_' && unscored(s).last() != '_',
{
    lemma_unscored_start(s);
    let mid = unscored_start(s);
    lemma_unscored_end(mid);
    let r = unscored(s);
    let from = s.len() - mid.len();
    assert(r =~= s.subrange(from, from + r.len()));
    assert(cut_out(s, r, from));
    assert forall|i: int| from + r.len() <= i < s.len() implies #[trigger] s[i] == '_' by {
        assert(mid[i - from] == s[i]);
    }
    if r.len() > 0 {
        assert(r[0] == mid[0]);
    }
}

/// The stem of an export and of a drawing is the name in plain characters,
/// without scores at its ends, wherever something of it is left.
pub proof fn law_stems_of_names(name: Seq<char>)
    ensures
        unscored(plain_ascii(name)).len() > 0 ==> export_stem(name) == unscored(plain_ascii(name)),
        unscored(drawing_chars(name)).len() > 0 ==> drawing_stem(name) == unscored(drawing_chars(name)),
        export_stem(name).len() > 0 && drawing_stem(name).len() > 0,
{
    reveal_strlit("Plot");
    reveal_strlit("incline_design_project");
}

/// A numbered name is the name, a blank and the number.
pub proof fn law_numbered_names(name: Seq<char>, k: nat)
    ensures
        numbered(name, k as int).take(name.len() as int) == name,
        numbered(name, k as int)[name.len() as int] == ' ',
        said(numbered(name, k as int).skip(name.len() as int + 1)) == k,
{
    law_digits_say_the_number(k);
    let s = numbered(name, k as int);
    assert(s.take(name.len() as int) =~= name);
    assert(s.skip(name.len() as int + 1) =~= decimal_digits(k));
}

/// The name of a recovery copy starts with that of the project without its
/// ending, and ends as that of a project file.
pub proof fn law_recovery_names(name: Seq<char>, seconds: u64, runtime_id: u32)
    ensures
        recovery_stem(name) == crate::commands::saves::without_lower_omf(name),
        recovery_name(name, seconds, runtime_id).take(recovery_stem(name).len() as int) == recovery_stem(name),
        ends_in_lower_omf(recovery_name(name, seconds, runtime_id)),
{
    reveal_strlit(".recovery.omf");
    lemma_recovery_stem(name);
    let s = recovery_name(name, seconds, runtime_id);
    assert(s.take(recovery_stem(name).len() as int) =~= recovery_stem(name));
}

proof fn lemma_recovery_stem(name: Seq<char>)
    ensures
        recovery_stem(name) == crate::commands::saves::without_lower_omf(name),
    decreases name.len(),
{
    if ends_in_lower_omf(name) {
        lemma_recovery_stem(name.take(name.len() - 4));
    }
}

/// A fresh id is written as its digits in order, in groups of 8, 4, 4, 4 and
/// 12.
pub proof fn law_written_ids(n: u128, i: int)
    requires
        0 <= i < 32,
    ensures
        hyphenated(n).len() == 36,
        hyphenated(n)[8] == '-' && hyphenated(n)[13] == '-' && hyphenated(n)[18] == '-' && hyphenated(n)[23] == '-',
        ({
            let at = i + (if i >= 8 {
                1int
            } else {
                0
            }) + (if i >= 12 {
                1int
            } else {
                0
            }) + (if i >= 16 {
                1int
            } else {
                0
            }) + (if i >= 20 {
                1int
            } else {
                0
            });
            hyphenated(n)[at] == hex_char(hex_digit(n, i))
        }),
{
}

/// A digit to the base of sixteen is written by one character of its own.
pub proof fn law_hex_digits(a: int, b: int)
    requires
        0 <= a < 16,
        0 <= b < 16,
    ensures
        hex_char(a) == hex_char(b) <==> a == b,
        a < 10 ==> hex_char(a) as int == '0' as int + a,
        a >= 10 ==> hex_char(a) as int == 'a' as int + a - 10,
{
}

/// The rows of a legend are taken one by one: of surfaces that are loaded and
/// not hidden, and of layers that are loaded, each with its name and colour.
pub proof fn law_rows_of_a_legend(s: Seq<OpenTriangulation>, hidden: Set<SceneEntityId>, t: OpenTriangulation, layers: Seq<Layer>, l: Layer)
    ensures
        surface_rows(Seq::empty(), hidden).len() == 0,
        surface_rows(s.push(t), hidden) == if t.state.loaded && !hidden.contains(SceneEntityId::Triangulation(t.id)) {
            surface_rows(s, hidden).push((t.name@, t.color))
        } else {
            surface_rows(s, hidden)
        },
        layer_rows(Seq::empty()).len() == 0,
        layer_rows(layers.push(l)) == if l.loaded {
            layer_rows(layers).push((l.name@, l.color))
        } else {
            layer_rows(layers)
        },
{
    assert(s.push(t).drop_last() =~= s);
    assert(layers.push(l).drop_last() =~= layers);
}

/// A legend holds the rows of surfaces and then of layers, as many as it may.
pub proof fn law_legend(app: App, k: int)
    requires
        0 <= k < legend(app).len(),
    ensures
        ({
            let surfaces = surface_rows(app.items.triangulations@, app.visibility.hidden@);
            let layers = match app.workspace.active() {
                Some(p) => layer_rows(p.document.layers@),
                None => Seq::empty(),
            };
            &&& k < surfaces.len() ==> legend(app)[k] == surfaces[k]
            &&& k >= surfaces.len() ==> legend(app)[k] == layers[k - surfaces.len()]
            &&& surfaces.len() + layers.len() > 12 ==> legend(app).len() == 12
            &&& surfaces.len() + layers.len() <= 12 ==> legend(app).len() == surfaces.len() + layers.len()
        }),
{
}

/// A sheet is named by its number, or else by its title.
pub proof fn law_sheet_names(dialog: PlotDialog)
    ensures
        trimmed(dialog.drawing_number@).len() > 0 ==> plot_stem(dialog) == drawing_stem(trimmed(dialog.drawing_number@)),
        trimmed(dialog.drawing_number@).len() == 0 && trimmed(dialog.title@).len() > 0 ==> plot_stem(dialog) == drawing_stem(trimmed(dialog.title@)),
{
}

/// A sheet is centred where it is told to be: at the point given, on the view,
/// or on the data; without that it cannot be made.
pub proof fn law_sheet_centres(dialog: PlotDialog, facts: PlotFacts)
    ensures
        dialog.centre is Explicit ==> (sheet_centre(dialog, facts) matches Ok(c) && c.x == dialog.centre_east && c.y == dialog.centre_north && (facts.data_centre matches Some(
            d,
        ) ==> c.z == d.z) && (facts.data_centre is None ==> c.z == 0)),
        dialog.centre is CurrentView ==> (facts.view_centre matches Some(c) ==> sheet_centre(dialog, facts) == Ok::<Point3, AppError>(c)) && (facts.view_centre is None
            ==> sheet_centre(dialog, facts) == Err::<Point3, AppError>(AppError::RendererMissing)),
        dialog.centre is AllData ==> (facts.data_centre matches Some(c) ==> sheet_centre(dialog, facts) == Ok::<Point3, AppError>(c)) && (facts.data_centre is None
            ==> sheet_centre(dialog, facts) == Err::<Point3, AppError>(AppError::NothingVisible)),
{
}

/// A sheet is made where its dialog is open, its layout stands, its centre is
/// known and its picture was taken.
pub proof fn law_which_sheets_are_made(app: App, facts: PlotFacts)
    ensures
        sheet_refused(app, facts) is None <==> (app.plot.dialog matches Some(dialog) && facts.layout is Some && sheet_centre(dialog, facts) is Ok
            && facts.view_centre is Some && facts.captured),
        app.plot.dialog is None ==> sheet_refused(app, facts) == Some(AppError::DialogClosed),
{
}

/// An opened plot dialog keeps what was filled in and fills in the rest; its
/// centre is that of the data where none was given.
pub proof fn law_plot_dialog(from: PlotDialog, path: Option<Seq<char>>, data_centre: Option<Point3>, post: PlotDialog)
    requires
        dialog_filled(from, path, data_centre, post),
    ensures
        post.title == from.title && post.drawing_number == from.drawing_number && post.centre == from.centre,
        !f64_equal(from.centre_east, 0) || !f64_equal(from.centre_north, 0) || data_centre is None ==> post.centre_east == from.centre_east
            && post.centre_north == from.centre_north,
        f64_equal(from.centre_east, 0) && f64_equal(from.centre_north, 0) && data_centre is Some ==> post.centre_east == data_centre->0.x && post.centre_north
            == data_centre->0.y,
        trimmed(from.date@).len() > 0 ==> post.date == from.date,
        trimmed(from.project_name@).len() > 0 ==> post.project_name == from.project_name,
{
}

/// A sheet is composed with the legend of what is shown, in the layout and
/// around the centre that were told, for the place that was chosen; its dialog
/// is closed then.
pub proof fn law_composed_sheets(pre: App, target: PlotTarget, facts: PlotFacts, r: Result<(), AppError>, post: App)
    requires
        sheet_written(pre, target, facts, r, post),
    ensures
        r is Ok <==> sheet_refused(pre, facts) is None,
        r is Err ==> post == pre,
        r is Ok ==> post.plot.dialog is None,
        r is Ok && pre.platform == Platform::Native ==> (post.jobs.pending@.last().work matches Work::ComposeSheet(sheet) && sheet.target == target
            && facts.layout == Some(sheet.layout) && sheet_centre(pre.plot.dialog->0, facts) == Ok::<Point3, AppError>(sheet.centre) && sheet.legend@.len() == legend(
            pre,
        ).len() && forall|k: int| 0 <= k < sheet.legend@.len() ==> (#[trigger] sheet.legend@[k]).label@ == legend(pre)[k].0 && sheet.legend@[k].color == legend(pre)[k].1)
            && post.jobs.pending@.len() == pre.jobs.pending@.len() + 1,
        r is Ok && pre.platform == Platform::Browser ==> (post.files.requests@.last() matches Request::ComposeSheet(sheet) && sheet.target == target
            && facts.layout == Some(sheet.layout) && sheet_centre(pre.plot.dialog->0, facts) == Ok::<Point3, AppError>(sheet.centre) && sheet.legend@.len() == legend(
            pre,
        ).len()),
        post.items == pre.items && post.workspace == pre.workspace,
{
    if r is Ok {
        let sheet = if pre.platform == Platform::Native {
            post.jobs.pending@.last().work->ComposeSheet_0
        } else {
            post.files.requests@.last()->ComposeSheet_0
        };
        let rows = crate::commands::plot::legend_model(sheet.legend@);
        assert(rows.len() == sheet.legend@.len());
        assert forall|k: int| 0 <= k < sheet.legend@.len() implies (#[trigger] sheet.legend@[k]).label@ == legend(pre)[k].0 && sheet.legend@[k].color == legend(pre)[k].1 by {
            assert(rows[k] == (sheet.legend@[k].label@, sheet.legend@[k].color));
        }
    }
}

/// A path that was chosen without an ending gets the one of its kind; one that
/// has an ending keeps it.
pub proof fn law_completed_paths(path: Seq<char>, extension: Seq<char>, r: Seq<char>)
    requires
        completed(path, extension, r),
        known_path(path),
    ensures
        extension_of(file_part(path)) is Some ==> r == path,
        extension_of(file_part(path)) is None ==> r.len() == path.len() + 1 + extension.len() && r.take(path.len() as int) == path && r[path.len() as int] == '.'
            && r.skip(path.len() as int + 1) == extension,
{
    if extension_of(file_part(path)) is None {
        reveal_strlit(".");
        assert(r.take(path.len() as int) =~= path);
        assert(r.skip(path.len() as int + 1) =~= extension);
    }
}

} // verus!
