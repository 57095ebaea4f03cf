//! Project files, drawings and floor-plan files.

use crate::models::Floor;
use crate::models::Project;
use crate::names;
use crate::text;
use crate::window;
use crate::window::floors;
use crate::window::AppState;
use crate::window::Dialog;
use vstd::prelude::*;
use vstd::string::StringExecFns;

verus! {

// ── Floor-plan files ───────────────────────────────────────────────────────

/// What `str::to_lowercase` makes of a text.
pub uninterp spec fn lower_case(s: Seq<char>) -> Seq<char>;

/// `str::to_lowercase`: the text in lower case, by Unicode's rules. The rules
/// themselves are left unsaid.
pub assume_specification[ str::to_lowercase ](s: &str) -> (r: String)
    ensures
        r@ == lower_case(s@),
;

/// A file name in lower case that ends like a PDF's.
pub open spec fn is_pdf_name(lower: Seq<char>) -> bool {
    text::ends_with(lower, ".pdf"@)
}

/// Whether a file name in lower case ends like a PDF's.
pub fn has_pdf_ending(lower: &str) -> (r: bool)
    ensures
        r == is_pdf_name(lower@),
{
    text::has_suffix(lower, ".pdf")
}

/// Whether a file is a PDF, by its name.
pub fn is_pdf(path: &str) -> (r: bool)
    ensures
        r == is_pdf_name(lower_case(path@)),
{
    let lower = path.to_lowercase();
    has_pdf_ending(lower.as_str())
}

/// What follows the choice of a PDF.
pub enum PdfStep {
    /// It could not be opened.
    Failed,
    /// It has one page at most: use the first.
    ImportFirst,
    /// Ask for the page, with this text.
    Pick(String),
}

/// A PDF was opened and has this many pages; `None` when it could not be
/// opened.
pub fn pdf_opened(n_pages: Option<usize>) -> (r: PdfStep)
    ensures
        match n_pages {
            Some(n) => if n <= 1 {
                r is ImportFirst
            } else {
                r matches PdfStep::Pick(t) && t@ == "This PDF has "@ + text::dec(n as nat)
                    + " pages.\nSelect which page to use as floor plan:"@
            },
            None => r is Failed,
        },
{
    match n_pages {
        Some(n) => if n <= 1 {
            PdfStep::ImportFirst
        } else {
            let mut s = "This PDF has ".to_owned();
            text::push_dec(&mut s, n as u64);
            s.append(" pages.\nSelect which page to use as floor plan:");
            PdfStep::Pick(s)
        },
        None => PdfStep::Failed,
    }
}

/// The index of the page with a number; pages are numbered from 1.
pub fn page_index(number: u32) -> (r: u32)
    ensures
        r == (if number == 0 {
            0
        } else {
            number - 1
        }),
{
    if number == 0 {
        0
    } else {
        number - 1
    }
}

// ── Drawings ───────────────────────────────────────────────────────────────

/// The name of a floor's drawing file in its project's drawings directory.
pub open spec fn drawing_name(index: nat) -> Seq<char> {
    "floor_"@ + text::dec(index) + ".png"@
}

/// The name of a floor's drawing file in its project's drawings directory.
pub fn drawing_file_name(index: usize) -> (r: String)
    ensures
        r@ == drawing_name(index as nat),
{
    let mut s = "floor_".to_owned();
    text::push_dec(&mut s, index as u64);
    s.append(".png");
    s
}

/// What to do with a floor's drawing so that it lies in its project's drawings
/// directory.
#[derive(Debug, Clone, Copy, PartialEq, Eq, Structural)]
pub enum DrawingStep {
    /// There is no drawing, or its file is gone: leave the reference as it is.
    Leave,
    /// Its file is the floor's file in the directory already: refer to it.
    Refer,
    /// Copy it to the floor's file in the directory, and refer to the copy if
    /// that succeeds.
    Copy,
}

/// What to do with a floor's drawing, given whether it has one, whether its
/// file exists, and whether that is the floor's own file.
pub open spec fn step_for(has_drawing: bool, exists_file: bool, is_target: bool) -> DrawingStep {
    if !has_drawing || !exists_file {
        DrawingStep::Leave
    } else if is_target {
        DrawingStep::Refer
    } else {
        DrawingStep::Copy
    }
}

/// The drawing lies in the floor's own file after a step.
pub open spec fn is_in_place(step: DrawingStep, copied: bool) -> bool {
    match step {
        DrawingStep::Leave => false,
        DrawingStep::Refer => true,
        DrawingStep::Copy => copied,
    }
}

/// A drawing ends up in the floor's own file exactly if there is one to store
/// and it is there already or is copied; a file is copied only if it is another
/// one.
pub proof fn law_drawings_are_stored(has_drawing: bool, exists_file: bool, is_target: bool, copied: bool)
    ensures
        is_in_place(step_for(has_drawing, exists_file, is_target), copied) <==> has_drawing
            && exists_file && (is_target || copied),
        step_for(has_drawing, exists_file, is_target) is Copy ==> !is_target,
{
}

/// What to do with a floor's drawing: whether it has one, whether its file
/// exists, and whether that file is the floor's own file in the directory. Any
/// other file is copied, also one that lies in the directory under the name of
/// another floor.
pub fn drawing_step(has_drawing: bool, exists: bool, is_target: bool) -> (r: DrawingStep)
    ensures
        r == (if !has_drawing || !exists {
            DrawingStep::Leave
        } else if is_target {
            DrawingStep::Refer
        } else {
            DrawingStep::Copy
        }),
        r == step_for(has_drawing, exists, is_target),
{
    if !has_drawing || !exists {
        DrawingStep::Leave
    } else if is_target {
        DrawingStep::Refer
    } else {
        DrawingStep::Copy
    }
}

/// Whether the drawing is the floor's file in the directory after a step, given
/// whether a copy succeeded.
pub fn is_stored(step: DrawingStep, copied: bool) -> (r: bool)
    ensures
        r == (step == DrawingStep::Refer || (step == DrawingStep::Copy && copied)),
        r == is_in_place(step, copied),
{
    match step {
        DrawingStep::Leave => false,
        DrawingStep::Refer => true,
        DrawingStep::Copy => copied,
    }
}

/// A floor whose drawing, if it has one, is now stored in a file.
pub open spec fn relocated(floor: Floor, stored: Option<String>) -> Floor {
    if floor.drawing_path is Some && stored is Some {
        Floor { drawing_path: stored, ..floor }
    } else {
        floor
    }
}

/// Floors whose drawings are now stored in files.
pub open spec fn relocated_all(floors: Seq<Floor>, stored: Seq<Option<String>>) -> Seq<Floor> {
    Seq::new(floors.len(), |i: int| relocated(floors[i], stored[i]))
}

/// Make the floors refer to their drawings where these are now stored (one
/// place for each floor; `None` leaves the reference as it is). This lets a
/// project file and its drawings travel together.
pub fn independent_project_copy(project: &mut Project, stored: &Vec<Option<String>>)
    requires
        stored@.len() == old(project).floors@.len(),
    ensures
        final(project).floors@ == relocated_all(old(project).floors@, stored@),
        *final(project) == (Project { floors: final(project).floors, ..*old(project) }),
{
    let n: usize = project.floors.len();
    let ghost before = project.floors@;
    for i in 0..n
        invariant
            n == project.floors@.len(),
            n == before.len(),
            n == stored@.len(),
            forall|k: int|
                0 <= k < i ==> #[trigger] project.floors@[k] == relocated(before[k], stored@[k]),
            forall|k: int| i <= k < n ==> #[trigger] project.floors@[k] == before[k],
            *project == (Project { floors: project.floors, ..*old(project) }),
    {
        if let Some(path) = &stored[i] {
            if project.floors[i].drawing_path.is_some() {
                project.floors[i].drawing_path = Some(path.clone());
            }
        }
    }
    assert(project.floors@ =~= relocated_all(before, stored@));
}

/// Storing the drawings a second time in the same places changes nothing; a
/// floor without a drawing, or whose drawing could not be stored, is not
/// touched at all; and nothing but the reference ever changes.
pub proof fn law_relocation(floors: Seq<Floor>, stored: Seq<Option<String>>, i: int)
    requires
        stored.len() == floors.len(),
        0 <= i < floors.len(),
    ensures
        relocated_all(relocated_all(floors, stored), stored) == relocated_all(floors, stored),
        floors[i].drawing_path is None || stored[i] is None ==> relocated_all(floors, stored)[i]
            == floors[i],
        floors[i].drawing_path is Some && stored[i] is Some ==> relocated_all(
            floors,
            stored,
        )[i].drawing_path == stored[i],
        relocated_all(floors, stored)[i] == (Floor {
            drawing_path: relocated_all(floors, stored)[i].drawing_path,
            ..floors[i]
        }),
{
    assert(relocated_all(relocated_all(floors, stored), stored) =~= relocated_all(floors, stored));
}

/// The drawings of different floors have different names.
pub proof fn law_drawing_names_differ(a: nat, b: nat)
    requires
        a != b,
    ensures
        drawing_name(a) != drawing_name(b),
{
    reveal_strlit("floor_");
    reveal_strlit(".png");
    let x = drawing_name(a);
    let y = drawing_name(b);
    if x == y {
        assert(x.subrange(6, x.len() - 4) =~= text::dec(a));
        assert(y.subrange(6, y.len() - 4) =~= text::dec(b));
        text::lemma_dec_injective(a, b);
    }
}

// ── Project files ──────────────────────────────────────────────────────────

/// The file name under which to save a project, where the chosen one (of which
/// the extension and the name are given) has to be changed: it gets the
/// extension `json` unless it has it.
pub fn project_file_name(extension: Option<&str>, file_name: Option<&str>) -> (r: Option<String>)
    ensures
        r is None <==> (extension matches Some(e) && e@ == "json"@),
        r matches Some(name) ==> name@ == (match file_name {
            Some(n) => n@,
            None => "project"@,
        }) + ".json"@,
{
    if let Some(e) = extension {
        if text::str_eq(e, "json") {
            return None;
        }
    }
    let mut s = match file_name {
        Some(n) => n.to_owned(),
        None => "project".to_owned(),
    };
    s.append(".json");
    Some(s)
}

/// Give a project its first floor, if it has none.
pub fn ensure_floor(project: &mut Project)
    ensures
        old(project).floors@.len() > 0 ==> *final(project) == *old(project),
        old(project).floors@.len() == 0 ==> final(project).floors@.len() == 1
            && floors::is_new_floor(final(project).floors@[0], "Floor 1"@),
        *final(project) == (Project { floors: final(project).floors, ..*old(project) }),
{
    if project.floors.len() == 0 {
        project.add_floor(Floor::new("Floor 1"));
    }
}

/// The project of a first start.
pub fn first_project() -> (r: Project)
    ensures
        r.name@ == "My Project"@,
        r.floors@.len() == 0,
        r.bssid_aliases@ == Map::<Seq<char>, String>::empty(),
{
    Project::new("My Project")
}

/// A new project with one empty floor.
pub fn new_project() -> (r: Project)
    ensures
        r.name@ == "New Project"@,
        r.floors@.len() == 1,
        floors::is_new_floor(r.floors@[0], "Floor 1"@),
        r.bssid_aliases@ == Map::<Seq<char>, String>::empty(),
{
    let mut project = Project::new("New Project");
    ensure_floor(&mut project);
    project
}

/// The name of a file for a new project: `project.json` first, then
/// `project-2.json` and so on.
pub open spec fn new_file_name(n: nat) -> Seq<char> {
    if n == 0 {
        "project.json"@
    } else {
        "project-"@ + text::dec(n + 1) + ".json"@
    }
}

/// The name of a file for a new project, to be tried in order.
pub fn new_project_file_name(n: u32) -> (r: String)
    ensures
        r@ == new_file_name(n as nat),
{
    if n == 0 {
        return "project.json".to_owned();
    }
    let mut s = "project-".to_owned();
    text::push_dec(&mut s, n as u64 + 1);
    s.append(".json");
    s
}

/// Whether a file may hold a new project: neither the file of the project that
/// it replaces nor that of an older one, which can be reopened from there.
pub fn may_hold_new_project(is_current: bool, exists: bool) -> (r: bool)
    ensures
        r == (!is_current && !exists),
{
    !is_current && !exists
}

/// The names to try for a new project differ.
pub proof fn law_new_file_names_differ(a: nat, b: nat)
    requires
        a != b,
    ensures
        new_file_name(a) != new_file_name(b),
{
    reveal_strlit("project.json");
    reveal_strlit("project-");
    reveal_strlit(".json");
    let x = new_file_name(a);
    let y = new_file_name(b);
    if x == y {
        if a == 0 || b == 0 {
            assert(x[7] == y[7]);
        } else {
            assert(x.subrange(8, x.len() - 5) =~= text::dec(a + 1));
            assert(y.subrange(8, y.len() - 5) =~= text::dec(b + 1));
            text::lemma_dec_injective(a + 1, b + 1);
        }
    }
}

/// Ask whether to start a new project.
pub fn new_project_dialog() -> (r: Dialog)
    ensures
        window::asks(
            r,
            "Start New Project"@,
            "The current project is saved at its current location and can be reopened from there.\n\nStart a new, empty project?"@,
            seq![("cancel"@, "Cancel"@), ("new"@, "New Project"@)],
        ),
{
    window::ask(
        "Start New Project",
        "The current project is saved at its current location and can be reopened from there.\n\nStart a new, empty project?".to_owned(),
        "new",
        "New Project",
    )
}

/// Replace the open project by another one, and show its first floor. A project
/// without floors gets one. Returns the project's name.
pub fn apply_project(state: &mut AppState, project: Project, project_path: String) -> (r: String)
    ensures
        r@ == project.name@,
        project.floors@.len() > 0 ==> final(state).project == project,
        project.floors@.len() == 0 ==> final(state).project.floors@.len() == 1
            && floors::is_new_floor(final(state).project.floors@[0], "Floor 1"@),
        final(state).project == (Project { floors: final(state).project.floors, ..project }),
        final(state).project_path == project_path,
        final(state).current_floor == 0,
        final(state).shows_a_floor(),
{
    let mut project = project;
    ensure_floor(&mut project);
    let name = project.name.clone();
    state.project = project;
    state.project_path = project_path;
    state.current_floor = 0;
    name
}

/// Show the floor that was shown last time, or the first one where it is gone.
/// A project without floors gets one.
pub fn restore_floor(state: &mut AppState, last_index: usize)
    ensures
        old(state).project.floors@.len() > 0 ==> final(state).project == old(state).project,
        old(state).project.floors@.len() == 0 ==> final(state).project.floors@.len() == 1
            && floors::is_new_floor(final(state).project.floors@[0], "Floor 1"@),
        final(state).current_floor == (if last_index < final(state).project.floors@.len() {
            last_index
        } else {
            0
        }),
        final(state).shows_a_floor(),
        *final(state) == (AppState {
            project: Project { floors: final(state).project.floors, ..old(state).project },
            current_floor: final(state).current_floor,
            ..*old(state)
        }),
{
    ensure_floor(&mut state.project);
    state.current_floor = if last_index < state.project.floors.len() {
        last_index
    } else {
        0
    };
}

// ── Recent projects ────────────────────────────────────────────────────────

/// How many projects are remembered.
pub const MAX_RECENT: usize = 10;

/// The remembered projects after one was used: it comes first, the others
/// follow in order, and no more are kept than are remembered.
pub open spec fn remembered(recent: Seq<Seq<char>>, path: Seq<char>) -> Seq<Seq<char>> {
    let all = seq![path] + names::without(recent, seq![path]);
    if all.len() <= MAX_RECENT {
        all
    } else {
        all.take(MAX_RECENT as int)
    }
}

/// Remember a project that was started, opened or saved: the most recent
/// projects, the last used one first.
pub fn remember_project_path(recent: &Vec<String>, path: &str) -> (r: Vec<String>)
    ensures
        names::views(r@) == remembered(names::views(recent@), path@),
{
    let mut used: Vec<String> = Vec::new();
    used.push(path.to_owned());
    assert(names::views(used@) =~= seq![path@]);
    let others = names::drop_names(recent, &used);
    let mut r = used;
    let n: usize = others.len();
    let ghost all = seq![path@] + names::views(others@);
    for i in 0..n
        invariant
            n == others@.len(),
            all == seq![path@] + names::views(others@),
            names::views(r@) == all.take(i + 1),
    {
        let ghost before = r@;
        r.push(others[i].clone());
        assert(names::views(r@) =~= names::views(before).push(others@[i as int]@));
        assert(names::views(r@) =~= all.take(i + 2));
    }
    assert(all.take(n + 1) =~= all);
    assert(names::views(r@).len() == r@.len());
    if r.len() > MAX_RECENT {
        let ghost before = r@;
        r.truncate(MAX_RECENT);
        assert(names::views(r@) =~= names::views(before).take(MAX_RECENT as int));
    }
    r
}

/// The project files to try at the start, in order: the last used one, then the
/// default one.
pub fn startup_paths(last: Option<&str>, default_path: &str) -> (r: Vec<String>)
    ensures
        names::views(r@) == (match last {
            Some(p) => seq![p@, default_path@],
            None => seq![default_path@],
        }),
{
    let mut r: Vec<String> = Vec::new();
    if let Some(p) = last {
        r.push(p.to_owned());
    }
    r.push(default_path.to_owned());
    assert(names::views(r@) =~= (match last {
        Some(p) => seq![p@, default_path@],
        None => seq![default_path@],
    }));
    r
}

/// The project used last comes first, at most ten are remembered, none is
/// remembered twice, and using the same project again changes nothing.
pub proof fn law_recent_projects(recent: Seq<Seq<char>>, path: Seq<char>)
    requires
        recent.no_duplicates(),
    ensures
        remembered(recent, path).len() >= 1,
        remembered(recent, path)[0] == path,
        remembered(recent, path).len() <= 10,
        remembered(recent, path).no_duplicates(),
        remembered(remembered(recent, path), path) == remembered(recent, path),
{
    let others = names::without(recent, seq![path]);
    names::lemma_without(recent, seq![path]);
    let all = seq![path] + others;
    let kept = remembered(recent, path);
    assert(!others.contains(path)) by {
        assert(seq![path][0] == path);
    }
    assert(all.no_duplicates()) by {
        assert forall|i: int, j: int| 0 <= i < all.len() && 0 <= j < all.len() && i != j implies
            all[i] != all[j] by {
            if i > 0 {
                assert(all[i] == others[i - 1]);
                assert(others.contains(others[i - 1]));
            }
            if j > 0 {
                assert(all[j] == others[j - 1]);
                assert(others.contains(others[j - 1]));
            }
        }
    }
    let rest = kept.skip(1);
    assert(kept =~= seq![path] + rest);
    assert forall|i: int| 0 <= i < rest.len() implies #[trigger] rest[i] != path by {
        assert(rest[i] == others[i]);
        assert(others.contains(others[i]));
    }
    lemma_without_self(rest, path);
    assert(names::without(kept, seq![path]) == rest);
}

/// Taking a name out of a list that starts with it, and has it nowhere else,
/// leaves the rest.
proof fn lemma_without_self(rest: Seq<Seq<char>>, path: Seq<char>)
    requires
        forall|i: int| 0 <= i < rest.len() ==> #[trigger] rest[i] != path,
    ensures
        names::without(seq![path] + rest, seq![path]) == rest,
    decreases rest.len(),
{
    let all = seq![path] + rest;
    assert(seq![path][0] == path);
    if rest.len() == 0 {
        assert(all.drop_last() =~= Seq::empty());
        assert(all.last() == path);
        assert(names::without(all.drop_last(), seq![path]) =~= Seq::empty());
        assert(names::without(all, seq![path]) =~= rest);
    } else {
        assert forall|i: int| 0 <= i < rest.drop_last().len() implies #[trigger] rest.drop_last()[i]
            != path by {
            assert(rest[i] != path);
        }
        lemma_without_self(rest.drop_last(), path);
        assert(all.drop_last() =~= seq![path] + rest.drop_last());
        assert(all.last() == rest.last());
        assert(rest.last() == rest[rest.len() - 1]);
        assert(!seq![path].contains(rest.last()));
        assert(names::without(all, seq![path]) =~= rest);
    }
}

/// The remembered projects are the used one and behind it the others in their
/// order; only the oldest ones beyond ten are forgotten.
pub proof fn law_recent_keeps_order(recent: Seq<Seq<char>>, path: Seq<char>)
    ensures
        ({
            let all = seq![path] + names::without(recent, seq![path]);
            &&& remembered(recent, path).is_prefix_of(all)
            &&& remembered(recent, path).len() == (if all.len() > 10 {
                10
            } else {
                all.len()
            })
        }),
{
}

/// A file is a PDF exactly by the ending of its name.
pub proof fn law_pdf_names(stem: Seq<char>)
    ensures
        is_pdf_name(stem + ".pdf"@),
        is_pdf_name(stem) ==> stem.len() >= 4 && stem == stem.take(stem.len() - 4) + ".pdf"@,
{
    reveal_strlit(".pdf");
    text::law_parts(stem, ".pdf"@);
}

/// The drawing of a floor is a picture named after the floor's index.
pub proof fn law_drawing_names(index: nat)
    ensures
        text::starts_with(drawing_name(index), "floor_"@ + text::dec(index)),
        text::ends_with(drawing_name(index), text::dec(index) + ".png"@),
{
    text::law_parts(".png"@, "floor_"@ + text::dec(index));
    text::lemma_grouping("floor_"@, text::dec(index), ".png"@);
    text::law_parts("floor_"@, text::dec(index) + ".png"@);
}

/// The files for new projects are counted from the second one.
pub proof fn law_new_file_names(n: nat)
    requires
        n > 0,
    ensures
        new_file_name(0) == "project.json"@,
        text::starts_with(new_file_name(n), "project-"@ + text::dec(n + 1)),
        text::ends_with(new_file_name(n), text::dec(n + 1) + ".json"@),
{
    text::law_parts(".json"@, "project-"@ + text::dec(n + 1));
    text::lemma_grouping("project-"@, text::dec(n + 1), ".json"@);
    text::law_parts("project-"@, text::dec(n + 1) + ".json"@);
}

} // verus!
