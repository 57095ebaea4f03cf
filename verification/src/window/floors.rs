//! Commands on the floors of the open project.

use crate::models::floor;
use crate::models::Floor;
use crate::models::RealBits;
use crate::text;
use crate::window;
use crate::window::files;
use crate::window::AppState;
use crate::window::Choice;
use crate::window::Dialog;
use vstd::prelude::*;

verus! {

// ── The floor that is shown ────────────────────────────────────────────────

/// Keep what the canvas holds: the file that its drawing was saved to, if it
/// was saved, and the origin in any case.
pub fn store_canvas(
    state: &mut AppState,
    saved_to: Option<String>,
    origin: Option<(RealBits, RealBits)>,
)
    ensures
        old(state).shows_a_floor() ==> window::only_shown_changes(
            *old(state),
            *final(state),
            ({
                let floor = old(state).project.floors@[old(state).current_floor as int];
                Floor {
                    drawing_path: if saved_to is Some {
                        saved_to
                    } else {
                        floor.drawing_path
                    },
                    origin,
                    ..floor
                }
            }),
        ),
        !old(state).shows_a_floor() ==> *final(state) == *old(state),
{
    let i: usize = state.current_floor;
    if i < state.project.floors.len() {
        let floor = &mut state.project.floors[i];
        if saved_to.is_some() {
            floor.drawing_path = saved_to;
        }
        floor.origin = origin;
    }
}

/// Forget the drawing of the floor that is shown.
pub fn clear_drawing(state: &mut AppState)
    ensures
        old(state).shows_a_floor() ==> window::only_shown_changes(
            *old(state),
            *final(state),
            (Floor {
                drawing_path: None,
                ..old(state).project.floors@[old(state).current_floor as int]
            }),
        ),
        !old(state).shows_a_floor() ==> *final(state) == *old(state),
{
    let i: usize = state.current_floor;
    if i < state.project.floors.len() {
        state.project.floors[i].drawing_path = None;
    }
}

/// Set the scale of the floor that is shown, with the two points it was
/// measured between.
pub fn set_calibration(
    state: &mut AppState,
    scale_px_per_m: RealBits,
    a: (RealBits, RealBits),
    b: (RealBits, RealBits),
)
    ensures
        old(state).shows_a_floor() ==> window::only_shown_changes(
            *old(state),
            *final(state),
            (Floor {
                scale_px_per_m: Some(scale_px_per_m),
                calib_point_a: Some(a),
                calib_point_b: Some(b),
                ..old(state).project.floors@[old(state).current_floor as int]
            }),
        ),
        !old(state).shows_a_floor() ==> *final(state) == *old(state),
{
    let i: usize = state.current_floor;
    if i < state.project.floors.len() {
        let floor = &mut state.project.floors[i];
        floor.scale_px_per_m = Some(scale_px_per_m);
        floor.calib_point_a = Some(a);
        floor.calib_point_b = Some(b);
    }
}

/// Use an image, or one page of a PDF, as the plan of the floor that is shown.
fn import_plan(state: &mut AppState, path: String, pdf_page: Option<u32>)
    ensures
        old(state).shows_a_floor() ==> window::only_shown_changes(
            *old(state),
            *final(state),
            (Floor {
                image_path: Some(path),
                pdf_page,
                ..old(state).project.floors@[old(state).current_floor as int]
            }),
        ),
        !old(state).shows_a_floor() ==> *final(state) == *old(state),
{
    let i: usize = state.current_floor;
    if i < state.project.floors.len() {
        let floor = &mut state.project.floors[i];
        floor.image_path = Some(path);
        floor.pdf_page = pdf_page;
    }
}

/// Use an image as the plan of the floor that is shown.
pub fn import_image(state: &mut AppState, path: String)
    ensures
        old(state).shows_a_floor() ==> window::only_shown_changes(
            *old(state),
            *final(state),
            (Floor {
                image_path: Some(path),
                pdf_page: None,
                ..old(state).project.floors@[old(state).current_floor as int]
            }),
        ),
        !old(state).shows_a_floor() ==> *final(state) == *old(state),
{
    import_plan(state, path, None);
}

/// Use a page of a PDF as the plan of the floor that is shown.
pub fn import_pdf_page(state: &mut AppState, path: String, page: u32)
    ensures
        old(state).shows_a_floor() ==> window::only_shown_changes(
            *old(state),
            *final(state),
            (Floor {
                image_path: Some(path),
                pdf_page: Some(page),
                ..old(state).project.floors@[old(state).current_floor as int]
            }),
        ),
        !old(state).shows_a_floor() ==> *final(state) == *old(state),
{
    import_plan(state, path, Some(page));
}

/// The plan to show behind the measurements.
pub enum Plan {
    Blank,
    Image(String),
    /// A page of a PDF.
    Pdf(String, u32),
}

/// A scale in pixels per meter, and the points it was measured between.
pub type Calibration = (RealBits, (RealBits, RealBits), (RealBits, RealBits));

/// What the floor-plan view shows of a floor, besides its measurements.
pub struct FloorView {
    pub plan: Plan,
    pub drawing: Option<String>,
    pub calibration: Option<Calibration>,
    pub origin: Option<(RealBits, RealBits)>,
}

/// The plan of a floor, whose file is a PDF or not. A PDF without a chosen page
/// shows its first.
pub open spec fn plan_of(floor: Floor, is_pdf: bool) -> Plan {
    match floor.image_path {
        Some(path) => if is_pdf {
            Plan::Pdf(
                path,
                match floor.pdf_page {
                    Some(page) => page,
                    None => 0,
                },
            )
        } else {
            Plan::Image(path)
        },
        None => Plan::Blank,
    }
}

/// The scale of a floor counts only with both of its points.
pub open spec fn calibration_of(floor: Floor) -> Option<Calibration> {
    match (floor.scale_px_per_m, floor.calib_point_a, floor.calib_point_b) {
        (Some(scale), Some(a), Some(b)) => Some((scale, a, b)),
        _ => None,
    }
}

/// What the floor-plan view shows of a floor, whose plan is a PDF or not.
pub fn view_of_floor(floor: &Floor, is_pdf: bool) -> (r: FloorView)
    ensures
        r.plan == plan_of(*floor, is_pdf),
        r.drawing == floor.drawing_path,
        r.calibration == calibration_of(*floor),
        r.origin == floor.origin,
{
    let plan = match &floor.image_path {
        Some(path) => if is_pdf {
            let page: u32 = match floor.pdf_page {
                Some(page) => page,
                None => 0,
            };
            Plan::Pdf(path.clone(), page)
        } else {
            Plan::Image(path.clone())
        },
        None => Plan::Blank,
    };
    let calibration = match (floor.scale_px_per_m, floor.calib_point_a, floor.calib_point_b) {
        (Some(scale), Some(a), Some(b)) => Some((scale, a, b)),
        _ => None,
    };
    let drawing = match &floor.drawing_path {
        Some(path) => Some(path.clone()),
        None => None,
    };
    FloorView { plan, drawing, calibration, origin: floor.origin }
}

/// What the floor-plan view shows of a floor.
pub fn load_floor_into_view(floor: &Floor) -> (r: FloorView)
    ensures
        r.plan == plan_of(
            *floor,
            floor.image_path matches Some(path) && files::is_pdf_name(files::lower_case(path@)),
        ),
        r.drawing == floor.drawing_path,
        r.calibration == calibration_of(*floor),
        r.origin == floor.origin,
{
    let is_pdf = match &floor.image_path {
        Some(path) => files::is_pdf(path.as_str()),
        None => false,
    };
    view_of_floor(floor, is_pdf)
}

// ── Deleting measurements ──────────────────────────────────────────────────

/// Delete a measurement of the floor that is shown. Returns whether a floor is
/// shown.
pub fn delete_measurement(state: &mut AppState, id: &str) -> (r: bool)
    ensures
        r == old(state).shows_a_floor(),
        r ==> ({
            let i = old(state).current_floor as int;
            let points = final(state).project.floors@[i].measurements;
            &&& window::only_shown_changes(
                *old(state),
                *final(state),
                Floor { measurements: points, ..old(state).project.floors@[i] },
            )
            &&& points@ == floor::without_id(old(state).shown_points(), id@)
        }),
        !r ==> *final(state) == *old(state),
{
    let i: usize = state.current_floor;
    if i < state.project.floors.len() {
        state.project.floors[i].remove_measurement(id);
        true
    } else {
        false
    }
}

/// The selection after a measurement is deleted: the deleted one is no longer
/// selected.
pub fn selection_after_delete(selected: Option<String>, id: &str) -> (r: Option<String>)
    ensures
        r == (if selected matches Some(s) && s@ == id@ {
            None
        } else {
            selected
        }),
{
    match selected {
        Some(s) => if text::str_eq(s.as_str(), id) {
            None
        } else {
            Some(s)
        },
        None => None,
    }
}

/// Which measurements to delete.
#[derive(Debug, Clone, Copy, PartialEq, Eq, Structural)]
pub enum Scope {
    CurrentFloor,
    AllFloors,
}

/// Ask which measurements to delete. All floors are offered only where there is
/// more than one.
pub fn delete_all_dialog(n_floors: usize) -> (r: Dialog)
    ensures
        n_floors > 1 ==> window::asks(
            r,
            "Delete All Measurements"@,
            "Delete measurements on the current floor, or on all floors?"@,
            seq![
                ("cancel"@, "Cancel"@),
                ("all"@, "All Floors"@),
                ("current"@, "This Floor"@),
            ],
        ),
        n_floors <= 1 ==> window::asks(
            r,
            "Delete All Measurements"@,
            "Delete all measurements on this floor?"@,
            seq![("cancel"@, "Cancel"@), ("current"@, "This Floor"@)],
        ),
{
    if n_floors > 1 {
        let mut choices: Vec<Choice> = Vec::new();
        choices.push(Choice { id: "cancel", label: "Cancel" });
        choices.push(Choice { id: "all", label: "All Floors" });
        choices.push(Choice { id: "current", label: "This Floor" });
        assert(window::choice_views(choices@) =~= seq![
            ("cancel"@, "Cancel"@),
            ("all"@, "All Floors"@),
            ("current"@, "This Floor"@),
        ]);
        Dialog {
            heading: "Delete All Measurements",
            body: "Delete measurements on the current floor, or on all floors?".to_owned(),
            choices,
        }
    } else {
        window::ask(
            "Delete All Measurements",
            "Delete all measurements on this floor?".to_owned(),
            "current",
            "This Floor",
        )
    }
}

/// What an answer to the question asks for; nothing on cancelling.
pub fn delete_all_response(response: &str) -> (r: Option<Scope>)
    ensures
        r == (if response@ == "current"@ {
            Some(Scope::CurrentFloor)
        } else if response@ == "all"@ {
            Some(Scope::AllFloors)
        } else {
            None
        }),
{
    if text::str_eq(response, "current") {
        Some(Scope::CurrentFloor)
    } else if text::str_eq(response, "all") {
        Some(Scope::AllFloors)
    } else {
        None
    }
}

/// `after` is `before` without its measurements.
pub open spec fn is_emptied(before: Floor, after: Floor) -> bool {
    after.measurements@.len() == 0 && after == (Floor {
        measurements: after.measurements,
        ..before
    })
}

/// Delete the measurements on the floor that is shown, or on all floors.
pub fn delete_measurements(state: &mut AppState, scope: Scope)
    ensures
        window::only_floors_change(*old(state), *final(state)),
        final(state).project.floors@.len() == old(state).project.floors@.len(),
        forall|i: int|
            0 <= i < old(state).project.floors@.len() ==> {
                if scope == Scope::AllFloors || i == old(state).current_floor {
                    is_emptied(
                        old(state).project.floors@[i],
                        #[trigger] final(state).project.floors@[i],
                    )
                } else {
                    final(state).project.floors@[i] == old(state).project.floors@[i]
                }
            },
{
    let n: usize = state.project.floors.len();
    match scope {
        Scope::CurrentFloor => {
            let i: usize = state.current_floor;
            if i < n {
                state.project.floors[i].measurements.clear();
            }
        },
        Scope::AllFloors => {
            for i in 0..n
                invariant
                    n == state.project.floors@.len(),
                    n == old(state).project.floors@.len(),
                    window::only_floors_change(*old(state), *state),
                    forall|k: int|
                        0 <= k < i ==> is_emptied(
                            old(state).project.floors@[k],
                            #[trigger] state.project.floors@[k],
                        ),
                    forall|k: int|
                        i <= k < n ==> #[trigger] state.project.floors@[k] == old(
                            state,
                        ).project.floors@[k],
            {
                state.project.floors[i].measurements.clear();
            }
        },
    }
}

// ── Adding, editing and choosing floors ────────────────────────────────────

/// The name of the floor at an index that was not named by the user.
pub open spec fn default_name(index: nat) -> Seq<char> {
    "Floor "@ + text::dec(index + 1)
}

/// An empty floor with a name.
pub open spec fn is_new_floor(f: Floor, name: Seq<char>) -> bool {
    &&& f.name@ == name
    &&& f.image_path is None && f.pdf_page is None && f.drawing_path is None
    &&& f.scale_px_per_m is None && f.calib_point_a is None && f.calib_point_b is None
    &&& f.origin is None
    &&& f.measurements@.len() == 0
}

/// Add a floor and show it. Returns its name.
pub fn add_floor(state: &mut AppState) -> (r: String)
    requires
        old(state).project.floors@.len() < usize::MAX,
    ensures
        r@ == default_name(old(state).project.floors@.len()),
        final(state).project.floors@.len() == old(state).project.floors@.len() + 1,
        final(state).project.floors@.drop_last() == old(state).project.floors@,
        is_new_floor(final(state).project.floors@.last(), r@),
        final(state).current_floor == old(state).project.floors@.len(),
        final(state).shows_a_floor(),
        final(state).project.name == old(state).project.name,
        final(state).project.bssid_aliases == old(state).project.bssid_aliases,
        final(state).project_path == old(state).project_path,
{
    let n: usize = state.project.floors.len();
    let mut name = "Floor ".to_owned();
    text::push_dec(&mut name, n as u64 + 1);
    let ghost before = state.project.floors@;
    state.project.add_floor(Floor::new(name.as_str()));
    assert(state.project.floors@.drop_last() =~= before);
    state.current_floor = n;
    name
}

/// Ask what to do with the floor that is shown. Deleting is offered only where
/// there is another floor.
pub fn edit_floor_dialog(n_floors: usize) -> (r: Dialog)
    ensures
        n_floors > 1 ==> window::asks(
            r,
            "Edit Floor"@,
            "Rename this floor or delete it."@,
            seq![("cancel"@, "Cancel"@), ("delete"@, "Delete Floor"@), ("rename"@, "Rename"@)],
        ),
        n_floors <= 1 ==> window::asks(
            r,
            "Edit Floor"@,
            "Rename this floor."@,
            seq![("cancel"@, "Cancel"@), ("rename"@, "Rename"@)],
        ),
{
    if n_floors > 1 {
        let mut choices: Vec<Choice> = Vec::new();
        choices.push(Choice { id: "cancel", label: "Cancel" });
        choices.push(Choice { id: "delete", label: "Delete Floor" });
        choices.push(Choice { id: "rename", label: "Rename" });
        assert(window::choice_views(choices@) =~= seq![
            ("cancel"@, "Cancel"@),
            ("delete"@, "Delete Floor"@),
            ("rename"@, "Rename"@),
        ]);
        Dialog {
            heading: "Edit Floor",
            body: "Rename this floor or delete it.".to_owned(),
            choices,
        }
    } else {
        window::ask("Edit Floor", "Rename this floor.".to_owned(), "rename", "Rename")
    }
}

/// Rename a floor. White space around the name is dropped; a blank name changes
/// nothing. Returns the new name.
pub fn rename_floor(state: &mut AppState, index: usize, entered: &str) -> (r: Option<String>)
    requires
        index < old(state).project.floors@.len(),
    ensures
        r is Some <==> text::trimmed(entered@).len() > 0,
        r matches Some(name) ==> {
            &&& name@ == text::trimmed(entered@)
            &&& final(state).project.floors@ == old(state).project.floors@.update(
                index as int,
                (Floor { name, ..old(state).project.floors@[index as int] }),
            )
            &&& window::only_floors_change(*old(state), *final(state))
        },
        r is None ==> *final(state) == *old(state),
{
    let name = text::trim(entered).to_owned();
    if name.as_str().is_empty() {
        return None;
    }
    state.project.floors[index].name = name.clone();
    Some(name)
}

/// Which floor to show after one of several is deleted: the one that takes its
/// place, or the new last one.
pub open spec fn index_after_delete(index: int, n_floors: int) -> int {
    if index + 1 < n_floors {
        index
    } else {
        index - 1
    }
}

/// Delete a floor that is not the only one. Returns the drawing file to remove,
/// if it has one.
pub fn delete_floor(state: &mut AppState, index: usize) -> (r: Option<String>)
    requires
        index < old(state).project.floors@.len(),
        old(state).project.floors@.len() > 1,
    ensures
        r == old(state).project.floors@[index as int].drawing_path,
        final(state).project.floors@ == old(state).project.floors@.remove(index as int),
        final(state).current_floor == index_after_delete(
            index as int,
            old(state).project.floors@.len() as int,
        ),
        final(state).shows_a_floor(),
        final(state).project.name == old(state).project.name,
        final(state).project.bssid_aliases == old(state).project.bssid_aliases,
        final(state).project_path == old(state).project_path,
{
    let n: usize = state.project.floors.len();
    let next: usize = if index + 1 < n {
        index
    } else {
        index - 1
    };
    let removed = state.project.floors.remove(index);
    state.current_floor = next;
    removed.drawing_path
}

/// Show the floor at an index, if there is one. Returns whether there is.
pub fn select_floor(state: &mut AppState, index: usize) -> (r: bool)
    ensures
        r == (index < old(state).project.floors@.len()),
        r ==> final(state).shows_a_floor(),
        *final(state) == (AppState {
            current_floor: if r {
                index
            } else {
                old(state).current_floor
            },
            ..*old(state)
        }),
{
    if index < state.project.floors.len() {
        state.current_floor = index;
        true
    } else {
        false
    }
}

/// The floor names, for the floor selector.
pub fn floor_names(state: &AppState) -> (r: Vec<String>)
    ensures
        crate::names::views(r@) == state.project.floors@.map_values(|f: Floor| f.name@),
{
    let mut r: Vec<String> = Vec::new();
    let n: usize = state.project.floors.len();
    for i in 0..n
        invariant
            n == state.project.floors@.len(),
            r@.len() == i,
            forall|k: int| 0 <= k < i ==> (#[trigger] r@[k])@ == state.project.floors@[k].name@,
    {
        r.push(state.project.floors[i].name.clone());
    }
    assert(crate::names::views(r@) =~= state.project.floors@.map_values(|f: Floor| f.name@));
    r
}

/// Deleting the floor that is shown shows its neighbour: the next floor, or the
/// previous one where there is no next. All other floors stay, in order.
pub proof fn law_delete_shows_neighbour(floors: Seq<Floor>, index: int, i: int)
    requires
        floors.len() > 1,
        0 <= index < floors.len(),
        0 <= i < floors.len(),
        i != index,
    ensures
        ({
            let next = index_after_delete(index, floors.len() as int);
            &&& 0 <= next < floors.remove(index).len()
            &&& floors.remove(index)[next] == floors[if index + 1 < floors.len() {
                index + 1
            } else {
                index - 1
            }]
        }),
        floors.remove(index)[if i < index {
            i
        } else {
            i - 1
        }] == floors[i],
{
}

/// The plan of a floor is the file that it refers to, shown as an image, or as
/// a PDF at its chosen page (the first one where none is chosen). There is no
/// plan without a file.
pub proof fn law_plans(floor: Floor, is_pdf: bool)
    ensures
        floor.image_path is None <==> plan_of(floor, is_pdf) is Blank,
        floor.image_path matches Some(path) ==> {
            &&& !is_pdf ==> plan_of(floor, is_pdf) == Plan::Image(path)
            &&& is_pdf && floor.pdf_page is Some ==> plan_of(floor, is_pdf) == Plan::Pdf(
                path,
                floor.pdf_page->0,
            )
            &&& is_pdf && floor.pdf_page is None ==> plan_of(floor, is_pdf) == Plan::Pdf(path, 0)
        },
{
}

/// A calibrated floor gives back its scale and its two points, in their order;
/// with one of them missing it gives nothing.
pub proof fn law_calibration(
    floor: Floor,
    scale: RealBits,
    a: (RealBits, RealBits),
    b: (RealBits, RealBits),
)
    ensures
        calibration_of(
            (Floor {
                scale_px_per_m: Some(scale),
                calib_point_a: Some(a),
                calib_point_b: Some(b),
                ..floor
            }),
        ) == Some((scale, a, b)),
        calibration_of(floor) is Some <==> floor.scale_px_per_m is Some && floor.calib_point_a
            is Some && floor.calib_point_b is Some,
{
}

/// Floors are named by their number, counted from 1, and different ones
/// differently.
pub proof fn law_default_names(a: nat, b: nat)
    ensures
        text::starts_with(default_name(a), "Floor "@),
        text::number_of(default_name(a).skip("Floor "@.len() as int), 10) == a + 1,
        a != b ==> default_name(a) != default_name(b),
{
    text::law_decimal(a + 1);
    text::law_decimal(b + 1);
    text::law_parts(text::dec(a + 1), "Floor "@);
    assert(default_name(a).skip("Floor "@.len() as int) =~= text::dec(a + 1));
    assert(default_name(b).skip("Floor "@.len() as int) =~= text::dec(b + 1));
}

/// A floor that is emptied loses its measurements and keeps everything else.
pub proof fn law_emptied(before: Floor, after: Floor)
    requires
        is_emptied(before, after),
    ensures
        after.measurements@.len() == 0,
        after.name == before.name && after.image_path == before.image_path,
        after.pdf_page == before.pdf_page && after.drawing_path == before.drawing_path,
        after.scale_px_per_m == before.scale_px_per_m && after.origin == before.origin,
        after.calib_point_a == before.calib_point_a && after.calib_point_b == before.calib_point_b,
{
}

} // verus!
