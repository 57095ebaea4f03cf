//! The rules behind the main window: what each command does to the project,
//! what it asks and what it reports. The window itself shows the results.

pub mod files;
pub mod floors;
pub mod geometry;
pub mod live;
pub mod measuring;

use crate::models::Floor;
use crate::models::Measurement;
use crate::models::Project;
use crate::names;
use crate::services::WifiInfo;
use crate::text;
use crate::widgets::measurement_panel;
use vstd::prelude::*;
use vstd::string::StringExecFns;

verus! {

/// The open project.
pub struct AppState {
    pub project: Project,
    /// Index of the floor that is shown.
    pub current_floor: usize,
    /// File that the current project auto-saves to.
    pub project_path: String,
}

impl AppState {
    /// There is a floor, and one is shown.
    pub open spec fn shows_a_floor(&self) -> bool {
        self.current_floor < self.project.floors@.len()
    }

    /// The measurements of the floor that is shown.
    pub open spec fn shown_points(&self) -> Seq<Measurement> {
        if self.current_floor < self.project.floors@.len() {
            self.project.floors@[self.current_floor as int].measurements@
        } else {
            Seq::empty()
        }
    }
}

/// The floor that is shown is replaced by `floor`, and nothing else changes.
pub open spec fn only_shown_changes(before: AppState, after: AppState, floor: Floor) -> bool {
    &&& before.shows_a_floor()
    &&& after.project.floors@ == before.project.floors@.update(before.current_floor as int, floor)
    &&& only_floors_change(before, after)
}

/// Nothing but the floors changes.
pub open spec fn only_floors_change(before: AppState, after: AppState) -> bool {
    after == (AppState {
        project: Project { floors: after.project.floors, ..before.project },
        ..before
    })
}

/// Look up a measurement by id on the floor that is shown.
pub fn find_measurement<'a>(state: &'a AppState, id: &str) -> (r: Option<&'a Measurement>)
    ensures
        measurement_panel::point_of(r) == measurement_panel::point_with_id(
            state.shown_points(),
            id@,
        ),
{
    if state.current_floor < state.project.floors.len() {
        measurement_panel::find_point(
            &state.project.floors[state.current_floor].measurements,
            id,
        )
    } else {
        None
    }
}

/// The networks already measured on a floor: the SSIDs of its connected
/// measurements, in first-seen order.
pub open spec fn known_of(points: Seq<Measurement>) -> Seq<Seq<char>> {
    names::distinct_present(crate::models::project::point_ssids(points))
}

/// The distinct SSIDs already measured on the current floor, in first-seen
/// order. A sample is only flagged when its SSID is not among them, so that
/// several networks, e.g. a 2 GHz and a 5 GHz SSID, can be mapped together
/// without warnings.
pub fn known_ssids(state: &AppState) -> (r: Vec<String>)
    ensures
        names::views(r@) == known_of(state.shown_points()),
{
    if state.current_floor < state.project.floors.len() {
        measurement_panel::floor_ssids(&state.project.floors[state.current_floor].measurements)
    } else {
        let r: Vec<String> = Vec::new();
        assert(names::views(r@) =~= known_of(state.shown_points()));
        r
    }
}

/// Names with commas between them.
pub open spec fn joined(list: Seq<Seq<char>>) -> Seq<char>
    decreases list.len(),
{
    if list.len() == 0 {
        Seq::empty()
    } else if list.len() == 1 {
        list[0]
    } else {
        joined(list.drop_last()) + ", "@ + list.last()
    }
}

/// A short list of names in full, a longer one by its number.
pub open spec fn listed(known: Seq<Seq<char>>) -> Seq<char> {
    if known.len() <= 3 {
        joined(known)
    } else {
        text::dec(known.len()) + " networks"@
    }
}

pub(crate) fn list_text(known: &Vec<String>) -> (r: String)
    ensures
        r@ == listed(names::views(known@)),
{
    let ghost all = names::views(known@);
    assert(all.len() == known@.len());
    let n: usize = known.len();
    if n > 3 {
        let mut s = text::dec_text(n as u64);
        s.append(" networks");
        return s;
    }
    let mut s = String::new();
    assert(all.take(0) =~= Seq::empty());
    for i in 0..n
        invariant
            n == known@.len(),
            all == names::views(known@),
            s@ == joined(all.take(i as int)),
    {
        proof {
            assert(all.take(i + 1).drop_last() =~= all.take(i as int));
            assert(all.take(i + 1).last() == known@[i as int]@);
        }
        if i > 0 {
            s.append(", ");
        }
        s.append(known[i].as_str());
        assert(s@ =~= joined(all.take(i + 1)));
    }
    assert(all.take(n as int) =~= all);
    s
}

/// The warning that the current network is new to the floor.
pub open spec fn new_network_warning(ssid: Seq<char>, known: Seq<Seq<char>>) -> Seq<char> {
    "⚠ New network: \""@ + ssid + "\" (this floor has: "@ + listed(known) + ")"@
}

/// Format the "new network" warning message for the current SSID, listing the
/// known networks on this floor (capped so it stays readable).
pub fn format_new_network_warning(ssid: &str, known: &Vec<String>) -> (r: String)
    ensures
        r@ == new_network_warning(ssid@, names::views(known@)),
{
    let known_str = list_text(known);
    let mut s = "⚠ New network: \"".to_owned();
    s.append(ssid);
    s.append("\" (this floor has: ");
    s.append(known_str.as_str());
    s.append(")");
    s
}

/// Whether a network is new to a floor that has measured networks.
pub open spec fn is_new_network(ssid: Seq<char>, known: Seq<Seq<char>>) -> bool {
    known.len() > 0 && !known.contains(ssid)
}

/// The device names of cards.
pub open spec fn devices_of(cards: Seq<WifiInfo>) -> Seq<Seq<char>> {
    cards.map_values(|c: WifiInfo| c.device@)
}

/// The preferred name's first place if it is there, else the first place, if
/// there is any.
pub open spec fn is_pick(r: Option<usize>, preferred: Option<String>, present: Seq<Seq<char>>) -> bool {
    match r {
        Some(i) => {
            &&& present.len() > 0
            &&& match preferred {
                Some(p) => if present.contains(p@) {
                    measurement_panel::is_place(present, p@, i as int)
                } else {
                    i == 0
                },
                None => i == 0,
            }
        },
        None => present.len() == 0,
    }
}

/// The device names of cards.
pub fn card_names(cards: &Vec<WifiInfo>) -> (r: Vec<String>)
    ensures
        names::views(r@) == devices_of(cards@),
{
    let mut r: Vec<String> = Vec::new();
    let n: usize = cards.len();
    for i in 0..n
        invariant
            n == cards@.len(),
            r@.len() == i,
            forall|k: int| 0 <= k < i ==> (#[trigger] r@[k])@ == cards@[k].device@,
    {
        r.push(cards[i].device.clone());
    }
    assert(names::views(r@) =~= devices_of(cards@));
    r
}

/// Index of the WiFi device to scan with: the preferred one if it is present,
/// otherwise the first.
pub fn pick_device_index(preferred: &Option<String>, devices: &Vec<String>) -> (r: Option<usize>)
    ensures
        is_pick(r, *preferred, names::views(devices@)),
{
    assert(names::views(devices@).len() == devices@.len());
    if devices.len() == 0 {
        return None;
    }
    match preferred {
        Some(p) => match measurement_panel::place_of(devices, p.as_str()) {
            Some(i) => Some(i),
            None => Some(0),
        },
        None => Some(0),
    }
}

/// Index of the WiFi card to measure: the preferred card if it is currently
/// active, otherwise the first active card.
pub fn pick_card_index(preferred: &Option<String>, cards: &Vec<WifiInfo>) -> (r: Option<usize>)
    ensures
        is_pick(r, *preferred, devices_of(cards@)),
{
    let present = card_names(cards);
    pick_device_index(preferred, &present)
}

/// A card is picked exactly when there is one, and the preferred one whenever
/// it is there.
pub proof fn law_preferred_card_wins(r: Option<usize>, preferred: Option<String>, cards: Seq<WifiInfo>)
    requires
        is_pick(r, preferred, devices_of(cards)),
    ensures
        r is Some <==> cards.len() > 0,
        r is Some ==> r->0 < cards.len(),
        preferred is Some && devices_of(cards).contains(preferred->0@) ==> r is Some
            && cards[r->0 as int].device@ == preferred->0@,
{
    assert(devices_of(cards).len() == cards.len());
}

/// One answer of a dialog.
pub struct Choice {
    pub id: &'static str,
    pub label: &'static str,
}

/// A question to the user.
pub struct Dialog {
    pub heading: &'static str,
    pub body: String,
    pub choices: Vec<Choice>,
}

/// The ids and labels of a dialog's answers.
pub open spec fn choice_views(choices: Seq<Choice>) -> Seq<(Seq<char>, Seq<char>)> {
    choices.map_values(|c: Choice| (c.id@, c.label@))
}

/// A dialog with these texts and answers.
pub open spec fn asks(
    d: Dialog,
    heading: Seq<char>,
    body: Seq<char>,
    choices: Seq<(Seq<char>, Seq<char>)>,
) -> bool {
    d.heading@ == heading && d.body@ == body && choice_views(d.choices@) == choices
}

/// A dialog with "Cancel" and one other answer.
pub(crate) fn ask(heading: &'static str, body: String, id: &'static str, label: &'static str) -> (r:
    Dialog)
    ensures
        asks(r, heading@, body@, seq![("cancel"@, "Cancel"@), (id@, label@)]),
{
    let mut choices: Vec<Choice> = Vec::new();
    choices.push(Choice { id: "cancel", label: "Cancel" });
    choices.push(Choice { id, label });
    assert(choice_views(choices@) =~= seq![("cancel"@, "Cancel"@), (id@, label@)]);
    Dialog { heading, body, choices }
}

/// A short message about what was done.
pub enum Notice<'a> {
    DrawingCleared,
    OriginUpdated,
    NoSignalRecorded,
    MeasurementsDeleted,
    AllMeasurementsDeleted,
    FloorAdded(&'a str),
    FloorRenamed(&'a str),
    FloorDeleted,
    FloorPlanImported,
    PdfFailed,
    CardChosen(&'a str),
    ProjectStarted,
    ProjectOpened(&'a str),
    OpenFailed(&'a str),
    ProjectSaved(&'a str),
    SaveFailed(&'a str),
}

pub open spec fn notice_text_of(n: Notice<'_>) -> Seq<char> {
    match n {
        Notice::DrawingCleared => "Drawing cleared"@,
        Notice::OriginUpdated => "Origin updated"@,
        Notice::NoSignalRecorded => "Recorded \"no signal\" point"@,
        Notice::MeasurementsDeleted => "Measurements deleted"@,
        Notice::AllMeasurementsDeleted => "All measurements deleted"@,
        Notice::FloorAdded(name) => "Added: "@ + name@,
        Notice::FloorRenamed(name) => "Renamed to \""@ + name@ + "\""@,
        Notice::FloorDeleted => "Floor deleted"@,
        Notice::FloorPlanImported => "Floor plan imported"@,
        Notice::PdfFailed => "Failed to open PDF"@,
        Notice::CardChosen(device) => "Measuring card: "@ + device@,
        Notice::ProjectStarted => "New project started"@,
        Notice::ProjectOpened(name) => "Opened: "@ + name@,
        Notice::OpenFailed(error) => "Failed to open project: "@ + error@,
        Notice::ProjectSaved(path) => "Project saved to "@ + path@,
        Notice::SaveFailed(error) => "Failed to save project: "@ + error@,
    }
}

fn with_detail(message: &str, detail: &str) -> (r: String)
    ensures
        r@ == message@ + detail@,
{
    let mut s = message.to_owned();
    s.append(detail);
    s
}

/// The text of a short message.
pub fn notice_text(n: &Notice<'_>) -> (r: String)
    ensures
        r@ == notice_text_of(*n),
{
    match n {
        Notice::DrawingCleared => "Drawing cleared".to_owned(),
        Notice::OriginUpdated => "Origin updated".to_owned(),
        Notice::NoSignalRecorded => "Recorded \"no signal\" point".to_owned(),
        Notice::MeasurementsDeleted => "Measurements deleted".to_owned(),
        Notice::AllMeasurementsDeleted => "All measurements deleted".to_owned(),
        Notice::FloorAdded(name) => with_detail("Added: ", name),
        Notice::FloorRenamed(name) => {
            let mut s = with_detail("Renamed to \"", name);
            s.append("\"");
            s
        },
        Notice::FloorDeleted => "Floor deleted".to_owned(),
        Notice::FloorPlanImported => "Floor plan imported".to_owned(),
        Notice::PdfFailed => "Failed to open PDF".to_owned(),
        Notice::CardChosen(device) => with_detail("Measuring card: ", device),
        Notice::ProjectStarted => "New project started".to_owned(),
        Notice::ProjectOpened(name) => with_detail("Opened: ", name),
        Notice::OpenFailed(error) => with_detail("Failed to open project: ", error),
        Notice::ProjectSaved(path) => with_detail("Project saved to ", path),
        Notice::SaveFailed(error) => with_detail("Failed to save project: ", error),
    }
}

/// The title of the window for a project.
pub fn window_title(name: &str) -> (r: String)
    ensures
        r@ == name@ + " — WiFi Checker"@,
{
    let mut s = name.to_owned();
    s.append(" — WiFi Checker");
    s
}

/// Names are listed one behind the other with commas between them.
pub proof fn law_joined(list: Seq<Seq<char>>, name: Seq<char>)
    ensures
        joined(Seq::empty()) == Seq::<char>::empty(),
        list.len() == 0 ==> joined(list.push(name)) == name,
        list.len() > 0 ==> joined(list.push(name)) == joined(list) + ", "@ + name,
{
    assert(list.push(name).drop_last() =~= list);
}

/// Up to three networks are named; more are only counted.
pub proof fn law_listed(known: Seq<Seq<char>>, i: int)
    requires
        0 <= i < known.len(),
    ensures
        known.len() <= 3 ==> text::mentions(listed(known), known[i]),
        known.len() > 3 ==> text::starts_with(listed(known), text::dec(known.len())),
{
    if known.len() <= 3 {
        lemma_joined_mentions(known, i);
    } else {
        text::law_parts(" networks"@, text::dec(known.len()));
    }
}

proof fn lemma_joined_mentions(list: Seq<Seq<char>>, i: int)
    requires
        0 <= i < list.len(),
    ensures
        text::mentions(joined(list), list[i]),
    decreases list.len(),
{
    if list.len() == 1 {
        text::lemma_mentions_last(Seq::empty(), list[0]);
        assert(Seq::<char>::empty() + list[0] =~= list[0]);
    } else if i == list.len() - 1 {
        text::lemma_mentions_last(joined(list.drop_last()) + ", "@, list[i]);
    } else {
        lemma_joined_mentions(list.drop_last(), i);
        assert(list.drop_last()[i] == list[i]);
        text::lemma_more_behind(joined(list.drop_last()), ", "@, list[i]);
        text::lemma_more_behind(joined(list.drop_last()) + ", "@, list.last(), list[i]);
    }
}

/// A network is new exactly if the floor has networks and this is none of them;
/// the warning names it.
pub proof fn law_new_network(ssid: Seq<char>, known: Seq<Seq<char>>, i: int)
    ensures
        known.len() == 0 ==> !is_new_network(ssid, known),
        0 <= i < known.len() ==> !is_new_network(known[i], known),
        is_new_network(ssid, known) <==> known.len() > 0 && forall|j: int|
            0 <= j < known.len() ==> #[trigger] known[j] != ssid,
        text::mentions(new_network_warning(ssid, known), "\""@ + ssid + "\""@),
        text::mentions(new_network_warning(ssid, known), listed(known)),
{
    if 0 <= i < known.len() {
        assert(known.contains(known[i]));
    }
    let t = new_network_warning(ssid, known);
    let a = "⚠ New network: \""@;
    let b = "\" (this floor has: "@;
    reveal_strlit("⚠ New network: \"");
    reveal_strlit("⚠ New network: ");
    reveal_strlit("\"");
    reveal_strlit("\" (this floor has: ");
    reveal_strlit(" (this floor has: ");
    let quoted = "\""@ + ssid + "\""@;
    let rest = " (this floor has: "@ + listed(known) + ")"@;
    text::lemma_mentions("⚠ New network: "@, quoted, rest);
    assert(t =~= "⚠ New network: "@ + quoted + rest);
    text::lemma_mentions(a + ssid + b, listed(known), ")"@);
}

/// Without a preferred card, or where it is not there, the first card is picked.
pub proof fn law_first_card_otherwise(
    r: Option<usize>,
    preferred: Option<String>,
    cards: Seq<WifiInfo>,
)
    requires
        is_pick(r, preferred, devices_of(cards)),
        preferred matches Some(p) ==> forall|i: int|
            0 <= i < cards.len() ==> (#[trigger] cards[i]).device@ != p@,
    ensures
        cards.len() > 0 ==> r == Some(0usize),
        cards.len() == 0 ==> r is None,
{
    let present = devices_of(cards);
    assert(present.len() == cards.len());
    if let Some(p) = preferred {
        if present.contains(p@) {
            let i = choose|i: int| 0 <= i < present.len() && present[i] == p@;
            assert(cards[i].device@ == p@);
        }
    }
}

/// A message about something with a name tells that name.
pub proof fn law_notices(name: &str)
    ensures
        text::ends_with(notice_text_of(Notice::FloorAdded(name)), name@),
        text::mentions(notice_text_of(Notice::FloorRenamed(name)), name@),
        text::ends_with(notice_text_of(Notice::CardChosen(name)), name@),
        text::ends_with(notice_text_of(Notice::ProjectOpened(name)), name@),
        text::ends_with(notice_text_of(Notice::OpenFailed(name)), name@),
        text::ends_with(notice_text_of(Notice::ProjectSaved(name)), name@),
        text::ends_with(notice_text_of(Notice::SaveFailed(name)), name@),
{
    text::law_parts("Added: "@, name@);
    text::lemma_mentions("Renamed to \""@, name@, "\""@);
    text::law_parts("Measuring card: "@, name@);
    text::law_parts("Opened: "@, name@);
    text::law_parts("Failed to open project: "@, name@);
    text::law_parts("Project saved to "@, name@);
    text::law_parts("Failed to save project: "@, name@);
}

/// A change of the floor that is shown leaves all other floors, their number,
/// the choice of the floor, the aliases and the names.
pub proof fn law_only_shown_changes(before: AppState, after: AppState, floor: Floor, i: int)
    requires
        only_shown_changes(before, after, floor),
        0 <= i < before.project.floors@.len(),
    ensures
        after.project.floors@.len() == before.project.floors@.len(),
        after.project.floors@[i] == (if i == before.current_floor {
            floor
        } else {
            before.project.floors@[i]
        }),
        after.current_floor == before.current_floor,
        after.project_path == before.project_path,
        after.project.name == before.project.name,
        after.project.bssid_aliases == before.project.bssid_aliases,
        after.shown_points() == floor.measurements@,
{
}

} // verus!
