use wifichecker::models::Floor;
use wifichecker::models::Measurement;
use wifichecker::models::Project;
use wifichecker::models::RealBits;
use wifichecker::services::nl80211::ChannelInfo;
use wifichecker::services::WifiInfo;
use wifichecker::window::files;
use wifichecker::window::files::DrawingStep;
use wifichecker::window::files::PdfStep;
use wifichecker::window::find_measurement;
use wifichecker::window::floors;
use wifichecker::window::floors::Plan;
use wifichecker::window::floors::Scope;
use wifichecker::window::format_new_network_warning;
use wifichecker::window::geometry;
use wifichecker::window::geometry::Geometry;
use wifichecker::window::known_ssids;
use wifichecker::window::live::live_tick;
use wifichecker::window::live::LiveFlags;
use wifichecker::window::measuring;
use wifichecker::window::measuring::CheckedStep;
use wifichecker::window::measuring::ClickStep;
use wifichecker::window::measuring::MeasureGuard;
use wifichecker::window::measuring::MeasureResult;
use wifichecker::window::measuring::Outcome;
use wifichecker::window::measuring::SpeedTests;
use wifichecker::window::notice_text;
use wifichecker::window::pick_card_index;
use wifichecker::window::pick_device_index;
use wifichecker::window::window_title;
use wifichecker::window::AppState;
use wifichecker::window::Dialog;
use wifichecker::window::Notice;

fn number(v: f64) -> RealBits {
    RealBits { bits: v.to_bits() }
}

fn names(list: &[&str]) -> Vec<String> {
    list.iter().map(|s| s.to_string()).collect()
}

fn card(device: &str, ssid: &str) -> WifiInfo {
    WifiInfo {
        ssid: ssid.to_string(),
        bssid: "AA:BB:CC:DD:EE:01".to_string(),
        frequency_mhz: 5180,
        channel: 36,
        signal_dbm: -55,
        link_speed_mbps: Some(270),
        device: device.to_string(),
        is_active: true,
        channel_width_mhz: None,
        center_freq_mhz: None,
        center_freq2_mhz: None,
    }
}

fn point(id: &str, ssid: &str) -> Measurement {
    let mut m = Measurement::new(
        number(0.1),
        number(0.2),
        ssid.to_string(),
        "AA:BB:CC:DD:EE:01".to_string(),
        5180,
        36,
        -55,
    );
    m.id = id.to_string();
    m
}

fn state_with(floor_names: &[&str]) -> AppState {
    let mut project = Project::new("Test");
    for name in floor_names {
        project.add_floor(Floor::new(name));
    }
    AppState { project, current_floor: 0, project_path: "/tmp/p.json".to_string() }
}

fn answers(d: &Dialog) -> Vec<(&str, &str)> {
    d.choices.iter().map(|c| (c.id, c.label)).collect()
}

// ── Networks and cards ─────────────────────────────────────────────────────

#[test]
fn networks_known_on_the_shown_floor() {
    let mut state = state_with(&["F1", "F2"]);
    state.project.floors[0].add_measurement(point("a", "Home"));
    state.project.floors[0].add_measurement(point("b", "Attic"));
    state.project.floors[0].add_measurement(point("c", "Home"));
    state.project.floors[0].add_measurement(Measurement::no_signal(number(0.0), number(0.0)));
    state.project.floors[1].add_measurement(point("d", "Cellar"));
    assert_eq!(known_ssids(&state), vec!["Home", "Attic"]);
    assert_eq!(find_measurement(&state, "b").unwrap().ssid, "Attic");
    assert!(find_measurement(&state, "d").is_none());
    state.current_floor = 1;
    assert_eq!(known_ssids(&state), vec!["Cellar"]);
    state.current_floor = 7;
    assert!(known_ssids(&state).is_empty());
    assert!(find_measurement(&state, "a").is_none());
}

#[test]
fn new_network_warning_lists_up_to_three() {
    assert_eq!(
        format_new_network_warning("Guest", &names(&["A"])),
        "⚠ New network: \"Guest\" (this floor has: A)"
    );
    assert_eq!(
        format_new_network_warning("Guest", &names(&["A", "B", "C"])),
        "⚠ New network: \"Guest\" (this floor has: A, B, C)"
    );
    assert_eq!(
        format_new_network_warning("Guest", &names(&["A", "B", "C", "D"])),
        "⚠ New network: \"Guest\" (this floor has: 4 networks)"
    );
}

#[test]
fn preferred_card_is_picked() {
    let cards = vec![card("wlan0", "Home"), card("wlan1", "Home")];
    assert_eq!(pick_card_index(&None, &cards), Some(0));
    assert_eq!(pick_card_index(&Some("wlan1".to_string()), &cards), Some(1));
    assert_eq!(pick_card_index(&Some("wlan9".to_string()), &cards), Some(0));
    assert_eq!(pick_card_index(&Some("wlan0".to_string()), &Vec::new()), None);
    assert_eq!(pick_device_index(&Some("b".to_string()), &names(&["a", "b"])), Some(1));
    assert_eq!(pick_device_index(&None, &Vec::new()), None);
}

// ── Measuring ──────────────────────────────────────────────────────────────

#[test]
fn one_measurement_at_a_time() {
    let mut guard = MeasureGuard::new();
    assert_eq!(guard.clicked(&Vec::new()), ClickStep::Start);
    assert_eq!(guard.clicked(&names(&["Home"])), ClickStep::CheckNetwork);
    assert!(guard.start());
    assert!(!guard.start());
    assert_eq!(guard.clicked(&Vec::new()), ClickStep::Busy);
    assert_eq!(ClickStep::Busy.message(), Some("Measurement in progress — please wait"));
    assert_eq!(ClickStep::Start.message(), None);
    guard.finish();
    assert!(guard.start());
}

#[test]
fn new_network_is_confirmed() {
    let known = names(&["Home", "Attic"]);
    assert!(matches!(measuring::network_checked(Some("Home"), &known), CheckedStep::Start));
    assert!(matches!(measuring::network_checked(None, &known), CheckedStep::Start));
    match measuring::network_checked(Some("Guest"), &known) {
        CheckedStep::Confirm(d) => {
            assert_eq!(d.heading, "New network");
            assert_eq!(
                d.body,
                "You're connected to \"Guest\", which isn't one of this floor's measured networks (Home, Attic).\n\nRecord a sample on \"Guest\"?"
            );
            assert_eq!(answers(&d), vec![("cancel", "Cancel"), ("ok", "Measure anyway")]);
        }
        CheckedStep::Start => panic!("a new network has to be confirmed"),
    }
    assert_eq!(measuring::network_confirmed("ok"), Ok(()));
    assert_eq!(measuring::network_confirmed("cancel"), Err("Measurement cancelled"));
}

#[test]
fn speed_tests_need_a_server() {
    let mut t = SpeedTests {
        iperf_enabled: true,
        iperf_server: String::new(),
        smb_enabled: true,
        smb_server: "nas".to_string(),
    };
    assert!(!t.runs_iperf() && t.runs_smb());
    assert_eq!(t.status_message(), "Scanning + Samba…");
    t.iperf_server = "host".to_string();
    assert_eq!(t.status_message(), "Scanning + iperf3 + Samba…");
    t.smb_enabled = false;
    assert_eq!(t.status_message(), "Scanning + iperf3…");
    t.iperf_enabled = false;
    assert_eq!(t.status_message(), "Scanning WiFi…");
    assert_eq!(measuring::credential(""), None);
    assert_eq!(measuring::credential("me"), Some("me".to_string()));
}

fn result(wifi: Option<WifiInfo>, scan: Vec<WifiInfo>) -> MeasureResult {
    MeasureResult {
        rx: number(0.25),
        ry: number(0.75),
        wifi,
        device: "wlan0".to_string(),
        scan,
        iperf_mbps: None,
        iperf_error: None,
        smb_mbps: None,
        smb_error: None,
    }
}

#[test]
fn connected_measurement_is_recorded() {
    let mut state = state_with(&["F1", "F2"]);
    state.current_floor = 1;
    let channel = ChannelInfo {
        primary_freq_mhz: Some(5180),
        width_mhz: Some(40),
        center_freq_mhz: Some(5190),
        center_freq2_mhz: None,
    };
    let info = measuring::with_channel(&card("wlan1", "Home"), Some(channel));
    let mut r = result(Some(info), vec![card("wlan1", "Home"), card("wlan1", "Other")]);
    r.iperf_mbps = Some(number(120.0));
    r.smb_error = Some("no share".to_string());
    let done = measuring::complete_measurement(&mut state, &r, "120M");
    assert_eq!(done.toasts, vec!["Samba error: no share", "-55 dBm | Home | ⚡120M"]);
    assert!(state.project.floors[0].measurements.is_empty());
    let m = &state.project.floors[1].measurements[0];
    assert!(matches!(done.outcome, Outcome::Recorded(ref id) if *id == m.id));
    assert_eq!((m.x, m.y), (number(0.25), number(0.75)));
    assert_eq!((m.ssid.as_str(), m.device.as_str()), ("Home", "wlan1"));
    assert_eq!(m.channel_width_mhz, Some(40));
    assert_eq!(m.center_freq_mhz, Some(5190));
    assert_eq!(m.iperf_mbps, Some(number(120.0)));
    assert_eq!(m.scan_results.len(), 2);
    assert_eq!(m.scan_results[1].ssid, "Other");
    assert!(!m.no_signal);
    // The network is now known on this floor.
    assert_eq!(known_ssids(&state), vec!["Home"]);
}

#[test]
fn measurement_without_a_floor_is_not_recorded() {
    let mut state = state_with(&[]);
    let mut r = result(Some(card("wlan0", "Home")), Vec::new());
    r.iperf_error = Some("refused".to_string());
    let done = measuring::complete_measurement(&mut state, &r, "");
    assert!(matches!(done.outcome, Outcome::NoFloor));
    assert_eq!(done.toasts, vec!["iperf3 error: refused"]);
}

#[test]
fn no_connection_asks_and_records_the_scan() {
    let mut state = state_with(&["F1"]);
    let mut scan = Vec::new();
    for i in 0..45 {
        let mut c = card("wlan0", "Net");
        c.signal_dbm = -40 - i;
        scan.push(c);
    }
    let r = result(None, scan);
    let done = measuring::complete_measurement(&mut state, &r, "");
    assert!(done.toasts.is_empty());
    match done.outcome {
        Outcome::AskNoSignal(d) => {
            assert_eq!(d.heading, "No WiFi connection");
            assert!(d.body.contains("45 APs in range"));
            assert_eq!(answers(&d), vec![("cancel", "Cancel"), ("ok", "Record 'no signal'")]);
        }
        _ => panic!("the user has to be asked"),
    }
    assert!(state.project.floors[0].measurements.is_empty());
    let id =
        measuring::record_no_signal_point(&mut state, r.rx, r.ry, &r.device, &r.scan).unwrap();
    let m = &state.project.floors[0].measurements[0];
    assert_eq!(m.id, id);
    assert!(m.no_signal);
    assert_eq!(m.signal_dbm, -90);
    assert_eq!(m.device, "wlan0");
    // The forty strongest are kept.
    assert_eq!(m.scan_results.len(), 40);
    assert_eq!(m.scan_results[39].signal_dbm, -79);
    // A no-signal point makes no network known.
    assert!(known_ssids(&state).is_empty());
    let mut empty = state_with(&[]);
    let scan = Vec::new();
    assert!(measuring::record_no_signal_point(&mut empty, r.rx, r.ry, "", &scan).is_none());
}

// ── The live view ──────────────────────────────────────────────────────────

#[test]
fn live_warnings_are_told_once() {
    let mut flags = LiveFlags::new();
    let known = names(&["Home"]);
    let preferred = Some("wlan1".to_string());
    let cards = vec![card("wlan0", "Guest")];
    let u = live_tick(&mut flags, &preferred, &cards, &known);
    assert_eq!(u.chosen, Some(0));
    assert_eq!(u.card_names, vec!["wlan0"]);
    let warning = "⚠ New network: \"Guest\" (this floor has: Home)";
    assert_eq!(u.warning, Some(warning.to_string()));
    assert_eq!(u.toasts, vec!["Card wlan1 unavailable — using wlan0", warning]);
    assert!(flags.new_network && flags.card_missing);
    // The warning stays, but is not told again.
    let u = live_tick(&mut flags, &preferred, &cards, &known);
    assert_eq!(u.warning, Some(warning.to_string()));
    assert!(u.toasts.is_empty());
    // Without a connection everything is cleared.
    let u = live_tick(&mut flags, &preferred, &Vec::new(), &known);
    assert!(u.chosen.is_none() && u.warning.is_none() && u.toasts.is_empty());
    assert!(!flags.new_network && !flags.card_missing);
    // A floor without measurements has no new networks.
    let u = live_tick(&mut flags, &None, &cards, &Vec::new());
    assert!(u.warning.is_none() && u.toasts.is_empty());
}

// ── Floors ─────────────────────────────────────────────────────────────────

#[test]
fn canvas_and_calibration_are_stored() {
    let mut state = state_with(&["F1"]);
    floors::store_canvas(&mut state, Some("/d/floor_0.png".to_string()), None);
    floors::store_canvas(&mut state, None, Some((number(0.1), number(0.2))));
    let f = &state.project.floors[0];
    // A canvas that was not saved leaves the reference alone.
    assert_eq!(f.drawing_path.as_deref(), Some("/d/floor_0.png"));
    assert_eq!(f.origin, Some((number(0.1), number(0.2))));
    floors::clear_drawing(&mut state);
    assert_eq!(state.project.floors[0].drawing_path, None);
    let a = (number(0.0), number(0.0));
    let b = (number(1.0), number(0.0));
    floors::set_calibration(&mut state, number(42.0), a, b);
    let view = floors::load_floor_into_view(&state.project.floors[0]);
    assert_eq!(view.calibration, Some((number(42.0), a, b)));
    state.project.floors[0].calib_point_b = None;
    assert_eq!(floors::load_floor_into_view(&state.project.floors[0]).calibration, None);
}

#[test]
fn floor_plans() {
    let mut state = state_with(&["F1"]);
    assert!(matches!(floors::load_floor_into_view(&state.project.floors[0]).plan, Plan::Blank));
    floors::import_pdf_page(&mut state, "/x/Plan.PDF".to_string(), 3);
    match floors::load_floor_into_view(&state.project.floors[0]).plan {
        Plan::Pdf(path, page) => assert_eq!((path.as_str(), page), ("/x/Plan.PDF", 3)),
        _ => panic!("a PDF has to be shown as one"),
    }
    state.project.floors[0].pdf_page = None;
    assert!(matches!(
        floors::load_floor_into_view(&state.project.floors[0]).plan,
        Plan::Pdf(_, 0)
    ));
    floors::import_image(&mut state, "/x/plan.png".to_string());
    assert!(matches!(floors::load_floor_into_view(&state.project.floors[0]).plan, Plan::Image(_)));
    assert_eq!(state.project.floors[0].pdf_page, None);
}

#[test]
fn pdf_names_and_pages() {
    assert!(files::is_pdf("a.pdf"));
    assert!(files::is_pdf("A.Pdf"));
    assert!(files::is_pdf(".PDF"));
    assert!(!files::is_pdf("pdf"));
    assert!(!files::is_pdf("a.pdf.png"));
    assert!(files::has_pdf_ending("x.pdf"));
    assert!(!files::has_pdf_ending("X.PDF"));
    assert!(matches!(files::pdf_opened(None), PdfStep::Failed));
    assert!(matches!(files::pdf_opened(Some(1)), PdfStep::ImportFirst));
    match files::pdf_opened(Some(12)) {
        PdfStep::Pick(t) => {
            assert_eq!(t, "This PDF has 12 pages.\nSelect which page to use as floor plan:")
        }
        _ => panic!("the page has to be asked for"),
    }
    assert_eq!(files::page_index(1), 0);
    assert_eq!(files::page_index(12), 11);
    assert_eq!(files::page_index(0), 0);
}

#[test]
fn deleting_measurements() {
    let mut state = state_with(&["F1", "F2"]);
    state.project.floors[0].add_measurement(point("a", "Home"));
    state.project.floors[0].add_measurement(point("b", "Home"));
    state.project.floors[1].add_measurement(point("c", "Home"));
    assert!(floors::delete_measurement(&mut state, "a"));
    assert_eq!(state.project.floors[0].measurements.len(), 1);
    assert_eq!(floors::selection_after_delete(Some("a".to_string()), "a"), None);
    assert_eq!(
        floors::selection_after_delete(Some("b".to_string()), "a"),
        Some("b".to_string())
    );
    let d = floors::delete_all_dialog(2);
    assert_eq!(
        answers(&d),
        vec![("cancel", "Cancel"), ("all", "All Floors"), ("current", "This Floor")]
    );
    let d = floors::delete_all_dialog(1);
    assert_eq!(d.body, "Delete all measurements on this floor?");
    assert_eq!(answers(&d), vec![("cancel", "Cancel"), ("current", "This Floor")]);
    assert_eq!(floors::delete_all_response("current"), Some(Scope::CurrentFloor));
    assert_eq!(floors::delete_all_response("all"), Some(Scope::AllFloors));
    assert_eq!(floors::delete_all_response("cancel"), None);
    floors::delete_measurements(&mut state, Scope::CurrentFloor);
    assert_eq!(state.project.floors[0].measurements.len(), 0);
    assert_eq!(state.project.floors[1].measurements.len(), 1);
    floors::delete_measurements(&mut state, Scope::AllFloors);
    assert_eq!(state.project.floors[1].measurements.len(), 0);
    assert!(!floors::delete_measurement(&mut state_with(&[]), "a"));
}

#[test]
fn adding_renaming_and_deleting_floors() {
    let mut state = state_with(&["Floor 1"]);
    assert_eq!(floors::add_floor(&mut state), "Floor 2");
    assert_eq!(state.current_floor, 1);
    assert_eq!(floors::add_floor(&mut state), "Floor 3");
    assert_eq!(floors::floor_names(&state), vec!["Floor 1", "Floor 2", "Floor 3"]);
    let d = floors::edit_floor_dialog(3);
    assert_eq!(
        answers(&d),
        vec![("cancel", "Cancel"), ("delete", "Delete Floor"), ("rename", "Rename")]
    );
    assert_eq!(floors::edit_floor_dialog(1).body, "Rename this floor.");
    assert_eq!(floors::rename_floor(&mut state, 1, "  Attic "), Some("Attic".to_string()));
    assert_eq!(floors::rename_floor(&mut state, 1, " \t "), None);
    assert_eq!(state.project.floors[1].name, "Attic");
    // The next floor takes the place of a deleted one.
    state.project.floors[1].drawing_path = Some("/d/floor_1.png".to_string());
    assert_eq!(floors::delete_floor(&mut state, 1), Some("/d/floor_1.png".to_string()));
    assert_eq!(state.current_floor, 1);
    assert_eq!(state.project.floors[1].name, "Floor 3");
    // Without a next floor the previous one is shown.
    assert_eq!(floors::delete_floor(&mut state, 1), None);
    assert_eq!(state.current_floor, 0);
    assert_eq!(floors::floor_names(&state), vec!["Floor 1"]);
    assert!(!floors::select_floor(&mut state, 1));
    assert!(floors::select_floor(&mut state, 0));
}

// ── Project files ──────────────────────────────────────────────────────────

#[test]
fn drawings_travel_with_the_project() {
    // The drawing of the first floor was copied, the second floor has none,
    // the third one's file is gone.
    let mut project = Project::new("Test");
    let mut floor = Floor::new("L0");
    floor.drawing_path = Some("/src/floor_0.png".to_string());
    project.add_floor(floor);
    project.add_floor(Floor::new("L1"));
    let mut floor = Floor::new("L2");
    floor.drawing_path = Some("/gone/floor_2.png".to_string());
    project.add_floor(floor);
    let stored = vec![
        Some("/dst/floor_0.png".to_string()),
        Some("/dst/floor_1.png".to_string()),
        None,
    ];
    files::independent_project_copy(&mut project, &stored);
    let paths: Vec<Option<&str>> =
        project.floors.iter().map(|f| f.drawing_path.as_deref()).collect();
    assert_eq!(paths, vec![Some("/dst/floor_0.png"), None, Some("/gone/floor_2.png")]);
    // A second run keeps the references.
    files::independent_project_copy(&mut project, &stored);
    let again: Vec<Option<&str>> =
        project.floors.iter().map(|f| f.drawing_path.as_deref()).collect();
    assert_eq!(again, vec![Some("/dst/floor_0.png"), None, Some("/gone/floor_2.png")]);
}

#[test]
fn drawing_steps() {
    assert_eq!(files::drawing_step(false, true, true), DrawingStep::Leave);
    assert_eq!(files::drawing_step(true, false, true), DrawingStep::Leave);
    assert_eq!(files::drawing_step(true, true, true), DrawingStep::Refer);
    // Also a file of the directory that is another floor's is copied.
    assert_eq!(files::drawing_step(true, true, false), DrawingStep::Copy);
    assert!(files::is_stored(DrawingStep::Refer, false));
    assert!(files::is_stored(DrawingStep::Copy, true));
    assert!(!files::is_stored(DrawingStep::Copy, false));
    assert!(!files::is_stored(DrawingStep::Leave, true));
    assert_eq!(files::drawing_file_name(0), "floor_0.png");
    assert_eq!(files::drawing_file_name(12), "floor_12.png");
}

#[test]
fn project_file_names() {
    assert_eq!(files::project_file_name(Some("json"), Some("a.json")), None);
    assert_eq!(
        files::project_file_name(Some("txt"), Some("a.txt")),
        Some("a.txt.json".to_string())
    );
    assert_eq!(files::project_file_name(None, Some("a")), Some("a.json".to_string()));
    assert_eq!(files::project_file_name(None, None), Some("project.json".to_string()));
}

#[test]
fn files_for_new_projects() {
    let names: Vec<String> = (0..3).map(files::new_project_file_name).collect();
    assert_eq!(names, vec!["project.json", "project-2.json", "project-3.json"]);
    // The project that is replaced keeps its file, also the default one.
    assert!(!files::may_hold_new_project(true, true));
    assert!(!files::may_hold_new_project(true, false));
    assert!(!files::may_hold_new_project(false, true));
    assert!(files::may_hold_new_project(false, false));
}

#[test]
fn opening_a_project() {
    let mut state = state_with(&["F1", "F2"]);
    state.current_floor = 1;
    let name = files::apply_project(&mut state, Project::new("Empty"), "/p/e.json".to_string());
    assert_eq!(name, "Empty");
    assert_eq!(state.current_floor, 0);
    assert_eq!(state.project_path, "/p/e.json");
    assert_eq!(floors::floor_names(&state), vec!["Floor 1"]);
    let fresh = files::new_project();
    assert_eq!((fresh.name.as_str(), fresh.floors.len()), ("New Project", 1));
    assert_eq!(files::first_project().name, "My Project");
    assert_eq!(answers(&files::new_project_dialog())[1], ("new", "New Project"));
    let mut state = state_with(&["A", "B"]);
    files::restore_floor(&mut state, 1);
    assert_eq!(state.current_floor, 1);
    files::restore_floor(&mut state, 2);
    assert_eq!(state.current_floor, 0);
}

#[test]
fn recent_projects() {
    let mut recent = Vec::new();
    for i in 0..12 {
        recent = files::remember_project_path(&recent, &format!("/p/{i}.json"));
    }
    assert_eq!(recent.len(), 10);
    assert_eq!(recent[0], "/p/11.json");
    assert_eq!(recent[9], "/p/2.json");
    recent = files::remember_project_path(&recent, "/p/5.json");
    assert_eq!(recent.len(), 10);
    assert_eq!(recent[0], "/p/5.json");
    assert_eq!(recent.iter().filter(|p| p.as_str() == "/p/5.json").count(), 1);
    assert_eq!(files::remember_project_path(&recent, "/p/5.json"), recent);
    assert_eq!(files::startup_paths(Some("/p/5.json"), "/d.json"), vec!["/p/5.json", "/d.json"]);
    assert_eq!(files::startup_paths(None, "/d.json"), vec!["/d.json"]);
}

#[test]
fn notices_and_titles() {
    assert_eq!(window_title("Office"), "Office — WiFi Checker");
    assert_eq!(notice_text(&Notice::NoSignalRecorded), "Recorded \"no signal\" point");
    assert_eq!(notice_text(&Notice::FloorRenamed("Attic")), "Renamed to \"Attic\"");
    assert_eq!(notice_text(&Notice::FloorAdded("Floor 2")), "Added: Floor 2");
    assert_eq!(notice_text(&Notice::OpenFailed("gone")), "Failed to open project: gone");
    assert_eq!(notice_text(&Notice::ProjectSaved("/p.json")), "Project saved to /p.json");
    assert_eq!(notice_text(&Notice::CardChosen("wlan1")), "Measuring card: wlan1");
}

#[test]
fn sizes_are_remembered() {
    let fresh = Geometry { window_width: None, window_height: None, sidebar_width: None };
    assert_eq!(geometry::window_size(&fresh), (1200, 780));
    assert_eq!(geometry::divider_position(0, None), None);
    assert_eq!(geometry::divider_position(1200, None), Some(910));
    assert_eq!(geometry::divider_position(300, None), Some(100));
    assert_eq!(geometry::divider_position(1200, Some(400)), Some(800));
    assert_eq!(geometry::divider_position(1200, Some(0)), Some(910));
    assert_eq!(geometry::divider_position(1200, Some(i32::MAX)), Some(100));
    let used = geometry::remember_geometry(&fresh, 1000, 600, 1000, 640);
    assert_eq!(geometry::window_size(&used), (1000, 600));
    assert_eq!(used.sidebar_width, Some(360));
    assert_eq!(geometry::divider_position(1000, used.sidebar_width), Some(640));
    // A window without a size yet changes nothing.
    assert_eq!(geometry::remember_geometry(&used, 0, 0, 0, 0), used);
}
