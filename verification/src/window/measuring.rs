//! Taking a measurement: when one may start, what it records and what the user
//! is asked and told.

use crate::clock;
use crate::models::Floor;
use crate::models::Measurement;
use crate::models::RealBits;
use crate::models::ScanEntry;
use crate::names;
use crate::services::nl80211::ChannelInfo;
use crate::services::WifiInfo;
use crate::text;
use crate::window;
use crate::window::AppState;
use crate::window::Dialog;
use vstd::prelude::*;
use vstd::string::StringExecFns;

verus! {

/// How many access points of a scan are recorded with a measurement.
pub const MAX_SCAN_RESULTS: usize = 40;

// ── Starting ───────────────────────────────────────────────────────────────

/// The settings that decide which speed tests run with a measurement.
pub struct SpeedTests {
    pub iperf_enabled: bool,
    pub iperf_server: String,
    pub smb_enabled: bool,
    pub smb_server: String,
}

impl SpeedTests {
    pub open spec fn with_iperf(&self) -> bool {
        self.iperf_enabled && self.iperf_server@.len() > 0
    }

    pub open spec fn with_smb(&self) -> bool {
        self.smb_enabled && self.smb_server@.len() > 0
    }

    /// Whether the iperf3 test runs: it is enabled and has a server.
    pub fn runs_iperf(&self) -> (r: bool)
        ensures
            r == self.with_iperf(),
    {
        self.iperf_enabled && !self.iperf_server.as_str().is_empty()
    }

    /// Whether the Samba test runs: it is enabled and has a server.
    pub fn runs_smb(&self) -> (r: bool)
        ensures
            r == self.with_smb(),
    {
        self.smb_enabled && !self.smb_server.as_str().is_empty()
    }

    /// What is shown while the measurement runs.
    pub fn status_message(&self) -> (r: &'static str)
        ensures
            r@ == (match (self.with_iperf(), self.with_smb()) {
                (true, true) => "Scanning + iperf3 + Samba…"@,
                (true, false) => "Scanning + iperf3…"@,
                (false, true) => "Scanning + Samba…"@,
                (false, false) => "Scanning WiFi…"@,
            }),
    {
        match (self.runs_iperf(), self.runs_smb()) {
            (true, true) => "Scanning + iperf3 + Samba…",
            (true, false) => "Scanning + iperf3…",
            (false, true) => "Scanning + Samba…",
            (false, false) => "Scanning WiFi…",
        }
    }
}

/// A credential of a speed test: an empty one is not used.
pub fn credential(s: &str) -> (r: Option<String>)
    ensures
        crate::models::text_view(r) == (if s@.len() == 0 {
            None
        } else {
            Some(s@)
        }),
{
    if s.is_empty() {
        None
    } else {
        Some(s.to_owned())
    }
}

/// What follows a click on the map.
#[derive(Debug, Clone, Copy, PartialEq, Eq, Structural)]
pub enum ClickStep {
    /// A measurement is running: the click is refused.
    Busy,
    /// First sample on this floor: measure at once.
    Start,
    /// Find out the current network first.
    CheckNetwork,
}

impl ClickStep {
    /// What the user is told.
    pub fn message(self) -> (r: Option<&'static str>)
        ensures
            self is Busy <==> r is Some,
            r is Some ==> r->0@ == "Measurement in progress — please wait"@,
    {
        match self {
            ClickStep::Busy => Some("Measurement in progress — please wait"),
            _ => None,
        }
    }
}

/// Guards against starting a measurement while one is in flight.
pub struct MeasureGuard {
    pub in_flight: bool,
}

impl MeasureGuard {
    pub fn new() -> (r: MeasureGuard)
        ensures
            !r.in_flight,
    {
        MeasureGuard { in_flight: false }
    }

    /// A click on the map, on a floor with these measured networks.
    pub fn clicked(&self, known: &Vec<String>) -> (r: ClickStep)
        ensures
            r == (if self.in_flight {
                ClickStep::Busy
            } else if known@.len() == 0 {
                ClickStep::Start
            } else {
                ClickStep::CheckNetwork
            }),
            r == click_step(self.in_flight, known@.len()),
    {
        if self.in_flight {
            ClickStep::Busy
        } else if known.len() == 0 {
            ClickStep::Start
        } else {
            ClickStep::CheckNetwork
        }
    }

    /// Start a measurement unless one is in flight. Returns whether it starts.
    pub fn start(&mut self) -> (r: bool)
        ensures
            r == is_accepted(old(self).in_flight),
            final(self).in_flight == flight_after(true),
    {
        let r = !self.in_flight;
        self.in_flight = true;
        r
    }

    /// The measurement in flight has ended.
    pub fn finish(&mut self)
        ensures
            final(self).in_flight == flight_after(false),
    {
        self.in_flight = false;
    }
}

/// What follows a click on a floor with a number of measured networks.
pub open spec fn click_step(in_flight: bool, known: nat) -> ClickStep {
    if in_flight {
        ClickStep::Busy
    } else if known == 0 {
        ClickStep::Start
    } else {
        ClickStep::CheckNetwork
    }
}

/// A click is refused exactly while a start would be; otherwise the network is
/// looked at first wherever the floor has measured one.
pub proof fn law_clicks(trace: Seq<bool>, known: nat)
    ensures
        click_step(in_flight_after(trace), known) is Busy <==> !is_accepted(in_flight_after(trace)),
        click_step(in_flight_after(trace), known) is Start ==> known == 0,
        click_step(in_flight_after(trace), known) is CheckNetwork ==> known > 0,
{
}

/// A start is accepted unless a measurement is in flight.
pub open spec fn is_accepted(in_flight: bool) -> bool {
    !in_flight
}

/// Whether a measurement is in flight after a start (`true`) or an end
/// (`false`). A start that is refused leaves one in flight.
pub open spec fn flight_after(start: bool) -> bool {
    start
}

/// Whether a measurement is in flight after a series of starts and ends.
pub open spec fn in_flight_after(trace: Seq<bool>) -> bool {
    trace.len() > 0 && flight_after(trace.last())
}

/// How many of the starts were accepted.
pub open spec fn accepted(trace: Seq<bool>) -> nat
    decreases trace.len(),
{
    if trace.len() == 0 {
        0
    } else {
        accepted(trace.drop_last()) + (if trace.last() && is_accepted(in_flight_after(trace.drop_last())) {
            1nat
        } else {
            0
        })
    }
}

/// How many ends there were.
pub open spec fn ended(trace: Seq<bool>) -> nat
    decreases trace.len(),
{
    if trace.len() == 0 {
        0
    } else {
        ended(trace.drop_last()) + (if trace.last() {
            0nat
        } else {
            1
        })
    }
}

/// Measurements do not overlap: however often one is asked for, at most one
/// more is accepted than have ended.
pub proof fn law_one_measurement_at_a_time(trace: Seq<bool>)
    ensures
        accepted(trace) <= ended(trace) + (if in_flight_after(trace) {
            1nat
        } else {
            0
        }),
    decreases trace.len(),
{
    if trace.len() > 0 {
        law_one_measurement_at_a_time(trace.drop_last());
    }
}

// ── A new network ──────────────────────────────────────────────────────────

/// The question whether to measure on a new network.
pub open spec fn new_network_question(current: Seq<char>, known: Seq<Seq<char>>) -> Seq<char> {
    "You're connected to \""@ + current + "\", which isn't one of this floor's measured networks ("@
        + window::listed(known) + ").\n\nRecord a sample on \""@ + current + "\"?"@
}

/// Ask when the user tries to measure on a network that isn't one of this
/// floor's measured networks.
pub fn show_new_network_confirm(current: &str, known: &Vec<String>) -> (r: Dialog)
    ensures
        window::asks(
            r,
            "New network"@,
            new_network_question(current@, names::views(known@)),
            seq![("cancel"@, "Cancel"@), ("ok"@, "Measure anyway"@)],
        ),
{
    let known_str = window::list_text(known);
    let mut body = "You're connected to \"".to_owned();
    body.append(current);
    body.append("\", which isn't one of this floor's measured networks (");
    body.append(known_str.as_str());
    body.append(").\n\nRecord a sample on \"");
    body.append(current);
    body.append("\"?");
    window::ask("New network", body, "ok", "Measure anyway")
}

/// What follows once the current network is known.
pub enum CheckedStep {
    Start,
    Confirm(Dialog),
}

/// The current network was found out (`None`: not connected). A network that
/// was not measured on this floor has to be confirmed.
pub fn network_checked(current: Option<&str>, known: &Vec<String>) -> (r: CheckedStep)
    ensures
        match current {
            Some(c) => if names::views(known@).contains(c@) {
                r is Start
            } else {
                r matches CheckedStep::Confirm(d) && window::asks(
                    d,
                    "New network"@,
                    new_network_question(c@, names::views(known@)),
                    seq![("cancel"@, "Cancel"@), ("ok"@, "Measure anyway"@)],
                )
            },
            None => r is Start,
        },
{
    match current {
        Some(c) => if names::contains(known, c) {
            CheckedStep::Start
        } else {
            CheckedStep::Confirm(show_new_network_confirm(c, known))
        },
        None => CheckedStep::Start,
    }
}

/// The answer to a yes-or-no question: `Ok` to go on, else what the user is
/// told. Closing the dialog is a no.
pub fn network_confirmed(response: &str) -> (r: Result<(), &'static str>)
    ensures
        r is Ok <==> response@ == "ok"@,
        r is Err ==> r->Err_0@ == "Measurement cancelled"@,
{
    if text::str_eq(response, "ok") {
        Ok(())
    } else {
        Err("Measurement cancelled")
    }
}

// ── What is recorded ───────────────────────────────────────────────────────

/// The record of an access point in range.
pub open spec fn entry_of(info: WifiInfo) -> ScanEntry {
    ScanEntry {
        ssid: info.ssid,
        bssid: info.bssid,
        frequency_mhz: info.frequency_mhz,
        channel: info.channel,
        signal_dbm: info.signal_dbm,
        is_active: info.is_active,
        channel_width_mhz: info.channel_width_mhz,
        center_freq_mhz: info.center_freq_mhz,
        center_freq2_mhz: info.center_freq2_mhz,
    }
}

/// The recorded part of a scan list: its first access points, as many as are
/// kept.
pub open spec fn recorded(list: Seq<WifiInfo>) -> Seq<ScanEntry> {
    let kept = if list.len() <= MAX_SCAN_RESULTS {
        list
    } else {
        list.take(MAX_SCAN_RESULTS as int)
    };
    kept.map_values(|info: WifiInfo| entry_of(info))
}

fn record_entry(info: &WifiInfo) -> (r: ScanEntry)
    ensures
        r == entry_of(*info),
{
    ScanEntry {
        ssid: info.ssid.clone(),
        bssid: info.bssid.clone(),
        frequency_mhz: info.frequency_mhz,
        channel: info.channel,
        signal_dbm: info.signal_dbm,
        is_active: info.is_active,
        channel_width_mhz: info.channel_width_mhz,
        center_freq_mhz: info.center_freq_mhz,
        center_freq2_mhz: info.center_freq2_mhz,
    }
}

/// The entries of a scan list to record with a measurement.
pub fn scan_entries(list: &Vec<WifiInfo>) -> (r: Vec<ScanEntry>)
    ensures
        r@ == recorded(list@),
{
    let mut r: Vec<ScanEntry> = Vec::new();
    let n: usize = if list.len() <= MAX_SCAN_RESULTS {
        list.len()
    } else {
        MAX_SCAN_RESULTS
    };
    for i in 0..n
        invariant
            n <= list@.len(),
            r@ == list@.take(i as int).map_values(|info: WifiInfo| entry_of(info)),
    {
        r.push(record_entry(&list[i]));
        assert(r@ =~= list@.take(i + 1).map_values(|info: WifiInfo| entry_of(info)));
    }
    assert(list@.take(list@.len() as int) =~= list@);
    assert(r@ =~= recorded(list@));
    r
}

/// Of a scan list that is sorted by signal, the strongest access points are
/// recorded: every one that is left out is no stronger than any that is kept.
pub proof fn law_strongest_are_recorded(list: Seq<WifiInfo>, kept: int, dropped: int)
    requires
        forall|i: int, j: int|
            0 <= i < j < list.len() ==> (#[trigger] list[i]).signal_dbm >= (
            #[trigger] list[j]).signal_dbm,
        0 <= kept < recorded(list).len(),
        recorded(list).len() <= dropped < list.len(),
    ensures
        recorded(list).len() == 40,
        recorded(list)[kept].signal_dbm >= list[dropped].signal_dbm,
{
    assert(recorded(list)[kept].signal_dbm == list[kept].signal_dbm);
}

/// The reading of an access point on a channel, where that is known.
pub open spec fn reading_on(info: WifiInfo, channel: Option<ChannelInfo>) -> WifiInfo {
    match channel {
        Some(ch) => WifiInfo {
            channel_width_mhz: ch.width_mhz,
            center_freq_mhz: ch.center_freq_mhz,
            center_freq2_mhz: ch.center_freq2_mhz,
            ..info
        },
        None => info,
    }
}

/// The channel of a card gives its width and centers, and changes nothing else;
/// without one nothing changes.
pub proof fn law_reading_on(info: WifiInfo, ch: ChannelInfo)
    ensures
        reading_on(info, None) == info,
        ({
            let r = reading_on(info, Some(ch));
            &&& r.channel_width_mhz == ch.width_mhz
            &&& r.center_freq_mhz == ch.center_freq_mhz
            &&& r.center_freq2_mhz == ch.center_freq2_mhz
            &&& r.ssid == info.ssid && r.bssid == info.bssid && r.device == info.device
            &&& r.frequency_mhz == info.frequency_mhz && r.channel == info.channel
            &&& r.signal_dbm == info.signal_dbm && r.is_active == info.is_active
            &&& r.link_speed_mbps == info.link_speed_mbps
        }),
{
}

/// The connected AP's reading with the channel that its card is on.
pub fn with_channel(info: &WifiInfo, channel: Option<ChannelInfo>) -> (r: WifiInfo)
    ensures
        r == (match channel {
            Some(ch) => WifiInfo {
                channel_width_mhz: ch.width_mhz,
                center_freq_mhz: ch.center_freq_mhz,
                center_freq2_mhz: ch.center_freq2_mhz,
                ..*info
            },
            None => *info,
        }),
        r == reading_on(*info, channel),
{
    let mut r = info.clone();
    if let Some(ch) = channel {
        r.channel_width_mhz = ch.width_mhz;
        r.center_freq_mhz = ch.center_freq_mhz;
        r.center_freq2_mhz = ch.center_freq2_mhz;
    }
    r
}

/// What a measurement found.
pub struct MeasureResult {
    pub rx: RealBits,
    pub ry: RealBits,
    /// The connected access point, if any.
    pub wifi: Option<WifiInfo>,
    /// The card that scanned when nothing is connected; empty without a card.
    pub device: String,
    /// All access points in range.
    pub scan: Vec<WifiInfo>,
    pub iperf_mbps: Option<RealBits>,
    pub iperf_error: Option<String>,
    pub smb_mbps: Option<RealBits>,
    pub smb_error: Option<String>,
}

/// The measurement recorded for a connected access point.
pub open spec fn is_measured(m: Measurement, result: MeasureResult, info: WifiInfo) -> bool {
    &&& exists|t: u32| t < 1_000_000_000 && m.id@ == #[trigger] clock::uuid_text(t)
    &&& clock::is_time(m.timestamp.spec_secs() as int, m.timestamp.spec_nanos() as int)
    &&& m.timestamp.spec_nanos() < 1_000_000_000
    &&& m.x == result.rx && m.y == result.ry
    &&& m.ssid == info.ssid && m.bssid == info.bssid
    &&& m.frequency_mhz == info.frequency_mhz
    &&& m.channel == info.channel
    &&& m.signal_dbm == info.signal_dbm
    &&& m.noise_dbm is None && m.link_speed_mbps is None
    &&& m.iperf_mbps == result.iperf_mbps && m.smb_mbps == result.smb_mbps
    &&& !m.no_signal
    &&& m.scan_results@ == recorded(result.scan@)
    &&& m.channel_width_mhz == info.channel_width_mhz
    &&& m.center_freq_mhz == info.center_freq_mhz
    &&& m.center_freq2_mhz == info.center_freq2_mhz
    &&& m.device == info.device
}

/// The measurement of a connected access point.
pub fn measured(result: &MeasureResult, info: &WifiInfo) -> (m: Measurement)
    ensures
        is_measured(m, *result, *info),
{
    let mut m = Measurement::new(
        result.rx,
        result.ry,
        info.ssid.clone(),
        info.bssid.clone(),
        info.frequency_mhz,
        info.channel,
        info.signal_dbm,
    );
    m.iperf_mbps = result.iperf_mbps;
    m.smb_mbps = result.smb_mbps;
    m.scan_results = scan_entries(&result.scan);
    m.channel_width_mhz = info.channel_width_mhz;
    m.center_freq_mhz = info.center_freq_mhz;
    m.center_freq2_mhz = info.center_freq2_mhz;
    m.device = info.device.clone();
    m
}

/// The "no signal" point recorded with what a scan found there.
pub open spec fn is_no_signal_point(
    m: Measurement,
    rx: RealBits,
    ry: RealBits,
    device: Seq<char>,
    scan: Seq<WifiInfo>,
) -> bool {
    &&& exists|t: u32| t < 1_000_000_000 && m.id@ == #[trigger] clock::uuid_text(t)
    &&& clock::is_time(m.timestamp.spec_secs() as int, m.timestamp.spec_nanos() as int)
    &&& m.timestamp.spec_nanos() < 1_000_000_000
    &&& m.x == rx && m.y == ry
    &&& m.ssid@.len() == 0 && m.bssid@.len() == 0
    &&& m.frequency_mhz == 0 && m.channel == 0 && m.signal_dbm == -90
    &&& m.noise_dbm is None && m.link_speed_mbps is None
    &&& m.iperf_mbps is None && m.smb_mbps is None
    &&& m.no_signal
    &&& m.scan_results@ == recorded(scan)
    &&& m.channel_width_mhz is None && m.center_freq_mhz is None && m.center_freq2_mhz is None
    &&& m.device@ == device
}

/// `m` is put at the end of the measurements of the floor that is shown, and
/// nothing else changes.
pub open spec fn gains(before: AppState, after: AppState, m: Measurement) -> bool {
    let i = before.current_floor as int;
    let points = after.project.floors@[i].measurements;
    &&& window::only_shown_changes(
        before,
        after,
        Floor { measurements: points, ..before.project.floors@[i] },
    )
    &&& points@ == before.project.floors@[i].measurements@.push(m)
}

/// Record a measurement on the floor that is shown. Returns whether there is
/// such a floor.
fn record(state: &mut AppState, m: Measurement) -> (r: bool)
    ensures
        r == old(state).shows_a_floor(),
        r ==> gains(*old(state), *final(state), m),
        !r ==> *final(state) == *old(state),
{
    let i: usize = state.current_floor;
    if i < state.project.floors.len() {
        state.project.floors[i].add_measurement(m);
        true
    } else {
        false
    }
}

/// Record a "no signal" point with what a scan found there (at most
/// `MAX_SCAN_RESULTS` access points; none when no card could scan). Returns its
/// id, or `None` when no floor is shown.
pub fn record_no_signal_point(
    state: &mut AppState,
    rx: RealBits,
    ry: RealBits,
    device: &str,
    scan: &Vec<WifiInfo>,
) -> (r: Option<String>)
    ensures
        r is Some <==> old(state).shows_a_floor(),
        r matches Some(id) ==> exists|m: Measurement| #[trigger]
            gains(*old(state), *final(state), m) && is_no_signal_point(m, rx, ry, device@, scan@)
                && m.id@ == id@,
        r is None ==> *final(state) == *old(state),
{
    let mut m = Measurement::no_signal(rx, ry);
    m.scan_results = scan_entries(scan);
    m.device = device.to_owned();
    let id = m.id.clone();
    if record(state, m) {
        Some(id)
    } else {
        None
    }
}

// ── What the user is told ──────────────────────────────────────────────────

/// The question whether to record a "no signal" point, with the number of
/// access points that a scan found.
pub open spec fn no_signal_question(count: nat) -> Seq<char> {
    "No WiFi connection was detected at this point.\n\n"@ + text::dec(count)
        + " APs in range.\n\nRecord it as a \"no signal\" point to mark this as a dead zone?"@
}

/// Ask when no WiFi connection is detected at the measurement point.
pub fn show_no_signal_confirm(count: usize) -> (r: Dialog)
    ensures
        window::asks(
            r,
            "No WiFi connection"@,
            no_signal_question(count as nat),
            seq![("cancel"@, "Cancel"@), ("ok"@, "Record 'no signal'"@)],
        ),
{
    let mut body = "No WiFi connection was detected at this point.\n\n".to_owned();
    text::push_dec(&mut body, count as u64);
    body.append(
        " APs in range.\n\nRecord it as a \"no signal\" point to mark this as a dead zone?",
    );
    window::ask("No WiFi connection", body, "ok", "Record 'no signal'")
}

/// The messages about failed speed tests, in order.
pub open spec fn error_toasts(iperf: Option<Seq<char>>, smb: Option<Seq<char>>) -> Seq<Seq<char>> {
    (match iperf {
        Some(e) => seq!["iperf3 error: "@ + e],
        None => Seq::empty(),
    }) + (match smb {
        Some(e) => seq!["Samba error: "@ + e],
        None => Seq::empty(),
    })
}

/// The messages about failed speed tests.
pub fn speed_test_errors(iperf_error: &Option<String>, smb_error: &Option<String>) -> (r: Vec<
    String,
>)
    ensures
        names::views(r@) == error_toasts(
            crate::models::text_view(*iperf_error),
            crate::models::text_view(*smb_error),
        ),
{
    let mut r: Vec<String> = Vec::new();
    if let Some(e) = iperf_error {
        let mut s = "iperf3 error: ".to_owned();
        s.append(e.as_str());
        r.push(s);
    }
    if let Some(e) = smb_error {
        let mut s = "Samba error: ".to_owned();
        s.append(e.as_str());
        r.push(s);
    }
    assert(names::views(r@) =~= error_toasts(
        crate::models::text_view(*iperf_error),
        crate::models::text_view(*smb_error),
    ));
    r
}

/// The message about a recorded measurement; `iperf` is the short text of its
/// throughput.
pub open spec fn measured_toast(info: WifiInfo, has_iperf: bool, iperf: Seq<char>) -> Seq<char> {
    text::dec_int(info.signal_dbm as int) + " dBm | "@ + info.ssid@ + (if has_iperf {
        " | ⚡"@ + iperf
    } else {
        Seq::empty()
    })
}

fn measured_message(info: &WifiInfo, has_iperf: bool, iperf: &str) -> (r: String)
    ensures
        r@ == measured_toast(*info, has_iperf, iperf@),
{
    let mut s = text::int_text(info.signal_dbm as i64);
    s.append(" dBm | ");
    s.append(info.ssid.as_str());
    if has_iperf {
        s.append(" | ⚡");
        s.append(iperf);
    }
    assert(s@ =~= measured_toast(*info, has_iperf, iperf@));
    s
}

/// How a measurement ended.
pub enum Outcome {
    /// Nothing is connected: ask whether to record a "no signal" point.
    AskNoSignal(Dialog),
    /// The measurement with this id was recorded.
    Recorded(String),
    /// There is no floor to record it on.
    NoFloor,
}

/// The end of a measurement: the messages to show, in order, and the outcome.
pub struct Completion {
    pub toasts: Vec<String>,
    pub outcome: Outcome,
}

/// A measurement has come back. A connected access point is recorded on the
/// floor that is shown; without one, the user is asked. Speed-test errors are
/// reported in any case. `iperf` is the short text of the throughput.
pub fn complete_measurement(state: &mut AppState, result: &MeasureResult, iperf: &str) -> (r:
    Completion)
    ensures
        ({
            let errors = error_toasts(
                crate::models::text_view(result.iperf_error),
                crate::models::text_view(result.smb_error),
            );
            match result.wifi {
                Some(info) => if old(state).shows_a_floor() {
                    &&& exists|m: Measurement| #[trigger]
                        gains(*old(state), *final(state), m) && is_measured(m, *result, info)
                            && (r.outcome matches Outcome::Recorded(id) && id@ == m.id@)
                    &&& names::views(r.toasts@) == errors.push(
                        measured_toast(info, result.iperf_mbps is Some, iperf@),
                    )
                } else {
                    &&& r.outcome is NoFloor
                    &&& *final(state) == *old(state)
                    &&& names::views(r.toasts@) == errors
                },
                None => {
                    &&& r.outcome matches Outcome::AskNoSignal(d) && window::asks(
                        d,
                        "No WiFi connection"@,
                        no_signal_question(result.scan@.len()),
                        seq![("cancel"@, "Cancel"@), ("ok"@, "Record 'no signal'"@)],
                    )
                    &&& *final(state) == *old(state)
                    &&& names::views(r.toasts@) == errors
                },
            }
        }),
{
    let mut toasts = speed_test_errors(&result.iperf_error, &result.smb_error);
    match &result.wifi {
        Some(info) => {
            let m = measured(result, info);
            let id = m.id.clone();
            if record(state, m) {
                let ghost before = toasts@;
                toasts.push(measured_message(info, result.iperf_mbps.is_some(), iperf));
                assert(names::views(toasts@) =~= names::views(before).push(
                    measured_toast(*info, result.iperf_mbps is Some, iperf@),
                ));
                Completion { toasts, outcome: Outcome::Recorded(id) }
            } else {
                Completion { toasts, outcome: Outcome::NoFloor }
            }
        },
        None => {
            let dialog = show_no_signal_confirm(result.scan.len());
            Completion { toasts, outcome: Outcome::AskNoSignal(dialog) }
        },
    }
}

/// A recorded measurement comes last on its floor, and those recorded before it
/// stay as they were.
pub proof fn law_recorded_is_kept(before: AppState, after: AppState, m: Measurement, i: int)
    requires
        gains(before, after, m),
        0 <= i < before.shown_points().len(),
    ensures
        after.shown_points().len() == before.shown_points().len() + 1,
        after.shown_points().last() == m,
        after.shown_points()[i] == before.shown_points()[i],
{
}

/// Measuring on a network makes it a known one, so that it is not asked about
/// again; a "no signal" point makes no network known.
pub proof fn law_measured_network_is_known(before: AppState, after: AppState, m: Measurement)
    requires
        gains(before, after, m),
    ensures
        !m.no_signal && m.ssid@.len() > 0 ==> window::known_of(after.shown_points()).contains(
            m.ssid@,
        ),
        m.no_signal ==> window::known_of(after.shown_points()) == window::known_of(
            before.shown_points(),
        ),
{
    let ssids = crate::models::project::point_ssids(before.shown_points());
    let name = crate::models::project::point_ssid(m);
    assert(crate::models::project::point_ssids(after.shown_points()) =~= ssids.push(name));
    names::lemma_distinct_push(ssids, name);
    if !m.no_signal && m.ssid@.len() > 0 {
        let known = names::distinct_present(ssids);
        if !known.contains(name) {
            assert(known.push(name).last() == name);
            assert(known.push(name).contains(name));
        }
    }
}

/// A measurement can start at first, and whenever the one before has ended; it
/// cannot while one is in flight.
pub proof fn law_starts_are_accepted(trace: Seq<bool>)
    ensures
        is_accepted(in_flight_after(Seq::empty())),
        is_accepted(in_flight_after(trace.push(false))),
        !is_accepted(in_flight_after(trace.push(true))),
{
}

/// The record of an access point holds each of its values.
pub proof fn law_entry_of(info: WifiInfo)
    ensures
        ({
            let e = entry_of(info);
            &&& e.ssid == info.ssid && e.bssid == info.bssid
            &&& e.frequency_mhz == info.frequency_mhz && e.channel == info.channel
            &&& e.signal_dbm == info.signal_dbm && e.is_active == info.is_active
            &&& e.channel_width_mhz == info.channel_width_mhz
            &&& e.center_freq_mhz == info.center_freq_mhz
            &&& e.center_freq2_mhz == info.center_freq2_mhz
        }),
{
}

/// The first forty access points of a scan are recorded, in order; a shorter
/// list is recorded whole.
pub proof fn law_recorded(list: Seq<WifiInfo>, i: int)
    ensures
        list.len() <= 40 ==> recorded(list).len() == list.len(),
        list.len() > 40 ==> recorded(list).len() == 40,
        0 <= i < recorded(list).len() ==> recorded(list)[i] == entry_of(list[i]),
{
}

/// A measurement records what was found: the place, the connected access point,
/// both throughputs, each as its own, the scan list and the card.
pub proof fn law_measured(m: Measurement, result: MeasureResult, info: WifiInfo)
    requires
        is_measured(m, result, info),
    ensures
        m.x == result.rx && m.y == result.ry,
        m.ssid@ == info.ssid@ && m.bssid@ == info.bssid@,
        m.frequency_mhz == info.frequency_mhz && m.channel == info.channel,
        m.signal_dbm == info.signal_dbm,
        m.iperf_mbps == result.iperf_mbps,
        m.smb_mbps == result.smb_mbps,
        m.channel_width_mhz == info.channel_width_mhz,
        m.center_freq_mhz == info.center_freq_mhz,
        m.center_freq2_mhz == info.center_freq2_mhz,
        m.device@ == info.device@,
        m.scan_results@ == recorded(result.scan@),
        !m.no_signal,
        crate::models::signal_source::signal_of(
            m,
            crate::models::signal_source::SourceView::ConnectedAp,
        ) == Some(info.signal_dbm),
{
}

/// A "no signal" point records the place, the card and what a scan found there,
/// and no connection or throughput at all.
pub proof fn law_no_signal_point(
    m: Measurement,
    rx: RealBits,
    ry: RealBits,
    device: Seq<char>,
    scan: Seq<WifiInfo>,
)
    requires
        is_no_signal_point(m, rx, ry, device, scan),
    ensures
        m.x == rx && m.y == ry,
        m.no_signal,
        m.ssid@.len() == 0 && m.bssid@.len() == 0,
        m.iperf_mbps is None && m.smb_mbps is None,
        m.device@ == device,
        m.scan_results@ == recorded(scan),
        crate::models::measurement::quality_percent(m.signal_dbm as int) == 0,
{
}

/// Recording a measurement changes the floor that is shown and nothing else:
/// the other floors, the aliases and the rest of that floor stay as they were.
pub proof fn law_recording_changes_one_floor(
    before: AppState,
    after: AppState,
    m: Measurement,
    i: int,
)
    requires
        gains(before, after, m),
        0 <= i < before.project.floors@.len(),
    ensures
        after.project.floors@.len() == before.project.floors@.len(),
        i != before.current_floor ==> after.project.floors@[i] == before.project.floors@[i],
        i == before.current_floor ==> after.project.floors@[i] == (Floor {
            measurements: after.project.floors@[i].measurements,
            ..before.project.floors@[i]
        }),
        after.current_floor == before.current_floor,
        after.project_path == before.project_path,
        after.project.name == before.project.name,
        after.project.bssid_aliases == before.project.bssid_aliases,
{
}

/// Each failed speed test has its own message, with its own error: first that
/// of iperf3, then that of Samba.
pub proof fn law_error_toasts(iperf: Option<Seq<char>>, smb: Option<Seq<char>>)
    ensures
        error_toasts(iperf, smb).len() == (if iperf is Some {
            1int
        } else {
            0
        }) + (if smb is Some {
            1int
        } else {
            0
        }),
        iperf matches Some(e) ==> text::starts_with(error_toasts(iperf, smb)[0], "iperf3"@)
            && text::ends_with(error_toasts(iperf, smb)[0], e),
        smb matches Some(e) ==> text::starts_with(error_toasts(iperf, smb).last(), "Samba"@)
            && text::ends_with(error_toasts(iperf, smb).last(), e),
{
    reveal_strlit("iperf3 error: ");
    reveal_strlit("iperf3");
    reveal_strlit("Samba error: ");
    reveal_strlit("Samba");
    if let Some(e) = iperf {
        text::law_parts("iperf3 error: "@, e);
        assert(("iperf3 error: "@ + e).take(6) =~= "iperf3"@);
    }
    if let Some(e) = smb {
        text::law_parts("Samba error: "@, e);
        assert(("Samba error: "@ + e).take(5) =~= "Samba"@);
    }
}

/// The message about a measurement tells its level and its network, and the
/// throughput exactly where there is one.
pub proof fn law_measured_toast(info: WifiInfo, iperf: Seq<char>)
    ensures
        ({
            let plain = text::dec_int(info.signal_dbm as int) + " dBm | "@ + info.ssid@;
            &&& measured_toast(info, false, iperf) == plain
            &&& text::starts_with(measured_toast(info, true, iperf), plain)
            &&& text::ends_with(measured_toast(info, true, iperf), iperf)
        }),
{
    let plain = text::dec_int(info.signal_dbm as int) + " dBm | "@ + info.ssid@;
    assert(measured_toast(info, false, iperf) =~= plain);
    text::law_parts(" | ⚡"@ + iperf, plain);
    text::lemma_grouping(plain, " | ⚡"@, iperf);
    text::law_parts(plain + " | ⚡"@, iperf);
}

/// The questions name the network and count the access points that they are
/// about.
pub proof fn law_questions(current: Seq<char>, known: Seq<Seq<char>>, count: nat)
    ensures
        text::mentions(new_network_question(current, known), current),
        text::mentions(new_network_question(current, known), window::listed(known)),
        text::mentions(no_signal_question(count), text::dec(count)),
{
    let a = "You're connected to \""@;
    let b = "\", which isn't one of this floor's measured networks ("@;
    let c = ").\n\nRecord a sample on \""@;
    let list = window::listed(known);
    text::lemma_mentions_last(a, current);
    text::lemma_more_behind(a + current, b, current);
    text::lemma_more_behind(a + current + b, list, current);
    text::lemma_more_behind(a + current + b + list, c, current);
    text::lemma_more_behind(a + current + b + list + c, current, current);
    text::lemma_more_behind(a + current + b + list + c + current, "\"?"@, current);
    text::lemma_mentions_last(a + current + b, list);
    text::lemma_more_behind(a + current + b + list, c, list);
    text::lemma_more_behind(a + current + b + list + c, current, list);
    text::lemma_more_behind(a + current + b + list + c + current, "\"?"@, list);
    text::lemma_mentions(
        "No WiFi connection was detected at this point.\n\n"@,
        text::dec(count),
        " APs in range.\n\nRecord it as a \"no signal\" point to mark this as a dead zone?"@,
    );
}

/// A speed test runs exactly if it is enabled and has a server; the settings of
/// the other test do not matter.
pub proof fn law_speed_tests(t: SpeedTests, other: SpeedTests)
    ensures
        t.with_iperf() <==> t.iperf_enabled && t.iperf_server@ != Seq::<char>::empty(),
        t.with_smb() <==> t.smb_enabled && t.smb_server@ != Seq::<char>::empty(),
        (SpeedTests { smb_enabled: other.smb_enabled, smb_server: other.smb_server, ..t }).with_iperf()
            == t.with_iperf(),
        (SpeedTests {
            iperf_enabled: other.iperf_enabled,
            iperf_server: other.iperf_server,
            ..t
        }).with_smb() == t.with_smb(),
{
    assert(t.iperf_server@.len() == 0 ==> t.iperf_server@ =~= Seq::empty());
    assert(t.smb_server@.len() == 0 ==> t.smb_server@ =~= Seq::empty());
}

} // verus!
