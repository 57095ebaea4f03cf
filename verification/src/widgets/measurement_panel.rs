//! Texts and choices of the measurement panel: the current signal, the list of
//! measurements and the details of the selected one.

use crate::clock;
use crate::find;
use crate::models;
use crate::models::Measurement;
use crate::models::ScanEntry;
use crate::models::SignalSource;
use crate::names;
use crate::services::WifiInfo;
use crate::text;
use crate::text_map::TextMap;
use vstd::prelude::*;
use vstd::string::StringExecFns;

verus! {

/// Human-readable rating of a signal level.
pub open spec fn quality_name(dbm: int) -> Seq<char> {
    if -50 <= dbm <= 0 {
        "Excellent"@
    } else if -60 <= dbm <= -51 {
        "Good"@
    } else if -70 <= dbm <= -61 {
        "Fair"@
    } else if -80 <= dbm <= -71 {
        "Poor"@
    } else {
        "No signal"@
    }
}

/// Human-readable rating of a signal level.
pub fn signal_quality_str(dbm: i32) -> (r: &'static str)
    ensures
        r@ == quality_name(dbm as int),
{
    if -50 <= dbm && dbm <= 0 {
        "Excellent"
    } else if -60 <= dbm && dbm <= -51 {
        "Good"
    } else if -70 <= dbm && dbm <= -61 {
        "Fair"
    } else if -80 <= dbm && dbm <= -71 {
        "Poor"
    } else {
        "No signal"
    }
}

// ── Access point labels ────────────────────────────────────────────────────

/// The label of an access point: "alias (MAC)", or the MAC address without an
/// alias.
pub open spec fn full_label(aliases: Map<Seq<char>, String>, bssid: Seq<char>) -> Seq<char> {
    if aliases.contains_key(bssid) {
        aliases[bssid]@ + " ("@ + bssid + ")"@
    } else {
        bssid
    }
}

/// Display label for an AP line: "alias (MAC)" when an alias is set, otherwise
/// the MAC address.
pub fn ap_full_label(aliases: &TextMap<String>, bssid: &str) -> (r: String)
    ensures
        r@ == full_label(aliases@, bssid@),
{
    match aliases.get(bssid) {
        Some(a) => {
            let mut s = a.clone();
            s.append(" (");
            s.append(bssid);
            s.append(")");
            s
        },
        None => bssid.to_owned(),
    }
}

/// `" "` in front of a width tag that is there.
pub open spec fn spaced_tag(width: Option<u32>, center2: Option<u32>) -> Seq<char> {
    match models::tag_text(width, center2) {
        Some(t) => " "@ + t,
        None => Seq::empty(),
    }
}

fn push_spaced_tag(s: &mut String, width: Option<u32>, center2: Option<u32>)
    ensures
        final(s)@ == old(s)@ + spaced_tag(width, center2),
{
    if let Some(t) = models::width_tag(width, center2) {
        s.append(" ");
        s.append(t.as_str());
    }
    assert(s@ =~= old(s)@ + spaced_tag(width, center2));
}

/// The dot in front of the associated access point.
pub open spec fn marker(is_active: bool) -> Seq<char> {
    if is_active {
        "● "@
    } else {
        "  "@
    }
}

fn marker_str(is_active: bool) -> (r: &'static str)
    ensures
        r@ == marker(is_active),
{
    if is_active {
        "● "
    } else {
        "  "
    }
}

// ── The SSID in range ──────────────────────────────────────────────────────

/// How many readings are of an SSID.
pub open spec fn count_of_ssid(list: Seq<WifiInfo>, ssid: Seq<char>) -> nat
    decreases list.len(),
{
    if list.len() == 0 {
        0
    } else {
        count_of_ssid(list.drop_last(), ssid) + (if list.last().ssid@ == ssid {
            1nat
        } else {
            0
        })
    }
}

/// The line of one access point of the SSID.
pub open spec fn group_line(e: WifiInfo, aliases: Map<Seq<char>, String>) -> Seq<char> {
    "\n"@ + marker(e.is_active) + full_label(aliases, e.bssid@) + "  "@ + text::dec_int(
        e.signal_dbm as int,
    ) + " dBm"@ + (if e.channel > 0 {
        " ch"@ + text::dec(e.channel as nat) + " "@ + models::band_text(e.frequency_mhz)
    } else {
        models::band_text(e.frequency_mhz)
    }) + spaced_tag(e.channel_width_mhz, e.center_freq2_mhz)
}

/// The lines of all access points of the SSID, in order.
pub open spec fn group_lines(
    list: Seq<WifiInfo>,
    ssid: Seq<char>,
    aliases: Map<Seq<char>, String>,
) -> Seq<char>
    decreases list.len(),
{
    if list.len() == 0 {
        Seq::empty()
    } else if list.last().ssid@ == ssid {
        group_lines(list.drop_last(), ssid, aliases) + group_line(list.last(), aliases)
    } else {
        group_lines(list.drop_last(), ssid, aliases)
    }
}

/// The block of access points that broadcast an SSID. A single one (the
/// connected AP itself) is nothing extra to show.
pub open spec fn group_text(
    ssid: Seq<char>,
    list: Seq<WifiInfo>,
    aliases: Map<Seq<char>, String>,
) -> Option<Seq<char>> {
    let n = count_of_ssid(list, ssid);
    if n < 2 {
        None
    } else {
        Some(
            "\n── This SSID in range ("@ + text::dec(n) + " APs) ──"@ + group_lines(
                list,
                ssid,
                aliases,
            ),
        )
    }
}

fn push_group_line(s: &mut String, e: &WifiInfo, aliases: &TextMap<String>)
    ensures
        final(s)@ == old(s)@ + group_line(*e, aliases@),
{
    let ghost before = s@;
    s.append("\n");
    s.append(marker_str(e.is_active));
    let label = ap_full_label(aliases, e.bssid.as_str());
    s.append(label.as_str());
    s.append("  ");
    text::push_int(s, e.signal_dbm as i64);
    s.append(" dBm");
    if e.channel > 0 {
        s.append(" ch");
        text::push_dec(s, e.channel as u64);
        s.append(" ");
    }
    s.append(models::band_label(e.frequency_mhz));
    push_spaced_tag(s, e.channel_width_mhz, e.center_freq2_mhz);
    assert(s@ =~= before + group_line(*e, aliases@));
}

/// Text for the "APs broadcasting the current SSID" block shown in the live
/// Current Signal panel. `None` when there is nothing extra to show (empty
/// list, or only the connected AP itself is in range).
pub fn same_ssid_group_text(ssid: &str, list: &Vec<WifiInfo>, aliases: &TextMap<String>) -> (r:
    Option<String>)
    ensures
        models::text_view(r) == group_text(ssid@, list@, aliases@),
{
    let mut count: u64 = 0;
    let n: usize = list.len();
    let mut lines = String::new();
    for i in 0..n
        invariant
            n == list@.len(),
            count == count_of_ssid(list@.take(i as int), ssid@),
            count <= i,
            lines@ == group_lines(list@.take(i as int), ssid@, aliases@),
    {
        assert(list@.take(i + 1).drop_last() =~= list@.take(i as int));
        if text::str_eq(list[i].ssid.as_str(), ssid) {
            count = count + 1;
            push_group_line(&mut lines, &list[i], aliases);
        }
    }
    assert(list@.take(n as int) =~= list@);
    if count < 2 {
        return None;
    }
    let mut s = "\n── This SSID in range (".to_owned();
    text::push_dec(&mut s, count);
    s.append(" APs) ──");
    s.append(lines.as_str());
    Some(s)
}

// ── The table of all networks ──────────────────────────────────────────────

/// The SSID cell of a table row: a dot for a marked access point, and a
/// placeholder for a hidden SSID.
pub open spec fn ssid_cell(e: ScanEntry, marks: Seq<Seq<char>>) -> Seq<char> {
    let base = if e.ssid@.len() == 0 {
        "(hidden)"@
    } else {
        e.ssid@
    };
    if marks.contains(e.bssid@) {
        "● "@ + base
    } else {
        base
    }
}

fn ssid_cell_text(e: &ScanEntry, marks: &Vec<String>) -> (r: String)
    ensures
        r@ == ssid_cell(*e, names::views(marks@)),
{
    let base = if e.ssid.as_str().is_empty() {
        "(hidden)"
    } else {
        e.ssid.as_str()
    };
    if names::contains(marks, e.bssid.as_str()) {
        let mut s = "● ".to_owned();
        s.append(base);
        s
    } else {
        base.to_owned()
    }
}

/// The width cell of a table row, empty for 20 MHz or unknown.
pub open spec fn width_cell(e: ScanEntry) -> Seq<char> {
    match models::tag_text(e.channel_width_mhz, e.center_freq2_mhz) {
        Some(t) => t,
        None => Seq::empty(),
    }
}

fn width_cell_text(e: &ScanEntry) -> (r: String)
    ensures
        r@ == width_cell(*e),
{
    match models::width_tag(e.channel_width_mhz, e.center_freq2_mhz) {
        Some(t) => t,
        None => String::new(),
    }
}

/// The entries behind references.
pub open spec fn entries_of(entries: Seq<&ScanEntry>) -> Seq<ScanEntry> {
    entries.map_values(|e: &ScanEntry| *e)
}

/// The size in bytes of the longest cell.
pub open spec fn longest(entries: Seq<ScanEntry>, cell: spec_fn(ScanEntry) -> Seq<char>) -> nat
    decreases entries.len(),
{
    if entries.len() == 0 {
        0
    } else {
        let rest = longest(entries.drop_last(), cell);
        let here = text::byte_len(cell(entries.last()));
        if here > rest {
            here
        } else {
            rest
        }
    }
}

/// The number of characters of the longest cell.
pub open spec fn most_chars(entries: Seq<ScanEntry>, cell: spec_fn(ScanEntry) -> Seq<char>) -> nat
    decreases entries.len(),
{
    if entries.len() == 0 {
        0
    } else {
        max_nat(most_chars(entries.drop_last(), cell), cell(entries.last()).len())
    }
}

proof fn lemma_most_chars(entries: Seq<ScanEntry>, cell: spec_fn(ScanEntry) -> Seq<char>, i: int)
    requires
        0 <= i < entries.len(),
    ensures
        cell(entries[i]).len() <= most_chars(entries, cell),
    decreases entries.len(),
{
    if i < entries.len() - 1 {
        lemma_most_chars(entries.drop_last(), cell, i);
    }
}

proof fn lemma_longest(entries: Seq<ScanEntry>, cell: spec_fn(ScanEntry) -> Seq<char>, i: int)
    requires
        0 <= i < entries.len(),
    ensures
        text::byte_len(cell(entries[i])) <= longest(entries, cell),
    decreases entries.len(),
{
    if i < entries.len() - 1 {
        lemma_longest(entries.drop_last(), cell, i);
    }
}

/// The column widths of the table.
pub struct Columns {
    pub ssid: usize,
    pub ap: usize,
    pub width: usize,
    /// The WIDTH column is hidden when no entry has width data.
    pub show_width: bool,
}

pub open spec fn max_nat(a: nat, b: nat) -> nat {
    if a > b {
        a
    } else {
        b
    }
}

/// The SSID column has the size in bytes of the longest cell, between 4 and 26,
/// and is never narrower than a cell.
pub open spec fn ssid_width(entries: Seq<ScanEntry>, marks: Seq<Seq<char>>) -> nat {
    let cell = |e: ScanEntry| ssid_cell(e, marks);
    let size = longest(entries, cell);
    max_nat(max_nat(4, if size > 26 {
        26
    } else {
        size
    }), most_chars(entries, cell))
}

/// The AP column fits "alias (MAC)".
pub open spec fn ap_width(entries: Seq<ScanEntry>, aliases: Map<Seq<char>, String>) -> nat {
    max_nat(17, longest(entries, |e: ScanEntry| full_label(aliases, e.bssid@)))
}

/// The WIDTH column fits its title and the longest tag.
pub open spec fn width_width(entries: Seq<ScanEntry>) -> nat {
    max_nat(5, longest(entries, |e: ScanEntry| width_cell(e)))
}

pub open spec fn are_columns(
    c: Columns,
    entries: Seq<ScanEntry>,
    aliases: Map<Seq<char>, String>,
    marks: Seq<Seq<char>>,
) -> bool {
    &&& c.ssid == ssid_width(entries, marks)
    &&& c.ap == ap_width(entries, aliases)
    &&& c.width == width_width(entries)
    &&& c.show_width == (longest(entries, |e: ScanEntry| width_cell(e)) > 0)
}

/// One line of the table: SSID and AP left-aligned, signal and channel
/// right-aligned, then the width (left-aligned) where it is shown and the band
/// (right-aligned).
pub open spec fn table_line(
    c: Columns,
    fill: char,
    ssid: Seq<char>,
    ap: Seq<char>,
    signal: Seq<char>,
    channel: Seq<char>,
    width: Seq<char>,
    band: Seq<char>,
) -> Seq<char> {
    text::pad_right(ssid, c.ssid as nat, fill) + "  "@ + text::pad_right(ap, c.ap as nat, fill)
        + "  "@ + text::pad_left(signal, 7, fill) + "  "@ + text::pad_left(channel, 3, fill)
        + "  "@ + (if c.show_width {
        text::pad_right(width, c.width as nat, fill) + "  "@
    } else {
        Seq::empty()
    }) + text::pad_left(band, 7, fill) + "\n"@
}

fn push_table_line(
    s: &mut String,
    c: &Columns,
    fill: &str,
    ssid: &str,
    ap: &str,
    signal: &str,
    channel: &str,
    width: &str,
    band: &str,
)
    requires
        fill@.len() == 1,
    ensures
        final(s)@ == old(s)@ + table_line(
            *c,
            fill@[0],
            ssid@,
            ap@,
            signal@,
            channel@,
            width@,
            band@,
        ),
{
    let ghost before = s@;
    text::push_padded_right(s, ssid, c.ssid, fill);
    s.append("  ");
    text::push_padded_right(s, ap, c.ap, fill);
    s.append("  ");
    text::push_padded_left(s, signal, 7, fill);
    s.append("  ");
    text::push_padded_left(s, channel, 3, fill);
    s.append("  ");
    if c.show_width {
        text::push_padded_right(s, width, c.width, fill);
        s.append("  ");
    }
    text::push_padded_left(s, band, 7, fill);
    s.append("\n");
    assert(s@ =~= before + table_line(
        *c,
        fill@[0],
        ssid@,
        ap@,
        signal@,
        channel@,
        width@,
        band@,
    ));
}

/// The line of one entry.
pub open spec fn entry_line(
    c: Columns,
    e: ScanEntry,
    aliases: Map<Seq<char>, String>,
    marks: Seq<Seq<char>>,
) -> Seq<char> {
    table_line(
        c,
        ' ',
        ssid_cell(e, marks),
        full_label(aliases, e.bssid@),
        text::dec_int(e.signal_dbm as int),
        text::dec(e.channel as nat),
        width_cell(e),
        models::band_text(e.frequency_mhz),
    )
}

pub open spec fn entry_lines(
    c: Columns,
    entries: Seq<ScanEntry>,
    aliases: Map<Seq<char>, String>,
    marks: Seq<Seq<char>>,
) -> Seq<char>
    decreases entries.len(),
{
    if entries.len() == 0 {
        Seq::empty()
    } else {
        entry_lines(c, entries.drop_last(), aliases, marks) + entry_line(
            c,
            entries.last(),
            aliases,
            marks,
        )
    }
}

pub open spec fn header_line(c: Columns) -> Seq<char> {
    table_line(c, ' ', "SSID"@, "AP"@, "SIGNAL"@, "CH"@, "WIDTH"@, "BAND"@)
}

pub open spec fn rule_line(c: Columns) -> Seq<char> {
    table_line(c, '-', ""@, ""@, ""@, ""@, ""@, ""@)
}

/// The whole table: header, rule, one line per entry.
pub open spec fn table_text(
    c: Columns,
    entries: Seq<ScanEntry>,
    aliases: Map<Seq<char>, String>,
    marks: Seq<Seq<char>>,
) -> Seq<char> {
    header_line(c) + rule_line(c) + entry_lines(c, entries, aliases, marks)
}

fn table_columns(
    entries: &Vec<&ScanEntry>,
    aliases: &TextMap<String>,
    marks: &Vec<String>,
) -> (c: Columns)
    ensures
        are_columns(c, entries_of(entries@), aliases@, names::views(marks@)),
{
    let ghost all = entries_of(entries@);
    let ghost mark_names = names::views(marks@);
    let ghost of_ssid = |e: ScanEntry| ssid_cell(e, mark_names);
    let ghost of_ap = |e: ScanEntry| full_label(aliases@, e.bssid@);
    let ghost of_width = |e: ScanEntry| width_cell(e);
    let mut ssid: usize = 0;
    let mut ssid_chars: usize = 0;
    let mut ap: usize = 0;
    let mut width: usize = 0;
    let n: usize = entries.len();
    for i in 0..n
        invariant
            n == entries@.len(),
            all == entries_of(entries@),
            mark_names == names::views(marks@),
            of_ssid == (|e: ScanEntry| ssid_cell(e, mark_names)),
            of_ap == (|e: ScanEntry| full_label(aliases@, e.bssid@)),
            of_width == (|e: ScanEntry| width_cell(e)),
            ssid == longest(all.take(i as int), of_ssid),
            ssid_chars == most_chars(all.take(i as int), of_ssid),
            ap == longest(all.take(i as int), of_ap),
            width == longest(all.take(i as int), of_width),
    {
        proof {
            assert(all.take(i + 1).drop_last() =~= all.take(i as int));
            assert(all.take(i + 1).last() == *entries@[i as int]);
        }
        let ssid_text = ssid_cell_text(entries[i], marks);
        let ssid_len: usize = text::size_of(ssid_text.as_str());
        if ssid_len > ssid {
            ssid = ssid_len;
        }
        let ssid_count: usize = ssid_text.as_str().unicode_len();
        if ssid_count > ssid_chars {
            ssid_chars = ssid_count;
        }
        let ap_text = ap_full_label(aliases, entries[i].bssid.as_str());
        let ap_len: usize = text::size_of(ap_text.as_str());
        if ap_len > ap {
            ap = ap_len;
        }
        let width_text = width_cell_text(entries[i]);
        let width_len: usize = text::size_of(width_text.as_str());
        if width_len > width {
            width = width_len;
        }
    }
    assert(all.take(n as int) =~= all);
    let ssid_size: usize = if ssid < 4 {
        4
    } else if ssid > 26 {
        26
    } else {
        ssid
    };
    Columns {
        ssid: if ssid_size < ssid_chars {
            ssid_chars
        } else {
            ssid_size
        },
        ap: if ap < 17 {
            17
        } else {
            ap
        },
        width: if width < 5 {
            5
        } else {
            width
        },
        show_width: width > 0,
    }
}

/// Column-aligned table of APs (for the "all networks" popup). All columns are
/// fixed width so rows line up in a monospace font. `marks`: BSSIDs to
/// highlight with a dot (the target network's APs).
pub fn format_ap_table(
    entries: &Vec<&ScanEntry>,
    aliases: &TextMap<String>,
    marks: &Vec<String>,
) -> (r: String)
    ensures
        exists|c: Columns| #[trigger]
            are_columns(c, entries_of(entries@), aliases@, names::views(marks@)) && r@
                == table_text(c, entries_of(entries@), aliases@, names::views(marks@)),
{
    let c = table_columns(entries, aliases, marks);
    let ghost all = entries_of(entries@);
    let ghost mark_names = names::views(marks@);
    proof {
        reveal_strlit(" ");
        reveal_strlit("-");
    }
    let mut s = String::new();
    push_table_line(&mut s, &c, " ", "SSID", "AP", "SIGNAL", "CH", "WIDTH", "BAND");
    push_table_line(&mut s, &c, "-", "", "", "", "", "", "");
    let ghost head = s@;
    assert(head =~= header_line(c) + rule_line(c));
    let n: usize = entries.len();
    assert(s@ =~= head + entry_lines(c, all.take(0), aliases@, mark_names));
    for i in 0..n
        invariant
            n == entries@.len(),
            all == entries_of(entries@),
            mark_names == names::views(marks@),
            " "@.len() == 1 && " "@[0] == ' ',
            s@ == head + entry_lines(c, all.take(i as int), aliases@, mark_names),
    {
        let e = entries[i];
        proof {
            assert(all.take(i + 1).drop_last() =~= all.take(i as int));
            assert(all.take(i + 1).last() == *e);
        }
        let ssid = ssid_cell_text(e, marks);
        let label = ap_full_label(aliases, e.bssid.as_str());
        let signal = text::int_text(e.signal_dbm as i64);
        let channel = text::dec_text(e.channel as u64);
        let width = width_cell_text(e);
        push_table_line(
            &mut s,
            &c,
            " ",
            ssid.as_str(),
            label.as_str(),
            signal.as_str(),
            channel.as_str(),
            width.as_str(),
            e.band(),
        );
        assert(s@ =~= head + entry_lines(c, all.take(i + 1), aliases@, mark_names));
    }
    assert(all.take(n as int) =~= all);
    s
}

/// The length of every line of the table, with its line break.
pub open spec fn line_len(c: Columns) -> int {
    c.ssid + 2 + c.ap + 2 + 7 + 2 + 3 + 2 + (if c.show_width {
        c.width + 2
    } else {
        0
    }) + 7 + 1
}

/// A signal that fits its column of 7 characters.
pub open spec fn signal_fits(e: ScanEntry) -> bool {
    text::dec_int(e.signal_dbm as int).len() <= 7
}

/// The columns line up: the header, the rule and the line of every entry have
/// the same length.
pub proof fn law_table_is_aligned(
    c: Columns,
    entries: Seq<ScanEntry>,
    aliases: Map<Seq<char>, String>,
    marks: Seq<Seq<char>>,
)
    requires
        are_columns(c, entries, aliases, marks),
    ensures
        header_line(c).len() == line_len(c),
        rule_line(c).len() == line_len(c),
        forall|i: int|
            0 <= i < entries.len() && signal_fits(entries[i]) ==> (#[trigger] entry_line(
                c,
                entries[i],
                aliases,
                marks,
            )).len() == line_len(c),
{
    reveal_strlit("  ");
    reveal_strlit("\n");
    reveal_strlit("");
    reveal_strlit("SSID");
    reveal_strlit("AP");
    reveal_strlit("SIGNAL");
    reveal_strlit("CH");
    reveal_strlit("WIDTH");
    reveal_strlit("BAND");
    reveal_strlit("2.4 GHz");
    reveal_strlit("5 GHz");
    reveal_strlit("6 GHz");
    assert forall|i: int| 0 <= i < entries.len() && signal_fits(entries[i]) implies (
    #[trigger] entry_line(c, entries[i], aliases, marks)).len() == line_len(c) by {
        let e = entries[i];
        lemma_most_chars(entries, |e: ScanEntry| ssid_cell(e, marks), i);
        lemma_longest(entries, |e: ScanEntry| full_label(aliases, e.bssid@), i);
        lemma_longest(entries, |e: ScanEntry| width_cell(e), i);
        text::lemma_byte_len(full_label(aliases, e.bssid@));
        text::lemma_byte_len(width_cell(e));
        assert(text::dec(e.channel as nat).len() <= 3) by {
            reveal_with_fuel(text::dec, 4);
        }
    }
}

/// What line `k` of a table with lines of equal length is: the header, the
/// rule, then one line per entry, in order.
pub open spec fn line_at(
    c: Columns,
    entries: Seq<ScanEntry>,
    aliases: Map<Seq<char>, String>,
    marks: Seq<Seq<char>>,
    k: int,
) -> Seq<char> {
    if k == 0 {
        header_line(c)
    } else if k == 1 {
        rule_line(c)
    } else {
        entry_line(c, entries[k - 2], aliases, marks)
    }
}

/// The table is made of two more lines than there are entries, all of the same
/// length: the header, the rule and the entries in their order.
#[verifier::rlimit(40)]
pub proof fn law_table_lines(
    c: Columns,
    entries: Seq<ScanEntry>,
    aliases: Map<Seq<char>, String>,
    marks: Seq<Seq<char>>,
)
    requires
        are_columns(c, entries, aliases, marks),
        forall|i: int| 0 <= i < entries.len() ==> #[trigger] signal_fits(entries[i]),
    ensures
        table_text(c, entries, aliases, marks).len() == (entries.len() + 2) * line_len(c),
        forall|k: int|
            0 <= k < entries.len() + 2 ==> table_text(c, entries, aliases, marks).subrange(
                k * line_len(c),
                k * line_len(c) + line_len(c),
            ) == #[trigger] line_at(c, entries, aliases, marks, k),
{
    law_table_is_aligned(c, entries, aliases, marks);
    let n = line_len(c);
    let rows = entry_lines(c, entries, aliases, marks);
    let all = table_text(c, entries, aliases, marks);
    lemma_entry_lines(c, entries, aliases, marks, n);
    assert((entries.len() + 2) * n == entries.len() * n + 2 * n) by (nonlinear_arith);
    assert forall|k: int| 0 <= k < entries.len() + 2 implies all.subrange(k * n, k * n + n)
        == #[trigger] line_at(c, entries, aliases, marks, k) by {
        if k == 0 {
            assert(0 * n == 0) by (nonlinear_arith);
            assert(all.subrange(0, n) =~= header_line(c));
        } else if k == 1 {
            assert(1 * n == n) by (nonlinear_arith);
            assert(all.subrange(n, n + n) =~= rule_line(c));
        } else {
            let i = k - 2;
            assert(k * n == i * n + 2 * n) by (nonlinear_arith)
                requires
                    k == i + 2,
            ;
            assert(0 <= i * n && i * n + n <= entries.len() * n) by (nonlinear_arith)
                requires
                    0 <= i < entries.len(),
                    n >= 0,
            ;
            assert(all.subrange(k * n, k * n + n) =~= rows.subrange(i * n, i * n + n));
            assert(entry_line(c, entries[i], aliases, marks).len() == n);
        }
    }
}

proof fn lemma_entry_lines(
    c: Columns,
    entries: Seq<ScanEntry>,
    aliases: Map<Seq<char>, String>,
    marks: Seq<Seq<char>>,
    n: int,
)
    requires
        n >= 0,
        forall|i: int|
            0 <= i < entries.len() ==> (#[trigger] entry_line(
                c,
                entries[i],
                aliases,
                marks,
            )).len() == n,
    ensures
        entry_lines(c, entries, aliases, marks).len() == entries.len() * n,
        forall|i: int|
            0 <= i < entries.len() ==> entry_lines(c, entries, aliases, marks).subrange(
                i * n,
                i * n + n,
            ) == #[trigger] entry_line(c, entries[i], aliases, marks),
    decreases entries.len(),
{
    if entries.len() == 0 {
        assert(0 * n == 0) by (nonlinear_arith);
    } else {
        let rest = entries.drop_last();
        let m = rest.len();
        let last = entry_line(c, entries.last(), aliases, marks);
        let before = entry_lines(c, rest, aliases, marks);
        let all = entry_lines(c, entries, aliases, marks);
        assert forall|i: int| 0 <= i < rest.len() implies (#[trigger] entry_line(
            c,
            rest[i],
            aliases,
            marks,
        )).len() == n by {
            assert(rest[i] == entries[i]);
        }
        lemma_entry_lines(c, rest, aliases, marks, n);
        assert(entry_line(c, entries[entries.len() - 1], aliases, marks).len() == n);
        assert((m + 1) * n == m * n + n) by (nonlinear_arith);
        assert forall|i: int| 0 <= i < entries.len() implies all.subrange(i * n, i * n + n)
            == #[trigger] entry_line(c, entries[i], aliases, marks) by {
            if i < m {
                assert(0 <= i * n && i * n + n <= m * n) by (nonlinear_arith)
                    requires
                        0 <= i < m,
                        n >= 0,
                ;
                assert(rest[i] == entries[i]);
                assert(before.subrange(i * n, i * n + n) == entry_line(
                    c,
                    rest[i],
                    aliases,
                    marks,
                ));
                assert(all.subrange(i * n, i * n + n) =~= before.subrange(i * n, i * n + n));
            } else {
                assert(all.subrange(i * n, i * n + n) =~= last);
            }
        }
    }
}

/// The WIDTH column is shown exactly when some entry has a width tag.
pub proof fn law_width_column(
    c: Columns,
    entries: Seq<ScanEntry>,
    aliases: Map<Seq<char>, String>,
    marks: Seq<Seq<char>>,
)
    requires
        are_columns(c, entries, aliases, marks),
    ensures
        c.show_width <==> exists|i: int|
            0 <= i < entries.len() && models::tag_text(
                (#[trigger] entries[i]).channel_width_mhz,
                entries[i].center_freq2_mhz,
            ) is Some,
{
    lemma_width_shown(entries);
}

proof fn lemma_width_shown(entries: Seq<ScanEntry>)
    ensures
        longest(entries, |e: ScanEntry| width_cell(e)) > 0 <==> exists|i: int|
            0 <= i < entries.len() && models::tag_text(
                (#[trigger] entries[i]).channel_width_mhz,
                entries[i].center_freq2_mhz,
            ) is Some,
    decreases entries.len(),
{
    let cell = |e: ScanEntry| width_cell(e);
    if entries.len() > 0 {
        let rest = entries.drop_last();
        let e = entries.last();
        lemma_width_shown(rest);
        reveal_strlit("M");
        reveal_strlit("80+80M");
        text::lemma_byte_len(width_cell(e));
        assert(models::tag_text(e.channel_width_mhz, e.center_freq2_mhz) is None
            ==> text::byte_len(width_cell(e)) == 0);
        if longest(rest, cell) > 0 {
            let i = choose|i: int|
                0 <= i < rest.len() && models::tag_text(
                    (#[trigger] rest[i]).channel_width_mhz,
                    rest[i].center_freq2_mhz,
                ) is Some;
            assert(entries[i] == rest[i]);
        }
        if exists|i: int|
            0 <= i < entries.len() && models::tag_text(
                (#[trigger] entries[i]).channel_width_mhz,
                entries[i].center_freq2_mhz,
            ) is Some {
            let i = choose|i: int|
                0 <= i < entries.len() && models::tag_text(
                    (#[trigger] entries[i]).channel_width_mhz,
                    entries[i].center_freq2_mhz,
                ) is Some;
            if i < rest.len() {
                assert(rest[i] == entries[i]);
            }
        }
    }
}

// ── The scan list of a measurement ─────────────────────────────────────────

pub open spec fn entries_with_ssid(entries: Seq<ScanEntry>, ssid: Seq<char>) -> nat
    decreases entries.len(),
{
    if entries.len() == 0 {
        0
    } else {
        entries_with_ssid(entries.drop_last(), ssid) + (if entries.last().ssid@ == ssid {
            1nat
        } else {
            0
        })
    }
}

/// The line of one recorded access point.
pub open spec fn scan_line(e: ScanEntry, aliases: Map<Seq<char>, String>) -> Seq<char> {
    "\n"@ + marker(e.is_active) + full_label(aliases, e.bssid@) + "  "@ + text::dec_int(
        e.signal_dbm as int,
    ) + " dBm  ch"@ + text::dec(e.channel as nat) + " "@ + models::band_text(e.frequency_mhz)
        + models::suffix_text(e.channel_width_mhz, e.center_freq_mhz, e.center_freq2_mhz)
}

/// The lines of the recorded access points of an SSID, in order.
pub open spec fn scan_lines(
    entries: Seq<ScanEntry>,
    ssid: Seq<char>,
    aliases: Map<Seq<char>, String>,
) -> Seq<char>
    decreases entries.len(),
{
    if entries.len() == 0 {
        Seq::empty()
    } else if entries.last().ssid@ == ssid {
        scan_lines(entries.drop_last(), ssid, aliases) + scan_line(entries.last(), aliases)
    } else {
        scan_lines(entries.drop_last(), ssid, aliases)
    }
}

/// The section of the measured SSID's access points; empty when none was
/// recorded.
pub open spec fn scan_section(
    entries: Seq<ScanEntry>,
    ssid: Seq<char>,
    aliases: Map<Seq<char>, String>,
) -> Seq<char> {
    let n = entries_with_ssid(entries, ssid);
    if n == 0 {
        Seq::empty()
    } else {
        "\n── "@ + ssid + " ("@ + text::dec(n) + " APs) ──"@ + scan_lines(entries, ssid, aliases)
    }
}

fn push_scan_line(s: &mut String, e: &ScanEntry, aliases: &TextMap<String>)
    ensures
        final(s)@ == old(s)@ + scan_line(*e, aliases@),
{
    let ghost before = s@;
    s.append("\n");
    s.append(marker_str(e.is_active));
    let label = ap_full_label(aliases, e.bssid.as_str());
    s.append(label.as_str());
    s.append("  ");
    text::push_int(s, e.signal_dbm as i64);
    s.append(" dBm  ch");
    text::push_dec(s, e.channel as u64);
    s.append(" ");
    s.append(e.band());
    let suffix = models::width_center_suffix(
        e.channel_width_mhz,
        e.center_freq_mhz,
        e.center_freq2_mhz,
    );
    s.append(suffix.as_str());
    assert(s@ =~= before + scan_line(*e, aliases@));
}

/// Text for the recorded scan list of a measurement: the measured SSID's APs
/// (its APs are the interesting ones for a multi-AP network). The other
/// networks are shown in a popup.
pub fn format_scan_list_section(
    scan_results: &Vec<ScanEntry>,
    connected_ssid: &str,
    aliases: &TextMap<String>,
) -> (r: String)
    ensures
        r@ == scan_section(scan_results@, connected_ssid@, aliases@),
{
    let mut count: u64 = 0;
    let mut lines = String::new();
    let n: usize = scan_results.len();
    for i in 0..n
        invariant
            n == scan_results@.len(),
            count == entries_with_ssid(scan_results@.take(i as int), connected_ssid@),
            count <= i,
            lines@ == scan_lines(scan_results@.take(i as int), connected_ssid@, aliases@),
    {
        assert(scan_results@.take(i + 1).drop_last() =~= scan_results@.take(i as int));
        if text::str_eq(scan_results[i].ssid.as_str(), connected_ssid) {
            count = count + 1;
            push_scan_line(&mut lines, &scan_results[i], aliases);
        }
    }
    assert(scan_results@.take(n as int) =~= scan_results@);
    if count == 0 {
        return String::new();
    }
    let mut s = "\n── ".to_owned();
    s.append(connected_ssid);
    s.append(" (");
    text::push_dec(&mut s, count);
    s.append(" APs) ──");
    s.append(lines.as_str());
    s
}

// ── Details of a measurement ───────────────────────────────────────────────

/// The strongest entry of an SSID; of equally strong ones the last.
pub open spec fn best_entry(entries: Seq<ScanEntry>, ssid: Seq<char>) -> Option<ScanEntry>
    decreases entries.len(),
{
    if entries.len() == 0 {
        None
    } else {
        let rest = best_entry(entries.drop_last(), ssid);
        let e = entries.last();
        if e.ssid@ != ssid {
            rest
        } else {
            match rest {
                Some(best) => if e.signal_dbm >= best.signal_dbm {
                    Some(e)
                } else {
                    rest
                },
                None => Some(e),
            }
        }
    }
}

/// The best entry of an SSID carries its strongest signal.
pub proof fn law_best_entry_is_strongest(entries: Seq<ScanEntry>, ssid: Seq<char>)
    ensures
        match best_entry(entries, ssid) {
            Some(e) => models::signal_source::best_of_ssid(entries, ssid) == Some(e.signal_dbm)
                && e.ssid@ == ssid,
            None => models::signal_source::best_of_ssid(entries, ssid) is None,
        },
    decreases entries.len(),
{
    if entries.len() > 0 {
        law_best_entry_is_strongest(entries.drop_last(), ssid);
    }
}

fn find_best_entry<'a>(entries: &'a Vec<ScanEntry>, ssid: &str) -> (r: Option<&'a ScanEntry>)
    ensures
        match r {
            Some(e) => best_entry(entries@, ssid@) == Some(*e),
            None => best_entry(entries@, ssid@) is None,
        },
{
    let mut best: Option<usize> = None;
    let n: usize = entries.len();
    for i in 0..n
        invariant
            n == entries@.len(),
            match best {
                Some(k) => k < n && best_entry(entries@.take(i as int), ssid@) == Some(
                    entries@[k as int],
                ),
                None => best_entry(entries@.take(i as int), ssid@) is None,
            },
    {
        assert(entries@.take(i + 1).drop_last() =~= entries@.take(i as int));
        if text::str_eq(entries[i].ssid.as_str(), ssid) {
            best = match best {
                Some(k) => if entries[i].signal_dbm >= entries[k].signal_dbm {
                    Some(i)
                } else {
                    Some(k)
                },
                None => Some(i),
            };
        }
    }
    assert(entries@.take(n as int) =~= entries@);
    match best {
        Some(k) => Some(&entries[k]),
        None => None,
    }
}

/// What a no-signal point says about one of the floor's SSIDs.
pub open spec fn wanted_line(entries: Seq<ScanEntry>, ssid: Seq<char>) -> Seq<char> {
    match best_entry(entries, ssid) {
        Some(e) => "\n  "@ + ssid + ": "@ + text::dec_int(e.signal_dbm as int) + " dBm (ch"@
            + text::dec(e.channel as nat) + " "@ + models::band_text(e.frequency_mhz)
            + spaced_tag(e.channel_width_mhz, e.center_freq2_mhz) + ")"@,
        None => "\n  "@ + ssid + ": not detected"@,
    }
}

pub open spec fn wanted_lines(entries: Seq<ScanEntry>, ssids: Seq<Seq<char>>) -> Seq<char>
    decreases ssids.len(),
{
    if ssids.len() == 0 {
        Seq::empty()
    } else {
        wanted_lines(entries, ssids.drop_last()) + wanted_line(entries, ssids.last())
    }
}

/// The details of a no-signal point: a dead zone when nothing was in range,
/// else what was heard of the networks this floor is measuring.
pub open spec fn no_signal_details(
    m: Measurement,
    time: Seq<char>,
    floor_ssids: Seq<Seq<char>>,
) -> Seq<char> {
    if m.scan_results@.len() == 0 {
        "No signal (dead zone)"@ + "\nTime: "@ + time
    } else {
        "No connection"@ + "\nTime: "@ + time + "\nNetworks in range: "@ + text::dec(
            m.scan_results@.len(),
        ) + wanted_lines(m.scan_results@, floor_ssids)
    }
}

/// The name of a chosen signal source.
pub open spec fn source_label(
    source: models::signal_source::SourceView,
    aliases: Map<Seq<char>, String>,
) -> Seq<char> {
    match source {
        models::signal_source::SourceView::ConnectedAp => "Connected AP"@,
        models::signal_source::SourceView::Ssid(s) => if s.len() == 0 {
            "SSID (best AP)"@
        } else {
            s + " (best AP)"@
        },
        models::signal_source::SourceView::Bssid(b) => (if aliases.contains_key(b) {
            aliases[b]@
        } else {
            b
        }) + " ("@ + b + ")"@,
    }
}

fn source_label_text(source: &SignalSource, aliases: &TextMap<String>) -> (r: String)
    ensures
        r@ == source_label(source@, aliases@),
{
    match source {
        SignalSource::ConnectedAp => "Connected AP".to_owned(),
        SignalSource::Ssid(name) => if name.as_str().is_empty() {
            "SSID (best AP)".to_owned()
        } else {
            let mut s = name.clone();
            s.append(" (best AP)");
            s
        },
        SignalSource::Bssid(b) => {
            let mut s = match aliases.get(b.as_str()) {
                Some(a) => a.clone(),
                None => b.clone(),
            };
            s.append(" (");
            s.append(b.as_str());
            s.append(")");
            s
        },
    }
}

/// The line for a chosen source; the connected AP is the main line already.
pub open spec fn source_line(
    m: Measurement,
    source: models::signal_source::SourceView,
    aliases: Map<Seq<char>, String>,
) -> Seq<char> {
    if source is ConnectedAp {
        Seq::empty()
    } else {
        "\nSignal ("@ + source_label(source, aliases) + "): "@ + (
        match models::signal_source::signal_of(m, source) {
            Some(v) => text::dec_int(v as int) + " dBm ("@ + quality_name(v as int) + ")"@,
            None => "— (not in range)"@,
        })
    }
}

fn push_source_line(
    s: &mut String,
    m: &Measurement,
    source: &SignalSource,
    aliases: &TextMap<String>,
)
    ensures
        final(s)@ == old(s)@ + source_line(*m, source@, aliases@),
{
    let ghost before = s@;
    if !source.is_connected_ap() {
        s.append("\nSignal (");
        let label = source_label_text(source, aliases);
        s.append(label.as_str());
        s.append("): ");
        match models::signal_for(m, source) {
            Some(v) => {
                text::push_int(s, v as i64);
                s.append(" dBm (");
                s.append(signal_quality_str(v));
                s.append(")");
            },
            None => {
                s.append("— (not in range)");
            },
        }
    }
    assert(s@ =~= before + source_line(*m, source@, aliases@));
}

/// A label and a text, where there is a value.
pub open spec fn labelled(present: bool, label: Seq<char>, value: Seq<char>, unit: Seq<char>) -> Seq<
    char,
> {
    if present {
        label + value + unit
    } else {
        Seq::empty()
    }
}

/// The throughput, noise and link speed lines; the throughput texts are given.
pub open spec fn reading_lines(m: Measurement, iperf: Seq<char>, smb: Seq<char>) -> Seq<char> {
    labelled(m.iperf_mbps is Some, "\niperf3: "@, iperf, ""@) + labelled(
        m.smb_mbps is Some,
        "\nSamba: "@,
        smb,
        ""@,
    ) + labelled(
        m.noise_dbm is Some,
        "\nNoise: "@,
        text::dec_int(m.noise_dbm->0 as int),
        " dBm"@,
    ) + labelled(
        m.link_speed_mbps is Some,
        "\nLink speed: "@,
        text::dec(m.link_speed_mbps->0 as nat),
        " Mbps"@,
    )
}

fn push_labelled(s: &mut String, label: &str, value: &str, unit: &str)
    ensures
        final(s)@ == old(s)@ + (label@ + value@ + unit@),
{
    let ghost before = s@;
    s.append(label);
    s.append(value);
    s.append(unit);
    assert(s@ =~= before + (label@ + value@ + unit@));
}

fn push_reading_lines(s: &mut String, m: &Measurement, iperf: &str, smb: &str)
    ensures
        final(s)@ == old(s)@ + reading_lines(*m, iperf@, smb@),
{
    let ghost before = s@;
    let ghost a = labelled(m.iperf_mbps is Some, "\niperf3: "@, iperf@, ""@);
    let ghost b = labelled(m.smb_mbps is Some, "\nSamba: "@, smb@, ""@);
    let ghost c = labelled(
        m.noise_dbm is Some,
        "\nNoise: "@,
        text::dec_int(m.noise_dbm->0 as int),
        " dBm"@,
    );
    let ghost d = labelled(
        m.link_speed_mbps is Some,
        "\nLink speed: "@,
        text::dec(m.link_speed_mbps->0 as nat),
        " Mbps"@,
    );
    if m.iperf_mbps.is_some() {
        push_labelled(s, "\niperf3: ", iperf, "");
    }
    assert(s@ =~= before + a);
    if m.smb_mbps.is_some() {
        push_labelled(s, "\nSamba: ", smb, "");
    }
    assert(s@ =~= before + a + b);
    if let Some(dbm) = m.noise_dbm {
        let value = text::int_text(dbm as i64);
        push_labelled(s, "\nNoise: ", value.as_str(), " dBm");
    }
    assert(s@ =~= before + a + b + c);
    if let Some(mbps) = m.link_speed_mbps {
        let value = text::dec_text(mbps as u64);
        push_labelled(s, "\nLink speed: ", value.as_str(), " Mbps");
    }
    assert(s@ =~= before + a + b + c + d);
    assert(s@ =~= before + reading_lines(*m, iperf@, smb@));
}

/// The details of a regular point.
pub open spec fn regular_details(
    m: Measurement,
    time: Seq<char>,
    source: models::signal_source::SourceView,
    aliases: Map<Seq<char>, String>,
    iperf: Seq<char>,
    smb: Seq<char>,
) -> Seq<char> {
    "SSID: "@ + m.ssid@ + "\nBSSID: "@ + full_label(aliases, m.bssid@) + "\nSignal: "@
        + text::dec_int(m.signal_dbm as int) + " dBm ("@ + quality_name(m.signal_dbm as int)
        + ")\nBand: "@ + models::band_text(m.frequency_mhz) + " | Ch: "@ + text::dec(
        m.channel as nat,
    ) + " | "@ + text::dec(m.frequency_mhz as nat) + " MHz"@ + models::suffix_text(
        m.channel_width_mhz,
        m.center_freq_mhz,
        m.center_freq2_mhz,
    ) + "\nTime: "@ + time + source_line(m, source, aliases) + reading_lines(m, iperf, smb)
        + scan_section(m.scan_results@, m.ssid@, aliases)
}

pub open spec fn details_text(
    m: Measurement,
    time: Seq<char>,
    source: models::signal_source::SourceView,
    aliases: Map<Seq<char>, String>,
    floor_ssids: Seq<Seq<char>>,
    iperf: Seq<char>,
    smb: Seq<char>,
) -> Seq<char> {
    if m.no_signal {
        no_signal_details(m, time, floor_ssids)
    } else {
        regular_details(m, time, source, aliases, iperf, smb)
    }
}

fn push_wanted_line(s: &mut String, entries: &Vec<ScanEntry>, ssid: &str)
    ensures
        final(s)@ == old(s)@ + wanted_line(entries@, ssid@),
{
    let mut line = "\n  ".to_owned();
    line.append(ssid);
    match find_best_entry(entries, ssid) {
        Some(e) => {
            line.append(": ");
            text::push_int(&mut line, e.signal_dbm as i64);
            line.append(" dBm (ch");
            text::push_dec(&mut line, e.channel as u64);
            line.append(" ");
            line.append(e.band());
            push_spaced_tag(&mut line, e.channel_width_mhz, e.center_freq2_mhz);
            line.append(")");
        },
        None => {
            line.append(": not detected");
        },
    }
    s.append(line.as_str());
}

fn no_signal_details_text(m: &Measurement, time: &str, floor_ssids: &Vec<String>) -> (r: String)
    ensures
        r@ == no_signal_details(*m, time@, names::views(floor_ssids@)),
{
    if m.scan_results.len() == 0 {
        let mut s = "No signal (dead zone)".to_owned();
        s.append("\nTime: ");
        s.append(time);
        return s;
    }
    let mut s = "No connection".to_owned();
    s.append("\nTime: ");
    s.append(time);
    s.append("\nNetworks in range: ");
    text::push_dec(&mut s, m.scan_results.len() as u64);
    let ghost head = s@;
    let ghost ssids = names::views(floor_ssids@);
    let n: usize = floor_ssids.len();
    assert(s@ =~= head + wanted_lines(m.scan_results@, ssids.take(0)));
    for i in 0..n
        invariant
            n == floor_ssids@.len(),
            ssids == names::views(floor_ssids@),
            s@ == head + wanted_lines(m.scan_results@, ssids.take(i as int)),
    {
        assert(ssids.take(i + 1).drop_last() =~= ssids.take(i as int));
        push_wanted_line(&mut s, &m.scan_results, floor_ssids[i].as_str());
        assert(s@ =~= head + wanted_lines(m.scan_results@, ssids.take(i + 1)));
    }
    assert(ssids.take(n as int) =~= ssids);
    s
}

/// The details of a measurement, given the text of its time and of its
/// throughput readings.
pub fn measurement_details(
    m: &Measurement,
    time: &str,
    source: &SignalSource,
    aliases: &TextMap<String>,
    floor_ssids: &Vec<String>,
    iperf: &str,
    smb: &str,
) -> (r: String)
    ensures
        r@ == details_text(
            *m,
            time@,
            source@,
            aliases@,
            names::views(floor_ssids@),
            iperf@,
            smb@,
        ),
{
    if m.no_signal {
        return no_signal_details_text(m, time, floor_ssids);
    }
    let mut s = "SSID: ".to_owned();
    s.append(m.ssid.as_str());
    s.append("\nBSSID: ");
    let label = ap_full_label(aliases, m.bssid.as_str());
    s.append(label.as_str());
    s.append("\nSignal: ");
    text::push_int(&mut s, m.signal_dbm as i64);
    s.append(" dBm (");
    s.append(signal_quality_str(m.signal_dbm));
    s.append(")\nBand: ");
    s.append(models::band_label(m.frequency_mhz));
    s.append(" | Ch: ");
    text::push_dec(&mut s, m.channel as u64);
    s.append(" | ");
    text::push_dec(&mut s, m.frequency_mhz as u64);
    s.append(" MHz");
    let suffix = models::width_center_suffix(
        m.channel_width_mhz,
        m.center_freq_mhz,
        m.center_freq2_mhz,
    );
    s.append(suffix.as_str());
    s.append("\nTime: ");
    s.append(time);
    push_source_line(&mut s, m, source, aliases);
    push_reading_lines(&mut s, m, iperf, smb);
    let section = format_scan_list_section(&m.scan_results, m.ssid.as_str(), aliases);
    s.append(section.as_str());
    s
}

/// The details of a measurement, with its time in UTC. `iperf` and `smb` are
/// the texts of its throughput readings.
pub fn format_measurement_details(
    m: &Measurement,
    source: &SignalSource,
    aliases: &TextMap<String>,
    floor_ssids: &Vec<String>,
    iperf: &str,
    smb: &str,
) -> (r: String)
    ensures
        r@ == details_text(
            *m,
            clock::day_and_time(m.timestamp.spec_secs(), m.timestamp.spec_nanos()),
            source@,
            aliases@,
            names::views(floor_ssids@),
            iperf@,
            smb@,
        ),
{
    let time = m.timestamp.day_time_text();
    measurement_details(m, time.as_str(), source, aliases, floor_ssids, iperf, smb)
}

// ── The list of measurements ───────────────────────────────────────────────

/// The list row of a measurement, given the text of its time and the short
/// texts of its throughput readings. The level shown follows the signal source;
/// a dash means that the chosen AP was not in range.
pub open spec fn row_text_of(
    m: Measurement,
    time: Seq<char>,
    source: models::signal_source::SourceView,
    iperf: Seq<char>,
    smb: Seq<char>,
) -> Seq<char> {
    if m.no_signal {
        "⚫ "@ + (if m.scan_results@.len() == 0 {
            "No signal"@
        } else {
            "No connection"@
        }) + " | "@ + time
    } else {
        m.ssid@ + " | "@ + (match models::signal_source::signal_of(m, source) {
            Some(v) => text::dec_int(v as int) + " dBm"@,
            None => "—"@,
        }) + " | "@ + time + (if m.iperf_mbps is Some {
            " | ⚡"@ + iperf
        } else if m.smb_mbps is Some {
            " | 🗂"@ + smb
        } else {
            Seq::empty()
        })
    }
}

/// The list row of a measurement, given the text of its time and the short
/// texts of its throughput readings.
pub fn measurement_row(
    m: &Measurement,
    time: &str,
    source: &SignalSource,
    iperf: &str,
    smb: &str,
) -> (r: String)
    ensures
        r@ == row_text_of(*m, time@, source@, iperf@, smb@),
{
    if m.no_signal {
        let mut s = "⚫ ".to_owned();
        // "No connection" when APs were in range at the point, "No signal" when
        // the scan found nothing (true dead zone).
        if m.scan_results.len() == 0 {
            s.append("No signal");
        } else {
            s.append("No connection");
        }
        s.append(" | ");
        s.append(time);
        return s;
    }
    let mut s = m.ssid.clone();
    s.append(" | ");
    match models::signal_for(m, source) {
        Some(v) => {
            text::push_int(&mut s, v as i64);
            s.append(" dBm");
        },
        None => {
            s.append("—");
        },
    }
    s.append(" | ");
    s.append(time);
    if m.iperf_mbps.is_some() {
        s.append(" | ⚡");
        s.append(iperf);
    } else if m.smb_mbps.is_some() {
        s.append(" | 🗂");
        s.append(smb);
    }
    assert(s@ =~= row_text_of(*m, time@, source@, iperf@, smb@));
    s
}

/// The list row of a measurement, with its time of day in UTC.
pub fn make_row(m: &Measurement, source: &SignalSource, iperf: &str, smb: &str) -> (r: String)
    ensures
        r@ == row_text_of(
            *m,
            clock::time_of_day(
                m.timestamp.spec_secs() as int,
                m.timestamp.spec_nanos() as int,
            ),
            source@,
            iperf@,
            smb@,
        ),
{
    let time = m.timestamp.time_text();
    measurement_row(m, time.as_str(), source, iperf, smb)
}

/// The ids of measurements in list order: the newest first.
pub open spec fn row_ids_of(ms: Seq<Measurement>) -> Seq<Seq<char>> {
    ms.map_values(|m: Measurement| m.id@).reverse()
}

/// The ids of the list rows, newest measurement first.
pub fn row_ids(measurements: &Vec<Measurement>) -> (r: Vec<String>)
    ensures
        names::views(r@) == row_ids_of(measurements@),
{
    let mut r: Vec<String> = Vec::new();
    let n: usize = measurements.len();
    for i in 0..n
        invariant
            n == measurements@.len(),
            r@.len() == i,
            forall|k: int|
                0 <= k < i ==> (#[trigger] r@[k])@ == measurements@[n - 1 - k].id@,
    {
        r.push(measurements[n - 1 - i].id.clone());
    }
    assert(names::views(r@) =~= row_ids_of(measurements@));
    r
}

/// The row that shows the measurement with an id.
pub fn row_of_id(rows: &Vec<String>, id: &str) -> (r: Option<usize>)
    ensures
        match r {
            Some(i) => i < rows@.len() && rows@[i as int]@ == id@ && forall|j: int|
                0 <= j < i ==> (#[trigger] rows@[j])@ != id@,
            None => forall|j: int| 0 <= j < rows@.len() ==> (#[trigger] rows@[j])@ != id@,
        },
{
    let n: usize = rows.len();
    for i in 0..n
        invariant
            n == rows@.len(),
            forall|j: int| 0 <= j < i ==> (#[trigger] rows@[j])@ != id@,
    {
        if text::str_eq(rows[i].as_str(), id) {
            return Some(i);
        }
    }
    None
}

/// The distinct SSIDs of a floor's regular (connected) measurements, in
/// first-seen order: "the networks this floor is measuring".
pub fn floor_ssids(measurements: &Vec<Measurement>) -> (r: Vec<String>)
    ensures
        names::views(r@) == names::distinct_present(
            models::project::point_ssids(measurements@),
        ),
{
    let ghost ssids = models::project::point_ssids(measurements@);
    let mut v: Vec<String> = Vec::new();
    let n: usize = measurements.len();
    assert(names::views(v@) =~= names::distinct_present(ssids.take(0)));
    for i in 0..n
        invariant
            n == measurements@.len(),
            ssids == models::project::point_ssids(measurements@),
            names::views(v@) == names::distinct_present(ssids.take(i as int)),
    {
        proof {
            let name = models::project::point_ssid(measurements@[i as int]);
            names::lemma_distinct_push(ssids.take(i as int), name);
            assert(ssids.take(i as int).push(name) =~= ssids.take(i + 1));
        }
        if !measurements[i].no_signal && !measurements[i].ssid.as_str().is_empty() {
            names::push_distinct(&mut v, measurements[i].ssid.as_str());
        }
    }
    assert(ssids.take(n as int) =~= ssids);
    v
}

// ── The current signal ─────────────────────────────────────────────────────

/// The reading behind the Current Signal text, kept so that it can be shown
/// again (e.g. after an alias edit) without a new WiFi scan.
#[derive(Debug, Clone)]
pub struct CurrentSignal {
    pub ssid: String,
    pub bssid: String,
    pub dbm: i32,
    pub freq: u32,
    pub channel: u8,
    pub device: String,
    pub channel_width_mhz: Option<u32>,
    pub center_freq_mhz: Option<u32>,
    pub center_freq2_mhz: Option<u32>,
    pub iperf_mbps: Option<models::RealBits>,
    pub smb_mbps: Option<models::RealBits>,
    pub scan_list: Option<Vec<WifiInfo>>,
}

/// The Current Signal reading of an access point.
pub open spec fn current_of(
    info: WifiInfo,
    iperf_mbps: Option<models::RealBits>,
    smb_mbps: Option<models::RealBits>,
    scan_list: Option<Vec<WifiInfo>>,
) -> CurrentSignal {
    CurrentSignal {
        ssid: info.ssid,
        bssid: info.bssid,
        dbm: info.signal_dbm,
        freq: info.frequency_mhz,
        channel: info.channel,
        device: info.device,
        channel_width_mhz: info.channel_width_mhz,
        center_freq_mhz: info.center_freq_mhz,
        center_freq2_mhz: info.center_freq2_mhz,
        iperf_mbps,
        smb_mbps,
        scan_list,
    }
}

/// The Current Signal reading of an access point.
pub fn current_signal(
    info: &WifiInfo,
    iperf_mbps: Option<models::RealBits>,
    smb_mbps: Option<models::RealBits>,
    scan_list: Option<Vec<WifiInfo>>,
) -> (r: CurrentSignal)
    ensures
        r == current_of(*info, iperf_mbps, smb_mbps, scan_list),
{
    CurrentSignal {
        ssid: info.ssid.clone(),
        bssid: info.bssid.clone(),
        dbm: info.signal_dbm,
        freq: info.frequency_mhz,
        channel: info.channel,
        device: info.device.clone(),
        channel_width_mhz: info.channel_width_mhz,
        center_freq_mhz: info.center_freq_mhz,
        center_freq2_mhz: info.center_freq2_mhz,
        iperf_mbps,
        smb_mbps,
        scan_list,
    }
}

/// The block of the SSID's access points, if a scan list shows more than one.
pub open spec fn current_group(c: CurrentSignal, aliases: Map<Seq<char>, String>) -> Seq<char> {
    match c.scan_list {
        Some(list) => match group_text(c.ssid@, list@, aliases) {
            Some(t) => t,
            None => Seq::empty(),
        },
        None => Seq::empty(),
    }
}

/// The Current Signal text; the throughput texts are given.
pub open spec fn current_text(
    c: CurrentSignal,
    aliases: Map<Seq<char>, String>,
    iperf: Seq<char>,
    smb: Seq<char>,
) -> Seq<char> {
    "SSID: "@ + c.ssid@ + "\nBSSID: "@ + full_label(aliases, c.bssid@) + "\nSignal: "@
        + text::dec_int(c.dbm as int) + " dBm ("@ + quality_name(c.dbm as int) + ")\nBand: "@
        + models::band_text(c.freq) + " | Ch: "@ + text::dec(c.channel as nat)
        + models::suffix_text(c.channel_width_mhz, c.center_freq_mhz, c.center_freq2_mhz)
        + "\nCard: "@ + c.device@ + labelled(c.iperf_mbps is Some, "\niperf3: "@, iperf, ""@)
        + labelled(c.smb_mbps is Some, "\nSamba: "@, smb, ""@) + current_group(c, aliases)
}

/// The Current Signal text. `iperf` and `smb` are the texts of the throughput
/// readings.
pub fn render_current(c: &CurrentSignal, aliases: &TextMap<String>, iperf: &str, smb: &str) -> (r:
    String)
    ensures
        r@ == current_text(*c, aliases@, iperf@, smb@),
{
    let mut s = "SSID: ".to_owned();
    s.append(c.ssid.as_str());
    s.append("\nBSSID: ");
    let label = ap_full_label(aliases, c.bssid.as_str());
    s.append(label.as_str());
    s.append("\nSignal: ");
    text::push_int(&mut s, c.dbm as i64);
    s.append(" dBm (");
    s.append(signal_quality_str(c.dbm));
    s.append(")\nBand: ");
    s.append(models::band_label(c.freq));
    s.append(" | Ch: ");
    text::push_dec(&mut s, c.channel as u64);
    let suffix = models::width_center_suffix(
        c.channel_width_mhz,
        c.center_freq_mhz,
        c.center_freq2_mhz,
    );
    s.append(suffix.as_str());
    s.append("\nCard: ");
    s.append(c.device.as_str());
    let ghost head = s@;
    if c.iperf_mbps.is_some() {
        push_labelled(&mut s, "\niperf3: ", iperf, "");
    }
    assert(s@ =~= head + labelled(c.iperf_mbps is Some, "\niperf3: "@, iperf@, ""@));
    let ghost head2 = s@;
    if c.smb_mbps.is_some() {
        push_labelled(&mut s, "\nSamba: ", smb, "");
    }
    assert(s@ =~= head2 + labelled(c.smb_mbps is Some, "\nSamba: "@, smb@, ""@));
    let ghost head3 = s@;
    if let Some(list) = &c.scan_list {
        if let Some(group) = same_ssid_group_text(c.ssid.as_str(), list, aliases) {
            s.append(group.as_str());
        }
    }
    assert(s@ =~= head3 + current_group(*c, aliases@));
    s
}

// ── The popup of all networks ──────────────────────────────────────────────

/// The BSSIDs of the entries whose SSID is wanted, in order.
pub open spec fn wanted_bssids(entries: Seq<ScanEntry>, wanted: Seq<Seq<char>>) -> Seq<Seq<char>>
    decreases entries.len(),
{
    if entries.len() == 0 {
        Seq::empty()
    } else if wanted.contains(entries.last().ssid@) {
        wanted_bssids(entries.drop_last(), wanted).push(entries.last().bssid@)
    } else {
        wanted_bssids(entries.drop_last(), wanted)
    }
}

/// The access points to mark: the connected one for regular measurements, or
/// those of the floor's measured SSIDs for no-signal points.
pub open spec fn marks_of(m: Measurement, floor_ssids: Seq<Seq<char>>) -> Seq<Seq<char>> {
    if m.no_signal {
        wanted_bssids(m.scan_results@, floor_ssids)
    } else if m.bssid@.len() > 0 {
        seq![m.bssid@]
    } else {
        Seq::empty()
    }
}

fn find_marks(m: &Measurement, floor_ssids: &Vec<String>) -> (r: Vec<String>)
    ensures
        names::views(r@) == marks_of(*m, names::views(floor_ssids@)),
{
    let mut r: Vec<String> = Vec::new();
    if m.no_signal {
        let n: usize = m.scan_results.len();
        let ghost wanted = names::views(floor_ssids@);
        assert(names::views(r@) =~= wanted_bssids(m.scan_results@.take(0), wanted));
        for i in 0..n
            invariant
                n == m.scan_results@.len(),
                wanted == names::views(floor_ssids@),
                names::views(r@) == wanted_bssids(m.scan_results@.take(i as int), wanted),
        {
            assert(m.scan_results@.take(i + 1).drop_last() =~= m.scan_results@.take(i as int));
            if names::contains(floor_ssids, m.scan_results[i].ssid.as_str()) {
                let ghost before = r@;
                r.push(m.scan_results[i].bssid.clone());
                assert(names::views(r@) =~= names::views(before).push(
                    m.scan_results@[i as int].bssid@,
                ));
            }
        }
        assert(m.scan_results@.take(n as int) =~= m.scan_results@);
    } else if !m.bssid.as_str().is_empty() {
        r.push(m.bssid.clone());
        assert(names::views(r@) =~= seq![m.bssid@]);
    } else {
        assert(names::views(r@) =~= Seq::empty());
    }
    r
}

fn entry_refs(entries: &Vec<ScanEntry>) -> (r: Vec<&ScanEntry>)
    ensures
        entries_of(r@) == entries@,
{
    let mut r: Vec<&ScanEntry> = Vec::new();
    let n: usize = entries.len();
    for i in 0..n
        invariant
            n == entries@.len(),
            entries_of(r@) == entries@.take(i as int),
    {
        let ghost before = r@;
        r.push(&entries[i]);
        assert(entries_of(r@) =~= entries_of(before).push(entries@[i as int]));
        assert(entries_of(r@) =~= entries@.take(i + 1));
    }
    assert(entries@.take(n as int) =~= entries@);
    r
}

/// A window with a title and a text.
pub struct Popup {
    pub title: String,
    pub body: String,
}

/// The popup for a point: a title with the number of access points, and their
/// table. There is none for a point without a recorded scan.
pub open spec fn is_popup(
    r: Option<Popup>,
    m: Measurement,
    aliases: Map<Seq<char>, String>,
    floor_ssids: Seq<Seq<char>>,
) -> bool {
    let marks = marks_of(m, floor_ssids);
    let count = text::dec(m.scan_results@.len());
    match r {
        Some(p) => {
            &&& m.scan_results@.len() > 0
            &&& p.title@ == "All networks in range — "@ + count + " APs"@
            &&& exists|c: Columns| #[trigger]
                are_columns(c, m.scan_results@, aliases, marks) && p.body@ == count
                    + " APs in range at this point:\n\n"@ + table_text(
                    c,
                    m.scan_results@,
                    aliases,
                    marks,
                )
        },
        None => m.scan_results@.len() == 0,
    }
}

/// Popup with the full list of all networks (APs) seen at the selected point,
/// including the measured/target SSID (marked with a dot). `None` when the
/// point has no recorded scan.
pub fn show_other_networks(
    m: &Measurement,
    aliases: &TextMap<String>,
    floor_ssids: &Vec<String>,
) -> (r: Option<Popup>)
    ensures
        is_popup(r, *m, aliases@, names::views(floor_ssids@)),
{
    let count: usize = m.scan_results.len();
    if count == 0 {
        return None;
    }
    let marks = find_marks(m, floor_ssids);
    let all = entry_refs(&m.scan_results);
    let table = format_ap_table(&all, aliases, &marks);
    let mut body = text::dec_text(count as u64);
    body.append(" APs in range at this point:\n\n");
    body.append(table.as_str());
    let mut title = "All networks in range — ".to_owned();
    text::push_dec(&mut title, count as u64);
    title.append(" APs");
    Some(Popup { title, body })
}

// ── The selection ──────────────────────────────────────────────────────────

/// What the panel shows for the selected measurement.
pub struct Selection {
    pub details: String,
    /// Label of the button that opens the popup, where there is a scan list.
    pub networks_button: Option<String>,
}

pub open spec fn point_of(m: Option<&Measurement>) -> Option<Measurement> {
    match m {
        Some(m) => Some(*m),
        None => None,
    }
}

/// The section for a selected measurement: its details with the time in UTC,
/// and the button where there is a scan list; a hint when none is selected.
pub open spec fn is_selection(
    r: Selection,
    selected: Option<Measurement>,
    measurements: Seq<Measurement>,
    source: models::signal_source::SourceView,
    aliases: Map<Seq<char>, String>,
    iperf: Seq<char>,
    smb: Seq<char>,
) -> bool {
    match selected {
        Some(m) => {
            &&& r.details@ == details_text(
                m,
                clock::day_and_time(m.timestamp.spec_secs(), m.timestamp.spec_nanos()),
                source,
                aliases,
                names::distinct_present(models::project::point_ssids(measurements)),
                iperf,
                smb,
            )
            &&& models::text_view(r.networks_button) == (if m.scan_results@.len() > 0 {
                Some("All networks in range ("@ + text::dec(m.scan_results@.len()) + " APs) ▸"@)
            } else {
                None
            })
        },
        None => {
            &&& r.details@
                == "No measurement selected — use the Select tool and click a point on the map."@
            &&& r.networks_button is None
        },
    }
}

/// The details of the selected measurement (one of the floor's
/// `measurements`), or a hint when none is selected. `iperf` and `smb` are the
/// texts of its throughput readings.
pub fn show_selected(
    selected: Option<&Measurement>,
    measurements: &Vec<Measurement>,
    source: &SignalSource,
    aliases: &TextMap<String>,
    iperf: &str,
    smb: &str,
) -> (r: Selection)
    ensures
        is_selection(
            r,
            point_of(selected),
            measurements@,
            source@,
            aliases@,
            iperf@,
            smb@,
        ),
{
    match selected {
        Some(m) => {
            let ssids = floor_ssids(measurements);
            let details = format_measurement_details(m, source, aliases, &ssids, iperf, smb);
            let count: usize = m.scan_results.len();
            let networks_button = if count > 0 {
                let mut s = "All networks in range (".to_owned();
                text::push_dec(&mut s, count as u64);
                s.append(" APs) ▸");
                Some(s)
            } else {
                None
            };
            Selection { details, networks_button }
        },
        None => Selection {
            details:
                "No measurement selected — use the Select tool and click a point on the map.".to_owned(),
            networks_button: None,
        },
    }
}

// ── The card selector ──────────────────────────────────────────────────────

/// What to do with the WiFi card selector.
#[derive(Debug, Clone, Copy, PartialEq, Eq, Structural)]
pub enum CardSelector {
    /// Fewer than two cards: nothing to choose.
    Hidden,
    /// Show it with the entry `target` highlighted; fill it anew first where
    /// the cards have changed.
    Shown { repopulate: bool, target: u32 },
}

/// The first place of a name, if it is there.
pub open spec fn is_place(options: Seq<Seq<char>>, name: Seq<char>, i: int) -> bool {
    0 <= i < options.len() && options[i] == name && forall|j: int|
        0 <= j < i ==> #[trigger] options[j] != name
}

/// The entry to highlight: the place of the card in use, else the first.
pub open spec fn is_card_place(options: Seq<Seq<char>>, selected: Option<&str>, target: u32) -> bool {
    match selected {
        Some(name) => if options.contains(name@) {
            is_place(options, name@, target as int)
        } else {
            target == 0
        },
        None => target == 0,
    }
}

fn copy_names(v: &Vec<String>) -> (r: Vec<String>)
    ensures
        names::views(r@) == names::views(v@),
{
    let mut r: Vec<String> = Vec::new();
    let n: usize = v.len();
    for i in 0..n
        invariant
            n == v@.len(),
            r@.len() == i,
            forall|k: int| 0 <= k < i ==> (#[trigger] r@[k])@ == v@[k]@,
    {
        r.push(v[i].clone());
    }
    assert(names::views(r@) =~= names::views(v@));
    r
}

/// The first place of a name.
pub fn place_of(v: &Vec<String>, name: &str) -> (r: Option<usize>)
    ensures
        match r {
            Some(i) => is_place(names::views(v@), name@, i as int),
            None => !names::views(v@).contains(name@),
        },
{
    let ghost all = names::views(v@);
    match row_of_id(v, name) {
        Some(i) => {
            assert(all[i as int] == name@);
            assert forall|j: int| 0 <= j < i implies #[trigger] all[j] != name@ by {
                assert(v@[j]@ != name@);
            }
            Some(i)
        },
        None => {
            assert(!all.contains(name@)) by {
                if all.contains(name@) {
                    let j = choose|j: int| 0 <= j < all.len() && all[j] == name@;
                    assert(v@[j]@ == name@);
                }
            }
            None
        },
    }
}

fn same_names(a: &Vec<String>, b: &Vec<String>) -> (r: bool)
    ensures
        r == (names::views(a@) == names::views(b@)),
{
    if a.len() != b.len() {
        assert(names::views(a@).len() != names::views(b@).len());
        return false;
    }
    let n: usize = a.len();
    for i in 0..n
        invariant
            n == a@.len(),
            n == b@.len(),
            forall|j: int| 0 <= j < i ==> (#[trigger] a@[j])@ == b@[j]@,
    {
        if a[i] != b[i] {
            assert(names::views(a@)[i as int] != names::views(b@)[i as int]);
            return false;
        }
    }
    assert(names::views(a@) =~= names::views(b@));
    true
}

/// Show or hide the WiFi card selector. `options` are the active card interface
/// names; the selector is shown only when there are two or more. `selected` is
/// the card currently in use (highlighted), else the first one is.
pub fn card_selector(
    options: &Vec<String>,
    last_options: &Vec<String>,
    selected: Option<&str>,
) -> (r: CardSelector)
    requires
        options@.len() <= u32::MAX,
    ensures
        options@.len() < 2 <==> r is Hidden,
        r matches CardSelector::Shown { repopulate, target } ==> {
            &&& repopulate == (names::views(options@) != names::views(last_options@))
            &&& is_card_place(names::views(options@), selected, target)
        },
{
    let n: usize = options.len();
    if n < 2 {
        return CardSelector::Hidden;
    }
    let repopulate = !same_names(options, last_options);
    let mut target: u32 = 0;
    if let Some(name) = selected {
        if let Some(i) = place_of(options, name) {
            target = i as u32;
        }
    }
    CardSelector::Shown { repopulate, target }
}

/// Whether a change of the card selector was made by the user, rather than by
/// the program.
pub fn is_user_choice(active: Option<u32>, expected: Option<u32>) -> (r: bool)
    ensures
        r == (active != expected),
{
    match (active, expected) {
        (Some(a), Some(b)) => a != b,
        (None, None) => false,
        _ => true,
    }
}

// ── The panel ──────────────────────────────────────────────────────────────

/// What the Current Signal section shows.
#[derive(Debug, Clone)]
pub enum CurrentReading {
    /// Nothing has been read yet.
    Unknown,
    /// No WiFi card is connected.
    NoWifi,
    Reading(CurrentSignal),
}

/// The measurement panel, as what it shows.
pub struct MeasurementPanel {
    pub measurements: Vec<Measurement>,
    /// The ids of the list rows, newest measurement first.
    pub rows: Vec<String>,
    /// The id of the selected measurement.
    pub selected: Option<String>,
    pub signal_source: SignalSource,
    pub aliases: TextMap<String>,
    pub current: CurrentReading,
    /// Status message while a measurement is running.
    pub status: Option<String>,
    pub network_warning: Option<String>,
    /// The cards in the card selector.
    pub cards: Vec<String>,
    /// The highlighted entry of the card selector.
    pub active_card: Option<u32>,
    pub cards_visible: bool,
}

/// The first measurement with an id.
pub open spec fn point_with_id(ms: Seq<Measurement>, id: Seq<char>) -> Option<Measurement> {
    find::first_found(
        ms,
        |m: Measurement|
            if m.id@ == id {
                Some(m)
            } else {
                None
            },
    )
}

/// The first measurement with an id.
pub fn find_point<'a>(measurements: &'a Vec<Measurement>, id: &str) -> (r: Option<&'a Measurement>)
    ensures
        point_of(r) == point_with_id(measurements@, id@),
{
    let ghost of_id = |m: Measurement|
        if m.id@ == id@ {
            Some(m)
        } else {
            None
        };
    let mut found: Option<&'a Measurement> = None;
    let n: usize = measurements.len();
    for i in 0..n
        invariant
            n == measurements@.len(),
            of_id == (|m: Measurement|
                if m.id@ == id@ {
                    Some(m)
                } else {
                    None
                }),
            point_of(found) == find::first_found(measurements@.take(i as int), of_id),
    {
        assert(measurements@.take(i + 1).drop_last() =~= measurements@.take(i as int));
        if found.is_none() && text::str_eq(measurements[i].id.as_str(), id) {
            found = Some(&measurements[i]);
        }
    }
    assert(measurements@.take(n as int) =~= measurements@);
    found
}

impl MeasurementPanel {
    /// Every measurement has its row, newest first, and a visible card selector
    /// has a choice to offer and something highlighted.
    pub open spec fn is_consistent(&self) -> bool {
        &&& names::views(self.rows@) == row_ids_of(self.measurements@)
        &&& self.cards_visible ==> self.cards@.len() >= 2 && self.active_card is Some
            && self.active_card->0 < self.cards@.len()
    }

    /// The selected measurement, if it is on the list.
    pub open spec fn selected_point(&self) -> Option<Measurement> {
        match self.selected {
            Some(id) => point_with_id(self.measurements@, id@),
            None => None,
        }
    }

    /// An empty panel.
    pub fn new() -> (r: MeasurementPanel)
        ensures
            r.is_consistent(),
            r.measurements@.len() == 0,
            r.selected is None,
            r.signal_source@ is ConnectedAp,
            r.aliases@ == Map::<Seq<char>, String>::empty(),
            r.current is Unknown,
            r.status is None && r.network_warning is None,
            r.cards@.len() == 0 && !r.cards_visible && r.active_card is None,
    {
        let r = MeasurementPanel {
            measurements: Vec::new(),
            rows: Vec::new(),
            selected: None,
            signal_source: SignalSource::ConnectedAp,
            aliases: TextMap::new(),
            current: CurrentReading::Unknown,
            status: None,
            network_warning: None,
            cards: Vec::new(),
            active_card: None,
            cards_visible: false,
        };
        assert(names::views(r.rows@) =~= row_ids_of(r.measurements@));
        r
    }

    /// Show or hide the measuring status with a message.
    pub fn set_measuring(&mut self, active: bool, msg: &str)
        ensures
            models::text_view(final(self).status) == (if active {
                Some(msg@)
            } else {
                None
            }),
            *final(self) == (MeasurementPanel { status: final(self).status, ..*old(self) }),
    {
        self.status = if active {
            Some(msg.to_owned())
        } else {
            None
        };
    }

    /// Show a reading in the Current Signal section.
    pub fn update_current_wifi(&mut self, reading: CurrentSignal)
        ensures
            *final(self) == (MeasurementPanel {
                current: CurrentReading::Reading(reading),
                ..*old(self)
            }),
    {
        self.current = CurrentReading::Reading(reading);
    }

    /// Refresh the live Current Signal with the active AP. No throughput is
    /// shown: that only appears right after a measurement.
    pub fn refresh_live_signal(&mut self, info: &WifiInfo, scan_list: Option<Vec<WifiInfo>>)
        ensures
            final(self).current == CurrentReading::Reading(
                current_of(*info, None, None, scan_list),
            ),
            *final(self) == (MeasurementPanel { current: final(self).current, ..*old(self) }),
    {
        let reading = current_signal(info, None, None, scan_list);
        self.update_current_wifi(reading);
    }

    /// No card is connected.
    pub fn set_no_wifi(&mut self)
        ensures
            *final(self) == (MeasurementPanel {
                current: CurrentReading::NoWifi,
                cards_visible: false,
                ..*old(self)
            }),
    {
        self.current = CurrentReading::NoWifi;
        self.cards_visible = false;
    }

    /// Show a warning that the current SSID is not one of this floor's measured
    /// networks, or hide it.
    pub fn set_network_warning(&mut self, msg: Option<String>)
        ensures
            *final(self) == (MeasurementPanel { network_warning: msg, ..*old(self) }),
    {
        self.network_warning = msg;
    }

    /// Show or hide the WiFi card selector: it is shown only for two or more
    /// active cards, with the card in use (else the first) highlighted.
    /// Returns whether its entries have to be filled anew.
    pub fn set_card_selector(&mut self, options: &Vec<String>, selected: Option<&str>) -> (r: bool)
        requires
            options@.len() <= u32::MAX,
        ensures
            old(self).is_consistent() ==> final(self).is_consistent(),
            final(self).cards_visible == (options@.len() >= 2),
            options@.len() < 2 ==> !r && final(self).cards == old(self).cards
                && final(self).active_card == old(self).active_card,
            options@.len() >= 2 ==> {
                &&& r == (names::views(options@) != names::views(old(self).cards@))
                &&& names::views(final(self).cards@) == names::views(options@)
                &&& final(self).active_card matches Some(target) && is_card_place(
                    names::views(options@),
                    selected,
                    target,
                )
            },
            *final(self) == (MeasurementPanel {
                cards: final(self).cards,
                active_card: final(self).active_card,
                cards_visible: final(self).cards_visible,
                ..*old(self)
            }),
    {
        match card_selector(options, &self.cards, selected) {
            CardSelector::Hidden => {
                self.cards_visible = false;
                false
            },
            CardSelector::Shown { repopulate, target } => {
                if repopulate {
                    self.cards = copy_names(options);
                }
                assert(names::views(self.cards@).len() == self.cards@.len());
                assert(names::views(options@).len() == options@.len());
                self.active_card = Some(target);
                self.cards_visible = true;
                repopulate
            },
        }
    }

    /// The user's choice in the card selector, if it was the user's.
    pub fn card_changed(&mut self, active: Option<u32>) -> (r: Option<String>)
        ensures
            final(self).active_card == active,
            *final(self) == (MeasurementPanel { active_card: active, ..*old(self) }),
            match active {
                Some(a) => models::text_view(r) == (if old(self).active_card != Some(a) && a
                    < old(self).cards@.len() {
                    Some(old(self).cards@[a as int]@)
                } else {
                    None
                }),
                None => r is None,
            },
    {
        let by_user = is_user_choice(active, self.active_card);
        self.active_card = active;
        match active {
            Some(a) => if by_user && (a as usize) < self.cards.len() {
                Some(self.cards[a as usize].clone())
            } else {
                None
            },
            None => None,
        }
    }

    /// Show the measurements of a floor.
    pub fn set_measurements(&mut self, measurements: Vec<Measurement>)
        ensures
            final(self).measurements == measurements,
            names::views(final(self).rows@) == row_ids_of(measurements@),
            *final(self) == (MeasurementPanel {
                measurements,
                rows: final(self).rows,
                ..*old(self)
            }),
    {
        self.rows = row_ids(&measurements);
        self.measurements = measurements;
    }

    /// Select the measurement with an id, or nothing. Returns the list row to
    /// highlight.
    pub fn set_selected_by_id(&mut self, id: Option<String>) -> (r: Option<usize>)
        ensures
            *final(self) == (MeasurementPanel { selected: id, ..*old(self) }),
            match id {
                Some(id) => match r {
                    Some(i) => is_place(names::views(old(self).rows@), id@, i as int),
                    None => !names::views(old(self).rows@).contains(id@),
                },
                None => r is None,
            },
    {
        let r = match &id {
            Some(id) => place_of(&self.rows, id.as_str()),
            None => None,
        };
        self.selected = id;
        r
    }

    /// Set which AP's signal the list values and details show (connected AP /
    /// best AP of the SSID / a specific BSSID).
    pub fn set_signal_source(&mut self, source: SignalSource)
        ensures
            *final(self) == (MeasurementPanel { signal_source: source, ..*old(self) }),
    {
        self.signal_source = source;
    }

    /// Set the project's BSSID aliases.
    pub fn set_aliases(&mut self, aliases: TextMap<String>)
        ensures
            *final(self) == (MeasurementPanel { aliases, ..*old(self) }),
    {
        self.aliases = aliases;
    }

    /// The selected measurement, if it is on the list.
    pub fn selected_measurement(&self) -> (r: Option<&Measurement>)
        ensures
            point_of(r) == self.selected_point(),
    {
        match &self.selected {
            Some(id) => find_point(&self.measurements, id.as_str()),
            None => None,
        }
    }

    /// The text of the Current Signal section. `iperf` and `smb` are the texts
    /// of the throughput readings.
    pub fn current_label(&self, iperf: &str, smb: &str) -> (r: String)
        ensures
            r@ == (match self.current {
                CurrentReading::Unknown => "No WiFi data"@,
                CurrentReading::NoWifi => "No WiFi connection detected"@,
                CurrentReading::Reading(c) => current_text(c, self.aliases@, iperf@, smb@),
            }),
    {
        match &self.current {
            CurrentReading::Unknown => "No WiFi data".to_owned(),
            CurrentReading::NoWifi => "No WiFi connection detected".to_owned(),
            CurrentReading::Reading(c) => render_current(c, &self.aliases, iperf, smb),
        }
    }

    /// The Selected Measurement section. `iperf` and `smb` are the texts of the
    /// selected measurement's throughput readings.
    pub fn selection(&self, iperf: &str, smb: &str) -> (r: Selection)
        ensures
            is_selection(
                r,
                self.selected_point(),
                self.measurements@,
                self.signal_source@,
                self.aliases@,
                iperf@,
                smb@,
            ),
    {
        show_selected(
            self.selected_measurement(),
            &self.measurements,
            &self.signal_source,
            &self.aliases,
            iperf,
            smb,
        )
    }

    /// The popup with all networks seen at the selected point.
    pub fn networks_popup(&self) -> (r: Option<Popup>)
        ensures
            match self.selected_point() {
                Some(m) => is_popup(
                    r,
                    m,
                    self.aliases@,
                    names::distinct_present(models::project::point_ssids(self.measurements@)),
                ),
                None => r is None,
            },
    {
        match self.selected_measurement() {
            Some(m) => {
                let ssids = floor_ssids(&self.measurements);
                show_other_networks(m, &self.aliases, &ssids)
            },
            None => None,
        }
    }
}

/// The list is in reverse order of recording: the last measurement has the
/// first row.
pub proof fn law_newest_row_first(panel: MeasurementPanel, i: int)
    requires
        panel.is_consistent(),
        0 <= i < panel.measurements@.len(),
    ensures
        panel.rows@.len() == panel.measurements@.len(),
        panel.rows@[i]@ == panel.measurements@[panel.measurements@.len() - 1 - i].id@,
{
    let rows = names::views(panel.rows@);
    assert(rows.len() == panel.rows@.len());
    assert(rows[i] == row_ids_of(panel.measurements@)[i]);
}

} // verus!
