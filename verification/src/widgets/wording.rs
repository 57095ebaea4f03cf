//! Laws of the measurement panel's texts: what each of them mentions, and of
//! which measurement or access point.

use crate::models;
use crate::models::signal_source;
use crate::models::ColorMetric;
use crate::models::Measurement;
use crate::models::ScanEntry;
use crate::services::WifiInfo;
use crate::text;
use crate::widgets::legend_bar;
use crate::widgets::measurement_panel;
use crate::widgets::measurement_panel::Columns;
use crate::widgets::measurement_panel::CurrentSignal;
use vstd::prelude::*;

verus! {

// ── Ratings and labels ─────────────────────────────────────────────────────

/// The rating of a level is the name at the legend's last tick at or below it;
/// below the second tick, and above 0 dBm, there is no signal.
pub proof fn law_ratings(dbm: int, i: int)
    requires
        1 <= i < 5,
    ensures
        ({
            let ticks = legend_bar::ticks_of(ColorMetric::SignalDbm);
            let (from, name) = ticks[i];
            &&& i < 4 && from <= dbm < ticks[i + 1].0 ==> measurement_panel::quality_name(dbm)
                == name
            &&& i == 4 && from <= dbm <= 0 ==> measurement_panel::quality_name(dbm) == name
            &&& dbm < ticks[1].0 || dbm > 0 ==> measurement_panel::quality_name(dbm)
                == "No signal"@
        }),
{
}

/// The label of an access point ends with its address; with an alias it starts
/// with that, and without one it is the address alone.
pub proof fn law_full_label(aliases: Map<Seq<char>, String>, bssid: Seq<char>)
    ensures
        ({
            let label = measurement_panel::full_label(aliases, bssid);
            &&& text::mentions(label, bssid)
            &&& aliases.contains_key(bssid) ==> text::starts_with(label, aliases[bssid]@)
                && text::ends_with(label, "("@ + bssid + ")"@)
            &&& !aliases.contains_key(bssid) ==> label == bssid
        }),
{
    let label = measurement_panel::full_label(aliases, bssid);
    if aliases.contains_key(bssid) {
        let a = aliases[bssid]@;
        text::lemma_mentions(a + " ("@, bssid, ")"@);
        text::law_parts(" ("@ + bssid + ")"@, a);
        assert(label =~= a + (" ("@ + bssid + ")"@));
        reveal_strlit(" (");
        reveal_strlit("(");
        reveal_strlit(" ");
        text::law_parts(a + " "@, "("@ + bssid + ")"@);
        assert(label =~= (a + " "@) + ("("@ + bssid + ")"@));
    } else {
        text::lemma_mentions(Seq::empty(), bssid, Seq::empty());
        assert(Seq::empty() + bssid + Seq::empty() =~= bssid);
    }
}

// ── Access points of an SSID ───────────────────────────────────────────────

/// The block of an SSID in range counts and lists the readings of that SSID,
/// one by one and in order, and no others.
pub proof fn law_group_lines(
    list: Seq<WifiInfo>,
    e: WifiInfo,
    ssid: Seq<char>,
    aliases: Map<Seq<char>, String>,
)
    ensures
        e.ssid@ == ssid ==> {
            &&& measurement_panel::count_of_ssid(list.push(e), ssid)
                == measurement_panel::count_of_ssid(list, ssid) + 1
            &&& measurement_panel::group_lines(list.push(e), ssid, aliases)
                == measurement_panel::group_lines(list, ssid, aliases)
                + measurement_panel::group_line(e, aliases)
        },
        e.ssid@ != ssid ==> {
            &&& measurement_panel::count_of_ssid(list.push(e), ssid)
                == measurement_panel::count_of_ssid(list, ssid)
            &&& measurement_panel::group_lines(list.push(e), ssid, aliases)
                == measurement_panel::group_lines(list, ssid, aliases)
        },
        measurement_panel::count_of_ssid(Seq::empty(), ssid) == 0,
        measurement_panel::group_lines(Seq::empty(), ssid, aliases) == Seq::<char>::empty(),
{
    assert(list.push(e).drop_last() =~= list);
}

/// The line of an access point in range starts with a dot exactly if it is the
/// associated one, and tells its label, signal, channel (where it is known),
/// band and width.
pub proof fn law_group_line(e: WifiInfo, aliases: Map<Seq<char>, String>)
    ensures
        ({
            let line = measurement_panel::group_line(e, aliases);
            let tag = models::tag_text(e.channel_width_mhz, e.center_freq2_mhz);
            &&& e.is_active ==> text::starts_with(line, "\n"@ + "● "@)
            &&& !e.is_active ==> text::starts_with(line, "\n"@ + "  "@)
            &&& text::mentions(line, measurement_panel::full_label(aliases, e.bssid@))
            &&& text::mentions(line, text::dec_int(e.signal_dbm as int) + " dBm"@)
            &&& e.channel > 0 ==> text::mentions(line, " ch"@ + text::dec(e.channel as nat) + " "@)
            &&& e.channel == 0 ==> text::mentions(
                line,
                text::dec_int(e.signal_dbm as int) + " dBm"@ + models::band_text(e.frequency_mhz),
            )
            &&& text::mentions(line, models::band_text(e.frequency_mhz))
            &&& tag is Some ==> text::ends_with(line, tag->0)
        }),
{
    let line = measurement_panel::group_line(e, aliases);
    let start = "\n"@ + measurement_panel::marker(e.is_active);
    let label = measurement_panel::full_label(aliases, e.bssid@);
    let level = text::dec_int(e.signal_dbm as int) + " dBm"@;
    let ch = if e.channel > 0 {
        " ch"@ + text::dec(e.channel as nat) + " "@
    } else {
        Seq::empty()
    };
    let band = models::band_text(e.frequency_mhz);
    let end = measurement_panel::spaced_tag(e.channel_width_mhz, e.center_freq2_mhz);
    assert(line =~= start + label + "  "@ + level + ch + band + end);
    text::law_parts(label + "  "@ + level + ch + band + end, start);
    assert(line =~= start + (label + "  "@ + level + ch + band + end));
    text::lemma_mentions(start, label, "  "@ + level + ch + band + end);
    assert(line =~= start + label + ("  "@ + level + ch + band + end));
    text::lemma_mentions(start + label + "  "@, level, ch + band + end);
    assert(line =~= (start + label + "  "@) + level + (ch + band + end));
    text::lemma_mentions(start + label + "  "@ + level, ch, band + end);
    assert(line =~= (start + label + "  "@ + level) + ch + (band + end));
    text::lemma_mentions(start + label + "  "@ + level + ch, band, end);
    if e.channel == 0 {
        text::lemma_mentions(start + label + "  "@, level + band, end);
        assert(line =~= (start + label + "  "@) + (level + band) + end);
    }
    if let Some(t) = models::tag_text(e.channel_width_mhz, e.center_freq2_mhz) {
        let head = start + label + "  "@ + level + ch + band + " "@;
        text::law_parts(head, t);
        assert(line =~= head + t);
    }
}

/// There is a block for an SSID only where at least two of its access points
/// are in range; it tells how many, and ends with their lines.
pub proof fn law_group_text(
    ssid: Seq<char>,
    list: Seq<WifiInfo>,
    aliases: Map<Seq<char>, String>,
)
    ensures
        ({
            let n = measurement_panel::count_of_ssid(list, ssid);
            let block = measurement_panel::group_text(ssid, list, aliases);
            &&& block is None <==> n < 2
            &&& block is Some ==> text::mentions(block->0, "("@ + text::dec(n) + " APs)"@)
            &&& block is Some ==> text::ends_with(
                block->0,
                measurement_panel::group_lines(list, ssid, aliases),
            )
        }),
{
    let n = measurement_panel::count_of_ssid(list, ssid);
    if n >= 2 {
        let block = measurement_panel::group_text(ssid, list, aliases)->0;
        let lines = measurement_panel::group_lines(list, ssid, aliases);
        reveal_strlit("\n── This SSID in range (");
        reveal_strlit("\n── This SSID in range ");
        reveal_strlit("(");
        reveal_strlit(" APs) ──");
        reveal_strlit(" APs)");
        reveal_strlit(" ──");
        let part = "("@ + text::dec(n) + " APs)"@;
        text::lemma_mentions("\n── This SSID in range "@, part, " ──"@ + lines);
        assert(block =~= "\n── This SSID in range "@ + part + (" ──"@ + lines));
        let head = "\n── This SSID in range ("@ + text::dec(n) + " APs) ──"@;
        text::law_parts(head, lines);
        assert(block =~= head + lines);
    }
}

/// The scan section of a measurement counts and lists the entries of the SSID,
/// one by one and in order, and no others.
pub proof fn law_scan_lines(
    entries: Seq<ScanEntry>,
    e: ScanEntry,
    ssid: Seq<char>,
    aliases: Map<Seq<char>, String>,
)
    ensures
        e.ssid@ == ssid ==> {
            &&& measurement_panel::entries_with_ssid(entries.push(e), ssid)
                == measurement_panel::entries_with_ssid(entries, ssid) + 1
            &&& measurement_panel::scan_lines(entries.push(e), ssid, aliases)
                == measurement_panel::scan_lines(entries, ssid, aliases)
                + measurement_panel::scan_line(e, aliases)
        },
        e.ssid@ != ssid ==> {
            &&& measurement_panel::entries_with_ssid(entries.push(e), ssid)
                == measurement_panel::entries_with_ssid(entries, ssid)
            &&& measurement_panel::scan_lines(entries.push(e), ssid, aliases)
                == measurement_panel::scan_lines(entries, ssid, aliases)
        },
        measurement_panel::entries_with_ssid(Seq::empty(), ssid) == 0,
        measurement_panel::scan_lines(Seq::empty(), ssid, aliases) == Seq::<char>::empty(),
{
    assert(entries.push(e).drop_last() =~= entries);
}

/// The line of a recorded access point starts with a dot exactly if it was the
/// associated one, and tells its label, signal, channel, band, width and
/// center.
pub proof fn law_scan_line(e: ScanEntry, aliases: Map<Seq<char>, String>)
    ensures
        ({
            let line = measurement_panel::scan_line(e, aliases);
            &&& e.is_active ==> text::starts_with(line, "\n"@ + "● "@)
            &&& !e.is_active ==> text::starts_with(line, "\n"@ + "  "@)
            &&& text::mentions(line, measurement_panel::full_label(aliases, e.bssid@))
            &&& text::mentions(
                line,
                text::dec_int(e.signal_dbm as int) + " dBm  ch"@ + text::dec(e.channel as nat)
                    + " "@ + models::band_text(e.frequency_mhz),
            )
            &&& text::ends_with(
                line,
                models::suffix_text(e.channel_width_mhz, e.center_freq_mhz, e.center_freq2_mhz),
            )
        }),
{
    let line = measurement_panel::scan_line(e, aliases);
    let start = "\n"@ + measurement_panel::marker(e.is_active);
    let label = measurement_panel::full_label(aliases, e.bssid@);
    let middle = text::dec_int(e.signal_dbm as int) + " dBm  ch"@ + text::dec(e.channel as nat)
        + " "@ + models::band_text(e.frequency_mhz);
    let end = models::suffix_text(e.channel_width_mhz, e.center_freq_mhz, e.center_freq2_mhz);
    assert(line =~= start + label + "  "@ + middle + end);
    text::law_parts(label + "  "@ + middle + end, start);
    assert(line =~= start + (label + "  "@ + middle + end));
    text::lemma_mentions(start, label, "  "@ + middle + end);
    assert(line =~= start + label + ("  "@ + middle + end));
    text::lemma_mentions(start + label + "  "@, middle, end);
    text::law_parts(start + label + "  "@ + middle, end);
}

/// The scan section is there exactly if an entry is of the SSID; it names the
/// SSID, tells how many entries there are, and ends with their lines.
pub proof fn law_scan_section(
    entries: Seq<ScanEntry>,
    ssid: Seq<char>,
    aliases: Map<Seq<char>, String>,
)
    ensures
        ({
            let n = measurement_panel::entries_with_ssid(entries, ssid);
            let section = measurement_panel::scan_section(entries, ssid, aliases);
            &&& n == 0 ==> section == Seq::<char>::empty()
            &&& n > 0 ==> text::mentions(section, ssid + " ("@ + text::dec(n) + " APs)"@)
            &&& n > 0 ==> text::ends_with(
                section,
                measurement_panel::scan_lines(entries, ssid, aliases),
            )
        }),
{
    let n = measurement_panel::entries_with_ssid(entries, ssid);
    if n > 0 {
        let section = measurement_panel::scan_section(entries, ssid, aliases);
        let lines = measurement_panel::scan_lines(entries, ssid, aliases);
        reveal_strlit(" APs) ──");
        reveal_strlit(" APs)");
        reveal_strlit(" ──");
        let part = ssid + " ("@ + text::dec(n) + " APs)"@;
        text::lemma_mentions("\n── "@, part, " ──"@ + lines);
        assert(section =~= "\n── "@ + part + (" ──"@ + lines));
        let head = "\n── "@ + ssid + " ("@ + text::dec(n) + " APs) ──"@;
        text::law_parts(head, lines);
        assert(section =~= head + lines);
    }
}

// ── The table of all networks ──────────────────────────────────────────────

/// A marked access point has a dot in front of its SSID, another has none; a
/// hidden SSID has a placeholder.
pub proof fn law_ssid_cell(e: ScanEntry, marks: Seq<Seq<char>>)
    ensures
        ({
            let name = if e.ssid@.len() > 0 {
                e.ssid@
            } else {
                "(hidden)"@
            };
            &&& marks.contains(e.bssid@) ==> measurement_panel::ssid_cell(e, marks) == "● "@ + name
            &&& !marks.contains(e.bssid@) ==> measurement_panel::ssid_cell(e, marks) == name
        }),
{
}

/// The longest cell is one of the cells, and none is longer.
pub proof fn law_longest(entries: Seq<ScanEntry>, cell: spec_fn(ScanEntry) -> Seq<char>)
    ensures
        forall|i: int|
            0 <= i < entries.len() ==> text::byte_len(cell(#[trigger] entries[i]))
                <= measurement_panel::longest(entries, cell),
        forall|i: int|
            0 <= i < entries.len() ==> cell(#[trigger] entries[i]).len()
                <= measurement_panel::most_chars(entries, cell),
        entries.len() > 0 ==> exists|i: int|
            0 <= i < entries.len() && text::byte_len(cell(#[trigger] entries[i]))
                == measurement_panel::longest(entries, cell),
        entries.len() > 0 ==> exists|i: int|
            0 <= i < entries.len() && cell(#[trigger] entries[i]).len()
                == measurement_panel::most_chars(entries, cell),
        entries.len() == 0 ==> measurement_panel::longest(entries, cell) == 0
            && measurement_panel::most_chars(entries, cell) == 0,
    decreases entries.len(),
{
    if entries.len() > 0 {
        let rest = entries.drop_last();
        let last = entries.len() - 1;
        law_longest(rest, cell);
        assert(entries.last() == entries[last]);
        assert forall|i: int| 0 <= i < last implies rest[i] == #[trigger] entries[i] by {}
        if rest.len() > 0 {
            let i = choose|i: int|
                0 <= i < rest.len() && text::byte_len(cell(#[trigger] rest[i]))
                    == measurement_panel::longest(rest, cell);
            assert(entries[i] == rest[i]);
            let k = choose|k: int|
                0 <= k < rest.len() && cell(#[trigger] rest[k]).len()
                    == measurement_panel::most_chars(rest, cell);
            assert(entries[k] == rest[k]);
        }
    }
}

/// The columns fit: that of the SSIDs has at least 4 characters and room for
/// every cell, and grows with the bytes of the cells up to 26 only; those of
/// the access points and widths have at least 17 and 5 characters and room for
/// every cell.
pub proof fn law_column_widths(
    c: Columns,
    entries: Seq<ScanEntry>,
    aliases: Map<Seq<char>, String>,
    marks: Seq<Seq<char>>,
    i: int,
)
    requires
        measurement_panel::are_columns(c, entries, aliases, marks),
        0 <= i < entries.len(),
    ensures
        c.ssid >= 4 && c.ap >= 17 && c.width >= 5,
        measurement_panel::ssid_cell(entries[i], marks).len() <= c.ssid,
        measurement_panel::full_label(aliases, entries[i].bssid@).len() <= c.ap,
        measurement_panel::width_cell(entries[i]).len() <= c.width,
        c.ssid > 26 ==> exists|k: int|
            0 <= k < entries.len() && measurement_panel::ssid_cell(
                #[trigger] entries[k],
                marks,
            ).len() == c.ssid,
        c.ssid > 4 ==> exists|k: int|
            0 <= k < entries.len() && c.ssid <= text::byte_len(
                measurement_panel::ssid_cell(#[trigger] entries[k], marks),
            ),
        text::byte_len(measurement_panel::ssid_cell(entries[i], marks)) <= 26 ==> text::byte_len(
            measurement_panel::ssid_cell(entries[i], marks),
        ) <= c.ssid,
        c.ap > 17 ==> exists|k: int|
            0 <= k < entries.len() && text::byte_len(
                measurement_panel::full_label(aliases, (#[trigger] entries[k]).bssid@),
            ) == c.ap,
{
    let of_ssid = |e: ScanEntry| measurement_panel::ssid_cell(e, marks);
    let of_ap = |e: ScanEntry| measurement_panel::full_label(aliases, e.bssid@);
    let of_width = |e: ScanEntry| measurement_panel::width_cell(e);
    law_longest(entries, of_ssid);
    law_longest(entries, of_ap);
    law_longest(entries, of_width);
    assert(measurement_panel::ssid_width(entries, marks) == c.ssid);
    assert(of_ssid(entries[i]).len() <= measurement_panel::most_chars(entries, of_ssid));
    text::lemma_byte_len(of_ap(entries[i]));
    text::lemma_byte_len(of_width(entries[i]));
    assert(text::byte_len(of_ap(entries[i])) <= measurement_panel::longest(entries, of_ap));
    assert(text::byte_len(of_width(entries[i])) <= measurement_panel::longest(entries, of_width));
    let k = choose|k: int|
        0 <= k < entries.len() && of_ssid(#[trigger] entries[k]).len()
            == measurement_panel::most_chars(entries, of_ssid);
    assert(measurement_panel::ssid_cell(entries[k], marks) == of_ssid(entries[k]));
    text::lemma_byte_len(of_ssid(entries[k]));
    let b = choose|b: int|
        0 <= b < entries.len() && text::byte_len(of_ssid(#[trigger] entries[b]))
            == measurement_panel::longest(entries, of_ssid);
    assert(measurement_panel::ssid_cell(entries[b], marks) == of_ssid(entries[b]));
    assert(text::byte_len(of_ssid(entries[k])) <= measurement_panel::longest(entries, of_ssid));
    assert(text::byte_len(of_ssid(entries[i])) <= measurement_panel::longest(entries, of_ssid));
    let l = choose|l: int|
        0 <= l < entries.len() && text::byte_len(of_ap(#[trigger] entries[l]))
            == measurement_panel::longest(entries, of_ap);
    assert(measurement_panel::full_label(aliases, entries[l].bssid@) == of_ap(entries[l]));
}

/// Each cell stands in its own column: SSID and AP at the left of theirs,
/// signal and channel at the right, then the width at the left where it is
/// shown, and the band at the right end of the line.
pub proof fn law_table_columns(
    c: Columns,
    fill: char,
    ssid: Seq<char>,
    ap: Seq<char>,
    signal: Seq<char>,
    channel: Seq<char>,
    width: Seq<char>,
    band: Seq<char>,
)
    requires
        ssid.len() <= c.ssid,
        ap.len() <= c.ap,
        signal.len() <= 7,
        channel.len() <= 3,
        width.len() <= c.width,
        band.len() <= 7,
    ensures
        ({
            let line = measurement_panel::table_line(
                c,
                fill,
                ssid,
                ap,
                signal,
                channel,
                width,
                band,
            );
            let signal_end = c.ssid + 2 + c.ap + 2 + 7;
            &&& text::stands_at(line, ssid, 0)
            &&& text::stands_at(line, ap, c.ssid + 2)
            &&& text::stands_at(line, signal, signal_end - signal.len())
            &&& text::stands_at(line, channel, signal_end + 2 + 3 - channel.len())
            &&& c.show_width ==> text::stands_at(line, width, signal_end + 2 + 3 + 2)
            &&& text::ends_with(line, band + "\n"@)
        }),
{
    reveal_strlit("  ");
    reveal_strlit("\n");
    let line = measurement_panel::table_line(c, fill, ssid, ap, signal, channel, width, band);
    let signal_end = c.ssid + 2 + c.ap + 2 + 7;
    let a = text::pad_right(ssid, c.ssid as nat, fill);
    let b = text::pad_right(ap, c.ap as nat, fill);
    let s = text::pad_left(signal, 7, fill);
    let h = text::pad_left(channel, 3, fill);
    let w = if c.show_width {
        text::pad_right(width, c.width as nat, fill) + "  "@
    } else {
        Seq::empty()
    };
    let d = text::pad_left(band, 7, fill);
    assert(line =~= a + "  "@ + b + "  "@ + s + "  "@ + h + "  "@ + w + d + "\n"@);
    assert(a.len() == c.ssid && b.len() == c.ap && s.len() == 7 && h.len() == 3 && d.len() == 7);
    assert(line.subrange(0, ssid.len() as int) =~= ssid);
    assert(line.subrange(c.ssid + 2, c.ssid + 2 + ap.len()) =~= ap);
    assert(line.subrange(signal_end - signal.len(), signal_end) =~= signal);
    assert(line.subrange(signal_end + 5 - channel.len(), signal_end + 5) =~= channel);
    if c.show_width {
        assert(line.subrange(signal_end + 7, signal_end + 7 + width.len()) =~= width);
    }
    let head = a + "  "@ + b + "  "@ + s + "  "@ + h + "  "@ + w + text::repeat(
        fill,
        text::missing(band.len(), 7),
    );
    text::law_parts(head, band + "\n"@);
    assert(line =~= head + (band + "\n"@));
}

/// A table line of an entry is made of the entry's own values.
pub proof fn law_entry_line(
    c: Columns,
    e: ScanEntry,
    aliases: Map<Seq<char>, String>,
    marks: Seq<Seq<char>>,
)
    ensures
        measurement_panel::entry_line(c, e, aliases, marks) == measurement_panel::table_line(
            c,
            ' ',
            measurement_panel::ssid_cell(e, marks),
            measurement_panel::full_label(aliases, e.bssid@),
            text::dec_int(e.signal_dbm as int),
            text::dec(e.channel as nat),
            match models::tag_text(e.channel_width_mhz, e.center_freq2_mhz) {
                Some(tag) => tag,
                None => Seq::empty(),
            },
            models::band_text(e.frequency_mhz),
        ),
{
}

/// The access points to mark at a regular point are its own, where it is known.
/// At a no-signal point they are those of the floor's SSIDs, in order, and no
/// others.
pub proof fn law_marks(
    m: Measurement,
    entries: Seq<ScanEntry>,
    e: ScanEntry,
    wanted: Seq<Seq<char>>,
)
    ensures
        !m.no_signal && m.bssid@.len() > 0 ==> measurement_panel::marks_of(m, wanted) == seq![
            m.bssid@,
        ],
        !m.no_signal && m.bssid@.len() == 0 ==> measurement_panel::marks_of(m, wanted).len() == 0,
        m.no_signal ==> measurement_panel::marks_of(m, wanted) == measurement_panel::wanted_bssids(
            m.scan_results@,
            wanted,
        ),
        wanted.contains(e.ssid@) ==> measurement_panel::wanted_bssids(entries.push(e), wanted)
            == measurement_panel::wanted_bssids(entries, wanted).push(e.bssid@),
        !wanted.contains(e.ssid@) ==> measurement_panel::wanted_bssids(entries.push(e), wanted)
            == measurement_panel::wanted_bssids(entries, wanted),
        measurement_panel::wanted_bssids(Seq::empty(), wanted) == Seq::<Seq<char>>::empty(),
{
    assert(entries.push(e).drop_last() =~= entries);
}

// ── Details ────────────────────────────────────────────────────────────────

/// Of an SSID's entries that are as strong as its strongest, the last one is
/// its best entry.
pub proof fn law_best_entry(entries: Seq<ScanEntry>, ssid: Seq<char>, k: int)
    requires
        0 <= k < entries.len(),
        entries[k].ssid@ == ssid,
        forall|j: int|
            0 <= j < k && (#[trigger] entries[j]).ssid@ == ssid ==> entries[j].signal_dbm
                <= entries[k].signal_dbm,
        forall|j: int|
            k < j < entries.len() && (#[trigger] entries[j]).ssid@ == ssid ==> entries[j].signal_dbm
                < entries[k].signal_dbm,
    ensures
        measurement_panel::best_entry(entries, ssid) == Some(entries[k]),
    decreases entries.len(),
{
    let rest = entries.drop_last();
    let last = entries.len() - 1;
    assert(entries.last() == entries[last]);
    assert forall|i: int| 0 <= i < last implies rest[i] == #[trigger] entries[i] by {}
    if k < last {
        assert(rest[k] == entries[k]);
        assert forall|j: int|
            0 <= j < k && (#[trigger] rest[j]).ssid@ == ssid implies rest[j].signal_dbm
            <= rest[k].signal_dbm by {
            assert(rest[j] == entries[j]);
        }
        assert forall|j: int|
            k < j < rest.len() && (#[trigger] rest[j]).ssid@ == ssid implies rest[j].signal_dbm
            < rest[k].signal_dbm by {
            assert(rest[j] == entries[j]);
        }
        law_best_entry(rest, ssid, k);
    } else {
        measurement_panel::law_best_entry_is_strongest(rest, ssid);
        signal_source::law_best_of_ssid(rest, ssid);
        if let Some(best) = measurement_panel::best_entry(rest, ssid) {
            let i = choose|i: int|
                0 <= i < rest.len() && (#[trigger] rest[i]).ssid@ == ssid && rest[i].signal_dbm
                    == best.signal_dbm;
            assert(entries[i] == rest[i]);
        }
    }
}

/// A no-signal point tells of each wanted SSID, in order, the level, channel,
/// band and width of its best entry, or that it was not detected.
pub proof fn law_wanted_lines(entries: Seq<ScanEntry>, ssids: Seq<Seq<char>>, ssid: Seq<char>)
    ensures
        measurement_panel::wanted_lines(entries, ssids.push(ssid))
            == measurement_panel::wanted_lines(entries, ssids) + measurement_panel::wanted_line(
            entries,
            ssid,
        ),
        measurement_panel::wanted_lines(entries, Seq::empty()) == Seq::<char>::empty(),
        ({
            let line = measurement_panel::wanted_line(entries, ssid);
            &&& text::mentions(line, ssid)
            &&& match measurement_panel::best_entry(entries, ssid) {
                Some(e) => text::mentions(
                    line,
                    text::dec_int(e.signal_dbm as int) + " dBm (ch"@ + text::dec(e.channel as nat)
                        + " "@ + models::band_text(e.frequency_mhz) + measurement_panel::spaced_tag(
                        e.channel_width_mhz,
                        e.center_freq2_mhz,
                    ),
                ),
                None => text::ends_with(line, "not detected"@),
            }
        }),
{
    assert(ssids.push(ssid).drop_last() =~= ssids);
    let line = measurement_panel::wanted_line(entries, ssid);
    match measurement_panel::best_entry(entries, ssid) {
        Some(e) => {
            let part = text::dec_int(e.signal_dbm as int) + " dBm (ch"@ + text::dec(
                e.channel as nat,
            ) + " "@ + models::band_text(e.frequency_mhz) + measurement_panel::spaced_tag(
                e.channel_width_mhz,
                e.center_freq2_mhz,
            );
            text::lemma_mentions("\n  "@, ssid, ": "@ + part + ")"@);
            assert(line =~= "\n  "@ + ssid + (": "@ + part + ")"@));
            text::lemma_mentions("\n  "@ + ssid + ": "@, part, ")"@);
            assert(line =~= ("\n  "@ + ssid + ": "@) + part + ")"@);
        },
        None => {
            reveal_strlit(": not detected");
            reveal_strlit("not detected");
            reveal_strlit(": ");
            text::lemma_mentions("\n  "@, ssid, ": not detected"@);
            text::law_parts("\n  "@ + ssid + ": "@, "not detected"@);
            assert(line =~= ("\n  "@ + ssid + ": "@) + "not detected"@);
        },
    }
}

/// The details of a no-signal point tell its time. It is a dead zone exactly if
/// nothing was in range; otherwise they tell how many networks were, and end
/// with what was heard of the floor's SSIDs.
pub proof fn law_no_signal_details(m: Measurement, time: Seq<char>, ssids: Seq<Seq<char>>)
    ensures
        ({
            let t = measurement_panel::no_signal_details(m, time, ssids);
            &&& text::mentions(t, "\nTime: "@ + time)
            &&& m.scan_results@.len() == 0 ==> text::starts_with(t, "No signal (dead zone)"@)
            &&& m.scan_results@.len() > 0 ==> {
                &&& text::starts_with(t, "No connection"@)
                &&& text::mentions(t, "\nNetworks in range: "@ + text::dec(m.scan_results@.len()))
                &&& text::ends_with(t, measurement_panel::wanted_lines(m.scan_results@, ssids))
            }
        }),
{
    let t = measurement_panel::no_signal_details(m, time, ssids);
    let at = "\nTime: "@ + time;
    let head = if m.scan_results@.len() == 0 {
        "No signal (dead zone)"@
    } else {
        "No connection"@
    };
    let one = head + at;
    text::lemma_grouping(head, "\nTime: "@, time);
    text::lemma_mentions_last(head, at);
    text::law_parts(at, head);
    if m.scan_results@.len() > 0 {
        let lines = measurement_panel::wanted_lines(m.scan_results@, ssids);
        let n = text::dec(m.scan_results@.len());
        let count = "\nNetworks in range: "@ + n;
        text::lemma_grouping(one, "\nNetworks in range: "@, n);
        text::lemma_mentions_last(one, count);
        text::lemma_more_behind(one, count, at);
        text::lemma_more_behind(one, count, head);
        let two = one + count;
        assert(t == two + lines);
        text::lemma_more_behind(two, lines, at);
        text::lemma_more_behind(two, lines, head);
        text::lemma_more_behind(two, lines, count);
        text::law_parts(two, lines);
    }
}

/// A chosen source has a line of its own unless it is the connected AP. The
/// line tells the level of that source and its rating, or that it was not in
/// range.
pub proof fn law_source_line(
    m: Measurement,
    source: signal_source::SourceView,
    aliases: Map<Seq<char>, String>,
)
    ensures
        ({
            let line = measurement_panel::source_line(m, source, aliases);
            &&& source is ConnectedAp ==> line == Seq::<char>::empty()
            &&& !(source is ConnectedAp) ==> {
                &&& text::mentions(line, "("@ + measurement_panel::source_label(source, aliases)
                    + "): "@)
                &&& match signal_source::signal_of(m, source) {
                    Some(v) => text::ends_with(
                        line,
                        text::dec_int(v as int) + " dBm ("@ + measurement_panel::quality_name(
                            v as int,
                        ) + ")"@,
                    ),
                    None => text::ends_with(line, "(not in range)"@),
                }
            }
        }),
{
    let line = measurement_panel::source_line(m, source, aliases);
    if !(source is ConnectedAp) {
        let label = measurement_panel::source_label(source, aliases);
        reveal_strlit("\nSignal (");
        reveal_strlit("\nSignal ");
        reveal_strlit("(");
        assert("\nSignal ("@ =~= "\nSignal "@ + "("@);
        let part = "("@ + label + "): "@;
        match signal_source::signal_of(m, source) {
            Some(v) => {
                let end = text::dec_int(v as int) + " dBm ("@ + measurement_panel::quality_name(
                    v as int,
                ) + ")"@;
                text::lemma_mentions("\nSignal "@, part, end);
                assert(line =~= "\nSignal "@ + part + end);
                text::law_parts("\nSignal "@ + part, end);
            },
            None => {
                reveal_strlit("— (not in range)");
                reveal_strlit("— ");
                reveal_strlit("(not in range)");
                text::lemma_mentions("\nSignal "@, part, "— (not in range)"@);
                assert(line =~= "\nSignal "@ + part + "— (not in range)"@);
                text::law_parts("\nSignal "@ + part + "— "@, "(not in range)"@);
                assert(line =~= ("\nSignal "@ + part + "— "@) + "(not in range)"@);
            },
        }
    }
}

/// The label of a source names its SSID, or its BSSID and alias; the sources
/// without a name have fixed labels.
pub proof fn law_source_label(name: Seq<char>, aliases: Map<Seq<char>, String>)
    ensures
        measurement_panel::source_label(signal_source::SourceView::ConnectedAp, aliases)
            == "Connected AP"@,
        measurement_panel::source_label(signal_source::SourceView::Ssid(Seq::empty()), aliases)
            == "SSID (best AP)"@,
        name.len() > 0 ==> text::starts_with(
            measurement_panel::source_label(signal_source::SourceView::Ssid(name), aliases),
            name,
        ),
        text::ends_with(
            measurement_panel::source_label(signal_source::SourceView::Bssid(name), aliases),
            " ("@ + name + ")"@,
        ),
        text::starts_with(
            measurement_panel::source_label(signal_source::SourceView::Bssid(name), aliases),
            if aliases.contains_key(name) {
                aliases[name]@
            } else {
                name
            },
        ),
{
    let shown = if aliases.contains_key(name) {
        aliases[name]@
    } else {
        name
    };
    let end = " ("@ + name + ")"@;
    let label = measurement_panel::source_label(signal_source::SourceView::Bssid(name), aliases);
    assert(label =~= shown + end);
    text::law_parts(shown, end);
    text::law_parts(end, shown);
    text::law_parts(" (best AP)"@, name);
}

/// Each reading has its line exactly where it is recorded: the throughputs,
/// with their own texts, the noise and the link speed, in this order.
pub proof fn law_reading_lines(m: Measurement, iperf: Seq<char>, smb: Seq<char>)
    ensures
        ({
            let all = measurement_panel::reading_lines(m, iperf, smb);
            let a = if m.iperf_mbps is Some {
                "\niperf3: "@ + iperf
            } else {
                Seq::empty()
            };
            let b = if m.smb_mbps is Some {
                "\nSamba: "@ + smb
            } else {
                Seq::empty()
            };
            let c = if m.noise_dbm is Some {
                "\nNoise: "@ + text::dec_int(m.noise_dbm->0 as int) + " dBm"@
            } else {
                Seq::empty()
            };
            let d = if m.link_speed_mbps is Some {
                "\nLink speed: "@ + text::dec(m.link_speed_mbps->0 as nat) + " Mbps"@
            } else {
                Seq::empty()
            };
            &&& text::mentions(all, a) && text::mentions(all, b)
            &&& text::mentions(all, c) && text::mentions(all, d)
            &&& all.len() == a.len() + b.len() + c.len() + d.len()
        }),
{
    reveal_strlit("");
    let all = measurement_panel::reading_lines(m, iperf, smb);
    let a = measurement_panel::labelled(m.iperf_mbps is Some, "\niperf3: "@, iperf, ""@);
    let b = measurement_panel::labelled(m.smb_mbps is Some, "\nSamba: "@, smb, ""@);
    let c = measurement_panel::labelled(
        m.noise_dbm is Some,
        "\nNoise: "@,
        text::dec_int(m.noise_dbm->0 as int),
        " dBm"@,
    );
    let d = measurement_panel::labelled(
        m.link_speed_mbps is Some,
        "\nLink speed: "@,
        text::dec(m.link_speed_mbps->0 as nat),
        " Mbps"@,
    );
    assert("\niperf3: "@ + iperf + ""@ =~= "\niperf3: "@ + iperf);
    assert("\nSamba: "@ + smb + ""@ =~= "\nSamba: "@ + smb);
    assert(all =~= a + b + c + d);
    text::lemma_mentions(Seq::empty(), a, b + c + d);
    assert(all =~= Seq::empty() + a + (b + c + d));
    text::lemma_mentions(a, b, c + d);
    assert(all =~= a + b + (c + d));
    text::lemma_mentions(a + b, c, d);
    text::lemma_mentions(a + b + c, d, Seq::empty());
    assert(all =~= a + b + c + d + Seq::empty());
}

/// The details of a regular point tell its SSID, its access point, its signal
/// with the rating, its band, channel, frequency and width, its time, then what
/// the chosen source gives, its readings, and the access points of its SSID.
pub proof fn law_regular_details(
    m: Measurement,
    time: Seq<char>,
    source: signal_source::SourceView,
    aliases: Map<Seq<char>, String>,
    floor_ssids: Seq<Seq<char>>,
    iperf: Seq<char>,
    smb: Seq<char>,
)
    requires
        !m.no_signal,
    ensures
        ({
            let t = measurement_panel::details_text(
                m,
                time,
                source,
                aliases,
                floor_ssids,
                iperf,
                smb,
            );
            &&& text::starts_with(t, "SSID: "@ + m.ssid@)
            &&& text::mentions(t, "\nBSSID: "@ + measurement_panel::full_label(aliases, m.bssid@))
            &&& text::mentions(
                t,
                "\nSignal: "@ + text::dec_int(m.signal_dbm as int) + " dBm ("@
                    + measurement_panel::quality_name(m.signal_dbm as int),
            )
            &&& text::mentions(
                t,
                ")\nBand: "@ + models::band_text(m.frequency_mhz) + " | Ch: "@ + text::dec(
                    m.channel as nat,
                ) + " | "@ + text::dec(m.frequency_mhz as nat) + " MHz"@ + models::suffix_text(
                    m.channel_width_mhz,
                    m.center_freq_mhz,
                    m.center_freq2_mhz,
                ),
            )
            &&& text::ends_with(
                t,
                "\nTime: "@ + time + measurement_panel::source_line(m, source, aliases)
                    + measurement_panel::reading_lines(m, iperf, smb)
                    + measurement_panel::scan_section(m.scan_results@, m.ssid@, aliases),
            )
        }),
{
    let t = measurement_panel::details_text(m, time, source, aliases, floor_ssids, iperf, smb);
    let head = "SSID: "@ + m.ssid@;
    let label = measurement_panel::full_label(aliases, m.bssid@);
    let b = "\nBSSID: "@ + label;
    let dbm = text::dec_int(m.signal_dbm as int);
    let rating = measurement_panel::quality_name(m.signal_dbm as int);
    let s = "\nSignal: "@ + dbm + " dBm ("@ + rating;
    let band = models::band_text(m.frequency_mhz);
    let ch = text::dec(m.channel as nat);
    let freq = text::dec(m.frequency_mhz as nat);
    let width = models::suffix_text(m.channel_width_mhz, m.center_freq_mhz, m.center_freq2_mhz);
    let c = ")\nBand: "@ + band + " | Ch: "@ + ch + " | "@ + freq + " MHz"@ + width;
    let line = measurement_panel::source_line(m, source, aliases);
    let readings = measurement_panel::reading_lines(m, iperf, smb);
    let section = measurement_panel::scan_section(m.scan_results@, m.ssid@, aliases);
    let end = "\nTime: "@ + time + line + readings + section;
    let one = head + b;
    text::lemma_grouping(head, "\nBSSID: "@, label);
    let two = one + s;
    text::lemma_grouping(one, "\nSignal: "@, dbm);
    text::lemma_grouping(one, "\nSignal: "@ + dbm, " dBm ("@);
    text::lemma_grouping(one, "\nSignal: "@ + dbm + " dBm ("@, rating);
    let three = two + c;
    text::lemma_grouping(two, ")\nBand: "@, band);
    text::lemma_grouping(two, ")\nBand: "@ + band, " | Ch: "@);
    text::lemma_grouping(two, ")\nBand: "@ + band + " | Ch: "@, ch);
    text::lemma_grouping(two, ")\nBand: "@ + band + " | Ch: "@ + ch, " | "@);
    text::lemma_grouping(two, ")\nBand: "@ + band + " | Ch: "@ + ch + " | "@, freq);
    text::lemma_grouping(two, ")\nBand: "@ + band + " | Ch: "@ + ch + " | "@ + freq, " MHz"@);
    text::lemma_grouping(
        two,
        ")\nBand: "@ + band + " | Ch: "@ + ch + " | "@ + freq + " MHz"@,
        width,
    );
    text::lemma_grouping(three, "\nTime: "@, time);
    text::lemma_grouping(three, "\nTime: "@ + time, line);
    text::lemma_grouping(three, "\nTime: "@ + time + line, readings);
    text::lemma_grouping(three, "\nTime: "@ + time + line + readings, section);
    assert(t == three + end);
    text::law_parts(b, head);
    text::lemma_more_behind(one, s, head);
    text::lemma_more_behind(two, c, head);
    text::lemma_more_behind(three, end, head);
    text::lemma_mentions_last(head, b);
    text::lemma_more_behind(one, s, b);
    text::lemma_more_behind(two, c, b);
    text::lemma_more_behind(three, end, b);
    text::lemma_mentions_last(one, s);
    text::lemma_more_behind(two, c, s);
    text::lemma_more_behind(three, end, s);
    text::lemma_mentions_last(two, c);
    text::lemma_more_behind(three, end, c);
    text::law_parts(three, end);
}

/// The details of a no-signal point depend on nothing that only a connection
/// gives.
pub proof fn law_no_signal_ignores_source(
    m: Measurement,
    time: Seq<char>,
    source: signal_source::SourceView,
    aliases: Map<Seq<char>, String>,
    floor_ssids: Seq<Seq<char>>,
    iperf: Seq<char>,
    smb: Seq<char>,
)
    requires
        m.no_signal,
    ensures
        measurement_panel::details_text(m, time, source, aliases, floor_ssids, iperf, smb)
            == measurement_panel::no_signal_details(m, time, floor_ssids),
{
}

// ── Rows ───────────────────────────────────────────────────────────────────

/// The row of a regular point starts with its SSID and tells the level of the
/// chosen source (a dash where that was not in range), the time, and one
/// throughput: iperf3's, or Samba's where there is no other.
pub proof fn law_row_text(
    m: Measurement,
    time: Seq<char>,
    source: signal_source::SourceView,
    iperf: Seq<char>,
    smb: Seq<char>,
)
    requires
        !m.no_signal,
    ensures
        ({
            let t = measurement_panel::row_text_of(m, time, source, iperf, smb);
            let level = match signal_source::signal_of(m, source) {
                Some(v) => text::dec_int(v as int) + " dBm"@,
                None => "—"@,
            };
            let head = m.ssid@ + " | "@ + level + " | "@ + time;
            &&& text::starts_with(t, head)
            &&& m.iperf_mbps is Some ==> t == head + " | ⚡"@ + iperf
            &&& m.iperf_mbps is None && m.smb_mbps is Some ==> t == head + " | 🗂"@ + smb
            &&& m.iperf_mbps is None && m.smb_mbps is None ==> t == head
        }),
{
    let t = measurement_panel::row_text_of(m, time, source, iperf, smb);
    let level = match signal_source::signal_of(m, source) {
        Some(v) => text::dec_int(v as int) + " dBm"@,
        None => "—"@,
    };
    let head = m.ssid@ + " | "@ + level + " | "@ + time;
    let end = if m.iperf_mbps is Some {
        " | ⚡"@ + iperf
    } else if m.smb_mbps is Some {
        " | 🗂"@ + smb
    } else {
        Seq::empty()
    };
    assert(t =~= head + end);
    text::law_parts(end, head);
    if m.iperf_mbps is Some {
        assert(t =~= head + " | ⚡"@ + iperf);
    } else if m.smb_mbps is Some {
        assert(t =~= head + " | 🗂"@ + smb);
    } else {
        assert(t =~= head);
    }
}

/// The row of a no-signal point tells its time, and whether anything was in
/// range.
pub proof fn law_no_signal_row(
    m: Measurement,
    time: Seq<char>,
    source: signal_source::SourceView,
    iperf: Seq<char>,
    smb: Seq<char>,
)
    requires
        m.no_signal,
    ensures
        ({
            let t = measurement_panel::row_text_of(m, time, source, iperf, smb);
            &&& text::ends_with(t, " | "@ + time)
            &&& m.scan_results@.len() == 0 ==> text::mentions(t, "No signal"@)
            &&& m.scan_results@.len() > 0 ==> text::mentions(t, "No connection"@)
        }),
{
    let t = measurement_panel::row_text_of(m, time, source, iperf, smb);
    let what = if m.scan_results@.len() == 0 {
        "No signal"@
    } else {
        "No connection"@
    };
    let end = " | "@ + time;
    assert(t =~= "⚫ "@ + what + end);
    text::lemma_mentions("⚫ "@, what, end);
    text::law_parts("⚫ "@ + what, end);
}

/// The measurement with an id is the first one that has it.
pub proof fn law_point_with_id(ms: Seq<Measurement>, id: Seq<char>, k: int)
    requires
        0 <= k <= ms.len(),
        k < ms.len() ==> ms[k].id@ == id,
        forall|j: int| 0 <= j < k ==> (#[trigger] ms[j]).id@ != id,
    ensures
        measurement_panel::point_with_id(ms, id) == (if k < ms.len() {
            Some(ms[k])
        } else {
            None
        }),
    decreases ms.len(),
{
    if ms.len() > 0 {
        let rest = ms.drop_last();
        let last = ms.len() - 1;
        assert(ms.last() == ms[last]);
        assert forall|j: int| 0 <= j < last implies rest[j] == #[trigger] ms[j] by {}
        law_point_with_id(rest, id, if k < last {
            k
        } else {
            last
        });
        assert(measurement_panel::point_with_id(ms, id) == (
        match measurement_panel::point_with_id(rest, id) {
            Some(m) => Some(m),
            None => if ms[last].id@ == id {
                Some(ms[last])
            } else {
                None
            },
        }));
    }
}

// ── The current signal ─────────────────────────────────────────────────────

/// The current reading takes each of its values from the access point.
pub proof fn law_current_signal(
    info: WifiInfo,
    iperf_mbps: Option<models::RealBits>,
    smb_mbps: Option<models::RealBits>,
    scan_list: Option<Vec<WifiInfo>>,
)
    ensures
        ({
            let c = measurement_panel::current_of(info, iperf_mbps, smb_mbps, scan_list);
            &&& c.ssid == info.ssid && c.bssid == info.bssid && c.dbm == info.signal_dbm
            &&& c.freq == info.frequency_mhz && c.channel == info.channel
            &&& c.device == info.device
            &&& c.channel_width_mhz == info.channel_width_mhz
            &&& c.center_freq_mhz == info.center_freq_mhz
            &&& c.center_freq2_mhz == info.center_freq2_mhz
            &&& c.iperf_mbps == iperf_mbps && c.smb_mbps == smb_mbps
            &&& c.scan_list == scan_list
        }),
{
}

proof fn lemma_more_behind_all(
    s: Seq<char>,
    a: Seq<char>,
    b: Seq<char>,
    c: Seq<char>,
    d: Seq<char>,
    e: Seq<char>,
    f: Seq<char>,
    part: Seq<char>,
)
    ensures
        text::mentions(s, part) ==> text::mentions(s + a + b + c + d + e + f, part),
        text::starts_with(s, part) ==> text::starts_with(s + a + b + c + d + e + f, part),
        s + Seq::empty() == s,
{
    assert(s + Seq::empty() =~= s);
    text::lemma_more_behind(s, a, part);
    text::lemma_more_behind(s + a, b, part);
    text::lemma_more_behind(s + a + b, c, part);
    text::lemma_more_behind(s + a + b + c, d, part);
    text::lemma_more_behind(s + a + b + c + d, e, part);
    text::lemma_more_behind(s + a + b + c + d + e, f, part);
}

/// The current signal's text tells its SSID, access point, signal with the
/// rating, band, channel and width, its card, the throughputs that are known,
/// and the other access points of the SSID where a scan shows several.
pub proof fn law_current_text(
    c: CurrentSignal,
    aliases: Map<Seq<char>, String>,
    iperf: Seq<char>,
    smb: Seq<char>,
)
    ensures
        ({
            let t = measurement_panel::current_text(c, aliases, iperf, smb);
            &&& text::starts_with(t, "SSID: "@ + c.ssid@)
            &&& text::mentions(t, "\nBSSID: "@ + measurement_panel::full_label(aliases, c.bssid@))
            &&& text::mentions(
                t,
                "\nSignal: "@ + text::dec_int(c.dbm as int) + " dBm ("@
                    + measurement_panel::quality_name(c.dbm as int),
            )
            &&& text::mentions(
                t,
                ")\nBand: "@ + models::band_text(c.freq) + " | Ch: "@ + text::dec(c.channel as nat)
                    + models::suffix_text(
                    c.channel_width_mhz,
                    c.center_freq_mhz,
                    c.center_freq2_mhz,
                ),
            )
            &&& text::mentions(t, "\nCard: "@ + c.device@)
            &&& c.iperf_mbps is Some ==> text::mentions(t, "\niperf3: "@ + iperf)
            &&& c.smb_mbps is Some ==> text::mentions(t, "\nSamba: "@ + smb)
            &&& c.scan_list is Some && measurement_panel::group_text(
                c.ssid@,
                c.scan_list->0@,
                aliases,
            ) is Some ==> text::ends_with(
                t,
                measurement_panel::group_text(c.ssid@, c.scan_list->0@, aliases)->0,
            )
        }),
{
    let t = measurement_panel::current_text(c, aliases, iperf, smb);
    let head = "SSID: "@ + c.ssid@;
    let label = measurement_panel::full_label(aliases, c.bssid@);
    let b = "\nBSSID: "@ + label;
    let dbm = text::dec_int(c.dbm as int);
    let rating = measurement_panel::quality_name(c.dbm as int);
    let s = "\nSignal: "@ + dbm + " dBm ("@ + rating;
    let band = models::band_text(c.freq);
    let num = text::dec(c.channel as nat);
    let width = models::suffix_text(c.channel_width_mhz, c.center_freq_mhz, c.center_freq2_mhz);
    let ch = ")\nBand: "@ + band + " | Ch: "@ + num + width;
    let card = "\nCard: "@ + c.device@;
    let x = measurement_panel::labelled(c.iperf_mbps is Some, "\niperf3: "@, iperf, ""@);
    let y = measurement_panel::labelled(c.smb_mbps is Some, "\nSamba: "@, smb, ""@);
    let g = measurement_panel::current_group(c, aliases);
    reveal_strlit("");
    assert("\niperf3: "@ + iperf + ""@ =~= "\niperf3: "@ + iperf);
    assert("\nSamba: "@ + smb + ""@ =~= "\nSamba: "@ + smb);
    let one = head + b;
    text::lemma_grouping(head, "\nBSSID: "@, label);
    let two = one + s;
    text::lemma_grouping(one, "\nSignal: "@, dbm);
    text::lemma_grouping(one, "\nSignal: "@ + dbm, " dBm ("@);
    text::lemma_grouping(one, "\nSignal: "@ + dbm + " dBm ("@, rating);
    let three = two + ch;
    text::lemma_grouping(two, ")\nBand: "@, band);
    text::lemma_grouping(two, ")\nBand: "@ + band, " | Ch: "@);
    text::lemma_grouping(two, ")\nBand: "@ + band + " | Ch: "@, num);
    text::lemma_grouping(two, ")\nBand: "@ + band + " | Ch: "@ + num, width);
    let four = three + card;
    text::lemma_grouping(three, "\nCard: "@, c.device@);
    let five = four + x;
    let six = five + y;
    assert(t == six + g);
    text::law_parts(b, head);
    lemma_more_behind_all(one, s, ch, card, x, y, g, head);
    text::lemma_mentions_last(head, b);
    lemma_more_behind_all(one, s, ch, card, x, y, g, b);
    text::lemma_mentions_last(one, s);
    lemma_more_behind_all(two, Seq::empty(), ch, card, x, y, g, s);
    text::lemma_mentions_last(two, ch);
    lemma_more_behind_all(three, Seq::empty(), Seq::empty(), card, x, y, g, ch);
    text::lemma_mentions_last(three, card);
    text::lemma_more_behind(four, x, card);
    text::lemma_more_behind(five, y, card);
    text::lemma_more_behind(six, g, card);
    text::lemma_mentions_last(four, x);
    text::lemma_more_behind(five, y, x);
    text::lemma_more_behind(six, g, x);
    text::lemma_mentions_last(five, y);
    text::lemma_more_behind(six, g, y);
    text::law_parts(six, g);
}

// ── Popups, selections and cards ───────────────────────────────────────────

/// A popup is there exactly if the point has a scan list; its title and its
/// text tell how many access points there were.
pub proof fn law_popup(
    r: Option<measurement_panel::Popup>,
    m: Measurement,
    aliases: Map<Seq<char>, String>,
    floor_ssids: Seq<Seq<char>>,
)
    requires
        measurement_panel::is_popup(r, m, aliases, floor_ssids),
    ensures
        r is Some <==> m.scan_results@.len() > 0,
        r matches Some(p) ==> {
            &&& text::mentions(p.title@, text::dec(m.scan_results@.len()) + " APs"@)
            &&& text::starts_with(p.body@, text::dec(m.scan_results@.len()))
            &&& exists|c: Columns| #[trigger]
                measurement_panel::are_columns(
                    c,
                    m.scan_results@,
                    aliases,
                    measurement_panel::marks_of(m, floor_ssids),
                ) && text::ends_with(
                    p.body@,
                    measurement_panel::table_text(
                        c,
                        m.scan_results@,
                        aliases,
                        measurement_panel::marks_of(m, floor_ssids),
                    ),
                )
        },
{
    if let Some(p) = r {
        let marks = measurement_panel::marks_of(m, floor_ssids);
        let count = text::dec(m.scan_results@.len());
        let head = "All networks in range — "@;
        text::lemma_grouping(head, count, " APs"@);
        text::lemma_mentions_last(head, count + " APs"@);
        let c = choose|c: Columns| #[trigger]
            measurement_panel::are_columns(c, m.scan_results@, aliases, marks) && p.body@ == count
                + " APs in range at this point:\n\n"@ + measurement_panel::table_text(
                c,
                m.scan_results@,
                aliases,
                marks,
            );
        let intro = " APs in range at this point:\n\n"@;
        let table = measurement_panel::table_text(c, m.scan_results@, aliases, marks);
        text::law_parts(intro, count);
        text::lemma_more_behind(count + intro, table, count);
        text::law_parts(count + intro, table);
    }
}

/// The section of a selected measurement shows the details of that measurement;
/// its button is there exactly if the measurement has a scan list, and tells
/// how many access points there were.
pub proof fn law_selection(
    r: measurement_panel::Selection,
    selected: Option<Measurement>,
    measurements: Seq<Measurement>,
    source: signal_source::SourceView,
    aliases: Map<Seq<char>, String>,
    iperf: Seq<char>,
    smb: Seq<char>,
)
    requires
        measurement_panel::is_selection(
            r,
            selected,
            measurements,
            source,
            aliases,
            iperf,
            smb,
        ),
    ensures
        selected is None ==> r.networks_button is None,
        selected matches Some(m) ==> {
            &&& r.networks_button is Some <==> m.scan_results@.len() > 0
            &&& r.networks_button matches Some(b) ==> text::mentions(
                b@,
                text::dec(m.scan_results@.len()),
            )
            &&& !m.no_signal ==> text::starts_with(r.details@, "SSID: "@ + m.ssid@)
            &&& m.no_signal && m.scan_results@.len() == 0 ==> text::starts_with(
                r.details@,
                "No signal (dead zone)"@,
            )
        },
{
    if let Some(m) = selected {
        let time = crate::clock::day_and_time(m.timestamp.spec_secs(), m.timestamp.spec_nanos());
        let ssids = crate::names::distinct_present(models::project::point_ssids(measurements));
        if m.no_signal {
            law_no_signal_details(m, time, ssids);
        } else {
            law_regular_details(m, time, source, aliases, ssids, iperf, smb);
        }
        if m.scan_results@.len() > 0 {
            text::lemma_mentions(
                "All networks in range ("@,
                text::dec(m.scan_results@.len()),
                " APs) ▸"@,
            );
        }
    }
}

/// The highlighted card is the one in use wherever that is offered, else the
/// first.
pub proof fn law_card_place(options: Seq<Seq<char>>, selected: Option<&str>, target: u32)
    requires
        measurement_panel::is_card_place(options, selected, target),
    ensures
        selected is Some && options.contains(selected->0@) ==> target < options.len()
            && options[target as int] == selected->0@,
        selected is None || !options.contains(selected->0@) ==> target == 0,
{
}

} // verus!
