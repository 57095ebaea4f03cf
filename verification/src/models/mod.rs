//! The survey's data model, and the labels of bands and channel widths.

pub mod color_metric;
pub mod floor;
pub mod measurement;
pub mod project;
pub mod signal_source;

pub use color_metric::ColorMetric;
pub use floor::Floor;
pub use measurement::Measurement;
pub use measurement::RealBits;
pub use measurement::ScanEntry;
pub use project::Project;
pub use signal_source::signal_for;
pub use signal_source::SignalSource;

use crate::text;
use vstd::prelude::*;
use vstd::string::StringExecFns;

verus! {

/// The band that a frequency lies in.
pub open spec fn band_text(freq_mhz: u32) -> Seq<char> {
    if freq_mhz < 5000 {
        "2.4 GHz"@
    } else if freq_mhz < 5925 {
        "5 GHz"@
    } else {
        "6 GHz"@
    }
}

/// Band label for a WiFi center frequency in MHz (2.4 / 5 / 6 GHz).
pub fn band_label(freq_mhz: u32) -> (r: &'static str)
    ensures
        r@ == band_text(freq_mhz),
{
    if freq_mhz < 5000 {
        "2.4 GHz"
    } else if freq_mhz < 5925 {
        "5 GHz"
    } else {
        "6 GHz"
    }
}

/// The characters of an optional text.
pub open spec fn text_view(t: Option<String>) -> Option<Seq<char>> {
    match t {
        Some(s) => Some(s@),
        None => None,
    }
}

/// The recorded width stands for 80+80 MHz.
pub open spec fn is_80_plus_80(width: u32, center2: Option<u32>) -> bool {
    width == 160 && center2 is Some
}

pub open spec fn width_text(width: Option<u32>, center2: Option<u32>) -> Option<Seq<char>> {
    match width {
        Some(w) => Some(
            if is_80_plus_80(w, center2) {
                "80+80 MHz"@
            } else {
                text::dec(w as nat) + " MHz"@
            },
        ),
        None => None,
    }
}

/// Human-readable channel width: "20 MHz", "40 MHz", "80 MHz", "160 MHz",
/// "320 MHz", or "80+80 MHz" (width 160 with a second center). `None` =
/// unknown.
pub fn width_label(width_mhz: Option<u32>, center_freq2_mhz: Option<u32>) -> (r: Option<String>)
    ensures
        text_view(r) == width_text(width_mhz, center_freq2_mhz),
{
    match width_mhz {
        Some(w) => if w == 160 && center_freq2_mhz.is_some() {
            Some("80+80 MHz".to_owned())
        } else {
            let mut s = text::dec_text(w as u64);
            s.append(" MHz");
            Some(s)
        },
        None => None,
    }
}

pub open spec fn center_text(
    width: Option<u32>,
    center1: Option<u32>,
    center2: Option<u32>,
) -> Option<Seq<char>> {
    match (width, center1) {
        (Some(w), Some(c1)) => if w <= 20 {
            None
        } else {
            match center2 {
                Some(c2) => if w == 160 {
                    Some("ctr "@ + text::dec(c1 as nat) + " + "@ + text::dec(c2 as nat) + " MHz"@)
                } else {
                    Some("ctr "@ + text::dec(c1 as nat) + " MHz"@)
                },
                None => Some("ctr "@ + text::dec(c1 as nat) + " MHz"@),
            }
        },
        _ => None,
    }
}

/// Human-readable center frequency: "ctr 5190 MHz", or for 80+80
/// "ctr 5190 + 5690 MHz". `None` when the width is 20 MHz or unknown (the
/// center equals the primary frequency then: nothing to show).
pub fn center_label(
    width_mhz: Option<u32>,
    center_freq_mhz: Option<u32>,
    center_freq2_mhz: Option<u32>,
) -> (r: Option<String>)
    ensures
        text_view(r) == center_text(width_mhz, center_freq_mhz, center_freq2_mhz),
{
    let w: u32 = match width_mhz {
        Some(w) => w,
        None => return None,
    };
    if w <= 20 {
        return None;
    }
    let c1: u32 = match center_freq_mhz {
        Some(c) => c,
        None => return None,
    };
    let mut s = "ctr ".to_owned();
    text::push_dec(&mut s, c1 as u64);
    if let Some(c2) = center_freq2_mhz {
        if w == 160 {
            s.append(" + ");
            text::push_dec(&mut s, c2 as u64);
        }
    }
    s.append(" MHz");
    Some(s)
}

/// `" | "` in front of a text that is there.
pub open spec fn piped(t: Option<Seq<char>>) -> Seq<char> {
    match t {
        Some(t) => " | "@ + t,
        None => Seq::empty(),
    }
}

pub open spec fn suffix_text(
    width: Option<u32>,
    center1: Option<u32>,
    center2: Option<u32>,
) -> Seq<char> {
    // 20 MHz is the default width and is not shown.
    let shown = match width {
        Some(w) => if w > 20 {
            width_text(width, center2)
        } else {
            None
        },
        None => None,
    };
    piped(shown) + piped(center_text(width, center1, center2))
}

/// Suffix for channel display lines, e.g. `" | 40 MHz | ctr 5190 MHz"`. Empty
/// for 20 MHz or unknown values.
pub fn width_center_suffix(
    width_mhz: Option<u32>,
    center_freq_mhz: Option<u32>,
    center_freq2_mhz: Option<u32>,
) -> (r: String)
    ensures
        r@ == suffix_text(width_mhz, center_freq_mhz, center_freq2_mhz),
{
    let mut out = String::new();
    if width_mhz.unwrap_or(0) > 20 {
        if let Some(w) = width_label(width_mhz, center_freq2_mhz) {
            out.append(" | ");
            out.append(w.as_str());
        }
    }
    if let Some(c) = center_label(width_mhz, center_freq_mhz, center_freq2_mhz) {
        out.append(" | ");
        out.append(c.as_str());
    }
    assert(out@ =~= suffix_text(width_mhz, center_freq_mhz, center_freq2_mhz));
    out
}

pub open spec fn tag_text(width: Option<u32>, center2: Option<u32>) -> Option<Seq<char>> {
    match width {
        Some(w) => if w <= 20 {
            None
        } else if is_80_plus_80(w, center2) {
            Some("80+80M"@)
        } else {
            Some(text::dec(w as nat) + "M"@)
        },
        None => None,
    }
}

/// Short width tag for compact list rows: "40M", "80+80M", ... `None` for
/// 20 MHz or unknown.
pub fn width_tag(width_mhz: Option<u32>, center_freq2_mhz: Option<u32>) -> (r: Option<String>)
    ensures
        text_view(r) == tag_text(width_mhz, center_freq2_mhz),
{
    match width_mhz {
        Some(w) => if w <= 20 {
            None
        } else if w == 160 && center_freq2_mhz.is_some() {
            Some("80+80M".to_owned())
        } else {
            let mut s = text::dec_text(w as u64);
            s.append("M");
            Some(s)
        },
        None => None,
    }
}

/// 20 MHz and unknown widths leave no trace in channel lines and list rows.
pub proof fn law_default_width_is_silent(
    width: Option<u32>,
    center1: Option<u32>,
    center2: Option<u32>,
)
    requires
        width matches Some(w) ==> w <= 20,
    ensures
        suffix_text(width, center1, center2).len() == 0,
        tag_text(width, center2) is None,
        center_text(width, center1, center2) is None,
{
}

/// The bands meet without a gap: 2.4 GHz reaches to 5000 MHz, 5 GHz from there
/// to 5925 MHz, and 6 GHz is everything above.
pub proof fn law_bands(freq_mhz: u32)
    ensures
        band_text(freq_mhz) == "2.4 GHz"@ <==> freq_mhz < 5000,
        band_text(freq_mhz) == "5 GHz"@ <==> 5000 <= freq_mhz < 5925,
        band_text(freq_mhz) == "6 GHz"@ <==> 5925 <= freq_mhz,
{
    reveal_strlit("2.4 GHz");
    reveal_strlit("5 GHz");
    reveal_strlit("6 GHz");
    assert("5 GHz"@[0] == '5' && "6 GHz"@[0] == '6' && "2.4 GHz"@[0] == '2');
}

/// A width is labelled with its own number, except that 160 MHz with a second
/// center reads as 80+80; an unknown width has no label. The short tag says the
/// same of widths above 20 MHz and nothing of others.
pub proof fn law_width_labels(w: u32, center2: Option<u32>)
    ensures
        width_text(None, center2) is None && tag_text(None, center2) is None,
        w == 160 && center2 is Some ==> width_text(Some(w), center2) == Some("80+80 MHz"@)
            && tag_text(Some(w), center2) == Some("80+80M"@),
        w != 160 || center2 is None ==> {
            &&& width_text(Some(w), center2) is Some
            &&& text::stands_at(width_text(Some(w), center2)->0, text::dec(w as nat), 0)
            &&& text::ends_with(width_text(Some(w), center2)->0, " MHz"@)
            &&& width_text(Some(w), center2)->0.len() == text::dec(w as nat).len() + 4
        },
        w > 20 && (w != 160 || center2 is None) ==> {
            &&& tag_text(Some(w), center2) is Some
            &&& text::stands_at(tag_text(Some(w), center2)->0, text::dec(w as nat), 0)
            &&& text::ends_with(tag_text(Some(w), center2)->0, "M"@)
            &&& tag_text(Some(w), center2)->0.len() == text::dec(w as nat).len() + 1
        },
        w <= 20 ==> tag_text(Some(w), center2) is None,
{
    reveal_strlit(" MHz");
    reveal_strlit("M");
    let d = text::dec(w as nat);
    assert((d + " MHz"@).subrange(0, d.len() as int) =~= d);
    assert((d + "M"@).subrange(0, d.len() as int) =~= d);
    text::law_parts(d, " MHz"@);
    text::law_parts(d, "M"@);
}

/// The center is told exactly for a known width above 20 MHz with a known
/// center, and the second center for 160 MHz alone.
pub proof fn law_center_label(w: u32, c1: u32, center2: Option<u32>)
    ensures
        center_text(None, Some(c1), center2) is None,
        center_text(Some(w), None, center2) is None,
        w <= 20 ==> center_text(Some(w), Some(c1), center2) is None,
        w > 20 ==> {
            &&& center_text(Some(w), Some(c1), center2) is Some
            &&& text::stands_at(
                center_text(Some(w), Some(c1), center2)->0,
                "ctr "@ + text::dec(c1 as nat),
                0,
            )
            &&& w == 160 && center2 is Some ==> text::ends_with(
                center_text(Some(w), Some(c1), center2)->0,
                text::dec(c1 as nat) + " + "@ + text::dec(center2->0 as nat) + " MHz"@,
            )
            &&& w != 160 || center2 is None ==> text::ends_with(
                center_text(Some(w), Some(c1), center2)->0,
                "ctr "@ + text::dec(c1 as nat) + " MHz"@,
            )
        },
        w > 20 && w != 160 ==> center_text(Some(w), Some(c1), center2) == center_text(
            Some(w),
            Some(c1),
            None,
        ),
{
    let a = "ctr "@;
    let d = text::dec(c1 as nat);
    let m = " MHz"@;
    if w > 20 {
        let t = center_text(Some(w), Some(c1), center2)->0;
        assert(t.subrange(0, (a + d).len() as int) =~= a + d);
        if w == 160 && center2 is Some {
            let e = text::dec(center2->0 as nat);
            text::law_parts(a, d + " + "@ + e + m);
            assert(t =~= a + (d + " + "@ + e + m));
        } else {
            text::law_parts(Seq::empty(), a + d + m);
            assert(t =~= Seq::empty() + (a + d + m));
        }
    }
}

/// A channel line tells the width, and behind it the center, exactly where they
/// have a label and the width is above 20 MHz.
pub proof fn law_channel_suffix(width: Option<u32>, center1: Option<u32>, center2: Option<u32>)
    requires
        width is Some && width->0 > 20,
    ensures
        center1 is None ==> suffix_text(width, center1, center2) == " | "@ + width_text(
            width,
            center2,
        )->0,
        center1 is Some ==> suffix_text(width, center1, center2) == " | "@ + width_text(
            width,
            center2,
        )->0 + " | "@ + center_text(width, center1, center2)->0,
{
    if center1 is None {
        assert(suffix_text(width, center1, center2) =~= " | "@ + width_text(width, center2)->0);
    } else {
        assert(suffix_text(width, center1, center2) =~= " | "@ + width_text(width, center2)->0
            + " | "@ + center_text(width, center1, center2)->0);
    }
}

} // verus!
