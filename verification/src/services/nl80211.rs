//! Channel width and center frequency from nl80211 data.
//!
//! Two sources are decoded:
//!
//! - the attributes of a wireless interface: the channel it is on (primary
//!   frequency, width, center frequencies);
//! - the cached scan results: the width and center of each BSS, derived from
//!   the HT (id 61), VHT (id 192), HE (extension id 36) and EHT (extension
//!   id 106) *operation* information elements.

use crate::find;
use crate::services::nm_dbus;
use crate::text;
use crate::text_map::TextMap;
use vstd::prelude::*;
use vstd::string::StringExecFns;
use wl_nl80211::packet_core::Parseable;
use wl_nl80211::Ieee80211Element;
use wl_nl80211::Ieee80211Elements;

verus! {

/// Channel width and center frequencies (MHz).
///
/// 80+80 MHz is stored as width 160 with `center_freq2_mhz` set.
#[derive(Debug, Clone, Copy, PartialEq, Eq, Structural)]
pub struct ChannelInfo {
    /// Primary (lower) channel frequency in MHz.
    pub primary_freq_mhz: Option<u32>,
    /// Channel width in MHz (20/40/80/160/320; 80+80 stored as 160).
    pub width_mhz: Option<u32>,
    /// Center frequency 1 in MHz.
    pub center_freq_mhz: Option<u32>,
    /// Center frequency 2 in MHz (80+80 only).
    pub center_freq2_mhz: Option<u32>,
}

impl Default for ChannelInfo {
    fn default() -> (c: ChannelInfo)
        ensures
            c == (ChannelInfo {
                primary_freq_mhz: None,
                width_mhz: None,
                center_freq_mhz: None,
                center_freq2_mhz: None,
            }),
    {
        ChannelInfo {
            primary_freq_mhz: None,
            width_mhz: None,
            center_freq_mhz: None,
            center_freq2_mhz: None,
        }
    }
}

/// A decoded width: `(width_mhz, center1_mhz, center2_mhz)`.
pub type WidthCenter = (u32, Option<u32>, Option<u32>);

// ── Information elements ───────────────────────────────────────────────────

/// One information element: its id and payload when it is kept raw, `None`
/// when it is one of the kinds that are decoded into a typed value (none of
/// which carries the operating width).
pub type Element = Option<(u8, Vec<u8>)>;

/// An [`Element`] over its payload's bytes.
pub type ElementBytes = Option<(u8, Seq<u8>)>;

pub open spec fn element_view(e: Element) -> ElementBytes {
    match e {
        Some((id, p)) => Some((id, p@)),
        None => None,
    }
}

pub open spec fn elements_view(v: Seq<Element>) -> Seq<ElementBytes> {
    v.map_values(|e: Element| element_view(e))
}

/// The stream ends before its first element is complete.
pub open spec fn cut_short(ies: Seq<u8>) -> bool {
    ies.len() < 2 || ies.len() < 2 + ies[1]
}

/// The elements of a stream, each an id, a length byte and a payload; a final
/// element that is cut short is left out.
pub open spec fn split_elements(ies: Seq<u8>) -> Seq<(u8, Seq<u8>)>
    decreases ies.len(),
{
    if cut_short(ies) {
        Seq::empty()
    } else {
        seq![(ies[0], ies.subrange(2, 2 + ies[1]))] + split_elements(
            ies.subrange(2 + ies[1], ies.len() as int),
        )
    }
}

/// The element is of a kind that is decoded into a typed value: SSID, rates,
/// channel, country, HT/VHT/HE capabilities, RSN, RSN extension, vendor.
pub open spec fn is_typed(e: (u8, Seq<u8>)) -> bool {
    ||| e.0 == 0
    ||| e.0 == 1
    ||| e.0 == 3
    ||| e.0 == 7
    ||| e.0 == 45
    ||| e.0 == 48
    ||| e.0 == 191
    ||| e.0 == 221
    ||| e.0 == 244
    ||| (e.0 == 255 && e.1.len() > 0 && e.1[0] == 35)
}

/// The element as it is kept.
pub open spec fn kept(e: (u8, Seq<u8>)) -> ElementBytes {
    if is_typed(e) {
        None
    } else {
        Some(e)
    }
}

/// The elements of a stream as they are kept.
pub open spec fn kept_elements(ies: Seq<u8>) -> Seq<ElementBytes> {
    split_elements(ies).map_values(|e: (u8, Seq<u8>)| kept(e))
}

/// No element of the stream is of a typed kind.
pub open spec fn all_raw(ies: Seq<u8>) -> bool {
    forall|i: int|
        0 <= i < split_elements(ies).len() ==> !is_typed(#[trigger] split_elements(ies)[i])
}

/// The element is of a typed kind whose payload has to be well-formed: any but
/// the rates and the vendor elements.
pub open spec fn is_checked(e: (u8, Seq<u8>)) -> bool {
    is_typed(e) && e.0 != 1 && e.0 != 221
}

/// A payload as text: without one zero at its end.
pub open spec fn without_zero(payload: Seq<u8>) -> Seq<u8> {
    if payload.len() > 0 && payload.last() == 0 {
        payload.drop_last()
    } else {
        payload
    }
}

/// The payload of a checked element is well-formed: the SSID is a text; the
/// channel is one byte; the country starts with the text of its code; the
/// others have their least length.
pub open spec fn payload_accepted(id: u8, payload: Seq<u8>) -> bool {
    if id == 0 {
        vstd::utf8::valid_utf8(without_zero(payload))
    } else if id == 3 {
        payload.len() == 1
    } else if id == 7 {
        payload.len() >= 6 && vstd::utf8::valid_utf8(payload.take(2))
    } else if id == 45 {
        payload.len() >= 26
    } else if id == 48 {
        payload.len() >= 2
    } else if id == 191 {
        payload.len() >= 12
    } else if id == 244 {
        payload.len() >= 1
    } else {
        payload.len() >= 22
    }
}

/// The stream is accepted: each payload that is checked is.
pub open spec fn elements_accepted(ies: Seq<u8>) -> bool {
    forall|i: int|
        0 <= i < split_elements(ies).len() && is_checked(#[trigger] split_elements(ies)[i])
            ==> payload_accepted(split_elements(ies)[i].0, split_elements(ies)[i].1)
}

/// `Ieee80211Elements::parse`, with the elements it leaves raw
/// (`Ieee80211Element::Other`) kept and the typed ones marked `None`.
///
/// Claimed: it parses one complete element after the other, each by itself,
/// and succeeds exactly when the payload of each that is of a checked kind is
/// well-formed, whatever follows the last complete one; it then hands out one
/// element for each, in order, with raw ids and payloads as they stand in the
/// stream.
#[verifier::external_body]
fn parse_elements(ies: &[u8]) -> (r: Option<Vec<Element>>)
    ensures
        r is Some <==> elements_accepted(ies@),
        r is Some ==> elements_view(r->0@) == kept_elements(ies@),
{
    match Ieee80211Elements::parse(ies) {
        Ok(elements) => Some(
            elements.0.into_iter().map(
                |e| match e {
                    Ieee80211Element::Other(id, p) => Some((id, p)),
                    _ => None,
                },
            ).collect(),
        ),
        Err(_) => None,
    }
}

// ── Operation elements ─────────────────────────────────────────────────────

/// HT operation, secondary channel offset: none.
pub const HT_SEC_NONE: u8 = 0;

/// HT operation, secondary channel offset: above the primary.
pub const HT_SEC_ABOVE: u8 = 1;

/// HT operation, secondary channel offset: below the primary.
pub const HT_SEC_BELOW: u8 = 3;

/// VHT-encoded channel width and center segments.
#[derive(Debug, Clone, Copy, PartialEq, Eq, Structural)]
pub struct VhtOp {
    /// 0 = 20/40, 1 = 80, 2 = 160, 3 = 80+80.
    pub width: u8,
    pub c0: u8,
    pub c1: u8,
    /// The second center segment is meaningful.
    pub has_c1: bool,
}

/// HT operation (id 61): `(primary channel, secondary offset)`.
pub open spec fn ht_op(e: ElementBytes) -> Option<(u8, u8)> {
    match e {
        Some((id, p)) => if id == 61 && p.len() >= 2 {
            Some((p[0], p[1] & 3))
        } else {
            None
        },
        None => None,
    }
}

/// VHT operation (id 192); the second segment needs a payload of 6 bytes.
pub open spec fn vht_op(e: ElementBytes) -> Option<VhtOp> {
    match e {
        Some((id, p)) => if id == 192 && p.len() >= 3 {
            Some(VhtOp { width: p[0] & 3, c0: p[1], c1: p[2], has_c1: p.len() >= 6 })
        } else {
            None
        },
        None => None,
    }
}

/// The fields of an extension element (id 255) with the given inner id.
pub open spec fn extension_fields(e: ElementBytes, inner: u8) -> Option<Seq<u8>> {
    match e {
        Some((id, p)) => if id == 255 && p.len() >= 2 && p[0] == inner {
            Some(p.skip(1))
        } else {
            None
        },
        None => None,
    }
}

/// The first four bytes, little endian.
pub open spec fn le_u32(f: Seq<u8>) -> u32 {
    (f[0] as u32) | ((f[1] as u32) << 8) | ((f[2] as u32) << 16) | ((f[3] as u32) << 24)
}

/// The VHT operation information is announced and complete.
pub open spec fn he_has_vht(f: Seq<u8>) -> bool {
    le_u32(f) & 0x4000 != 0 && 6 + 3 <= f.len()
}

/// Where the 6 GHz operation information of an HE operation starts: behind
/// the optional VHT information and the optional co-hosted byte.
pub open spec fn he_6ghz_offset(f: Seq<u8>) -> int {
    6 + (if he_has_vht(f) {
        3int
    } else {
        0
    }) + (if le_u32(f) & 0x8000 != 0 {
        1int
    } else {
        0
    })
}

/// VHT operation information inside an HE operation (extension id 36).
pub open spec fn he_vht_op(e: ElementBytes) -> Option<VhtOp> {
    match extension_fields(e, 36) {
        Some(f) => if f.len() >= 6 && he_has_vht(f) {
            Some(VhtOp { width: f[6] & 3, c0: f[7], c1: f[8], has_c1: true })
        } else {
            None
        },
        None => None,
    }
}

/// 6 GHz operation information inside an HE operation: `(control, c0)`.
pub open spec fn he_6ghz_op(e: ElementBytes) -> Option<(u8, u8)> {
    match extension_fields(e, 36) {
        Some(f) => {
            let at = he_6ghz_offset(f);
            if f.len() >= 6 && le_u32(f) & 0x20000 != 0 && at + 5 <= f.len() {
                Some((f[at + 1] & 3, f[at + 2]))
            } else {
                None
            }
        },
        None => None,
    }
}

/// EHT operation information (extension id 106): `(control, c0)`.
pub open spec fn eht_op(e: ElementBytes) -> Option<(u8, u8)> {
    match extension_fields(e, 106) {
        Some(f) => if f.len() >= 8 && f[0] & 1 != 0 {
            Some((f[5] & 7, f[6]))
        } else {
            None
        },
        None => None,
    }
}

/// The operation information of a whole element list.
#[derive(Debug, Clone, Copy)]
pub struct Operation {
    pub ht: Option<(u8, u8)>,
    pub vht: Option<VhtOp>,
    pub he_vht: Option<VhtOp>,
    pub he_6ghz: Option<(u8, u8)>,
    pub eht: Option<(u8, u8)>,
}

pub open spec fn operation_of(elements: Seq<ElementBytes>) -> Operation {
    Operation {
        ht: find::last_found(elements, |e: ElementBytes| ht_op(e)),
        vht: find::last_found(elements, |e: ElementBytes| vht_op(e)),
        he_vht: find::last_found(elements, |e: ElementBytes| he_vht_op(e)),
        he_6ghz: find::last_found(elements, |e: ElementBytes| he_6ghz_op(e)),
        eht: find::last_found(elements, |e: ElementBytes| eht_op(e)),
    }
}

/// The newer value where there is one.
pub open spec fn newer<T>(new: Option<T>, known: Option<T>) -> Option<T> {
    match new {
        Some(t) => Some(t),
        None => known,
    }
}

/// The operation information with what one more element says.
pub open spec fn with_element(op: Operation, e: ElementBytes) -> Operation {
    Operation {
        ht: newer(ht_op(e), op.ht),
        vht: newer(vht_op(e), op.vht),
        he_vht: newer(he_vht_op(e), op.he_vht),
        he_6ghz: newer(he_6ghz_op(e), op.he_6ghz),
        eht: newer(eht_op(e), op.eht),
    }
}

fn apply_element(op: Operation, e: &Element) -> (r: Operation)
    ensures
        r == with_element(op, element_view(*e)),
{
    let mut r = op;
    if let Some((id, p)) = e {
        if *id == 61 && p.len() >= 2 {
            r.ht = Some((p[0], p[1] & 3));
        } else if *id == 192 && p.len() >= 3 {
            r.vht = Some(VhtOp { width: p[0] & 3, c0: p[1], c1: p[2], has_c1: p.len() >= 6 });
        } else if *id == 255 && p.len() >= 2 {
            // Extension elements: p[0] = inner id, fields after it.
            let ghost f = p@.skip(1);
            let len: usize = p.len() - 1;
            if p[0] == 36 && len >= 6 {
                let params: u32 = (p[1] as u32) | ((p[2] as u32) << 8) | ((p[3] as u32) << 16) | ((
                p[4] as u32) << 24);
                assert(params == le_u32(f));
                let mut off: usize = 6;
                if params & 0x4000 != 0 && off + 3 <= len {
                    r.he_vht = Some(VhtOp { width: p[7] & 3, c0: p[8], c1: p[9], has_c1: true });
                    off = off + 3;
                }
                if params & 0x8000 != 0 {
                    off = off + 1;
                }
                assert(off == he_6ghz_offset(f));
                if params & 0x20000 != 0 && off + 5 <= len {
                    r.he_6ghz = Some((p[off + 2] & 3, p[off + 3]));
                    assert(f[off + 1] == p@[off + 2]);
                    assert(f[off + 2] == p@[off + 3]);
                }
            } else if p[0] == 106 && len >= 8 && p[1] & 1 != 0 {
                r.eht = Some((p[6] & 7, p[7]));
            }
        }
    }
    r
}

/// Collect the operation information of an element list; a later element of
/// the same kind replaces an earlier one.
pub fn find_operation(elements: &Vec<Element>) -> (r: Operation)
    ensures
        r == operation_of(elements_view(elements@)),
{
    let mut r = Operation { ht: None, vht: None, he_vht: None, he_6ghz: None, eht: None };
    let n: usize = elements.len();
    for i in 0..n
        invariant
            n == elements@.len(),
            r == operation_of(elements_view(elements@).take(i as int)),
    {
        r = apply_element(r, &elements[i]);
        proof {
            let all = elements_view(elements@);
            assert(all.take(i + 1).last() == element_view(elements@[i as int]));
            assert(all.take(i + 1).drop_last() =~= all.take(i as int));
        }
    }
    proof {
        let all = elements_view(elements@);
        assert(all.take(n as int) =~= all);
    }
    r
}

// ── Width and center ───────────────────────────────────────────────────────

/// Center frequency segment (channel number) in MHz.
///
/// 6 GHz segments count from 5955 in steps of 5, 5 GHz segments from 5000. The
/// band is picked from the primary frequency; 2.4 GHz has no segments.
pub open spec fn segment_mhz(seg: u8, primary: Option<u32>) -> Option<u32> {
    match primary {
        Some(f) => if f >= 5925 {
            Some((5955 + (if seg >= 1 {
                seg - 1
            } else {
                0
            }) * 5) as u32)
        } else if f >= 5000 {
            Some((5000 + seg * 5) as u32)
        } else {
            None
        },
        None => None,
    }
}

/// The center of a 40 MHz channel: 10 MHz off the primary, towards the
/// secondary channel (never below 0).
pub open spec fn center_40(primary: u32, sec: u8) -> u32 {
    if sec == HT_SEC_ABOVE {
        (primary + 10) as u32
    } else if primary >= 10 {
        (primary - 10) as u32
    } else {
        0
    }
}

/// The secondary offset announces a second channel.
pub open spec fn is_40(sec: u8) -> bool {
    sec == HT_SEC_ABOVE || sec == HT_SEC_BELOW
}

/// There is room for a 40 MHz center above the frequency.
pub open spec fn has_headroom(freq: Option<u32>) -> bool {
    freq matches Some(f) ==> f <= u32::MAX - 10
}

/// The frequency to which a 40 MHz channel is adjoined: that of the primary
/// channel that the HT operation names, else that of the BSS.
pub open spec fn ht_base(channel: u8, base: Option<u32>) -> Option<u32> {
    if channel > 0 {
        newer(segment_mhz(channel, base), base)
    } else {
        base
    }
}

/// Width and centers of a VHT-encoded width. For width 0 (20 or 40 MHz) the
/// HT operation decides, and its own primary channel gives the 40 MHz center;
/// without one the frequency of the BSS stands in.
pub open spec fn vht_width(op: VhtOp, ht: Option<(u8, u8)>, base: Option<u32>) -> WidthCenter {
    if op.width == 1 {
        (80, segment_mhz(op.c0, base), None)
    } else if op.width == 2 {
        (160, segment_mhz(op.c0, base), None)
    } else if op.width == 3 {
        (160, segment_mhz(op.c0, base), if op.has_c1 {
            segment_mhz(op.c1, base)
        } else {
            None
        })
    } else {
        match ht {
            Some((channel, sec)) => if is_40(sec) {
                (40, match ht_base(channel, base) {
                    Some(f) => Some(center_40(f, sec)),
                    None => None,
                }, None)
            } else {
                (20, None, None)
            },
            None => (20, None, None),
        }
    }
}

/// The center of a VHT-encoded width is a number: only a 40 MHz center above a
/// base at the very end of the numbers is not.
pub open spec fn vht_fits(op: VhtOp, ht: Option<(u8, u8)>, base: Option<u32>) -> bool {
    op.width == 1 || op.width == 2 || op.width == 3 || (ht matches Some((channel, sec)) ==> sec
        == HT_SEC_ABOVE ==> has_headroom(ht_base(channel, base)))
}

/// The width that the newest announced PHY gives: EHT, then HE (6 GHz
/// information before VHT information), then VHT, then HT. A bare HT
/// operation counts only for 40 MHz with a known primary frequency.
pub open spec fn operation_width(op: Operation, primary: Option<u32>) -> Option<WidthCenter> {
    if let Some((control, c0)) = op.eht {
        if control == 0 {
            Some((20, segment_mhz(c0, primary), None))
        } else if control == 1 {
            Some((40, segment_mhz(c0, primary), None))
        } else if control == 2 {
            Some((80, segment_mhz(c0, primary), None))
        } else if control == 3 {
            Some((160, segment_mhz(c0, primary), None))
        } else if control == 4 {
            Some((320, segment_mhz(c0, primary), None))
        } else {
            None
        }
    } else if let Some((control, c0)) = op.he_6ghz {
        if control == 0 {
            Some((20, segment_mhz(c0, primary), None))
        } else if control == 1 {
            Some((40, segment_mhz(c0, primary), None))
        } else if control == 2 {
            Some((80, segment_mhz(c0, primary), None))
        } else {
            Some((160, segment_mhz(c0, primary), None))
        }
    } else if let Some(vht) = op.he_vht {
        Some(vht_width(vht, op.ht, primary))
    } else if let Some(vht) = op.vht {
        Some(vht_width(vht, op.ht, primary))
    } else {
        match (op.ht, primary) {
            (Some((_, sec)), Some(f)) => if is_40(sec) {
                Some((40, Some(center_40(f, sec)), None))
            } else {
                None
            },
            _ => None,
        }
    }
}

/// The center that the newest announced PHY gives is a number.
pub open spec fn operation_fits(op: Operation, primary: Option<u32>) -> bool {
    if op.eht is Some || op.he_6ghz is Some {
        true
    } else if let Some(vht) = op.he_vht {
        vht_fits(vht, op.ht, primary)
    } else if let Some(vht) = op.vht {
        vht_fits(vht, op.ht, primary)
    } else {
        op.ht matches Some((_, sec)) ==> sec == HT_SEC_ABOVE ==> has_headroom(primary)
    }
}

fn seg_to_mhz(seg: u8, primary_freq_mhz: Option<u32>) -> (r: Option<u32>)
    ensures
        r == segment_mhz(seg, primary_freq_mhz),
{
    match primary_freq_mhz {
        Some(f) => if f >= 5925 {
            Some(5955 + seg.saturating_sub(1) as u32 * 5)
        } else if f >= 5000 {
            Some(5000 + seg as u32 * 5)
        } else {
            None
        },
        None => None,
    }
}

/// Resolve a VHT-encoded width and its center segments, falling back to the
/// HT secondary offset for the 20/40 MHz case.
pub fn vht_width_center(op: VhtOp, ht: Option<(u8, u8)>, base_freq: Option<u32>) -> (r: WidthCenter)
    requires
        vht_fits(op, ht, base_freq),
    ensures
        r == vht_width(op, ht, base_freq),
{
    match op.width {
        1 => (80, seg_to_mhz(op.c0, base_freq), None),
        2 => (160, seg_to_mhz(op.c0, base_freq), None),
        3 => if op.has_c1 {
            (160, seg_to_mhz(op.c0, base_freq), seg_to_mhz(op.c1, base_freq))
        } else {
            (160, seg_to_mhz(op.c0, base_freq), None)
        },
        _ => match ht {
            Some((channel, sec)) => {
                if sec != HT_SEC_ABOVE && sec != HT_SEC_BELOW {
                    return (20, None, None);
                }
                let own: Option<u32> = if channel > 0 {
                    seg_to_mhz(channel, base_freq)
                } else {
                    None
                };
                let primary: Option<u32> = match own {
                    Some(f) => Some(f),
                    None => base_freq,
                };
                let center: Option<u32> = match primary {
                    Some(f) => if sec == HT_SEC_ABOVE {
                        Some(f + 10)
                    } else {
                        Some(f.saturating_sub(10))
                    },
                    None => None,
                };
                (40, center, None)
            },
            None => (20, None, None),
        },
    }
}

/// Decode the channel width and center frequencies from the operation
/// information of a BSS.
pub fn operation_width_center(op: &Operation, primary_freq_mhz: Option<u32>) -> (r: Option<
    WidthCenter,
>)
    requires
        operation_fits(*op, primary_freq_mhz),
    ensures
        r == operation_width(*op, primary_freq_mhz),
{
    if let Some((control, c0)) = op.eht {
        let center = seg_to_mhz(c0, primary_freq_mhz);
        return match control {
            0 => Some((20, center, None)),
            1 => Some((40, center, None)),
            2 => Some((80, center, None)),
            3 => Some((160, center, None)),
            4 => Some((320, center, None)),
            _ => None,
        };
    }
    if let Some((control, c0)) = op.he_6ghz {
        let center = seg_to_mhz(c0, primary_freq_mhz);
        return match control {
            0 => Some((20, center, None)),
            1 => Some((40, center, None)),
            2 => Some((80, center, None)),
            _ => Some((160, center, None)),
        };
    }
    if let Some(vht) = op.he_vht {
        return Some(vht_width_center(vht, op.ht, primary_freq_mhz));
    }
    if let Some(vht) = op.vht {
        return Some(vht_width_center(vht, op.ht, primary_freq_mhz));
    }
    if let Some((_, sec)) = op.ht {
        if let Some(freq) = primary_freq_mhz {
            if sec == HT_SEC_ABOVE {
                return Some((40, Some(freq + 10), None));
            }
            if sec == HT_SEC_BELOW {
                return Some((40, Some(freq.saturating_sub(10)), None));
            }
        }
    }
    None
}

/// The width that an element list gives.
pub open spec fn elements_width(elements: Seq<ElementBytes>, primary: Option<u32>) -> Option<
    WidthCenter,
> {
    operation_width(operation_of(elements), primary)
}

/// Decode the channel width and center frequencies from parsed elements.
pub fn elements_width_center(elements: &Vec<Element>, primary_freq_mhz: Option<u32>) -> (r: Option<
    WidthCenter,
>)
    requires
        operation_fits(operation_of(elements_view(elements@)), primary_freq_mhz),
    ensures
        r == elements_width(elements_view(elements@), primary_freq_mhz),
{
    let op = find_operation(elements);
    operation_width_center(&op, primary_freq_mhz)
}

/// The width that a raw element stream gives: nothing when it is refused.
pub open spec fn ies_width(ies: Seq<u8>, primary: Option<u32>) -> Option<WidthCenter> {
    if elements_accepted(ies) {
        elements_width(kept_elements(ies), primary)
    } else {
        None
    }
}

/// The center that a raw element stream gives is a number.
pub open spec fn ies_fit(ies: Seq<u8>, primary: Option<u32>) -> bool {
    elements_accepted(ies) ==> operation_fits(operation_of(kept_elements(ies)), primary)
}

fn has_room(freq: Option<u32>) -> (r: bool)
    ensures
        r == has_headroom(freq),
{
    match freq {
        Some(f) => f <= u32::MAX - 10,
        None => true,
    }
}

fn vht_has_room(op: VhtOp, ht: Option<(u8, u8)>, base_freq: Option<u32>) -> (r: bool)
    ensures
        r == vht_fits(op, ht, base_freq),
{
    if op.width == 1 || op.width == 2 || op.width == 3 {
        return true;
    }
    match ht {
        Some((channel, sec)) => {
            if sec != HT_SEC_ABOVE {
                return true;
            }
            let own: Option<u32> = if channel > 0 {
                seg_to_mhz(channel, base_freq)
            } else {
                None
            };
            match own {
                Some(f) => has_room(Some(f)),
                None => has_room(base_freq),
            }
        },
        None => true,
    }
}

fn operation_has_room(op: &Operation, primary_freq_mhz: Option<u32>) -> (r: bool)
    ensures
        r == operation_fits(*op, primary_freq_mhz),
{
    if op.eht.is_some() || op.he_6ghz.is_some() {
        return true;
    }
    if let Some(vht) = op.he_vht {
        return vht_has_room(vht, op.ht, primary_freq_mhz);
    }
    if let Some(vht) = op.vht {
        return vht_has_room(vht, op.ht, primary_freq_mhz);
    }
    match op.ht {
        Some((_, sec)) => sec != HT_SEC_ABOVE || has_room(primary_freq_mhz),
        None => true,
    }
}

/// Whether the center that the information elements of a BSS give is a number.
/// It is for every frequency in use.
pub fn ie_center_fits(ies: &[u8], primary_freq_mhz: Option<u32>) -> (r: bool)
    ensures
        r == ies_fit(ies@, primary_freq_mhz),
{
    match parse_elements(ies) {
        Some(elements) => {
            let op = find_operation(&elements);
            operation_has_room(&op, primary_freq_mhz)
        },
        None => true,
    }
}

/// Decode the channel width and center frequencies from the information
/// elements of a BSS.
///
/// Returns `(width_mhz, center1_mhz, center2_mhz)`, or `None` when no
/// operation element gives a width (the caller decides whether that means
/// "20 MHz" or "unknown"). `primary_freq_mhz` selects the 5 GHz / 6 GHz
/// mapping of center segments.
pub fn ie_width_center(ies: &[u8], primary_freq_mhz: Option<u32>) -> (r: Option<WidthCenter>)
    requires
        ies_fit(ies@, primary_freq_mhz),
    ensures
        r == ies_width(ies@, primary_freq_mhz),
        all_raw(ies@) ==> r == elements_width(kept_elements(ies@), primary_freq_mhz),
{
    match parse_elements(ies) {
        Some(elements) => elements_width_center(&elements, primary_freq_mhz),
        None => None,
    }
}

/// Whatever the elements say, a decoded width is one of the standard ones; only
/// 160 MHz (as 80+80) comes with a second center, and never without a first;
/// and there are no centers where the primary frequency is not known.
pub proof fn law_width_is_standard(elements: Seq<ElementBytes>, primary: Option<u32>)
    ensures
        elements_width(elements, primary) matches Some((w, c1, c2)) ==> {
            &&& (w == 20 || w == 40 || w == 80 || w == 160 || w == 320)
            &&& (c2 is Some ==> w == 160)
            &&& (c2 is Some ==> c1 is Some)
            &&& (primary is None ==> c1 is None && c2 is None)
        },
{
}

/// The newest PHY decides: what an EHT operation gives does not depend on the
/// older operation elements beside it.
pub proof fn law_eht_decides(op: Operation, other: Operation, primary: Option<u32>)
    requires
        op.eht is Some,
        other.eht == op.eht,
    ensures
        operation_width(op, primary) == operation_width(other, primary),
{
}

/// Some element is an EHT operation.
pub open spec fn has_eht(elements: Seq<ElementBytes>) -> bool {
    exists|i: int| 0 <= i < elements.len() && eht_op(#[trigger] elements[i]) is Some
}

/// The newest PHY decides wherever it stands: an element list with an EHT
/// operation gives the same width with any elements without one behind it or
/// in front of it.
pub proof fn law_eht_decides_among_elements(
    x: Seq<ElementBytes>,
    y: Seq<ElementBytes>,
    primary: Option<u32>,
)
    requires
        has_eht(x),
        !has_eht(y),
    ensures
        operation_of(x).eht is Some,
        operation_of(x + y).eht is Some,
        operation_of(y + x).eht is Some,
        elements_width(x + y, primary) == elements_width(x, primary),
        elements_width(y + x, primary) == elements_width(x, primary),
{
    let decode = |e: ElementBytes| eht_op(e);
    find::lemma_last_found_some(x, decode);
    find::lemma_last_found_some(y, decode);
    find::lemma_last_found_add(x, y, decode);
    find::lemma_last_found_add(y, x, decode);
    assert(exists|i: int| 0 <= i < x.len() && decode(#[trigger] x[i]) is Some) by {
        let i = choose|i: int| 0 <= i < x.len() && eht_op(#[trigger] x[i]) is Some;
        assert(decode(x[i]) is Some);
    }
    assert(operation_of(x).eht is Some);
    law_eht_decides(operation_of(x), operation_of(x + y), primary);
    law_eht_decides(operation_of(x), operation_of(y + x), primary);
}

/// The stream is made of complete elements only.
pub open spec fn is_complete(ies: Seq<u8>) -> bool
    decreases ies.len(),
{
    if ies.len() == 0 {
        true
    } else {
        !cut_short(ies) && is_complete(ies.subrange(2 + ies[1], ies.len() as int))
    }
}

/// Two streams one behind the other hold the elements of the first, then those
/// of the second, and are accepted when both are.
pub proof fn law_streams_concatenate(x: Seq<u8>, y: Seq<u8>)
    requires
        is_complete(x),
    ensures
        split_elements(x + y) == split_elements(x) + split_elements(y),
        kept_elements(x + y) == kept_elements(x) + kept_elements(y),
        elements_accepted(x + y) <==> elements_accepted(x) && elements_accepted(y),
{
    lemma_split_add(x, y);
    let a = split_elements(x);
    let b = split_elements(y);
    let all = split_elements(x + y);
    assert(kept_elements(x + y) =~= kept_elements(x) + kept_elements(y));
    if elements_accepted(x + y) {
        assert forall|i: int| 0 <= i < a.len() && is_checked(#[trigger] a[i]) implies
            payload_accepted(a[i].0, a[i].1) by {
            assert(all[i] == a[i]);
        }
        assert forall|i: int| 0 <= i < b.len() && is_checked(#[trigger] b[i]) implies
            payload_accepted(b[i].0, b[i].1) by {
            assert(all[a.len() + i] == b[i]);
        }
    }
    if elements_accepted(x) && elements_accepted(y) {
        assert forall|i: int| 0 <= i < all.len() && is_checked(#[trigger] all[i]) implies
            payload_accepted(all[i].0, all[i].1) by {
            if i < a.len() {
                assert(all[i] == a[i]);
            } else {
                assert(all[i] == b[i - a.len()]);
            }
        }
    }
}

proof fn lemma_split_add(x: Seq<u8>, y: Seq<u8>)
    requires
        is_complete(x),
    ensures
        split_elements(x + y) == split_elements(x) + split_elements(y),
    decreases x.len(),
{
    if x.len() == 0 {
        assert(x + y =~= y);
        assert(split_elements(x) + split_elements(y) =~= split_elements(y));
    } else {
        let n = 2 + x[1];
        let rest = x.subrange(n, x.len() as int);
        let all = x + y;
        lemma_split_add(rest, y);
        assert(all.subrange(n, all.len() as int) =~= rest + y);
        assert(all.subrange(2, n) =~= x.subrange(2, n));
        assert(split_elements(all) =~= split_elements(x) + split_elements(y));
    }
}

/// The stream is made of complete and accepted elements only.
pub open spec fn is_well_formed(ies: Seq<u8>) -> bool {
    is_complete(ies) && elements_accepted(ies)
}

/// The newest PHY decides wherever it stands in a stream: a well-formed stream
/// with an EHT operation gives the same width with any well-formed stream
/// without one behind it or in front of it, whatever the frequency.
pub proof fn law_eht_decides_in_a_stream(x: Seq<u8>, y: Seq<u8>, primary: Option<u32>)
    requires
        is_well_formed(x),
        is_well_formed(y),
        has_eht(kept_elements(x)),
        !has_eht(kept_elements(y)),
    ensures
        ies_fit(x, primary) && ies_fit(x + y, primary) && ies_fit(y + x, primary),
        is_well_formed(x + y) && is_well_formed(y + x),
        ies_width(x + y, primary) == ies_width(x, primary),
        ies_width(y + x, primary) == ies_width(x, primary),
{
    law_streams_concatenate(x, y);
    law_streams_concatenate(y, x);
    lemma_complete_add(x, y);
    lemma_complete_add(y, x);
    law_eht_decides_among_elements(kept_elements(x), kept_elements(y), primary);
}

proof fn lemma_complete_add(x: Seq<u8>, y: Seq<u8>)
    requires
        is_complete(x),
        is_complete(y),
    ensures
        is_complete(x + y),
    decreases x.len(),
{
    if x.len() == 0 {
        assert(x + y =~= y);
    } else {
        let n = 2 + x[1];
        let all = x + y;
        lemma_complete_add(x.subrange(n, x.len() as int), y);
        assert(all.subrange(n, all.len() as int) =~= x.subrange(n, x.len() as int) + y);
    }
}

/// With the VHT width 0 the HT operation alone decides: 20 MHz without
/// centers, unless it announces a secondary channel; then 40 MHz, with the
/// center 10 MHz above or below its base. The center segments do not matter.
pub proof fn law_narrow_vht_follows_ht(
    c0: u8,
    c1: u8,
    has_c1: bool,
    ht: Option<(u8, u8)>,
    base: Option<u32>,
)
    requires
        ht matches Some((channel, sec)) ==> sec == HT_SEC_ABOVE ==> has_headroom(
            ht_base(channel, base),
        ),
    ensures
        vht_fits((VhtOp { width: 0, c0, c1, has_c1 }), ht, base),
        ({
            let w = vht_width((VhtOp { width: 0, c0, c1, has_c1 }), ht, base);
            match ht {
                Some((channel, sec)) => if is_40(sec) {
                    &&& w.0 == 40 && w.2 is None
                    &&& w.1 is None <==> ht_base(channel, base) is None
                    &&& ht_base(channel, base) matches Some(f) ==> w.1->0 == (if sec
                        == HT_SEC_ABOVE {
                        f + 10
                    } else if f >= 10 {
                        f - 10
                    } else {
                        0
                    })
                } else {
                    w == (20u32, None::<u32>, None::<u32>)
                },
                None => w == (20u32, None::<u32>, None::<u32>),
            }
        }),
{
}

/// The center segments of a VHT operation of width 0 change nothing in what an
/// element list gives.
pub proof fn law_narrow_vht_ignores_segments(
    op: Operation,
    other: Operation,
    primary: Option<u32>,
)
    requires
        op.vht matches Some(v) && v.width == 0,
        other.vht matches Some(v) && v.width == 0,
        other == (Operation { vht: other.vht, ..op }),
    ensures
        operation_width(op, primary) == operation_width(other, primary),
{
}

/// A 40 MHz channel spreads 10 MHz to both sides of its center, so its primary
/// channel stays inside it: the center announced above and the one announced
/// below are 20 MHz apart.
pub proof fn law_40_mhz_centers(freq: u32)
    requires
        10 <= freq <= u32::MAX - 10,
    ensures
        center_40(freq, HT_SEC_ABOVE) == freq + 10,
        center_40(freq, HT_SEC_BELOW) == freq - 10,
{
}

/// A segment is a channel number: its frequency has that channel number, on
/// the band of the primary frequency, and neighbouring segments lie 5 MHz
/// apart. Below 5 GHz, or without a primary frequency, there are no segments.
pub proof fn law_segments_are_channels(seg: u8, primary: Option<u32>)
    ensures
        primary is None ==> segment_mhz(seg, primary) is None,
        primary matches Some(f) ==> {
            &&& f < 5000 ==> segment_mhz(seg, primary) is None
            &&& f >= 5000 ==> segment_mhz(seg, primary) is Some
            &&& 5000 <= f < 5925 && 32 <= seg <= 177 ==> nm_dbus::channel_number(
                segment_mhz(seg, primary)->0,
            ) == seg
            &&& 5000 <= f < 5925 ==> segment_mhz(seg, primary)->0 - 5000 == 5 * seg
            &&& f >= 5925 && 1 <= seg <= 233 ==> nm_dbus::channel_number(
                segment_mhz(seg, primary)->0,
            ) == seg
            &&& f >= 5925 && seg >= 1 ==> segment_mhz(seg, primary)->0 - 5950 == 5 * seg
            &&& f >= 5925 ==> segment_mhz(0, primary) == segment_mhz(1, primary)
            &&& f >= 5000 && 1 <= seg < 255 ==> segment_mhz((seg + 1) as u8, primary)->0
                == segment_mhz(seg, primary)->0 + 5
        },
{
}

/// Where the 6 GHz information of an HE operation decides, its control counts
/// how often 20 MHz are doubled: 20, 40, 80 or 160 MHz, around its segment. A
/// greater control counts as 160 MHz.
pub proof fn law_he_6ghz_width(op: Operation, control: u8, c0: u8, primary: Option<u32>)
    requires
        op.eht is None,
        op.he_6ghz == Some((control, c0)),
    ensures
        operation_width(op, primary) matches Some((w, center, second)) && {
            &&& control <= 3 ==> w == 20 * vstd::arithmetic::power2::pow2(control as nat)
            &&& control > 3 ==> w == 160
            &&& center == segment_mhz(c0, primary)
            &&& second is None
        },
{
    vstd::arithmetic::power2::lemma2_to64();
}

/// An EHT operation decides with the same steps, up to 320 MHz; a greater
/// control gives no width.
pub proof fn law_eht_width(op: Operation, control: u8, c0: u8, primary: Option<u32>)
    requires
        op.eht == Some((control, c0)),
    ensures
        control > 4 ==> operation_width(op, primary) is None,
        control <= 4 ==> (operation_width(op, primary) matches Some((w, center, second)) && {
            &&& w == 20 * vstd::arithmetic::power2::pow2(control as nat)
            &&& center == segment_mhz(c0, primary)
            &&& second is None
        }),
{
    vstd::arithmetic::power2::lemma2_to64();
}

/// EHT and HE agree: the same control and segment announced by either give the
/// same channel, and different controls give different widths.
pub proof fn law_eht_and_he_agree(
    eht: Operation,
    he: Operation,
    a: (u8, u8),
    b: (u8, u8),
    primary: Option<u32>,
)
    requires
        eht.eht == Some(a),
        he.eht is None,
        he.he_6ghz == Some(b),
        a.0 <= 3,
        b.0 <= 3,
    ensures
        a == b ==> operation_width(eht, primary) == operation_width(he, primary),
        a.0 != b.0 ==> (operation_width(eht, primary)->0).0 != (operation_width(he, primary)->0).0,
        a.0 < b.0 ==> (operation_width(eht, primary)->0).0 < (operation_width(he, primary)->0).0,
{
}

/// A wide VHT operation is 80 MHz, or twice that; its center is that of its
/// first segment, and the second segment counts for 80+80 MHz alone, where it
/// is announced. The HT operation beside it does not matter.
pub proof fn law_wide_vht(op: VhtOp, ht: Option<(u8, u8)>, base: Option<u32>)
    requires
        1 <= op.width <= 3,
    ensures
        op.width == 1 ==> vht_width(op, ht, base).0 == 80,
        op.width >= 2 ==> vht_width(op, ht, base).0 == 2 * 80,
        vht_width(op, ht, base).1 == segment_mhz(op.c0, base),
        op.width == 3 && op.has_c1 ==> vht_width(op, ht, base).2 == segment_mhz(op.c1, base),
        op.width < 3 || !op.has_c1 ==> vht_width(op, ht, base).2 is None,
        vht_width(op, ht, base) == vht_width(op, None, base),
{
}

/// A narrow VHT operation (any width but the wide ones) is 20 MHz without a
/// center, or 40 MHz where the HT operation has a secondary channel above (1)
/// or below (3) its primary one: the center lies 10 MHz from the primary, on
/// that side. The HT operation's own channel number gives the primary wherever
/// it has a frequency, else the frequency of the BSS does.
pub proof fn law_narrow_vht(op: VhtOp, channel: u8, sec: u8, base: Option<u32>)
    requires
        !(1 <= op.width <= 3),
        base matches Some(f) ==> f <= u32::MAX - 10,
    ensures
        vht_fits(op, Some((channel, sec)), base),
        vht_width(op, None, base) == (20u32, None::<u32>, None::<u32>),
        sec != 1 && sec != 3 ==> vht_width(op, Some((channel, sec)), base) == (
            20u32,
            None::<u32>,
            None::<u32>,
        ),
        sec == 1 || sec == 3 ==> ({
            let w = vht_width(op, Some((channel, sec)), base);
            &&& w.0 == 40 && w.2 is None
            &&& w.1 is Some <==> base is Some
            &&& base matches Some(f) ==> {
                let primary = if channel > 0 && f >= 5000 {
                    segment_mhz(channel, base)->0
                } else {
                    f
                };
                &&& sec == 1 ==> w.1->0 - primary == 10
                &&& sec == 3 && primary >= 10 ==> primary - w.1->0 == 10
                &&& sec == 3 && primary < 10 ==> w.1->0 == 0
            }
        }),
{
}

/// The newer information decides: the 6 GHz information of an HE operation
/// over everything but EHT, the VHT information of an HE operation over a VHT
/// operation (of which it says the same), and either of them over a bare HT
/// operation.
pub proof fn law_newer_information_decides(
    op: Operation,
    he_6ghz: (u8, u8),
    he_vht: VhtOp,
    vht: VhtOp,
    primary: Option<u32>,
)
    requires
        op.eht is None,
    ensures
        operation_width((Operation { he_6ghz: Some(he_6ghz), ..op }), primary) == operation_width(
            (Operation { ht: None, vht: None, he_vht: None, he_6ghz: Some(he_6ghz), eht: None }),
            primary,
        ),
        operation_width(
            (Operation { he_vht: Some(he_vht), he_6ghz: None, ..op }),
            primary,
        ) == Some(vht_width(he_vht, op.ht, primary)),
        operation_width(
            (Operation { vht: Some(vht), he_vht: None, he_6ghz: None, ..op }),
            primary,
        ) == Some(vht_width(vht, op.ht, primary)),
{
}

/// A bare HT operation gives a width only for 40 MHz at a known frequency: the
/// center lies 10 MHz above it (secondary channel 1) or below it (3).
pub proof fn law_bare_ht(channel: u8, sec: u8, primary: Option<u32>)
    requires
        primary matches Some(f) ==> f <= u32::MAX - 10,
    ensures
        ({
            let op = Operation {
                ht: Some((channel, sec)),
                vht: None,
                he_vht: None,
                he_6ghz: None,
                eht: None,
            };
            &&& operation_width((Operation { ht: None, ..op }), primary) is None
            &&& primary is None ==> operation_width(op, primary) is None
            &&& sec != 1 && sec != 3 ==> operation_width(op, primary) is None
            &&& primary matches Some(f) ==> {
                &&& sec == 1 ==> (operation_width(op, primary) matches Some((w, c, second)) && {
                    &&& w == 40 && second is None
                    &&& c is Some && c->0 - f == 10
                })
                &&& sec == 3 ==> (operation_width(op, primary) matches Some((w, c, second)) && {
                    &&& w == 40 && second is None
                    &&& c is Some && (f >= 10 ==> f - c->0 == 10) && (f < 10 ==> c->0 == 0)
                })
            }
        }),
{
}

/// The only center that is no number is one 10 MHz above a frequency at the
/// very end of the numbers: that of a 40 MHz channel with its secondary channel
/// above, where neither EHT, nor the 6 GHz information of HE, nor a wide VHT
/// operation decides.
pub proof fn law_centers_fit(op: Operation, primary: Option<u32>)
    ensures
        op.eht is Some || op.he_6ghz is Some ==> operation_fits(op, primary),
        op.ht is None ==> operation_fits(op, primary),
        op.ht matches Some((channel, sec)) ==> {
            &&& sec != 1 ==> operation_fits(op, primary)
            &&& sec == 1 && op.eht is None && op.he_6ghz is None && op.he_vht is None && op.vht
                is None ==> (operation_fits(op, primary) <==> (primary matches Some(f) ==> f + 10
                <= u32::MAX))
        },
        operation_fits(op, None),
        primary matches Some(f) ==> f + 10 <= u32::MAX ==> operation_fits(op, primary),
{
}

/// An HT operation element starts with the primary channel and a byte whose
/// two lowest bits are the secondary offset; whatever follows does not matter,
/// and it says nothing else.
pub proof fn law_ht_element(channel: u8, info: u8, rest: Seq<u8>)
    ensures
        ({
            let e = Some((61u8, seq![channel, info] + rest));
            &&& ht_op(e) == Some((channel, info % 4))
            &&& vht_op(e) is None && he_vht_op(e) is None
            &&& he_6ghz_op(e) is None && eht_op(e) is None
        }),
{
    assert(info & 3 == info % 4) by (bit_vector);
}

/// A VHT operation element starts with a byte whose two lowest bits are the
/// width, and the two center segments; the second one is meaningful where at
/// least three more bytes follow. It says nothing else.
pub proof fn law_vht_element(info: u8, c0: u8, c1: u8, rest: Seq<u8>)
    ensures
        ({
            let e = Some((192u8, seq![info, c0, c1] + rest));
            &&& vht_op(e) matches Some(op) && op.width == info % 4 && op.c0 == c0 && op.c1 == c1
                && op.has_c1 == (rest.len() >= 3)
            &&& ht_op(e) is None && he_vht_op(e) is None
            &&& he_6ghz_op(e) is None && eht_op(e) is None
        }),
{
    assert(info & 3 == info % 4) by (bit_vector);
}

/// Bytes that are there or not.
pub open spec fn optional_bytes(present: bool, bytes: Seq<u8>) -> Seq<u8> {
    if present {
        bytes
    } else {
        Seq::empty()
    }
}

/// An HE operation element: its id, four bytes of parameters, two bytes of
/// rates, and the parts that the parameters announce: VHT information (bit 14),
/// a co-hosted byte (bit 15), 6 GHz information (bit 17).
pub open spec fn he_element(
    params: (u8, u8, u8, u8),
    rates: (u8, u8),
    vht: (u8, u8, u8),
    cohosted: u8,
    six_ghz: (u8, u8, u8, u8, u8),
    rest: Seq<u8>,
) -> ElementBytes {
    Some(
        (
            255u8,
            seq![36u8, params.0, params.1, params.2, params.3, rates.0, rates.1] + optional_bytes(
                params.1 as int / 64 % 2 == 1,
                seq![vht.0, vht.1, vht.2],
            ) + optional_bytes(params.1 as int / 128 == 1, seq![cohosted]) + optional_bytes(
                params.2 as int / 2 % 2 == 1,
                seq![six_ghz.0, six_ghz.1, six_ghz.2, six_ghz.3, six_ghz.4],
            ) + rest,
        ),
    )
}

/// What an HE operation element is made of is read back from it: the VHT
/// information and the 6 GHz information, each exactly where it is announced,
/// whichever other parts are there. It says nothing else.
pub proof fn law_he_element(
    params: (u8, u8, u8, u8),
    rates: (u8, u8),
    vht: (u8, u8, u8),
    cohosted: u8,
    six_ghz: (u8, u8, u8, u8, u8),
    rest: Seq<u8>,
)
    ensures
        ({
            let e = he_element(params, rates, vht, cohosted, six_ghz, rest);
            &&& params.1 as int / 64 % 2 == 1 ==> (he_vht_op(e) matches Some(op) && op.width
                == vht.0 % 4 && op.c0 == vht.1 && op.c1 == vht.2 && op.has_c1)
            &&& params.1 as int / 64 % 2 == 0 ==> he_vht_op(e) is None
            &&& params.2 as int / 2 % 2 == 1 ==> he_6ghz_op(e) == Some((six_ghz.1 % 4, six_ghz.2))
            &&& params.2 as int / 2 % 2 == 0 ==> he_6ghz_op(e) is None
            &&& ht_op(e) is None && vht_op(e) is None && eht_op(e) is None
        }),
{
    let e = he_element(params, rates, vht, cohosted, six_ghz, rest);
    let p = (e->0).1;
    let f = p.skip(1);
    let (b0, b1, b2, b3) = params;
    let (v0, s1) = (vht.0, six_ghz.1);
    assert(v0 & 3 == v0 % 4) by (bit_vector);
    assert(s1 & 3 == s1 % 4) by (bit_vector);
    lemma_he_params(b0, b1, b2, b3);
    assert(f[0] == b0 && f[1] == b1 && f[2] == b2 && f[3] == b3);
    assert(extension_fields(e, 36) == Some(f));
    let head = seq![36u8, b0, b1, b2, b3, rates.0, rates.1];
    let a = optional_bytes(b1 as int / 64 % 2 == 1, seq![vht.0, vht.1, vht.2]);
    let c = optional_bytes(b1 as int / 128 == 1, seq![cohosted]);
    let six = seq![six_ghz.0, six_ghz.1, six_ghz.2, six_ghz.3, six_ghz.4];
    let d = optional_bytes(b2 as int / 2 % 2 == 1, six);
    assert(p == head + a + c + d + rest);
    if b1 as int / 64 % 2 == 1 {
        assert(a.len() == 3);
        assert(f[6] == a[0] && f[7] == a[1] && f[8] == a[2]);
    }
    assert(he_6ghz_offset(f) == 6 + a.len() + c.len());
    if b2 as int / 2 % 2 == 1 {
        let at = he_6ghz_offset(f);
        assert(d.len() == 5);
        assert(f[at + 1] == d[1] && f[at + 2] == d[2]);
    }
}

/// 6 GHz information that is cut short is not read, whichever other parts stand
/// before it.
pub proof fn law_he_element_cut_short(
    params: (u8, u8, u8, u8),
    rates: (u8, u8),
    vht: (u8, u8, u8),
    cohosted: u8,
    part: Seq<u8>,
)
    requires
        params.2 as int / 2 % 2 == 1,
        part.len() < 5,
    ensures
        he_6ghz_op(
            Some(
                (
                    255u8,
                    seq![36u8, params.0, params.1, params.2, params.3, rates.0, rates.1]
                        + optional_bytes(
                        params.1 as int / 64 % 2 == 1,
                        seq![vht.0, vht.1, vht.2],
                    ) + optional_bytes(params.1 as int / 128 == 1, seq![cohosted]) + part,
                ),
            ),
        ) is None,
{
    let (b0, b1, b2, b3) = params;
    let head = seq![36u8, b0, b1, b2, b3, rates.0, rates.1];
    let a = optional_bytes(b1 as int / 64 % 2 == 1, seq![vht.0, vht.1, vht.2]);
    let c = optional_bytes(b1 as int / 128 == 1, seq![cohosted]);
    let p = head + a + c + part;
    let f = p.skip(1);
    lemma_he_params(b0, b1, b2, b3);
    assert(f[0] == b0 && f[1] == b1 && f[2] == b2 && f[3] == b3);
    assert(he_6ghz_offset(f) == 6 + a.len() + c.len());
}

/// The bits of the HE parameters, by the bytes they stand in.
proof fn lemma_he_params(b0: u8, b1: u8, b2: u8, b3: u8)
    ensures
        ({
            let params = (b0 as u32) | ((b1 as u32) << 8) | ((b2 as u32) << 16) | ((b3 as u32)
                << 24);
            &&& (params & 0x4000 != 0) == (b1 as int / 64 % 2 == 1)
            &&& (params & 0x8000 != 0) == (b1 as int / 128 == 1)
            &&& (params & 0x20000 != 0) == (b2 as int / 2 % 2 == 1)
        }),
{
    let params = (b0 as u32) | ((b1 as u32) << 8) | ((b2 as u32) << 16) | ((b3 as u32) << 24);
    assert((params & 0x4000 != 0) == (b1 / 64 % 2 == 1)) by (bit_vector)
        requires
            params == (b0 as u32) | ((b1 as u32) << 8) | ((b2 as u32) << 16) | ((b3 as u32) << 24),
    ;
    assert((params & 0x8000 != 0) == (b1 / 128 == 1)) by (bit_vector)
        requires
            params == (b0 as u32) | ((b1 as u32) << 8) | ((b2 as u32) << 16) | ((b3 as u32) << 24),
    ;
    assert((params & 0x20000 != 0) == (b2 / 2 % 2 == 1)) by (bit_vector)
        requires
            params == (b0 as u32) | ((b1 as u32) << 8) | ((b2 as u32) << 16) | ((b3 as u32) << 24),
    ;
}

/// An EHT operation element: its id, a byte of parameters whose lowest bit
/// announces the operation information, four bytes of rates, and the
/// information: a byte whose three lowest bits are the control, and the two
/// center segments. It says nothing else.
pub proof fn law_eht_element(
    params: u8,
    rates: (u8, u8, u8, u8),
    control: u8,
    c0: u8,
    c1: u8,
    rest: Seq<u8>,
)
    ensures
        ({
            let e = Some(
                (
                    255u8,
                    seq![106u8, params, rates.0, rates.1, rates.2, rates.3, control, c0, c1]
                        + rest,
                ),
            );
            &&& params % 2 == 1 ==> eht_op(e) == Some((control % 8, c0))
            &&& params % 2 == 0 ==> eht_op(e) is None
            &&& ht_op(e) is None && vht_op(e) is None
            &&& he_vht_op(e) is None && he_6ghz_op(e) is None
        }),
{
    assert(control & 7 == control % 8) by (bit_vector);
    assert((params & 1 != 0) == (params % 2 == 1)) by (bit_vector);
    let p = seq![106u8, params, rates.0, rates.1, rates.2, rates.3, control, c0, c1] + rest;
    let f = p.skip(1);
    assert(f[0] == params && f[5] == control && f[6] == c0);
}

/// An element that is too short for an operation says nothing, nor does any
/// with another id.
pub proof fn law_short_elements(id: u8, p: Seq<u8>)
    ensures
        ({
            let e = Some((id, p));
            &&& id != 61 || p.len() < 2 ==> ht_op(e) is None
            &&& id != 192 || p.len() < 3 ==> vht_op(e) is None
            &&& id != 255 || p.len() < 10 || p[0] != 36 ==> he_vht_op(e) is None
            &&& id != 255 || p.len() < 12 || p[0] != 36 ==> he_6ghz_op(e) is None
            &&& id != 255 || p.len() < 9 || p[0] != 106 ==> eht_op(e) is None
        }),
        ht_op(None) is None && vht_op(None) is None && he_vht_op(None) is None,
        he_6ghz_op(None) is None && eht_op(None) is None,
{
}

/// A later element of a kind replaces what an earlier one said, and one of
/// another kind leaves it.
pub proof fn law_later_element_replaces(elements: Seq<ElementBytes>, e: ElementBytes)
    ensures
        ({
            let before = operation_of(elements);
            let after = operation_of(elements.push(e));
            &&& after.ht == (if ht_op(e) is Some { ht_op(e) } else { before.ht })
            &&& after.vht == (if vht_op(e) is Some { vht_op(e) } else { before.vht })
            &&& after.he_vht == (if he_vht_op(e) is Some { he_vht_op(e) } else { before.he_vht })
            &&& after.he_6ghz == (if he_6ghz_op(e) is Some { he_6ghz_op(e) } else {
                before.he_6ghz
            })
            &&& after.eht == (if eht_op(e) is Some { eht_op(e) } else { before.eht })
        }),
        ({
            let none = operation_of(Seq::empty());
            &&& none.ht is None && none.vht is None && none.he_vht is None
            &&& none.he_6ghz is None && none.eht is None
        }),
{
    assert(elements.push(e).drop_last() =~= elements);
}

/// The operation elements are among those kept as they are.
pub proof fn law_operation_elements_are_kept(id: u8, p: Seq<u8>)
    requires
        id == 61 || id == 192 || (id == 255 && p.len() > 0 && (p[0] == 36 || p[0] == 106)),
    ensures
        kept((id, p)) == Some((id, p)),
        !is_checked((id, p)),
{
}

/// The stream of a list of elements: of each its id, the length of its payload
/// and the payload.
pub open spec fn stream_of(list: Seq<(u8, Seq<u8>)>) -> Seq<u8>
    decreases list.len(),
{
    if list.len() == 0 {
        Seq::empty()
    } else {
        seq![list[0].0, list[0].1.len() as u8] + list[0].1 + stream_of(list.skip(1))
    }
}

/// A stream is split into the elements it was made of; what follows them and
/// is too short for one more is left out.
pub proof fn law_stream_round_trip(list: Seq<(u8, Seq<u8>)>, tail: Seq<u8>)
    requires
        forall|i: int| 0 <= i < list.len() ==> (#[trigger] list[i]).1.len() <= 255,
        tail.len() < 2 || tail.len() < 2 + tail[1],
    ensures
        split_elements(stream_of(list)) == list,
        split_elements(stream_of(list) + tail) == list,
    decreases list.len(),
{
    lemma_split_stream(list, tail);
    lemma_split_stream(list, Seq::empty());
    assert(stream_of(list) + Seq::<u8>::empty() =~= stream_of(list));
}

proof fn lemma_split_stream(list: Seq<(u8, Seq<u8>)>, tail: Seq<u8>)
    requires
        forall|i: int| 0 <= i < list.len() ==> (#[trigger] list[i]).1.len() <= 255,
        tail.len() < 2 || tail.len() < 2 + tail[1],
    ensures
        split_elements(stream_of(list) + tail) == list,
    decreases list.len(),
{
    let all = stream_of(list) + tail;
    if list.len() == 0 {
        assert(all =~= tail);
        assert(split_elements(all) =~= list);
    } else {
        let rest = list.skip(1);
        assert forall|i: int| 0 <= i < rest.len() implies (#[trigger] rest[i]).1.len() <= 255 by {
            assert(rest[i] == list[i + 1]);
        }
        lemma_split_stream(rest, tail);
        let (id, p) = list[0];
        assert(all[0] == id && all[1] == p.len());
        assert(all.subrange(2, 2 + p.len() as int) =~= p);
        assert(all.subrange(2 + p.len() as int, all.len() as int) =~= stream_of(rest) + tail);
        assert(split_elements(all) =~= list);
    }
}

/// The width that a stream of raw elements gives is that of its elements.
pub proof fn law_stream_width(list: Seq<(u8, Seq<u8>)>, primary: Option<u32>)
    requires
        forall|i: int|
            0 <= i < list.len() ==> (#[trigger] list[i]).1.len() <= 255 && kept(list[i]) == Some(
                list[i],
            ),
    ensures
        ies_width(stream_of(list), primary) == elements_width(
            list.map_values(|e: (u8, Seq<u8>)| Some(e)),
            primary,
        ),
{
    law_stream_round_trip(list, Seq::empty());
    let ies = stream_of(list);
    assert(split_elements(ies) == list);
    assert(kept_elements(ies) =~= list.map_values(|e: (u8, Seq<u8>)| Some(e)));
    assert forall|i: int|
        0 <= i < split_elements(ies).len() && is_checked(
            #[trigger] split_elements(ies)[i],
        ) implies payload_accepted(split_elements(ies)[i].0, split_elements(ies)[i].1) by {
        assert(kept(list[i]) is Some);
    }
}

/// One element whose payload is not well-formed spoils the whole stream: it
/// gives no width.
pub proof fn law_bad_element_spoils_the_stream(
    list: Seq<(u8, Seq<u8>)>,
    i: int,
    primary: Option<u32>,
)
    requires
        forall|i: int| 0 <= i < list.len() ==> (#[trigger] list[i]).1.len() <= 255,
        0 <= i < list.len(),
        is_checked(list[i]),
        !payload_accepted(list[i].0, list[i].1),
    ensures
        ies_width(stream_of(list), primary) is None,
{
    law_stream_round_trip(list, Seq::empty());
    assert(is_checked(split_elements(stream_of(list))[i]));
}

// ── MAC addresses ──────────────────────────────────────────────────────────

/// The first `n` bytes in lowercase hexadecimal, colon separated.
pub open spec fn mac_text(mac: Seq<u8>, n: nat) -> Seq<char>
    decreases n,
{
    if n == 0 {
        Seq::empty()
    } else if n == 1 {
        text::hex(mac[0] as nat, 2)
    } else {
        mac_text(mac, (n - 1) as nat) + ":"@ + text::hex(mac[n - 1] as nat, 2)
    }
}

/// Format a MAC address as lowercase colon-separated string.
pub fn bssid_to_str(mac: &[u8; 6]) -> (s: String)
    ensures
        s@ == mac_text(mac@, 6),
{
    let mut s = String::new();
    for i in 0..6usize
        invariant
            s@ == mac_text(mac@, i as nat),
    {
        if i > 0 {
            s.append(":");
        }
        text::push_hex(&mut s, mac[i] as u64, 2);
        assert(s@ =~= mac_text(mac@, (i + 1) as nat));
    }
    s
}

/// A formatted address is 17 characters long and tells the bytes apart.
pub proof fn law_mac_text_injective(a: Seq<u8>, b: Seq<u8>)
    requires
        a.len() == 6,
        b.len() == 6,
        mac_text(a, 6) == mac_text(b, 6),
    ensures
        mac_text(a, 6).len() == 17,
        a == b,
{
    reveal_strlit(":");
    reveal_with_fuel(mac_text, 7);
    reveal_with_fuel(text::hex, 3);
    assert forall|i: int| 0 <= i < 6 implies a[i] == b[i] by {
        let x = mac_text(a, 6);
        let y = mac_text(b, 6);
        assert(x[3 * i] == text::digit(a[i] as nat / 16));
        assert(y[3 * i] == text::digit(b[i] as nat / 16));
        assert(x[3 * i + 1] == text::digit(a[i] as nat % 16));
        assert(y[3 * i + 1] == text::digit(b[i] as nat % 16));
    }
    assert(a =~= b);
}

/// Each byte stands as two lowercase hexadecimal digits, the higher one first,
/// with a colon behind it unless it is the last.
pub proof fn law_mac_text_digits(mac: Seq<u8>, i: int)
    requires
        mac.len() == 6,
        0 <= i < 6,
    ensures
        mac_text(mac, 6).len() == 17,
        i < 5 ==> mac_text(mac, 6)[3 * i + 2] == ':',
        ({
            let high = mac_text(mac, 6)[3 * i];
            let low = mac_text(mac, 6)[3 * i + 1];
            let h = mac[i] as int / 16;
            let l = mac[i] as int % 16;
            &&& h < 10 ==> high as int - '0' as int == h
            &&& h >= 10 ==> high as int - 'a' as int == h - 10
            &&& l < 10 ==> low as int - '0' as int == l
            &&& l >= 10 ==> low as int - 'a' as int == l - 10
        }),
{
    reveal_strlit(":");
    reveal_with_fuel(mac_text, 7);
    reveal_with_fuel(text::hex, 3);
    assert(mac_text(mac, 6)[3 * i] == text::digit(mac[i] as nat / 16));
    assert(mac_text(mac, 6)[3 * i + 1] == text::digit(mac[i] as nat % 16));
}

// ── Scan results ───────────────────────────────────────────────────────────

/// Channel info for scanned BSSes, keyed by BSSID (lowercase, colon separated).
pub type ScanChannels = TextMap<ChannelInfo>;

/// One attribute of a scanned BSS.
#[derive(Debug, Clone)]
pub enum BssAttr {
    Bssid([u8; 6]),
    /// Primary frequency in MHz.
    Frequency(u32),
    /// Raw information elements of the last beacon.
    BeaconElements(Vec<u8>),
    /// Raw information elements of the last frame.
    Elements(Vec<u8>),
    Other,
}

pub open spec fn bss_mac(attrs: Seq<BssAttr>) -> Option<[u8; 6]> {
    find::last_found(
        attrs,
        |a: BssAttr|
            match a {
                BssAttr::Bssid(m) => Some(m),
                _ => None,
            },
    )
}

pub open spec fn bss_freq(attrs: Seq<BssAttr>) -> Option<u32> {
    find::last_found(
        attrs,
        |a: BssAttr|
            match a {
                BssAttr::Frequency(f) => Some(f),
                _ => None,
            },
    )
}

/// The element streams in the order in which they are tried: beacons first
/// (they are the most stable), then the other frames.
pub open spec fn ie_lists(attrs: Seq<BssAttr>) -> Seq<Seq<u8>>
    decreases attrs.len(),
{
    if attrs.len() == 0 {
        Seq::empty()
    } else {
        let before = ie_lists(attrs.drop_last());
        match attrs.last() {
            BssAttr::BeaconElements(v) => seq![v@] + before,
            BssAttr::Elements(v) => before.push(v@),
            _ => before,
        }
    }
}

/// What the first stream that gives a width gives.
pub open spec fn first_width(lists: Seq<Seq<u8>>, primary: Option<u32>) -> Option<WidthCenter>
    decreases lists.len(),
{
    if lists.len() == 0 {
        None
    } else {
        match ies_width(lists.first(), primary) {
            Some(w) => Some(w),
            None => first_width(lists.drop_first(), primary),
        }
    }
}

/// The channel of a BSS from its frequency and decoded width. With element
/// streams but no width it is a 20 MHz BSS; without any stream the width is
/// unknown. The center of a 20 MHz channel is its primary frequency.
pub open spec fn channel_of(
    freq: Option<u32>,
    has_elements: bool,
    decoded: Option<WidthCenter>,
) -> ChannelInfo {
    let (width, c1, c2) = match decoded {
        Some((w, c1, c2)) => (Some(w), c1, c2),
        None => (if has_elements {
            Some(20u32)
        } else {
            None
        }, None, None),
    };
    ChannelInfo {
        primary_freq_mhz: freq,
        width_mhz: width,
        center_freq_mhz: if width == Some(20u32) {
            newer(c1, freq)
        } else {
            c1
        },
        center_freq2_mhz: c2,
    }
}

/// The channel of a BSS from its frequency and what its element streams gave.
pub fn bss_channel(freq: Option<u32>, has_elements: bool, decoded: Option<WidthCenter>) -> (r:
    ChannelInfo)
    ensures
        r == channel_of(freq, has_elements, decoded),
{
    let mut ch = ChannelInfo {
        primary_freq_mhz: freq,
        width_mhz: None,
        center_freq_mhz: None,
        center_freq2_mhz: None,
    };
    match decoded {
        Some((width, c1, c2)) => {
            ch.width_mhz = Some(width);
            ch.center_freq_mhz = c1;
            ch.center_freq2_mhz = c2;
        },
        None => {
            if has_elements {
                ch.width_mhz = Some(20);
            }
        },
    }
    if let Some(width) = ch.width_mhz {
        if width == 20 && ch.center_freq_mhz.is_none() {
            ch.center_freq_mhz = freq;
        }
    }
    ch
}

/// The channel info that the attributes of one BSS give.
pub open spec fn bss_channel_spec(attrs: Seq<BssAttr>) -> ChannelInfo {
    channel_of(
        bss_freq(attrs),
        ie_lists(attrs).len() > 0,
        first_width(ie_lists(attrs), bss_freq(attrs)),
    )
}

/// The centers that the streams give are numbers, up to the first stream that
/// gives a width.
pub open spec fn lists_fit(lists: Seq<Seq<u8>>, primary: Option<u32>) -> bool
    decreases lists.len(),
{
    lists.len() == 0 || (ies_fit(lists.first(), primary) && (ies_width(lists.first(), primary)
        is Some || lists_fit(lists.drop_first(), primary)))
}

/// The center that the attributes of one BSS give is a number.
pub open spec fn bss_fits(attrs: Seq<BssAttr>) -> bool {
    bss_mac(attrs) is Some ==> lists_fit(ie_lists(attrs), bss_freq(attrs))
}

/// With a frequency that leaves room for a 40 MHz center, or without one, every
/// BSS fits.
pub proof fn law_headroom_is_enough(attrs: Seq<BssAttr>)
    requires
        has_headroom(bss_freq(attrs)),
    ensures
        bss_fits(attrs),
{
    lemma_lists_fit(ie_lists(attrs), bss_freq(attrs));
}

proof fn lemma_lists_fit(lists: Seq<Seq<u8>>, primary: Option<u32>)
    requires
        has_headroom(primary),
    ensures
        lists_fit(lists, primary),
    decreases lists.len(),
{
    if lists.len() > 0 {
        lemma_lists_fit(lists.drop_first(), primary);
    }
}

fn collect_lists(attrs: &Vec<BssAttr>) -> (lists: Vec<&Vec<u8>>)
    ensures
        lists@.map_values(|v: &Vec<u8>| v@) == ie_lists(attrs@),
{
    let mut lists: Vec<&Vec<u8>> = Vec::new();
    let n: usize = attrs.len();
    assert(lists@.map_values(|v: &Vec<u8>| v@) =~= ie_lists(attrs@.take(0)));
    for i in 0..n
        invariant
            n == attrs@.len(),
            lists@.map_values(|v: &Vec<u8>| v@) == ie_lists(attrs@.take(i as int)),
    {
        let ghost before = lists@;
        match &attrs[i] {
            BssAttr::BeaconElements(v) => lists.insert(0, v),
            BssAttr::Elements(v) => lists.push(v),
            _ => {},
        }
        proof {
            assert(attrs@.take(i + 1).drop_last() =~= attrs@.take(i as int));
            let view = |v: &Vec<u8>| v@;
            assert(lists@.map_values(view) =~= ie_lists(attrs@.take(i + 1)));
        }
    }
    assert(attrs@.take(n as int) =~= attrs@);
    lists
}

fn find_width(lists: &Vec<&Vec<u8>>, freq: Option<u32>) -> (r: Option<WidthCenter>)
    requires
        lists_fit(lists@.map_values(|v: &Vec<u8>| v@), freq),
    ensures
        r == first_width(lists@.map_values(|v: &Vec<u8>| v@), freq),
{
    let ghost all = lists@.map_values(|v: &Vec<u8>| v@);
    let n: usize = lists.len();
    assert(all.skip(0) =~= all);
    for i in 0..n
        invariant
            n == lists@.len(),
            all == lists@.map_values(|v: &Vec<u8>| v@),
            lists_fit(all.skip(i as int), freq),
            first_width(all, freq) == first_width(all.skip(i as int), freq),
    {
        let ghost rest = all.skip(i as int);
        assert(rest.first() == lists@[i as int]@);
        assert(rest.drop_first() =~= all.skip(i + 1));
        let w = ie_width_center(lists[i].as_slice(), freq);
        if w.is_some() {
            return w;
        }
    }
    None
}

fn lists_have_room(lists: &Vec<&Vec<u8>>, freq: Option<u32>) -> (r: bool)
    ensures
        r == lists_fit(lists@.map_values(|v: &Vec<u8>| v@), freq),
{
    let ghost all = lists@.map_values(|v: &Vec<u8>| v@);
    let n: usize = lists.len();
    assert(all.skip(0) =~= all);
    for i in 0..n
        invariant
            n == lists@.len(),
            all == lists@.map_values(|v: &Vec<u8>| v@),
            lists_fit(all, freq) == lists_fit(all.skip(i as int), freq),
    {
        let ghost rest = all.skip(i as int);
        assert(rest.first() == lists@[i as int]@);
        assert(rest.drop_first() =~= all.skip(i + 1));
        if !ie_center_fits(lists[i].as_slice(), freq) {
            return false;
        }
        if ie_width_center(lists[i].as_slice(), freq).is_some() {
            return true;
        }
    }
    true
}

fn mac_and_freq(attrs: &Vec<BssAttr>) -> (r: (Option<[u8; 6]>, Option<u32>))
    ensures
        r.0 == bss_mac(attrs@),
        r.1 == bss_freq(attrs@),
{
    let mut mac: Option<[u8; 6]> = None;
    let mut freq: Option<u32> = None;
    let n: usize = attrs.len();
    for i in 0..n
        invariant
            n == attrs@.len(),
            mac == bss_mac(attrs@.take(i as int)),
            freq == bss_freq(attrs@.take(i as int)),
    {
        assert(attrs@.take(i + 1).drop_last() =~= attrs@.take(i as int));
        match &attrs[i] {
            BssAttr::Bssid(m) => {
                mac = Some(*m);
            },
            BssAttr::Frequency(f) => {
                freq = Some(*f);
            },
            _ => {},
        }
    }
    assert(attrs@.take(n as int) =~= attrs@);
    (mac, freq)
}

/// Whether the center that the attributes of one BSS give is a number. It is
/// for every frequency in use.
pub fn bss_center_fits(attrs: &Vec<BssAttr>) -> (r: bool)
    ensures
        r == bss_fits(attrs@),
{
    let (mac, freq) = mac_and_freq(attrs);
    let lists = collect_lists(attrs);
    mac.is_none() || lists_have_room(&lists, freq)
}

/// Decode the attributes of one BSS into its BSSID and channel info. Returns
/// `None` when the BSSID is missing.
pub fn bss_channel_info(attrs: &Vec<BssAttr>) -> (r: Option<(String, ChannelInfo)>)
    requires
        bss_fits(attrs@),
    ensures
        match bss_mac(attrs@) {
            Some(mac) => r matches Some((bssid, ch)) && bssid@ == mac_text(mac@, 6) && ch
                == bss_channel_spec(attrs@),
            None => r is None,
        },
{
    let (mac, freq) = mac_and_freq(attrs);
    let lists = collect_lists(attrs);
    match mac {
        Some(m) => {
            let decoded = find_width(&lists, freq);
            Some((bssid_to_str(&m), bss_channel(freq, lists.len() > 0, decoded)))
        },
        None => None,
    }
}

/// What a scan dump gives: each BSS with a known BSSID, a later report of the
/// same BSS replacing an earlier one.
pub open spec fn scan_map(bss: Seq<Vec<BssAttr>>) -> Map<Seq<char>, ChannelInfo>
    decreases bss.len(),
{
    if bss.len() == 0 {
        Map::empty()
    } else {
        let before = scan_map(bss.drop_last());
        match bss_mac(bss.last()@) {
            Some(mac) => before.insert(mac_text(mac@, 6), bss_channel_spec(bss.last()@)),
            None => before,
        }
    }
}

/// Channel info for all BSSes of an interface's cached scan results.
pub fn scan_channels(bss: &Vec<Vec<BssAttr>>) -> (r: ScanChannels)
    requires
        forall|i: int| 0 <= i < bss@.len() ==> bss_fits(#[trigger] bss@[i]@),
    ensures
        r@ == scan_map(bss@),
{
    let mut out: ScanChannels = TextMap::new();
    let n: usize = bss.len();
    for i in 0..n
        invariant
            n == bss@.len(),
            forall|i: int| 0 <= i < bss@.len() ==> bss_fits(#[trigger] bss@[i]@),
            out@ == scan_map(bss@.take(i as int)),
    {
        assert(bss@.take(i + 1).drop_last() =~= bss@.take(i as int));
        if let Some((bssid, ch)) = bss_channel_info(&bss[i]) {
            out.insert(bssid, ch);
        }
    }
    assert(bss@.take(n as int) =~= bss@);
    out
}

/// The last frequency and the last BSSID of a BSS count.
pub proof fn law_last_attribute_counts(attrs: Seq<BssAttr>, a: BssAttr)
    ensures
        a matches BssAttr::Frequency(f) ==> bss_freq(attrs.push(a)) == Some(f),
        a !is Frequency ==> bss_freq(attrs.push(a)) == bss_freq(attrs),
        a matches BssAttr::Bssid(mac) ==> bss_mac(attrs.push(a)) == Some(mac),
        a !is Bssid ==> bss_mac(attrs.push(a)) == bss_mac(attrs),
        bss_freq(Seq::empty()) is None,
        bss_mac(Seq::empty()) is None,
{
    assert(attrs.push(a).drop_last() =~= attrs);
}

/// The element stream that an attribute carries.
pub open spec fn stream_in(a: BssAttr) -> Option<Seq<u8>> {
    match a {
        BssAttr::BeaconElements(v) => Some(v@),
        BssAttr::Elements(v) => Some(v@),
        _ => None,
    }
}

/// The channel of a BSS is the one that a stream gave.
pub open spec fn is_given_by(ch: ChannelInfo, freq: Option<u32>, given: WidthCenter) -> bool {
    &&& ch.primary_freq_mhz == freq
    &&& ch.width_mhz == Some(given.0)
    &&& ch.center_freq_mhz == (if given.0 == 20 && given.1 is None {
        freq
    } else {
        given.1
    })
    &&& ch.center_freq2_mhz == given.2
}

proof fn lemma_first_width_push(lists: Seq<Seq<u8>>, ies: Seq<u8>, primary: Option<u32>)
    ensures
        first_width(lists.push(ies), primary) == (match first_width(lists, primary) {
            Some(w) => Some(w),
            None => ies_width(ies, primary),
        }),
    decreases lists.len(),
{
    if lists.len() == 0 {
        assert(lists.push(ies).drop_first() =~= Seq::empty());
        assert(first_width(lists.push(ies).drop_first(), primary) is None);
    } else {
        lemma_first_width_push(lists.drop_first(), ies, primary);
        assert(lists.push(ies).drop_first() =~= lists.drop_first().push(ies));
    }
}

/// The newest beacon whose elements give a width decides, wherever it stands
/// among the attributes: that is the channel of the BSS, whatever the other
/// frames and the older beacons say.
pub proof fn law_beacon_decides(attrs: Seq<BssAttr>, i: int, beacon: Vec<u8>, given: WidthCenter)
    requires
        0 <= i < attrs.len(),
        attrs[i] == BssAttr::BeaconElements(beacon),
        forall|j: int|
            i < j < attrs.len() ==> ((#[trigger] attrs[j]) matches BssAttr::BeaconElements(v)
                ==> ies_width(v@, bss_freq(attrs)) is None),
        ies_width(beacon@, bss_freq(attrs)) == Some(given),
    ensures
        is_given_by(bss_channel_spec(attrs), bss_freq(attrs), given),
{
    lemma_beacon_first(attrs, i, beacon, bss_freq(attrs));
}

proof fn lemma_beacon_first(attrs: Seq<BssAttr>, i: int, beacon: Vec<u8>, primary: Option<u32>)
    requires
        0 <= i < attrs.len(),
        attrs[i] == BssAttr::BeaconElements(beacon),
        forall|j: int|
            i < j < attrs.len() ==> ((#[trigger] attrs[j]) matches BssAttr::BeaconElements(v)
                ==> ies_width(v@, primary) is None),
        ies_width(beacon@, primary) is Some,
    ensures
        first_width(ie_lists(attrs), primary) == ies_width(beacon@, primary),
    decreases attrs.len(),
{
    let rest = attrs.drop_last();
    if i < rest.len() {
        assert forall|j: int| i < j < rest.len() implies ((
        #[trigger] rest[j]) matches BssAttr::BeaconElements(v) ==> ies_width(v@, primary)
            is None) by {
            assert(attrs[j] == rest[j]);
        }
        lemma_beacon_first(rest, i, beacon, primary);
        assert(attrs.last() == attrs[attrs.len() - 1]);
        match attrs.last() {
            BssAttr::Elements(v) => {
                lemma_first_width_push(ie_lists(rest), v@, primary);
            },
            BssAttr::BeaconElements(v) => {
                assert((seq![v@] + ie_lists(rest)).drop_first() =~= ie_lists(rest));
            },
            _ => {},
        }
    } else {
        assert(ie_lists(attrs).first() == beacon@);
    }
}

/// Where no beacon gives a width, the first frame whose elements give one
/// decides.
pub proof fn law_first_frame_decides(attrs: Seq<BssAttr>, i: int, frame: Vec<u8>, given: WidthCenter)
    requires
        0 <= i < attrs.len(),
        attrs[i] == BssAttr::Elements(frame),
        forall|j: int|
            0 <= j < attrs.len() ==> ((#[trigger] attrs[j]) matches BssAttr::BeaconElements(v)
                ==> ies_width(v@, bss_freq(attrs)) is None),
        forall|j: int|
            0 <= j < i ==> (stream_in(#[trigger] attrs[j]) matches Some(v) ==> ies_width(
                v,
                bss_freq(attrs),
            ) is None),
        ies_width(frame@, bss_freq(attrs)) == Some(given),
    ensures
        is_given_by(bss_channel_spec(attrs), bss_freq(attrs), given),
{
    lemma_frame_first(attrs, i, frame, bss_freq(attrs));
}

proof fn lemma_frame_first(attrs: Seq<BssAttr>, i: int, frame: Vec<u8>, primary: Option<u32>)
    requires
        0 <= i < attrs.len(),
        attrs[i] == BssAttr::Elements(frame),
        forall|j: int|
            0 <= j < attrs.len() ==> ((#[trigger] attrs[j]) matches BssAttr::BeaconElements(v)
                ==> ies_width(v@, primary) is None),
        forall|j: int|
            0 <= j < i ==> (stream_in(#[trigger] attrs[j]) matches Some(v) ==> ies_width(
                v,
                primary,
            ) is None),
        ies_width(frame@, primary) is Some,
    ensures
        first_width(ie_lists(attrs), primary) == ies_width(frame@, primary),
    decreases attrs.len(),
{
    let rest = attrs.drop_last();
    assert forall|j: int| 0 <= j < rest.len() implies ((
    #[trigger] rest[j]) matches BssAttr::BeaconElements(v) ==> ies_width(v@, primary) is None) by {
        assert(attrs[j] == rest[j]);
    }
    assert(attrs.last() == attrs[attrs.len() - 1]);
    if i < rest.len() {
        assert forall|j: int| 0 <= j < i implies (stream_in(#[trigger] rest[j]) matches Some(v)
            ==> ies_width(v, primary) is None) by {
            assert(attrs[j] == rest[j]);
        }
        lemma_frame_first(rest, i, frame, primary);
        match attrs.last() {
            BssAttr::Elements(v) => {
                lemma_first_width_push(ie_lists(rest), v@, primary);
            },
            BssAttr::BeaconElements(v) => {
                assert((seq![v@] + ie_lists(rest)).drop_first() =~= ie_lists(rest));
            },
            _ => {},
        }
    } else {
        assert forall|j: int| 0 <= j < rest.len() implies (stream_in(
            #[trigger] rest[j],
        ) matches Some(v) ==> ies_width(v, primary) is None) by {
            assert(attrs[j] == rest[j]);
        }
        lemma_no_width(rest, primary);
        lemma_first_width_push(ie_lists(rest), frame@, primary);
    }
}

proof fn lemma_no_width(attrs: Seq<BssAttr>, primary: Option<u32>)
    requires
        forall|j: int|
            0 <= j < attrs.len() ==> (stream_in(#[trigger] attrs[j]) matches Some(v) ==> ies_width(
                v,
                primary,
            ) is None),
    ensures
        first_width(ie_lists(attrs), primary) is None,
        ie_lists(attrs).len() > 0 <==> exists|j: int|
            0 <= j < attrs.len() && stream_in(#[trigger] attrs[j]) is Some,
    decreases attrs.len(),
{
    if attrs.len() > 0 {
        let rest = attrs.drop_last();
        assert forall|j: int| 0 <= j < rest.len() implies (stream_in(
            #[trigger] rest[j],
        ) matches Some(v) ==> ies_width(v, primary) is None) by {
            assert(attrs[j] == rest[j]);
        }
        lemma_no_width(rest, primary);
        let last = attrs[attrs.len() - 1];
        assert(attrs.last() == last);
        assert(stream_in(last) matches Some(v) ==> ies_width(v, primary) is None);
        let before = ie_lists(rest);
        match last {
            BssAttr::BeaconElements(v) => {
                assert((seq![v@] + before).drop_first() =~= before);
                assert(stream_in(attrs[attrs.len() - 1]) is Some);
            },
            BssAttr::Elements(v) => {
                lemma_first_width_push(before, v@, primary);
                assert(stream_in(attrs[attrs.len() - 1]) is Some);
            },
            _ => {
                if exists|j: int| 0 <= j < rest.len() && stream_in(#[trigger] rest[j]) is Some {
                    let j = choose|j: int|
                        0 <= j < rest.len() && stream_in(#[trigger] rest[j]) is Some;
                    assert(stream_in(attrs[j]) is Some);
                }
                if exists|j: int| 0 <= j < attrs.len() && stream_in(#[trigger] attrs[j]) is Some {
                    let j = choose|j: int|
                        0 <= j < attrs.len() && stream_in(#[trigger] attrs[j]) is Some;
                    assert(stream_in(rest[j]) is Some);
                }
            },
        }
    }
}

/// A BSS none of whose streams gives a width is a 20 MHz one on its primary
/// frequency; without any stream its width and center are not known.
pub proof fn law_plain_bss(attrs: Seq<BssAttr>)
    requires
        forall|j: int|
            0 <= j < attrs.len() ==> (stream_in(#[trigger] attrs[j]) matches Some(v) ==> ies_width(
                v,
                bss_freq(attrs),
            ) is None),
    ensures
        ({
            let ch = bss_channel_spec(attrs);
            let heard = exists|j: int|
                0 <= j < attrs.len() && stream_in(#[trigger] attrs[j]) is Some;
            &&& ch.primary_freq_mhz == bss_freq(attrs)
            &&& ch.center_freq2_mhz is None
            &&& heard ==> ch.width_mhz == Some(20u32) && ch.center_freq_mhz == bss_freq(attrs)
            &&& !heard ==> ch.width_mhz is None && ch.center_freq_mhz is None
        }),
{
    lemma_no_width(attrs, bss_freq(attrs));
}

/// A scan dump tells of each BSS by the address it was last reported with: a
/// report adds or replaces the channel of its own BSS and leaves all others; a
/// report without an address is passed over.
pub proof fn law_reports_of_a_scan(bss: Seq<Vec<BssAttr>>, report: Vec<BssAttr>, bssid: Seq<char>)
    ensures
        scan_map(Seq::empty()) == Map::<Seq<char>, ChannelInfo>::empty(),
        ({
            let before = scan_map(bss);
            let after = scan_map(bss.push(report));
            match bss_mac(report@) {
                Some(mac) => {
                    &&& after.contains_key(mac_text(mac@, 6))
                    &&& after[mac_text(mac@, 6)] == bss_channel_spec(report@)
                    &&& bssid != mac_text(mac@, 6) ==> {
                        &&& after.contains_key(bssid) == before.contains_key(bssid)
                        &&& before.contains_key(bssid) ==> after[bssid] == before[bssid]
                    }
                },
                None => after == before,
            }
        }),
{
    assert(bss.push(report).drop_last() =~= bss);
}

// ── Interface channel ──────────────────────────────────────────────────────

/// The kernel's channel-width attribute.
#[derive(Debug, Clone, Copy, PartialEq, Eq, Structural)]
pub enum ChannelWidth {
    NoHt20,
    Mhz80Plus80,
    Mhz(u32),
    Other(u32),
}

/// One attribute of a wireless interface.
#[derive(Debug, Clone)]
pub enum InterfaceAttr {
    IfName(String),
    IfIndex(u32),
    /// Primary frequency in MHz.
    WiphyFreq(u32),
    ChannelWidth(ChannelWidth),
    CenterFreq1(u32),
    CenterFreq2(u32),
    Other,
}

/// Channel info of a wireless interface, plus its interface index.
#[derive(Debug, Clone, Copy, PartialEq, Eq, Structural)]
pub struct InterfaceChannel {
    pub ifindex: u32,
    pub channel: ChannelInfo,
}

pub open spec fn width_mhz(w: ChannelWidth) -> Option<u32> {
    match w {
        ChannelWidth::NoHt20 => Some(20),
        ChannelWidth::Mhz80Plus80 => Some(160),
        ChannelWidth::Mhz(m) => Some(m),
        ChannelWidth::Other(_) => None,
    }
}

/// Map the kernel's channel-width enum to MHz.
pub fn width_to_mhz(w: &ChannelWidth) -> (r: Option<u32>)
    ensures
        r == width_mhz(*w),
{
    match w {
        ChannelWidth::Mhz(m) => Some(*m),
        ChannelWidth::Mhz80Plus80 => Some(160),
        ChannelWidth::NoHt20 => Some(20),
        ChannelWidth::Other(_) => None,
    }
}

pub open spec fn is_named(attrs: Seq<InterfaceAttr>, name: Seq<char>) -> bool {
    exists|i: int|
        0 <= i < attrs.len() && ((#[trigger] attrs[i]) matches InterfaceAttr::IfName(n) && n@
            == name)
}

/// The first interface index among the attributes.
pub open spec fn first_index(attrs: Seq<InterfaceAttr>) -> Option<u32>
    decreases attrs.len(),
{
    if attrs.len() == 0 {
        None
    } else {
        match attrs.first() {
            InterfaceAttr::IfIndex(i) => Some(i),
            _ => first_index(attrs.drop_first()),
        }
    }
}

/// The channel attributes as they are announced, the last of each kind.
pub open spec fn announced_channel(attrs: Seq<InterfaceAttr>) -> ChannelInfo {
    ChannelInfo {
        primary_freq_mhz: find::last_found(
            attrs,
            |a: InterfaceAttr|
                match a {
                    InterfaceAttr::WiphyFreq(f) => Some(f),
                    _ => None,
                },
        ),
        width_mhz: match find::last_found(
            attrs,
            |a: InterfaceAttr|
                match a {
                    InterfaceAttr::ChannelWidth(w) => Some(w),
                    _ => None,
                },
        ) {
            Some(w) => width_mhz(w),
            None => None,
        },
        center_freq_mhz: find::last_found(
            attrs,
            |a: InterfaceAttr|
                match a {
                    InterfaceAttr::CenterFreq1(c) => Some(c),
                    _ => None,
                },
        ),
        center_freq2_mhz: find::last_found(
            attrs,
            |a: InterfaceAttr|
                match a {
                    InterfaceAttr::CenterFreq2(c) => Some(c),
                    _ => None,
                },
        ),
    }
}

/// The kernel omits width and center for 20 MHz (and legacy) channels: the
/// center is then the primary.
pub open spec fn with_defaults(ch: ChannelInfo) -> ChannelInfo {
    match ch.primary_freq_mhz {
        Some(freq) => ChannelInfo {
            width_mhz: newer(ch.width_mhz, Some(20)),
            center_freq_mhz: newer(ch.center_freq_mhz, Some(freq)),
            ..ch
        },
        None => ch,
    }
}

fn has_name(attrs: &Vec<InterfaceAttr>, name: &str) -> (r: bool)
    ensures
        r == is_named(attrs@, name@),
{
    let n: usize = attrs.len();
    for i in 0..n
        invariant
            n == attrs@.len(),
            forall|j: int|
                0 <= j < i ==> !((#[trigger] attrs@[j]) matches InterfaceAttr::IfName(n) && n@
                    == name@),
    {
        if let InterfaceAttr::IfName(own) = &attrs[i] {
            if text::str_eq(own.as_str(), name) {
                assert(attrs@[i as int] matches InterfaceAttr::IfName(n) && n@ == name@);
                return true;
            }
        }
    }
    false
}

fn find_index(attrs: &Vec<InterfaceAttr>) -> (r: Option<u32>)
    ensures
        r == first_index(attrs@),
{
    let n: usize = attrs.len();
    assert(attrs@.skip(0) =~= attrs@);
    for i in 0..n
        invariant
            n == attrs@.len(),
            first_index(attrs@) == first_index(attrs@.skip(i as int)),
    {
        assert(attrs@.skip(i as int).drop_first() =~= attrs@.skip(i + 1));
        if let InterfaceAttr::IfIndex(index) = &attrs[i] {
            return Some(*index);
        }
    }
    None
}

/// The channel an interface is on, from its attributes.
pub fn attrs_channel(attrs: &Vec<InterfaceAttr>) -> (r: ChannelInfo)
    ensures
        r == with_defaults(announced_channel(attrs@)),
{
    let mut ch = ChannelInfo::default();
    let n: usize = attrs.len();
    for i in 0..n
        invariant
            n == attrs@.len(),
            ch == announced_channel(attrs@.take(i as int)),
    {
        assert(attrs@.take(i + 1).drop_last() =~= attrs@.take(i as int));
        match &attrs[i] {
            InterfaceAttr::WiphyFreq(f) => {
                ch.primary_freq_mhz = Some(*f);
            },
            InterfaceAttr::ChannelWidth(w) => {
                ch.width_mhz = width_to_mhz(w);
            },
            InterfaceAttr::CenterFreq1(c) => {
                ch.center_freq_mhz = Some(*c);
            },
            InterfaceAttr::CenterFreq2(c) => {
                ch.center_freq2_mhz = Some(*c);
            },
            _ => {},
        }
    }
    assert(attrs@.take(n as int) =~= attrs@);
    if let Some(freq) = ch.primary_freq_mhz {
        if ch.width_mhz.is_none() {
            ch.width_mhz = Some(20);
        }
        if ch.center_freq_mhz.is_none() {
            ch.center_freq_mhz = Some(freq);
        }
    }
    ch
}

/// What an interface dump says of the named interface: the first message that
/// names it counts, and it is nothing without an interface index.
pub open spec fn dump_channel(messages: Seq<Vec<InterfaceAttr>>, name: Seq<char>) -> Option<
    InterfaceChannel,
>
    decreases messages.len(),
{
    if messages.len() == 0 {
        None
    } else if is_named(messages.first()@, name) {
        match first_index(messages.first()@) {
            Some(ifindex) => Some(
                InterfaceChannel {
                    ifindex,
                    channel: with_defaults(announced_channel(messages.first()@)),
                },
            ),
            None => None,
        }
    } else {
        dump_channel(messages.drop_first(), name)
    }
}

/// Channel info for a WiFi interface by name (e.g. "wlan0"), from the messages
/// of an interface dump.
///
/// Gives the channel the interface is currently on (when associated) plus the
/// interface index. The index is available even when the card has no current
/// channel.
pub fn interface_channel(ifname: &str, messages: &Vec<Vec<InterfaceAttr>>) -> (r: Option<
    InterfaceChannel,
>)
    ensures
        r == dump_channel(messages@, ifname@),
{
    let n: usize = messages.len();
    assert(messages@.skip(0) =~= messages@);
    for i in 0..n
        invariant
            n == messages@.len(),
            dump_channel(messages@, ifname@) == dump_channel(messages@.skip(i as int), ifname@),
    {
        assert(messages@.skip(i as int).drop_first() =~= messages@.skip(i + 1));
        if has_name(&messages[i], ifname) {
            return match find_index(&messages[i]) {
                Some(ifindex) => Some(
                    InterfaceChannel { ifindex, channel: attrs_channel(&messages[i]) },
                ),
                None => None,
            };
        }
    }
    None
}

/// The kernel's widths: a plain width is itself, 80+80 MHz is twice 80 MHz, a
/// channel without HT is one of 20 MHz, and any other is not known.
pub proof fn law_channel_widths(m: u32)
    ensures
        width_mhz(ChannelWidth::Mhz(m)) == Some(m),
        width_mhz(ChannelWidth::Mhz80Plus80) matches Some(w) && w == 80 + 80,
        width_mhz(ChannelWidth::NoHt20) == Some(20u32),
        width_mhz(ChannelWidth::Other(m)) is None,
{
}

/// The last attribute of each kind counts, and each kind for one thing alone.
pub proof fn law_last_channel_attribute_counts(attrs: Seq<InterfaceAttr>, a: InterfaceAttr)
    ensures
        ({
            let before = announced_channel(attrs);
            let after = announced_channel(attrs.push(a));
            &&& a matches InterfaceAttr::WiphyFreq(f) ==> after == (ChannelInfo {
                primary_freq_mhz: Some(f),
                ..before
            })
            &&& a matches InterfaceAttr::ChannelWidth(w) ==> after == (ChannelInfo {
                width_mhz: width_mhz(w),
                ..before
            })
            &&& a matches InterfaceAttr::CenterFreq1(c) ==> after == (ChannelInfo {
                center_freq_mhz: Some(c),
                ..before
            })
            &&& a matches InterfaceAttr::CenterFreq2(c) ==> after == (ChannelInfo {
                center_freq2_mhz: Some(c),
                ..before
            })
            &&& a is IfName || a is IfIndex || a is Other ==> after == before
        }),
        ({
            let none = announced_channel(Seq::empty());
            &&& none.primary_freq_mhz is None && none.width_mhz is None
            &&& none.center_freq_mhz is None && none.center_freq2_mhz is None
        }),
{
    assert(attrs.push(a).drop_last() =~= attrs);
}

/// What an interface announces is kept; at a known frequency a missing width
/// is 20 MHz and a missing center is that frequency. Nothing is made up
/// without one.
pub proof fn law_announced_is_kept(ch: ChannelInfo)
    ensures
        ch.primary_freq_mhz is None ==> with_defaults(ch) == ch,
        ch.width_mhz is Some ==> with_defaults(ch).width_mhz == ch.width_mhz,
        ch.center_freq_mhz is Some ==> with_defaults(ch).center_freq_mhz == ch.center_freq_mhz,
        with_defaults(ch).center_freq2_mhz == ch.center_freq2_mhz,
        ch.primary_freq_mhz is Some && ch.width_mhz is None ==> with_defaults(ch).width_mhz == Some(
            20u32,
        ),
        ch.primary_freq_mhz is Some && ch.center_freq_mhz is None ==> with_defaults(
            ch,
        ).center_freq_mhz == ch.primary_freq_mhz,
{
}

/// The first index among the attributes is the interface's.
pub proof fn law_first_index(attrs: Seq<InterfaceAttr>, i: int, index: u32)
    requires
        0 <= i < attrs.len(),
        attrs[i] == InterfaceAttr::IfIndex(index),
        forall|j: int| 0 <= j < i ==> (#[trigger] attrs[j]) !is IfIndex,
    ensures
        first_index(attrs) == Some(index),
    decreases i,
{
    if i > 0 {
        let rest = attrs.drop_first();
        assert(attrs.first() == attrs[0]);
        assert(rest[i - 1] == attrs[i]);
        assert forall|j: int| 0 <= j < i - 1 implies (#[trigger] rest[j]) !is IfIndex by {
            assert(rest[j] == attrs[j + 1]);
        }
        law_first_index(rest, i - 1, index);
    }
}

/// Attributes without an index give none.
pub proof fn law_no_index(attrs: Seq<InterfaceAttr>)
    requires
        forall|j: int| 0 <= j < attrs.len() ==> (#[trigger] attrs[j]) !is IfIndex,
    ensures
        first_index(attrs) is None,
    decreases attrs.len(),
{
    if attrs.len() > 0 {
        let rest = attrs.drop_first();
        assert(attrs.first() == attrs[0]);
        assert forall|j: int| 0 <= j < rest.len() implies (#[trigger] rest[j]) !is IfIndex by {
            assert(rest[j] == attrs[j + 1]);
        }
        law_no_index(rest);
    }
}

/// The attribute carries the name of an interface.
pub open spec fn carries_name(a: InterfaceAttr, name: Seq<char>) -> bool {
    a matches InterfaceAttr::IfName(n) && n@ == name
}

/// Of a dump the first message that carries the interface's name counts: its
/// index, and its channel where it has an index.
pub proof fn law_first_named_message(
    messages: Seq<Vec<InterfaceAttr>>,
    name: Seq<char>,
    i: int,
    k: int,
)
    requires
        0 <= i < messages.len(),
        0 <= k < messages[i]@.len(),
        carries_name(messages[i]@[k], name),
        forall|j: int, l: int|
            0 <= j < i && 0 <= l < messages[j]@.len() ==> !carries_name(
                #[trigger] messages[j]@[l],
                name,
            ),
    ensures
        match first_index(messages[i]@) {
            Some(index) => dump_channel(messages, name) matches Some(found) && found.ifindex
                == index && found.channel == with_defaults(announced_channel(messages[i]@)),
            None => dump_channel(messages, name) is None,
        },
    decreases i,
{
    assert(messages.first() == messages[0]);
    if i == 0 {
        assert(is_named(messages[0]@, name));
    } else {
        let rest = messages.drop_first();
        assert(!is_named(messages[0]@, name)) by {
            if is_named(messages[0]@, name) {
                let l = choose|l: int|
                    0 <= l < messages[0]@.len() && ((
                    #[trigger] messages[0]@[l]) matches InterfaceAttr::IfName(n) && n@ == name);
                assert(carries_name(messages[0]@[l], name));
            }
        }
        assert(rest[i - 1] == messages[i]);
        assert forall|j: int, l: int| 0 <= j < i - 1 && 0 <= l < rest[j]@.len() implies !carries_name(
            #[trigger] rest[j]@[l],
            name,
        ) by {
            assert(rest[j] == messages[j + 1]);
            assert(!carries_name(messages[j + 1]@[l], name));
        }
        law_first_named_message(rest, name, i - 1, k);
    }
}

/// A dump in which no message carries the interface's name says nothing of it.
pub proof fn law_unnamed_interface(messages: Seq<Vec<InterfaceAttr>>, name: Seq<char>)
    requires
        forall|j: int, l: int|
            0 <= j < messages.len() && 0 <= l < messages[j]@.len() ==> !carries_name(
                #[trigger] messages[j]@[l],
                name,
            ),
    ensures
        dump_channel(messages, name) is None,
    decreases messages.len(),
{
    if messages.len() > 0 {
        let rest = messages.drop_first();
        assert(messages.first() == messages[0]);
        assert(!is_named(messages[0]@, name)) by {
            if is_named(messages[0]@, name) {
                let l = choose|l: int|
                    0 <= l < messages[0]@.len() && ((
                    #[trigger] messages[0]@[l]) matches InterfaceAttr::IfName(n) && n@ == name);
                assert(carries_name(messages[0]@[l], name));
            }
        }
        assert forall|j: int, l: int|
            0 <= j < rest.len() && 0 <= l < rest[j]@.len() implies !carries_name(
            #[trigger] rest[j]@[l],
            name,
        ) by {
            assert(rest[j] == messages[j + 1]);
            assert(!carries_name(messages[j + 1]@[l], name));
        }
        law_unnamed_interface(rest, name);
    }
}

/// An interface that reports a primary frequency always comes with a width
/// and a center.
pub proof fn law_connected_channel_is_complete(ch: ChannelInfo)
    requires
        ch.primary_freq_mhz is Some,
    ensures
        with_defaults(ch).width_mhz is Some,
        with_defaults(ch).center_freq_mhz is Some,
        with_defaults(ch).primary_freq_mhz == ch.primary_freq_mhz,
        with_defaults(with_defaults(ch)) == with_defaults(ch),
{
}

/// A BSS that sends elements always gets a width, and a 20 MHz BSS is centered
/// on its primary frequency unless its elements say otherwise.
pub proof fn law_bss_width(freq: Option<u32>, decoded: Option<WidthCenter>)
    ensures
        channel_of(freq, true, decoded).width_mhz is Some,
        decoded is None ==> channel_of(freq, true, decoded).width_mhz == Some(20u32)
            && channel_of(freq, true, decoded).center_freq_mhz == freq,
        channel_of(freq, false, None).width_mhz is None,
{
}

} // verus!
