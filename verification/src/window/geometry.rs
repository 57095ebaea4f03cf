//! The sizes that are remembered from one start to the next: the window and
//! the sidebar with the measurement panel.

use vstd::prelude::*;

verus! {

/// The remembered sizes in pixels; `None` where none is.
#[derive(Debug, Clone, Copy, PartialEq, Eq, Structural)]
pub struct Geometry {
    pub window_width: Option<i32>,
    pub window_height: Option<i32>,
    pub sidebar_width: Option<i32>,
}

/// A remembered size that a window can have, else the default one.
pub open spec fn size_or(remembered: Option<i32>, default_size: i32) -> i32 {
    match remembered {
        Some(size) => if size > 0 {
            size
        } else {
            default_size
        },
        None => default_size,
    }
}

fn restored_size(remembered: Option<i32>, default_size: i32) -> (r: i32)
    ensures
        r == size_or(remembered, default_size),
{
    match remembered {
        Some(size) => if size > 0 {
            size
        } else {
            default_size
        },
        None => default_size,
    }
}

/// The width and height with which the window opens: those remembered, else
/// 1200 by 780.
pub fn window_size(remembered: &Geometry) -> (r: (i32, i32))
    ensures
        r.0 == size_or(remembered.window_width, 1200),
        r.1 == size_or(remembered.window_height, 780),
{
    (restored_size(remembered.window_width, 1200), restored_size(remembered.window_height, 780))
}

/// Where the divider stands in a given width: the sidebar gets its remembered
/// width, else 290 pixels, and the plan at least 100.
pub open spec fn divider_at(total: i32, sidebar: Option<i32>) -> int {
    let rest = total - size_or(sidebar, 290);
    if rest >= 100 {
        rest
    } else {
        100
    }
}

/// Where to put the divider between the plan and the sidebar, once the window
/// has a width.
pub fn divider_position(total: i32, sidebar: Option<i32>) -> (r: Option<i32>)
    ensures
        r is Some <==> total > 0,
        r is Some ==> r->0 == divider_at(total, sidebar),
{
    if total > 0 {
        let rest: i32 = total - restored_size(sidebar, 290);
        Some(
            if rest >= 100 {
                rest
            } else {
                100
            },
        )
    } else {
        None
    }
}

/// The width that a divider leaves for the sidebar, if it leaves any.
pub open spec fn sidebar_at(total: i32, divider: i32) -> Option<i32> {
    if 0 <= divider < total {
        Some((total - divider) as i32)
    } else {
        None
    }
}

/// The newer size where there is one.
pub open spec fn newer_size(known: Option<i32>, size: i32) -> Option<i32> {
    if size > 0 {
        Some(size)
    } else {
        known
    }
}

fn later_size(known: Option<i32>, size: i32) -> (r: Option<i32>)
    ensures
        r == newer_size(known, size),
{
    if size > 0 {
        Some(size)
    } else {
        known
    }
}

/// What is remembered after the window was resized or the divider dragged, of
/// which `total` is the width. A size that is not there yet leaves the
/// remembered one.
pub fn remember_geometry(known: &Geometry, width: i32, height: i32, total: i32, divider: i32) -> (r:
    Geometry)
    ensures
        r.window_width == newer_size(known.window_width, width),
        r.window_height == newer_size(known.window_height, height),
        r.sidebar_width == (match sidebar_at(total, divider) {
            Some(w) => Some(w),
            None => known.sidebar_width,
        }),
{
    Geometry {
        window_width: later_size(known.window_width, width),
        window_height: later_size(known.window_height, height),
        sidebar_width: if 0 <= divider && divider < total {
            Some(total - divider)
        } else {
            known.sidebar_width
        },
    }
}

/// A start restores what was remembered: the divider stands where it stood in
/// the same width (the plan keeps its 100 pixels), and the window opens with
/// its size.
pub proof fn law_geometry_is_restored(total: i32, divider: i32, size: i32, default_size: i32)
    requires
        100 <= divider < total,
        size > 0,
    ensures
        divider_at(total, sidebar_at(total, divider)) == divider,
        size_or(newer_size(None, size), default_size) == size,
{
}

/// A size is used only if a window can have it.
pub proof fn law_sizes(size: i32, default_size: i32, known: Option<i32>)
    ensures
        size > 0 ==> size_or(Some(size), default_size) == size && newer_size(known, size) == Some(
            size,
        ),
        size <= 0 ==> size_or(Some(size), default_size) == default_size && newer_size(known, size)
            == known,
        size_or(None, default_size) == default_size,
{
}

/// The divider leaves the sidebar its width (290 pixels by default), and the
/// plan never less than 100 pixels.
pub proof fn law_divider(total: i32, sidebar: i32)
    ensures
        divider_at(total, Some(sidebar)) >= 100,
        sidebar > 0 && total - sidebar >= 100 ==> total - divider_at(total, Some(sidebar))
            == sidebar,
        sidebar > 0 && total - sidebar < 100 ==> divider_at(total, Some(sidebar)) == 100,
        sidebar <= 0 ==> divider_at(total, Some(sidebar)) == divider_at(total, Some(290)),
        divider_at(total, None) == divider_at(total, Some(290)),
{
}

/// The sidebar's width is what lies behind a divider that stands in the window.
pub proof fn law_sidebar(total: i32, divider: i32)
    ensures
        sidebar_at(total, divider) is Some <==> 0 <= divider < total,
        sidebar_at(total, divider) matches Some(w) ==> divider + w == total,
{
}

} // verus!
