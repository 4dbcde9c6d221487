//! Where a widget goes: which monitors a placement rule selects, and the
//! window bounds it yields on each of them.

use vstd::prelude::*;
use crate::monitor_state::Monitor;

verus! {

/// Alignment of a widget along one axis of its monitor.
#[derive(Clone, Copy, Debug, PartialEq, Eq, Structural)]
pub enum Align {
    Start,
    Center,
    End,
}

/// A size, absolute or relative to the monitor's extent on that axis.
#[derive(Clone, Copy, Debug, PartialEq, Eq, Structural)]
pub enum Length {
    Pixels(u32),
    /// Hundredths of the monitor's extent.
    Percent(u32),
}

/// Which monitors a widget is shown on.
#[derive(Clone, Copy, Debug, PartialEq, Eq, Structural)]
pub enum MonitorSelection {
    All,
    Primary,
    /// The monitor at this position in the enumerated order.
    Index(usize),
}

/// A widget's placement rule: monitors, anchor and offset, and size.
#[derive(Clone, Copy, Debug, PartialEq, Eq, Structural)]
pub struct WidgetPlacement {
    pub monitor_selection: MonitorSelection,
    pub horizontal: Align,
    pub vertical: Align,
    pub offset_x: i32,
    pub offset_y: i32,
    pub width: Length,
    pub height: Length,
}

/// A window rectangle in desktop coordinates.
#[derive(Clone, Copy, Debug, PartialEq, Eq, Structural)]
pub struct Bounds {
    pub x: i64,
    pub y: i64,
    pub width: u64,
    pub height: u64,
}

/// One window to create: the monitor it belongs to and its rectangle.
#[derive(Clone, Copy, Debug, PartialEq, Eq, Structural)]
pub struct Target {
    pub monitor: Monitor,
    pub bounds: Bounds,
}

/// The placement rule selects no monitor of the current snapshot.
#[derive(Clone, Copy, Debug, PartialEq, Eq, Structural)]
pub enum PlacementError {
    NoMatchingMonitor,
}

pub open spec fn length_px(l: Length, extent: u32) -> int {
    match l {
        Length::Pixels(p) => p as int,
        Length::Percent(p) => (extent as int) * (p as int) / 100,
    }
}

/// Start of a span of `size` aligned inside `[origin, origin + extent)`,
/// then shifted by `offset`.
pub open spec fn aligned_start(a: Align, origin: int, extent: int, size: int, offset: int) -> int {
    match a {
        Align::Start => origin + offset,
        Align::Center => origin + extent / 2 - size / 2 + offset,
        Align::End => origin + extent - size + offset,
    }
}

pub open spec fn bounds_on(p: WidgetPlacement, m: Monitor) -> Bounds {
    let w = length_px(p.width, m.width);
    let h = length_px(p.height, m.height);
    Bounds {
        x: aligned_start(p.horizontal, m.x as int, m.width as int, w, p.offset_x as int) as i64,
        y: aligned_start(p.vertical, m.y as int, m.height as int, h, p.offset_y as int) as i64,
        width: w as u64,
        height: h as u64,
    }
}

pub open spec fn target_on(p: WidgetPlacement, m: Monitor) -> Target {
    Target { monitor: m, bounds: bounds_on(p, m) }
}

pub open spec fn is_primary(m: Monitor) -> bool {
    m.is_primary
}

/// The monitors a selection picks from a snapshot, in snapshot order.
pub open spec fn selected_monitors(sel: MonitorSelection, mons: Seq<Monitor>) -> Seq<Monitor> {
    match sel {
        MonitorSelection::All => mons,
        MonitorSelection::Primary => mons.filter(|m: Monitor| is_primary(m)),
        MonitorSelection::Index(i) => if i < mons.len() {
            seq![mons[i as int]]
        } else {
            Seq::empty()
        },
    }
}

/// One target per selected monitor, in snapshot order.
pub open spec fn placement_targets(p: WidgetPlacement, mons: Seq<Monitor>) -> Seq<Target> {
    selected_monitors(p.monitor_selection, mons).map_values(|m: Monitor| target_on(p, m))
}

/// The placement rule evaluated against a snapshot.
pub open spec fn resolve_spec(p: WidgetPlacement, mons: Seq<Monitor>) -> Result<Seq<Target>, PlacementError> {
    if placement_targets(p, mons).len() == 0 {
        Err(PlacementError::NoMatchingMonitor)
    } else {
        Ok(placement_targets(p, mons))
    }
}

fn length_in_pixels(l: Length, extent: u32) -> (r: u64)
    ensures
        r as int == length_px(l, extent),
        r <= 0x0400_0000_0000_0000,
{
    match l {
        Length::Pixels(p) => p as u64,
        Length::Percent(p) => {
            let e = extent as u64;
            let q = p as u64;
            assert(e * q <= 0xffff_fffe_0000_0001) by (nonlinear_arith)
                requires
                    e <= 0xffff_ffff,
                    q <= 0xffff_ffff,
            ;
            e * q / 100
        },
    }
}

fn aligned_start_exec(a: Align, origin: i32, extent: u32, size: u64, offset: i32) -> (r: i64)
    requires
        size <= 0x0400_0000_0000_0000,
    ensures
        r as int == aligned_start(a, origin as int, extent as int, size as int, offset as int),
{
    let o = origin as i64;
    let e = extent as i64;
    let s = size as i64;
    let d = offset as i64;
    match a {
        Align::Start => o + d,
        Align::Center => o + e / 2 - s / 2 + d,
        Align::End => o + e - s + d,
    }
}

/// The rectangle a placement rule gives on one monitor.
pub fn bounds_for(p: &WidgetPlacement, m: &Monitor) -> (r: Bounds)
    ensures
        r == bounds_on(*p, *m),
{
    let w = length_in_pixels(p.width, m.width);
    let h = length_in_pixels(p.height, m.height);
    let x = aligned_start_exec(p.horizontal, m.x, m.width, w, p.offset_x);
    let y = aligned_start_exec(p.vertical, m.y, m.height, h, p.offset_y);
    Bounds { x, y, width: w, height: h }
}

/// The monitors a selection picks from a snapshot.
pub fn select_monitors(sel: MonitorSelection, mons: &Vec<Monitor>) -> (r: Vec<Monitor>)
    ensures
        r@ == selected_monitors(sel, mons@),
{
    match sel {
        MonitorSelection::All => mons.clone(),
        MonitorSelection::Index(i) => {
            let mut r: Vec<Monitor> = Vec::new();
            if i < mons.len() {
                r.push(mons[i]);
            }
            assert(r@ =~= selected_monitors(sel, mons@));
            r
        },
        MonitorSelection::Primary => {
            let mut r: Vec<Monitor> = Vec::new();
            let mut i: usize = 0;
            while i < mons.len()
                invariant
                    i <= mons.len(),
                    r@ == mons@.take(i as int).filter(|m: Monitor| is_primary(m)),
                decreases mons.len() - i,
            {
                proof {
                    assert(mons@.take(i + 1) =~= mons@.take(i as int).push(mons@[i as int]));
                    mons@.take(i as int).lemma_filter_push(mons@[i as int], |m: Monitor| is_primary(m));
                }
                if mons[i].is_primary {
                    r.push(mons[i]);
                }
                i += 1;
            }
            assert(mons@.take(mons.len() as int) =~= mons@);
            r
        },
    }
}

/// Evaluates a placement rule against the monitor snapshot: one target per
/// selected monitor, or an error when none is selected.
pub fn resolve_placement(p: &WidgetPlacement, mons: &Vec<Monitor>) -> (r: Result<Vec<Target>, PlacementError>)
    ensures
        match r {
            Ok(ts) => resolve_spec(*p, mons@) == Ok::<Seq<Target>, PlacementError>(ts@),
            Err(e) => resolve_spec(*p, mons@) == Err::<Seq<Target>, PlacementError>(e),
        },
{
    let selected = select_monitors(p.monitor_selection, mons);
    let mut ts: Vec<Target> = Vec::new();
    let mut i: usize = 0;
    while i < selected.len()
        invariant
            i <= selected.len(),
            ts@ == selected@.take(i as int).map_values(|m: Monitor| target_on(*p, m)),
        decreases selected.len() - i,
    {
        let m = selected[i];
        let b = bounds_for(p, &m);
        ts.push(Target { monitor: m, bounds: b });
        assert(ts@ =~= selected@.take(i + 1).map_values(|m: Monitor| target_on(*p, m)));
        i += 1;
    }
    assert(ts@ =~= placement_targets(*p, mons@)) by {
        assert(selected@.take(selected.len() as int) =~= selected@);
    }
    if ts.len() == 0 {
        Err(PlacementError::NoMatchingMonitor)
    } else {
        Ok(ts)
    }
}

} // verus!
