use dnsglobe::clock::{Duration, Instant};
use dnsglobe::globe::{panel_ends, GlobeView, INFO_RESERVE, REVOLUTION, TRANSITION};

const EPS: f64 = 1e-9;
const MAP_LON_SPAN: f64 = 350.0;
const MAP_LAT_SPAN: f64 = 127.0;
const MAP_ASPECT: f64 = MAP_LAT_SPAN / MAP_LON_SPAN * 2.0 / 4.0;
const NOW: Instant = Instant { nanos: 5_000_000_000 };

/// How far the change has come, eased, as it is drawn.
fn t(view: &GlobeView, now: Instant) -> f64 {
    let p = view.progress(now) as f64 / TRANSITION as f64;
    p * p * (3.0 - 2.0 * p)
}

/// The longitude that faces the viewer.
fn center_lon(view: &GlobeView, now: Instant) -> f64 {
    view.spin(now) as f64 * 360.0 / REVOLUTION as f64
}

fn after(nanos: u64) -> Instant {
    NOW.saturating_add(Duration { nanos })
}

struct Geom {
    width: u16,
    height: u16,
    x_span: f64,
}

impl Geom {
    /// The canvas around the middle of the flat map.
    fn x_bounds(&self) -> [f64; 2] {
        [5.0 - self.x_span / 2.0, 5.0 + self.x_span / 2.0]
    }

    fn y_bounds(&self) -> [f64; 2] {
        [8.5 - MAP_LAT_SPAN / 2.0, 8.5 + MAP_LAT_SPAN / 2.0]
    }
}

/// The panel at one end of the change, with the span of its canvas.
fn geometry(avail: u16, height: u16, globe: bool) -> Geom {
    let ends = panel_ends(avail, height, INFO_RESERVE);
    if globe {
        Geom {
            width: ends.globe_width,
            height: ends.globe_height,
            x_span: MAP_LAT_SPAN * f64::from(ends.globe_width - 2)
                / (2.0 * f64::from(ends.globe_height - 2)),
        }
    } else {
        Geom { width: ends.flat_width, height: ends.flat_height, x_span: MAP_LON_SPAN }
    }
}

#[test]
fn toggle_reaches_the_target_and_holds_it() {
    let mut view = GlobeView::new(NOW);
    assert!(t(&view, NOW).abs() < EPS);
    view.toggle(NOW);
    assert!(t(&view, NOW).abs() < EPS); // starts from flat
    assert!((t(&view, after(TRANSITION)) - 1.0).abs() < EPS);
    assert!((t(&view, after(2 * TRANSITION)) - 1.0).abs() < EPS); // clamped
}

#[test]
fn reversing_mid_morph_continues_from_the_current_progress() {
    let mut view = GlobeView::new(NOW);
    view.toggle(NOW);
    let mid = after(TRANSITION / 2);
    view.toggle(mid); // flip back halfway through
    // Progress resumes at 0.5 and runs back down, hitting flat after
    // half a transition, not a full one.
    assert!((t(&view, mid) - 0.5).abs() < EPS);
    assert!(t(&view, after(TRANSITION)).abs() < EPS);
}

#[test]
fn set_target_is_idempotent_mid_morph() {
    // The target is re-asserted every frame; that must not restart the
    // animation from scratch each time.
    let mut view = GlobeView::new(NOW);
    view.set_target(true, NOW);
    let mid = after(TRANSITION / 2);
    view.set_target(true, mid); // same target re-asserted mid-morph
    assert!((t(&view, mid) - 0.5).abs() < EPS);
    assert!((t(&view, after(TRANSITION)) - 1.0).abs() < EPS);
}

#[test]
fn snap_jumps_without_animating() {
    let mut view = GlobeView::new(NOW);
    view.snap(true);
    assert!((t(&view, NOW) - 1.0).abs() < EPS);
    // A later target change still animates normally.
    view.set_target(false, NOW);
    assert!((t(&view, after(TRANSITION / 2)) - 0.5).abs() < EPS);
}

#[test]
fn flat_geometry_matches_the_classic_panel() {
    let g = geometry(80, 50, false);
    assert_eq!(g.width, 80);
    assert_eq!(g.height, (78.0 * MAP_ASPECT).round() as u16 + 2);
    assert!((g.x_span - MAP_LON_SPAN).abs() < EPS);
    assert_eq!(g.x_bounds(), [-170.0, 180.0]);
    assert_eq!(g.y_bounds(), [-55.0, 72.0]);
}

#[test]
fn globe_geometry_is_a_square_dot_grid_that_fits_the_disc() {
    let g = geometry(80, 50, true);
    // 2 dots per cell wide, 4 tall: square grid means height about width/2.
    assert_eq!(g.height, (g.width - 2) / 2 + 2);
    // Zoomed so the 127 degree latitude span fills the panel.
    assert!((g.x_span - MAP_LAT_SPAN).abs() < EPS);
}

#[test]
fn short_terminals_shrink_the_globe_panel_and_keep_it_round() {
    // Height-capped: the panel narrows to stay square.
    let g = geometry(160, 30, true);
    assert!(g.height <= 30 - 4);
    assert_eq!(g.width, 2 * (g.height - 2) + 2);
    // Round limb: degrees per dot equal in x and y.
    let per_dot_x = g.x_span / (2.0 * f64::from(g.width - 2));
    let per_dot_y = MAP_LAT_SPAN / (4.0 * f64::from(g.height - 2));
    assert!((per_dot_x - per_dot_y).abs() < EPS);
}

#[test]
fn geometry_survives_degenerate_sizes() {
    for (w, h) in [(0, 0), (1, 1), (6, 4), (7, 50), (300, 2)] {
        let g = geometry(w, h, true);
        assert!(g.width >= 6 && g.height >= 4);
        assert!(g.x_span.is_finite() && g.x_span > 0.0);
    }
}

#[test]
fn spin_advances_and_wraps() {
    let view = GlobeView::new(NOW);
    assert!(center_lon(&view, NOW).abs() < EPS);
    assert!((center_lon(&view, after(REVOLUTION / 4)) - 90.0).abs() < 1e-6);
    assert!((center_lon(&view, after(REVOLUTION / 4 * 5)) - 90.0).abs() < 1e-6);
}

#[test]
fn flat_height_rounds_as_the_aspect_says() {
    for w in 0..=200u16 {
        let flat = w.clamp(6, 170);
        let rows = (f64::from(flat - 2) * MAP_ASPECT).round() as u16 + 2;
        assert_eq!(panel_ends(w, 1000, 4).flat_height, rows.max(4));
        assert_eq!(panel_ends(w, 1000, 4).flat_width, flat);
    }
}

#[test]
fn more_rows_below_leave_less_for_the_globe() {
    let few = panel_ends(160, 60, 4);
    let many = panel_ends(160, 60, 26);
    assert_eq!(few.globe_height, 56);
    assert_eq!(many.globe_height, 34);
    assert_eq!(many.globe_width, 66);
    assert_eq!(few.flat_height, many.flat_height);
}

#[test]
fn progress_is_even_and_holds_its_ends() {
    let mut view = GlobeView::new(NOW);
    assert!(!view.target());
    view.toggle(NOW);
    assert!(view.target());
    assert_eq!(view.progress(NOW), 0);
    assert_eq!(view.progress(after(1)), 1);
    assert_eq!(view.progress(after(TRANSITION - 1)), TRANSITION - 1);
    assert_eq!(view.progress(after(TRANSITION + 1)), TRANSITION);
    // A time before the change began counts as its beginning.
    assert_eq!(view.progress(Instant { nanos: 0 }), 0);
}
