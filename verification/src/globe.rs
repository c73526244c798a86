//! The change between flat map and globe: how far it has come, how far the
//! globe has turned, and how large the panel is at both ends.
use vstd::prelude::*;

use crate::clock;
use crate::clock::Instant;

verus! {

/// How long the change between map and globe takes, in nanoseconds.
pub const TRANSITION: u64 = 700_000_000;

/// How long the globe takes to turn once, in nanoseconds.
pub const REVOLUTION: u64 = 36_000_000_000;

/// The widest map panel, in columns.
pub const MAP_MAX_WIDTH: u16 = 170;

/// Rows kept below the globe for the legend.
pub const INFO_RESERVE: u16 = 4;

/// The view: where it is heading, and when it last changed its mind.
pub struct GlobeView {
    on: bool,
    origin: u64,
    toggled_at: Option<Instant>,
    epoch: Instant,
}

/// What a view holds.
pub struct GlobeState {
    /// Heading for the globe?
    pub on: bool,
    /// How far the change had come when it last turned around.
    pub origin: int,
    /// When that was; never, for a view that stands still.
    pub toggled_at: Option<Instant>,
    /// When the globe faced its first longitude.
    pub epoch: Instant,
}

/// How far the change has come at `now`: from zero, the flat map, to
/// `TRANSITION`, the globe. It moves at an even pace toward its end.
pub open spec fn progress_at(s: GlobeState, now: Instant) -> int {
    match s.toggled_at {
        None => if s.on {
            TRANSITION as int
        } else {
            0
        },
        Some(at) => {
            let elapsed = clock::minus(now.nanos as int, at.nanos as int);
            if !s.on {
                clock::minus(s.origin, elapsed)
            } else if s.origin + elapsed < TRANSITION {
                s.origin + elapsed
            } else {
                TRANSITION as int
            }
        },
    }
}

/// A change is never past its ends.
pub open spec fn in_range(s: GlobeState) -> bool {
    0 <= s.origin <= TRANSITION
}

/// The view turned around at `now`, from wherever it is.
pub open spec fn toggled(s: GlobeState, now: Instant) -> GlobeState {
    GlobeState { on: !s.on, origin: progress_at(s, now), toggled_at: Some(now), epoch: s.epoch }
}

/// The view headed for the globe or the map, turned around only if it has to be.
pub open spec fn steered(s: GlobeState, on: bool, now: Instant) -> GlobeState {
    if on != s.on {
        toggled(s, now)
    } else {
        s
    }
}

/// The view put at one end.
pub open spec fn snapped(s: GlobeState, on: bool) -> GlobeState {
    GlobeState { on, toggled_at: None, ..s }
}

impl View for GlobeView {
    type V = GlobeState;

    closed spec fn view(&self) -> GlobeState {
        GlobeState {
            on: self.on,
            origin: self.origin as int,
            toggled_at: self.toggled_at,
            epoch: self.epoch,
        }
    }
}

impl GlobeView {
    #[verifier::type_invariant]
    spec fn well_formed(self) -> bool {
        self.origin <= TRANSITION
    }

    /// A flat map that stands still, and a globe that starts to turn at `now`.
    pub fn new(now: Instant) -> (out: GlobeView)
        ensures
            out@ == (GlobeState { on: false, origin: 0, toggled_at: None, epoch: now }),
    {
        GlobeView { on: false, origin: 0, toggled_at: None, epoch: now }
    }

    /// How far the change has come at `now`.
    pub fn progress(&self, now: Instant) -> (out: u64)
        ensures
            out == progress_at(self@, now),
            out <= TRANSITION,
    {
        proof {
            use_type_invariant(self);
        }
        match self.toggled_at {
            None => if self.on {
                TRANSITION
            } else {
                0
            },
            Some(at) => {
                let elapsed = now.saturating_duration_since(at).nanos;
                if self.on {
                    if elapsed < TRANSITION - self.origin {
                        self.origin + elapsed
                    } else {
                        TRANSITION
                    }
                } else {
                    if elapsed < self.origin {
                        self.origin - elapsed
                    } else {
                        0
                    }
                }
            },
        }
    }

    /// Turns around at `now`, from wherever the change is.
    pub fn toggle(&mut self, now: Instant)
        ensures
            final(self)@ == toggled(old(self)@, now),
    {
        let here = self.progress(now);
        self.origin = here;
        self.on = !self.on;
        self.toggled_at = Some(now);
    }

    /// Is the view heading for the globe?
    pub fn target(&self) -> (out: bool)
        ensures
            out == self@.on,
    {
        self.on
    }

    /// Heads for the globe or the map, from wherever the change is.
    pub fn set_target(&mut self, on: bool, now: Instant)
        ensures
            final(self)@ == steered(old(self)@, on, now),
    {
        if on != self.on {
            self.toggle(now);
        }
    }

    /// Jumps to one end.
    pub fn snap(&mut self, on: bool)
        ensures
            final(self)@ == snapped(old(self)@, on),
    {
        proof {
            use_type_invariant(&*self);
        }
        self.on = on;
        self.toggled_at = None;
    }

    /// How far into its current turn the globe is at `now`. It keeps turning
    /// while it is hidden.
    pub fn spin(&self, now: Instant) -> (out: u64)
        ensures
            out == clock::minus(now.nanos as int, self@.epoch.nanos as int) % (REVOLUTION as int),
            out < REVOLUTION,
    {
        now.saturating_duration_since(self.epoch).nanos % REVOLUTION
    }
}

// ---------------------------------------------------------------- laws of the change

/// The change is never past its ends.
pub proof fn progress_in_range(s: GlobeState, now: Instant)
    requires
        in_range(s),
    ensures
        0 <= progress_at(s, now) <= TRANSITION,
        in_range(toggled(s, now)),
{
}

/// Turning around mid-way continues from where the change was.
pub proof fn toggling_does_not_jump(s: GlobeState, now: Instant)
    requires
        in_range(s),
    ensures
        progress_at(toggled(s, now), now) == progress_at(s, now),
{
}

/// After the full time the change has reached its end, and stays there.
pub proof fn reaches_the_target(s: GlobeState, at: Instant, now: Instant)
    requires
        in_range(s),
        s.toggled_at == Some(at),
        now.nanos >= at.nanos + TRANSITION,
    ensures
        progress_at(s, now) == if s.on {
            TRANSITION as int
        } else {
            0
        },
{
}

/// The change moves toward its end and never back.
pub proof fn moves_toward_the_target(s: GlobeState, earlier: Instant, later: Instant)
    requires
        in_range(s),
        earlier.nanos <= later.nanos,
    ensures
        s.on ==> progress_at(s, earlier) <= progress_at(s, later),
        !s.on ==> progress_at(s, earlier) >= progress_at(s, later),
{
}

/// Turned around at `mid`, the change takes as long back as it had taken so far.
pub proof fn reversal_takes_as_long_back(s: GlobeState, start: Instant, mid: Instant, end: Instant)
    requires
        in_range(s),
        progress_at(s, start) == 0,
        !s.on,
        start.nanos <= mid.nanos,
        mid.nanos - start.nanos <= TRANSITION,
        end.nanos == mid.nanos + (mid.nanos - start.nanos),
    ensures
        progress_at(toggled(toggled(s, start), mid), end) == 0,
        mid.nanos > start.nanos ==> progress_at(toggled(toggled(s, start), mid), mid) == mid.nanos
            - start.nanos,
{
}

/// Saying again where to go changes nothing, however often it is said.
pub proof fn steering_is_idempotent(s: GlobeState, on: bool, first: Instant, again: Instant)
    ensures
        steered(steered(s, on, first), on, again) == steered(s, on, first),
{
}

/// A view that was put at one end is there at once, and at any time.
pub proof fn snapping_does_not_animate(s: GlobeState, on: bool, now: Instant)
    ensures
        progress_at(snapped(s, on), now) == if on {
            TRANSITION as int
        } else {
            0
        },
{
}

// ---------------------------------------------------------------- the panel

/// The size of the map panel at both ends of the change.
#[derive(Clone, Copy, PartialEq, Eq, Structural, Debug)]
pub struct PanelEnds {
    pub flat_width: u16,
    pub flat_height: u16,
    pub globe_width: u16,
    pub globe_height: u16,
}

/// `x`, brought into `low..=high`.
pub open spec fn clamped(x: int, low: int, high: int) -> int {
    if x < low {
        low
    } else if x > high {
        high
    } else {
        x
    }
}

/// The larger of two numbers.
pub open spec fn larger(a: int, b: int) -> int {
    if a > b {
        a
    } else {
        b
    }
}

/// The width of the flat map's panel.
pub open spec fn flat_width(avail: int) -> int {
    clamped(avail, 6, MAP_MAX_WIDTH as int)
}

/// The height of the flat map's panel. The map spans 350 by 127 degrees, a cell
/// holds 2 by 4 dots, and a degree is as many dots wide as high: inside its
/// borders the map has 127 rows for 700 columns, rounded to the nearest row.
pub open spec fn flat_height(avail: int, body: int) -> int {
    clamped((2 * (flat_width(avail) - 2) * 127 + 700) / 1400 + 2, 4, larger(body, 4))
}

/// The height of the globe's panel: a square of dots as wide as the flat map,
/// unless the rows below it are needed.
pub open spec fn globe_height(avail: int, body: int, reserve: int) -> int {
    clamped((flat_width(avail) - 2) / 2 + 2, 4, larger(clock::minus(body, reserve), 4))
}

fn clamp(x: u16, low: u16, high: u16) -> (out: u16)
    ensures
        out == clamped(x as int, low as int, high as int),
{
    if x < low {
        low
    } else if x > high {
        high
    } else {
        x
    }
}

/// The size of the map panel at both ends of the change, given the columns
/// that it may have, the height of the body, and the rows needed below it.
pub fn panel_ends(avail_width: u16, body_height: u16, reserve: u16) -> (out: PanelEnds)
    ensures
        out.flat_width == flat_width(avail_width as int),
        out.flat_height == flat_height(avail_width as int, body_height as int),
        out.globe_height == globe_height(avail_width as int, body_height as int, reserve as int),
        // A square of dots, two to a cell across and four down.
        out.globe_width - 2 == 2 * (out.globe_height - 2),
        out.globe_width <= out.flat_width,
        out.flat_width >= 6 && out.flat_height >= 4 && out.globe_width >= 6 && out.globe_height
            >= 4,
{
    let flat_width = clamp(avail_width, 6, MAP_MAX_WIDTH);
    let tall = if body_height > 4 {
        body_height
    } else {
        4
    };
    let rows: u32 = (2 * (flat_width as u32 - 2) * 127 + 700) / 1400;
    let flat_height = clamp(rows as u16 + 2, 4, tall);
    let left = if body_height > reserve {
        body_height - reserve
    } else {
        0
    };
    let room = if left > 4 {
        left
    } else {
        4
    };
    let globe_height = clamp((flat_width - 2) / 2 + 2, 4, room);
    let globe_width = 2 * (globe_height - 2) + 2;
    PanelEnds { flat_width, flat_height, globe_width, globe_height }
}

/// A panel is as wide as there is room, but neither under 6 columns nor over 170.
/// The flat map keeps the shape of 127 rows to 700 columns to half a row, the
/// globe that of one row to two columns, each with a border of one cell, where
/// the rows allow it; the globe leaves room for the legend.
pub proof fn panels_keep_their_shape(avail: int, body: int, reserve: int)
    requires
        0 <= reserve,
    ensures
        6 <= flat_width(avail) <= 170,
        6 <= avail <= 170 ==> flat_width(avail) == avail,
        avail < 6 ==> flat_width(avail) == 6,
        avail > 170 ==> flat_width(avail) == 170,
        4 <= flat_height(avail, body) && (flat_height(avail, body) <= body || flat_height(
            avail,
            body,
        ) == 4),
        4 < flat_height(avail, body) < body ==> -350 < 700 * (flat_height(avail, body) - 2) - 127
            * (flat_width(avail) - 2) <= 350,
        4 < flat_height(avail, body) == body ==> 700 * (body - 2) - 127 * (flat_width(avail) - 2)
            <= 350,
        flat_height(avail, body) == 4 && body > 4 ==> 127 * (flat_width(avail) - 2) < 1750,
        4 <= globe_height(avail, body, reserve) && (globe_height(avail, body, reserve) + reserve
            <= body || globe_height(avail, body, reserve) == 4),
        4 <= (flat_width(avail) - 2) / 2 + 2 <= body - reserve ==> globe_height(
            avail,
            body,
            reserve,
        ) == (flat_width(avail) - 2) / 2 + 2,
        4 < body - reserve < (flat_width(avail) - 2) / 2 + 2 ==> globe_height(avail, body, reserve)
            == body - reserve,
{
}

/// The change takes seven tenths of a second, a turn of the globe 36 seconds, and
/// four rows are kept for the legend.
pub proof fn motion_takes_its_time(s: GlobeState, at: Instant, now: Instant)
    requires
        s.toggled_at == Some(at),
        at.nanos <= now.nanos,
        0 <= s.origin <= 700_000_000,
    ensures
        REVOLUTION == 36_000_000_000,
        INFO_RESERVE == 4,
        s.on && s.origin + (now.nanos - at.nanos) <= 700_000_000 ==> progress_at(s, now) == s.origin
            + (now.nanos - at.nanos),
        !s.on && now.nanos - at.nanos <= s.origin ==> progress_at(s, now) == s.origin - (now.nanos
            - at.nanos),
        s.on && s.origin + (now.nanos - at.nanos) >= 700_000_000 ==> progress_at(s, now)
            == 700_000_000,
        !s.on && now.nanos - at.nanos >= s.origin ==> progress_at(s, now) == 0,
{
}

/// A view that was never turned around stands at its end.
pub proof fn views_at_rest_stand_at_their_end(s: GlobeState, now: Instant)
    requires
        s.toggled_at is None,
    ensures
        s.on ==> progress_at(s, now) == 700_000_000,
        !s.on ==> progress_at(s, now) == 0,
        steered(s, s.on, now) == s,
        steered(s, !s.on, now).on == !s.on,
        steered(s, !s.on, now).toggled_at == Some(now),
        steered(s, !s.on, now).epoch == s.epoch,
        snapped(s, true).on && !snapped(s, false).on,
        snapped(s, true).epoch == s.epoch,
{
}

/// Turning around starts from where the change is, and steering does so exactly
/// when it has to; jumping forgets the change. The globe keeps turning as it did.
pub proof fn only_the_heading_changes(s: GlobeState, on: bool, now: Instant)
    ensures
        toggled(s, now).on == !s.on,
        toggled(s, now).origin == progress_at(s, now),
        toggled(s, now).toggled_at == Some(now),
        toggled(s, now).epoch == s.epoch,
        on == s.on ==> steered(s, on, now) == s,
        on != s.on ==> steered(s, on, now) == toggled(s, now),
        snapped(s, on).on == on,
        snapped(s, on).toggled_at is None,
        snapped(s, on).epoch == s.epoch,
{
}

} // verus!
