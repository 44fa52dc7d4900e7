//! The panel's runtime state and the decisions of its event loop: what each
//! notification changes, whether the panel must be repainted, and what must be
//! sent back to the display. The loop itself, which waits, reads and paints,
//! stands outside the library.

use vstd::prelude::*;
use crate::cache::WindowCache;
use crate::layout::Cell;
use crate::title::{denylisted, is_denylisted, lower_of};

verus! {

pub const BG_COLOR: u32 = 0x1d1f21;
pub const ACTIVE_BG_COLOR: u32 = 0x373b41;
pub const HOVER_BG_COLOR: u32 = 0x282a2e;

/// Width of the slot of each embedded status icon.
pub const TRAY_SLOT_WIDTH: u32 = 32;
/// Gap between the right edge of the clock and the panel's edge.
pub const CLOCK_MARGIN: u32 = 8;
/// Gap between the tray and the clock.
pub const TRAY_GAP: u32 = 15;
/// Gap between the window cells and the tray.
pub const WINDOWS_GAP: u32 = 10;
/// Added to every wait so that the wake-up falls after the minute has turned.
pub const WAKE_MARGIN_MS: u64 = 10;
pub const MS_PER_MINUTE: u64 = 60000;

/// The horizontal span of a window cell, both ends included, in panel pixels.
#[derive(Clone, Copy, Debug, PartialEq, Eq, Structural)]
pub struct ClickRegion {
    pub x_start: i64,
    pub x_end: i64,
    pub handle: u32,
}

/// The notifications that the event loop hands to the panel.
#[derive(Clone, Copy, Debug, PartialEq, Eq, Structural)]
pub enum PanelEvent {
    /// The panel's surface was exposed.
    Exposed,
    /// The list of client windows or the active window changed.
    ClientsChanged,
    /// The title or the icon of a window changed.
    MetadataChanged { window: u32 },
    /// A pointer button was pressed at `x`.
    ButtonPress { x: i64, button: u8 },
    /// The pointer moved to `x`.
    Motion { x: i64 },
    /// The pointer left the panel (not onto one of its own children).
    PointerLeft,
    /// A window was destroyed.
    Destroyed { window: u32 },
    /// Another application asks to embed a status icon window.
    DockRequest { window: u32 },
}

/// What the event loop must send to the display after an event.
#[derive(Clone, Copy, Debug, PartialEq, Eq, Structural)]
pub enum Action {
    Nothing,
    /// Ask for the window to be activated and focused.
    Activate(u32),
    /// Ask for the window to be closed.
    Close(u32),
    /// Take the window into the tray: reparent and map it.
    Embed(u32),
}

/// The outcome of one event: whether to repaint, and what to send.
#[derive(Clone, Copy, Debug, PartialEq, Eq, Structural)]
pub struct Step {
    pub dirty: bool,
    pub action: Action,
}

/// Where the clock, the tray and the window cells stand on the strip.
#[derive(Clone, Copy, Debug, PartialEq, Eq, Structural)]
pub struct Strip {
    pub clock_x: i64,
    pub tray_x: i64,
    pub window_area: u32,
}

pub struct PanelState {
    pub width: u32,
    pub cache: WindowCache,
    pub tray: Vec<u32>,
    pub regions: Vec<ClickRegion>,
    pub pointer_x: Option<i64>,
    pub hovered: Option<u32>,
    pub last_clock: String,
}

/// The handle of the first region that contains `x`.
pub open spec fn region_at(rs: Seq<ClickRegion>, x: i64) -> Option<u32>
    decreases rs.len(),
{
    if rs.len() == 0 {
        None
    } else if rs[0].x_start <= x && x <= rs[0].x_end {
        Some(rs[0].handle)
    } else {
        region_at(rs.drop_first(), x)
    }
}

/// Pointer position, hovered window and repaint flag after the pointer moves to
/// `x`: a move to the remembered position changes nothing; otherwise the hovered
/// window is the one under `x`, and a repaint is due only if that changed.
pub open spec fn motion_effect(
    pointer_x: Option<i64>,
    hovered: Option<u32>,
    rs: Seq<ClickRegion>,
    x: i64,
) -> (Option<i64>, Option<u32>, bool) {
    if pointer_x == Some(x) {
        (pointer_x, hovered, false)
    } else {
        (Some(x), region_at(rs, x), region_at(rs, x) != hovered)
    }
}

/// A motion asks for a repaint exactly when the window under the pointer is
/// another than the hovered one (a move to the remembered position asks for none).
pub proof fn lemma_hover_change(
    pointer_x: Option<i64>,
    hovered: Option<u32>,
    rs: Seq<ClickRegion>,
    x: i64,
)
    ensures
        motion_effect(pointer_x, hovered, rs, x).2 ==> region_at(rs, x) != hovered,
        pointer_x != Some(x) ==> (motion_effect(pointer_x, hovered, rs, x).2 <==> region_at(rs, x)
            != hovered),
{
}

/// Of two motions whose positions fall in the same region (or in none), the
/// second never asks for a repaint, where the hovered window is the one under
/// the remembered position.
pub proof fn lemma_repeated_motion(
    pointer_x: Option<i64>,
    hovered: Option<u32>,
    rs: Seq<ClickRegion>,
    x1: i64,
    x2: i64,
)
    requires
        region_at(rs, x1) == region_at(rs, x2),
        pointer_x == Some(x1) ==> hovered == region_at(rs, x1),
    ensures
        ({
            let first = motion_effect(pointer_x, hovered, rs, x1);
            !motion_effect(first.0, first.1, rs, x2).2
        }),
{
}

/// What a press of `button` at `x` asks for: the left button activates the
/// window under the pointer, the right button closes it.
pub open spec fn click_action(rs: Seq<ClickRegion>, x: i64, button: u8) -> Action {
    match region_at(rs, x) {
        Some(w) => if button == 1 {
            Action::Activate(w)
        } else if button == 3 {
            Action::Close(w)
        } else {
            Action::Nothing
        },
        None => Action::Nothing,
    }
}

/// The click region of a laid-out cell.
pub open spec fn region_of(c: Cell) -> ClickRegion {
    ClickRegion {
        x_start: c.draw_x as i64,
        x_end: (c.draw_x + c.draw_width) as i64,
        handle: c.handle,
    }
}

/// A window of the enumerated list that gets a cell: not the panel itself, not
/// embedded in the tray, known to the cache, and not a denylisted widget.
pub open spec fn is_task(cache: Map<u32, crate::cache::WindowEntry>, tray: Seq<u32>, own: u32, w: u32) -> bool {
    &&& w != own
    &&& !tray.contains(w)
    &&& cache.contains_key(w)
    &&& !denylisted(lower_of(cache[w].title@))
}

/// Milliseconds to wait from `now_ms` (since the epoch) until just after the
/// next minute boundary.
pub open spec fn wait_spec(now_ms: u64) -> int {
    MS_PER_MINUTE - (now_ms % MS_PER_MINUTE) + WAKE_MARGIN_MS
}

pub fn wait_timeout_ms(now_ms: u64) -> (r: u64)
    ensures
        r == wait_spec(now_ms),
        WAKE_MARGIN_MS < r <= MS_PER_MINUTE + WAKE_MARGIN_MS,
{
    MS_PER_MINUTE - (now_ms % MS_PER_MINUTE) + WAKE_MARGIN_MS
}

/// Whether a window whose type property lists `types` is a task window, that
/// is, not a dock, a desktop or a splash screen.
pub fn is_task_window_type(types: &Vec<u32>, dock: u32, desktop: u32, splash: u32) -> (r: bool)
    ensures
        r == forall|i: int|
            0 <= i < types@.len() ==> #[trigger] types@[i] != dock && types@[i] != desktop
                && types@[i] != splash,
{
    let mut i: usize = 0;
    while i < types.len()
        invariant
            i <= types@.len(),
            forall|j: int|
                0 <= j < i ==> #[trigger] types@[j] != dock && types@[j] != desktop && types@[j]
                    != splash,
        decreases types@.len() - i,
    {
        let t = types[i];
        if t == dock || t == desktop || t == splash {
            return false;
        }
        i = i + 1;
    }
    true
}

/// The background of a cell: the active window's, else the hovered one's,
/// else the panel's.
pub fn cell_background(c: &Cell) -> (r: u32)
    ensures
        r == (if c.is_active {
            ACTIVE_BG_COLOR
        } else if c.is_hovered {
            HOVER_BG_COLOR
        } else {
            BG_COLOR
        }),
{
    if c.is_active {
        ACTIVE_BG_COLOR
    } else if c.is_hovered {
        HOVER_BG_COLOR
    } else {
        BG_COLOR
    }
}

/// Places the clock at the right edge, the tray before it, and leaves the
/// rest of the strip, less a gap, to the window cells.
pub fn strip_geometry(panel_width: u32, clock_width: u32, tray_count: u32) -> (r: Strip)
    ensures
        r.clock_x == panel_width - (clock_width + CLOCK_MARGIN),
        r.tray_x == r.clock_x - (tray_count * TRAY_SLOT_WIDTH + TRAY_GAP),
        r.window_area == (if r.tray_x - WINDOWS_GAP > 0 { r.tray_x - WINDOWS_GAP } else { 0 }),
{
    let clock_x: i64 = panel_width as i64 - (clock_width as i64 + CLOCK_MARGIN as i64);
    let slot: i64 = TRAY_SLOT_WIDTH as i64;
    assert(0 <= tray_count as i64 * slot <= 0x20_0000_0000) by (nonlinear_arith)
        requires
            slot == 32,
            0 <= tray_count <= u32::MAX,
    ;
    let slots: i64 = tray_count as i64 * slot;
    let tray_x: i64 = clock_x - (slots + TRAY_GAP as i64);
    let area: i64 = tray_x - WINDOWS_GAP as i64;
    Strip { clock_x, tray_x, window_area: if area > 0 { area as u32 } else { 0 } }
}

/// Left edge of the `i`-th tray slot.
pub fn tray_slot_x(strip: &Strip, i: u32) -> (r: i64)
    requires
        strip.tray_x >= -0x1_0000_0000_0000,
        strip.tray_x <= 0x1_0000_0000_0000,
    ensures
        r == strip.tray_x + i * TRAY_SLOT_WIDTH,
{
    let slot: i64 = TRAY_SLOT_WIDTH as i64;
    assert(0 <= i as i64 * slot <= 0x20_0000_0000) by (nonlinear_arith)
        requires
            slot == 32,
            0 <= i <= u32::MAX,
    ;
    strip.tray_x + i as i64 * slot
}

fn region_for(c: &Cell) -> (r: ClickRegion)
    ensures
        r == region_of(*c),
{
    ClickRegion {
        x_start: c.draw_x as i64,
        x_end: c.draw_x as i64 + c.draw_width as i64,
        handle: c.handle,
    }
}

impl PanelState {
    /// The tray holds each window once.
    pub open spec fn wf(&self) -> bool {
        self.tray@.no_duplicates()
    }

    pub fn new(width: u32) -> (r: PanelState)
        ensures
            r.wf(),
            r.width == width,
            r.cache@ == Map::<u32, crate::cache::WindowEntry>::empty(),
            r.tray@.len() == 0,
            r.regions@.len() == 0,
            r.pointer_x is None,
            r.hovered is None,
            r.last_clock@.len() == 0,
    {
        PanelState {
            width,
            cache: WindowCache::new(),
            tray: Vec::new(),
            regions: Vec::new(),
            pointer_x: None,
            hovered: None,
            last_clock: String::new(),
        }
    }

    /// The window whose click region contains `x`, if any.
    pub fn hovered_at(&self, x: i64) -> (r: Option<u32>)
        ensures
            r == region_at(self.regions@, x),
    {
        let n = self.regions.len();
        let mut i: usize = 0;
        assert(self.regions@.subrange(0, n as int) =~= self.regions@);
        while i < n
            invariant
                n == self.regions@.len(),
                i <= n,
                region_at(self.regions@, x) == region_at(self.regions@.subrange(i as int, n as int), x),
            decreases n - i,
        {
            let r = self.regions[i];
            proof {
                let rest = self.regions@.subrange(i as int, n as int);
                assert(rest.drop_first() =~= self.regions@.subrange(i + 1, n as int));
                assert(rest[0] == r);
            }
            if r.x_start <= x && x <= r.x_end {
                return Some(r.handle);
            }
            i = i + 1;
        }
        None
    }

    /// Replaces the click regions with those of a fresh layout.
    pub fn set_regions(&mut self, cells: &Vec<Cell>)
        ensures
            final(self).regions@ == cells@.map_values(|c: Cell| region_of(c)),
            final(self).width == old(self).width,
            final(self).cache@ == old(self).cache@,
            final(self).tray@ == old(self).tray@,
            final(self).pointer_x == old(self).pointer_x,
            final(self).hovered == old(self).hovered,
            final(self).last_clock@ == old(self).last_clock@,
    {
        let mut rs: Vec<ClickRegion> = Vec::new();
        let mut i: usize = 0;
        while i < cells.len()
            invariant
                i <= cells@.len(),
                rs@ == cells@.take(i as int).map_values(|c: Cell| region_of(c)),
            decreases cells@.len() - i,
        {
            rs.push(region_for(&cells[i]));
            assert(rs@ =~= cells@.take(i + 1).map_values(|c: Cell| region_of(c)));
            i = i + 1;
        }
        assert(cells@.take(cells@.len() as int) =~= cells@);
        self.regions = rs;
    }

    /// The windows of the enumerated list that get a cell, in list order.
    pub fn task_windows(&self, listed: &Vec<u32>, own: u32) -> (r: Vec<u32>)
        ensures
            r@ == listed@.filter(|w: u32| is_task(self.cache@, self.tray@, own, w)),
    {
        let mut out: Vec<u32> = Vec::new();
        let mut i: usize = 0;
        while i < listed.len()
            invariant
                i <= listed@.len(),
                out@ == listed@.take(i as int).filter(|w: u32| is_task(self.cache@, self.tray@, own, w)),
            decreases listed@.len() - i,
        {
            let w = listed[i];
            proof {
                assert(listed@.take(i + 1).drop_last() =~= listed@.take(i as int));
                reveal_with_fuel(Seq::filter, 1);
            }
            if w != own && !self.in_tray(w) {
                match self.cache.get(w) {
                    Some(e) => {
                        if !is_denylisted(e.title.as_str()) {
                            out.push(w);
                        }
                    },
                    None => {},
                }
            }
            i = i + 1;
        }
        assert(listed@.take(listed@.len() as int) =~= listed@);
        out
    }

    pub fn in_tray(&self, w: u32) -> (r: bool)
        ensures
            r == self.tray@.contains(w),
    {
        let mut i: usize = 0;
        while i < self.tray.len()
            invariant
                i <= self.tray@.len(),
                forall|j: int| 0 <= j < i ==> self.tray@[j] != w,
            decreases self.tray@.len() - i,
        {
            if self.tray[i] == w {
                return true;
            }
            i = i + 1;
        }
        false
    }

    /// Takes one notification: updates the state, and says whether the panel
    /// must be repainted and what must be sent to the display.
    pub fn handle_event(&mut self, ev: PanelEvent) -> (r: Step)
        requires
            old(self).wf(),
        ensures
            final(self).wf(),
            final(self).width == old(self).width,
            final(self).regions@ == old(self).regions@,
            final(self).last_clock@ == old(self).last_clock@,
            match ev {
                PanelEvent::Exposed | PanelEvent::ClientsChanged => {
                    &&& r == Step { dirty: true, action: Action::Nothing }
                    &&& final(self).cache@ == old(self).cache@
                    &&& final(self).tray@ == old(self).tray@
                    &&& final(self).pointer_x == old(self).pointer_x
                    &&& final(self).hovered == old(self).hovered
                },
                PanelEvent::MetadataChanged { window } => {
                    &&& r == Step { dirty: true, action: Action::Nothing }
                    &&& final(self).cache@ == old(self).cache@.remove(window)
                    &&& final(self).tray@ == old(self).tray@
                    &&& final(self).pointer_x == old(self).pointer_x
                    &&& final(self).hovered == old(self).hovered
                },
                PanelEvent::ButtonPress { x, button } => {
                    &&& r == Step { dirty: true, action: click_action(old(self).regions@, x, button) }
                    &&& final(self).cache@ == old(self).cache@
                    &&& final(self).tray@ == old(self).tray@
                    &&& final(self).pointer_x == old(self).pointer_x
                    &&& final(self).hovered == old(self).hovered
                },
                PanelEvent::Motion { x } => {
                    &&& final(self).cache@ == old(self).cache@
                    &&& final(self).tray@ == old(self).tray@
                    &&& r.action == Action::Nothing
                    &&& (final(self).pointer_x, final(self).hovered, r.dirty) == motion_effect(
                        old(self).pointer_x,
                        old(self).hovered,
                        old(self).regions@,
                        x,
                    )
                },
                PanelEvent::PointerLeft => {
                    &&& final(self).cache@ == old(self).cache@
                    &&& final(self).tray@ == old(self).tray@
                    &&& r.action == Action::Nothing
                    &&& r.dirty == old(self).hovered is Some
                    &&& final(self).hovered is None
                    &&& final(self).pointer_x == (if old(self).hovered is Some {
                        None
                    } else {
                        old(self).pointer_x
                    })
                },
                PanelEvent::Destroyed { window } => {
                    &&& r.action == Action::Nothing
                    &&& r.dirty == (old(self).tray@.contains(window) || old(self).cache@.contains_key(window))
                    &&& final(self).cache@ == old(self).cache@.remove(window)
                    &&& !final(self).tray@.contains(window)
                    &&& (old(self).tray@.contains(window) ==> exists|p: int|
                        0 <= p < old(self).tray@.len() && old(self).tray@[p] == window
                            && final(self).tray@ == old(self).tray@.remove(p))
                    &&& (!old(self).tray@.contains(window) ==> final(self).tray@ == old(self).tray@)
                    &&& final(self).pointer_x == old(self).pointer_x
                    &&& final(self).hovered == old(self).hovered
                },
                PanelEvent::DockRequest { window } => {
                    &&& r.dirty
                    &&& final(self).cache@ == old(self).cache@
                    &&& final(self).pointer_x == old(self).pointer_x
                    &&& final(self).hovered == old(self).hovered
                    &&& if old(self).tray@.contains(window) {
                        &&& r.action == Action::Nothing
                        &&& final(self).tray@ == old(self).tray@
                    } else {
                        &&& r.action == Action::Embed(window)
                        &&& final(self).tray@ == old(self).tray@.push(window)
                    }
                },
            },
    {
        match ev {
            PanelEvent::Exposed | PanelEvent::ClientsChanged => Step {
                dirty: true,
                action: Action::Nothing,
            },
            PanelEvent::MetadataChanged { window } => {
                self.cache.invalidate(window);
                Step { dirty: true, action: Action::Nothing }
            },
            PanelEvent::ButtonPress { x, button } => {
                let action = match self.hovered_at(x) {
                    Some(w) => if button == 1 {
                        Action::Activate(w)
                    } else if button == 3 {
                        Action::Close(w)
                    } else {
                        Action::Nothing
                    },
                    None => Action::Nothing,
                };
                Step { dirty: true, action }
            },
            PanelEvent::Motion { x } => {
                if self.pointer_x == Some(x) {
                    Step { dirty: false, action: Action::Nothing }
                } else {
                    self.pointer_x = Some(x);
                    let now = self.hovered_at(x);
                    let changed = now != self.hovered;
                    self.hovered = now;
                    Step { dirty: changed, action: Action::Nothing }
                }
            },
            PanelEvent::PointerLeft => {
                if self.hovered.is_some() {
                    self.hovered = None;
                    self.pointer_x = None;
                    Step { dirty: true, action: Action::Nothing }
                } else {
                    Step { dirty: false, action: Action::Nothing }
                }
            },
            PanelEvent::Destroyed { window } => {
                let mut dirty = false;
                match self.tray_position(window) {
                    Some(p) => {
                        self.tray.remove(p);
                        proof {
                            assert forall|i: int| 0 <= i < self.tray@.len() implies self.tray@[i]
                                != window by {
                                if i < p {
                                    assert(old(self).tray@[i] == self.tray@[i]);
                                } else {
                                    assert(old(self).tray@[i + 1] == self.tray@[i]);
                                }
                            }
                        }
                        dirty = true;
                    },
                    None => {},
                }
                if self.cache.invalidate(window) {
                    dirty = true;
                }
                Step { dirty, action: Action::Nothing }
            },
            PanelEvent::DockRequest { window } => {
                if self.in_tray(window) {
                    Step { dirty: true, action: Action::Nothing }
                } else {
                    self.tray.push(window);
                    Step { dirty: true, action: Action::Embed(window) }
                }
            },
        }
    }

    fn tray_position(&self, w: u32) -> (r: Option<usize>)
        ensures
            match r {
                Some(p) => p < self.tray@.len() && self.tray@[p as int] == w,
                None => !self.tray@.contains(w),
            },
    {
        let mut i: usize = 0;
        while i < self.tray.len()
            invariant
                i <= self.tray@.len(),
                forall|j: int| 0 <= j < i ==> self.tray@[j] != w,
            decreases self.tray@.len() - i,
        {
            if self.tray[i] == w {
                return Some(i);
            }
            i = i + 1;
        }
        None
    }

    /// Records the clock text of this minute; says whether it differs from
    /// the one last painted.
    pub fn clock_tick(&mut self, now: String) -> (r: bool)
        ensures
            r == (now@ != old(self).last_clock@),
            final(self).last_clock@ == now@,
            final(self).width == old(self).width,
            final(self).cache@ == old(self).cache@,
            final(self).tray@ == old(self).tray@,
            final(self).regions@ == old(self).regions@,
            final(self).pointer_x == old(self).pointer_x,
            final(self).hovered == old(self).hovered,
    {
        if self.last_clock == now {
            false
        } else {
            self.last_clock = now;
            true
        }
    }
}

} // verus!
