use vstd::prelude::*;
use crate::color::Rgb;
use crate::grid::{cell_spec, GridCell, PolarGrid};

verus! {

/// A pointer button that paints.
#[derive(Clone, Copy, Debug, PartialEq, Eq, Structural)]
pub enum Button {
    Primary,
    Secondary,
}

/// One input event, in the order the window delivered it.
///
/// A pointer move carries the pointer's position in window pixels (origin
/// top left, y down) and its angle about the window centre in units of
/// `TURN`, measured by the caller.
#[derive(Clone, Copy, Debug, PartialEq, Eq, Structural)]
pub enum Event {
    Closed,
    PointerMoved { x: i32, y: i32, angle: i64 },
    ClearPressed,
    ButtonPressed(Button),
    ButtonReleased(Button),
    Ignored,
}

/// Disc coordinates of a window pixel: twice its offset from the window
/// centre, y up. With `view_scale` as the unit the shorter side of the
/// window spans `[-1, 1]`, so the disc stays round.
pub open spec fn view_x(px: int, width: int) -> int {
    2 * (px - width / 2)
}

pub open spec fn view_y(py: int, height: int) -> int {
    2 * (height / 2 - py)
}

pub open spec fn view_scale(width: int, height: int) -> int {
    if width < height { width } else { height }
}

/// Disc coordinates `(x, y, scale)` of the window pixel `(px, py)` in a
/// `width` by `height` window: the point `(x / scale, y / scale)`.
pub fn view_point(px: i32, py: i32, width: u32, height: u32) -> (v: (i64, i64, u32))
    ensures
        v.0 == view_x(px as int, width as int),
        v.1 == view_y(py as int, height as int),
        v.2 == view_scale(width as int, height as int),
{
    let x = 2 * (px as i64 - (width / 2) as i64);
    let y = 2 * ((height / 2) as i64 - py as i64);
    let scale = if width < height { width } else { height };
    (x, y, scale)
}

/// The flat index of a cell: ring-major.
pub open spec fn cell_index(na: int, radial: int, angular: int) -> int {
    radial * na + angular
}

/// The colour a paint writes: primary before secondary when both are held.
pub open spec fn active_color(primary_on: bool, primary: Rgb, secondary: Rgb) -> Rgb {
    if primary_on { primary } else { secondary }
}

/// What one paint writes: the cell index and colour, or nothing when no
/// button is held or the pointer is off the disc. It depends on the grid,
/// the pointer, the buttons, the colours and the viewport, never on the
/// cells.
pub open spec fn paint_target(
    grid: PolarGrid,
    px: int,
    py: int,
    angle: int,
    primary_on: bool,
    secondary_on: bool,
    primary: Rgb,
    secondary: Rgb,
    width: int,
    height: int,
) -> Option<(int, Rgb)> {
    if !(primary_on || secondary_on) {
        None
    } else {
        match cell_spec(
            grid.radial_bins as int,
            grid.angular_bins as int,
            view_x(px, width),
            view_y(py, height),
            view_scale(width, height),
            angle,
        ) {
            Some((r, a)) => Some((cell_index(grid.angular_bins as int, r, a), active_color(primary_on, primary, secondary))),
            None => None,
        }
    }
}

pub open spec fn painted_cells(cells: Seq<Rgb>, target: Option<(int, Rgb)>) -> Seq<Rgb> {
    match target {
        Some((i, c)) => if 0 <= i < cells.len() { cells.update(i, c) } else { cells },
        None => cells,
    }
}

/// Painting twice with the same pointer, buttons and colours gives the same
/// cells as painting once.
pub proof fn lemma_paint_idempotent(cells: Seq<Rgb>, target: Option<(int, Rgb)>)
    ensures
        painted_cells(painted_cells(cells, target), target) == painted_cells(cells, target),
{
    match target {
        Some((i, c)) => {
            assert(painted_cells(painted_cells(cells, target), target) =~= painted_cells(cells, target));
        },
        None => {},
    }
}

/// The colour of every cell of a disc, with the pointer and buttons that
/// paint it.
pub struct Painter {
    pub grid: PolarGrid,
    pub cells: Vec<Rgb>,
    pub background: Rgb,
    pub primary_color: Rgb,
    pub secondary_color: Rgb,
    pub pointer_x: i32,
    pub pointer_y: i32,
    pub pointer_angle: i64,
    pub painting_primary: bool,
    pub painting_secondary: bool,
}

impl Painter {
    pub open spec fn wf(&self) -> bool {
        &&& self.grid.wf()
        &&& self.cells@.len() == self.grid.radial_bins as int * self.grid.angular_bins as int
    }

    /// Everything but the cells is as in `other`.
    pub open spec fn same_settings(&self, other: &Painter) -> bool {
        &&& self.grid == other.grid
        &&& self.background == other.background
        &&& self.primary_color == other.primary_color
        &&& self.secondary_color == other.secondary_color
        &&& self.pointer_x == other.pointer_x
        &&& self.pointer_y == other.pointer_y
        &&& self.pointer_angle == other.pointer_angle
        &&& self.painting_primary == other.painting_primary
        &&& self.painting_secondary == other.painting_secondary
    }

    pub open spec fn target(&self, width: int, height: int) -> Option<(int, Rgb)> {
        paint_target(
            self.grid,
            self.pointer_x as int,
            self.pointer_y as int,
            self.pointer_angle as int,
            self.painting_primary,
            self.painting_secondary,
            self.primary_color,
            self.secondary_color,
            width,
            height,
        )
    }

    /// A disc of `grid`'s cells, all `background`, with no button held and
    /// the pointer at the window's corner.
    pub fn new(grid: PolarGrid, background: Rgb, primary_color: Rgb, secondary_color: Rgb) -> (p: Painter)
        requires
            grid.wf(),
            grid.radial_bins as int * grid.angular_bins as int <= usize::MAX,
        ensures
            p.wf(),
            p.grid == grid,
            p.cells@ == Seq::new(p.cells@.len(), |i: int| background),
            p.background == background,
            p.primary_color == primary_color,
            p.secondary_color == secondary_color,
            p.pointer_x == 0 && p.pointer_y == 0 && p.pointer_angle == 0,
            !p.painting_primary && !p.painting_secondary,
    {
        let n = grid.radial_bins as usize * grid.angular_bins as usize;
        let mut cells: Vec<Rgb> = Vec::with_capacity(n);
        let mut i: usize = 0;
        while i < n
            invariant
                i <= n,
                cells@ == Seq::new(i as nat, |j: int| background),
            decreases n - i,
        {
            cells.push(background);
            i = i + 1;
            assert(cells@ =~= Seq::new(i as nat, |j: int| background));
        }
        Painter {
            grid,
            cells,
            background,
            primary_color,
            secondary_color,
            pointer_x: 0,
            pointer_y: 0,
            pointer_angle: 0,
            painting_primary: false,
            painting_secondary: false,
        }
    }

    /// Flat index of a cell of the grid.
    pub fn index(&self, cell: GridCell) -> (i: usize)
        requires
            self.wf(),
            cell.radial_index < self.grid.radial_bins,
            cell.angular_index < self.grid.angular_bins,
        ensures
            i as int == cell_index(self.grid.angular_bins as int, cell.radial_index as int, cell.angular_index as int),
            i < self.cells@.len(),
    {
        let len = self.cells.len();
        let na = self.grid.angular_bins as usize;
        let r = cell.radial_index as usize;
        let nr = self.grid.radial_bins as usize;
        assert(r * na + cell.angular_index < nr * na) by (nonlinear_arith)
            requires r < nr, cell.angular_index < na;
        assert(nr * na == len);
        assert(r * na <= nr * na) by (nonlinear_arith)
            requires r < nr;
        r * na + cell.angular_index as usize
    }

    /// Paints the cell under the pointer in the colour of the held button
    /// (primary first); does nothing when no button is held or the pointer
    /// is off the disc. The window is `width` by `height` pixels.
    pub fn paint(&mut self, width: u32, height: u32)
        requires
            old(self).wf(),
        ensures
            final(self).wf(),
            final(self).same_settings(old(self)),
            final(self).cells@ == painted_cells(old(self).cells@, old(self).target(width as int, height as int)),
    {
        if !(self.painting_primary || self.painting_secondary) {
            return;
        }
        let (x, y, scale) = view_point(self.pointer_x, self.pointer_y, width, height);
        match self.grid.cell_at(x, y, scale, self.pointer_angle) {
            None => {},
            Some(cell) => {
                let i = self.index(cell);
                let color = if self.painting_primary { self.primary_color } else { self.secondary_color };
                self.cells.set(i, color);
            },
        }
    }

    /// Sets every cell to the background colour.
    pub fn clear(&mut self)
        requires
            old(self).wf(),
        ensures
            final(self).wf(),
            final(self).same_settings(old(self)),
            final(self).cells@ == Seq::new(old(self).cells@.len(), |i: int| old(self).background),
    {
        let n = self.cells.len();
        let mut i: usize = 0;
        while i < n
            invariant
                i <= n,
                n == self.cells@.len(),
                self.wf(),
                self.same_settings(old(self)),
                self.cells@.len() == old(self).cells@.len(),
                forall|j: int| 0 <= j < i ==> self.cells@[j] == old(self).background,
            decreases n - i,
        {
            let b = self.background;
            self.cells.set(i, b);
            i = i + 1;
        }
        assert(self.cells@ =~= Seq::new(old(self).cells@.len(), |i: int| old(self).background));
    }

    /// Handles one input event in a `width` by `height` window, and says
    /// whether to keep running (false only when the window closed).
    ///
    /// A pointer move records the pointer and paints under it while a
    /// button is held; a press holds its button and paints at once; a
    /// release lets its button go; the clear key resets every cell.
    pub fn handle(&mut self, event: Event, width: u32, height: u32) -> (running: bool)
        requires
            old(self).wf(),
        ensures
            final(self).wf(),
            running <==> !(event is Closed),
            final(self).grid == old(self).grid,
            final(self).background == old(self).background,
            final(self).primary_color == old(self).primary_color,
            final(self).secondary_color == old(self).secondary_color,
            match event {
                Event::Closed | Event::Ignored => {
                    &&& final(self).same_settings(old(self))
                    &&& final(self).cells@ == old(self).cells@
                },
                Event::PointerMoved { x, y, angle } => {
                    &&& final(self).pointer_x == x
                    &&& final(self).pointer_y == y
                    &&& final(self).pointer_angle == angle
                    &&& final(self).painting_primary == old(self).painting_primary
                    &&& final(self).painting_secondary == old(self).painting_secondary
                    &&& final(self).cells@ == painted_cells(old(self).cells@, final(self).target(width as int, height as int))
                },
                Event::ClearPressed => {
                    &&& final(self).same_settings(old(self))
                    &&& final(self).cells@ == Seq::new(old(self).cells@.len(), |i: int| old(self).background)
                },
                Event::ButtonPressed(b) => {
                    &&& final(self).pointer_x == old(self).pointer_x
                    &&& final(self).pointer_y == old(self).pointer_y
                    &&& final(self).pointer_angle == old(self).pointer_angle
                    &&& final(self).painting_primary == (old(self).painting_primary || b == Button::Primary)
                    &&& final(self).painting_secondary == (old(self).painting_secondary || b == Button::Secondary)
                    &&& final(self).cells@ == painted_cells(old(self).cells@, final(self).target(width as int, height as int))
                },
                Event::ButtonReleased(b) => {
                    &&& final(self).pointer_x == old(self).pointer_x
                    &&& final(self).pointer_y == old(self).pointer_y
                    &&& final(self).pointer_angle == old(self).pointer_angle
                    &&& final(self).painting_primary == (old(self).painting_primary && b != Button::Primary)
                    &&& final(self).painting_secondary == (old(self).painting_secondary && b != Button::Secondary)
                    &&& final(self).cells@ == old(self).cells@
                },
            },
    {
        match event {
            Event::Closed => false,
            Event::Ignored => true,
            Event::PointerMoved { x, y, angle } => {
                self.pointer_x = x;
                self.pointer_y = y;
                self.pointer_angle = angle;
                self.paint(width, height);
                true
            },
            Event::ClearPressed => {
                self.clear();
                true
            },
            Event::ButtonPressed(b) => {
                match b {
                    Button::Primary => self.painting_primary = true,
                    Button::Secondary => self.painting_secondary = true,
                }
                self.paint(width, height);
                true
            },
            Event::ButtonReleased(b) => {
                match b {
                    Button::Primary => self.painting_primary = false,
                    Button::Secondary => self.painting_secondary = false,
                }
                true
            },
        }
    }
}

} // verus!
