//! The state of the program: the live cells, the viewport through which they
//! are seen, the pause flag and the two colors, with the operations that a
//! user's gestures and the frame clock perform on it.

use crate::cells::{cell_at, cells_of, LiveCells};
use crate::engine::update_living_cells;
use crate::input::{Action, Button, Input, Key};
use crate::lattice::{in_lattice, Cell};
use crate::rule::{lattice_part, next_generation};
use crate::view::{
    cell_under, clamp_scale, corner_of, lemma_corners_differ, on_canvas, screen_of_world,
    world_of_screen, Scale, MAX_SCALE, MIN_SCALE,
};
use vstd::prelude::*;

verus! {

/// A color, by its red, green, blue and alpha parts.
#[derive(Clone, Copy, Debug, PartialEq, Eq, Structural)]
pub struct Color {
    pub r: u8,
    pub g: u8,
    pub b: u8,
    pub a: u8,
}

/// A square on the canvas, by its corner pixel and the length of its edge.
#[derive(Clone, Copy, Debug, PartialEq, Eq, Structural)]
pub struct Square {
    pub x: i32,
    pub y: i32,
    pub side: u32,
}

/// An instruction to the renderer: fill `area` with `color`, or the whole
/// canvas where there is no `area`.
#[derive(Clone, Copy, Debug, PartialEq, Eq)]
pub struct Fill {
    pub area: Option<Square>,
    pub color: Color,
}

/// What a `State` holds, in mathematical terms.
pub struct StateView {
    pub fill_color: Color,
    pub draw_color: Color,
    pub pause: bool,
    pub scale: int,
    pub translate: (int, int),
    pub living_cells: Set<Cell>,
}

impl StateView {
    /// What every `State` satisfies: the scale is admissible, the pan offset
    /// is a pair of `i32`, and the live cells are finitely many cells of the
    /// lattice.
    pub open spec fn wf(self) -> bool {
        &&& MIN_SCALE <= self.scale <= MAX_SCALE
        &&& on_canvas(self.translate)
        &&& self.living_cells.finite()
        &&& forall|c: Cell| #[trigger] self.living_cells.contains(c) ==> in_lattice(c)
    }

    /// The cell under the pixel `(x, y)`.
    pub open spec fn cell_under(self, x: int, y: int) -> Cell {
        world_of_screen(self.scale, self.translate, (x, y))
    }

    /// The corner pixel of the cell `c`.
    pub open spec fn corner_of(self, c: Cell) -> (int, int) {
        screen_of_world(self.scale, self.translate, c)
    }

    /// Whether the cell `c` is live and its corner pixel is on the canvas.
    pub open spec fn shows(self, c: Cell) -> bool {
        self.living_cells.contains(c) && on_canvas(self.corner_of(c))
    }

    /// The instruction that draws the cell `c`: a square of `scale` pixels at
    /// the cell's corner, in the color of live cells.
    pub open spec fn fill_of(self, c: Cell) -> Fill {
        Fill {
            area: Some(
                Square {
                    x: self.corner_of(c).0 as i32,
                    y: self.corner_of(c).1 as i32,
                    side: self.scale as u32,
                },
            ),
            color: self.draw_color,
        }
    }

    /// The instructions that draw the cells: one for each live cell whose
    /// corner pixel is on the canvas.
    pub open spec fn cell_fills(self) -> Set<Fill> {
        Set::new(|fill: Fill| exists|c: Cell| #[trigger] self.shows(c) && fill == self.fill_of(c))
    }

    /// The state after the cell under the pixel `(x, y)` was made live. The
    /// lattice has no other cells than its own: a pixel over none of them
    /// changes nothing.
    pub open spec fn insert_cell(self, x: int, y: int) -> StateView {
        if in_lattice(self.cell_under(x, y)) {
            StateView { living_cells: self.living_cells.insert(self.cell_under(x, y)), ..self }
        } else {
            self
        }
    }

    /// The state after the cell under the pixel `(x, y)` was made dead.
    pub open spec fn remove_cell(self, x: int, y: int) -> StateView {
        StateView { living_cells: self.living_cells.remove(self.cell_under(x, y)), ..self }
    }

    /// The state after the view was moved by `(dx, dy)` pixels.
    pub open spec fn pan(self, dx: int, dy: int) -> StateView {
        StateView { translate: (self.translate.0 + dx, self.translate.1 + dy), ..self }
    }

    /// The state after the scale was changed by `z`.
    pub open spec fn change_zoom_by(self, z: int) -> StateView {
        StateView { scale: clamp_scale(self.scale + z), ..self }
    }

    /// The state after the scale was set to `z`.
    pub open spec fn change_zoom_to(self, z: int) -> StateView {
        StateView { scale: clamp_scale(z), ..self }
    }

    /// The state after every cell was made dead.
    pub open spec fn reset(self) -> StateView {
        StateView { living_cells: Set::empty(), ..self }
    }

    /// The state after the pause flag was flipped.
    pub open spec fn toggle_pause(self) -> StateView {
        StateView { pause: !self.pause, ..self }
    }

    /// The state after one tick: unchanged while paused, else with the live
    /// cells replaced by their next generation, as far as the lattice holds
    /// it.
    pub open spec fn update(self) -> StateView {
        if self.pause {
            self
        } else {
            StateView { living_cells: lattice_part(next_generation(self.living_cells)), ..self }
        }
    }

    /// The state after `n` ticks.
    pub open spec fn updates(self, n: nat) -> StateView
        decreases n,
    {
        if n == 0 {
            self
        } else {
            self.update().updates((n - 1) as nat)
        }
    }

    /// Different cells whose corner pixels are on the canvas are drawn by
    /// different instructions.
    pub proof fn lemma_fills_differ(self, a: Cell, b: Cell)
        requires
            self.scale >= 1,
            a != b,
            on_canvas(self.corner_of(a)),
            on_canvas(self.corner_of(b)),
        ensures
            self.fill_of(a) != self.fill_of(b),
    {
        lemma_corners_differ(self.scale, self.translate, a, b);
    }

    /// Zoom clamping: from whatever scale and by whatever amount the scale is
    /// changed, or to whatever value it is set, the scale that results is
    /// admissible. So it stays admissible however often it is changed.
    pub proof fn lemma_zoom_clamped(self, z: int)
        ensures
            MIN_SCALE <= self.change_zoom_by(z).scale <= MAX_SCALE,
            MIN_SCALE <= self.change_zoom_to(z).scale <= MAX_SCALE,
            self.wf() ==> self.change_zoom_by(z).wf() && self.change_zoom_to(z).wf(),
    {
    }

    /// Making a cell live that is live already changes nothing.
    pub proof fn lemma_insert_cell_present(self, x: int, y: int)
        ensures
            self.living_cells.contains(self.cell_under(x, y)) ==> self.insert_cell(x, y) == self,
    {
        assert(self.living_cells.contains(self.cell_under(x, y)) ==> self.insert_cell(
            x,
            y,
        ).living_cells =~= self.living_cells);
    }

    /// Making the same cell live twice is as making it live once.
    pub proof fn lemma_insert_cell_twice(self, x: int, y: int)
        ensures
            self.insert_cell(x, y).insert_cell(x, y) == self.insert_cell(x, y),
    {
        self.insert_cell(x, y).lemma_insert_cell_present(x, y);
    }

    /// Making a cell dead that is dead already changes nothing.
    pub proof fn lemma_remove_cell_absent(self, x: int, y: int)
        requires
            !self.living_cells.contains(self.cell_under(x, y)),
        ensures
            self.remove_cell(x, y) == self,
    {
        assert(self.remove_cell(x, y).living_cells =~= self.living_cells);
    }

    /// Pause freezes the simulation: while the pause flag is set, no number
    /// of ticks changes the state.
    pub proof fn lemma_pause_freezes(self, n: nat)
        requires
            self.pause,
        ensures
            self.updates(n) == self,
        decreases n,
    {
        if n > 0 {
            self.lemma_pause_freezes((n - 1) as nat);
        }
    }

    /// Edits apply while paused as they do otherwise: the cell under the
    /// pixel, where the lattice has one, is live after it was made live; it is
    /// dead after it was made dead; and the pause flag stays as it was.
    pub proof fn lemma_edits_apply(self, x: int, y: int)
        ensures
            in_lattice(self.cell_under(x, y)) ==> self.insert_cell(x, y).living_cells.contains(
                self.cell_under(x, y),
            ),
            !self.remove_cell(x, y).living_cells.contains(self.cell_under(x, y)),
            self.insert_cell(x, y).pause == self.pause,
            self.remove_cell(x, y).pause == self.pause,
    {
    }

    /// After a reset no cell is live, whatever was live before.
    pub proof fn lemma_reset_clears(self)
        ensures
            self.reset().living_cells == Set::<Cell>::empty(),
    {
    }
}

/// The program's state.
pub struct State {
    fill_color: Color,
    draw_color: Color,
    pause: bool,
    scale: Scale,
    translate: (i32, i32),
    living_cells: LiveCells,
}

impl View for State {
    type V = StateView;

    closed spec fn view(&self) -> StateView {
        StateView {
            fill_color: self.fill_color,
            draw_color: self.draw_color,
            pause: self.pause,
            scale: self.scale@,
            translate: (self.translate.0 as int, self.translate.1 as int),
            living_cells: self.living_cells@,
        }
    }
}

impl State {
    /// A state that holds what it is given. A `scale` outside the admissible
    /// range is clamped into it.
    pub fn new(
        fill_color: Color,
        draw_color: Color,
        pause: bool,
        scale: i32,
        translate: (i32, i32),
        living_cells: LiveCells,
    ) -> (state: State)
        ensures
            state@ == (StateView {
                fill_color,
                draw_color,
                pause,
                scale: clamp_scale(scale as int),
                translate: (translate.0 as int, translate.1 as int),
                living_cells: living_cells@,
            }),
            state@.wf(),
    {
        proof {
            living_cells.lemma_view();
        }
        State {
            fill_color,
            draw_color,
            pause,
            scale: Scale::clamped(scale as i64),
            translate,
            living_cells,
        }
    }

    /// The color that the background is filled with.
    pub fn fill_color(&self) -> (color: Color)
        ensures
            color == self@.fill_color,
    {
        self.fill_color
    }

    /// The color that a live cell is drawn in.
    pub fn draw_color(&self) -> (color: Color)
        ensures
            color == self@.draw_color,
    {
        self.draw_color
    }

    /// Whether the simulation is paused.
    pub fn is_paused(&self) -> (pause: bool)
        ensures
            pause == self@.pause,
    {
        self.pause
    }

    /// The zoom scale, in pixels per cell edge.
    pub fn scale(&self) -> (scale: i32)
        ensures
            scale == self@.scale,
            MIN_SCALE <= scale <= MAX_SCALE,
    {
        self.scale.pixels()
    }

    /// The pan offset: the pixel at which the corner of the cell `(0, 0)` lies.
    pub fn translate(&self) -> (translate: (i32, i32))
        ensures
            (translate.0 as int, translate.1 as int) == self@.translate,
    {
        self.translate
    }

    /// The live cells.
    pub fn living_cells(&self) -> (cells: &LiveCells)
        ensures
            cells@ == self@.living_cells,
            self@.wf(),
    {
        proof {
            use_type_invariant(&self.scale);
            self.living_cells.lemma_view();
        }
        &self.living_cells
    }

    /// Makes the cell under the pixel `(x, y)` live.
    pub fn insert_cell(&mut self, x: i32, y: i32)
        ensures
            final(self)@ == old(self)@.insert_cell(x as int, y as int),
            old(self)@.living_cells.contains(old(self)@.cell_under(x as int, y as int))
                ==> final(self)@ == old(self)@,
            final(self)@.wf(),
    {
        let w = cell_under(self.scale, self.translate, (x, y));
        if -0x8000_0000 <= w.0 && w.0 <= 0x7fff_ffff && -0x8000_0000 <= w.1 && w.1 <= 0x7fff_ffff {
            self.living_cells.insert((w.0 as i32, w.1 as i32));
        }
        proof {
            use_type_invariant(&self.scale);
            self.living_cells.lemma_view();
            old(self)@.lemma_insert_cell_present(x as int, y as int);
        }
    }

    /// Makes the cell under the pixel `(x, y)` dead.
    pub fn remove_cell(&mut self, x: i32, y: i32)
        ensures
            final(self)@ == old(self)@.remove_cell(x as int, y as int),
            !old(self)@.living_cells.contains(old(self)@.cell_under(x as int, y as int))
                ==> final(self)@ == old(self)@,
            final(self)@.wf(),
    {
        proof {
            self.living_cells.lemma_view();
        }
        let w = cell_under(self.scale, self.translate, (x, y));
        if -0x8000_0000 <= w.0 && w.0 <= 0x7fff_ffff && -0x8000_0000 <= w.1 && w.1 <= 0x7fff_ffff {
            self.living_cells.remove(&(w.0 as i32, w.1 as i32));
        } else {
            assert(self.living_cells@.remove((w.0 as int, w.1 as int)) =~= self.living_cells@);
        }
        proof {
            use_type_invariant(&self.scale);
            self.living_cells.lemma_view();
            if !old(self)@.living_cells.contains(old(self)@.cell_under(x as int, y as int)) {
                old(self)@.lemma_remove_cell_absent(x as int, y as int);
            }
        }
    }

    /// Moves the view by `(dx, dy)` pixels.
    pub fn pan(&mut self, dx: i32, dy: i32)
        requires
            on_canvas(old(self)@.pan(dx as int, dy as int).translate),
        ensures
            final(self)@ == old(self)@.pan(dx as int, dy as int),
            final(self)@.wf(),
    {
        proof {
            use_type_invariant(&self.scale);
            self.living_cells.lemma_view();
        }
        self.translate = (self.translate.0 + dx, self.translate.1 + dy);
    }

    /// Changes the scale by `z`, clamped into the admissible range.
    pub fn change_zoom_by(&mut self, z: i32)
        ensures
            final(self)@ == old(self)@.change_zoom_by(z as int),
            MIN_SCALE <= final(self)@.scale <= MAX_SCALE,
            final(self)@.wf(),
    {
        proof {
            self.living_cells.lemma_view();
        }
        self.scale = Scale::clamped(self.scale.pixels() as i64 + z as i64);
    }

    /// Sets the scale to `z`, clamped into the admissible range.
    pub fn change_zoom_to(&mut self, z: i32)
        ensures
            final(self)@ == old(self)@.change_zoom_to(z as int),
            MIN_SCALE <= final(self)@.scale <= MAX_SCALE,
            final(self)@.wf(),
    {
        proof {
            self.living_cells.lemma_view();
        }
        self.scale = Scale::clamped(z as i64);
    }

    /// Makes every cell dead.
    pub fn reset(&mut self)
        ensures
            final(self)@ == old(self)@.reset(),
            final(self)@.living_cells == Set::<Cell>::empty(),
            final(self)@.wf(),
    {
        proof {
            use_type_invariant(&self.scale);
        }
        self.living_cells = LiveCells::new();
    }

    /// Flips the pause flag.
    pub fn toggle_pause(&mut self)
        ensures
            final(self)@ == old(self)@.toggle_pause(),
            final(self)@.wf(),
    {
        proof {
            use_type_invariant(&self.scale);
            self.living_cells.lemma_view();
        }
        self.pause = !self.pause;
    }

    /// One tick of the frame clock: advances the live cells by one
    /// generation, unless the simulation is paused.
    pub fn update(&mut self)
        ensures
            final(self)@ == old(self)@.update(),
            old(self)@.pause ==> final(self)@ == old(self)@,
            final(self)@.wf(),
    {
        proof {
            use_type_invariant(&self.scale);
            self.living_cells.lemma_view();
        }
        if self.pause {
            return ;
        }
        update_living_cells(&mut self.living_cells);
        proof {
            self.living_cells.lemma_view();
        }
    }

    /// The cell under the pixel `point`.
    pub fn screen_to_world(&self, point: (i32, i32)) -> (cell: (i32, i32))
        requires
            in_lattice(self@.cell_under(point.0 as int, point.1 as int)),
        ensures
            cell_at(cell) == self@.cell_under(point.0 as int, point.1 as int),
    {
        let w = cell_under(self.scale, self.translate, point);
        (w.0 as i32, w.1 as i32)
    }

    /// The corner pixel of the cell `cell`.
    pub fn world_to_screen(&self, cell: (i32, i32)) -> (point: (i32, i32))
        requires
            on_canvas(self@.corner_of(cell_at(cell))),
        ensures
            (point.0 as int, point.1 as int) == self@.corner_of(cell_at(cell)),
    {
        let p = corner_of(self.scale, self.translate, cell);
        (p.0 as i32, p.1 as i32)
    }

    /// The frame to render: first the whole canvas filled with the background
    /// color, then the instructions that draw the cells, each once, in no
    /// particular order.
    #[verifier::spinoff_prover]
    pub fn draw(&self) -> (fills: Vec<Fill>)
        ensures
            fills@.len() >= 1,
            fills@[0] == (Fill { area: None, color: self@.fill_color }),
            fills@.skip(1).no_duplicates(),
            fills@.skip(1).to_set() == self@.cell_fills(),
    {
        let scale = self.scale.pixels();
        let list = self.living_cells.cells();
        let mut fills: Vec<Fill> = Vec::new();
        fills.push(Fill { area: None, color: self.fill_color });
        // For each instruction the place in `list` of the cell it draws, and
        // for each cell in `list` the place of the instruction that draws it.
        let ghost mut origin: Seq<int> = seq![-1int];
        let ghost mut slot: Seq<int> = Seq::empty();
        let mut i: usize = 0;
        while i < list.len()
            invariant
                0 <= i <= list.len(),
                scale == self@.scale,
                MIN_SCALE <= scale <= MAX_SCALE,
                fills@.len() == origin.len(),
                fills@.len() >= 1,
                slot.len() == i,
                cells_of(list@) == self@.living_cells,
                fills@[0] == (Fill { area: None, color: self@.fill_color }),
                forall|k: int|
                    1 <= k < origin.len() ==> 0 <= #[trigger] origin[k] < i && slot[origin[k]]
                        == k,
                forall|j: int|
                    0 <= j < i ==> if self@.shows(cell_at(list@[j])) {
                        1 <= #[trigger] slot[j] < fills@.len() && origin[slot[j]] == j
                            && fills@[slot[j]] == self@.fill_of(cell_at(list@[j]))
                    } else {
                        slot[j] == 0
                    },
            decreases list.len() - i,
        {
            let p = corner_of(self.scale, self.translate, list[i]);
            assert(cells_of(list@).contains(cell_at(list@[i as int])));
            if -0x8000_0000 <= p.0 && p.0 <= 0x7fff_ffff && -0x8000_0000 <= p.1 && p.1
                <= 0x7fff_ffff {
                let square = Square { x: p.0 as i32, y: p.1 as i32, side: scale as u32 };
                proof {
                    origin = origin.push(i as int);
                    slot = slot.push(fills@.len() as int);
                }
                fills.push(Fill { area: Some(square), color: self.draw_color });
            } else {
                proof {
                    slot = slot.push(0);
                }
            }
            i += 1;
        }
        proof {
            let rest = fills@.skip(1);
            assert forall|k: int, l: int| 0 <= k < l < rest.len() implies rest[k] != rest[l] by {
                let a = cell_at(list@[origin[k + 1]]);
                let b = cell_at(list@[origin[l + 1]]);
                assert(slot[origin[k + 1]] == k + 1 && slot[origin[l + 1]] == l + 1);
                assert(list@[origin[k + 1]] != list@[origin[l + 1]]);
                assert(self@.shows(a) && self@.shows(b));
                self@.lemma_fills_differ(a, b);
            }
            assert forall|fill: Fill| rest.to_set().contains(fill) implies self@.cell_fills()
                .contains(fill) by {
                let k = choose|k: int| 0 <= k < rest.len() && rest[k] == fill;
                let j = origin[k + 1];
                assert(slot[j] == k + 1);
                assert(self@.shows(cell_at(list@[j])));
            }
            assert forall|fill: Fill| self@.cell_fills().contains(fill) implies rest.to_set()
                .contains(fill) by {
                let c = choose|c: Cell| #[trigger] self@.shows(c) && fill == self@.fill_of(c);
                let j = choose|j: int| 0 <= j < list@.len() && cell_at(#[trigger] list@[j]) == c;
                assert(rest[slot[j] - 1] == fill);
            }
            assert(rest.to_set() =~= self@.cell_fills());
        }
        fills
    }

    /// Whether `handle` takes `input` in this state.
    pub fn admits(&self, input: &Input) -> (ok: bool)
        ensures
            ok == self@.admits(*input),
    {
        match input {
            Input::PointerMove { held, dx, dy, .. } => {
                if !held.left && !held.right && held.middle {
                    let tx: i64 = self.translate.0 as i64 + *dx as i64;
                    let ty: i64 = self.translate.1 as i64 + *dy as i64;
                    -0x8000_0000 <= tx && tx <= 0x7fff_ffff && -0x8000_0000 <= ty && ty
                        <= 0x7fff_ffff
                } else {
                    true
                }
            },
            _ => true,
        }
    }

    /// Takes one input of the host, and says what the host is to do.
    pub fn handle(&mut self, input: Input) -> (action: Action)
        requires
            old(self)@.admits(input),
        ensures
            (final(self)@, action) == old(self)@.react(input),
            final(self)@.wf(),
    {
        proof {
            use_type_invariant(&self.scale);
            self.living_cells.lemma_view();
        }
        match input {
            Input::Quit => Action::Quit,
            Input::KeyDown { key } => match key {
                Key::Escape => Action::Quit,
                Key::Space => {
                    self.toggle_pause();
                    Action::Continue
                },
                Key::C => {
                    self.reset();
                    Action::Continue
                },
                Key::F => Action::ToggleFullscreen,
                Key::Other => Action::Continue,
            },
            Input::PointerDown { button, x, y } => {
                match button {
                    Button::Left => self.insert_cell(x, y),
                    Button::Right => self.remove_cell(x, y),
                    _ => {},
                }
                Action::Continue
            },
            Input::PointerMove { held, x, y, dx, dy } => {
                if held.left {
                    self.insert_cell(x, y);
                } else if held.right {
                    self.remove_cell(x, y);
                } else if held.middle {
                    self.pan(dx, dy);
                }
                Action::Continue
            },
            Input::Scroll { y } => {
                if y > 0 {
                    self.change_zoom_by(1);
                } else if y < 0 {
                    self.change_zoom_by(-1);
                }
                Action::Continue
            },
        }
    }
}

} // verus!
