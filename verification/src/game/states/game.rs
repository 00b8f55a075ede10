use vstd::prelude::*;

verus! {

/// A screen rectangle for the UI renderer: its corner and its size, in pixels.
#[derive(Clone, Copy, Debug, PartialEq, Eq, Structural)]
pub struct UiRect {
    pub x: u16,
    pub y: u16,
    pub w: u16,
    pub h: u16,
}

/// Colour of the crosshair bars.
pub const CROSSHAIR_COLOR: u32 = 0x99_99_99_FF;

/// Colour of the debug overlay's background panel.
pub const OVERLAY_PANEL_COLOR: u32 = 0x22_22_22_88;

/// Colour of the debug overlay's text.
pub const OVERLAY_TEXT_COLOR: u32 = 0xFF_FF_FF_FF;

/// The two bars of the crosshair for a window of the given size: a
/// horizontal bar of 24 by 2 and a vertical bar of 2 by 24, both centred on
/// the window's middle. The size is taken as `u16`, as the UI renderer
/// works in 16-bit pixel coordinates; each half has to be at least 12.
pub fn crosshair_rects(width: u32, height: u32) -> (bars: (UiRect, UiRect))
    requires
        (width as u16) / 2 >= 12,
        (height as u16) / 2 >= 12,
    ensures
        bars.0 == (UiRect { x: ((width as u16) / 2 - 12) as u16, y: ((height as u16) / 2 - 1) as u16, w: 24, h: 2 }),
        bars.1 == (UiRect { x: ((width as u16) / 2 - 1) as u16, y: ((height as u16) / 2 - 12) as u16, w: 2, h: 24 }),
{
    let w: u16 = width as u16;
    let h: u16 = height as u16;
    (UiRect { x: w / 2 - 12, y: h / 2 - 1, w: 24, h: 2 }, UiRect {
        x: w / 2 - 1,
        y: h / 2 - 12,
        w: 2,
        h: 24,
    })
}

/// A screen position for the UI renderer, in pixels.
#[derive(Clone, Copy, Debug, PartialEq, Eq, Structural)]
pub struct UiPoint {
    pub x: u16,
    pub y: u16,
}

/// Where the debug overlay in the bottom-left corner goes.
#[derive(Clone, Copy, Debug, PartialEq, Eq, Structural)]
pub struct OverlayLayout {
    /// The background panel.
    pub panel: UiRect,
    /// Where the line that shows the text-input mode starts.
    pub mode_text: UiPoint,
    /// Where the line that shows the camera position starts.
    pub position_text: UiPoint,
}

/// The layout of the debug overlay for a window of the given height (taken
/// as `u16`, at least 90): the panel starts at `(8, h - 90)` and is given
/// the extent `(350, h - 8)`, the text-mode line starts at `(10, h - 30)`
/// and the position line at `(10, h - 60)`.
pub fn overlay_layout(height: u32) -> (layout: OverlayLayout)
    requires
        (height as u16) >= 90,
    ensures
        layout.panel == (UiRect { x: 8, y: ((height as u16) - 90) as u16, w: 350, h: ((height as u16) - 8) as u16 }),
        layout.mode_text == (UiPoint { x: 10, y: ((height as u16) - 30) as u16 }),
        layout.position_text == (UiPoint { x: 10, y: ((height as u16) - 60) as u16 }),
{
    let h: u16 = height as u16;
    OverlayLayout {
        panel: UiRect { x: 8, y: h - 90, w: 350, h: h - 8 },
        mode_text: UiPoint { x: 10, y: h - 30 },
        position_text: UiPoint { x: 10, y: h - 60 },
    }
}

/// The kinds of window and device events the game state reacts to.
#[derive(Clone, Copy, Debug, PartialEq, Eq, Structural)]
pub enum GameEvent {
    /// The window was resized.
    Resized,
    /// The mouse moved.
    MouseMotion,
    /// The Escape key was pressed.
    EscapePressed,
    /// Anything else.
    Other,
}

/// What the game state does with an event.
#[derive(Clone, Copy, Debug, PartialEq, Eq, Structural)]
pub enum EventAction {
    /// Fit the camera and the chat to the new window size.
    ResizeViews,
    /// Turn the camera by the mouse movement.
    RotateCamera,
    /// Leave the game.
    Exit,
    /// Nothing.
    Ignore,
}

/// The game state's reaction to an event: a resize refits the views, mouse
/// movement turns the camera unless the chat is open, Escape leaves the
/// game, and everything else is ignored.
pub fn event_action(event: GameEvent, chat_open: bool) -> (action: EventAction)
    ensures
        action == match event {
            GameEvent::Resized => EventAction::ResizeViews,
            GameEvent::MouseMotion => if chat_open {
                EventAction::Ignore
            } else {
                EventAction::RotateCamera
            },
            GameEvent::EscapePressed => EventAction::Exit,
            GameEvent::Other => EventAction::Ignore,
        },
{
    match event {
        GameEvent::Resized => EventAction::ResizeViews,
        GameEvent::MouseMotion => {
            if !chat_open {
                EventAction::RotateCamera
            } else {
                EventAction::Ignore
            }
        },
        GameEvent::EscapePressed => EventAction::Exit,
        GameEvent::Other => EventAction::Ignore,
    }
}

/// Cells of the debug grid along each axis; the grid spans
/// `-50 .. 50` in both x and z.
pub const GRID_CELLS_PER_AXIS: i32 = 100;

/// Number of corners the debug grid emits: two triangles per cell.
pub const GRID_CORNER_COUNT: usize = 60000;

/// Corner `k` (0 to 5) of the cell whose lower corner is `(x, z)`, as the
/// two triangles `(x, z), (x, z + 1), (x + 1, z)` and
/// `(x + 1, z), (x, z + 1), (x + 1, z + 1)` list them.
pub open spec fn cell_corner(x: int, z: int, k: int) -> (int, int) {
    if k == 0 {
        (x, z)
    } else if k == 1 {
        (x, z + 1)
    } else if k == 2 {
        (x + 1, z)
    } else if k == 3 {
        (x + 1, z)
    } else if k == 4 {
        (x, z + 1)
    } else {
        (x + 1, z + 1)
    }
}

/// The `i`-th corner of the debug grid: cells come in order of x, then z,
/// from -50 to 49, six corners each.
pub open spec fn grid_corner(i: int) -> (int, int) {
    let cell = i / 6;
    cell_corner(cell / 100 - 50, cell % 100 - 50, i % 6)
}

/// Where the corners of the cell with lower corner `(x, z)` start in the
/// debug grid's corner list.
pub open spec fn grid_cell_start(x: int, z: int) -> int {
    6 * (100 * (x + 50) + (z + 50))
}

/// The six corners of a cell, spelled out: the two triangles
/// `(x, z), (x, z + 1), (x + 1, z)` and `(x + 1, z), (x, z + 1), (x + 1, z + 1)`,
/// which together cover the unit square without a degenerate triangle.
pub proof fn lemma_cell_corners_exact(x: int, z: int)
    ensures
        cell_corner(x, z, 0) == (x, z),
        cell_corner(x, z, 1) == (x, z + 1),
        cell_corner(x, z, 2) == (x + 1, z),
        cell_corner(x, z, 3) == (x + 1, z),
        cell_corner(x, z, 4) == (x, z + 1),
        cell_corner(x, z, 5) == (x + 1, z + 1),
        forall|k: int, l: int|
            0 <= k < l < 3 ==> cell_corner(x, z, k) != cell_corner(x, z, l),
        forall|k: int, l: int|
            3 <= k < l < 6 ==> cell_corner(x, z, k) != cell_corner(x, z, l),
{
}

proof fn lemma_grid_corner_index(x: int, z: int, k: int)
    requires
        -50 <= x < 50,
        -50 <= z < 50,
        0 <= k < 6,
    ensures
        grid_corner(6 * (100 * (x + 50) + (z + 50)) + k) == cell_corner(x, z, k),
{
    let cell = 100 * (x + 50) + (z + 50);
    let i = 6 * cell + k;
    vstd::arithmetic::div_mod::lemma_fundamental_div_mod_converse(i, 6, cell, k);
    vstd::arithmetic::div_mod::lemma_fundamental_div_mod_converse(cell, 100, x + 50, z + 50);
}

/// The integer corner positions of the debug grid's triangles, which lie
/// flat at height 0: for each cell from -50 to 49 in x and, within that,
/// in z, the six corners of its two triangles.
pub fn debug_grid_corners() -> (corners: Vec<(i32, i32)>)
    ensures
        corners@.len() == GRID_CORNER_COUNT,
        forall|i: int|
            0 <= i < corners@.len() ==> (#[trigger] corners@[i].0 as int, corners@[i].1 as int)
                == grid_corner(i),
        forall|x: int, z: int|
            #![trigger grid_cell_start(x, z)]
            -50 <= x < 50 && -50 <= z < 50 ==> corners@.subrange(
                grid_cell_start(x, z),
                grid_cell_start(x, z) + 6,
            ) == seq![
                (x as i32, z as i32),
                (x as i32, (z + 1) as i32),
                ((x + 1) as i32, z as i32),
                ((x + 1) as i32, z as i32),
                (x as i32, (z + 1) as i32),
                ((x + 1) as i32, (z + 1) as i32),
            ],
{
    let mut corners: Vec<(i32, i32)> = Vec::new();
    let mut x: i32 = -50;
    while x < 50
        invariant
            -50 <= x <= 50,
            corners@.len() == 600 * (x + 50),
            forall|i: int|
                0 <= i < corners@.len() ==> (#[trigger] corners@[i].0 as int, corners@[i].1 as int)
                    == grid_corner(i),
        decreases 50 - x,
    {
        let mut z: i32 = -50;
        while z < 50
            invariant
                -50 <= x < 50,
                -50 <= z <= 50,
                corners@.len() == 6 * (100 * (x + 50) + (z + 50)),
                forall|i: int|
                    0 <= i < corners@.len() ==> (#[trigger] corners@[i].0 as int, corners@[i].1 as int)
                        == grid_corner(i),
            decreases 50 - z,
        {
            let ghost base = corners@.len() as int;
            proof {
                lemma_grid_corner_index(x as int, z as int, 0);
                lemma_grid_corner_index(x as int, z as int, 1);
                lemma_grid_corner_index(x as int, z as int, 2);
                lemma_grid_corner_index(x as int, z as int, 3);
                lemma_grid_corner_index(x as int, z as int, 4);
                lemma_grid_corner_index(x as int, z as int, 5);
            }
            corners.push((x, z));
            corners.push((x, z + 1));
            corners.push((x + 1, z));
            corners.push((x + 1, z));
            corners.push((x, z + 1));
            corners.push((x + 1, z + 1));
            assert forall|i: int| 0 <= i < corners@.len() implies (
            #[trigger] corners@[i].0 as int, corners@[i].1 as int) == grid_corner(i) by {
                if i >= base {
                    assert(i - base < 6);
                }
            }
            z = z + 1;
        }
        x = x + 1;
    }
    assert forall|x: int, z: int|
        #![trigger grid_cell_start(x, z)]
        -50 <= x < 50 && -50 <= z < 50 implies corners@.subrange(
            grid_cell_start(x, z),
            grid_cell_start(x, z) + 6,
        ) == seq![
            (x as i32, z as i32),
            (x as i32, (z + 1) as i32),
            ((x + 1) as i32, z as i32),
            ((x + 1) as i32, z as i32),
            (x as i32, (z + 1) as i32),
            ((x + 1) as i32, (z + 1) as i32),
        ] by {
        let b = grid_cell_start(x, z);
        lemma_grid_corner_index(x, z, 0);
        lemma_grid_corner_index(x, z, 1);
        lemma_grid_corner_index(x, z, 2);
        lemma_grid_corner_index(x, z, 3);
        lemma_grid_corner_index(x, z, 4);
        lemma_grid_corner_index(x, z, 5);
        assert((corners@[b].0 as int, corners@[b].1 as int) == grid_corner(b));
        assert((corners@[b + 1].0 as int, corners@[b + 1].1 as int) == grid_corner(b + 1));
        assert((corners@[b + 2].0 as int, corners@[b + 2].1 as int) == grid_corner(b + 2));
        assert((corners@[b + 3].0 as int, corners@[b + 3].1 as int) == grid_corner(b + 3));
        assert((corners@[b + 4].0 as int, corners@[b + 4].1 as int) == grid_corner(b + 4));
        assert((corners@[b + 5].0 as int, corners@[b + 5].1 as int) == grid_corner(b + 5));
        assert(corners@.subrange(b, b + 6) =~= seq![
            (x as i32, z as i32),
            (x as i32, (z + 1) as i32),
            ((x + 1) as i32, z as i32),
            ((x + 1) as i32, z as i32),
            (x as i32, (z + 1) as i32),
            ((x + 1) as i32, (z + 1) as i32),
        ]);
    }
    corners
}

} // verus!
