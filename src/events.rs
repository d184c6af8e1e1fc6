use vstd::prelude::*;

verus! {

/// The window and pointer events that the game reacts to.
#[derive(Debug, Clone, Copy, PartialEq, Eq)]
pub enum InputEvent {
    RenderTargetsReset,
    SizeChanged { width: i32, height: i32 },
    MouseMotion { x: i32, y: i32 },
    LeftButtonDown,
    LeftButtonUp { x: i32, y: i32 },
    Other,
}

/// What the game is to do in answer to an event.
#[derive(Debug, Clone, Copy, PartialEq, Eq)]
pub enum EventAction {
    /// Draw the board at this size.
    Render { width: u32, height: u32 },
    /// The pointer stands at this place.
    Hover { x: i32, y: i32 },
    /// The left button was pressed.
    LeftClick,
    /// Nothing for the board to do.
    Nothing,
}

/// The size of the window that the board is drawn in.
#[derive(Debug, Clone, Copy, PartialEq, Eq)]
pub struct WindowState {
    pub width: u32,
    pub height: u32,
}

/// The action that answers `e` in a window of size `width` by `height`.
pub open spec fn action_for(width: u32, height: u32, e: InputEvent) -> EventAction {
    match e {
        InputEvent::RenderTargetsReset => EventAction::Render { width, height },
        InputEvent::SizeChanged { width: w, height: h } => EventAction::Render {
            width: w as u32,
            height: h as u32,
        },
        InputEvent::MouseMotion { x, y } => EventAction::Hover { x, y },
        InputEvent::LeftButtonDown => EventAction::LeftClick,
        _ => EventAction::Nothing,
    }
}

impl WindowState {
    pub fn new(width: u32, height: u32) -> (r: WindowState)
        ensures
            r.width == width,
            r.height == height,
    {
        WindowState { width, height }
    }

    /// Records a new window size and says what to do about `e`.
    pub fn handle_event(&mut self, e: InputEvent) -> (r: EventAction)
        ensures
            r == action_for(old(self).width, old(self).height, e),
            match e {
                InputEvent::SizeChanged { width: w, height: h } => final(self).width == w as u32
                    && final(self).height == h as u32,
                _ => *final(self) == *old(self),
            },
    {
        match e {
            InputEvent::RenderTargetsReset => EventAction::Render {
                width: self.width,
                height: self.height,
            },
            InputEvent::SizeChanged { width, height } => {
                self.width = width as u32;
                self.height = height as u32;
                EventAction::Render { width: self.width, height: self.height }
            },
            InputEvent::MouseMotion { x, y } => EventAction::Hover { x, y },
            InputEvent::LeftButtonDown => EventAction::LeftClick,
            _ => EventAction::Nothing,
        }
    }
}

/// Column (from 0) and row (from 0, bottom row first) of the square under the
/// pixel `(x, y)` of a window of `width` by `height` showing an 8 by 8 board.
pub open spec fn square_spec(width: u32, height: u32, x: i32, y: i32) -> Option<(int, int)> {
    if width > 0 && height > 0 && 0 <= x < width && 0 <= y < height {
        Some((x * 8 / width as int, 7 - y * 8 / height as int))
    } else {
        None
    }
}

/// The column letter and row number (from 1) of the square under a pixel, if any.
pub fn square_at(width: u32, height: u32, x: i32, y: i32) -> (r: Option<(char, u32)>)
    ensures
        square_spec(width, height, x, y) is None <==> r is None,
        r matches Some((c, row)) ==> square_spec(width, height, x, y) == Some(
            ((c as u32 - 'a' as u32) as int, row - 1),
        ) && 'a' <= c <= 'h' && 1 <= row <= 8,
{
    if width == 0 || height == 0 || x < 0 || y < 0 || x as u32 >= width || y as u32 >= height {
        return None;
    }
    let cx: u64 = (x as u64) * 8 / (width as u64);
    let cy: u64 = (y as u64) * 8 / (height as u64);
    proof {
        let xi = x as int;
        let yi = y as int;
        let w = width as int;
        let h = height as int;
        assert(xi * 8 / w < 8) by (nonlinear_arith)
            requires
                0 <= xi < w,
        ;
        assert(yi * 8 / h < 8) by (nonlinear_arith)
            requires
                0 <= yi < h,
        ;
        assert(xi * 8 / w >= 0) by (nonlinear_arith)
            requires
                0 <= xi < w,
        ;
        assert(yi * 8 / h >= 0) by (nonlinear_arith)
            requires
                0 <= yi < h,
        ;
    }
    let letters: Vec<char> = vec!['a', 'b', 'c', 'd', 'e', 'f', 'g', 'h'];
    let c = letters[cx as usize];
    Some((c, 8 - cy as u32))
}

} // verus!
