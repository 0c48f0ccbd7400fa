use vstd::prelude::*;

use crate::byte_builder::{le_i32, le_u16, ByteBuilder};
use crate::driver::screen::{FRAMEBUFFER_HEIGHT, FRAMEBUFFER_WIDTH};
use crate::input::{div_toward_zero, normalize_coordinate};

verus! {

/// What the input devices reported for one frame: the window size, the mouse position in window
/// coordinates, the characters typed in order, which of the seven mouse buttons (left, right,
/// middle, back, forward, side, extra) went down and which went up, and the vertical wheel
/// movement.
pub struct InputSnapshot {
    pub screen_width: i32,
    pub screen_height: i32,
    pub mouse_x: i32,
    pub mouse_y: i32,
    pub chars: Vec<char>,
    pub pressed: [bool; 7],
    pub released: [bool; 7],
    pub wheel: i32,
}

/// An input event for the root process.
#[derive(Debug, Clone, Copy, PartialEq, Eq, Structural)]
pub enum InputEvent {
    /// An ASCII character was typed.
    Char(u8),
    /// A mouse button went down at a framebuffer position.
    MouseClick { x: u16, y: u16, button: u8 },
    /// A mouse button went up at a framebuffer position.
    MouseUp { x: u16, y: u16, button: u8 },
    /// The wheel moved while the mouse was at a framebuffer position.
    MouseScroll { x: u16, y: u16, wheel: i32 },
}

/// The bytes an input event carries: the character; or the position as two little-endian `u16`
/// and then the button number or the wheel movement as a little-endian `i32`.
pub open spec fn event_bytes(e: InputEvent) -> Seq<u8> {
    match e {
        InputEvent::Char(c) => seq![c],
        InputEvent::MouseClick { x, y, button } => le_u16(x) + le_u16(y) + seq![button],
        InputEvent::MouseUp { x, y, button } => le_u16(x) + le_u16(y) + seq![button],
        InputEvent::MouseScroll { x, y, wheel } => le_u16(x) + le_u16(y) + le_i32(wheel),
    }
}

impl InputEvent {
    /// The name the event is sent under.
    pub fn name(&self) -> (n: &'static str)
        ensures
            self is Char ==> n@ == "char"@,
            self is MouseClick ==> n@ == "mouse_click"@,
            self is MouseUp ==> n@ == "mouse_up"@,
            self is MouseScroll ==> n@ == "mouse_scroll"@,
    {
        match self {
            InputEvent::Char(_) => "char",
            InputEvent::MouseClick { .. } => "mouse_click",
            InputEvent::MouseUp { .. } => "mouse_up",
            InputEvent::MouseScroll { .. } => "mouse_scroll",
        }
    }

    /// The data the event is sent with.
    pub fn data(&self) -> (d: Vec<u8>)
        ensures
            d@ == event_bytes(*self),
    {
        match *self {
            InputEvent::Char(c) => ByteBuilder::new().u8(c).build(),
            InputEvent::MouseClick { x, y, button } => ByteBuilder::new().u16(x).u16(y).u8(button).build(),
            InputEvent::MouseUp { x, y, button } => ByteBuilder::new().u16(x).u16(y).u8(button).build(),
            InputEvent::MouseScroll { x, y, wheel } => ByteBuilder::new().u16(x).u16(y).i32(wheel).build(),
        }
    }
}

/// One `Char` event for each typed character that is ASCII, in order; others are dropped.
pub open spec fn char_events(chars: Seq<char>) -> Seq<InputEvent>
    decreases chars.len(),
{
    if chars.len() == 0 {
        Seq::empty()
    } else {
        let rest = char_events(chars.drop_last());
        let c = chars.last();
        if (c as u32) < 128 {
            rest.push(InputEvent::Char((c as u32) as u8))
        } else {
            rest
        }
    }
}

/// For the first `n` buttons, in button order, a click (or, when `up`, a release) event for
/// each one that is flagged.
pub open spec fn button_events(flags: Seq<bool>, n: int, x: u16, y: u16, up: bool) -> Seq<InputEvent>
    decreases n,
{
    if n <= 0 {
        Seq::empty()
    } else {
        let rest = button_events(flags, n - 1, x, y, up);
        if flags[n - 1] {
            rest.push(
                if up {
                    InputEvent::MouseUp { x, y, button: (n - 1) as u8 }
                } else {
                    InputEvent::MouseClick { x, y, button: (n - 1) as u8 }
                },
            )
        } else {
            rest
        }
    }
}

/// The events of one frame, in the order they are sent: typed characters, button clicks,
/// button releases, then the wheel if it moved.
pub open spec fn frame_events(s: InputSnapshot, x: u16, y: u16) -> Seq<InputEvent> {
    char_events(s.chars@) + button_events(s.pressed@, 7, x, y, false) + button_events(s.released@, 7, x, y, true)
        + if s.wheel != 0 {
        seq![InputEvent::MouseScroll { x, y, wheel: s.wheel }]
    } else {
        Seq::empty()
    }
}

/// A window coordinate scaled to the framebuffer.
pub open spec fn scaled(v: i32, window: i32, framebuffer: int) -> u16 {
    div_toward_zero(v * framebuffer, window as int) as u16
}

/// What a frame needs of the window for its coordinates to scale: a nonzero size, positions
/// whose products with the framebuffer size fit in an `i32`, and no quotient that overflows one.
pub open spec fn scalable(s: InputSnapshot) -> bool {
    &&& s.screen_width != 0
    &&& s.screen_height != 0
    &&& i32::MIN <= s.mouse_x * FRAMEBUFFER_WIDTH <= i32::MAX
    &&& i32::MIN <= s.mouse_y * FRAMEBUFFER_HEIGHT <= i32::MAX
    &&& !(s.mouse_x * FRAMEBUFFER_WIDTH == i32::MIN && s.screen_width == -1)
    &&& !(s.mouse_y * FRAMEBUFFER_HEIGHT == i32::MIN && s.screen_height == -1)
}

/// Whether a frame's window size and mouse position can be scaled to the framebuffer.
pub fn scalable_snapshot(s: &InputSnapshot) -> (r: bool)
    ensures
        r == scalable(*s),
{
    let px = s.mouse_x as i64 * FRAMEBUFFER_WIDTH as i64;
    let py = s.mouse_y as i64 * FRAMEBUFFER_HEIGHT as i64;
    s.screen_width != 0 && s.screen_height != 0 && i32::MIN as i64 <= px && px <= i32::MAX as i64
        && i32::MIN as i64 <= py && py <= i32::MAX as i64 && !(px == i32::MIN as i64 && s.screen_width == -1)
        && !(py == i32::MIN as i64 && s.screen_height == -1)
}

/// The latest mouse position, in framebuffer coordinates.
pub struct InputState {
    pub x: u16,
    pub y: u16,
}

impl InputState {
    pub fn new() -> (s: Self)
        ensures
            s.x == 0,
            s.y == 0,
    {
        Self { x: 0, y: 0 }
    }

    /// Takes in one frame of input: remembers the mouse position scaled to the framebuffer and
    /// gives the events to send to the root process, in order.
    pub fn update(&mut self, snapshot: &InputSnapshot) -> (events: Vec<InputEvent>)
        requires
            scalable(*snapshot),
        ensures
            final(self).x == scaled(snapshot.mouse_x, snapshot.screen_width, FRAMEBUFFER_WIDTH as int),
            final(self).y == scaled(snapshot.mouse_y, snapshot.screen_height, FRAMEBUFFER_HEIGHT as int),
            events@ == frame_events(*snapshot, final(self).x, final(self).y),
    {
        let mx = normalize_coordinate(snapshot.mouse_x, snapshot.screen_width, FRAMEBUFFER_WIDTH as i32);
        let my = normalize_coordinate(snapshot.mouse_y, snapshot.screen_height, FRAMEBUFFER_HEIGHT as i32);
        self.x = mx;
        self.y = my;

        let mut events: Vec<InputEvent> = Vec::new();
        let mut i: usize = 0;
        while i < snapshot.chars.len()
            invariant
                i <= snapshot.chars@.len(),
                events@ == char_events(snapshot.chars@.take(i as int)),
            decreases snapshot.chars@.len() - i,
        {
            let c = snapshot.chars[i];
            proof {
                assert(snapshot.chars@.take(i + 1).drop_last() =~= snapshot.chars@.take(i as int));
                assert(snapshot.chars@.take(i + 1).last() == c);
            }
            if (c as u32) < 128 {
                events.push(InputEvent::Char((c as u32) as u8));
            }
            i = i + 1;
        }
        assert(snapshot.chars@.take(snapshot.chars@.len() as int) =~= snapshot.chars@);
        let ghost typed = events@;

        let mut b: usize = 0;
        while b < 7
            invariant
                b <= 7,
                events@ == typed + button_events(snapshot.pressed@, b as int, mx, my, false),
            decreases 7 - b,
        {
            if snapshot.pressed[b] {
                events.push(InputEvent::MouseClick { x: mx, y: my, button: b as u8 });
            }
            b = b + 1;
        }
        let ghost clicked = events@;

        let mut b: usize = 0;
        while b < 7
            invariant
                b <= 7,
                events@ == clicked + button_events(snapshot.released@, b as int, mx, my, true),
            decreases 7 - b,
        {
            if snapshot.released[b] {
                events.push(InputEvent::MouseUp { x: mx, y: my, button: b as u8 });
            }
            b = b + 1;
        }

        if snapshot.wheel != 0 {
            events.push(InputEvent::MouseScroll { x: mx, y: my, wheel: snapshot.wheel });
        }
        events
    }
}

} // verus!
