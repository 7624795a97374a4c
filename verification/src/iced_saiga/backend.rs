use vstd::prelude::*;

verus! {

/// How mouse events are reported to the application.
#[derive(Debug, Clone, Copy, PartialEq, Eq, Structural)]
pub enum MouseMode {
    Sgr,
    /// The flag says whether coordinates are sent as UTF-8.
    Normal(bool),
}

/// The mouse actions that can be reported.
#[derive(Debug, Clone, Copy, PartialEq, Eq, Structural)]
pub enum MouseButton {
    LeftButton,
    MiddleButton,
    RightButton,
    LeftMove,
    MiddleMove,
    RightMove,
    NoneMove,
    ScrollUp,
    ScrollDown,
    Other,
}

impl MouseButton {
    pub open spec fn spec_code(self) -> u8 {
        match self {
            MouseButton::LeftButton => 0,
            MouseButton::MiddleButton => 1,
            MouseButton::RightButton => 2,
            MouseButton::LeftMove => 32,
            MouseButton::MiddleMove => 33,
            MouseButton::RightMove => 34,
            MouseButton::NoneMove => 35,
            MouseButton::ScrollUp => 64,
            MouseButton::ScrollDown => 65,
            MouseButton::Other => 99,
        }
    }

    /// The button code sent in mouse reports.
    pub fn code(self) -> (r: u8)
        ensures
            r == self.spec_code(),
    {
        match self {
            MouseButton::LeftButton => 0,
            MouseButton::MiddleButton => 1,
            MouseButton::RightButton => 2,
            MouseButton::LeftMove => 32,
            MouseButton::MiddleMove => 33,
            MouseButton::RightMove => 34,
            MouseButton::NoneMove => 35,
            MouseButton::ScrollUp => 64,
            MouseButton::ScrollDown => 65,
            MouseButton::Other => 99,
        }
    }
}

/// The mouse mode that the terminal modes select: SGR reporting wins over
/// UTF-8 coordinates.
pub fn mouse_mode(sgr_mouse: bool, utf8_mouse: bool) -> (r: MouseMode)
    ensures
        r == if sgr_mouse {
            MouseMode::Sgr
        } else {
            MouseMode::Normal(utf8_mouse)
        },
{
    if sgr_mouse {
        MouseMode::Sgr
    } else if utf8_mouse {
        MouseMode::Normal(true)
    } else {
        MouseMode::Normal(false)
    }
}

} // verus!
