//! Button addressing shared by the device drivers: the logical button
//! (a control button by index, or a grid cell by coordinates), the physical
//! button (a raw grid slot), and the default mapping between the two.
//!
//! The absolute coordinate space puts the control row at `y = 0` and the
//! grid at `y = 1..`, with the right-edge "scene launch" column at `x = 8`.
//! This is exactly the coordinate space the canvas layer uses, so it is the
//! bridge between wire-level button identity and canvas pixel identity.

use vstd::prelude::*;

use crate::generic::DeviceSpec;

verus! {

/// A button named by its role: a numbered control button, or a grid cell.
#[derive(Debug, Copy, Clone, Hash, Eq, PartialEq, Structural)]
pub enum LogicalButton {
    ControlButton { index: u8 },
    GridButton { x: u8, y: u8 },
}

impl LogicalButton {
    /// A grid cell by its coordinates.
    pub fn grid(x: u8, y: u8) -> (b: LogicalButton)
        ensures
            b == (LogicalButton::GridButton { x, y }),
    {
        LogicalButton::GridButton { x, y }
    }

    /// A control button by its index.
    pub fn control(index: u8) -> (b: LogicalButton)
        ensures
            b == (LogicalButton::ControlButton { index }),
    {
        LogicalButton::ControlButton { index }
    }

    /// The button at the given absolute coordinate: the control row at
    /// `y = 0`, the grid shifted down by one row below it.
    pub fn from_abs(x: u8, y: u8) -> (b: LogicalButton)
        requires
            y >= 1 ==> y <= 255,
        ensures
            b == abs_to_button_spec(x as int, y as int),
    {
        if y == 0 {
            LogicalButton::ControlButton { index: x }
        } else {
            LogicalButton::GridButton { x, y: y - 1 }
        }
    }

    /// The absolute x coordinate of this button.
    pub fn abs_x(&self) -> (r: u8)
        ensures
            r == button_abs_x_spec(*self),
    {
        match *self {
            LogicalButton::ControlButton { index } => index,
            LogicalButton::GridButton { x, y: _ } => x,
        }
    }

    /// The absolute y coordinate of this button: 0 for the control row,
    /// the grid row shifted down by one otherwise.
    pub fn abs_y(&self) -> (r: u8)
        requires
            self matches LogicalButton::GridButton { x, y } ==> y <= 254,
        ensures
            r == button_abs_y_spec(*self),
    {
        match *self {
            LogicalButton::ControlButton { .. } => 0,
            LogicalButton::GridButton { x: _, y } => y + 1,
        }
    }

    /// Whether this is a cell of the main 8 by 8 grid.
    pub fn is_main_grid_button(&self) -> (r: bool)
        ensures
            r == (self matches LogicalButton::GridButton { x, y } && x <= 7 && y <= 7),
    {
        match *self {
            LogicalButton::GridButton { x, y } => x <= 7 && y <= 7,
            _ => false,
        }
    }

    /// Whether this is a button of the top control row.
    pub fn is_top_control_button(&self) -> (r: bool)
        ensures
            r == (self matches LogicalButton::ControlButton { .. }),
    {
        match *self {
            LogicalButton::ControlButton { .. } => true,
            _ => false,
        }
    }

    /// Whether this is one of the right-edge scene launch cells.
    pub fn is_scene_launch_button(&self) -> (r: bool)
        ensures
            r == (self matches LogicalButton::GridButton { x, y } && x == 8),
    {
        match *self {
            LogicalButton::GridButton { x, y: _ } => x == 8,
            _ => false,
        }
    }
}

/// The absolute-to-logical mapping: `y = 0` is the control row, greater
/// `y` the grid shifted by one row.
pub open spec fn abs_to_button_spec(x: int, y: int) -> LogicalButton {
    if y == 0 {
        LogicalButton::ControlButton { index: x as u8 }
    } else {
        LogicalButton::GridButton { x: x as u8, y: (y - 1) as u8 }
    }
}

/// The absolute x coordinate of a button.
pub open spec fn button_abs_x_spec(b: LogicalButton) -> int {
    match b {
        LogicalButton::ControlButton { index } => index as int,
        LogicalButton::GridButton { x, y: _ } => x as int,
    }
}

/// The absolute y coordinate of a button.
pub open spec fn button_abs_y_spec(b: LogicalButton) -> int {
    match b {
        LogicalButton::ControlButton { .. } => 0,
        LogicalButton::GridButton { x: _, y } => y + 1,
    }
}

/// A physical button location: a raw grid slot, control row included.
/// Not every physical location is occupied on every device; for example,
/// most 9 by 9 devices have no button at `(8, 0)`.
#[derive(Debug, Copy, Clone, Hash, Eq, PartialEq, Structural)]
pub struct PhysicalButton {
    pub x: u32,
    pub y: u32,
}

impl PhysicalButton {
    pub fn new(x: u32, y: u32) -> (b: PhysicalButton)
        ensures
            b == (PhysicalButton { x, y }),
    {
        PhysicalButton { x, y }
    }
}

/// Where a logical button sits physically: control buttons on row 0, grid
/// cells shifted down by one row.
pub open spec fn logical_to_physical_spec(b: LogicalButton) -> PhysicalButton {
    match b {
        LogicalButton::ControlButton { index } => PhysicalButton { x: index as u32, y: 0 },
        LogicalButton::GridButton { x, y } => PhysicalButton { x: x as u32, y: (y + 1) as u32 },
    }
}

/// The logical role of a physical slot, on devices that use the default
/// layout: row 0 maps to control buttons, lower rows to grid cells with
/// `x` up to 8. Slots outside that shape have no logical meaning.
pub open spec fn physical_to_logical_spec(x: int, y: int) -> Option<LogicalButton> {
    if y == 0 {
        if x <= 15 {
            Some(LogicalButton::ControlButton { index: x as u8 })
        } else {
            None
        }
    } else if 1 <= y <= 8 && x <= 8 {
        Some(LogicalButton::GridButton { x: x as u8, y: (y - 1) as u8 })
    } else {
        None
    }
}

/// Default device placement of a logical button, appropriate for the
/// devices that use the shared absolute coordinate space.
pub fn default_logical_to_physical(button: LogicalButton) -> (r: PhysicalButton)
    ensures
        r == logical_to_physical_spec(button),
{
    match button {
        LogicalButton::ControlButton { index } => PhysicalButton { x: index as u32, y: 0 },
        LogicalButton::GridButton { x, y } => PhysicalButton {
            x: x as u32,
            y: (y as u32) + 1,
        },
    }
}

/// Default logical role of a physical slot, for the same devices. The
/// device's own validity predicate decides which slots exist at all.
pub fn default_physical_to_logical<D: DeviceSpec>(button: PhysicalButton) -> (r: Option<
    LogicalButton,
>)
    ensures
        r == if D::spec_valid(button.x as int, button.y as int) {
            physical_to_logical_spec(button.x as int, button.y as int)
        } else {
            Option::<LogicalButton>::None
        },
{
    if !D::is_valid(button.x, button.y) {
        return None;
    }
    if button.y == 0 {
        if button.x <= 15 {
            Some(LogicalButton::ControlButton { index: button.x as u8 })
        } else {
            None
        }
    } else if button.y <= 8 && button.x <= 8 {
        Some(
            LogicalButton::GridButton { x: button.x as u8, y: (button.y as u8) - 1 },
        )
    } else {
        None
    }
}

} // verus!
