//! A mirror of the state of some nodes on the bus, kept up to date from the
//! parameter writes and reads that the bus carries.
//!
//! Addresses, parameters and values are the protocol's plain numbers: an
//! address of `0..=99`, a parameter number and a signed value.
use core::marker::PhantomData;
use vstd::prelude::*;

verus! {

/// Bits of the I/O box's command register, by their value in the register.
#[derive(Debug, Clone, Copy, PartialEq, Eq, Structural)]
pub enum CommandBit {
    RunDec,
    InchUp,
    InchDown,
    Track,
    RunPol,
    InchWest,
    InchEast,
    SerialOK,
    ComBit7,
    ComBit6,
    FlapsIn,
    FlapsOut,
    WestStowRelease,
    EastStowRelease,
    WestStowLock,
    EastStowLock,
}

/// Bits of the I/O box's output register.
#[derive(Debug, Clone, Copy, PartialEq, Eq, Structural)]
pub enum OutputBit {
    RunDec,
    InchUp,
    InchDown,
    Track,
    RunPol,
    InchWest,
    InchEast,
    SerialOK,
    ComBit7,
    ComBit6,
    FlapsIn,
    FlapsOut,
    WestStowRelease,
    EastStowRelease,
    WestStowLock,
    EastStowLock,
}

/// Bits of the I/O box's input register.
#[derive(Debug, Clone, Copy, PartialEq, Eq, Structural)]
pub enum InputBit {
    DecRun,
    DecDriveOK,
    UnderHorizon,
    Track,
    PolRun,
    PolDriveOK,
    WestOfSouth,
    EastOfSouth,
    NotStowpos,
    Home,
    FlapsIn,
    FlapsOut,
    WestStowReleased,
    EastStowReleased,
    WestStowLocked,
    EastStowLocked,
}

impl CommandBit {
    /// Position of the bit in the register.
    pub open spec fn spec_index(self) -> u16 {
        match self {
            CommandBit::RunDec => 15,
            CommandBit::InchUp => 14,
            CommandBit::InchDown => 13,
            CommandBit::Track => 12,
            CommandBit::RunPol => 11,
            CommandBit::InchWest => 10,
            CommandBit::InchEast => 9,
            CommandBit::SerialOK => 8,
            CommandBit::ComBit7 => 7,
            CommandBit::ComBit6 => 6,
            CommandBit::FlapsIn => 5,
            CommandBit::FlapsOut => 4,
            CommandBit::WestStowRelease => 3,
            CommandBit::EastStowRelease => 2,
            CommandBit::WestStowLock => 1,
            CommandBit::EastStowLock => 0,
        }
    }

    /// Position of the bit in the register.
    pub fn index(self) -> (r: u16)
        ensures
            r == self.spec_index(),
    {
        match self {
            CommandBit::RunDec => 15,
            CommandBit::InchUp => 14,
            CommandBit::InchDown => 13,
            CommandBit::Track => 12,
            CommandBit::RunPol => 11,
            CommandBit::InchWest => 10,
            CommandBit::InchEast => 9,
            CommandBit::SerialOK => 8,
            CommandBit::ComBit7 => 7,
            CommandBit::ComBit6 => 6,
            CommandBit::FlapsIn => 5,
            CommandBit::FlapsOut => 4,
            CommandBit::WestStowRelease => 3,
            CommandBit::EastStowRelease => 2,
            CommandBit::WestStowLock => 1,
            CommandBit::EastStowLock => 0,
        }
    }
}

impl OutputBit {
    /// Position of the bit in the register.
    pub open spec fn spec_index(self) -> u16 {
        match self {
            OutputBit::RunDec => 15,
            OutputBit::InchUp => 14,
            OutputBit::InchDown => 13,
            OutputBit::Track => 12,
            OutputBit::RunPol => 11,
            OutputBit::InchWest => 10,
            OutputBit::InchEast => 9,
            OutputBit::SerialOK => 8,
            OutputBit::ComBit7 => 7,
            OutputBit::ComBit6 => 6,
            OutputBit::FlapsIn => 5,
            OutputBit::FlapsOut => 4,
            OutputBit::WestStowRelease => 3,
            OutputBit::EastStowRelease => 2,
            OutputBit::WestStowLock => 1,
            OutputBit::EastStowLock => 0,
        }
    }

    /// Position of the bit in the register.
    pub fn index(self) -> (r: u16)
        ensures
            r == self.spec_index(),
    {
        match self {
            OutputBit::RunDec => 15,
            OutputBit::InchUp => 14,
            OutputBit::InchDown => 13,
            OutputBit::Track => 12,
            OutputBit::RunPol => 11,
            OutputBit::InchWest => 10,
            OutputBit::InchEast => 9,
            OutputBit::SerialOK => 8,
            OutputBit::ComBit7 => 7,
            OutputBit::ComBit6 => 6,
            OutputBit::FlapsIn => 5,
            OutputBit::FlapsOut => 4,
            OutputBit::WestStowRelease => 3,
            OutputBit::EastStowRelease => 2,
            OutputBit::WestStowLock => 1,
            OutputBit::EastStowLock => 0,
        }
    }
}

impl InputBit {
    /// Position of the bit in the register.
    pub open spec fn spec_index(self) -> u16 {
        match self {
            InputBit::DecRun => 15,
            InputBit::DecDriveOK => 14,
            InputBit::UnderHorizon => 13,
            InputBit::Track => 12,
            InputBit::PolRun => 11,
            InputBit::PolDriveOK => 10,
            InputBit::WestOfSouth => 9,
            InputBit::EastOfSouth => 8,
            InputBit::NotStowpos => 7,
            InputBit::Home => 6,
            InputBit::FlapsIn => 5,
            InputBit::FlapsOut => 4,
            InputBit::WestStowReleased => 3,
            InputBit::EastStowReleased => 2,
            InputBit::WestStowLocked => 1,
            InputBit::EastStowLocked => 0,
        }
    }

    /// Position of the bit in the register.
    pub fn index(self) -> (r: u16)
        ensures
            r == self.spec_index(),
    {
        match self {
            InputBit::DecRun => 15,
            InputBit::DecDriveOK => 14,
            InputBit::UnderHorizon => 13,
            InputBit::Track => 12,
            InputBit::PolRun => 11,
            InputBit::PolDriveOK => 10,
            InputBit::WestOfSouth => 9,
            InputBit::EastOfSouth => 8,
            InputBit::NotStowpos => 7,
            InputBit::Home => 6,
            InputBit::FlapsIn => 5,
            InputBit::FlapsOut => 4,
            InputBit::WestStowReleased => 3,
            InputBit::EastStowReleased => 2,
            InputBit::WestStowLocked => 1,
            InputBit::EastStowLocked => 0,
        }
    }
}

/// `reg` with bit `i` set to `on`.
pub open spec fn with_bit(reg: u16, i: u16, on: bool) -> u16 {
    if on {
        reg | (1u16 << i)
    } else {
        reg & !(1u16 << i)
    }
}

/// A change of the mirrored state worth showing.
#[derive(Debug, Clone, Copy, PartialEq, Eq, Structural)]
pub enum UpdateEvent {
    /// Stow pressures, east then west.
    StowPress(u16, u16),
    IoboxInputs(u16),
    IoboxCmd(u16),
    IoboxOutputs(u16),
    PolarSpeedCmd(u16),
    PolarEncoder(i32),
    DeclinationEncoder(i32),
}

/// Mirror of the I/O box: its three registers and two pressures.
#[derive(Debug, Clone, Copy, PartialEq, Eq)]
pub struct IoBox {
    pub inputs: u16,
    pub outputs: u16,
    pub cmd_reg: u16,
    pub stow_press_east: u16,
    pub stow_press_west: u16,
}

/// Bus address of the I/O box.
pub const IOBOX_ADDR: u8 = 31;

/// Bus address of the polar drive.
pub const POLAR_DRIVE_ADDR: u8 = 11;

/// Parameter of the polar drive that holds the commanded speed.
pub const POLAR_SPEED_PARAM: u16 = 118;

/// Bus address of the polar encoder.
pub const POLAR_ENCODER_ADDR: u8 = 12;

/// Bus address of the declination encoder.
pub const DECLINATION_ENCODER_ADDR: u8 = 22;

/// Parameter of an encoder that holds its position.
pub const ENCODER_VALUE_PARAM: u16 = 101;

/// The I/O box after parameter `p` got value `v`, and the change to show.
/// Parameters `101..=116`, `201..=216` and `301..=316` set one bit of the
/// command, input and output registers; `117`, `217` and `317` set a whole
/// register to the low 16 bits of the value; `401` and `402` are the east
/// and west stow pressures.
pub open spec fn spec_iobox_update(b: IoBox, p: u16, v: i32) -> (IoBox, Option<UpdateEvent>) {
    if 101 <= p <= 116 {
        let c = with_bit(b.cmd_reg, (p - 101) as u16, v != 0);
        (IoBox { cmd_reg: c, ..b }, Some(UpdateEvent::IoboxCmd(c)))
    } else if p == 117 {
        (IoBox { cmd_reg: v as u16, ..b }, Some(UpdateEvent::IoboxCmd(v as u16)))
    } else if 201 <= p <= 216 {
        let i = with_bit(b.inputs, (p - 201) as u16, v != 0);
        (IoBox { inputs: i, ..b }, Some(UpdateEvent::IoboxInputs(i)))
    } else if p == 217 {
        (IoBox { inputs: v as u16, ..b }, Some(UpdateEvent::IoboxInputs(v as u16)))
    } else if 301 <= p <= 316 {
        let o = with_bit(b.outputs, (p - 301) as u16, v != 0);
        (IoBox { outputs: o, ..b }, Some(UpdateEvent::IoboxOutputs(o)))
    } else if p == 317 {
        (IoBox { outputs: v as u16, ..b }, Some(UpdateEvent::IoboxOutputs(v as u16)))
    } else if p == 401 {
        (
            IoBox { stow_press_east: v as u16, ..b },
            Some(UpdateEvent::StowPress(v as u16, b.stow_press_west)),
        )
    } else if p == 402 {
        (
            IoBox { stow_press_west: v as u16, ..b },
            Some(UpdateEvent::StowPress(b.stow_press_east, v as u16)),
        )
    } else {
        (b, None)
    }
}

/// Sets bit `i` of `reg` to `on`.
fn set_bit(reg: u16, i: u16, on: bool) -> (r: u16)
    requires
        i < 16,
    ensures
        r == with_bit(reg, i, on),
{
    if on {
        reg | (1u16 << i)
    } else {
        reg & !(1u16 << i)
    }
}

impl IoBox {
    /// An I/O box with every register clear.
    pub fn new() -> (r: Self)
        ensures
            r == (IoBox {
                inputs: 0,
                outputs: 0,
                cmd_reg: 0,
                stow_press_east: 0,
                stow_press_west: 0,
            }),
    {
        IoBox { inputs: 0, outputs: 0, cmd_reg: 0, stow_press_east: 0, stow_press_west: 0 }
    }

    /// Records that parameter `p` of the I/O box has value `v`.
    pub fn update_parameter(&mut self, p: u16, v: i32) -> (r: Option<UpdateEvent>)
        ensures
            (*final(self), r) == spec_iobox_update(*old(self), p, v),
    {
        if 101 <= p && p <= 116 {
            self.cmd_reg = set_bit(self.cmd_reg, p - 101, v != 0);
            Some(UpdateEvent::IoboxCmd(self.cmd_reg))
        } else if p == 117 {
            self.cmd_reg = v as u16;
            Some(UpdateEvent::IoboxCmd(self.cmd_reg))
        } else if 201 <= p && p <= 216 {
            self.inputs = set_bit(self.inputs, p - 201, v != 0);
            Some(UpdateEvent::IoboxInputs(self.inputs))
        } else if p == 217 {
            self.inputs = v as u16;
            Some(UpdateEvent::IoboxInputs(self.inputs))
        } else if 301 <= p && p <= 316 {
            self.outputs = set_bit(self.outputs, p - 301, v != 0);
            Some(UpdateEvent::IoboxOutputs(self.outputs))
        } else if p == 317 {
            self.outputs = v as u16;
            Some(UpdateEvent::IoboxOutputs(self.outputs))
        } else if p == 401 {
            self.stow_press_east = v as u16;
            Some(UpdateEvent::StowPress(self.stow_press_east, self.stow_press_west))
        } else if p == 402 {
            self.stow_press_west = v as u16;
            Some(UpdateEvent::StowPress(self.stow_press_east, self.stow_press_west))
        } else {
            None
        }
    }
}

/// Marks an encoder on the polar axis.
pub struct Polar;

/// Marks an encoder on the declination axis.
pub struct Declination;

/// Mirror of a position encoder on axis `Pos`, in hundredths of a degree.
pub struct Encoder<Pos> {
    value: i32,
    _pos: PhantomData<Pos>,
}

impl<Pos> Encoder<Pos> {
    /// The last position seen.
    pub closed spec fn position(&self) -> i32 {
        self.value
    }

    /// An encoder at position zero.
    pub fn new() -> (r: Self)
        ensures
            r.position() == 0,
    {
        Encoder { value: 0, _pos: PhantomData }
    }

    /// The last position seen.
    pub fn value(&self) -> (r: i32)
        ensures
            r == self.position(),
    {
        self.value
    }
}

impl<Pos> Default for Encoder<Pos> {
    fn default() -> (r: Self)
        ensures
            r.position() == 0,
    {
        Self::new()
    }
}

impl Encoder<Polar> {
    /// Records that parameter `p` of the polar encoder has value `v`.
    pub fn update_parameter(&mut self, p: u16, v: i32) -> (r: Option<UpdateEvent>)
        ensures
            p == ENCODER_VALUE_PARAM ==> final(self).position() == v && r == Some(
                UpdateEvent::PolarEncoder(v),
            ),
            p != ENCODER_VALUE_PARAM ==> final(self).position() == old(self).position() && r
                is None,
    {
        if p == ENCODER_VALUE_PARAM {
            self.value = v;
            Some(UpdateEvent::PolarEncoder(v))
        } else {
            None
        }
    }
}

impl Encoder<Declination> {
    /// Records that parameter `p` of the declination encoder has value `v`.
    pub fn update_parameter(&mut self, p: u16, v: i32) -> (r: Option<UpdateEvent>)
        ensures
            p == ENCODER_VALUE_PARAM ==> final(self).position() == v && r == Some(
                UpdateEvent::DeclinationEncoder(v),
            ),
            p != ENCODER_VALUE_PARAM ==> final(self).position() == old(self).position() && r
                is None,
    {
        if p == ENCODER_VALUE_PARAM {
            self.value = v;
            Some(UpdateEvent::DeclinationEncoder(v))
        } else {
            None
        }
    }
}

/// The mirrored nodes of the bus.
pub struct FieldBus {
    pub iobox: IoBox,
}

impl FieldBus {
    /// A bus whose nodes are all in their initial state.
    pub fn new() -> (r: Self)
        ensures
            r.iobox == IoBox::new_state(),
    {
        FieldBus { iobox: IoBox::new() }
    }

    /// Records that parameter `p` of the node at address `a` has value `v`:
    /// the I/O box mirrors its parameters, the polar drive reports its speed
    /// command, and other nodes are not mirrored.
    pub fn update_parameter(&mut self, a: u8, p: u16, v: i32) -> (r: Option<UpdateEvent>)
        ensures
            a == IOBOX_ADDR ==> (final(self).iobox, r) == spec_iobox_update(old(self).iobox, p, v),
            a != IOBOX_ADDR ==> final(self).iobox == old(self).iobox,
            a == POLAR_DRIVE_ADDR && p == POLAR_SPEED_PARAM ==> r == Some(
                UpdateEvent::PolarSpeedCmd(v as u16),
            ),
            a == POLAR_DRIVE_ADDR && p != POLAR_SPEED_PARAM ==> r is None,
            a != IOBOX_ADDR && a != POLAR_DRIVE_ADDR ==> r is None,
    {
        if a == IOBOX_ADDR {
            self.iobox.update_parameter(p, v)
        } else if a == POLAR_DRIVE_ADDR {
            if p == POLAR_SPEED_PARAM {
                Some(UpdateEvent::PolarSpeedCmd(v as u16))
            } else {
                None
            }
        } else {
            None
        }
    }
}

impl IoBox {
    /// The state of a new I/O box.
    pub open spec fn new_state() -> IoBox {
        IoBox { inputs: 0, outputs: 0, cmd_reg: 0, stow_press_east: 0, stow_press_west: 0 }
    }
}

} // verus!
