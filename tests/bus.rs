use serial_pcap::bus::{
    CommandBit, Declination, Encoder, FieldBus, InputBit, IoBox, OutputBit, Polar, UpdateEvent,
};

#[test]
fn iobox_single_bits_and_whole_registers() {
    let mut b = IoBox::new();
    assert_eq!(b.update_parameter(103, 1), Some(UpdateEvent::IoboxCmd(1 << 2)));
    assert_eq!(b.update_parameter(116, 7), Some(UpdateEvent::IoboxCmd((1 << 2) | (1 << 15))));
    assert_eq!(b.update_parameter(103, 0), Some(UpdateEvent::IoboxCmd(1 << 15)));
    assert_eq!(b.update_parameter(117, 0x12345), Some(UpdateEvent::IoboxCmd(0x2345)));
    assert_eq!(b.update_parameter(201, 1), Some(UpdateEvent::IoboxInputs(1)));
    assert_eq!(b.update_parameter(217, 0xff), Some(UpdateEvent::IoboxInputs(0xff)));
    assert_eq!(b.update_parameter(316, 1), Some(UpdateEvent::IoboxOutputs(1 << 15)));
    assert_eq!(b.update_parameter(401, 250), Some(UpdateEvent::StowPress(250, 0)));
    assert_eq!(b.update_parameter(402, 300), Some(UpdateEvent::StowPress(250, 300)));
    assert_eq!(b.update_parameter(500, 1), None);
    assert_eq!(b.cmd_reg, 0x2345);
    assert_eq!(b.outputs, 1 << 15);
}

#[test]
fn field_bus_dispatches_by_address() {
    let mut fb = FieldBus::new();
    assert_eq!(fb.update_parameter(31, 217, 5), Some(UpdateEvent::IoboxInputs(5)));
    assert_eq!(fb.iobox.inputs, 5);
    assert_eq!(fb.update_parameter(11, 118, 1200), Some(UpdateEvent::PolarSpeedCmd(1200)));
    assert_eq!(fb.update_parameter(11, 119, 1200), None);
    assert_eq!(fb.update_parameter(40, 217, 1), None);
    assert_eq!(fb.iobox.inputs, 5);
}

#[test]
fn encoders_track_position() {
    let mut p: Encoder<Polar> = Encoder::new();
    let mut d: Encoder<Declination> = Encoder::new();
    assert_eq!(p.value(), 0);
    assert_eq!(p.update_parameter(101, -4500), Some(UpdateEvent::PolarEncoder(-4500)));
    assert_eq!(p.update_parameter(102, 1), None);
    assert_eq!(p.value(), -4500);
    assert_eq!(d.update_parameter(101, 900), Some(UpdateEvent::DeclinationEncoder(900)));
    assert_eq!(d.value(), 900);
}

#[test]
fn register_bit_positions() {
    assert_eq!(CommandBit::RunDec.index(), 15);
    assert_eq!(CommandBit::EastStowLock.index(), 0);
    assert_eq!(OutputBit::SerialOK.index(), 8);
    assert_eq!(InputBit::Home.index(), 6);
}
