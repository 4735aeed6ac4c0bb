use serial_pcap::display::{aged_style, DisplayUpdates, Info, ItemStyle};

#[test]
fn changes_come_out_round_robin() {
    let mut d = DisplayUpdates::new();
    assert_eq!(d.next_change(), None);
    d.set_info(Info::IoboxCmd(3));
    d.set_info(Info::StowPressEast(10));
    d.set_info(Info::StowPressEast(11));
    d.set_info(Info::END);
    // The scan starts after slot 0, so the command register comes first and
    // the east pressure, of which only the newest value waits, last.
    assert_eq!(d.next_change(), Some(Info::IoboxCmd(3)));
    assert_eq!(d.next_change(), Some(Info::StowPressEast(11)));
    assert_eq!(d.next_change(), None);
}

#[test]
fn scan_continues_after_last_handed_out() {
    let mut d = DisplayUpdates::new();
    d.set_info(Info::StowPressWest(1));
    assert_eq!(d.next_change(), Some(Info::StowPressWest(1)));
    d.set_info(Info::StowPressWest(2));
    d.set_info(Info::PolarSpeedCmd(7));
    d.set_info(Info::StowPressEast(5));
    assert_eq!(d.next_change(), Some(Info::PolarSpeedCmd(7)));
    assert_eq!(d.next_change(), Some(Info::StowPressEast(5)));
    assert_eq!(d.next_change(), Some(Info::StowPressWest(2)));
}

#[test]
fn info_slots_and_default() {
    assert_eq!(Info::default(), Info::END);
    assert_eq!(Info::IoboxOutputs(0).discriminant(), 5);
    assert_eq!(Info::END.discriminant(), 6);
}

#[test]
fn shown_values_age() {
    assert_eq!(aged_style(5, 6, ItemStyle::Old), None);
    assert_eq!(aged_style(5, 5, ItemStyle::Current), None);
    assert_eq!(aged_style(5, 5, ItemStyle::Old), None);
    assert_eq!(aged_style(5, 5, ItemStyle::Aging), Some(ItemStyle::Current));
    assert_eq!(aged_style(6, 5, ItemStyle::Current), Some(ItemStyle::Aging));
    assert_eq!(aged_style(6, 5, ItemStyle::Aging), None);
    assert_eq!(aged_style(7, 5, ItemStyle::Aging), Some(ItemStyle::Old));
    assert_eq!(aged_style(7, 5, ItemStyle::Old), None);
    assert_eq!(aged_style(i32::MAX, i32::MIN, ItemStyle::Current), Some(ItemStyle::Old));
}
