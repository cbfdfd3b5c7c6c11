use minix_bt::chardev::{
    HciChardev, HciDevStats, HciRingBuf, IoctlReply, HCIDEVDOWN, HCIDEVUP, HCIGETDEVINFO, HCIINQUIRY,
    HCI_EVT_RING_SIZE,
};
use minix_bt::errno;
use minix_bt::hci::HciState;
use minix_bt::ids::{bt_device_table, has_quirk, lookup_bt_device, BtQuirk};
use minix_bt::usb_transport::{EndpointState, HciUsbBuf, HciUsbTransport};

fn test_alloc(n: usize) -> Option<u64> {
    Some(0x1000_0000 + n as u64)
}

fn test_free(_phys: u64, _n: usize) {}

// ── chardev ──

#[test]
fn test_ring_buf_push_pop() {
    let mut ring = HciRingBuf::new();
    assert!(ring.is_empty());
    assert!(ring.push(0x04, &[0x0E, 0x01, 0x02]));
    assert!(!ring.is_empty());
    assert_eq!(ring.len(), 1);
    let result = ring.pop();
    assert!(result.is_some());
    let (typ, data) = result.unwrap();
    assert_eq!(typ, 0x04);
    assert_eq!(data.as_slice(), &[0x0E, 0x01, 0x02]);
    assert!(ring.is_empty());
}

#[test]
fn test_ring_buf_full() {
    let mut ring = HciRingBuf::new();
    for i in 0..HCI_EVT_RING_SIZE {
        assert!(ring.push(0x04, &[i as u8]));
    }
    assert!(ring.is_full());
    assert!(!ring.push(0x04, &[0xFF]));
}

#[test]
fn ring_is_fifo_across_wrap() {
    let mut ring = HciRingBuf::new();
    for i in 0..20u8 {
        assert!(ring.push(0x04, &[i]));
    }
    for i in 0..20u8 {
        assert_eq!(ring.pop().unwrap().1, vec![i]);
    }
    for i in 0..30u8 {
        assert!(ring.push(0x02, &[i, i]));
    }
    assert_eq!(ring.len(), 30);
    assert_eq!(ring.pop(), Some((0x02, vec![0, 0])));
    assert!(ring.pop().is_some());
    assert_eq!(ring.len(), 28);
}

#[test]
fn ring_pop_empty() {
    let mut ring = HciRingBuf::new();
    assert_eq!(ring.pop(), None);
}

#[test]
fn test_chardev_new() {
    let dev = HciChardev::new(0);
    assert!(!dev.open);
    assert!(!dev.device_up);
}

#[test]
fn test_chardev_open_close() {
    let mut dev = HciChardev::new(0);
    assert_eq!(dev.open(), errno::OK);
    assert!(dev.open);
    assert_eq!(dev.open(), errno::EBUSY);
    assert_eq!(dev.close(), errno::OK);
    assert!(!dev.open);
}

#[test]
fn test_dev_stats_clone() {
    let stats = HciDevStats {
        err_rx: 1, err_tx: 2, cmd_tx: 3, evt_rx: 4,
        acl_tx: 5, acl_rx: 6, sco_tx: 7, sco_rx: 8,
        byte_tx: 100, byte_rx: 200,
    };
    let cloned = stats;
    assert_eq!(cloned.cmd_tx, 3);
    assert_eq!(cloned.byte_rx, 200);
}

#[test]
fn chardev_read_events_then_acl() {
    let mut dev = HciChardev::new(0);
    let mut buf = [0u8; 16];
    assert_eq!(dev.read(&mut buf), errno::EAGAIN as isize);
    dev.open();
    assert_eq!(dev.read(&mut buf), errno::EAGAIN as isize);
    dev.evt_ring.push(0x04, &[0x0E, 0x01]);
    dev.evt_ring.push(0x04, &[0x0F]);
    dev.acl_ring.push(0x02, &[1, 2, 3, 4]);
    let n = dev.read(&mut buf);
    assert_eq!(n, 5);
    assert_eq!(&buf[..5], &[0x04, 0x0E, 0x01, 0x04, 0x0F]);
    assert_eq!(dev.stats.evt_rx, 2);
    let n = dev.read(&mut buf);
    assert_eq!(n, 5);
    assert_eq!(&buf[..5], &[0x02, 1, 2, 3, 4]);
    assert_eq!(dev.stats.acl_rx, 1);
    assert_eq!(dev.read(&mut buf), errno::EAGAIN as isize);
}

#[test]
fn chardev_read_cuts_last_packet() {
    let mut dev = HciChardev::new(0);
    dev.open();
    dev.evt_ring.push(0x04, &[1, 2, 3]);
    dev.evt_ring.push(0x04, &[4, 5, 6]);
    dev.evt_ring.push(0x04, &[7]);
    let mut buf = [0u8; 6];
    assert_eq!(dev.read(&mut buf), 6);
    assert_eq!(buf, [0x04, 1, 2, 3, 0x04, 4]);
    // The rest of the cut packet comes next; the third remains queued.
    assert_eq!(dev.evt_ring.len(), 1);
    assert_eq!(dev.stats.evt_rx, 2);
    dev.acl_ring.push(0x02, &[9, 9, 9, 9]);
    let mut small = [0u8; 3];
    assert_eq!(dev.read(&mut small), 2);
    assert_eq!(&small[..2], &[5, 6]);
    assert_eq!(dev.read(&mut small), 2);
    assert_eq!(&small[..2], &[0x04, 7]);
    assert_eq!(dev.read(&mut small), 3);
    assert_eq!(small, [0x02, 9, 9]);
    assert_eq!(dev.read(&mut small), 2);
    assert_eq!(&small[..2], &[9, 9]);
    assert_eq!(dev.stats.acl_rx, 0);
}

#[test]
fn chardev_write_dispatch() {
    let mut dev = HciChardev::new(0);
    let mut t = HciUsbTransport::probe(&test_alloc, &test_free).unwrap();
    assert_eq!(dev.write(&mut t, &[0x01, 0x03, 0x0C, 0x00]), errno::EAGAIN as isize);
    dev.open();
    assert_eq!(dev.write(&mut t, &[0x01, 0x03, 0x0C, 0x00]), 4);
    assert_eq!(dev.stats.cmd_tx, 1);
    assert_eq!(dev.stats.byte_tx, 4);
    assert_eq!(dev.write(&mut t, &[0x02, 0x01, 0x00, 0x00, 0x00]), 5);
    assert_eq!(dev.stats.acl_tx, 1);
    // No isochronous endpoint: SCO is refused.
    assert_eq!(dev.write(&mut t, &[0x03, 0x01, 0x00, 0x00]), errno::EIO as isize);
    assert_eq!(dev.stats.err_tx, 1);
    assert_eq!(dev.write(&mut t, &[0x04, 0x0E]), errno::EPROTO as isize);
    assert_eq!(dev.write(&mut t, &[0x01, 0x03]), errno::EIO as isize);
}

#[test]
fn chardev_ioctl() {
    let mut dev = HciChardev::new(0);
    let mut t = HciUsbTransport::probe(&test_alloc, &test_free).unwrap();
    t.bd_addr.0 = [1, 2, 3, 4, 5, 6];
    match dev.ioctl(&mut t, HCIDEVUP) {
        IoctlReply::Status(s) => assert_eq!(s, errno::EIO),
        _ => panic!("status expected"),
    }
    assert!(!dev.device_up);
    assert_eq!(t.state, HciState::Error);
    match dev.ioctl(&mut t, HCIGETDEVINFO) {
        IoctlReply::DevInfo(i) => {
            assert_eq!(&i.name, b"hci0\0\0\0\0");
            assert_eq!(i.bdaddr, [1, 2, 3, 4, 5, 6]);
            assert_eq!(i.flags, 0);
            assert_eq!(i.acl_mtu, 1024);
        }
        _ => panic!("info expected"),
    }
    match dev.ioctl(&mut t, HCIDEVDOWN) {
        IoctlReply::Status(s) => assert_eq!(s, errno::OK),
        _ => panic!("status expected"),
    }
    assert_eq!(t.state, HciState::Down);
    match dev.ioctl(&mut t, HCIINQUIRY) {
        IoctlReply::Status(s) => assert_eq!(s, errno::OK),
        _ => panic!("status expected"),
    }
    match dev.ioctl(&mut t, 0x1234) {
        IoctlReply::Status(s) => assert_eq!(s, errno::ENOTTY),
        _ => panic!("status expected"),
    }
}

#[test]
fn errno_constants() {
    assert_eq!(errno::OK, 0);
    assert_eq!(errno::EIO, -5);
    assert_eq!(errno::ENXIO, -6);
    assert_eq!(errno::EAGAIN, -35);
}

// ── ids ──

#[test]
fn test_lookup_intel_ax200() {
    let entry = lookup_bt_device(0x8087, 0x0AA8);
    assert!(entry.is_some());
    assert_eq!(entry.unwrap().name, "Intel AX200 (Cyborg)");
}

#[test]
fn test_lookup_csr() {
    let entry = lookup_bt_device(0x0A12, 0x0001);
    assert!(entry.is_some());
    assert_eq!(entry.unwrap().name, "CSR BlueCore4");
}

#[test]
fn test_lookup_unknown() {
    assert!(lookup_bt_device(0xDEAD, 0xBEEF).is_none());
}

#[test]
fn test_quirks() {
    let entry = lookup_bt_device(0x8087, 0x0AA8).unwrap();
    assert!(has_quirk(&entry, BtQuirk::IntelDebug));
    assert!(has_quirk(&entry, BtQuirk::NeedFirmware));
    assert!(has_quirk(&entry, BtQuirk::HasIsoData));
    assert!(!has_quirk(&entry, BtQuirk::BrokenSco));
}

#[test]
fn test_table_completeness() {
    for entry in bt_device_table() {
        assert!(!entry.name.is_empty());
    }
}

#[test]
fn quirk_flags_of_broadcom_and_plain_entries() {
    let bcm = lookup_bt_device(0x0A5C, 0x21E8).unwrap();
    assert_eq!(bcm.quirks, 0x0003);
    assert!(has_quirk(&bcm, BtQuirk::BcmBaudChange));
    let ar = lookup_bt_device(0x0CF3, 0x3004).unwrap();
    assert_eq!(ar.quirks, 0);
    assert!(!has_quirk(&ar, BtQuirk::NoQuirks));
    assert_eq!(bt_device_table().len(), 51);
}

// ── USB transport ──

#[test]
fn test_hci_usb_buf_alloc_free() {
    let mut buf = HciUsbBuf::allocate(1024, &test_alloc).expect("should alloc");
    assert!(buf.size > 0);
    assert!(buf.phys != 0);
    assert!(buf.size >= 1024);
    buf.free(&test_free);
    assert_eq!(buf.size, 0);
}

#[test]
fn usb_buf_rounds_up_and_fails_cleanly() {
    let buf = HciUsbBuf::allocate(65, &test_alloc).unwrap();
    assert_eq!(buf.size, 128);
    let none = |_n: usize| -> Option<u64> { None };
    assert!(HciUsbBuf::allocate(64, &none).is_none());
}

#[test]
fn test_endpoint_alloc_bufs() {
    let mut ep = EndpointState::new();
    assert!(ep.alloc_bufs(512, &test_alloc, &test_free));
    assert!(ep.bufs[0].is_some());
    assert!(ep.bufs[3].is_some());
    ep.free_all(&test_free);
    assert!(ep.bufs[0].is_none());
}

#[test]
fn test_transport_create() {
    let t = HciUsbTransport::new();
    assert!(!t.ready);
    assert_eq!(t.state, HciState::Reset);
}

#[test]
fn usb_send_cycles_buffers() {
    let mut t = HciUsbTransport::probe(&test_alloc, &test_free).unwrap();
    assert!(t.bulk_out.active);
    assert!(t.send_command(&[0x01, 0x03, 0x0C, 0x00]));
    assert_eq!(t.bulk_out.buf_idx, 1);
    assert_eq!(t.bulk_out.bufs[0].as_ref().unwrap().data, vec![0x01, 0x03, 0x0C, 0x00]);
    assert!(!t.send_command(&[0x02, 0x03, 0x0C, 0x00]));
    assert_eq!(t.bulk_out.buf_idx, 1);
    assert!(t.send_acl(&[0x02, 0x01, 0x00, 0x00, 0x00]));
    assert_eq!(t.bulk_out.buf_idx, 2);
    assert!(!t.send_sco(&[0x03, 0x01, 0x00, 0x00]));
    let mut out = [0u8; 8];
    assert_eq!(t.recv_event(&mut out), 0);
    assert_eq!(t.bulk_in.buf_idx, 1);
}

#[test]
fn usb_init_fails_without_reply() {
    let mut t = HciUsbTransport::probe(&test_alloc, &test_free).unwrap();
    assert!(!t.init_sequence());
    assert_eq!(t.state, HciState::Error);
    assert!(!t.ready);
    assert!(t.read_buffer_size().is_none());
    t.reset(&test_free);
    assert_eq!(t.state, HciState::Reset);
    assert!(!t.bulk_out.active);
}

#[test]
fn usb_probe_without_memory() {
    let none = |_n: usize| -> Option<u64> { None };
    let mut t = HciUsbTransport::probe(&none, &test_free).unwrap();
    assert!(!t.bulk_out.active);
    assert!(!t.send_command(&[0x01, 0x03, 0x0C, 0x00]));
}

#[test]
fn chardev_read_keeps_the_rest_of_a_cut_packet() {
    let mut dev = HciChardev::new(0);
    dev.open = true;
    assert!(dev.evt_ring.push(0x04, &[0x0E, 0x01, 0x02]));
    let mut b2 = [0u8; 2];
    assert_eq!(dev.read(&mut b2), 2);
    assert_eq!(b2, [0x04, 0x0E]);
    let mut b8 = [0u8; 8];
    assert_eq!(dev.read(&mut b8), 2);
    assert_eq!(&b8[..2], &[0x01, 0x02]);
    assert_eq!(dev.read(&mut b8), errno::EAGAIN as isize);
}

#[test]
fn ring_keeps_a_sixteen_bit_length() {
    let mut r = HciRingBuf::new();
    let d = vec![0xCDu8; 65535];
    assert!(r.push(0x02, &d));
    assert_eq!(r.pop(), Some((0x02, d)));
    let long = vec![0xABu8; 65537];
    assert!(r.push(0x02, &long));
    assert_eq!(r.pop(), Some((0x02, vec![0xAB])));
}

#[test]
fn lookup_gives_the_table_name() {
    assert_eq!(lookup_bt_device(0x8087, 0x0AA8).unwrap().name, "Intel AX200 (Cyborg)");
    assert_eq!(lookup_bt_device(0x0A12, 0x0001).unwrap().name, "CSR BlueCore4");
}

#[test]
fn ring_pops_in_push_order() {
    let mut r = HciRingBuf::new();
    for k in 0..5u8 {
        assert!(r.push(0x04, &[k, k + 1]));
    }
    for k in 0..5u8 {
        assert_eq!(r.len(), 5 - k as usize);
        assert_eq!(r.pop(), Some((0x04, vec![k, k + 1])));
    }
    assert!(r.pop().is_none());
    assert!(r.is_empty());
}
