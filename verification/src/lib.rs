//! Bluetooth host stack for a microkernel system: HCI packet framing,
//! UART (H4/H5) and character-device transport logic, L2CAP, RFCOMM,
//! SDP, ATT/GATT, HID-over-GATT report decoding and device bookkeeping.

pub mod bytes;
pub mod hci;
pub mod types;
pub mod att;
pub mod l2cap;
pub mod rfcomm;
pub mod gatt;
pub mod uart_transport;
pub mod errno;
pub mod ids;
pub mod usb_transport;
pub mod chardev;
pub mod bt_daemon;
pub mod hidp;
pub mod sdp;
pub mod hci_mgr;
pub mod pairing;
pub mod minix_ipc;
