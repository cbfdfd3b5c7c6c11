# minix_bt

A Bluetooth host stack for a microkernel system, written in Verus: the
packet formats, protocol state and bookkeeping carry contracts that the
verifier proves.

## Layout

- `src/` — the verified library.
  - `bytes` — endian helpers shared by the encoders.
  - `hci`, `types`, `ids` — HCI packets and events, addresses, UUIDs, the
    table of known controllers.
  - `uart_transport`, `usb_transport`, `chardev` — H4/H5 framing, SLIP,
    vendor firmware records, USB endpoint buffers, the character device's
    packet queues.
  - `l2cap`, `rfcomm`, `sdp`, `att`, `gatt`, `hidp` — the protocols above
    HCI.
  - `bt_daemon`, `pairing`, `hci_mgr`, `minix_ipc` — the daemon's device and
    connection tables, the protocol multiplexer, pairing decisions, HCI
    command parameters and the IPC message layout.
- `tests/` — tests run against the compiled library.
- `app/` — the parts that talk to the system: device files, firmware files,
  the character-driver entry points, the HCI device manager and the daemon
  that drives the library.

Each `pub proof fn lemma_*` states a property of the library as a whole,
such as that a decoder gives back what the matching encoder wrote.
