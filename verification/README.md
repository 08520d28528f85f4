# console_ghr

A Bluetooth HID relay that sits between a Nintendo Switch controller and the
console, forwards the interrupt channel both ways, answers the console's
device-info request with this host's address, and turns the console's rumble
reports into vibration commands for Buttplug toys.

- `src/` is the verified library (Verus): address parsing and printing
  (`bt_addr`), the hex dump (`hexdump`), controller recognition
  (`controllers`), the relay's decisions (`relay`), the toy task's decisions
  (`haptics`) and the reading of C library return values (`smol_fd`).
- `app/` is the program around it: BlueZ discovery and D-Bus profile
  registration, L2CAP sockets, the async relay loop and the Buttplug client.
  It expects the HID SDP record in `sdp_record_hid.xml` in the working
  directory.
- `tests/` runs the library on concrete values.
