# kmbox_isp

Verified decision logic of a command-line flasher for WCH microcontrollers
(the WCH ISP protocol) with extensions for kmbox devices.

- `src/` is the library, checked by Verus:
  - `firmware`: padding firmware images to whole 1 KiB sectors, erase-sector
    counts, the EEPROM image size check;
  - `kmbox`: kmbox command bytes and names, the rule by which the transport
    accepts a reply (kmbox commands 0x80–0x8F are not echoed), probe and
    read-probe reply summaries;
  - `fuzz`: the plan of a command-fuzzing run and the judging and recording
    of each reply;
  - `parse`: command bytes given on the command line (`0x..` or decimal);
  - `dump`: hexdump listings of EEPROM contents (through `hxdmp`);
  - `session`: transport selection, scan retries, message plurals.
- `app/` is the program around it: argument parsing, logging, device I/O and
  the transport trait, driving the device-access layer of the `wchisp`
  library.
- `tests/` runs the library on concrete values.
