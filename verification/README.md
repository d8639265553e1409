# wuim

The core of WSL USB Identity Manager as a verified library: what a USB device
on a Windows machine is, how it is shared with WSL through `usbipd`, and how a
board behind an identical USB bridge is told apart from its twin.

`src/` is verified with Verus. Every public function states what it returns
in its `ensures`, over spec functions of the module it lives in. Where the
answer rests on what is on disk right now (`ppps::found`, `usbipd::locate`),
the function says that it returns what a verified decision function
(`ppps::pick_vhfilter`, `usbipd::usbipd_exe`) gives for some answer of the
disk, and the decision function states its result for every answer.

| module | what is decided there |
|---|---|
| `instance_id` | a Device Instance ID split into VID, PID and a unit id that is a serial or a port |
| `windevice` | the bytes CfgMgr32 hands back: UTF-16 strings, string lists, container GUIDs, revisions |
| `usbipd` | what `usbipd state` says of a device, and the command line an operation becomes |
| `snapshot` | the Windows enumeration and usbipd's list joined into rows, in bus-id order |
| `hub`, `ppps` | what a hub says of its ports; what was asked of a port's power, and the `vhfilter` hub list |
| `autoattach` | rules that hand a device to WSL, and which one covers a device |
| `store`, `session` | the settings file's contents and the bounded list of devices seen; what a run holds |
| `recall` | what was identified before, matched back by serial or port, with a confidence |
| `probe`, `probe::*` | which probe may touch a device, identity keys, the ESP32 part table, the CH32 identity, the board table |
| `view`, `commands`, `tray`, `logging` | what the interface shows and decides, given what was read |
| `cli` | the command line: arguments, the device a probe target names, the confirmation |
| `usb_ids`, `webview2`, `autostart`, `shell_open` | the USB ID repository text, the WebView2 check, the `Run` entry, what may be opened |

Laws that span several calls are public proof functions, among them:
`sanitising_twice_is_sanitising_once`, `keys_ignore_case`,
`a_remembered_name_reads_back`, `the_remembered_list_stays_within_its_limit`,
`a_hub_key_ignores_case_and_order`, `an_identity_lasts_while_its_device_is_present`.

`app/` is the `wuim` command-line program around the library: it enumerates
devices through CfgMgr32, runs `usbipd state`, asks hubs about their ports, and
probes boards through espflash and ch32rv.

`tests/` runs the library on concrete values.
