//! VID/PID pairs that name a board on their own.
//!
//! One line per pair, sorted by key: the key (`vid << 16 | pid`, eight hex
//! digits), the family, and the board when only one board reports the pair.
//! The lines mirror the board definitions' own list, so that one board gets one
//! name everywhere.
//!
//! Espressif pairs are left out: those boards are identified from the eFuse MAC
//! instead, which comes from the silicon rather than from a descriptor a
//! reflash can change.
use vstd::prelude::*;

verus! {

/// Table lines, part 1.
pub const BOARDS_01: &'static str = "03EB2145 avr arduino-uno-wifi-rev2
04833744 stm32
04833748 stm32
0483374B stm32
0483374E stm32
0483374F stm32
04833752 stm32
04833753 stm32
04835740 stm32
0D280204 stm32 steami-board
12092008 rp2040 picolume-transceiver
12092108 rp2040 picolume-transceiver
12096008 rp2040 picolume-transceiver
12096108 rp2040 picolume-transceiver
1209A008 rp2040 picolume-transceiver
1209A108 rp2040 picolume-transceiver
1209A182 rp2040 solder-party-rp2040-stamp
1209A183 rp2040 solder-party-rp2350-stamp
1209A184 rp2040 solder-party-rp2350-stamp-xl
1209CA01 zephyr arduino-ventuno-q
1209CB74 rp2040 0xcb-helios
1209E008 rp2040 picolume-transceiver
1209E108 rp2040 picolume-transceiver
1209E182 rp2040 solder-party-rp2040-stamp
1209E183 rp2040 solder-party-rp2350-stamp
1209E184 rp2040 solder-party-rp2350-stamp-xl
1209F502 rp2040 silicognition-rp2040-shim
15BA0026 rp2040
15BA0126 rp2040
15BA4026 rp2040
15BA4126 rp2040
15BA8026 rp2040
15BA8126 rp2040
15BAC026 rp2040
15BAC126 rp2040
1B4F0026 rp2040
1B4F0038 rp2040 sparkfun-thing-plus-rp2350
1B4F0044 rp2040 sparkfun-iot-node-lorawan
1B4F0045 rp2040 sparkfun-xrp-controller-beta
1B4F0046 rp2040 sparkfun-xrp-controller
1B4F0047 rp2040 sparkfun-iot-redboard-rp2350
1B4F0126 rp2040
1B4F0138 rp2040 sparkfun-thing-plus-rp2350
1B4F0144 rp2040 sparkfun-iot-node-lorawan
1B4F0145 rp2040 sparkfun-xrp-controller-beta
1B4F0146 rp2040 sparkfun-xrp-controller
1B4F0147 rp2040 sparkfun-iot-redboard-rp2350
1B4F4026 rp2040
1B4F4038 rp2040 sparkfun-thing-plus-rp2350
1B4F4044 rp2040 sparkfun-iot-node-lorawan
1B4F4045 rp2040 sparkfun-xrp-controller-beta
1B4F4046 rp2040 sparkfun-xrp-controller
1B4F4047 rp2040 sparkfun-iot-redboard-rp2350
1B4F4126 rp2040
1B4F4138 rp2040 sparkfun-thing-plus-rp2350
1B4F4144 rp2040 sparkfun-iot-node-lorawan
1B4F4145 rp2040 sparkfun-xrp-controller-beta
1B4F4146 rp2040 sparkfun-xrp-controller
1B4F4147 rp2040 sparkfun-iot-redboard-rp2350
1B4F8026 rp2040
";

/// Table lines, part 2.
pub const BOARDS_02: &'static str = "1B4F8038 rp2040 sparkfun-thing-plus-rp2350
1B4F8044 rp2040 sparkfun-iot-node-lorawan
1B4F8045 rp2040 sparkfun-xrp-controller-beta
1B4F8046 rp2040 sparkfun-xrp-controller
1B4F8047 rp2040 sparkfun-iot-redboard-rp2350
1B4F8126 rp2040
1B4F8138 rp2040 sparkfun-thing-plus-rp2350
1B4F8144 rp2040 sparkfun-iot-node-lorawan
1B4F8145 rp2040 sparkfun-xrp-controller-beta
1B4F8146 rp2040 sparkfun-xrp-controller
1B4F8147 rp2040 sparkfun-iot-redboard-rp2350
1B4F9207 avr lilypad-arduino-usb
1B4F9208 avr lilypad-arduino-usb
1B4FC026 rp2040
1B4FC038 rp2040 sparkfun-thing-plus-rp2350
1B4FC044 rp2040 sparkfun-iot-node-lorawan
1B4FC045 rp2040 sparkfun-xrp-controller-beta
1B4FC046 rp2040 sparkfun-xrp-controller
1B4FC047 rp2040 sparkfun-iot-redboard-rp2350
1B4FC126 rp2040
1B4FC138 rp2040 sparkfun-thing-plus-rp2350
1B4FC144 rp2040 sparkfun-iot-node-lorawan
1B4FC145 rp2040 sparkfun-xrp-controller-beta
1B4FC146 rp2040 sparkfun-xrp-controller
1B4FC147 rp2040 sparkfun-iot-redboard-rp2350
1D50ACAB rp2040
1D50ADAB rp2040
1D50ECAB rp2040
1D50EDAB rp2040
23410001 avr arduino-uno
23410010 avr arduino-mega-or-mega-2560
23410036 avr arduino-leonardo
23410037 avr arduino-micro
23410038 avr arduino-robot-control
23410039 avr arduino-robot-motor
2341003C avr arduino-esplora
2341003F avr arduino-mega-adk
23410041 avr arduino-yun
23410042 avr arduino-mega-or-mega-2560
23410043 avr arduino-uno
23410044 avr arduino-mega-adk
23410058 avr arduino-nano-every
2341005E rp2040 arduino-nano-rp2040-connect
2341005F rp2040
23410062 avr arduino-uno-mini
23410069 renesas arduino-uno-r4-minima
2341006A avr arduino-uno
2341006D renesas arduino-uno-r4-wifi
23410074 renesas arduino-nano-r4
23410078 zephyr arduino-uno-q
2341007A zephyr arduino-ventuno-q
2341015E rp2040 arduino-nano-rp2040-connect
2341015F rp2040
23410210 avr arduino-mega-or-mega-2560
23410237 avr arduino-micro
23410242 avr arduino-mega-or-mega-2560
23410243 avr arduino-uno
2341025E rp2040 arduino-nano-rp2040-connect
2341025F rp2040
23410369 renesas arduino-uno-r4-minima
";

/// Table lines, part 3.
pub const BOARDS_03: &'static str = "23410374 renesas arduino-nano-r4
23410C9F avr arduino-gemma
23411002 renesas arduino-uno-r4-wifi
23418036 avr arduino-leonardo
23418037 avr arduino-micro
23418038 avr arduino-robot-control
23418039 avr arduino-robot-motor
2341803C avr arduino-esplora
23418041 avr arduino-yun
2341805E rp2040 arduino-nano-rp2040-connect
2341805F rp2040
23418237 avr arduino-micro
239A8011 avr adafruit-circuit-playground
239A80E3 rp2040 adafruit-stemma-friend-rp2040
239A80F1 rp2040 adafruit-feather-rp2040
239A80F7 rp2040 adafruit-qt-py-rp2040
239A80FD rp2040 adafruit-itsybitsy-rp2040
239A8105 rp2040 adafruit-kb2040
239A8107 rp2040 adafruit-macropad-rp2040
239A8109 rp2040 adafruit-trinkey-rp2040-qt
239A8121 rp2040 adafruit-feather-rp2040-scorpio
239A8127 rp2040 adafruit-feather-rp2040-dvi
239A8129 rp2040 adafruit-feather-rp2040-usb-host
239A812B rp2040 adafruit-feather-rp2040-thinkink
239A812D rp2040 adafruit-feather-rp2040-rfm
239A812F rp2040 adafruit-feather-rp2040-can
239A8131 rp2040 adafruit-feather-rp2040-prop-maker
239A813D rp2040 adafruit-metro-rp2040
239A814D rp2040 adafruit-metro-rp2350
239A814F rp2040 adafruit-feather-rp2350-hstx
239A8151 rp2040 adafruit-floppsy
239A815D rp2040 adafruit-feather-rp2040-adalogger
239A816B rp2040 adafruit-fruit-jam-rp2350
239A816D rp2040 adafruit-feather-rp2350-adalogger
239A81E3 rp2040 adafruit-stemma-friend-rp2040
239A81F1 rp2040 adafruit-feather-rp2040
239A81F7 rp2040 adafruit-qt-py-rp2040
239A81FD rp2040 adafruit-itsybitsy-rp2040
239AC0E3 rp2040 adafruit-stemma-friend-rp2040
239AC0F1 rp2040 adafruit-feather-rp2040
239AC0F7 rp2040 adafruit-qt-py-rp2040
239AC0FD rp2040 adafruit-itsybitsy-rp2040
239AC105 rp2040 adafruit-kb2040
239AC107 rp2040 adafruit-macropad-rp2040
239AC109 rp2040 adafruit-trinkey-rp2040-qt
239AC121 rp2040 adafruit-feather-rp2040-scorpio
239AC127 rp2040 adafruit-feather-rp2040-dvi
239AC129 rp2040 adafruit-feather-rp2040-usb-host
239AC12B rp2040 adafruit-feather-rp2040-thinkink
239AC12D rp2040 adafruit-feather-rp2040-rfm
239AC12F rp2040 adafruit-feather-rp2040-can
239AC131 rp2040 adafruit-feather-rp2040-prop-maker
239AC13D rp2040 adafruit-metro-rp2040
239AC14D rp2040 adafruit-metro-rp2350
239AC14F rp2040 adafruit-feather-rp2350-hstx
239AC151 rp2040 adafruit-floppsy
239AC15D rp2040 adafruit-feather-rp2040-adalogger
239AC16B rp2040 adafruit-fruit-jam-rp2350
239AC16D rp2040 adafruit-feather-rp2350-adalogger
239AC1E3 rp2040 adafruit-stemma-friend-rp2040
";

/// Table lines, part 4.
pub const BOARDS_04: &'static str = "239AC1F1 rp2040 adafruit-feather-rp2040
239AC1F7 rp2040 adafruit-qt-py-rp2040
239AC1FD rp2040 adafruit-itsybitsy-rp2040
27707303 rp2040 amken-bunnyboard
27707304 rp2040 amken-revelop
27707305 rp2040 amken-revelop-plus
27707306 rp2040 amken-revelop-es
28860000 samd seeeduino-grove-ui-wireles-samd51
2886000B samd seeeduino-zero
2886000C samd seeeduino-lorawan
2886000E samd seeeduino-wio-gps-board
2886002A samd seeeduino-wio-lite-mg126
2886002B imxrt seeeduino-arch-mix
2886002C samd seeeduino-femto
2886002D samd seeeduino-wio-terminal
2886002F samd seeeduino-xiao
28860031 samd wio-lte-cat-1
2886003F samd seeed-xiao-m0-plus
28860044 nrf52 seeed-xiao-nrf52840
28860045 nrf52
28860049 renesas xiao-ra4m1
28860050 rp2040 seeed-indicator-rp2040
28860055 nrf52 seeed-wio-tracker-1110
28860057 nrf52 seeed-tracker-t1000-e-lorawan
28860058 rp2040 seeed-xiao-rp2350
28860064 nrf52
28860065 nrf52
28860145 mbed
28860150 rp2040 seeed-indicator-rp2040
28860158 rp2040 seeed-xiao-rp2350
28860164 mbed xiao-nrf52840-plus-no-updates
28860165 mbed xiao-nrf52840-sense-plus-no-updates
28864050 rp2040 seeed-indicator-rp2040
28864058 rp2040 seeed-xiao-rp2350
28864150 rp2040 seeed-indicator-rp2040
28864158 rp2040 seeed-xiao-rp2350
2886800B samd seeeduino-zero
2886800C samd seeeduino-lorawan
2886800E samd seeeduino-wio-gps-board
2886802A samd seeeduino-wio-lite-mg126
2886802B imxrt seeeduino-arch-mix
2886802C samd seeeduino-femto
2886802D samd seeeduino-wio-terminal
2886802F samd seeeduino-xiao
28868031 samd wio-lte-cat-1
2886803F samd seeed-xiao-m0-plus
28868044 nrf52 seeed-xiao-nrf52840
28868045 nrf52
28868049 renesas xiao-ra4m1
28868050 rp2040 seeed-indicator-rp2040
28868055 nrf52 seeed-wio-tracker-1110
28868057 nrf52 seeed-tracker-t1000-e-lorawan
28868058 rp2040 seeed-xiao-rp2350
28868064 nrf52
28868065 nrf52
28868150 rp2040 seeed-indicator-rp2040
28868158 rp2040 seeed-xiao-rp2350
2886C050 rp2040 seeed-indicator-rp2040
2886C058 rp2040 seeed-xiao-rp2350
2886C150 rp2040 seeed-indicator-rp2040
";

/// Table lines, part 5.
pub const BOARDS_05: &'static str = "2886C158 rp2040 seeed-xiao-rp2350
2A030001 avr linino-one
2A030010 avr arduino-mega-or-mega-2560
2A030036 avr arduino-leonardo
2A030037 avr arduino-micro
2A030038 avr arduino-robot-control
2A030039 avr arduino-robot-motor
2A03003C avr arduino-esplora
2A03003F avr arduino-mega-adk
2A030040 avr arduino-leonardo-eth
2A030041 avr arduino-yun
2A030042 avr arduino-mega-or-mega-2560
2A030043 avr arduino-uno
2A030044 avr arduino-mega-adk
2A030050 avr arduino-yun-mini
2A030056 avr arduino-industrial-101
2A030057 avr arduino-uno-wifi
2A038001 avr linino-one
2A038036 avr arduino-leonardo
2A038037 avr arduino-micro
2A038038 avr arduino-robot-control
2A038039 avr arduino-robot-motor
2A03803C avr arduino-esplora
2A038040 avr arduino-leonardo-eth
2A038041 avr arduino-yun
2A038050 avr arduino-yun-mini
2A038056 avr arduino-industrial-101
2E8A0003 rp2040
2E8A000A rp2040
2E8A000F rp2040
2E8A008A rp2040 deruilab-flyboard2040core
2E8A00C0 rp2040 rakwireless-rak11300
2E8A0103 rp2040
2E8A010A rp2040
2E8A010F rp2040
2E8A018A rp2040 deruilab-flyboard2040core
2E8A01C0 rp2040 rakwireless-rak11300
2E8A1000 rp2040
2E8A1005 rp2040 melopero-shake-rp2040
2E8A1006 rp2040 ilabs-challenger-2040-wifi
2E8A1007 rp2040 upesy-rp2040-devkit
2E8A1008 rp2040 pimoroni-pga2040
2E8A100A rp2040
2E8A100B rp2040
2E8A100D rp2040 ilabs-challenger-nb-2040-wifi
2E8A100F rp2040 cytron-maker-nano-rp2040
2E8A1010 rp2040 ilabs-rpico32
2E8A1011 rp2040 melopero-cookie-rp2040
2E8A1018 rp2040 pimoroni-pga2350
2E8A1020 rp2040 waveshare-rp2040-plus
2E8A1021 rp2040 waveshare-rp2040-lcd-0-96
2E8A1023 rp2040 ilabs-challenger-2040-lora
2E8A1027 rp2040
2E8A1028 rp2040 wiznet-wizfi360-evb-pico
2E8A1029 rp2040
2E8A102C rp2040 ilabs-challenger-2040-wifi-ble
2E8A102D rp2040 ilabs-challenger-2040-sd-rtc
2E8A1032 rp2040 ilabs-challenger-2040-subghz
2E8A1036 rp2040 ilabs-challenger-2040-nfc
2E8A1037 rp2040 electroniccats-huntercat-nfc-rp2040
";

/// Table lines, part 6.
pub const BOARDS_06: &'static str = "2E8A1039 rp2040 waveshare-rp2040-lcd-1-28
2E8A103A rp2040
2E8A1041 rp2040 bridgetek-idm2040-7a
2E8A1043 rp2040 newsan-archi
2E8A1052 rp2040 ilabs-challenger-2040-uwb
2E8A105E rp2040 breadstick-raspberry
2E8A105F rp2040 ilabs-challenger-2040-wifi6-ble
2E8A106F rp2040 l-atelier-d-arnoz-dudescab
2E8A1071 rp2040 cytron-maker-uno-rp2040
2E8A107B rp2040 ilabs-connectivity-2040-lte-wifi-ble
2E8A1093 rp2040 cytron-iriv-io-controller
2E8A1096 rp2040 cytron-motion-2350-pro
2E8A109A rp2040 ilabs-challenger-2350-wifi-ble
2E8A109B rp2040 ilabs-challenger-2350-bconnect
2E8A10A5 rp2040
2E8A10AE rp2040 datanoisetv-picoadk-v2
2E8A10B0 rp2040 waveshare-rp2350-zero
2E8A10B1 rp2040 waveshare-rp2350-plus
2E8A10B7 rp2040 waveshare-rp2350-lcd-0-96
2E8A10C0 rp2040 pimoroni-explorer
2E8A10EC rp2040 soldered-electronics-nula-rp2350
2E8A1100 rp2040
2E8A1105 rp2040 melopero-shake-rp2040
2E8A1106 rp2040 ilabs-challenger-2040-wifi
2E8A1107 rp2040 upesy-rp2040-devkit
2E8A1108 rp2040 pimoroni-pga2040
2E8A110A rp2040
2E8A110B rp2040
2E8A110D rp2040
2E8A110F rp2040 cytron-maker-nano-rp2040
2E8A1110 rp2040 ilabs-rpico32
2E8A1111 rp2040 melopero-cookie-rp2040
2E8A1118 rp2040 pimoroni-pga2350
2E8A1120 rp2040 waveshare-rp2040-plus
2E8A1121 rp2040 waveshare-rp2040-lcd-0-96
2E8A1122 rp2040 soldered-electronics-nula-ethernet-w55rp20
2E8A1123 rp2040
2E8A1127 rp2040
2E8A1128 rp2040
2E8A1129 rp2040
2E8A112C rp2040 ilabs-challenger-2040-wifi-ble
2E8A112D rp2040 ilabs-challenger-2040-sd-rtc
2E8A1132 rp2040 ilabs-challenger-2040-subghz
2E8A1136 rp2040 ilabs-challenger-2040-nfc
2E8A1137 rp2040 electroniccats-huntercat-nfc-rp2040
2E8A1139 rp2040 waveshare-rp2040-lcd-1-28
2E8A113A rp2040
2E8A113F rp2040 ilabs-cpico-2350
2E8A1141 rp2040 bridgetek-idm2040-7a
2E8A1143 rp2040
2E8A1152 rp2040 ilabs-challenger-2040-uwb
2E8A115E rp2040 breadstick-raspberry
2E8A115F rp2040 ilabs-challenger-2040-wifi6-ble
2E8A116F rp2040 l-atelier-d-arnoz-dudescab
2E8A1171 rp2040 cytron-maker-uno-rp2040
2E8A117B rp2040 ilabs-connectivity-2040-lte-wifi-ble
2E8A1193 rp2040 cytron-iriv-io-controller
2E8A1196 rp2040 cytron-motion-2350-pro
2E8A119A rp2040 ilabs-challenger-2350-wifi-ble
2E8A119B rp2040 ilabs-challenger-2350-bconnect
";

/// Table lines, part 7.
pub const BOARDS_07: &'static str = "2E8A11A5 rp2040
2E8A11AE rp2040 datanoisetv-picoadk-v2
2E8A11B0 rp2040 waveshare-rp2350-zero
2E8A11B1 rp2040 waveshare-rp2350-plus
2E8A11B7 rp2040 waveshare-rp2350-lcd-0-96
2E8A11C0 rp2040 pimoroni-explorer
2E8A11EC rp2040 soldered-electronics-nula-rp2350
2E8A3001 rp2040 mete-hoca-akana-r1
2E8A3101 rp2040 mete-hoca-akana-r1
2E8A4003 rp2040
2E8A400A rp2040
2E8A400F rp2040
2E8A408A rp2040 deruilab-flyboard2040core
2E8A40C0 rp2040 rakwireless-rak11300
2E8A4103 rp2040
2E8A410A rp2040
2E8A410F rp2040
2E8A418A rp2040 deruilab-flyboard2040core
2E8A41C0 rp2040 rakwireless-rak11300
2E8A5000 rp2040
2E8A5005 rp2040 melopero-shake-rp2040
2E8A5006 rp2040 ilabs-challenger-2040-wifi
2E8A5007 rp2040 upesy-rp2040-devkit
2E8A5008 rp2040 pimoroni-pga2040
2E8A500A rp2040
2E8A500B rp2040
2E8A500D rp2040 ilabs-challenger-nb-2040-wifi
2E8A500F rp2040 cytron-maker-nano-rp2040
2E8A5010 rp2040 ilabs-rpico32
2E8A5011 rp2040 melopero-cookie-rp2040
2E8A5018 rp2040 pimoroni-pga2350
2E8A5020 rp2040 waveshare-rp2040-plus
2E8A5021 rp2040 waveshare-rp2040-lcd-0-96
2E8A5023 rp2040 ilabs-challenger-2040-lora
2E8A5027 rp2040
2E8A5028 rp2040 wiznet-wizfi360-evb-pico
2E8A5029 rp2040
2E8A502C rp2040 ilabs-challenger-2040-wifi-ble
2E8A502D rp2040 ilabs-challenger-2040-sd-rtc
2E8A5032 rp2040 ilabs-challenger-2040-subghz
2E8A5036 rp2040 ilabs-challenger-2040-nfc
2E8A5037 rp2040 electroniccats-huntercat-nfc-rp2040
2E8A5039 rp2040 waveshare-rp2040-lcd-1-28
2E8A503A rp2040
2E8A5041 rp2040 bridgetek-idm2040-7a
2E8A5043 rp2040 newsan-archi
2E8A5052 rp2040 ilabs-challenger-2040-uwb
2E8A505E rp2040 breadstick-raspberry
2E8A505F rp2040 ilabs-challenger-2040-wifi6-ble
2E8A506F rp2040 l-atelier-d-arnoz-dudescab
2E8A5071 rp2040 cytron-maker-uno-rp2040
2E8A507B rp2040 ilabs-connectivity-2040-lte-wifi-ble
2E8A5093 rp2040 cytron-iriv-io-controller
2E8A5096 rp2040 cytron-motion-2350-pro
2E8A509A rp2040 ilabs-challenger-2350-wifi-ble
2E8A509B rp2040 ilabs-challenger-2350-bconnect
2E8A50A5 rp2040
2E8A50AE rp2040 datanoisetv-picoadk-v2
2E8A50B0 rp2040 waveshare-rp2350-zero
2E8A50B1 rp2040 waveshare-rp2350-plus
";

/// Table lines, part 8.
pub const BOARDS_08: &'static str = "2E8A50B7 rp2040 waveshare-rp2350-lcd-0-96
2E8A50C0 rp2040 pimoroni-explorer
2E8A50EC rp2040 soldered-electronics-nula-rp2350
2E8A5100 rp2040
2E8A5105 rp2040 melopero-shake-rp2040
2E8A5106 rp2040 ilabs-challenger-2040-wifi
2E8A5107 rp2040 upesy-rp2040-devkit
2E8A5108 rp2040 pimoroni-pga2040
2E8A510A rp2040
2E8A510B rp2040
2E8A510D rp2040
2E8A510F rp2040 cytron-maker-nano-rp2040
2E8A5110 rp2040 ilabs-rpico32
2E8A5111 rp2040 melopero-cookie-rp2040
2E8A5118 rp2040 pimoroni-pga2350
2E8A5120 rp2040 waveshare-rp2040-plus
2E8A5121 rp2040 waveshare-rp2040-lcd-0-96
2E8A5122 rp2040 soldered-electronics-nula-ethernet-w55rp20
2E8A5123 rp2040
2E8A5127 rp2040
2E8A5128 rp2040
2E8A5129 rp2040
2E8A512C rp2040 ilabs-challenger-2040-wifi-ble
2E8A512D rp2040 ilabs-challenger-2040-sd-rtc
2E8A5132 rp2040 ilabs-challenger-2040-subghz
2E8A5136 rp2040 ilabs-challenger-2040-nfc
2E8A5137 rp2040 electroniccats-huntercat-nfc-rp2040
2E8A5139 rp2040 waveshare-rp2040-lcd-1-28
2E8A513A rp2040
2E8A513F rp2040 ilabs-cpico-2350
2E8A5141 rp2040 bridgetek-idm2040-7a
2E8A5143 rp2040
2E8A5152 rp2040 ilabs-challenger-2040-uwb
2E8A515E rp2040 breadstick-raspberry
2E8A515F rp2040 ilabs-challenger-2040-wifi6-ble
2E8A516F rp2040 l-atelier-d-arnoz-dudescab
2E8A5171 rp2040 cytron-maker-uno-rp2040
2E8A517B rp2040 ilabs-connectivity-2040-lte-wifi-ble
2E8A5193 rp2040 cytron-iriv-io-controller
2E8A5196 rp2040 cytron-motion-2350-pro
2E8A519A rp2040 ilabs-challenger-2350-wifi-ble
2E8A519B rp2040 ilabs-challenger-2350-bconnect
2E8A51A5 rp2040
2E8A51AE rp2040 datanoisetv-picoadk-v2
2E8A51B0 rp2040 waveshare-rp2350-zero
2E8A51B1 rp2040 waveshare-rp2350-plus
2E8A51B7 rp2040 waveshare-rp2350-lcd-0-96
2E8A51C0 rp2040 pimoroni-explorer
2E8A51EC rp2040 soldered-electronics-nula-rp2350
2E8A6E61 rp2040 nullbits-bit-c-pro
2E8A6F61 rp2040 nullbits-bit-c-pro
2E8A7001 rp2040 mete-hoca-akana-r1
2E8A7101 rp2040 mete-hoca-akana-r1
2E8A8003 rp2040
2E8A800A rp2040
2E8A800F rp2040
2E8A808A rp2040 deruilab-flyboard2040core
2E8A80C0 rp2040 rakwireless-rak11300
2E8A8103 rp2040
2E8A810A rp2040
";

/// Table lines, part 9.
pub const BOARDS_09: &'static str = "2E8A810F rp2040
2E8A818A rp2040 deruilab-flyboard2040core
2E8A81C0 rp2040 rakwireless-rak11300
2E8A9000 rp2040
2E8A9005 rp2040 melopero-shake-rp2040
2E8A9006 rp2040 ilabs-challenger-2040-wifi
2E8A9007 rp2040 upesy-rp2040-devkit
2E8A9008 rp2040 pimoroni-pga2040
2E8A900A rp2040
2E8A900B rp2040
2E8A900D rp2040 ilabs-challenger-nb-2040-wifi
2E8A900F rp2040 cytron-maker-nano-rp2040
2E8A9010 rp2040 ilabs-rpico32
2E8A9011 rp2040 melopero-cookie-rp2040
2E8A9018 rp2040 pimoroni-pga2350
2E8A9020 rp2040 waveshare-rp2040-plus
2E8A9021 rp2040 waveshare-rp2040-lcd-0-96
2E8A9023 rp2040 ilabs-challenger-2040-lora
2E8A9027 rp2040
2E8A9028 rp2040 wiznet-wizfi360-evb-pico
2E8A9029 rp2040
2E8A902C rp2040 ilabs-challenger-2040-wifi-ble
2E8A902D rp2040 ilabs-challenger-2040-sd-rtc
2E8A9032 rp2040 ilabs-challenger-2040-subghz
2E8A9036 rp2040 ilabs-challenger-2040-nfc
2E8A9037 rp2040 electroniccats-huntercat-nfc-rp2040
2E8A9039 rp2040 waveshare-rp2040-lcd-1-28
2E8A903A rp2040
2E8A9041 rp2040 bridgetek-idm2040-7a
2E8A9043 rp2040 newsan-archi
2E8A9052 rp2040 ilabs-challenger-2040-uwb
2E8A905E rp2040 breadstick-raspberry
2E8A905F rp2040 ilabs-challenger-2040-wifi6-ble
2E8A906F rp2040 l-atelier-d-arnoz-dudescab
2E8A9071 rp2040 cytron-maker-uno-rp2040
2E8A907B rp2040 ilabs-connectivity-2040-lte-wifi-ble
2E8A9093 rp2040 cytron-iriv-io-controller
2E8A9096 rp2040 cytron-motion-2350-pro
2E8A909A rp2040 ilabs-challenger-2350-wifi-ble
2E8A909B rp2040 ilabs-challenger-2350-bconnect
2E8A90A5 rp2040
2E8A90AE rp2040 datanoisetv-picoadk-v2
2E8A90B0 rp2040 waveshare-rp2350-zero
2E8A90B1 rp2040 waveshare-rp2350-plus
2E8A90B7 rp2040 waveshare-rp2350-lcd-0-96
2E8A90C0 rp2040 pimoroni-explorer
2E8A90EC rp2040 soldered-electronics-nula-rp2350
2E8A9100 rp2040
2E8A9101 rp2040 pintronix-pinmax
2E8A9105 rp2040 melopero-shake-rp2040
2E8A9106 rp2040 ilabs-challenger-2040-wifi
2E8A9107 rp2040 upesy-rp2040-devkit
2E8A9108 rp2040 pimoroni-pga2040
2E8A910A rp2040
2E8A910B rp2040
2E8A910D rp2040
2E8A910F rp2040 cytron-maker-nano-rp2040
2E8A9110 rp2040 ilabs-rpico32
2E8A9111 rp2040 melopero-cookie-rp2040
2E8A9118 rp2040 pimoroni-pga2350
";

/// Table lines, part 10.
pub const BOARDS_10: &'static str = "2E8A9120 rp2040 waveshare-rp2040-plus
2E8A9121 rp2040 waveshare-rp2040-lcd-0-96
2E8A9122 rp2040 soldered-electronics-nula-ethernet-w55rp20
2E8A9123 rp2040
2E8A9127 rp2040
2E8A9128 rp2040
2E8A9129 rp2040
2E8A912C rp2040 ilabs-challenger-2040-wifi-ble
2E8A912D rp2040 ilabs-challenger-2040-sd-rtc
2E8A9132 rp2040 ilabs-challenger-2040-subghz
2E8A9136 rp2040 ilabs-challenger-2040-nfc
2E8A9137 rp2040 electroniccats-huntercat-nfc-rp2040
2E8A9139 rp2040 waveshare-rp2040-lcd-1-28
2E8A913A rp2040
2E8A913F rp2040 ilabs-cpico-2350
2E8A9141 rp2040 bridgetek-idm2040-7a
2E8A9143 rp2040
2E8A9152 rp2040 ilabs-challenger-2040-uwb
2E8A915E rp2040 breadstick-raspberry
2E8A915F rp2040 ilabs-challenger-2040-wifi6-ble
2E8A916F rp2040 l-atelier-d-arnoz-dudescab
2E8A9171 rp2040 cytron-maker-uno-rp2040
2E8A917B rp2040 ilabs-connectivity-2040-lte-wifi-ble
2E8A9193 rp2040 cytron-iriv-io-controller
2E8A9196 rp2040 cytron-motion-2350-pro
2E8A919A rp2040 ilabs-challenger-2350-wifi-ble
2E8A919B rp2040 ilabs-challenger-2350-bconnect
2E8A91A5 rp2040
2E8A91AE rp2040 datanoisetv-picoadk-v2
2E8A91B0 rp2040 waveshare-rp2350-zero
2E8A91B1 rp2040 waveshare-rp2350-plus
2E8A91B7 rp2040 waveshare-rp2350-lcd-0-96
2E8A91C0 rp2040 pimoroni-explorer
2E8A91EC rp2040 soldered-electronics-nula-rp2350
2E8AB001 rp2040 mete-hoca-akana-r1
2E8AB101 rp2040 mete-hoca-akana-r1
2E8AC003 rp2040
2E8AC00A rp2040
2E8AC00F rp2040
2E8AC08A rp2040 deruilab-flyboard2040core
2E8AC0C0 rp2040 rakwireless-rak11300
2E8AC103 rp2040
2E8AC10A rp2040
2E8AC10F rp2040
2E8AC18A rp2040 deruilab-flyboard2040core
2E8AC1C0 rp2040 rakwireless-rak11300
2E8AD000 rp2040
2E8AD005 rp2040 melopero-shake-rp2040
2E8AD006 rp2040 ilabs-challenger-2040-wifi
2E8AD007 rp2040 upesy-rp2040-devkit
2E8AD008 rp2040 pimoroni-pga2040
2E8AD00A rp2040
2E8AD00B rp2040
2E8AD00D rp2040 ilabs-challenger-nb-2040-wifi
2E8AD00F rp2040 cytron-maker-nano-rp2040
2E8AD010 rp2040 ilabs-rpico32
2E8AD011 rp2040 melopero-cookie-rp2040
2E8AD018 rp2040 pimoroni-pga2350
2E8AD020 rp2040 waveshare-rp2040-plus
2E8AD021 rp2040 waveshare-rp2040-lcd-0-96
";

/// Table lines, part 11.
pub const BOARDS_11: &'static str = "2E8AD023 rp2040 ilabs-challenger-2040-lora
2E8AD027 rp2040
2E8AD028 rp2040 wiznet-wizfi360-evb-pico
2E8AD029 rp2040
2E8AD02C rp2040 ilabs-challenger-2040-wifi-ble
2E8AD02D rp2040 ilabs-challenger-2040-sd-rtc
2E8AD032 rp2040 ilabs-challenger-2040-subghz
2E8AD036 rp2040 ilabs-challenger-2040-nfc
2E8AD037 rp2040 electroniccats-huntercat-nfc-rp2040
2E8AD039 rp2040 waveshare-rp2040-lcd-1-28
2E8AD03A rp2040
2E8AD041 rp2040 bridgetek-idm2040-7a
2E8AD043 rp2040 newsan-archi
2E8AD052 rp2040 ilabs-challenger-2040-uwb
2E8AD05E rp2040 breadstick-raspberry
2E8AD05F rp2040 ilabs-challenger-2040-wifi6-ble
2E8AD06F rp2040 l-atelier-d-arnoz-dudescab
2E8AD071 rp2040 cytron-maker-uno-rp2040
2E8AD07B rp2040 ilabs-connectivity-2040-lte-wifi-ble
2E8AD093 rp2040 cytron-iriv-io-controller
2E8AD096 rp2040 cytron-motion-2350-pro
2E8AD09A rp2040 ilabs-challenger-2350-wifi-ble
2E8AD09B rp2040 ilabs-challenger-2350-bconnect
2E8AD0A5 rp2040
2E8AD0AE rp2040 datanoisetv-picoadk-v2
2E8AD0B0 rp2040 waveshare-rp2350-zero
2E8AD0B1 rp2040 waveshare-rp2350-plus
2E8AD0B7 rp2040 waveshare-rp2350-lcd-0-96
2E8AD0C0 rp2040 pimoroni-explorer
2E8AD0EC rp2040 soldered-electronics-nula-rp2350
2E8AD100 rp2040
2E8AD101 rp2040 pintronix-pinmax
2E8AD105 rp2040 melopero-shake-rp2040
2E8AD106 rp2040 ilabs-challenger-2040-wifi
2E8AD107 rp2040 upesy-rp2040-devkit
2E8AD108 rp2040 pimoroni-pga2040
2E8AD10A rp2040
2E8AD10B rp2040
2E8AD10D rp2040
2E8AD10F rp2040 cytron-maker-nano-rp2040
2E8AD110 rp2040 ilabs-rpico32
2E8AD111 rp2040 melopero-cookie-rp2040
2E8AD118 rp2040 pimoroni-pga2350
2E8AD120 rp2040 waveshare-rp2040-plus
2E8AD121 rp2040 waveshare-rp2040-lcd-0-96
2E8AD122 rp2040 soldered-electronics-nula-ethernet-w55rp20
2E8AD123 rp2040
2E8AD127 rp2040
2E8AD128 rp2040
2E8AD129 rp2040
2E8AD12C rp2040 ilabs-challenger-2040-wifi-ble
2E8AD12D rp2040 ilabs-challenger-2040-sd-rtc
2E8AD132 rp2040 ilabs-challenger-2040-subghz
2E8AD136 rp2040 ilabs-challenger-2040-nfc
2E8AD137 rp2040 electroniccats-huntercat-nfc-rp2040
2E8AD139 rp2040 waveshare-rp2040-lcd-1-28
2E8AD13A rp2040
2E8AD13F rp2040 ilabs-cpico-2350
2E8AD141 rp2040 bridgetek-idm2040-7a
2E8AD143 rp2040
";

/// Table lines, part 12.
pub const BOARDS_12: &'static str = "2E8AD152 rp2040 ilabs-challenger-2040-uwb
2E8AD15E rp2040 breadstick-raspberry
2E8AD15F rp2040 ilabs-challenger-2040-wifi6-ble
2E8AD16F rp2040 l-atelier-d-arnoz-dudescab
2E8AD171 rp2040 cytron-maker-uno-rp2040
2E8AD17B rp2040 ilabs-connectivity-2040-lte-wifi-ble
2E8AD193 rp2040 cytron-iriv-io-controller
2E8AD196 rp2040 cytron-motion-2350-pro
2E8AD19A rp2040 ilabs-challenger-2350-wifi-ble
2E8AD19B rp2040 ilabs-challenger-2350-bconnect
2E8AD1A5 rp2040
2E8AD1AE rp2040 datanoisetv-picoadk-v2
2E8AD1B0 rp2040 waveshare-rp2350-zero
2E8AD1B1 rp2040 waveshare-rp2350-plus
2E8AD1B7 rp2040 waveshare-rp2350-lcd-0-96
2E8AD1C0 rp2040 pimoroni-explorer
2E8AD1EC rp2040 soldered-electronics-nula-rp2350
2E8AEE20 rp2040 extremeelectronics-rc2040
2E8AEE61 rp2040 nullbits-bit-c-pro
2E8AEF20 rp2040 extremeelectronics-rc2040
2E8AEF61 rp2040 nullbits-bit-c-pro
2E8AF001 rp2040 mete-hoca-akana-r1
2E8AF00A rp2040
2E8AF00F rp2040
2E8AF101 rp2040 mete-hoca-akana-r1
2E8AF10A rp2040
2E8AF10F rp2040
2E8BF00A rp2040
2E8BF10A rp2040
33434253 rp2040 dfrobot-beetle-rp2040
33434353 rp2040 dfrobot-beetle-rp2040
3343C253 rp2040 dfrobot-beetle-rp2040
3343C353 rp2040 dfrobot-beetle-rp2040
";

} // verus!
