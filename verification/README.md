# fin_esp

The logic of a desk display on an ESP32: live prices and weather on a 20x4 character LCD, a lamp on
the LAN, media keys, a climate sensor, an infrared remote, a dashboard and updates over the air.

`src/` is the library. Every function in it has a contract that Verus proves; `law_...` functions
state what holds of the library as a whole. `app/` is the firmware around it: pins, flash, sockets,
threads and floating point. `tests/` runs the library.

| Module | What it does |
| --- | --- |
| `lcd`, `cgram`, `glyphs`, `screen` | the display: bytes on the bus, custom characters, what it holds |
| `ticker`, `chart`, `fmt`, `calendar`, `history` | the price screens and the line chart |
| `sand` | falling sand and water while the device connects |
| `api`, `json`, `cache`, `persist` | market data: answers of the services, what is kept in flash |
| `tuya`, `ir_remote` | the lamp and the remote that controls it |
| `dht22`, `pulse` | the climate sensor and its cached charts |
| `media`, `led` | media keys, microphones, LEDs |
| `web` | requests to the dashboard, and the answers |
| `ota` | updates over the air |
| `panel`, `desk`, `volume` | the boot sequence, the main loop, the volume knob |
| `bits`, `clock`, `config`, `double`, `text` | what the others share |

Real numbers are carried through the library by their bits (`double::Double`); it looks at their sign
only. Whatever takes arithmetic on them, or writes them out, is done in `app/numbers.rs`.
