# lora_chat

Firmware logic for a two-node LoRa text messenger on an ESP32 board with an
SX1276 radio, an SSD1306 display, a serial console and a BLE Nordic UART
service.

`src/` is the library, verified with Verus:

- `protocol` — the frame format (type/destination nibbles, id, size, UTF-8
  text, XOR checksum), its parser and encoders, stated against
  `packet_from_wire` / `message_frame`, with round-trip laws.
- `session` — duplicate suppression for received ids and acknowledgement
  tracking with retransmission and give-up for sent frames.
- `coordinator` — the decisions the radio task takes on a received frame,
  on a line of user input, and on each listen-before-talk channel check.
- `display` — the chat history and the radio settings menu, and how events
  move between the two screens.
- `uart`, `ble`, `storage` — line assembly from the serial port, the BLE
  notification and write payloads, and the flash sector layout of the peer
  list.
- `text`, `bounded`, `clock` — the contracts of the `heapless` strings and
  vectors and of the `embassy-time` clock that the logic relies on.

`app/` holds the hardware tasks (radio driver, display drawing, UART, BLE
stack, flash, the async coordinator loop) that run the library's decisions.
