# SrkOS

The core of a small companion OS for the ESP32: a face on an OLED display with a
menu behind one button, a camera, a microphone, a web API and an ESP-NOW receiver,
joined by a bounded command bus.

`src/` is the library, verified with Verus. It holds the decisions and touches no
hardware:

| Module          | What it does                                                     |
|-----------------|------------------------------------------------------------------|
| `ipc`           | Commands, and the bounded first-in first-out bus                  |
| `hardware`      | Which peripherals answer on the I2C bus, and what is spawned      |
| `json`          | Reading a JSON command object                                     |
| `text`          | Splitting UTF-8 text at ASCII marks                               |
| `tasks::audio`  | Ping-pong buffers of the microphone, audio state                  |
| `tasks::button` | From the length of a press to a command                           |
| `tasks::camera` | Ring of JPEG frames, camera state                                 |
| `tasks::espnow` | Payloads of ESP-NOW frames                                        |
| `tasks::http`   | Connection limit, requests, JSON API, routes, responses, streams  |
| `tasks::oled`   | Display state, menu, closing of an idle menu                      |

`app/` is the firmware around it: drivers, tasks, shared statics.
`tests/` runs the library on concrete values.
