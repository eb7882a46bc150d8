# sht20_node

Firmware logic of an ESP32 node that reads an SHT20 temperature/humidity
sensor, publishes the readings over MQTT, takes on/off commands for an LED,
and offers a Wi-Fi provisioning portal when it cannot join a network.

- `src/` is the verified library (Verus):
  - `text` — splitting a text on a pattern and replacing a pattern, with the
    split/join laws;
  - `nvs_text` — reading string settings out of their NUL-padded buffer;
  - `provisioning` — the portal's form parsing (URL-decoding through the
    `urlencoding` crate) and page rendering, with the form round-trip law;
  - `ssid_list` — the list of networks seen by scans, kept free of repeats;
  - `link` — the Wi-Fi connection procedure as a state machine (retries,
    fallback to the portal), with its attempt-budget law;
  - `status` — the status report published to the broker;
  - `mqtt` — topics and the switch command carried by broker events;
  - `sht20` — sensor commands and the raw measurement frame.
- `app/` is the device program around it: peripherals, Wi-Fi radio, storage,
  HTTP server, MQTT client and the sensor's floating-point conversion.
  Its settings (node id, broker, credentials) come from build-time
  environment variables.
- `tests/` exercises the library on concrete values.
