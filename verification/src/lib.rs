//! Verified core of an SHT20 temperature/humidity node: the text, frame and
//! decision logic that sits between the device's storage, Wi-Fi radio, I2C
//! sensor and MQTT broker.
pub mod nvs_text;
pub mod text;
pub mod provisioning;
pub mod ssid_list;
pub mod link;
pub mod status;
pub mod mqtt;
pub mod sht20;
