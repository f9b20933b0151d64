//! Battery state logic for a tray indicator of Razer wireless devices: reading
//! the openrazer sysfs attributes, filtering the readings, choosing the device
//! shown, and the texts and pictures the tray displays.

pub mod args;
pub mod config;
pub mod device;
pub mod icon;
pub mod ids;
pub mod label;
pub mod level;
pub mod state;
pub mod sysfs;
pub mod text;

pub use ids::{extract_persistent_id, parse_persisted_selection};
pub use label::{format_device_label, DEFAULT_DEVICE_NAME};
pub use level::{apply_debounce, apply_sleep_detection, SLEEP_DETECTION_MIN_DROP};
