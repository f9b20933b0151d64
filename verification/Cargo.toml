[package]
name = "razer_tray"
version = "0.4.0"
edition = "2021"
publish = false

[dependencies]
png = "0.17"
glob = "0.3"
ksni = "0.2"
notify-rust = "4"
