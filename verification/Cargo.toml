[package]
name = "harmonica_to_kalimba_tab"
version = "0.1.0"
edition = "2021"
publish = false

[dependencies]
egui = "=0.23.0"
