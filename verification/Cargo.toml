[package]
name = "cpu_sim"
version = "0.1.0"
edition = "2021"

[dependencies]
eframe = "0.17"
egui = "0.17"
