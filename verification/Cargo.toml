[package]
name = "clue_solver"
version = "0.1.0"
edition = "2021"
publish = false

[dependencies]
hashbrown = "*"
crossterm = "*"
parking_lot = "*"
toml = "*"
