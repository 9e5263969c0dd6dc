[package]
name = "magic_school_bus"
version = "0.1.0"
edition = "2021"
publish = false

[dependencies]
all_term = "*"
clap = "*"
open = "*"
