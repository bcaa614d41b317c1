[package]
name = "ncmpc"
version = "0.1.0"
edition = "2021"
publish = false

[dependencies]
time = "0.1"
chrono = "0.4"
getopts = "*"
mpd = "*"
ncurses = "*"
rust-ini = "*"
xdg = "*"
