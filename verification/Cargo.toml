[package]
name = "digital_rain"
version = "0.2.4"
edition = "2021"
publish = false

[dependencies]
rand = "0.8"
rand_distr = "0.4"
css-color-parser = "0.1"
clap = "2"
itertools = "0.10"
ncurses = "5"
