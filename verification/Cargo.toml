[package]
name = "stopandwait"
version = "0.1.0"
edition = "2021"
publish = false

[dependencies]
clap = "=4.6.7"
crc32fast = "=1.5.2"
env_logger = "=0.11.11"
log = "=0.4.34"
rand = "=0.10.3"
