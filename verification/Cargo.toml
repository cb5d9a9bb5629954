[package]
name = "mavlink"
version = "0.1.0"
edition = "2021"
publish = false

[dependencies]
byteorder = "1"
bytes = "0.4"
crc16 = "0.4"
num-derive = "0.2"
num-traits = "0.2"
bitflags = "1"
