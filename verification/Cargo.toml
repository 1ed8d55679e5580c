[package]
name = "mailsignals"
version = "0.1.0"
edition = "2021"
publish = false

[dependencies]
mailparse = "=0.18.0"
regex = "=1.13.1"

[dev-dependencies]
data-encoding = "=2.11.1"
quoted_printable = "=0.5.2"
