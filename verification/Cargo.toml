[package]
name = "shvclient"
version = "0.1.0"
edition = "2021"
publish = false

[dependencies]
shvproto = "*"
shvrpc = "*"
futures = "=0.3.34"
async-broadcast = "=0.7.2"
log = "=0.4.34"
