[package]
name = "gecko"
version = "0.1.0"
edition = "2021"

[dependencies]
tinyjson = "2"
