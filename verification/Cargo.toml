[package]
name = "geo_validity_check"
version = "0.1.0"
edition = "2021"
publish = false

[dependencies]
geo = "*"
geo-types = "*"
