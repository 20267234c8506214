[package]
name = "ogc-cql2"
version = "0.1.0"
edition = "2021"
publish = false

[dependencies]
jiff = "=0.2.39"
unicase = "=2.10.0"
unicode-normalization = "=0.1.26"
regress = "=0.10.5"
dotenvy = "=0.15.7"
sqlx = { version = "=0.9.0", default-features = false, features = ["runtime-tokio", "sqlite", "postgres"] }
