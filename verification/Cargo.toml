[package]
name = "iceth"
version = "0.1.0"
edition = "2021"
publish = false

[dependencies]
url = "=2.5.8"
candid = "=0.8.4"
ic-cdk = "=0.7.4"
ic-cdk-macros = "=0.6.10"
ic-stable-structures = "=0.5.6"
ic-metrics-encoder = "=1.1.2"
ic-canister-log = "=0.1.0"
ic-canister-serve = "=0.1.0"
serde = "=1.0.229"
