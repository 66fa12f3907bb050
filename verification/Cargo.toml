[package]
name = "ssm_config"
version = "0.1.0"
edition = "2021"
publish = false

[dependencies]
serde_json = "1"
handlebars = "*"
serde = "*"
serde_derive = "*"
clap = "*"
daemonize = "*"
rusoto_core = "0.48"
rusoto_kinesis = "0.48"
rusoto_ssm = "0.48"
futures = "0.3"
