[package]
name = "solver_pipeline"
version = "0.1.0"
edition = "2021"
publish = false

[dependencies]
serde_json = "1"
structopt = "0.3"
sysinfo = "0.39"
