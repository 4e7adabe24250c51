[package]
name = "mp3_pipeline"
version = "0.1.0"
edition = "2021"
publish = false

[dependencies]
minimp3_fixed = "=0.5.4"
rubato = "=0.14.1"
cpal = "=0.18.2"
