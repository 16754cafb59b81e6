[package]
name = "tsv_csv_to_sql"
version = "0.1.0"
edition = "2021"
publish = false

[dependencies]
clap = "2"
