[package]
name = "graphql_client_codegen"
version = "0.1.0"
edition = "2021"
publish = false

[dependencies]
heck = "*"
graphql-parser = "*"
