[package]
name = "nu_plugin_plot"
version = "0.1.0"
edition = "2021"
publish = false

[dependencies]
owo-colors = "=4.4.0"
nu-plugin = "=0.112.2"
nu-protocol = "=0.112.2"
term_size = "=0.3.2"
