[package]
name = "boolean_function_extender"
version = "0.1.0"
edition = "2021"
publish = false

[dependencies]
fast-boolean-anf-transform = "*"
gen-combinations = "*"
numext-fixed-uint = "0.1.6"
rayon = "*"
