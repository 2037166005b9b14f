[package]
name = "react_transform"
version = "0.1.0"
edition = "2021"
publish = false

[dependencies]
sha1 = "*"
hex = "*"
convert_case = "*"
swc_core = { version = "*", default-features = false, features = ["common", "ecma_ast", "ecma_parser", "ecma_visit"] }
