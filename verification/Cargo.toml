[package]
name = "carbon1dot1_assembler"
version = "0.1.0"
edition = "2021"
publish = false

[dependencies]
clap = { version = "*", features = ["derive"] }
codespan-reporting = "*"
lalrpop-util = "*"
mcschem = "*"
