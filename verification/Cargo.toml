[package]
name = "graphql_pal"
version = "0.1.0"
edition = "2021"
publish = false

[dependencies]
colored = "=2.2.0"
globwalk = "=0.8.1"
graphql-parser = "=0.4.1"
indicatif = "0.17"
md5 = "=0.7.0"
serde = { version = "=1.0.229", features = ["derive"] }
serde_json = "=1.0.154"
structopt = "=0.3.26"
swc_atoms = "=10.0.0"
swc_common = { version = "=26.0.0", features = ["tty-emitter"] }
swc_ecma_ast = "=29.0.2"
swc_ecma_parser = "=46.1.2"
swc_ecma_visit = "=29.0.0"
