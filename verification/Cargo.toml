[package]
name = "stackable_api"
version = "0.1.0"
edition = "2021"
publish = false

[dependencies]
kube = { version = "*", default-features = false, features = ["client"] }
k8s-openapi = { version = "*", features = ["latest"] }
snafu = "*"

[dev-dependencies]
tokio = { version = "*", features = ["rt", "time"] }
tower-test = "*"
http = "*"
