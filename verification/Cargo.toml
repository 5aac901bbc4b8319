[package]
name = "ssh3"
version = "0.1.0"
edition = "2021"
publish = false

[dependencies]
async-trait = "0.1"
base64 = "0.22"
bytes = "1"
clap = { version = "4", features = ["derive"] }
h3 = "0.0.8"
h3-quinn = "0.0.10"
http = "1"
nix = { version = "0.30", features = ["fs", "process", "signal", "term", "user"] }
p256 = "0.13"
quinn = { version = "0.11", default-features = false, features = ["runtime-tokio", "rustls-ring"] }
rand = "0.8"
rcgen = "0.14"
reqwest = { version = "0.12", default-features = false, features = ["json", "rustls-tls"] }
rsa = { version = "0.9", features = ["sha2"] }
rustls = { version = "0.23", default-features = false, features = ["logging", "ring", "std", "tls12"] }
rustls-pemfile = "2"
serde = { version = "1", features = ["derive"] }
serde_json = "1"
sha2 = "0.10"
signature = "2"
ssh-key = { version = "0.6", features = ["ed25519", "p256", "rsa"] }
tokio = { version = "1", features = ["full"] }
url = "2"
webpki-roots = "1"
