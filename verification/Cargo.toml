[package]
name = "screen_inspector"
version = "0.1.0"
edition = "2021"
publish = false

[dependencies]
anyhow = "1"
appkit-nsworkspace-bindings = "0.1"
chrono = "0.4"
core-foundation = "0.9"
core-graphics = "0.22"
device_query = "1"
dirs = "5"
dotenv = "0.15"
env_logger = "0.10"
log = "0.4"
objc = "0.2"
regex = "1"
ureq = "2"
whoami = "1"
