[package]
name = "gesture_backup"
version = "0.1.0"
edition = "2021"
publish = false

[dependencies]
chrono = { version = "=0.4.45", default-features = false, features = ["clock", "std"] }
sysinfo = { version = "0.32", default-features = false, features = ["disk", "system"] }
device_query = "2.1"
rdev = "0.5"
num_cpus = "1"
glob = "0.3"
fs_extra = "1"
cpu-time = "1"
