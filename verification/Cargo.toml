[package]
name = "vibeio"
version = "0.1.0"
edition = "2021"
publish = false

[dependencies]
slab = "=0.4.12"
tm-wheel = "=0.1.1"
crossbeam-queue = "=0.3.14"
crossbeam-channel = "=0.5.17"
futures-util = "=0.3.34"
libc = "=0.2.191"
mio = { version = "=1.2.4", features = ["os-poll", "os-ext"] }
io-uring = "=0.7.15"
hyper = "=1.12.0"
tokio = { version = "=1.54.1", features = ["io-util"] }
windows-sys = { version = "=0.61.2", features = ["Win32_Foundation", "Win32_Networking_WinSock", "Win32_Storage_FileSystem", "Win32_System_IO"] }
