[package]
name = "multicast_socket"
version = "0.1.0"
edition = "2021"
publish = false

[dependencies]
socket2 = { version = "0.3.19", features = ["reuseport"] }
nix = "0.19"
libc = "0.2"
if-addrs = "0.10"
get_if_addrs = "0.5.3"
winapi = { version = "0.3.9", features = ["inaddr", "iphlpapi", "iptypes", "minwindef", "mswsock", "winsock2", "ws2def", "ws2ipdef"] }
