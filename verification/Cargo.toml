[package]
name = "sched_balance"
version = "0.1.0"
edition = "2021"
publish = false

[dependencies]
log = "=0.4.35"
cfg-if = "=1.0.5"
crate_interface = "=0.1.4"
kernel_guard = "=0.1.3"
kspin = "=0.1.1"
axhal = "=0.2.2-preview.6"
axconfig = "=0.2.2-preview.2"
