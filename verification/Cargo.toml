[package]
name = "handy"
version = "0.1.0"
edition = "2021"
publish = false

[dependencies]
regex = "=1.13.1"
natural = "=0.5.0"
strsim = "=0.11.1"
log = "=0.4.35"
x11rb = "=0.13.2"
atspi = "=0.30.0"
handy-keys = "=0.3.4"
enigo = { version = "=0.6.1", default-features = false, features = ["x11rb"] }
win-text-inject = "=0.1.1"
windows = { version = "=0.58.0", features = ["Win32_System_Com", "Win32_System_Ole", "Win32_UI_Accessibility", "Win32_Foundation"] }
