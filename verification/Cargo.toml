[package]
name = "payjoin-blackpill-test"
version = "0.1.0"
edition = "2021"
publish = false

[dependencies]
payjoin = "*"
bitcoin = "0.32"
usb-device = "0.3"
usbd-serial = "0.2"
stm32f4xx-hal = { version = "0.21", features = ["stm32f411", "usb_fs"] }
cortex-m = "0.7"
cortex-m-rt = "0.7"
panic-halt = "*"
linked_list_allocator = "0.10"
