[package]
name = "flight_core"
version = "0.1.0"
edition = "2021"
publish = false

[dependencies]
rocket = { version = "=0.5.2", features = ["json"] }
rocket_dyn_templates = { version = "=0.2.0", features = ["tera"] }
rppal = "=0.22.1"
bno055 = "=0.4.0"
bmp085 = "=0.1.2"
i2cdev = "=0.3.2"
linux-embedded-hal = "=0.5.0"
quaternion-core = "=0.6.2"
adafruit_gps = "=0.4.1"
ArmlabRadio = "*"

[dev-dependencies]
rand = "=0.8.8"
