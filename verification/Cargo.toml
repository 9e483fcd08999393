[package]
name = "i2c_mqtt_gateway"
version = "0.1.0"
edition = "2021"
publish = false

[dependencies]
serde = "*"
serde_derive = "*"
serde_json = "*"
serde_yaml = "*"
uuid = { version = "*", features = ["v4"] }
rumqttc = "*"
bytes = "*"
docopt = "*"
pretty_env_logger = "*"
