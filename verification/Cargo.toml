[package]
name = "mongo_php_async_driver"
version = "0.1.0"
edition = "2021"
publish = false

[dependencies]
mongodb = "2"
anyhow = "1"
tokio = { version = "1", features = ["sync", "rt"] }
ext-php-rs = "*"
php-tokio = "*"
