[package]
name = "ogc"
version = "0.1.0"
edition = "2021"
publish = false

[dependencies]
anyhow = "=1.0.104"
async-trait = "=0.1.92"
bytes = "=1.12.1"
clap = { version = "=4.6.7", features = ["derive"] }
colored = "=3.1.1"
crossterm = "=0.29.0"
epsg = "=11.1.2"
geo-types = "=0.7.20"
geojson = "=1.0.0"
prettytable-rs = "=0.10.0"
reqwest = { version = "=0.13.5", default-features = false }
serde = { version = "=1.0.229", features = ["derive"] }
serde-xml-rs = "=0.8.2"
shapefile = { version = "=0.9.0", features = ["geo-types"] }
strum = { version = "=0.28.0", features = ["derive"] }
tokio = { version = "=1.53.2", features = ["macros", "rt-multi-thread"] }
tui = "=0.19.0"
url = "=2.5.8"
