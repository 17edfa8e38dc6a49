[package]
name = "blogwatch"
version = "0.1.0"
edition = "2021"
publish = false

[dependencies]
chrono = "=0.4.45"
rss = "=2.1.2"
atom_syndication = "=0.12.10"
quick-xml = "=0.37.5"
scraper = "=0.27.0"
serde = { version = "=1.0.229", features = ["derive"] }
serde_json = "=1.0.151"
reqwest = { version = "=0.13.5", default-features = false }
tokio = { version = "=1.53.2", features = ["macros", "rt-multi-thread"] }
async-trait = "=0.1.92"
