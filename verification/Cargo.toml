[package]
name = "ferris_the_waiter"
version = "0.1.0"
edition = "2021"
publish = false

[dependencies]
bcrypt = "=0.15.1"
rand = "=0.8.8"
chrono = "=0.4.45"
shlex = "=1.3.0"
serde = { version = "=1.0.229", features = ["derive"] }
serde_json = "=1.0.154"
toml = "=0.8.23"
tokio = { version = "=1.54.1", features = ["full"] }
axum = { version = "=0.7.9", features = ["ws", "macros"] }
futures = "=0.3.34"
log = "=0.4.35"
env_logger = "=0.11.11"
leptos = { version = "=0.6.15", features = ["ssr"] }
leptos_axum = "=0.6.15"
leptos_meta = { version = "=0.6.15", features = ["ssr"] }
leptos-use = { version = "=0.13.13", features = ["ssr"] }
codee = "=0.2.0"
tower = "=0.4.13"
tower-http = { version = "0.5", features = ["fs"] }
wasm-bindgen = "=0.2.130"
web-sys = { version = "=0.3.107", features = ["HtmlElement", "HtmlDivElement", "MouseEvent", "console"] }
console_error_panic_hook = "=0.1.7"
