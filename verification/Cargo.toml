[package]
name = "wx_widgets_bindgen_helpers"
version = "0.1.0"
edition = "2021"
publish = false

[dependencies]
failure = "=0.1.8"
failure_derive = "=0.1.8"
minidom = "=0.10.1"
quick-xml = "=0.13.3"
single = "=1.0.1"
