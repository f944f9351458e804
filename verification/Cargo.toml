[package]
name = "duald"
version = "0.1.0"
edition = "2021"
publish = false

[dependencies]
console_log = "=1.1.0"
fern = "=0.7.1"
log = "=0.4.34"
wasm-bindgen = "=0.2.129"

[dependencies.web-sys]
version = "=0.3.106"
features = [
    "CharacterData",
    "CssStyleDeclaration",
    "Document",
    "DomTokenList",
    "Element",
    "EventTarget",
    "HtmlElement",
    "Node",
    "NodeList",
    "Range",
    "Selection",
    "Text",
    "Window",
]
