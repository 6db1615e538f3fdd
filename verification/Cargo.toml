[package]
name = "vec_draw"
version = "0.1.0"
edition = "2021"
publish = false

[dependencies]
piet = "0.6"
piet-web = "0.6"
kurbo = "0.9"
svgtypes = "0.15"
wasm-bindgen = "0.2"
wasm-bindgen-futures = "0.4"
js-sys = "0.3"
web-sys = { version = "0.3", features = ["Blob", "BlobPropertyBag", "CanvasGradient", "CanvasRenderingContext2d", "CompositionEvent", "CssStyleDeclaration", "DataTransfer", "Document", "DomParser", "DomRect", "DragEvent", "Element", "Event", "EventTarget", "File", "FileList", "FileReader", "Headers", "HtmlAnchorElement", "HtmlCanvasElement", "HtmlDivElement", "HtmlElement", "HtmlImageElement", "HtmlInputElement", "HtmlTextAreaElement", "ImageData", "InputEvent", "KeyboardEvent", "MouseEvent", "Node", "NodeList", "Path2d", "Request", "RequestInit", "RequestMode", "Response", "SupportedType", "TextMetrics", "UiEvent", "Url", "WheelEvent", "Window", "console"] }
log = "0.4"
console_log = "1"
once_cell = "1"
rand = "0.8"
serde = { version = "1", features = ["derive"] }
serde_json = "1"
