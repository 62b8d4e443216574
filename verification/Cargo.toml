[package]
name = "bevy_webxr"
version = "0.1.0"
edition = "2021"
publish = false

[dependencies]
bevy = { version = "0.12", default-features = false }
glow = "0.12"
js-sys = "0.3"
thiserror = "1"
wasm-bindgen = "0.2"
wasm-bindgen-futures = "0.4"
web-sys = { version = "0.3", features = ["Document", "DomPointReadOnly", "Element", "Gamepad", "GamepadButton", "HtmlButtonElement", "HtmlCanvasElement", "HtmlElement", "Navigator", "Node", "WebGl2RenderingContext", "WebGlFramebuffer", "Window", "XrEye", "XrFrame", "XrHand", "XrHandJoint", "XrHandedness", "XrInputSource", "XrInputSourceArray", "XrJointPose", "XrJointSpace", "XrPose", "XrReferenceSpace", "XrReferenceSpaceType", "XrRenderState", "XrRenderStateInit", "XrRigidTransform", "XrSession", "XrSessionInit", "XrSessionMode", "XrSpace", "XrSystem", "XrView", "XrViewerPose", "XrViewport", "XrWebGlLayer", "XrWebGlLayerInit"] }
