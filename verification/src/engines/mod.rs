//! The two inference engines: Genie on the Hexagon NPU, and ONNX Runtime.
pub mod aura;
pub mod genie;
