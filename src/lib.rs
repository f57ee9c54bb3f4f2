//! The core of a small real-time rendering loop: a fixed/variable-step frame
//! clock, keyboard and mouse state, the decisions of the event loop, and the
//! extraction of mesh data from a glTF document's buffers.
pub mod clock;
pub mod gltf;
pub mod input;
pub mod scheduler;
