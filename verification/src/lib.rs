/// The instruction decoder and the fetch-decode-execute engine.
pub mod cpu;
/// The architecture's laws, proved once and for all from the engine's
/// contracts.
pub mod laws;
/// The flat byte store, the memory-mapped device bindings that overlay it,
/// and the device capability interface.
pub mod memory;
