//! Page-granular memory regions obtained directly from the operating system,
//! tracked in a registry that validates every state transition, and a
//! round-robin server picker.
//!
//! The library decides; it performs no system call itself. A caller carries
//! out the mapping and unmapping requests that the library hands out and
//! reports back what the operating system answered.

pub mod kernel;
pub mod laws;
pub mod load_balancer;
