//! Driver logic for a serial-attached proof-of-work ASIC: the difficulty to
//! target conversion, the wire codec and framing, port discovery and the
//! job-submit/poll state machine of one solve session.
pub mod device;
pub mod discovery;
pub mod frame;
pub mod hex;
pub mod proto;
pub mod solver;
pub mod target;
