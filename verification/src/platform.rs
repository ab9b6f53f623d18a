//! What the operating system says about the machine, in the library's own terms.
pub mod monitors;
