//! A smartwatch firmware kernel core: a byte-level ingress protocol
//! engine fed by a serial queue, and a checksum-gated loader for one
//! dynamically uploaded application image.

pub mod application_manager;
pub mod buffer;
pub mod byte_queue;
pub mod checksum;
pub mod framebuffer;
pub mod hex;
pub mod ingress_manager;
pub mod input;
pub mod notification;
pub mod syscall;
