//! Verified core of the burn gradient demo application: the bounded message
//! buffer shared by the desktop and web sides, the gradient actor and its
//! registry, the HTTP request decisions, the system information report, the
//! layer arithmetic of the variational autoencoder and its checkpoint files.

pub mod actors;
pub mod checkpoint;
pub mod message_buffer;
pub mod requests;
pub mod system_info;
pub mod text;
pub mod timeline;
pub mod vae;
