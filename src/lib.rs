//! Sandbox sessions over stored root file systems: the store of images,
//! resource profiles, the mount tree of a privileged session with its
//! guaranteed teardown, the privileged and unprivileged start-up paths with
//! their fallbacks, and the commit of a user's delta layer into an image.
//!
//! The library decides; the caller performs. Each operation on the host is
//! handed out as a plain value (an action, a launch, a plan) and its outcome
//! is handed back, so every decision is made, and verified, here.

pub mod delta;
pub mod doctor;
pub mod ext;
pub mod layout;
pub mod mount;
pub mod profile;
pub mod store;
pub mod strategy;
pub mod text;
