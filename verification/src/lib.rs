//! Remote-control input subsystem: discovery of infra-red receiver devices,
//! translation between the kernel's three device-naming schemes, a registry of
//! exclusively-held device handles, decoding of raw input-event records, and
//! classification of hotplug notifications.

pub mod frontend;
pub mod text;
pub mod paths;
pub mod errors;
pub mod discovery;
pub mod registry;
pub mod events;
pub mod hotplug;

pub use frontend::FrontendId;
pub use frontend::TargettedKeystroke;
