//! Signing, provisioning and device-session logic for sideloading iOS apps.

pub mod codesign;
pub mod core_v6;
pub mod daemon;
pub mod device_list;
pub mod devices;
pub mod digest;
pub mod entitlements;
pub mod identity;
pub mod layout;
pub mod lockdown;
pub mod macho;
pub mod package;
pub mod provisioning;
pub mod registry;
pub mod session;
pub mod text;
