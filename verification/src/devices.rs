//! Reading the device listings that the command-line tools print.

use vstd::prelude::*;
use crate::text::{split_lines, text_lines, texts};

verus! {

/// The command-line device bridge.
pub struct DeviceBridgeA1;

/// The command-line device bridge with pairing checks.
pub struct DeviceBridgeR1;

impl DeviceBridgeA1 {
    /// The device identifiers in a listing: one per line.
    pub fn parse_device_list(listing: &str) -> (out: Vec<String>)
        ensures
            texts(out@) == text_lines(listing@),
    {
        split_lines(listing)
    }
}

impl DeviceBridgeR1 {
    /// The device identifiers in a listing: one per line.
    pub fn parse_device_list(listing: &str) -> (out: Vec<String>)
        ensures
            texts(out@) == text_lines(listing@),
    {
        split_lines(listing)
    }
}

/// The command-line installer.
pub struct InstallEngineR1;

impl InstallEngineR1 {
    /// Whether installing goes on after the pairing check: the check ran
    /// (`Some`) and reported success.
    pub fn install_proceeds(paired: Option<bool>) -> (out: bool)
        ensures
            out == (paired == Some(true)),
    {
        match paired {
            Some(ok) => ok,
            None => false,
        }
    }

    /// Whether an install succeeded: the device was paired and the installer
    /// ran and reported success.
    pub fn install_result(paired: Option<bool>, installed: Option<bool>) -> (out: bool)
        ensures
            out == (paired == Some(true) && installed == Some(true)),
    {
        Self::install_proceeds(paired) && match installed {
            Some(ok) => ok,
            None => false,
        }
    }
}

} // verus!
