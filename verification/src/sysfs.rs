//! What the library asks its caller to write, and why it may refuse to.
//!
//! The library never touches a file. A setter checks the new value against
//! the last scan and hands back the write to perform.

use vstd::prelude::*;

verus! {

/// One write: `value` goes to the file at `path`.
#[derive(Debug, PartialEq, Eq)]
pub struct Write {
    pub path: String,
    pub value: String,
}

/// Why a setting is refused.
#[derive(Clone, Copy, Debug, PartialEq, Eq, Structural)]
pub enum ApplyError {
    /// The CPU does not offer the governor.
    GovernorUnavailable,
    /// The CPU does not offer the energy-performance preference.
    EppUnavailable,
    /// The CPU does not offer the energy-performance bias.
    EpbUnavailable,
    /// The minimum frequency lies below the one the hardware allows.
    FrequencyBelowMinimum,
    /// The maximum frequency lies above the one the hardware allows.
    FrequencyAboveMaximum,
    /// The frequency cannot be written in kilohertz.
    FrequencyTooLarge,
    /// The power supply takes no charge thresholds.
    ThresholdsUnsupported,
    /// The threshold does not lie between 0 and 1.
    ThresholdOutOfRange,
    /// The platform does not offer the profile.
    ProfileUnavailable,
    /// Every way to switch turbo boost has failed.
    NoTurboControl,
}

/// The directory of the CPUs.
pub open spec fn cpu_root() -> Seq<char> {
    "/sys/devices/system/cpu"@
}

/// The file that holds the platform profile.
pub open spec fn platform_profile_path() -> Seq<char> {
    "/sys/firmware/acpi/platform_profile"@
}

} // verus!
