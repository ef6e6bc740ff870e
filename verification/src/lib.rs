//! Rule-driven power management: a typed expression language over live
//! CPU and battery telemetry, priority-ordered rule merging, and an adaptive
//! polling controller.
//!
//! The library performs no input or output. A caller reads the files of the
//! machine and hands their contents over; the library parses them, keeps the
//! telemetry, evaluates the rules, and hands back the writes to perform and
//! the time to wait.
//!
//! All fractional quantities are fixed-point numbers with six decimal places
//! (see [`number::Fixed`]); durations and instants are whole milliseconds.
//!
//! - [`number`], [`text`]: arithmetic and text handling.
//! - [`document`], [`codec`], [`rule_codec`], [`terms`]: how rules are
//!   written down, and read back.
//! - [`expression`], [`eval`]: the expression language and its evaluator.
//! - [`config`], [`delta`], [`engine`], [`apply`]: rules, the deltas they
//!   yield, the fold over the rules, and the writes that carry a decision out.
//! - [`history`], [`poll`], [`daemon`]: the telemetry rings, the poll
//!   controller, and the state of the daemon from tick to tick.
//! - [`cpu`], [`power_supply`], [`system`], [`sysfs`], [`fs`]: the model of
//!   the hardware and of what a scan reads.
//! - [`lock`], [`profile`]: the single-instance lock and power profiles.

pub mod apply;
pub mod codec;
pub mod config;
pub mod cpu;
pub mod daemon;
pub mod delta;
pub mod document;
pub mod engine;
pub mod eval;
pub mod expression;
pub mod fs;
pub mod history;
pub mod lock;
pub mod number;
pub mod poll;
pub mod power_supply;
pub mod profile;
pub mod rule_codec;
pub mod sysfs;
pub mod system;
pub mod terms;
pub mod text;
