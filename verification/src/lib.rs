//! Verified core of an Android debugging workbench built on `adb` and
//! `scrcpy`: the command lines it runs, how it reads their output
//! (device listings, activity and alarm dumps, device properties, mDNS
//! services), QR-code pairing, and the remote application list.
//!
//! Processes are not started here. Each operation is a function from the
//! outcomes of the commands it has asked for so far to the next command or
//! its result ([`command::AdbStep`]); the program around the library runs
//! the commands.

pub mod text;
pub mod command;
pub mod devices;
pub mod ops;
pub mod activity;
pub mod device_info;
pub mod pairing;
pub mod apps;
pub mod launch;
pub mod laws;
