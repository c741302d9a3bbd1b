pub mod alerts;
pub mod battery;
pub mod config;
pub mod cpu;
pub mod disk;
pub mod display;
pub mod fans;
pub mod gpu;
pub mod memory;
pub mod network;
pub mod process;
pub mod sysfs;
pub mod text;
pub mod tray;

use vstd::prelude::*;

verus! {

#[verifier::external_type_specification]
#[verifier::external_body]
pub struct ExIoError(std::io::Error);

#[derive(Debug)]
pub enum MonDashboardError {
    Io(std::io::Error),
    DBus(String),
    Gpu(String),
    Process(String),
}

} // verus!
