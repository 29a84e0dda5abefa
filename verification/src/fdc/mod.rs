pub mod controller;
pub mod disk;

pub use controller::{Controller, Drive, Phase, Variant};
pub use disk::{Disk, DiskError};
