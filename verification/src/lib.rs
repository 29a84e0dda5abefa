pub mod bytes;
pub mod cpc;
pub mod crtc;
pub mod fdc;
pub mod gate_array;
pub mod keyboard;
pub mod memory;
pub mod ppi;
pub mod tape;
pub mod video;

pub use cpc::Cpc;
pub use crtc::{Crtc, CrtcType};
pub use fdc::{Controller, Disk, DiskError, Drive, Phase, Variant};
pub use gate_array::{GateArray, Palette, ScreenMode};
pub use keyboard::{CpcKey, Keyboard};
pub use memory::{CpcMemory, MemoryReader};
pub use ppi::Ppi;
pub use tape::{TapeError, TapePlayer};
pub use video::{Video, WINDOW_HEIGHT, WINDOW_WIDTH};
