//! The core of a driver for VirtIO sound devices, verified with Verus.
//!
//! - [`protocol`]: commands, status codes, and requests as bytes.
//! - [`chains`]: a mathematical model of a descriptor table.
//! - [`memory`]: buffer addresses and memory barriers.
//! - [`virtqueue`]: descriptor table, available ring and used ring.
//! - [`queue_laws`]: what holds of a queue over several operations.
//! - [`control`]: stream life cycle, mute, volume and channel maps.
//! - [`driver`]: streams and the four queues of a device.
//! - [`audio_planner`]: buffer sizes, queue budgets and transfer schedules.
//! - [`signal_analysis`]: peaks, steps, zero crossings, windows and channels.

pub mod audio_planner;
pub mod chains;
pub mod control;
pub mod driver;
pub mod memory;
pub mod protocol;
pub mod queue_laws;
pub mod signal_analysis;
pub mod virtqueue;

pub use crate::control::ControlHandler;
pub use crate::driver::VirtioSound;
pub use crate::protocol::{
    PcmFormat, PcmStream, SndError, SndQueue, StreamDirection, StreamState, VirtioSndChmapInfo,
    VirtioSndConfig, VirtioSndHdr, VirtioSndMuteCmd, VirtioSndPcmHdr, VirtioSndPcmSetParams,
    VirtioSndResp, VirtioSndVolumeCmd,
};
pub use crate::virtqueue::{VirtQueue, VirtqAvail, VirtqDesc, VirtqUsed, VirtqUsedElem};
