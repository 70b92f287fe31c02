//! Firmware core of a battery-powered environmental sensor node: the frame
//! codec of its serial link protocol, the state machine that manages the
//! sleeping radio peer, and the batching of sensor samples into reports.
pub mod bridge;
pub mod buffer;
pub mod cobs;
pub mod device_meta;
pub mod flash;
pub mod frame;
pub mod protocol;
pub mod report;
pub mod sensor_manager;
pub mod storage;

pub use bridge::{
    BridgeEvent, EspBridge, LinkEvent, LinkState, SendError, SendMode, SendStart, SerialRead,
    WaitStep,
};
pub use buffer::SampleBuf;
pub use cobs::{cobs_decode, cobs_encode, DecodeError};
pub use device_meta::DeviceMeta;
pub use flash::{DeviceError, PageChunk, W25q64Device};
pub use frame::{encode_goster_frame, header_crc16};
pub use protocol::{GosterHeader, MAX_SAMPLES, PAYLOAD_SIZE, FRAME_BUF_SIZE};
pub use report::MetricReport;
pub use sensor_manager::SensorManager;
pub use storage::{GosterStorage, Storage};
