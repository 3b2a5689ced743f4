//! Core logic for a wearable biosignal headset's telemetry link: control
//! command framing, notification payload decoding for the two channel
//! families, per-channel chunk reassembly into aligned sample frames, and the
//! connection/streaming session state machine.

pub mod codec;
pub mod decode;
pub mod device_state;
pub mod pump;
pub mod reassembly;

pub use codec::encode_command;
pub use decode::decode_unsigned_24_bit_data;
pub use decode::parse_eeg_data;
pub use decode::parse_ppg_data;
pub use decode::DecodeError;
pub use device_state::ConnectionState;
pub use device_state::DeviceInfo;
pub use device_state::DeviceStateManager;
pub use device_state::StreamingState;
pub use pump::classify_channel;
pub use pump::process_notification;
pub use pump::ChannelFamily;
pub use reassembly::ChannelChunks;
pub use reassembly::DataType;
pub use reassembly::EegFrame;
pub use reassembly::PpgFrame;
