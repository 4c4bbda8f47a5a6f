//! A small engine behind a BLE scanner dashboard: it turns raw adapter
//! snapshots into a stable device model, reconciles the user's selection
//! across snapshot replacement, and decodes vendor advertisement payloads.

pub mod decode;
pub mod device;
pub mod scan;
pub mod state;
pub mod text;

pub use decode::DetailItem;
pub use decode::PeripheralDecoder;
pub use decode::RuuviDecoder;
pub use decode::default_decoders;
pub use decode::decoded_details;
pub use decode::device_summary;
pub use device::AddressKind;
pub use device::DeviceInfo;
pub use scan::device_from_parts;
pub use state::AppState;
pub use state::ScanMessage;
pub use text::hex_bytes;
