pub mod address;
pub mod ethereum;
pub mod oracle;
pub mod parameters;
pub mod storage;
pub mod storage_key;
pub mod text;
pub mod transfer;
pub mod uint256;
