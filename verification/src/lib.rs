pub mod abi;
pub mod bytes;
pub mod discovery;
pub mod eip7683;
pub mod intent;
pub mod laws;
pub mod layout;
pub mod monitor;
pub mod order;
pub mod parsed;
pub mod primitives;
pub mod settler;
pub mod settlers;
pub mod text;
pub mod types;
