pub mod slot;
pub mod wheel;
