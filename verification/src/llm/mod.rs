pub mod client;
pub mod settings;
