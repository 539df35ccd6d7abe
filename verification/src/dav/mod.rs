pub mod client;
pub mod xml;
