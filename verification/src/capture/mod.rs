pub mod ranking;
pub mod stats;
pub mod parser;
pub mod sniffer;
