//! Traffic monitoring, anomaly alerting and source blocking for a DDoS
//! mitigation tool: the verified core that the capture program drives.

pub mod ieee754;
pub mod clock;
pub mod tables;
pub mod text;
pub mod detection;
pub mod alerts;
pub mod capture;
pub mod mitigation;
pub mod metrics;
pub mod config;
pub mod analysis;
