//! Verified core of a desktop back end that fetches imagery tiles, hands them
//! to an inference script and files the detections it reports.

pub mod text;
pub mod stamp;
pub mod encoding;
pub mod runner;
