//! A verified core for a media download queue: URL validation and video-id
//! extraction, a bounded-concurrency download scheduler with FIFO admission,
//! the external-tool adapter's argument builders and output parsers, and the
//! settings record that configures them.

pub mod download_manager;
pub mod errors;
pub mod file_utils;
pub mod json;
pub mod settings;
pub mod text;
pub mod url_validator;
pub mod ytdlp;
