//! Resumable, multi-segment HTTP downloads: the planning, bookkeeping and
//! state-file rules of the download engine, with machine-checked contracts.

pub mod bytes_aggregator;
pub mod config;
pub mod fetch;
pub mod filename_utils;
pub mod from_state;
pub mod info;
pub mod manager;
pub mod options;
pub mod planner;
pub mod progress_state;
pub mod request_utils;
pub mod session;
pub mod setup;
pub mod status;
pub mod text;
pub mod throttle;

pub use config::{HttpDownloadConfig, HttpDownloaderSetupErrors};
pub use info::HttpDownloadInfo;
pub use options::{DownloadConfig, DownloadOptions};
pub use planner::HttpDownloadMode;
pub use status::{Error, Status};
pub use throttle::{ThrottleConfig, Throttler};
