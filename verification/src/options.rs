//! The options that every way of building a download shares.

use std::path::PathBuf;
use std::time::Duration;
use vstd::prelude::*;

verus! {

/// Bytes in a kilobyte, as speed limits count them.
pub const BYTES_PER_KILOBYTE: u64 = 1024;

/// The options of one download that a download manager keeps for it.
#[derive(Debug, Clone)]
pub struct DownloadConfig {
    /// How long the probe may take, and how long a task waits for a chunk.
    pub timeout: Option<Duration>,
    /// Where the files go.
    pub directory: Option<PathBuf>,
    /// The speed limit in kilobytes per second.
    pub speed_limit: Option<u64>,
}

/// What a caller may set on a builder, whichever way the download is built.
#[derive(Debug)]
pub struct DownloadOptions {
    /// How long the probe may take, and how long a task waits for a chunk.
    pub timeout: Option<Duration>,
    /// Where the files go.
    pub directory: Option<PathBuf>,
    /// The speed limit in bytes per second.
    pub throttle_speed: Option<u64>,
}

impl DownloadOptions {
    /// Nothing set.
    pub fn default() -> (r: Self)
        ensures
            r.timeout is None,
            r.directory is None,
            r.throttle_speed is None,
    {
        Self { timeout: None, directory: None, throttle_speed: None }
    }

    /// Sets the timeout.
    pub fn timeout(self, timeout: Duration) -> (r: Self)
        ensures
            r == (DownloadOptions { timeout: Some(timeout), ..self }),
    {
        let mut options = self;
        options.timeout = Some(timeout);
        options
    }

    /// Sets the directory.
    pub fn directory(self, path: PathBuf) -> (r: Self)
        ensures
            r == (DownloadOptions { directory: Some(path), ..self }),
    {
        let mut options = self;
        options.directory = Some(path);
        options
    }

    /// Sets the speed limit, given in kilobytes per second and kept in
    /// bytes per second.
    pub fn speed_limit(self, kilobytes_per_second: u64) -> (r: Self)
        requires
            BYTES_PER_KILOBYTE * kilobytes_per_second <= u64::MAX,
        ensures
            r == (DownloadOptions {
                throttle_speed: Some((BYTES_PER_KILOBYTE * kilobytes_per_second) as u64),
                ..self
            }),
    {
        let mut options = self;
        options.throttle_speed = Some(BYTES_PER_KILOBYTE * kilobytes_per_second);
        options
    }

    /// Whether the speed limit of a manager's options, if there is one, can
    /// be kept in bytes per second.
    pub open spec fn spec_accepts(config: Option<DownloadConfig>) -> bool {
        config matches Some(DownloadConfig { speed_limit: Some(speed), .. }) ==> BYTES_PER_KILOBYTE
            * speed <= u64::MAX
    }

    /// Takes over what a manager's options set: the directory, the speed
    /// limit and the timeout, each where it is there. What they leave open
    /// stays as it is.
    pub fn apply_common_options(self, config: Option<DownloadConfig>) -> (r: Self)
        requires
            Self::spec_accepts(config),
        ensures
            r == match config {
                Some(config) => DownloadOptions {
                    timeout: match config.timeout {
                        Some(timeout) => Some(timeout),
                        None => self.timeout,
                    },
                    directory: match config.directory {
                        Some(path) => Some(path),
                        None => self.directory,
                    },
                    throttle_speed: match config.speed_limit {
                        Some(speed) => Some((BYTES_PER_KILOBYTE * speed) as u64),
                        None => self.throttle_speed,
                    },
                },
                None => self,
            },
    {
        let mut options = self;
        if let Some(config) = config {
            if let Some(path) = config.directory {
                options = options.directory(path);
            }
            if let Some(speed) = config.speed_limit {
                options = options.speed_limit(speed);
            }
            if let Some(timeout) = config.timeout {
                options = options.timeout(timeout);
            }
        }
        options
    }
}

} // verus!
