//! The settings of one download, and the checks that a builder runs on what
//! the caller asked for.

use std::path::PathBuf;
use std::time::Duration;
use vstd::prelude::*;
use crate::throttle::{spec_task_share, task_share, ThrottleConfig};

verus! {

/// The number of tasks where the caller names none.
pub const DEFAULT_TASKS_COUNT: u8 = 8;

/// The smallest number of tasks that a caller may ask for.
pub const MIN_TASKS_COUNT: u8 = 1;

/// The largest number of tasks that a caller may ask for.
pub const MAX_TASKS_COUNT: u8 = 64;

/// The timeout, in seconds, where the caller names none.
pub const DEFAULT_TIMEOUT_SECS: u64 = 10;

/// `std::path::PathBuf`, an owned file-system path.
#[verifier::external_type_specification]
#[verifier::external_body]
pub struct ExPathBuf(PathBuf);

/// The bytes that a path is made of, in the platform's encoding.
pub uninterp spec fn path_bytes(path: PathBuf) -> Seq<u8>;

/// The length of a duration in nanoseconds.
pub uninterp spec fn duration_nanos(duration: Duration) -> nat;

/// `Duration::from_secs` makes a duration of that many whole seconds.
pub assume_specification[ Duration::from_secs ](secs: u64) -> (duration: Duration)
    ensures
        duration_nanos(duration) == secs * 1_000_000_000,
;

/// `PathBuf::new` makes an empty path.
pub assume_specification[ PathBuf::new ]() -> (path: PathBuf)
    ensures
        path_bytes(path).len() == 0,
;

/// `OsStr::is_empty`, asked of a path, tells whether the path has no bytes.
#[verifier::external_body]
fn path_is_empty(path: &PathBuf) -> (r: bool)
    ensures
        r == (path_bytes(*path).len() == 0),
{
    path.as_os_str().is_empty()
}

/// Why a builder turns down what the caller asked for.
#[derive(Debug, Clone, Copy, PartialEq, Eq, Structural)]
pub enum HttpDownloaderSetupErrors {
    /// The number of tasks is not between 1 and 64.
    InvalidTasksCount,
    /// The directory is neither empty nor an existing directory.
    InvalidDirectory,
}

/// The settings of one download.
#[derive(Debug)]
pub struct HttpDownloadConfig {
    /// The number of fetch tasks; 0 for a download that cannot be resumed.
    pub tasks_count: u8,
    /// The split of the content among the tasks, where every task has a
    /// bounded range.
    pub split_result: Option<(u64, u64)>,
    /// The speed setting that the tasks share.
    pub throttle_config: ThrottleConfig,
    /// Whether the data file is created rather than reopened.
    pub is_new: bool,
    /// How long the probe may take, and how long a task waits for a chunk.
    pub timeout: Duration,
    /// Where the data file and the state file go; empty for the working
    /// directory.
    pub directory: PathBuf,
}

/// The number of tasks that a request leads to, if it is acceptable: the
/// number asked for where it lies between 1 and 64, and 8 where none is
/// asked for.
pub open spec fn spec_checked_tasks_count(tasks_count: Option<u8>) -> Option<u8> {
    match tasks_count {
        Some(count) => if MIN_TASKS_COUNT <= count <= MAX_TASKS_COUNT {
            Some(count)
        } else {
            None
        },
        None => Some(DEFAULT_TASKS_COUNT),
    }
}

/// Whether a directory is acceptable: an empty path stands for the working
/// directory, any other must name an existing directory.
pub open spec fn spec_directory_accepted(path: PathBuf, is_dir: bool) -> bool {
    is_dir || path_bytes(path).len() == 0
}

impl HttpDownloadConfig {
    /// The settings before anything is known: no tasks, no split, no speed
    /// limit, a new download, a timeout of ten seconds, the working
    /// directory.
    pub fn default() -> (r: Self)
        ensures
            r.tasks_count == 0,
            r.split_result is None,
            r.throttle_config.spec_task_speed() == 0,
            !r.throttle_config.spec_has_throttle_changed(),
            r.is_new,
            duration_nanos(r.timeout) == DEFAULT_TIMEOUT_SECS * 1_000_000_000,
            path_bytes(r.directory).len() == 0,
    {
        Self {
            tasks_count: 0,
            split_result: None,
            throttle_config: ThrottleConfig::default(),
            is_new: true,
            timeout: Duration::from_secs(DEFAULT_TIMEOUT_SECS),
            directory: PathBuf::new(),
        }
    }

    /// Takes over the number of tasks that the caller asked for, or 8 where
    /// none was asked for. A number outside 1 to 64 is turned down.
    pub fn try_set_tasks_count(self, tasks_count: Option<u8>) -> (r: Result<
        Self,
        HttpDownloaderSetupErrors,
    >)
        ensures
            match spec_checked_tasks_count(tasks_count) {
                Some(count) => r == Ok::<Self, HttpDownloaderSetupErrors>(
                    HttpDownloadConfig { tasks_count: count, ..self },
                ),
                None => r == Err::<Self, HttpDownloaderSetupErrors>(
                    HttpDownloaderSetupErrors::InvalidTasksCount,
                ),
            },
    {
        let mut config = self;
        config.tasks_count = match tasks_count {
            Some(count) => {
                if count >= MIN_TASKS_COUNT && count <= MAX_TASKS_COUNT {
                    count
                } else {
                    return Err(HttpDownloaderSetupErrors::InvalidTasksCount);
                }
            },
            None => DEFAULT_TASKS_COUNT,
        };
        Ok(config)
    }

    /// Sets the number of tasks without a check.
    pub fn set_tasks_count(self, task_count: u8) -> (r: Self)
        ensures
            r == (HttpDownloadConfig { tasks_count: task_count, ..self }),
    {
        let mut config = self;
        config.tasks_count = task_count;
        config
    }

    /// Gives each task its share of a total speed in bytes per second; none
    /// stands for no limit. The tasks are not told of a change.
    pub fn set_throttle_speed(self, throttle_speed: Option<u64>) -> (r: Self)
        requires
            self.tasks_count > 0,
        ensures
            r.throttle_config.spec_task_speed() == spec_task_share(
                throttle_speed,
                self.tasks_count as u64,
            ),
            r.throttle_config.spec_has_throttle_changed()
                == self.throttle_config.spec_has_throttle_changed(),
            r.tasks_count == self.tasks_count,
            r.split_result == self.split_result,
            r.is_new == self.is_new,
            r.timeout == self.timeout,
            r.directory == self.directory,
    {
        let mut config = self;
        let share: u64 = task_share(throttle_speed, config.tasks_count as u64);
        config.throttle_config.set_task_speed(share);
        config
    }

    /// Takes over a timeout, where the caller named one.
    pub fn set_timeout(self, timeout: Option<Duration>) -> (r: Self)
        ensures
            r == (HttpDownloadConfig {
                timeout: match timeout {
                    Some(t) => t,
                    None => self.timeout,
                },
                ..self
            }),
    {
        let mut config = self;
        if let Some(t) = timeout {
            config.timeout = t;
        }
        config
    }

    /// Marks the download as resumed: the data file is reopened, not
    /// created.
    pub fn mark_resumed(self) -> (r: Self)
        ensures
            r == (HttpDownloadConfig { is_new: false, ..self }),
    {
        let mut config = self;
        config.is_new = false;
        config
    }

    /// Takes over a directory, where the caller named one. `is_dir` says
    /// whether that path names an existing directory. An empty path is
    /// taken as it is; any other path that is no directory is turned down.
    pub fn try_set_directory(self, path: Option<PathBuf>, is_dir: bool) -> (r: Result<
        Self,
        HttpDownloaderSetupErrors,
    >)
        ensures
            match path {
                None => r == Ok::<Self, HttpDownloaderSetupErrors>(self),
                Some(directory) => if spec_directory_accepted(directory, is_dir) {
                    r == Ok::<Self, HttpDownloaderSetupErrors>(
                        HttpDownloadConfig { directory, ..self },
                    )
                } else {
                    r == Err::<Self, HttpDownloaderSetupErrors>(
                        HttpDownloaderSetupErrors::InvalidDirectory,
                    )
                },
            },
    {
        let mut config = self;
        if let Some(directory) = path {
            if is_dir || path_is_empty(&directory) {
                config.directory = directory;
            } else {
                return Err(HttpDownloaderSetupErrors::InvalidDirectory);
            }
        }
        Ok(config)
    }

    /// Sets the directory without a check.
    pub fn set_directory(self, path: PathBuf) -> (r: Self)
        ensures
            r == (HttpDownloadConfig { directory: path, ..self }),
    {
        let mut config = self;
        config.directory = path;
        config
    }
}

/// The settings that a request for a new download leads to: the number of
/// tasks is checked first, then the directory; then the timeout is taken
/// over.
pub open spec fn spec_setup_config(
    tasks_count: Option<u8>,
    directory: Option<PathBuf>,
    is_dir: bool,
    timeout: Option<Duration>,
    base: HttpDownloadConfig,
) -> Result<HttpDownloadConfig, HttpDownloaderSetupErrors> {
    match spec_checked_tasks_count(tasks_count) {
        None => Err(HttpDownloaderSetupErrors::InvalidTasksCount),
        Some(count) => match directory {
            Some(path) if !spec_directory_accepted(path, is_dir) => Err(
                HttpDownloaderSetupErrors::InvalidDirectory,
            ),
            _ => Ok(
                HttpDownloadConfig {
                    tasks_count: count,
                    directory: match directory {
                        Some(path) => path,
                        None => base.directory,
                    },
                    timeout: match timeout {
                        Some(t) => t,
                        None => base.timeout,
                    },
                    ..base
                },
            ),
        },
    }
}

/// Checks what a caller asked of a new download and makes its settings
/// from `base`, which is meant to be `HttpDownloadConfig::default()`.
/// `is_dir` says whether the directory, if one is named, exists.
pub fn setup_config(
    base: HttpDownloadConfig,
    tasks_count: Option<u8>,
    directory: Option<PathBuf>,
    is_dir: bool,
    timeout: Option<Duration>,
) -> (r: Result<HttpDownloadConfig, HttpDownloaderSetupErrors>)
    ensures
        r == spec_setup_config(tasks_count, directory, is_dir, timeout, base),
{
    let config = match base.try_set_tasks_count(tasks_count) {
        Ok(config) => config,
        Err(e) => {
            return Err(e);
        },
    };
    let config = match config.try_set_directory(directory, is_dir) {
        Ok(config) => config,
        Err(e) => {
            return Err(e);
        },
    };
    Ok(config.set_timeout(timeout))
}

/// The settings that a request to resume leads to: the directory is
/// checked, the timeout is taken over, and the download is marked as
/// resumed.
pub open spec fn spec_resume_config(
    directory: Option<PathBuf>,
    is_dir: bool,
    timeout: Option<Duration>,
    base: HttpDownloadConfig,
) -> Result<HttpDownloadConfig, HttpDownloaderSetupErrors> {
    match directory {
        Some(path) if !spec_directory_accepted(path, is_dir) => Err(
            HttpDownloaderSetupErrors::InvalidDirectory,
        ),
        _ => Ok(
            HttpDownloadConfig {
                directory: match directory {
                    Some(path) => path,
                    None => base.directory,
                },
                timeout: match timeout {
                    Some(t) => t,
                    None => base.timeout,
                },
                is_new: false,
                ..base
            },
        ),
    }
}

/// Checks what a caller asked of a download that is resumed and makes its
/// settings from `base`, which is meant to be
/// `HttpDownloadConfig::default()`, but for what the state file will say.
/// `is_dir` says whether the directory, if one is named, exists.
pub fn resume_config(
    base: HttpDownloadConfig,
    directory: Option<PathBuf>,
    is_dir: bool,
    timeout: Option<Duration>,
) -> (r: Result<HttpDownloadConfig, HttpDownloaderSetupErrors>)
    ensures
        r == spec_resume_config(directory, is_dir, timeout, base),
{
    let config = match base.try_set_directory(directory, is_dir) {
        Ok(config) => config,
        Err(e) => {
            return Err(e);
        },
    };
    Ok(config.set_timeout(timeout).mark_resumed())
}

} // verus!
