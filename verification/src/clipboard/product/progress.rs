//! How fast a transfer goes and how far it has come.

use super::summary::{ProductManifestSummary, ProductTransferSnapshot, ProductTransferState};
use crate::clipboard::secure_transfer::model::SecureMetricsSnapshot;
use vstd::prelude::*;

verus! {

/// Nanoseconds of a millisecond.
pub const NANOS_PER_MILLI: u64 = 1_000_000;

/// What is known of the files of an offer that are read from another device.
#[derive(Debug)]
pub struct RemoteProgress {
    pub bytes_read: u64,
    pub started_transfers: usize,
    pub completed_transfers: usize,
    pub paused: bool,
    pub cancelled: bool,
    pub current_file: Option<CurrentFile>,
    pub reconnect_attempts: u64,
    pub recovered_commands: u64,
    pub active_recoveries: u64,
}

/// The file that is being read.
#[derive(Debug)]
pub struct CurrentFile {
    pub name: String,
    pub transferred: u64,
    pub size: u64,
}

/// How a transfer stands at one moment.
#[derive(Debug)]
pub struct Observation {
    pub state: ProductTransferState,
    pub bytes: u64,
    pub total_size: u64,
    pub started_files: usize,
    pub total_files: usize,
    pub current_file: Option<CurrentFile>,
    pub reconnect_attempts: u64,
    pub recovered_commands: u64,
    pub recovery_active: bool,
}

/// The lesser of two numbers.
pub open spec fn lesser(left: u64, right: u64) -> u64 {
    if left < right {
        left
    } else {
        right
    }
}

/// The state of a transfer that is received: a user's decision first, then whether every file
/// has come, then whether any has begun.
pub open spec fn received_state(progress: RemoteProgress, files: usize) -> ProductTransferState {
    if progress.cancelled {
        ProductTransferState::Cancelled
    } else if progress.paused {
        ProductTransferState::Paused
    } else if files != 0 && progress.completed_transfers == files {
        ProductTransferState::Completed
    } else if progress.started_transfers != 0 {
        ProductTransferState::Running
    } else {
        ProductTransferState::AwaitingPaste
    }
}

/// The state of a transfer that is sent: whether one was cancelled, then whether every byte was
/// served, then whether any file has begun.
pub open spec fn sent_state(metrics: SecureMetricsSnapshot, total_size: u64) -> ProductTransferState {
    if metrics.cancelled_transfers != 0 {
        ProductTransferState::Cancelled
    } else if total_size != 0 && lesser(metrics.unique_bytes, total_size) == total_size {
        ProductTransferState::Completed
    } else if metrics.begun_transfers != 0 {
        ProductTransferState::Running
    } else {
        ProductTransferState::AwaitingPaste
    }
}

impl Observation {
    /// A transfer of which nothing is known.
    pub open spec fn nothing() -> Observation {
        Observation {
            state: ProductTransferState::AwaitingPaste,
            bytes: 0,
            total_size: 0,
            started_files: 0,
            total_files: 0,
            current_file: None,
            reconnect_attempts: 0,
            recovered_commands: 0,
            recovery_active: false,
        }
    }

    pub fn none() -> (observation: Self)
        ensures
            observation == Observation::nothing(),
    {
        Observation {
            state: ProductTransferState::AwaitingPaste,
            bytes: 0,
            total_size: 0,
            started_files: 0,
            total_files: 0,
            current_file: None,
            reconnect_attempts: 0,
            recovered_commands: 0,
            recovery_active: false,
        }
    }

    /// A transfer that is received.
    pub fn received(summary: &ProductManifestSummary, progress: RemoteProgress) -> (observation:
        Self)
        ensures
            observation == (Observation {
                state: received_state(progress, summary.files),
                bytes: lesser(progress.bytes_read, summary.total_size),
                total_size: summary.total_size,
                started_files: progress.started_transfers,
                total_files: summary.files,
                current_file: progress.current_file,
                reconnect_attempts: progress.reconnect_attempts,
                recovered_commands: progress.recovered_commands,
                recovery_active: progress.active_recoveries != 0,
            }),
    {
        let state = if progress.cancelled {
            ProductTransferState::Cancelled
        } else if progress.paused {
            ProductTransferState::Paused
        } else if summary.files != 0 && progress.completed_transfers == summary.files {
            ProductTransferState::Completed
        } else if progress.started_transfers != 0 {
            ProductTransferState::Running
        } else {
            ProductTransferState::AwaitingPaste
        };
        let bytes: u64 = if progress.bytes_read < summary.total_size {
            progress.bytes_read
        } else {
            summary.total_size
        };
        Observation {
            state,
            bytes,
            total_size: summary.total_size,
            started_files: progress.started_transfers,
            total_files: summary.files,
            current_file: progress.current_file,
            reconnect_attempts: progress.reconnect_attempts,
            recovered_commands: progress.recovered_commands,
            recovery_active: progress.active_recoveries != 0,
        }
    }

    /// A transfer that is sent.
    pub fn sent(summary: &ProductManifestSummary, metrics: SecureMetricsSnapshot) -> (observation:
        Self)
        ensures
            observation == (Observation {
                state: sent_state(metrics, summary.total_size),
                bytes: lesser(metrics.unique_bytes, summary.total_size),
                total_size: summary.total_size,
                started_files: if metrics.begun_transfers > usize::MAX {
                    usize::MAX
                } else {
                    metrics.begun_transfers as usize
                },
                total_files: summary.files,
                ..Observation::nothing()
            }),
    {
        let bytes: u64 = if metrics.unique_bytes < summary.total_size {
            metrics.unique_bytes
        } else {
            summary.total_size
        };
        let state = if metrics.cancelled_transfers != 0 {
            ProductTransferState::Cancelled
        } else if summary.total_size != 0 && bytes == summary.total_size {
            ProductTransferState::Completed
        } else if metrics.begun_transfers != 0 {
            ProductTransferState::Running
        } else {
            ProductTransferState::AwaitingPaste
        };
        let started_files: usize = if metrics.begun_transfers > usize::MAX as u64 {
            usize::MAX
        } else {
            metrics.begun_transfers as usize
        };
        Observation {
            state,
            bytes,
            total_size: summary.total_size,
            started_files,
            total_files: summary.files,
            current_file: None,
            reconnect_attempts: 0,
            recovered_commands: 0,
            recovery_active: false,
        }
    }
}

/// The milliseconds between two times in nanoseconds, at least one.
pub open spec fn millis_between(earlier: u64, later: u64) -> int {
    let millis = if later < earlier {
        0
    } else {
        (later - earlier) / NANOS_PER_MILLI as int
    };
    if millis < 1 {
        1
    } else {
        millis
    }
}

fn whole_millis(earlier: u64, later: u64) -> (millis: u64)
    ensures
        millis == millis_between(earlier, later),
        millis > 0,
{
    let millis: u64 = later.saturating_sub(earlier) / NANOS_PER_MILLI;
    if millis < 1 {
        1
    } else {
        millis
    }
}

/// Bytes in milliseconds as bytes in a second, rounded down and no larger than the largest
/// number.
pub open spec fn per_second(bytes: u64, millis: int) -> u64 {
    let rate = (bytes * 1000) / millis;
    if rate > u64::MAX {
        u64::MAX
    } else {
        rate as u64
    }
}

fn rate(bytes: u64, millis: u64) -> (rate: u64)
    requires
        millis > 0,
    ensures
        rate == per_second(bytes, millis as int),
{
    let scaled: u128 = (bytes as u128 * 1000) / millis as u128;
    if scaled > u64::MAX as u128 {
        u64::MAX
    } else {
        scaled as u64
    }
}

/// Three parts of the smoothed speed and one part of the latest one.
pub open spec fn smoothed(speed: u64, latest: u64) -> u64 {
    let tripled = if 3 * speed > u64::MAX {
        u64::MAX as int
    } else {
        3 * speed
    };
    let sum = if tripled + latest > u64::MAX {
        u64::MAX as int
    } else {
        tripled + latest
    };
    (sum / 4) as u64
}

fn smooth(speed: u64, latest: u64) -> (result: u64)
    ensures
        result == smoothed(speed, latest),
{
    let tripled: u64 = if speed > u64::MAX / 3 {
        u64::MAX
    } else {
        3 * speed
    };
    tripled.saturating_add(latest) / 4
}

/// What the speed of a transfer is computed from. Times are in nanoseconds.
#[derive(Clone, Copy, Debug, PartialEq, Eq, Structural)]
pub struct SpeedSample {
    pub last_sample_at: u64,
    pub last_sample_bytes: u64,
    pub smoothed_speed: u64,
    pub transfer_started_at: Option<u64>,
}

/// The speed that is shown, and the average over the whole transfer.
#[derive(Clone, Copy, Debug, PartialEq, Eq, Structural)]
pub struct Speed {
    pub current: u64,
    pub average: u64,
}

impl SpeedSample {
    /// A transfer that has not begun.
    pub open spec fn fresh(now: u64) -> SpeedSample {
        SpeedSample {
            last_sample_at: now,
            last_sample_bytes: 0,
            smoothed_speed: 0,
            transfer_started_at: None,
        }
    }

    pub fn new(now: u64) -> (sample: Self)
        ensures
            sample == SpeedSample::fresh(now),
    {
        SpeedSample {
            last_sample_at: now,
            last_sample_bytes: 0,
            smoothed_speed: 0,
            transfer_started_at: None,
        }
    }

    /// The speed since the last sample; none where no time has passed or bytes were lost.
    pub open spec fn latest(self, now: u64, bytes: u64) -> u64 {
        if now <= self.last_sample_at || bytes < self.last_sample_bytes {
            0
        } else {
            per_second(
                (bytes - self.last_sample_bytes) as u64,
                millis_between(self.last_sample_at, now),
            )
        }
    }

    /// The sample once the transfer was looked at.
    pub open spec fn sampled(self, now: u64, bytes: u64, state: ProductTransferState) -> SpeedSample {
        let latest = self.latest(now, bytes);
        let moving = state is Running && bytes != 0;
        SpeedSample {
            last_sample_at: now,
            last_sample_bytes: bytes,
            smoothed_speed: if moving {
                if latest == 0 {
                    self.smoothed_speed
                } else if self.smoothed_speed == 0 {
                    latest
                } else {
                    smoothed(self.smoothed_speed, latest)
                }
            } else if state is Paused {
                self.smoothed_speed
            } else {
                0
            },
            transfer_started_at: if moving && self.transfer_started_at is None {
                Some(self.last_sample_at)
            } else {
                self.transfer_started_at
            },
        }
    }

    /// The speed that a sample shows at a time.
    pub open spec fn speed(self, now: u64, bytes: u64, state: ProductTransferState) -> Speed {
        Speed {
            current: if state is Running {
                self.smoothed_speed
            } else {
                0
            },
            average: match self.transfer_started_at {
                None => 0,
                Some(started_at) => per_second(bytes, millis_between(started_at, now)),
            },
        }
    }

    /// Looks at the transfer: so many bytes were transferred by now.
    pub fn advance(&mut self, now: u64, bytes: u64, state: ProductTransferState) -> (speed: Speed)
        ensures
            *final(self) == old(self).sampled(now, bytes, state),
            speed == final(self).speed(now, bytes, state),
    {
        let latest: u64 = if now <= self.last_sample_at || bytes < self.last_sample_bytes {
            0
        } else {
            rate(bytes - self.last_sample_bytes, whole_millis(self.last_sample_at, now))
        };
        if state == ProductTransferState::Running && bytes != 0 {
            if self.transfer_started_at.is_none() {
                self.transfer_started_at = Some(self.last_sample_at);
            }
            if latest != 0 {
                self.smoothed_speed = if self.smoothed_speed == 0 {
                    latest
                } else {
                    smooth(self.smoothed_speed, latest)
                };
            }
        } else if state != ProductTransferState::Paused {
            self.smoothed_speed = 0;
        }
        let average: u64 = match self.transfer_started_at {
            None => 0,
            Some(started_at) => rate(bytes, whole_millis(started_at, now)),
        };
        let current: u64 = if state == ProductTransferState::Running {
            self.smoothed_speed
        } else {
            0
        };
        self.last_sample_at = now;
        self.last_sample_bytes = bytes;
        Speed { current, average }
    }
}

/// What is shown of a transfer.
pub open spec fn shown(observation: Observation, speed: Speed) -> ProductTransferSnapshot {
    ProductTransferSnapshot {
        state: observation.state,
        transferred: observation.bytes,
        total_size: observation.total_size,
        bytes_per_second: speed.current,
        average_bytes_per_second: speed.average,
        started_files: observation.started_files,
        total_files: observation.total_files,
        current_file_name: match observation.current_file {
            Some(file) => Some(file.name),
            None => None,
        },
        current_file_transferred: match observation.current_file {
            Some(file) => file.transferred,
            None => 0,
        },
        current_file_size: match observation.current_file {
            Some(file) => file.size,
            None => 0,
        },
        reconnect_attempts: observation.reconnect_attempts,
        recovered_commands: observation.recovered_commands,
        recovery_active: observation.recovery_active,
    }
}

/// Shows a transfer.
pub fn show(observation: Observation, speed: Speed) -> (snapshot: ProductTransferSnapshot)
    ensures
        snapshot == shown(observation, speed),
{
    let (current_file_name, current_file_transferred, current_file_size): (
        Option<String>,
        u64,
        u64,
    ) = match observation.current_file {
        Some(file) => (Some(file.name), file.transferred, file.size),
        None => (None, 0, 0),
    };
    ProductTransferSnapshot {
        state: observation.state,
        transferred: observation.bytes,
        total_size: observation.total_size,
        bytes_per_second: speed.current,
        average_bytes_per_second: speed.average,
        started_files: observation.started_files,
        total_files: observation.total_files,
        current_file_name,
        current_file_transferred,
        current_file_size,
        reconnect_attempts: observation.reconnect_attempts,
        recovered_commands: observation.recovered_commands,
        recovery_active: observation.recovery_active,
    }
}

/// A transfer never shows more bytes than it has, and is complete only once all of them came.
pub proof fn lemma_progress_is_bounded(
    progress: RemoteProgress,
    metrics: SecureMetricsSnapshot,
    total_size: u64,
)
    ensures
        lesser(progress.bytes_read, total_size) <= total_size,
        lesser(metrics.unique_bytes, total_size) <= total_size,
        sent_state(metrics, total_size) is Completed ==> metrics.unique_bytes >= total_size
            && total_size > 0,
{
}

/// A speed is shown only of a transfer that runs; a pause keeps the speed for when it goes on, and
/// any other end forgets it.
pub proof fn lemma_speed_follows_state(
    sample: SpeedSample,
    now: u64,
    bytes: u64,
    state: ProductTransferState,
)
    ensures
        ({
            let after = sample.sampled(now, bytes, state);
            &&& state !is Running ==> after.speed(now, bytes, state).current == 0
            &&& state is Paused ==> after.smoothed_speed == sample.smoothed_speed
            &&& state !is Running && state !is Paused ==> after.smoothed_speed == 0
        }),
{
}

/// The smoothed speed lies between the speeds that it is made of, as long as neither is so large
/// that their sum does not fit.
pub proof fn lemma_smoothing_stays_between(speed: u64, latest: u64)
    requires
        3 * speed + latest <= u64::MAX,
    ensures
        speed <= latest ==> speed <= smoothed(speed, latest) <= latest,
        latest <= speed ==> latest <= smoothed(speed, latest) <= speed,
{
}

} // verus!
