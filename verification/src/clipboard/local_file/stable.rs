//! Reading a captured file: all of it as it was, or none of it.

use super::snapshot;
use super::snapshot::{reject_attributes, FileInformation, FileSnapshot};
use crate::clipboard::hresult::{
    from_win32, HResult, E_UNEXPECTED, FILE_INVALID, NOT_SUPPORTED, TIMEOUT,
};
use crate::counter;
use crate::counter::count;
use vstd::prelude::*;

verus! {

/// How far a source has come.
#[derive(Clone, Copy, Debug, PartialEq, Eq, Structural)]
pub enum StableFileState {
    Unstarted,
    Active,
    Failed { code: HResult },
}

/// What is next for a read.
#[derive(Clone, Copy, Debug, PartialEq, Eq, Structural)]
pub enum StableStep {
    /// Open the file so that nobody else can write, rename or delete it.
    Open,
    /// Ask the system about the open file.
    Verify,
    /// Read so many bytes at the offset.
    Read { length: usize },
    /// Ask the system about the open file once more, now that its end was read.
    VerifyEnd { length: usize },
    /// The read is over: so many bytes were read.
    Done { count: usize },
    /// The read failed.
    Fail { code: HResult },
}

/// What the system says of a file that was opened.
#[derive(Clone, Copy, Debug)]
pub struct OpenedFile {
    pub information: FileInformation,
    pub on_disk: bool,
    pub streams: Result<bool, HResult>,
}

/// A captured file as it is read. Times are in nanoseconds.
#[derive(Debug)]
pub struct StableFileSource {
    pub snapshot: FileSnapshot,
    pub expires_at: u64,
    pub progress: StableProgress,
}

/// What changes of a captured file while it is read.
#[derive(Clone, Copy, Debug, PartialEq, Eq, Structural)]
pub struct StableProgress {
    pub revoked: bool,
    pub state: StableFileState,
    pub read_calls: u64,
    pub bytes_read: u64,
}

/// The code of a system error; errors without a number are unexpected.
pub fn io_error(raw: Option<u32>) -> (code: HResult)
    ensures
        code == (match raw {
            None => E_UNEXPECTED,
            Some(error) => from_win32(error),
        }),
{
    match raw {
        None => E_UNEXPECTED,
        Some(error) => from_win32(error),
    }
}

impl StableProgress {
    /// A file of which nothing was read.
    pub open spec fn fresh() -> StableProgress {
        StableProgress {
            revoked: false,
            state: StableFileState::Unstarted,
            read_calls: 0,
            bytes_read: 0,
        }
    }

    /// The progress once a read was asked for, and what is next for it.
    pub open spec fn asked(self, expires_at: u64, wanted: nat, now: u64) -> (
        StableProgress,
        StableStep,
    ) {
        let called = StableProgress { read_calls: counter::counted(self.read_calls, 1), ..self };
        if wanted == 0 {
            (self, StableStep::Done { count: 0 })
        } else {
            match self.state {
                StableFileState::Active => (called, StableStep::Verify),
                StableFileState::Failed { code } => (called, StableStep::Fail { code }),
                StableFileState::Unstarted => if self.revoked || now >= expires_at {
                    (
                        StableProgress {
                            state: StableFileState::Failed { code: TIMEOUT },
                            ..called
                        },
                        StableStep::Fail { code: TIMEOUT },
                    )
                } else {
                    (called, StableStep::Open)
                },
            }
        }
    }
}

impl StableFileSource {
    /// Why a file that was opened cannot be read.
    pub open spec fn refusal(snapshot: FileSnapshot, opened: Result<OpenedFile, HResult>) -> Option<
        HResult,
    > {
        match opened {
            Err(code) => Some(code),
            Ok(file) => if snapshot::attribute_refusal(file.information.attributes) is Some {
                Some(NOT_SUPPORTED)
            } else if !file.on_disk || !snapshot.spec_matches(file.information) {
                Some(FILE_INVALID)
            } else {
                match file.streams {
                    Err(code) => Some(code),
                    Ok(true) => Some(NOT_SUPPORTED),
                    Ok(false) => None,
                }
            },
        }
    }

    pub fn new(snapshot: FileSnapshot, expires_at: u64) -> (source: Self)
        ensures
            source == (StableFileSource {
                snapshot,
                expires_at,
                progress: StableProgress::fresh(),
            }),
    {
        StableFileSource {
            snapshot,
            expires_at,
            progress: StableProgress {
                revoked: false,
                state: StableFileState::Unstarted,
                read_calls: 0,
                bytes_read: 0,
            },
        }
    }

    /// Starts a read of at most `wanted` bytes.
    pub fn start_read(&mut self, wanted: usize, now: u64) -> (step: StableStep)
        ensures
            ({
                let (progress, next) = old(self).progress.asked(
                    old(self).expires_at,
                    wanted as nat,
                    now,
                );
                &&& *final(self) == (StableFileSource { progress, ..*old(self) })
                &&& step == next
            }),
    {
        if wanted == 0 {
            return StableStep::Done { count: 0 };
        }
        self.progress.read_calls = count(self.progress.read_calls);
        match self.progress.state {
            StableFileState::Active => StableStep::Verify,
            StableFileState::Failed { code } => StableStep::Fail { code },
            StableFileState::Unstarted => {
                if self.progress.revoked || now >= self.expires_at {
                    self.progress.state = StableFileState::Failed { code: TIMEOUT };
                    return StableStep::Fail { code: TIMEOUT };
                }
                StableStep::Open
            },
        }
    }

    /// Takes the outcome of opening the file. A file that cannot be read now never can.
    pub fn opened(&mut self, opened: Result<OpenedFile, HResult>) -> (step: StableStep)
        ensures
            ({
                let (state, next) = match StableFileSource::refusal(old(self).snapshot, opened) {
                    Some(code) => (
                        StableFileState::Failed { code },
                        StableStep::Fail { code },
                    ),
                    None => (StableFileState::Active, StableStep::Verify),
                };
                &&& *final(self) == (StableFileSource {
                    progress: StableProgress { state, ..old(self).progress },
                    ..*old(self)
                })
                &&& step == next
            }),
    {
        let refusal: Option<HResult> = match opened {
            Err(code) => Some(code),
            Ok(file) => {
                if reject_attributes(file.information.attributes).is_err() {
                    Some(NOT_SUPPORTED)
                } else if !file.on_disk || !self.snapshot.matches(file.information) {
                    Some(FILE_INVALID)
                } else {
                    match file.streams {
                        Err(code) => Some(code),
                        Ok(named) => if named {
                            Some(NOT_SUPPORTED)
                        } else {
                            None
                        },
                    }
                }
            },
        };
        match refusal {
            Some(code) => {
                self.progress.state = StableFileState::Failed { code };
                StableStep::Fail { code }
            },
            None => {
                self.progress.state = StableFileState::Active;
                StableStep::Verify
            },
        }
    }

    /// Takes what the system says of the open file before a read.
    pub fn verified(
        &self,
        information: Result<FileInformation, HResult>,
        offset: u64,
        wanted: usize,
    ) -> (step: StableStep)
        ensures
            step == (match information {
                Err(code) => StableStep::Fail { code },
                Ok(information) => if !self.snapshot.spec_matches(information) {
                    StableStep::Fail { code: FILE_INVALID }
                } else if offset >= self.snapshot.size {
                    StableStep::Done { count: 0 }
                } else if self.snapshot.size - offset < wanted {
                    StableStep::Read { length: (self.snapshot.size - offset) as usize }
                } else {
                    StableStep::Read { length: wanted }
                },
            }),
    {
        let information = match information {
            Err(code) => {
                return StableStep::Fail { code };
            },
            Ok(information) => information,
        };
        if !self.snapshot.matches(information) {
            return StableStep::Fail { code: FILE_INVALID };
        }
        if offset >= self.snapshot.size {
            return StableStep::Done { count: 0 };
        }
        let available: u64 = self.snapshot.size - offset;
        if available < wanted as u64 {
            StableStep::Read { length: available as usize }
        } else {
            StableStep::Read { length: wanted }
        }
    }

    /// Takes the outcome of reading `length` bytes at `offset`: so many bytes came.
    pub fn read_done(&mut self, offset: u64, length: usize, read: Result<usize, HResult>) -> (step:
        StableStep)
        ensures
            ({
                let counted = match read {
                    Err(_) => old(self).progress,
                    Ok(count) => StableProgress {
                        bytes_read: counter::counted(
                            old(self).progress.bytes_read,
                            count as nat,
                        ),
                        ..old(self).progress
                    },
                };
                &&& *final(self) == (StableFileSource { progress: counted, ..*old(self) })
                &&& step == (match read {
                    Err(code) => StableStep::Fail { code },
                    Ok(count) => if count != length {
                        StableStep::Fail { code: FILE_INVALID }
                    } else if offset + count >= old(self).snapshot.size {
                        StableStep::VerifyEnd { length }
                    } else {
                        StableStep::Done { count }
                    },
                })
            }),
    {
        match read {
            Err(code) => StableStep::Fail { code },
            Ok(count) => {
                self.progress.bytes_read = self.progress.bytes_read.wrapping_add(count as u64);
                if count != length {
                    return StableStep::Fail { code: FILE_INVALID };
                }
                if offset >= self.snapshot.size || self.snapshot.size - offset <= count as u64 {
                    return StableStep::VerifyEnd { length };
                }
                StableStep::Done { count }
            },
        }
    }

    /// Takes what the system says of the open file after its end was read.
    pub fn verified_end(&self, information: Result<FileInformation, HResult>, length: usize) -> (
        step: StableStep)
        ensures
            step == (match information {
                Err(code) => StableStep::Fail { code },
                Ok(information) => if self.snapshot.spec_matches(information) {
                    StableStep::Done { count: length }
                } else {
                    StableStep::Fail { code: FILE_INVALID }
                },
            }),
    {
        match information {
            Err(code) => StableStep::Fail { code },
            Ok(information) => if self.snapshot.matches(information) {
                StableStep::Done { count: length }
            } else {
                StableStep::Fail { code: FILE_INVALID }
            },
        }
    }

    /// Revokes the file: a read that was not begun never is.
    pub fn revoke(&mut self)
        ensures
            *final(self) == (StableFileSource {
                progress: StableProgress { revoked: true, ..old(self).progress },
                ..*old(self)
            }),
    {
        self.progress.revoked = true;
    }

    pub fn read_calls(&self) -> (calls: u64)
        ensures
            calls == self.progress.read_calls,
    {
        self.progress.read_calls
    }

    pub fn bytes_read(&self) -> (bytes: u64)
        ensures
            bytes == self.progress.bytes_read,
    {
        self.progress.bytes_read
    }
}

/// A source that failed fails every later read with the same code.
pub proof fn lemma_failure_is_terminal(
    progress: StableProgress,
    expires_at: u64,
    wanted: nat,
    now: u64,
)
    requires
        progress.state is Failed,
        wanted > 0,
    ensures
        ({
            let (after, step) = progress.asked(expires_at, wanted, now);
            &&& step == StableStep::Fail { code: progress.state->code }
            &&& after.state == progress.state
            &&& after.bytes_read == progress.bytes_read
        }),
{
}

/// A file whose offer expired or was revoked before its first read cannot be read; one that is
/// being read can be read to its end.
pub proof fn lemma_expiry_stops_only_unstarted(
    progress: StableProgress,
    expires_at: u64,
    wanted: nat,
    now: u64,
)
    requires
        progress.revoked || now >= expires_at,
        wanted > 0,
    ensures
        ({
            let (after, step) = progress.asked(expires_at, wanted, now);
            &&& progress.state is Unstarted ==> step == (StableStep::Fail { code: TIMEOUT })
                && after.state == (StableFileState::Failed { code: TIMEOUT })
            &&& progress.state is Active ==> step == StableStep::Verify && after.state is Active
        }),
{
}

/// A file that is no longer what it was when it was captured cannot be opened for reading.
pub proof fn lemma_changed_file_is_refused(snapshot: FileSnapshot, file: OpenedFile)
    requires
        !snapshot.spec_matches(file.information),
    ensures
        StableFileSource::refusal(snapshot, Ok(file)) is Some,
{
}

} // verus!
