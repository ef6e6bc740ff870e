//! The single-instance lock: what to do with each outcome of the attempt
//! to take it.
//!
//! Taking the lock is the caller's work. The caller opens the file and asks
//! for an exclusive lock without waiting, then tells what happened; where the
//! lock was taken it writes what it is told to write, and tells again.

use vstd::prelude::*;
use vstd::string::*;
use crate::text::{decimal, format_u64, join_path, joined, parse_u32, trim, trimmed, u32_of};

verus! {

/// The lock could not be taken.
#[derive(Debug, PartialEq, Eq)]
pub struct LockFileError {
    pub path: String,
    /// The process that holds the lock, or zero where none is known.
    pub pid: u32,
}

/// The lock file, once taken.
#[derive(Debug, PartialEq, Eq)]
pub struct LockFile {
    path: String,
}

/// What happened when the caller tried to take the lock.
#[derive(Debug, PartialEq, Eq)]
pub enum LockEvent {
    /// The file could not be opened.
    OpenFailed,
    /// The lock was taken.
    Locked,
    /// Another process holds the lock; with the contents of the file,
    /// where they could be read.
    Contended { contents: Option<String> },
    /// The attempt failed for another reason.
    LockFailed,
}

/// What follows an attempt to take the lock.
#[derive(Debug, PartialEq, Eq)]
pub enum LockStep {
    /// The lock is held: empty the file, write `contents` to it and flush.
    Write { lock: LockFile, contents: String },
    /// Go on without the lock.
    Proceed,
    /// Do not start.
    Refuse(LockFileError),
}

/// The process that the contents of a lock file name.
pub open spec fn holder(contents: Option<String>) -> Option<u32> {
    match contents {
        Some(c) => u32_of(trimmed(c@)),
        None => None,
    }
}

/// The process to blame when the lock is contended: the holder, or zero
/// where none is known.
pub open spec fn holder_or_zero(contents: Option<String>) -> u32 {
    match holder(contents) {
        Some(pid) => pid,
        None => 0,
    }
}

/// What is written to a lock file: the process and a line feed.
pub open spec fn lock_contents(pid: u32) -> Seq<char> {
    decimal(pid as nat) + "\n"@
}

/// The file name of the lock.
pub open spec fn lock_name() -> Seq<char> {
    "watt.pid"@
}

/// Where the lock file lies: in the runtime directory of the user, or
/// under `/run` where there is none.
pub open spec fn lock_path_of(runtime_dir: Option<&str>) -> Seq<char> {
    match runtime_dir {
        Some(dir) => joined(dir@, lock_name()),
        None => joined("/run"@, lock_name()),
    }
}

/// Where the lock file lies.
pub fn lock_path(runtime_dir: Option<&str>) -> (r: String)
    ensures
        r@ == lock_path_of(runtime_dir),
{
    match runtime_dir {
        Some(dir) => join_path(dir, "watt.pid"),
        None => join_path("/run", "watt.pid"),
    }
}

impl LockFileError {
    /// The process that holds the lock, or zero where none is known.
    pub open spec fn holder(&self) -> u32 {
        self.pid
    }

    /// The process that holds the lock, or zero where none is known.
    pub fn pid(&self) -> (r: u32)
        ensures
            r == self.holder(),
    {
        self.pid
    }

    /// What to tell the user.
    pub open spec fn message_spec(&self) -> Seq<char> {
        if self.holder() == 0 {
            "failed to acquire lock at "@ + self.path@
        } else {
            "another watt daemon is running (PID: "@ + decimal(self.holder() as nat) + ")"@
        }
    }

    /// What to tell the user.
    pub fn message(&self) -> (r: String)
        ensures
            r@ == self.message_spec(),
    {
        if self.pid == 0 {
            let mut text = String::from_str("failed to acquire lock at ");
            text.append(self.path.as_str());
            text
        } else {
            let mut text = String::from_str("another watt daemon is running (PID: ");
            let digits = format_u64(self.pid as u64);
            text.append(digits.as_str());
            text.append(")");
            text
        }
    }
}

impl LockFile {
    /// Where the lock file lies.
    pub closed spec fn location(&self) -> Seq<char> {
        self.path@
    }

    /// Where the lock file lies.
    pub fn path(&self) -> (r: &String)
        ensures
            r@ == self.location(),
    {
        &self.path
    }

    /// The process that the contents of a lock file name.
    pub fn read_pid(contents: Option<&str>) -> (r: Option<u32>)
        ensures
            r == match contents {
                Some(c) => u32_of(trimmed(c@)),
                None => None,
            },
    {
        match contents {
            Some(c) => {
                let text = trim(c);
                parse_u32(text.as_str())
            },
            None => None,
        }
    }

    /// What follows the attempt of process `pid` to take the lock at
    /// `lock_path`. A lock that was taken is to be written. A lock that
    /// another process holds is passed over when `force` is set, and refused
    /// with the holder otherwise. Any other failure is refused, forced or
    /// not.
    pub fn acquire(lock_path: &str, force: bool, pid: u32, event: LockEvent) -> (r: LockStep)
        ensures
            match event {
                LockEvent::Locked => r matches LockStep::Write { lock, contents }
                    && lock.location() == lock_path@ && contents@ == lock_contents(pid),
                LockEvent::Contended { contents } => if force {
                    r == LockStep::Proceed
                } else {
                    r matches LockStep::Refuse(e) && e.path@ == lock_path@ && e.holder()
                        == holder_or_zero(contents)
                },
                _ => r matches LockStep::Refuse(e) && e.path@ == lock_path@ && e.holder() == 0,
            },
    {
        match event {
            LockEvent::Locked => {
                let mut contents = format_u64(pid as u64);
                contents.append("\n");
                LockStep::Write { lock: LockFile { path: String::from_str(lock_path) }, contents }
            },
            LockEvent::Contended { contents } => {
                if force {
                    return LockStep::Proceed;
                }
                let existing = match &contents {
                    Some(c) => LockFile::read_pid(Some(c.as_str())),
                    None => None,
                };
                let pid_to_blame: u32 = match existing {
                    Some(p) => p,
                    None => 0,
                };
                LockStep::Refuse(
                    LockFileError { path: String::from_str(lock_path), pid: pid_to_blame },
                )
            },
            _ => LockStep::Refuse(LockFileError { path: String::from_str(lock_path), pid: 0 }),
        }
    }

    /// What follows the writing of the lock file: the lock where it was
    /// written, a refusal where it was not.
    pub fn written(self, succeeded: bool) -> (r: Result<LockFile, LockFileError>)
        ensures
            match r {
                Ok(lock) => succeeded && lock == self,
                Err(e) => !succeeded && e.path@ == self.location() && e.holder() == 0,
            },
    {
        if succeeded {
            Ok(self)
        } else {
            Err(LockFileError { path: self.path, pid: 0 })
        }
    }

    /// The file to remove when the daemon ends.
    pub fn release(&self) -> (r: String)
        ensures
            r@ == self.location(),
    {
        self.path.clone()
    }
}

} // verus!
