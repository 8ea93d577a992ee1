use crate::error::ContractError;
use vstd::prelude::*;

verus! {

/// Nanoseconds in one second.
pub const NANOS_PER_SECOND: u64 = 1_000_000_000;

/// The block an operation runs in: its height and its time in nanoseconds.
#[derive(Debug, Clone, Copy, PartialEq, Eq, Structural)]
pub struct BlockInfo {
    pub height: u64,
    pub time_nanos: u64,
}

/// The point at which a claim is released.
#[derive(Debug, Clone, Copy, PartialEq, Eq, Structural)]
pub enum Expiration {
    /// Released from this block height on.
    AtHeight(u64),
    /// Released from this time on, in nanoseconds.
    AtTime(u64),
    /// Never released.
    Never,
}

/// A lock period, counted in blocks or in seconds.
#[derive(Debug, Clone, Copy, PartialEq, Eq, Structural)]
pub enum Duration {
    Height(u64),
    Time(u64),
}

impl Expiration {
    pub open spec fn spec_is_expired(self, block: BlockInfo) -> bool {
        match self {
            Expiration::AtHeight(h) => block.height >= h,
            Expiration::AtTime(t) => block.time_nanos >= t,
            Expiration::Never => false,
        }
    }

    /// Whether `block` has reached this release point.
    pub fn is_expired(&self, block: &BlockInfo) -> (r: bool)
        ensures
            r == self.spec_is_expired(*block),
    {
        match self {
            Expiration::AtHeight(h) => block.height >= *h,
            Expiration::AtTime(t) => block.time_nanos >= *t,
            Expiration::Never => false,
        }
    }
}

impl Expiration {
    pub open spec fn spec_plus(self, d: Duration) -> Result<Expiration, ContractError> {
        match self {
            Expiration::AtTime(t) => match d {
                Duration::Time(secs) => if t + secs * NANOS_PER_SECOND > u64::MAX {
                    Err(ContractError::Overflow)
                } else {
                    Ok(Expiration::AtTime((t + secs * NANOS_PER_SECOND) as u64))
                },
                Duration::Height(_) => Err(ContractError::MismatchedDuration),
            },
            Expiration::AtHeight(h) => match d {
                Duration::Height(dh) => if h + dh > u64::MAX {
                    Err(ContractError::Overflow)
                } else {
                    Ok(Expiration::AtHeight((h + dh) as u64))
                },
                Duration::Time(_) => Err(ContractError::MismatchedDuration),
            },
            Expiration::Never => Ok(Expiration::Never),
        }
    }

    /// This release point moved later by `d`, which must be counted in the
    /// same unit; a point that is never reached stays so.
    pub fn plus(&self, d: &Duration) -> (r: Result<Expiration, ContractError>)
        ensures
            r == self.spec_plus(*d),
    {
        match self {
            Expiration::AtTime(t) => match d {
                Duration::Time(secs) => match secs.checked_mul(NANOS_PER_SECOND) {
                    Some(nanos) => match t.checked_add(nanos) {
                        Some(v) => Ok(Expiration::AtTime(v)),
                        None => Err(ContractError::Overflow),
                    },
                    None => {
                        assert(*t + *secs * NANOS_PER_SECOND > u64::MAX);
                        Err(ContractError::Overflow)
                    },
                },
                Duration::Height(_) => Err(ContractError::MismatchedDuration),
            },
            Expiration::AtHeight(h) => match d {
                Duration::Height(dh) => match h.checked_add(*dh) {
                    Some(v) => Ok(Expiration::AtHeight(v)),
                    None => Err(ContractError::Overflow),
                },
                Duration::Time(_) => Err(ContractError::MismatchedDuration),
            },
            Expiration::Never => Ok(Expiration::Never),
        }
    }
}

impl Duration {
    pub open spec fn spec_after(self, block: BlockInfo) -> Result<Expiration, ContractError> {
        match self {
            Duration::Height(h) => if block.height + h > u64::MAX {
                Err(ContractError::Overflow)
            } else {
                Ok(Expiration::AtHeight((block.height + h) as u64))
            },
            Duration::Time(secs) => if block.time_nanos + secs * NANOS_PER_SECOND > u64::MAX {
                Err(ContractError::Overflow)
            } else {
                Ok(Expiration::AtTime((block.time_nanos + secs * NANOS_PER_SECOND) as u64))
            },
        }
    }

    /// The release point this long after `block`.
    pub fn after(&self, block: &BlockInfo) -> (r: Result<Expiration, ContractError>)
        ensures
            r == self.spec_after(*block),
    {
        match self {
            Duration::Height(h) => match block.height.checked_add(*h) {
                Some(v) => Ok(Expiration::AtHeight(v)),
                None => Err(ContractError::Overflow),
            },
            Duration::Time(secs) => match secs.checked_mul(NANOS_PER_SECOND) {
                Some(nanos) => match block.time_nanos.checked_add(nanos) {
                    Some(v) => Ok(Expiration::AtTime(v)),
                    None => Err(ContractError::Overflow),
                },
                None => {
                    assert(block.time_nanos + secs * NANOS_PER_SECOND > u64::MAX);
                    Err(ContractError::Overflow)
                },
            },
        }
    }
}

} // verus!
