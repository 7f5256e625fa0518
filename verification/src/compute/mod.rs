//! Calculated items: their errors, catalog, and the lap-reference lookup
//! that the time-delta items perform frame by frame.

pub mod items;
pub mod registry;

use vstd::prelude::*;
use vstd::string::*;
use crate::error::{IoError, TelemetryError};
use crate::text::{decimal, push_decimal};

verus! {

/// Errors of calculated items.
#[derive(Debug, Clone, PartialEq, Eq)]
pub enum ComputeError {
    /// No valid data (new session, new track, or corrupt data).
    NoValidData,
    /// The reference data is unusable, e.g. an empty reference lap.
    InvalidReferenceData,
    /// The computation failed.
    ComputationFailed(String),
    /// The item is not registered.
    ItemNotFound(String),
    /// Registration failed (invalid or duplicate name).
    InvalidRegistration(String),
}

/// Result of a calculated item.
pub type ComputeResult<T> = Result<T, ComputeError>;

/// The display text of each error.
pub open spec fn compute_error_text(e: ComputeError) -> Seq<char> {
    match e {
        ComputeError::NoValidData => "无有效数据"@,
        ComputeError::InvalidReferenceData => "无效参考数据"@,
        ComputeError::ComputationFailed(m) => "计算失败: "@ + m@,
        ComputeError::ItemNotFound(n) => "计算项未找到: "@ + n@,
        ComputeError::InvalidRegistration(m) => "注册失败: "@ + m@,
    }
}

impl ComputeError {
    /// The display text of this error.
    pub fn to_string(&self) -> (s: String)
        ensures
            s@ == compute_error_text(*self),
    {
        match self {
            ComputeError::NoValidData => String::from_str("无有效数据"),
            ComputeError::InvalidReferenceData => String::from_str("无效参考数据"),
            ComputeError::ComputationFailed(m) => {
                let mut s = String::from_str("计算失败: ");
                s.append(m.as_str());
                s
            },
            ComputeError::ItemNotFound(n) => {
                let mut s = String::from_str("计算项未找到: ");
                s.append(n.as_str());
                s
            },
            ComputeError::InvalidRegistration(m) => {
                let mut s = String::from_str("注册失败: ");
                s.append(m.as_str());
                s
            },
        }
    }
}

/// The display text of a telemetry error.
pub open spec fn telemetry_error_text(e: TelemetryError) -> Seq<char> {
    match e {
        TelemetryError::Io(io) => "io error: "@ + io.message@,
        TelemetryError::InvalidFormat(m) => "invalid telemetry format: "@ + m@,
        TelemetryError::UnsupportedVersion(v) => "unsupported telemetry format version: "@ + decimal(v as nat),
        TelemetryError::InvalidArgument(m) => "invalid argument: "@ + m@,
    }
}

impl TelemetryError {
    /// The display text of this error.
    pub fn to_string(&self) -> (s: String)
        ensures
            s@ == telemetry_error_text(*self),
    {
        match self {
            TelemetryError::Io(io) => {
                let mut s = String::from_str("io error: ");
                s.append(io.message.as_str());
                s
            },
            TelemetryError::InvalidFormat(m) => {
                let mut s = String::from_str("invalid telemetry format: ");
                s.append(m.as_str());
                s
            },
            TelemetryError::UnsupportedVersion(v) => {
                let mut s = String::from_str("unsupported telemetry format version: ");
                push_decimal(&mut s, *v as u64);
                s
            },
            TelemetryError::InvalidArgument(m) => {
                let mut s = String::from_str("invalid argument: ");
                s.append(m.as_str());
                s
            },
        }
    }
}

impl From<IoError> for ComputeError {
    fn from(e: IoError) -> (r: Self) {
        ComputeError::ComputationFailed(e.message)
    }
}

impl vstd::std_specs::convert::FromSpecImpl<IoError> for ComputeError {
    open spec fn obeys_from_spec() -> bool {
        true
    }

    open spec fn from_spec(e: IoError) -> ComputeError {
        ComputeError::ComputationFailed(e.message)
    }
}

impl ComputeError {
    /// A telemetry error seen as a failed computation carrying its text.
    pub fn from_telemetry(e: TelemetryError) -> (r: Self)
        ensures
            r matches ComputeError::ComputationFailed(m) && m@ == telemetry_error_text(e),
    {
        ComputeError::ComputationFailed(e.to_string())
    }
}

} // verus!
