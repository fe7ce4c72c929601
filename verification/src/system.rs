//! System-facing interface records: system information, model memory
//! bookkeeping errors, and the memory figures the application assumes on
//! machines it cannot probe.

use vstd::prelude::*;
use crate::text::{spec_dec64, dec64_append, append_str, append_chars, chars_to_string, str_to_chars};

verus! {

/// A snapshot of the host system.
#[derive(Debug, Clone)]
pub struct SystemInfo {
    pub available_memory: u64,
    pub total_memory: u64,
    pub platform: String,
    pub architecture: String,
    pub app_version: String,
}

/// Why a model memory operation failed.
#[derive(Debug, Clone)]
pub enum MemoryManagerError {
    /// Allocation asked for more than is available.
    InsufficientMemory { required: u64, available: u64 },
    /// The named model has no allocation.
    ModelNotAllocated { name: String },
    /// The allocation itself failed.
    AllocationFailed { message: String },
}

/// The message text of a memory manager error.
pub open spec fn spec_memory_error_message(e: MemoryManagerError) -> Seq<char> {
    match e {
        MemoryManagerError::InsufficientMemory { required, available } =>
            "Insufficient memory: need "@ + spec_dec64(required) + " bytes, have "@ + spec_dec64(
            available,
        ) + " bytes"@,
        MemoryManagerError::ModelNotAllocated { name } => "Model "@ + name@
            + " is not allocated"@,
        MemoryManagerError::AllocationFailed { message } => "Memory allocation failed: "@
            + message@,
    }
}

impl MemoryManagerError {
    /// A human-readable description of the failure.
    pub fn message(&self) -> (r: String)
        ensures
            r@ == spec_memory_error_message(*self),
    {
        let mut out: Vec<char> = Vec::new();
        match self {
            MemoryManagerError::InsufficientMemory { required, available } => {
                append_str(&mut out, "Insufficient memory: need ");
                dec64_append(*required, &mut out);
                append_str(&mut out, " bytes, have ");
                dec64_append(*available, &mut out);
                append_str(&mut out, " bytes");
            },
            MemoryManagerError::ModelNotAllocated { name } => {
                append_str(&mut out, "Model ");
                let n = str_to_chars(name.as_str());
                append_chars(&mut out, &n);
                append_str(&mut out, " is not allocated");
            },
            MemoryManagerError::AllocationFailed { message } => {
                append_str(&mut out, "Memory allocation failed: ");
                let m = str_to_chars(message.as_str());
                append_chars(&mut out, &m);
            },
        }
        chars_to_string(&out)
    }
}

/// The memory figures assumed where the platform cannot be probed: eight
/// gigabytes total, six available for models.
pub fn get_system_memory_info() -> (r: (u64, u64))
    ensures
        r.0 == 8589934592u64,
        r.1 == 6442450944u64,
{
    (8 * 1024 * 1024 * 1024, 6 * 1024 * 1024 * 1024)
}

} // verus!
