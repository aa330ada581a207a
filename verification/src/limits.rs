//! Process resource limits used during production hardening.

use vstd::prelude::*;

verus! {

/// Runtime resource limits applied by the API and transport layers.
#[derive(Debug, Clone, Copy, PartialEq, Eq, Structural)]
pub struct ResourceLimits {
    /// Maximum concurrent in-flight API requests.
    pub max_concurrent_requests: usize,
    /// Maximum request body size in bytes.
    pub max_request_bytes: usize,
    /// Maximum response body size in bytes from a provider.
    pub max_response_bytes: usize,
    /// Maximum conversation messages accepted in one request.
    pub max_messages: usize,
    /// Default outbound HTTP timeout in milliseconds.
    pub request_timeout_ms: u64,
    /// Graceful shutdown wait in milliseconds.
    pub shutdown_grace_ms: u64,
    /// Maximum open outbound connections.
    pub max_connections: usize,
}

/// All limits are positive.
pub open spec fn limits_valid(l: ResourceLimits) -> bool {
    &&& l.max_concurrent_requests > 0
    &&& l.max_request_bytes > 0
    &&& l.max_response_bytes > 0
    &&& l.max_messages > 0
    &&& l.request_timeout_ms > 0
    &&& l.shutdown_grace_ms > 0
    &&& l.max_connections > 0
}

/// The complaint about the first zero limit, in declaration order.
pub open spec fn limits_complaint(l: ResourceLimits) -> Seq<char> {
    if l.max_concurrent_requests == 0 {
        "max_concurrent_requests must be > 0"@
    } else if l.max_request_bytes == 0 {
        "max_request_bytes must be > 0"@
    } else if l.max_response_bytes == 0 {
        "max_response_bytes must be > 0"@
    } else if l.max_messages == 0 {
        "max_messages must be > 0"@
    } else if l.request_timeout_ms == 0 {
        "request_timeout_ms must be > 0"@
    } else if l.shutdown_grace_ms == 0 {
        "shutdown_grace_ms must be > 0"@
    } else {
        "max_connections must be > 0"@
    }
}

/// The default limits.
pub open spec fn default_limits() -> ResourceLimits {
    ResourceLimits {
        max_concurrent_requests: 128,
        max_request_bytes: 2097152,
        max_response_bytes: 8388608,
        max_messages: 256,
        request_timeout_ms: 60_000,
        shutdown_grace_ms: 10_000,
        max_connections: 64,
    }
}

impl Default for ResourceLimits {
    fn default() -> (l: Self)
        ensures
            l == default_limits(),
    {
        ResourceLimits {
            max_concurrent_requests: 128,
            max_request_bytes: 2 * 1024 * 1024,
            max_response_bytes: 8 * 1024 * 1024,
            max_messages: 256,
            request_timeout_ms: 60_000,
            shutdown_grace_ms: 10_000,
            max_connections: 64,
        }
    }
}

impl ResourceLimits {
    /// Validate that all limits are positive and internally consistent.
    pub fn validate(&self) -> (r: Result<(), String>)
        ensures
            r is Ok <==> limits_valid(*self),
            r matches Err(m) ==> m@ == limits_complaint(*self),
    {
        if self.max_concurrent_requests == 0 {
            return Err(String::from_str("max_concurrent_requests must be > 0"));
        }
        if self.max_request_bytes == 0 {
            return Err(String::from_str("max_request_bytes must be > 0"));
        }
        if self.max_response_bytes == 0 {
            return Err(String::from_str("max_response_bytes must be > 0"));
        }
        if self.max_messages == 0 {
            return Err(String::from_str("max_messages must be > 0"));
        }
        if self.request_timeout_ms == 0 {
            return Err(String::from_str("request_timeout_ms must be > 0"));
        }
        if self.shutdown_grace_ms == 0 {
            return Err(String::from_str("shutdown_grace_ms must be > 0"));
        }
        if self.max_connections == 0 {
            return Err(String::from_str("max_connections must be > 0"));
        }
        Ok(())
    }
}

/// The default limits are valid.
pub proof fn default_limits_are_valid()
    ensures
        limits_valid(default_limits()),
{
}

} // verus!
