use vstd::prelude::*;

verus! {

/// The one terminal error a command can end with.
#[derive(Clone, Copy, Debug, PartialEq, Eq, Structural)]
pub enum RedisError {
    /// The command was redirected more often than the limit allows.
    RedirectionLoop,
    /// The cluster stayed unavailable through every retry.
    ClusterUnavailable,
    /// The connection failed and the command's budget was spent.
    ConnectionFailed,
    /// The command's deadline passed.
    Timeout,
    /// A reply could not be understood.
    ProtocolError,
    /// The caller stopped waiting.
    Cancelled,
}

impl RedisError {
    /// A short name for the error.
    pub fn name(&self) -> (r: String)
        ensures
            r@ == match self {
                RedisError::RedirectionLoop => "too many redirections"@,
                RedisError::ClusterUnavailable => "cluster unavailable"@,
                RedisError::ConnectionFailed => "connection failed"@,
                RedisError::Timeout => "timeout"@,
                RedisError::ProtocolError => "protocol error"@,
                RedisError::Cancelled => "cancelled"@,
            },
    {
        match self {
            RedisError::RedirectionLoop => "too many redirections".to_owned(),
            RedisError::ClusterUnavailable => "cluster unavailable".to_owned(),
            RedisError::ConnectionFailed => "connection failed".to_owned(),
            RedisError::Timeout => "timeout".to_owned(),
            RedisError::ProtocolError => "protocol error".to_owned(),
            RedisError::Cancelled => "cancelled".to_owned(),
        }
    }
}

} // verus!
