use vstd::prelude::*;

verus! {

/// The failures a run can end with.
///
/// `IoError` covers a missing or corrupt snapshot and a size mismatch on load;
/// `TurnComputationFailed` a worker that failed mid-turn; `ChannelClosed` a
/// consumer that went away, which is treated as a request to shut down; and
/// `ConfigurationError` a run rejected before it starts (zero workers or zero
/// dimensions).
#[derive(Debug, Clone, Copy, PartialEq, Eq, Structural)]
pub enum GolError {
    IoError,
    TurnComputationFailed,
    ChannelClosed,
    ConfigurationError,
}

impl GolError {
    /// A short text for logs and process exit messages.
    pub fn describe(&self) -> (r: &'static str)
        ensures
            *self is IoError ==> r@ == "snapshot could not be read or written"@,
            *self is TurnComputationFailed ==> r@ == "a worker failed while computing a turn"@,
            *self is ChannelClosed ==> r@ == "a channel closed; shutting down"@,
            *self is ConfigurationError ==> r@ == "workers and dimensions must be at least 1"@,
    {
        match self {
            GolError::IoError => "snapshot could not be read or written",
            GolError::TurnComputationFailed => "a worker failed while computing a turn",
            GolError::ChannelClosed => "a channel closed; shutting down",
            GolError::ConfigurationError => "workers and dimensions must be at least 1",
        }
    }
}

} // verus!
