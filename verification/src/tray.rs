use vstd::prelude::*;
use crate::error::WhisperCatError;

verus! {

/// System tray events that the app should handle.
#[derive(Debug, Clone)]
pub enum TrayEvent {
    Show,
    Hide,
    ToggleRecording,
    Exit,
}

/// System tray manager.
///
/// This is a stub: full system tray support needs platform-specific system
/// libraries, so every operation here is a no-op and no event is ever
/// reported.
pub struct TrayManager {
}

impl TrayManager {
    pub fn new() -> (r: Result<Self, WhisperCatError>)
        ensures
            r is Ok,
    {
        Ok(Self {})
    }

    /// Check for tray events (non-blocking); the stub never has any.
    pub fn check_events(&self) -> (r: Option<TrayEvent>)
        ensures
            r is None,
    {
        None
    }

    /// Update menu item states based on app state; no-op in the stub.
    pub fn update_recording_state(&mut self, _is_recording: bool)
        ensures
            *final(self) == *old(self),
    {
    }

    /// Update menu item states based on window visibility; no-op in the stub.
    pub fn update_visibility_state(&mut self, _is_visible: bool)
        ensures
            *final(self) == *old(self),
    {
    }
}

} // verus!
