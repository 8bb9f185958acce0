use vstd::prelude::*;

verus! {

/// Keyboard recorder for capturing hotkey combinations.
///
/// This is a stub: capturing raw keyboard input needs system libraries, so
/// recording never starts and an empty capture is always returned.
pub struct KeyboardRecorder {
}

impl KeyboardRecorder {
    pub fn new() -> (r: Self) {
        Self {}
    }

    /// Start recording keyboard input; no-op in the stub.
    pub fn start_recording(&mut self)
        ensures
            *final(self) == *old(self),
    {
    }

    /// Stop recording; the stub always hands back an empty capture.
    pub fn stop_recording(&mut self) -> (r: String)
        ensures
            *final(self) == *old(self),
            r@ == Seq::<char>::empty(),
    {
        String::new()
    }

    /// The stub is never recording.
    pub fn is_recording(&self) -> (r: bool)
        ensures
            r == false,
    {
        false
    }
}

} // verus!
