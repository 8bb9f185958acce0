use vstd::prelude::*;

verus! {

/// Which screen the application is showing.
#[derive(Debug, Clone, Copy, PartialEq, Eq, Structural)]
pub enum Screen {
    Recording,
    Settings,
    Pipelines,
}

/// What the recording screen asks the application to do.
#[derive(Debug, Clone, Copy, PartialEq, Eq, Structural)]
pub enum RecordingAction {
    Idle,
    StartRecording,
    StopRecording,
    ProcessPipeline,
}

/// What the settings screen asks the application to do.
#[derive(Debug, Clone, Copy, PartialEq, Eq, Structural)]
pub enum SettingsAction {
    Idle,
    SaveConfig,
    FetchModels,
    TestAudio,
}

/// What the pipelines screen asks the application to do.
#[derive(Debug)]
pub enum PipelinesAction {
    Idle,
    Save(crate::pipeline::Pipeline),
    Delete(crate::pipeline::UnitId),
    Execute(crate::pipeline::UnitId),
    RemoveUnit(usize),
}

/// What the unit library screen asks the application to do.
#[derive(Debug)]
pub enum UnitLibraryAction {
    Idle,
    SaveUnit(crate::pipeline::ProcessingUnit),
    DeleteUnit(crate::pipeline::UnitId),
}

} // verus!
