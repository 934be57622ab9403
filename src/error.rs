use vstd::prelude::*;

verus! {

/// Why locating the target process failed.
#[derive(Debug)]
pub enum MemoryError {
    /// The operating system could not create a process or module snapshot.
    ProcessSnapshotFailed,
    /// No process has the queried executable name.
    CS2ProcessNotFound,
    /// More than one process has the queried executable name.
    MultipleCS2Processes,
    /// The target process has no module of the given name.
    FailedToFindModule(String),
}

/// The model of a [`MemoryError`]: the same variants, with the module name as
/// a sequence of characters.
pub ghost enum ErrorModel {
    SnapshotFailed,
    ProcessNotFound,
    MultipleProcesses,
    ModuleNotFound(Seq<char>),
}

impl View for MemoryError {
    type V = ErrorModel;

    open spec fn view(&self) -> ErrorModel {
        match self {
            MemoryError::ProcessSnapshotFailed => ErrorModel::SnapshotFailed,
            MemoryError::CS2ProcessNotFound => ErrorModel::ProcessNotFound,
            MemoryError::MultipleCS2Processes => ErrorModel::MultipleProcesses,
            MemoryError::FailedToFindModule(m) => ErrorModel::ModuleNotFound(m@),
        }
    }
}

impl MemoryError {
    /// A human-readable description of the error.
    pub fn message(&self) -> (r: String)
        ensures
            self@ is SnapshotFailed ==> r@ == "failed to get processes snapshot"@,
            self@ is ProcessNotFound ==> r@ == "CS2 process not found"@,
            self@ is MultipleProcesses ==> r@ == "multiple CS2 processes found (only one allowed)"@,
            self@ is ModuleNotFound ==> r@ == "failed to find module "@ + self@->ModuleNotFound_0,
    {
        match self {
            MemoryError::ProcessSnapshotFailed => "failed to get processes snapshot".to_owned(),
            MemoryError::CS2ProcessNotFound => "CS2 process not found".to_owned(),
            MemoryError::MultipleCS2Processes => "multiple CS2 processes found (only one allowed)".to_owned(),
            MemoryError::FailedToFindModule(m) => {
                let mut s = "failed to find module ".to_owned();
                s.append(m.as_str());
                s
            },
        }
    }
}

} // verus!
