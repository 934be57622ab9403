use vstd::prelude::*;

use crate::error::{ErrorModel, MemoryError};
use crate::name::{decode_name, decoded_name, NameError};

verus! {

/// A process found by executable name, with the base load address of one of
/// its modules. Plain data: it holds no handle.
#[derive(Debug, Clone, Copy, PartialEq, Eq, Structural)]
pub struct CS2Process {
    pub pid: u32,
    pub base_address: usize,
}

/// The operation that the driver is to perform next.
#[derive(Debug, Clone, Copy, PartialEq, Eq, Structural)]
pub enum Request {
    /// Open a snapshot of all running processes.
    OpenProcessSnapshot,
    /// Open a snapshot of the modules loaded by the given process.
    OpenModuleSnapshot(u32),
    /// Advance the open snapshot to its next record.
    Advance,
    /// Release the open snapshot.
    Release,
    /// Nothing is left to do: the outcome is ready.
    Finish,
}

/// What the snapshot facility answered to the last request.
#[derive(Debug)]
pub enum Event {
    /// The snapshot was opened.
    Opened,
    /// The snapshot could not be opened.
    OpenFailed,
    /// The next record of a process snapshot: the process identifier and the
    /// fixed-size, NUL-terminated buffer holding its executable name.
    Process { pid: u32, exe_file: Vec<u8> },
    /// The next record of a module snapshot: the NUL-terminated buffer
    /// holding the module name, and the module's base load address.
    Module { name: Vec<u8>, base_address: usize },
    /// The snapshot has no further record.
    Exhausted,
    /// The snapshot was released; `ok` tells whether the release succeeded.
    Released { ok: bool },
}

/// The model of an [`Event`].
pub ghost enum EventModel {
    Opened,
    OpenFailed,
    Process { pid: u32, exe_file: Seq<u8> },
    Module { name: Seq<u8>, base_address: usize },
    Exhausted,
    Released { ok: bool },
}

impl View for Event {
    type V = EventModel;

    open spec fn view(&self) -> EventModel {
        match self {
            Event::Opened => EventModel::Opened,
            Event::OpenFailed => EventModel::OpenFailed,
            Event::Process { pid, exe_file } => EventModel::Process { pid: *pid, exe_file: exe_file@ },
            Event::Module { name, base_address } => EventModel::Module {
                name: name@,
                base_address: *base_address,
            },
            Event::Exhausted => EventModel::Exhausted,
            Event::Released { ok } => EventModel::Released { ok: *ok },
        }
    }
}

/// Where a locate operation stands.
#[derive(Debug)]
pub enum Stage {
    OpeningProcesses,
    ListingProcesses { ids: Vec<u32> },
    ClosingProcesses { ids: Vec<u32> },
    OpeningModules { pid: u32 },
    ListingModules { pid: u32 },
    ClosingModules { pid: u32, base_address: Option<usize> },
    Done { result: Result<CS2Process, MemoryError> },
}

/// The model of a [`Stage`].
pub ghost enum StageModel {
    /// A process snapshot is being opened.
    OpeningProcesses,
    /// The process snapshot is open; `ids` are the matches found so far.
    ListingProcesses(Seq<u32>),
    /// The process snapshot is being released; `ids` are all the matches.
    ClosingProcesses(Seq<u32>),
    /// A module snapshot of the single matching process is being opened.
    OpeningModules(u32),
    /// The module snapshot is open.
    ListingModules(u32),
    /// The module snapshot is being released, with the base address found.
    ClosingModules(u32, Option<usize>),
    /// The operation is over.
    Done(Result<CS2Process, ErrorModel>),
}

/// The model of an outcome: the error replaced by its model.
pub open spec fn result_view(r: Result<CS2Process, MemoryError>) -> Result<CS2Process, ErrorModel> {
    match r {
        Ok(p) => Ok(p),
        Err(e) => Err(e@),
    }
}

impl View for Stage {
    type V = StageModel;

    open spec fn view(&self) -> StageModel {
        match self {
            Stage::OpeningProcesses => StageModel::OpeningProcesses,
            Stage::ListingProcesses { ids } => StageModel::ListingProcesses(ids@),
            Stage::ClosingProcesses { ids } => StageModel::ClosingProcesses(ids@),
            Stage::OpeningModules { pid } => StageModel::OpeningModules(*pid),
            Stage::ListingModules { pid } => StageModel::ListingModules(*pid),
            Stage::ClosingModules { pid, base_address } => StageModel::ClosingModules(
                *pid,
                *base_address,
            ),
            Stage::Done { result } => StageModel::Done(result_view(*result)),
        }
    }
}

/// The model of a [`Locator`]: the two queried names and the stage.
pub ghost struct LocatorModel {
    pub exe_name: Seq<char>,
    pub module_name: Seq<char>,
    pub stage: StageModel,
}

/// Whether a NUL-terminated name buffer holds exactly the name `query`.
/// Matching is exact and case-sensitive; a buffer that decodes to no text
/// matches nothing.
pub open spec fn names(buf: Seq<u8>, query: Seq<char>) -> bool {
    decoded_name(buf) == Ok::<Seq<char>, NameError>(query)
}

/// The outcome of the cardinality check on the processes that matched.
pub open spec fn after_process_scan(ids: Seq<u32>) -> StageModel {
    if ids.len() == 0 {
        StageModel::Done(Err(ErrorModel::ProcessNotFound))
    } else if ids.len() == 1 {
        StageModel::OpeningModules(ids[0])
    } else {
        StageModel::Done(Err(ErrorModel::MultipleProcesses))
    }
}

/// The outcome once the module snapshot of process `pid` is released.
pub open spec fn after_module_scan(pid: u32, found: Option<usize>, module_name: Seq<char>) -> StageModel {
    match found {
        Some(b) => StageModel::Done(Ok(CS2Process { pid, base_address: b })),
        None => StageModel::Done(Err(ErrorModel::ModuleNotFound(module_name))),
    }
}

/// The stage that follows `m` on event `e`. An event that does not answer
/// the request awaited in `m` leaves the stage as it is.
pub open spec fn next_stage(m: LocatorModel, e: EventModel) -> StageModel {
    match m.stage {
        StageModel::OpeningProcesses => match e {
            EventModel::Opened => StageModel::ListingProcesses(Seq::empty()),
            EventModel::OpenFailed => StageModel::Done(Err(ErrorModel::SnapshotFailed)),
            _ => m.stage,
        },
        StageModel::ListingProcesses(ids) => match e {
            EventModel::Process { pid, exe_file } => StageModel::ListingProcesses(
                if names(exe_file, m.exe_name) {
                    ids.push(pid)
                } else {
                    ids
                },
            ),
            EventModel::Exhausted => StageModel::ClosingProcesses(ids),
            _ => m.stage,
        },
        StageModel::ClosingProcesses(ids) => match e {
            EventModel::Released { .. } => after_process_scan(ids),
            _ => m.stage,
        },
        StageModel::OpeningModules(pid) => match e {
            EventModel::Opened => StageModel::ListingModules(pid),
            EventModel::OpenFailed => StageModel::Done(Err(ErrorModel::SnapshotFailed)),
            _ => m.stage,
        },
        StageModel::ListingModules(pid) => match e {
            EventModel::Module { name, base_address } => if names(name, m.module_name) {
                StageModel::ClosingModules(pid, Some(base_address))
            } else {
                m.stage
            },
            EventModel::Exhausted => StageModel::ClosingModules(pid, None),
            _ => m.stage,
        },
        StageModel::ClosingModules(pid, found) => match e {
            EventModel::Released { .. } => after_module_scan(pid, found, m.module_name),
            _ => m.stage,
        },
        StageModel::Done(_) => m.stage,
    }
}

/// The request that a stage awaits.
pub open spec fn awaited(s: StageModel) -> Request {
    match s {
        StageModel::OpeningProcesses => Request::OpenProcessSnapshot,
        StageModel::ListingProcesses(_) => Request::Advance,
        StageModel::ClosingProcesses(_) => Request::Release,
        StageModel::OpeningModules(pid) => Request::OpenModuleSnapshot(pid),
        StageModel::ListingModules(_) => Request::Advance,
        StageModel::ClosingModules(_, _) => Request::Release,
        StageModel::Done(_) => Request::Finish,
    }
}

/// The cardinality check: the single identifier in `ids`, or the error
/// for none or for several.
pub fn select_single(ids: &Vec<u32>) -> (r: Result<u32, MemoryError>)
    ensures
        ids@.len() == 0 ==> r is Err && r->Err_0@ == ErrorModel::ProcessNotFound,
        ids@.len() == 1 ==> r == Ok::<u32, MemoryError>(ids@[0]),
        ids@.len() > 1 ==> r is Err && r->Err_0@ == ErrorModel::MultipleProcesses,
{
    if ids.len() == 0 {
        Err(MemoryError::CS2ProcessNotFound)
    } else if ids.len() == 1 {
        Ok(ids[0])
    } else {
        Err(MemoryError::MultipleCS2Processes)
    }
}

/// Whether a NUL-terminated name buffer holds exactly the name `query`.
pub fn name_is(buf: &[u8], query: &String) -> (r: bool)
    ensures
        r == names(buf@, query@),
{
    match decode_name(buf) {
        Ok(text) => text == *query,
        Err(_) => false,
    }
}

/// The decisions of one locate operation: find the single process whose
/// executable name is `exe_name`, then the base address of its module named
/// `module_name`.
///
/// Names are compared exactly as the system reports them, case included: a
/// query for an executable carries its suffix (`"cs2.exe"`, not `"cs2"`).
/// The process snapshot is read to its end, so that a second match is always
/// seen; the module snapshot is released at the first match.
///
/// Each operation takes fresh snapshots and keeps nothing afterwards. A
/// process may exit, and its identifier be reused, between the two
/// snapshots: that shows as a failed module snapshot or a missing module, and
/// is not guarded against.
pub struct Locator {
    exe_name: String,
    module_name: String,
    stage: Stage,
}

impl View for Locator {
    type V = LocatorModel;

    closed spec fn view(&self) -> LocatorModel {
        LocatorModel { exe_name: self.exe_name@, module_name: self.module_name@, stage: self.stage@ }
    }
}

impl Locator {
    /// A locate operation that has not begun: it awaits a process snapshot.
    pub fn new(exe_name: &str, module_name: &str) -> (r: Self)
        ensures
            r@ == (LocatorModel {
                exe_name: exe_name@,
                module_name: module_name@,
                stage: StageModel::OpeningProcesses,
            }),
    {
        Locator {
            exe_name: exe_name.to_owned(),
            module_name: module_name.to_owned(),
            stage: Stage::OpeningProcesses,
        }
    }

    /// Where the operation stands.
    pub fn stage(&self) -> (r: &Stage)
        ensures
            r@ == self@.stage,
    {
        &self.stage
    }

    /// The operation that the driver is to perform next.
    pub fn request(&self) -> (r: Request)
        ensures
            r == awaited(self@.stage),
    {
        match &self.stage {
            Stage::OpeningProcesses => Request::OpenProcessSnapshot,
            Stage::ListingProcesses { .. } => Request::Advance,
            Stage::ClosingProcesses { .. } => Request::Release,
            Stage::OpeningModules { pid } => Request::OpenModuleSnapshot(*pid),
            Stage::ListingModules { .. } => Request::Advance,
            Stage::ClosingModules { .. } => Request::Release,
            Stage::Done { .. } => Request::Finish,
        }
    }
    /// Takes the facility's answer to the awaited request, and returns the
    /// request that follows. The queried names never change.
    pub fn step(&mut self, event: Event) -> (r: Request)
        ensures
            final(self)@ == (LocatorModel { stage: next_stage(old(self)@, event@), ..old(self)@ }),
            r == awaited(final(self)@.stage),
    {
        let mut stage = Stage::OpeningProcesses;
        std::mem::swap(&mut stage, &mut self.stage);
        let next = match stage {
            Stage::OpeningProcesses => match event {
                Event::Opened => Stage::ListingProcesses { ids: Vec::new() },
                Event::OpenFailed => Stage::Done { result: Err(MemoryError::ProcessSnapshotFailed) },
                _ => Stage::OpeningProcesses,
            },
            Stage::ListingProcesses { ids } => match event {
                Event::Process { pid, exe_file } => {
                    let mut ids = ids;
                    if name_is(exe_file.as_slice(), &self.exe_name) {
                        ids.push(pid);
                    }
                    Stage::ListingProcesses { ids }
                },
                Event::Exhausted => Stage::ClosingProcesses { ids },
                _ => Stage::ListingProcesses { ids },
            },
            Stage::ClosingProcesses { ids } => match event {
                Event::Released { .. } => match select_single(&ids) {
                    Ok(pid) => Stage::OpeningModules { pid },
                    Err(e) => Stage::Done { result: Err(e) },
                },
                _ => Stage::ClosingProcesses { ids },
            },
            Stage::OpeningModules { pid } => match event {
                Event::Opened => Stage::ListingModules { pid },
                Event::OpenFailed => Stage::Done { result: Err(MemoryError::ProcessSnapshotFailed) },
                _ => Stage::OpeningModules { pid },
            },
            Stage::ListingModules { pid } => match event {
                Event::Module { name, base_address } => {
                    if name_is(name.as_slice(), &self.module_name) {
                        Stage::ClosingModules { pid, base_address: Some(base_address) }
                    } else {
                        Stage::ListingModules { pid }
                    }
                },
                Event::Exhausted => Stage::ClosingModules { pid, base_address: None },
                _ => Stage::ListingModules { pid },
            },
            Stage::ClosingModules { pid, base_address } => match event {
                Event::Released { .. } => match base_address {
                    Some(b) => Stage::Done { result: Ok(CS2Process { pid, base_address: b }) },
                    None => Stage::Done {
                        result: Err(MemoryError::FailedToFindModule(self.module_name.clone())),
                    },
                },
                _ => Stage::ClosingModules { pid, base_address },
            },
            Stage::Done { result } => Stage::Done { result },
        };
        self.stage = next;
        self.request()
    }

    /// The outcome of the operation: the located process, or why it could not
    /// be located. `None` while the operation is not over.
    pub fn finish(self) -> (r: Option<Result<CS2Process, MemoryError>>)
        ensures
            r is None <==> !(self@.stage is Done),
            r matches Some(res) ==> self@.stage == StageModel::Done(result_view(res)),
    {
        match self.stage {
            Stage::Done { result } => Some(result),
            _ => None,
        }
    }
}

} // verus!
