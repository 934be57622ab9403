use headhunter::error::MemoryError;
use headhunter::locate::{select_single, name_is, CS2Process, Event, Locator, Request, Stage};
use headhunter::name::{decode_name, first_nul, NameError};

const NAME_BUFFER_LEN: usize = 260;

fn buffer(name: &[u8]) -> Vec<u8> {
    let mut b = vec![0u8; NAME_BUFFER_LEN];
    b[..name.len()].copy_from_slice(name);
    b
}

struct FakeProcess {
    pid: u32,
    exe_file: Vec<u8>,
    modules: Vec<(Vec<u8>, usize)>,
}

fn process(pid: u32, name: &str, modules: &[(&str, usize)]) -> FakeProcess {
    FakeProcess {
        pid,
        exe_file: buffer(name.as_bytes()),
        modules: modules.iter().map(|(n, b)| (buffer(n.as_bytes()), *b)).collect(),
    }
}

struct Report {
    outcome: Result<CS2Process, MemoryError>,
    opened: usize,
    released: usize,
    module_snapshots: Vec<u32>,
    advances: usize,
}

struct Faults {
    process_open_fails: bool,
    module_open_fails: bool,
    release_fails: bool,
}

const NO_FAULTS: Faults = Faults { process_open_fails: false, module_open_fails: false, release_fails: false };

fn drive(system: &[FakeProcess], exe_name: &str, module_name: &str, faults: &Faults) -> Report {
    let mut locator = Locator::new(exe_name, module_name);
    let mut request = locator.request();
    let mut records: Vec<Event> = Vec::new();
    let mut cursor = 0usize;
    let mut report_opened = 0usize;
    let mut released = 0usize;
    let mut module_snapshots = Vec::new();
    let mut advances = 0usize;
    loop {
        let event = match request {
            Request::OpenProcessSnapshot => {
                if faults.process_open_fails {
                    Event::OpenFailed
                } else {
                    report_opened += 1;
                    records = system
                        .iter()
                        .map(|p| Event::Process { pid: p.pid, exe_file: p.exe_file.clone() })
                        .collect();
                    cursor = 0;
                    Event::Opened
                }
            }
            Request::OpenModuleSnapshot(pid) => {
                module_snapshots.push(pid);
                if faults.module_open_fails {
                    Event::OpenFailed
                } else {
                    report_opened += 1;
                    let p = system.iter().find(|p| p.pid == pid).unwrap();
                    records = p
                        .modules
                        .iter()
                        .map(|(n, b)| Event::Module { name: n.clone(), base_address: *b })
                        .collect();
                    cursor = 0;
                    Event::Opened
                }
            }
            Request::Advance => {
                advances += 1;
                if cursor < records.len() {
                    let e = std::mem::replace(&mut records[cursor], Event::Exhausted);
                    cursor += 1;
                    e
                } else {
                    Event::Exhausted
                }
            }
            Request::Release => {
                released += 1;
                Event::Released { ok: !faults.release_fails }
            }
            Request::Finish => break,
        };
        request = locator.step(event);
    }
    Report {
        outcome: locator.finish().unwrap(),
        opened: report_opened,
        released,
        module_snapshots,
        advances,
    }
}

#[test]
fn finds_single_process_and_its_module() {
    let system = vec![
        process(10, "notepad.exe", &[("client.dll", 0x1000)]),
        process(20, "cs2.exe", &[("client.dll", 0x140000000)]),
    ];
    let r = drive(&system, "cs2.exe", "client.dll", &NO_FAULTS);
    assert_eq!(r.outcome.unwrap(), CS2Process { pid: 20, base_address: 0x140000000 });
    assert_eq!(r.module_snapshots, vec![20]);
    assert_eq!(r.opened, 2);
    assert_eq!(r.released, 2);
}

#[test]
fn two_matching_processes_are_refused() {
    let system = vec![
        process(20, "cs2.exe", &[("client.dll", 0x140000000)]),
        process(21, "cs2.exe", &[("client.dll", 0x150000000)]),
    ];
    let r = drive(&system, "cs2.exe", "client.dll", &NO_FAULTS);
    assert!(matches!(r.outcome, Err(MemoryError::MultipleCS2Processes)));
    assert!(r.module_snapshots.is_empty());
    assert_eq!(r.opened, 1);
    assert_eq!(r.released, 1);
}

#[test]
fn missing_module_is_reported_with_its_name() {
    let system = vec![process(20, "cs2.exe", &[("engine2.dll", 0x180000000)])];
    let r = drive(&system, "cs2.exe", "client.dll", &NO_FAULTS);
    match r.outcome {
        Err(MemoryError::FailedToFindModule(name)) => assert_eq!(name, "client.dll"),
        other => panic!("unexpected outcome {:?}", other),
    }
    assert_eq!(r.opened, 2);
    assert_eq!(r.released, 2);
}

#[test]
fn no_matching_process_is_not_found() {
    let system = vec![
        process(10, "notepad.exe", &[]),
        process(11, "CS2.EXE", &[("client.dll", 1)]),
        process(12, "cs2", &[("client.dll", 1)]),
    ];
    let r = drive(&system, "cs2.exe", "client.dll", &NO_FAULTS);
    assert!(matches!(r.outcome, Err(MemoryError::CS2ProcessNotFound)));
    assert_eq!(r.opened, 1);
    assert_eq!(r.released, 1);
}

#[test]
fn empty_snapshot_is_not_found_and_released() {
    let r = drive(&[], "cs2.exe", "client.dll", &NO_FAULTS);
    assert!(matches!(r.outcome, Err(MemoryError::CS2ProcessNotFound)));
    assert_eq!(r.opened, 1);
    assert_eq!(r.released, 1);
    assert_eq!(r.advances, 1);
}

#[test]
fn several_matches_are_refused_even_without_the_module() {
    let system = vec![
        process(20, "cs2.exe", &[]),
        process(30, "other.exe", &[]),
        process(21, "cs2.exe", &[]),
        process(22, "cs2.exe", &[("client.dll", 7)]),
    ];
    let r = drive(&system, "cs2.exe", "client.dll", &NO_FAULTS);
    assert!(matches!(r.outcome, Err(MemoryError::MultipleCS2Processes)));
    assert!(r.module_snapshots.is_empty());
}

#[test]
fn process_scan_collects_every_match_in_order() {
    let names = ["a.exe", "cs2.exe", "b.exe", "cs2.exe", "cs2.exe", "c.exe"];
    let mut locator = Locator::new("cs2.exe", "client.dll");
    assert_eq!(locator.step(Event::Opened), Request::Advance);
    for (i, n) in names.iter().enumerate() {
        let req = locator.step(Event::Process { pid: 100 + i as u32, exe_file: buffer(n.as_bytes()) });
        assert_eq!(req, Request::Advance);
    }
    assert_eq!(locator.step(Event::Exhausted), Request::Release);
    match locator.stage() {
        Stage::ClosingProcesses { ids } => assert_eq!(*ids, vec![101, 103, 104]),
        other => panic!("unexpected stage {:?}", other),
    }
}

#[test]
fn process_scan_count_ignores_record_order() {
    let orders: [[&str; 4]; 3] = [
        ["cs2.exe", "x.exe", "cs2.exe", "y.exe"],
        ["x.exe", "y.exe", "cs2.exe", "cs2.exe"],
        ["cs2.exe", "cs2.exe", "x.exe", "y.exe"],
    ];
    for order in orders.iter() {
        let mut locator = Locator::new("cs2.exe", "client.dll");
        locator.step(Event::Opened);
        for (i, n) in order.iter().enumerate() {
            locator.step(Event::Process { pid: i as u32, exe_file: buffer(n.as_bytes()) });
        }
        locator.step(Event::Exhausted);
        match locator.stage() {
            Stage::ClosingProcesses { ids } => assert_eq!(ids.len(), 2),
            other => panic!("unexpected stage {:?}", other),
        }
    }
}

#[test]
fn first_matching_module_wins() {
    let system = vec![process(
        20,
        "cs2.exe",
        &[("engine2.dll", 0x10), ("client.dll", 0x140000000), ("client.dll", 0x150000000)],
    )];
    let r = drive(&system, "cs2.exe", "client.dll", &NO_FAULTS);
    assert_eq!(r.outcome.unwrap(), CS2Process { pid: 20, base_address: 0x140000000 });
    // Two advances over the processes (the record and the end), two over the modules.
    assert_eq!(r.advances, 4);
    assert_eq!(r.released, 2);
}

#[test]
fn undecodable_records_are_skipped() {
    let mut system = vec![process(20, "cs2.exe", &[("client.dll", 0x140000000)])];
    // A name buffer with no NUL byte.
    system.insert(0, FakeProcess { pid: 5, exe_file: vec![b'c'; NAME_BUFFER_LEN], modules: vec![] });
    // A name buffer holding bytes that are not UTF-8.
    system.push(FakeProcess { pid: 6, exe_file: buffer(&[0xff, 0xfe, b'x']), modules: vec![] });
    let r = drive(&system, "cs2.exe", "client.dll", &NO_FAULTS);
    assert_eq!(r.outcome.unwrap(), CS2Process { pid: 20, base_address: 0x140000000 });
}

#[test]
fn undecodable_module_names_are_skipped() {
    let mut p = process(20, "cs2.exe", &[("client.dll", 0x140000000)]);
    p.modules.insert(0, (vec![0xc3; NAME_BUFFER_LEN], 0x1));
    let r = drive(&[p], "cs2.exe", "client.dll", &NO_FAULTS);
    assert_eq!(r.outcome.unwrap(), CS2Process { pid: 20, base_address: 0x140000000 });
}

#[test]
fn process_snapshot_failure_is_reported_without_release() {
    let system = vec![process(20, "cs2.exe", &[("client.dll", 1)])];
    let faults = Faults { process_open_fails: true, module_open_fails: false, release_fails: false };
    let r = drive(&system, "cs2.exe", "client.dll", &faults);
    assert!(matches!(r.outcome, Err(MemoryError::ProcessSnapshotFailed)));
    assert_eq!(r.opened, 0);
    assert_eq!(r.released, 0);
}

#[test]
fn module_snapshot_failure_is_reported() {
    let system = vec![process(20, "cs2.exe", &[("client.dll", 1)])];
    let faults = Faults { process_open_fails: false, module_open_fails: true, release_fails: false };
    let r = drive(&system, "cs2.exe", "client.dll", &faults);
    assert!(matches!(r.outcome, Err(MemoryError::ProcessSnapshotFailed)));
    assert_eq!(r.opened, 1);
    assert_eq!(r.released, 1);
}

#[test]
fn failed_release_does_not_change_the_outcome() {
    let faults = Faults { process_open_fails: false, module_open_fails: false, release_fails: true };
    let system = vec![process(20, "cs2.exe", &[("client.dll", 0x140000000)])];
    let r = drive(&system, "cs2.exe", "client.dll", &faults);
    assert_eq!(r.outcome.unwrap(), CS2Process { pid: 20, base_address: 0x140000000 });
    assert_eq!(r.released, 2);
    let system = vec![process(20, "cs2.exe", &[("engine2.dll", 1)])];
    let r = drive(&system, "cs2.exe", "client.dll", &faults);
    assert!(matches!(r.outcome, Err(MemoryError::FailedToFindModule(_))));
    assert_eq!(r.released, 2);
}

#[test]
fn stray_events_leave_the_operation_unchanged() {
    let mut locator = Locator::new("cs2.exe", "client.dll");
    assert_eq!(locator.step(Event::Exhausted), Request::OpenProcessSnapshot);
    assert_eq!(locator.step(Event::Opened), Request::Advance);
    assert_eq!(locator.step(Event::Module { name: buffer(b"cs2.exe"), base_address: 1 }), Request::Advance);
    assert_eq!(locator.step(Event::Exhausted), Request::Release);
    assert_eq!(locator.step(Event::Opened), Request::Release);
    assert_eq!(locator.step(Event::Released { ok: true }), Request::Finish);
    assert_eq!(locator.step(Event::Opened), Request::Finish);
    assert!(matches!(locator.finish(), Some(Err(MemoryError::CS2ProcessNotFound))));
}

#[test]
fn unfinished_operation_has_no_outcome() {
    let locator = Locator::new("cs2.exe", "client.dll");
    assert_eq!(locator.request(), Request::OpenProcessSnapshot);
    assert!(locator.finish().is_none());
}

#[test]
fn select_single_checks_cardinality() {
    assert!(matches!(select_single(&vec![]), Err(MemoryError::CS2ProcessNotFound)));
    assert!(matches!(select_single(&vec![42]), Ok(42)));
    assert!(matches!(select_single(&vec![1, 2]), Err(MemoryError::MultipleCS2Processes)));
    assert!(matches!(select_single(&vec![1, 2, 3]), Err(MemoryError::MultipleCS2Processes)));
}

#[test]
fn decode_name_reads_text_before_the_first_nul() {
    assert_eq!(decode_name(&buffer(b"client.dll")).unwrap(), "client.dll");
    assert_eq!(decode_name(b"ab\0cd\0").unwrap(), "ab");
    assert_eq!(decode_name(b"\0").unwrap(), "");
    assert_eq!(decode_name("caf\u{e9}.exe\0".as_bytes()).unwrap(), "caf\u{e9}.exe");
}

#[test]
fn decode_name_rejects_unterminated_buffers() {
    assert_eq!(decode_name(b"client.dll"), Err(NameError::Unterminated));
    assert_eq!(decode_name(b""), Err(NameError::Unterminated));
}

#[test]
fn decode_name_rejects_bytes_that_are_not_text() {
    assert_eq!(decode_name(&[0xff, b'a', 0]), Err(NameError::NotText));
    assert_eq!(decode_name(&[b'a', 0xc3, 0]), Err(NameError::NotText));
    // Bytes after the terminator are not looked at.
    assert_eq!(decode_name(&[b'a', 0, 0xff]).unwrap(), "a");
}

#[test]
fn first_nul_finds_the_terminator() {
    assert_eq!(first_nul(b"abc\0d\0"), Some(3));
    assert_eq!(first_nul(b"\0"), Some(0));
    assert_eq!(first_nul(b"abc"), None);
}

#[test]
fn name_is_exact_and_case_sensitive() {
    let q = String::from("cs2.exe");
    assert!(name_is(&buffer(b"cs2.exe"), &q));
    assert!(!name_is(&buffer(b"CS2.exe"), &q));
    assert!(!name_is(&buffer(b"cs2"), &q));
    assert!(!name_is(&buffer(b"cs2.exe.bak"), &q));
    assert!(!name_is(b"cs2.exe", &q));
}

#[test]
fn error_messages() {
    assert_eq!(MemoryError::ProcessSnapshotFailed.message(), "failed to get processes snapshot");
    assert_eq!(MemoryError::CS2ProcessNotFound.message(), "CS2 process not found");
    assert_eq!(
        MemoryError::MultipleCS2Processes.message(),
        "multiple CS2 processes found (only one allowed)"
    );
    assert_eq!(
        MemoryError::FailedToFindModule("client.dll".to_string()).message(),
        "failed to find module client.dll"
    );
}
