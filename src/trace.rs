//! What a whole sequence of snapshot answers does to a locate operation, and
//! the laws that hold of every such sequence.
use vstd::prelude::*;

use crate::error::ErrorModel;
use crate::locate::{
    after_process_scan, awaited, names, next_stage, CS2Process, EventModel,
    LocatorModel, Request, StageModel,
};
use crate::name::{decoded_name, NameError};

verus! {

/// The model of a locate operation that has not begun.
pub open spec fn initial(exe_name: Seq<char>, module_name: Seq<char>) -> LocatorModel {
    LocatorModel { exe_name, module_name, stage: StageModel::OpeningProcesses }
}

/// The model after one event.
pub open spec fn after(m: LocatorModel, e: EventModel) -> LocatorModel {
    LocatorModel { stage: next_stage(m, e), ..m }
}

/// The model after the events `es`, taken in order.
pub open spec fn run(m: LocatorModel, es: Seq<EventModel>) -> LocatorModel
    decreases es.len(),
{
    if es.len() == 0 {
        m
    } else {
        after(run(m, es.drop_last()), es.last())
    }
}

/// The events of a process snapshot's records, each a process identifier and
/// its executable-name buffer.
pub open spec fn process_events(rs: Seq<(u32, Seq<u8>)>) -> Seq<EventModel> {
    rs.map_values(|r: (u32, Seq<u8>)| EventModel::Process { pid: r.0, exe_file: r.1 })
}

/// The events of a module snapshot's records, each a name buffer and a base
/// address.
pub open spec fn module_events(ms: Seq<(Seq<u8>, usize)>) -> Seq<EventModel> {
    ms.map_values(|r: (Seq<u8>, usize)| EventModel::Module { name: r.0, base_address: r.1 })
}

/// The identifiers of the records whose name is `q`, in record order.
pub open spec fn matching_ids(rs: Seq<(u32, Seq<u8>)>, q: Seq<char>) -> Seq<u32>
    decreases rs.len(),
{
    if rs.len() == 0 {
        Seq::empty()
    } else if names(rs.last().1, q) {
        matching_ids(rs.drop_last(), q).push(rs.last().0)
    } else {
        matching_ids(rs.drop_last(), q)
    }
}

/// Whether the record has the name `q`.
pub open spec fn record_named(q: Seq<char>) -> spec_fn((u32, Seq<u8>)) -> bool {
    |r: (u32, Seq<u8>)| names(r.1, q)
}

/// Whether no module record has the name `q`.
pub open spec fn no_module_named(ms: Seq<(Seq<u8>, usize)>, q: Seq<char>) -> bool {
    forall|i: int| 0 <= i < ms.len() ==> !names(#[trigger] ms[i].0, q)
}

proof fn lemma_run_concat(m: LocatorModel, a: Seq<EventModel>, b: Seq<EventModel>)
    ensures
        run(m, a + b) == run(run(m, a), b),
    decreases b.len(),
{
    if b.len() == 0 {
        assert(a + b =~= a);
    } else {
        assert((a + b).drop_last() =~= a + b.drop_last());
        lemma_run_concat(m, a, b.drop_last());
    }
}

proof fn lemma_run_single(m: LocatorModel, e: EventModel)
    ensures
        run(m, seq![e]) == after(m, e),
{
    assert(seq![e].drop_last() =~= Seq::<EventModel>::empty());
    assert(run(m, Seq::<EventModel>::empty()) == m);
}

proof fn lemma_process_scan(m: LocatorModel, ids: Seq<u32>, rs: Seq<(u32, Seq<u8>)>)
    requires
        m.stage == StageModel::ListingProcesses(ids),
    ensures
        run(m, process_events(rs)) == (LocatorModel {
            stage: StageModel::ListingProcesses(ids + matching_ids(rs, m.exe_name)),
            ..m
        }),
    decreases rs.len(),
{
    if rs.len() == 0 {
        assert(process_events(rs) =~= Seq::<EventModel>::empty());
        assert(ids + Seq::<u32>::empty() =~= ids);
    } else {
        assert(process_events(rs).drop_last() =~= process_events(rs.drop_last()));
        lemma_process_scan(m, ids, rs.drop_last());
        let prev = matching_ids(rs.drop_last(), m.exe_name);
        assert((ids + prev).push(rs.last().0) =~= ids + prev.push(rs.last().0));
    }
}

proof fn lemma_module_scan_misses(m: LocatorModel, pid: u32, ms: Seq<(Seq<u8>, usize)>)
    requires
        m.stage == StageModel::ListingModules(pid),
        no_module_named(ms, m.module_name),
    ensures
        run(m, module_events(ms)) == m,
    decreases ms.len(),
{
    if ms.len() == 0 {
        assert(module_events(ms) =~= Seq::<EventModel>::empty());
    } else {
        assert(module_events(ms).drop_last() =~= module_events(ms.drop_last()));
        assert(no_module_named(ms.drop_last(), m.module_name)) by {
            assert forall|i: int| 0 <= i < ms.drop_last().len() implies !names(
                #[trigger] ms.drop_last()[i].0,
                m.module_name,
            ) by {
                assert(ms.drop_last()[i] == ms[i]);
            }
        }
        lemma_module_scan_misses(m, pid, ms.drop_last());
        assert(!names(ms[ms.len() - 1].0, m.module_name));
    }
}

proof fn lemma_matching_ids_concat(a: Seq<(u32, Seq<u8>)>, b: Seq<(u32, Seq<u8>)>, q: Seq<char>)
    ensures
        matching_ids(a + b, q) == matching_ids(a, q) + matching_ids(b, q),
    decreases b.len(),
{
    if b.len() == 0 {
        assert(a + b =~= a);
        assert(matching_ids(a, q) + Seq::<u32>::empty() =~= matching_ids(a, q));
    } else {
        assert((a + b).drop_last() =~= a + b.drop_last());
        lemma_matching_ids_concat(a, b.drop_last(), q);
        let x = matching_ids(a, q);
        let y = matching_ids(b.drop_last(), q);
        assert((x + y).push(b.last().0) =~= x + y.push(b.last().0));
    }
}

proof fn lemma_matching_ids_len(rs: Seq<(u32, Seq<u8>)>, q: Seq<char>)
    ensures
        matching_ids(rs, q).len() == rs.filter(record_named(q)).len(),
    decreases rs.len(),
{
    reveal(Seq::filter);
    if rs.len() > 0 {
        lemma_matching_ids_len(rs.drop_last(), q);
    }
}

/// The events that open a process snapshot, hand over the records `rs`, and
/// release the snapshot.
pub open spec fn process_phase(rs: Seq<(u32, Seq<u8>)>, released_ok: bool) -> Seq<EventModel> {
    seq![EventModel::Opened] + process_events(rs) + seq![
        EventModel::Exhausted,
        EventModel::Released { ok: released_ok },
    ]
}

/// The events that open a module snapshot, hand over the records `ms` and
/// reach its end, then release it.
pub open spec fn module_phase(ms: Seq<(Seq<u8>, usize)>, released_ok: bool) -> Seq<EventModel> {
    seq![EventModel::Opened] + module_events(ms) + seq![
        EventModel::Exhausted,
        EventModel::Released { ok: released_ok },
    ]
}

proof fn lemma_process_listing(m0: LocatorModel, rs: Seq<(u32, Seq<u8>)>)
    requires
        m0.stage == StageModel::OpeningProcesses,
    ensures
        run(m0, seq![EventModel::Opened] + process_events(rs)) == (LocatorModel {
            stage: StageModel::ListingProcesses(matching_ids(rs, m0.exe_name)),
            ..m0
        }),
{
    let opened = seq![EventModel::Opened];
    lemma_run_concat(m0, opened, process_events(rs));
    lemma_run_single(m0, EventModel::Opened);
    lemma_process_scan(run(m0, opened), Seq::empty(), rs);
    assert(Seq::<u32>::empty() + matching_ids(rs, m0.exe_name) =~= matching_ids(rs, m0.exe_name));
}

proof fn lemma_two_steps(m: LocatorModel, e1: EventModel, e2: EventModel)
    ensures
        run(m, seq![e1, e2]) == after(after(m, e1), e2),
{
    assert(seq![e1, e2].drop_last() =~= seq![e1]);
    lemma_run_single(m, e1);
}

proof fn lemma_process_phase(m0: LocatorModel, rs: Seq<(u32, Seq<u8>)>, released_ok: bool)
    requires
        m0.stage == StageModel::OpeningProcesses,
    ensures
        run(m0, process_phase(rs, released_ok)) == (LocatorModel {
            stage: after_process_scan(matching_ids(rs, m0.exe_name)),
            ..m0
        }),
{
    let head = seq![EventModel::Opened] + process_events(rs);
    let tail = seq![EventModel::Exhausted, EventModel::Released { ok: released_ok }];
    lemma_run_concat(m0, head, tail);
    lemma_process_listing(m0, rs);
    lemma_two_steps(run(m0, head), EventModel::Exhausted, EventModel::Released { ok: released_ok });
}

/// A query that no process record matches ends the operation with
/// `ProcessNotFound`, whatever the release reports.
pub proof fn law_no_match_is_not_found(
    exe_name: Seq<char>,
    module_name: Seq<char>,
    rs: Seq<(u32, Seq<u8>)>,
    released_ok: bool,
)
    requires
        matching_ids(rs, exe_name).len() == 0,
    ensures
        run(initial(exe_name, module_name), process_phase(rs, released_ok)).stage
            == StageModel::Done(Err(ErrorModel::ProcessNotFound)),
{
    lemma_process_phase(initial(exe_name, module_name), rs, released_ok);
}

/// A query that two or more process records match ends the operation with
/// `MultipleProcessesFound` as soon as the process snapshot is released: no
/// module snapshot is ever requested, so the modules of the matching
/// processes play no part.
pub proof fn law_several_matches_are_refused(
    exe_name: Seq<char>,
    module_name: Seq<char>,
    rs: Seq<(u32, Seq<u8>)>,
    released_ok: bool,
)
    requires
        matching_ids(rs, exe_name).len() >= 2,
    ensures
        run(initial(exe_name, module_name), process_phase(rs, released_ok)).stage
            == StageModel::Done(Err(ErrorModel::MultipleProcesses)),
        awaited(run(initial(exe_name, module_name), process_phase(rs, released_ok)).stage)
            == Request::Finish,
{
    lemma_process_phase(initial(exe_name, module_name), rs, released_ok);
}

/// A single matching process leads to a request for its module snapshot.
pub proof fn law_single_match_opens_its_modules(
    exe_name: Seq<char>,
    module_name: Seq<char>,
    rs: Seq<(u32, Seq<u8>)>,
    released_ok: bool,
)
    requires
        matching_ids(rs, exe_name).len() == 1,
    ensures
        awaited(run(initial(exe_name, module_name), process_phase(rs, released_ok)).stage)
            == Request::OpenModuleSnapshot(matching_ids(rs, exe_name)[0]),
{
    lemma_process_phase(initial(exe_name, module_name), rs, released_ok);
}

/// A single matching process without a module of the queried name ends the
/// operation with `ModuleNotFound` carrying that name.
pub proof fn law_missing_module_is_not_found(
    exe_name: Seq<char>,
    module_name: Seq<char>,
    rs: Seq<(u32, Seq<u8>)>,
    ms: Seq<(Seq<u8>, usize)>,
    processes_released_ok: bool,
    modules_released_ok: bool,
)
    requires
        matching_ids(rs, exe_name).len() == 1,
        no_module_named(ms, module_name),
    ensures
        run(
            initial(exe_name, module_name),
            process_phase(rs, processes_released_ok) + module_phase(ms, modules_released_ok),
        ).stage == StageModel::Done(Err(ErrorModel::ModuleNotFound(module_name))),
{
    let m0 = initial(exe_name, module_name);
    let pid = matching_ids(rs, exe_name)[0];
    lemma_run_concat(m0, process_phase(rs, processes_released_ok), module_phase(ms, modules_released_ok));
    lemma_process_phase(m0, rs, processes_released_ok);
    let m1 = run(m0, process_phase(rs, processes_released_ok));
    assert(m1.stage == StageModel::OpeningModules(pid));
    let opened = seq![EventModel::Opened];
    let head = opened + module_events(ms);
    let tail = seq![EventModel::Exhausted, EventModel::Released { ok: modules_released_ok }];
    lemma_run_concat(m1, head, tail);
    lemma_run_concat(m1, opened, module_events(ms));
    lemma_run_single(m1, EventModel::Opened);
    let m2 = run(m1, opened);
    lemma_module_scan_misses(m2, pid, ms);
    lemma_two_steps(m2, EventModel::Exhausted, EventModel::Released { ok: modules_released_ok });
}

/// Module resolution stops at the first module of the queried name: once
/// the records up to and including it are handed over, the snapshot is
/// released and the operation yields that module's base address, whatever
/// the records after it hold.
pub proof fn law_first_module_wins(
    exe_name: Seq<char>,
    module_name: Seq<char>,
    rs: Seq<(u32, Seq<u8>)>,
    ms: Seq<(Seq<u8>, usize)>,
    i: int,
    processes_released_ok: bool,
    modules_released_ok: bool,
)
    requires
        matching_ids(rs, exe_name).len() == 1,
        0 <= i < ms.len(),
        names(ms[i].0, module_name),
        no_module_named(ms.take(i), module_name),
    ensures
        ({
            let m = run(
                initial(exe_name, module_name),
                process_phase(rs, processes_released_ok) + seq![EventModel::Opened]
                    + module_events(ms.take(i + 1)),
            );
            awaited(m.stage) == Request::Release && after(
                m,
                EventModel::Released { ok: modules_released_ok },
            ).stage == StageModel::Done(
                Ok(CS2Process { pid: matching_ids(rs, exe_name)[0], base_address: ms[i].1 }),
            )
        }),
{
    let m0 = initial(exe_name, module_name);
    let pid = matching_ids(rs, exe_name)[0];
    let opened = seq![EventModel::Opened];
    let pp = process_phase(rs, processes_released_ok);
    assert(pp + opened + module_events(ms.take(i + 1)) =~= pp + (opened + (module_events(ms.take(i))
        + seq![EventModel::Module { name: ms[i].0, base_address: ms[i].1 }])));
    assert(module_events(ms.take(i + 1)) =~= module_events(ms.take(i)) + seq![
        EventModel::Module { name: ms[i].0, base_address: ms[i].1 },
    ]);
    lemma_run_concat(m0, pp, opened + module_events(ms.take(i + 1)));
    lemma_process_phase(m0, rs, processes_released_ok);
    let m1 = run(m0, pp);
    lemma_run_concat(m1, opened, module_events(ms.take(i + 1)));
    lemma_run_single(m1, EventModel::Opened);
    let m2 = run(m1, opened);
    lemma_run_concat(m2, module_events(ms.take(i)), seq![EventModel::Module { name: ms[i].0, base_address: ms[i].1 }]);
    lemma_module_scan_misses(m2, pid, ms.take(i));
    lemma_run_single(m2, EventModel::Module { name: ms[i].0, base_address: ms[i].1 });
}

/// A process record whose name buffer decodes to no text (no NUL byte, or
/// bytes before it that are not UTF-8) matches no query and is skipped: the
/// records around it are matched exactly as if it were absent.
pub proof fn law_undecodable_record_is_skipped(
    before: Seq<(u32, Seq<u8>)>,
    pid: u32,
    exe_file: Seq<u8>,
    rest: Seq<(u32, Seq<u8>)>,
    q: Seq<char>,
)
    requires
        decoded_name(exe_file) is Err,
    ensures
        !names(exe_file, q),
        matching_ids(before + seq![(pid, exe_file)] + rest, q) == matching_ids(before + rest, q),
{
    let bad = seq![(pid, exe_file)];
    lemma_matching_ids_concat(before + bad, rest, q);
    lemma_matching_ids_concat(before, bad, q);
    lemma_matching_ids_concat(before, rest, q);
    assert(bad.drop_last() =~= Seq::<(u32, Seq<u8>)>::empty());
    assert(!names(bad.last().1, q));
    assert(matching_ids(bad.drop_last(), q) =~= Seq::<u32>::empty());
    assert(matching_ids(bad, q) =~= Seq::<u32>::empty());
    assert(matching_ids(before, q) + Seq::<u32>::empty() =~= matching_ids(before, q));
}

/// The process scan is exhaustive: after every record has been handed over
/// and the snapshot has ended, the operation holds the identifier of each
/// record whose name is the query, in record order, and as many of them as
/// there are such records.
pub proof fn law_process_scan_is_exhaustive(
    exe_name: Seq<char>,
    module_name: Seq<char>,
    rs: Seq<(u32, Seq<u8>)>,
)
    ensures
        run(
            initial(exe_name, module_name),
            seq![EventModel::Opened] + process_events(rs) + seq![EventModel::Exhausted],
        ).stage == StageModel::ClosingProcesses(matching_ids(rs, exe_name)),
        matching_ids(rs, exe_name).len() == rs.filter(record_named(exe_name)).len(),
{
    let m0 = initial(exe_name, module_name);
    let head = seq![EventModel::Opened] + process_events(rs);
    lemma_run_concat(m0, head, seq![EventModel::Exhausted]);
    lemma_process_listing(m0, rs);
    lemma_run_single(run(m0, head), EventModel::Exhausted);
    lemma_matching_ids_len(rs, exe_name);
}

/// Whether event `e` answers the request that stage `s` awaits.
pub open spec fn answers(s: StageModel, e: EventModel) -> bool {
    match s {
        StageModel::OpeningProcesses => e is Opened || e is OpenFailed,
        StageModel::OpeningModules(_) => e is Opened || e is OpenFailed,
        StageModel::ListingProcesses(_) => e is Process || e is Exhausted,
        StageModel::ListingModules(_) => e is Module || e is Exhausted,
        StageModel::ClosingProcesses(_) => e is Released,
        StageModel::ClosingModules(_, _) => e is Released,
        StageModel::Done(_) => false,
    }
}

/// Whether each of the events `es`, taken from `m`, answers the request
/// awaited just before it: the events a driver sees when it performs each
/// request it is given.
pub open spec fn is_driven(m: LocatorModel, es: Seq<EventModel>) -> bool {
    forall|i: int| 0 <= i < es.len() ==> answers(#[trigger] run(m, es.take(i)).stage, es[i])
}

/// The number of snapshots that were opened along the events `es`.
pub open spec fn opened_snapshots(m: LocatorModel, es: Seq<EventModel>) -> nat
    decreases es.len(),
{
    if es.len() == 0 {
        0
    } else {
        opened_snapshots(m, es.drop_last()) + if es.last() is Opened && (run(
            m,
            es.drop_last(),
        ).stage is OpeningProcesses || run(m, es.drop_last()).stage is OpeningModules) {
            1nat
        } else {
            0nat
        }
    }
}

/// The number of release requests issued along the events `es`.
pub open spec fn release_requests(m: LocatorModel, es: Seq<EventModel>) -> nat
    decreases es.len(),
{
    if es.len() == 0 {
        0
    } else {
        release_requests(m, es.drop_last()) + if awaited(run(m, es).stage) == Request::Release {
            1nat
        } else {
            0nat
        }
    }
}

/// Whether a snapshot is open and not yet handed back in stage `s`.
pub open spec fn holds_open_snapshot(s: StageModel) -> bool {
    s is ListingProcesses || s is ListingModules
}

proof fn lemma_release_accounting(m: LocatorModel, es: Seq<EventModel>)
    requires
        m.stage == StageModel::OpeningProcesses,
        is_driven(m, es),
    ensures
        opened_snapshots(m, es) == release_requests(m, es) + if holds_open_snapshot(
            run(m, es).stage,
        ) {
            1nat
        } else {
            0nat
        },
    decreases es.len(),
{
    if es.len() > 0 {
        let front = es.drop_last();
        assert(is_driven(m, front)) by {
            assert forall|i: int| 0 <= i < front.len() implies answers(
                #[trigger] run(m, front.take(i)).stage,
                front[i],
            ) by {
                assert(front.take(i) =~= es.take(i));
                assert(answers(run(m, es.take(i)).stage, es[i]));
            }
        }
        lemma_release_accounting(m, front);
        assert(es.take(es.len() - 1) =~= front);
        assert(answers(run(m, es.take(es.len() - 1)).stage, es[es.len() - 1]));
    }
}

/// Every snapshot is released exactly once. Along any events that answer the
/// requests issued, from the start of an operation: no more releases are
/// requested than snapshots were opened, at most one snapshot is open at a
/// time, and once the operation is over, every snapshot that was opened has
/// had its one release requested, whether a match came early, late, or not at
/// all, and whether the release itself succeeded or not.
pub proof fn law_every_snapshot_released_once(
    exe_name: Seq<char>,
    module_name: Seq<char>,
    es: Seq<EventModel>,
)
    requires
        is_driven(initial(exe_name, module_name), es),
    ensures
        release_requests(initial(exe_name, module_name), es) <= opened_snapshots(
            initial(exe_name, module_name),
            es,
        ) <= release_requests(initial(exe_name, module_name), es) + 1,
        run(initial(exe_name, module_name), es).stage is Done ==> opened_snapshots(
            initial(exe_name, module_name),
            es,
        ) == release_requests(initial(exe_name, module_name), es),
{
    lemma_release_accounting(initial(exe_name, module_name), es);
}

proof fn lemma_filter_len_permutation<A>(s1: Seq<A>, s2: Seq<A>, p: spec_fn(A) -> bool)
    requires
        s1.to_multiset() == s2.to_multiset(),
    ensures
        s1.filter(p).len() == s2.filter(p).len(),
    decreases s1.len(),
{
    broadcast use Seq::lemma_filter_len_push, Seq::filter_distributes_over_add;

    s1.to_multiset_ensures();
    s2.to_multiset_ensures();

    if s1.len() == 0 {
        assert(s2.to_multiset().len() == 0);
        assert(s1 =~= s2);
    } else {
        let x = s1.last();
        let f1 = s1.drop_last();
        f1.to_multiset_ensures();
        assert(f1.push(x) =~= s1);
        assert(s1[s1.len() - 1] == x);
        assert(s1.contains(x));
        assert(s1.to_multiset().count(x) > 0);
        assert(s2.to_multiset().count(x) > 0);
        assert(s2.contains(x));
        let j = choose|j: int| 0 <= j < s2.len() && s2[j] == x;
        let f2 = s2.remove(j);
        assert(f1.to_multiset() =~= f2.to_multiset()) by {
            assert(f2.to_multiset() =~= s2.to_multiset().remove(x));
            assert(s1.to_multiset() =~= f1.to_multiset().insert(x));
        }
        lemma_filter_len_permutation(f1, f2, p);
        let a = s2.take(j);
        let b = s2.skip(j + 1);
        assert(s2 =~= a.push(x) + b);
        assert(f2 =~= a + b);
    }
}

/// How many process identifiers the scan yields depends on the records alone,
/// not on the order in which the snapshot lists them.
pub proof fn law_match_count_ignores_order(
    rs1: Seq<(u32, Seq<u8>)>,
    rs2: Seq<(u32, Seq<u8>)>,
    q: Seq<char>,
)
    requires
        rs1.to_multiset() == rs2.to_multiset(),
    ensures
        matching_ids(rs1, q).len() == matching_ids(rs2, q).len(),
{
    lemma_matching_ids_len(rs1, q);
    lemma_matching_ids_len(rs2, q);
    lemma_filter_len_permutation(rs1, rs2, record_named(q));
}

} // verus!
