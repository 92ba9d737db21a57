//! Laws of the guest backend.

use std::path::PathBuf;
use vstd::prelude::*;

use crate::backend;
use crate::backend::{
    BootPlan, ExecutionResult, GuestAction, GuestError, GuestEvent, GuestState, MountPoint,
    RunOutput, Snapshot, Stage, Unikraft, UnikraftGolden, UnikraftGuestSandbox, DEFAULT_HEAP_SIZE,
    DEFAULT_STACK_SIZE,
};
use crate::outside;

verus! {

/// A new backend boots the kernel it was given, with the default sizes and nothing else.
pub proof fn law_new_backend<G>(kernel: PathBuf, made: Unikraft<G>)
    requires
        call_ensures(Unikraft::<G>::new, (kernel,), made),
    ensures
        made.kernel == kernel,
        made.initrd is None,
        made.heap_size == DEFAULT_HEAP_SIZE,
        made.stack_size == DEFAULT_STACK_SIZE,
        made.initrd_base is None,
        made.mounts@.len() == 0,
        made.golden is None,
{
}

/// A backend of a golden has that golden, no kernel, the default sizes and nothing else.
pub proof fn law_golden_backend<G>(golden: UnikraftGolden<G>, made: Unikraft<G>)
    requires
        call_ensures(Unikraft::<G>::from_golden, (golden,), made),
    ensures
        outside::path_bytes(made.kernel).len() == 0,
        made.initrd is None,
        made.heap_size == DEFAULT_HEAP_SIZE,
        made.stack_size == DEFAULT_STACK_SIZE,
        made.initrd_base is None,
        made.mounts@.len() == 0,
        made.golden == Some(golden),
{
}

/// A golden holds the snapshot that was loaded; where none was, there is no golden.
pub proof fn law_loaded_golden<G>(
    loaded: Option<G>,
    golden: Result<UnikraftGolden<G>, GuestError>,
)
    requires
        call_ensures(Unikraft::<G>::load_golden, (loaded,), golden),
    ensures
        loaded matches Some(snapshot) ==> golden matches Ok(g) && g.snapshot == snapshot,
        loaded is None ==> golden == Err::<UnikraftGolden<G>, GuestError>(
            GuestError::GoldenUnreadable,
        ),
{
}

/// A copy of a golden has a copy of its snapshot.
pub proof fn law_copied_golden<G: Clone>(golden: &UnikraftGolden<G>, copy: UnikraftGolden<G>)
    requires
        call_ensures(<UnikraftGolden<G> as Clone>::clone, (golden,), copy),
    ensures
        cloned::<G>(golden.snapshot, copy.snapshot),
{
}

/// Each setting changes itself to what was given, and nothing else.
pub proof fn law_settings<G>(
    base: Unikraft<G>,
    path: PathBuf,
    size: u64,
    guest_path: String,
    with_initrd: Unikraft<G>,
    with_heap: Unikraft<G>,
    with_stack: Unikraft<G>,
    with_base: Unikraft<G>,
    with_mount: Unikraft<G>,
)
    requires
        call_ensures(Unikraft::<G>::initrd, (base, path), with_initrd),
        call_ensures(Unikraft::<G>::heap_size, (base, size), with_heap),
        call_ensures(Unikraft::<G>::stack_size, (base, size), with_stack),
        call_ensures(Unikraft::<G>::initrd_base, (base, size), with_base),
        call_ensures(Unikraft::<G>::mount, (base, path, guest_path), with_mount),
    ensures
        with_initrd == (Unikraft { initrd: Some(path), ..base }),
        with_heap == (Unikraft { heap_size: size, ..base }),
        with_stack == (Unikraft { stack_size: size, ..base }),
        with_base == (Unikraft { initrd_base: Some(size), ..base }),
        with_mount == (Unikraft { mounts: with_mount.mounts, ..base }),
        with_mount.mounts@ == base.mounts@.push((path, guest_path)),
{
}

/// Whether the opening at `i` is the first that failed.
pub open spec fn fails_first_at(opened: Seq<Result<PathBuf, String>>, i: int) -> bool {
    &&& 0 <= i < opened.len()
    &&& opened[i] is Err
    &&& forall|j: int| 0 <= j < i ==> (#[trigger] opened[j]) is Ok
}

/// Whether all openings went well.
pub open spec fn all_open(opened: Seq<Result<PathBuf, String>>) -> bool {
    forall|i: int| 0 <= i < opened.len() ==> (#[trigger] opened[i]) is Ok
}

proof fn lemma_first_failure(opened: Seq<Result<PathBuf, String>>)
    ensures
        all_open(opened) <==> backend::first_failure(opened) is None,
        forall|i: int| #[trigger]
            fails_first_at(opened, i) ==> backend::first_failure(opened) == Some(opened[i]->Err_0),
    decreases opened.len(),
{
    if opened.len() > 0 {
        let rest = opened.drop_first();
        lemma_first_failure(rest);
        if opened[0] is Ok {
            if all_open(rest) {
                assert forall|i: int| 0 <= i < opened.len() implies (#[trigger] opened[i]) is Ok by {
                    if i > 0 {
                        assert(rest[i - 1] is Ok);
                    }
                }
            } else {
                let i = choose|i: int| 0 <= i < rest.len() && !((#[trigger] rest[i]) is Ok);
                assert(!(opened[i + 1] is Ok));
            }
            assert forall|i: int| #[trigger] fails_first_at(opened, i) implies backend::first_failure(
                opened,
            ) == Some(opened[i]->Err_0) by {
                assert(i > 0);
                assert forall|j: int| 0 <= j < i - 1 implies (#[trigger] rest[j]) is Ok by {
                    assert(opened[j + 1] is Ok);
                }
                assert(rest[i - 1] == opened[i]);
                assert(fails_first_at(rest, i - 1));
            }
        } else {
            assert forall|i: int| #[trigger] fails_first_at(opened, i) implies i == 0 by {
                if i > 0 {
                    assert(opened[0] is Ok);
                }
            }
        }
    }
}

/// A sandbox is made exactly where the runtime is there and every mount could be opened; else the
/// runtime's words are told, or those of the first mount that failed.
pub proof fn law_sandbox_is_made<G>(
    backend: Unikraft<G>,
    runtime: Result<(), String>,
    opened: Vec<Result<PathBuf, String>>,
    made: Result<UnikraftGuestSandbox<G>, GuestError>,
    i: int,
)
    requires
        call_ensures(UnikraftGuestSandbox::<G>::new, (backend, runtime, opened), made),
    ensures
        made is Ok <==> runtime is Ok && all_open(opened@),
        runtime matches Err(words) ==> made == Err::<UnikraftGuestSandbox<G>, GuestError>(
            GuestError::Runtime(words),
        ),
        runtime is Ok && fails_first_at(opened@, i) ==> made == Err::<
            UnikraftGuestSandbox<G>,
            GuestError,
        >(GuestError::Mount(opened@[i]->Err_0)),
{
    lemma_first_failure(opened@);
}

/// Whether some directories are exposed as asked for: each of the mounts, as it was opened, at its
/// guest path, in order.
pub open spec fn are_exposed(
    mounts: Seq<(PathBuf, String)>,
    opened: Seq<Result<PathBuf, String>>,
    preopens: Seq<MountPoint>,
) -> bool {
    &&& preopens.len() == mounts.len()
    &&& forall|i: int|
        0 <= i < mounts.len() ==> Ok::<PathBuf, String>((#[trigger] preopens[i]).host_dir)
            == opened[i] && preopens[i].guest_path == mounts[i].1
}

/// The machine of a sandbox is made as its backend says: from the golden where it has one, with
/// the initrd; else by booting the kernel with the sizes, the four host tools, the initrd and the
/// address for it. The mounts are exposed either way.
pub proof fn law_boot_plan<G>(
    backend: Unikraft<G>,
    opened: Vec<Result<PathBuf, String>>,
    sandbox: &UnikraftGuestSandbox<G>,
    plan: BootPlan<'_, G>,
)
    requires
        opened@.len() == backend.mounts@.len(),
        call_ensures(
            UnikraftGuestSandbox::<G>::new,
            (backend, Ok::<(), String>(()), opened),
            Ok::<UnikraftGuestSandbox<G>, GuestError>(*sandbox),
        ),
        call_ensures(UnikraftGuestSandbox::<G>::evolve, (sandbox,), plan),
    ensures
        match (plan, backend.golden) {
            (BootPlan::Golden { golden, preopens, initrd }, Some(given)) => {
                &&& *golden == given
                &&& are_exposed(backend.mounts@, opened@, preopens@)
                &&& initrd is Some <==> backend.initrd is Some
                &&& initrd is Some ==> *initrd->0 == backend.initrd->0
            },
            (
                BootPlan::Cold {
                    kernel,
                    heap_size,
                    stack_size,
                    tools,
                    initrd,
                    initrd_base,
                    preopens,
                },
                None,
            ) => {
                &&& *kernel == backend.kernel
                &&& heap_size == backend.heap_size
                &&& stack_size == backend.stack_size
                &&& tools@ == seq!["call_tool", "read_file", "write_file", "fetch"]
                &&& initrd is Some <==> backend.initrd is Some
                &&& initrd is Some ==> *initrd->0 == backend.initrd->0
                &&& initrd_base == backend.initrd_base
                &&& are_exposed(backend.mounts@, opened@, preopens@)
            },
            _ => false,
        },
{
    lemma_first_failure(opened@);
    let preopens = sandbox.config().preopens;
    assert(all_open(opened@));
    assert forall|i: int| 0 <= i < backend.mounts@.len() implies Ok::<PathBuf, String>(
        (#[trigger] preopens[i]).host_dir,
    ) == opened@[i] && preopens[i].guest_path == backend.mounts@[i].1 by {
        assert(opened@[i] is Ok);
    }
}

/// What one event changes of a sandbox and calls for, whatever came before: a run boots where no
/// machine is there; then, and where one is, the output is cleared; then the code of that run is
/// delivered; and what came of it is the result. The boot configuration never changes.
pub proof fn law_guest_event<G>(
    sandbox: &mut UnikraftGuestSandbox<G>,
    event: GuestEvent,
    action: GuestAction,
)
    requires
        call_ensures(UnikraftGuestSandbox::<G>::advance, (sandbox, event), action),
    ensures
        final(sandbox).config() == old(sandbox).config(),
        final(sandbox).state().from_golden == old(sandbox).state().from_golden,
        event matches GuestEvent::Run(code) ==> {
            &&& final(sandbox).state().code == Some(code)
            &&& final(sandbox).state().resident == old(sandbox).state().resident
            &&& old(sandbox).state().resident ==> action is ClearOutput
                && final(sandbox).state().stage is Clearing
            &&& !old(sandbox).state().resident ==> action is Boot
                && final(sandbox).state().stage is Booting
        },
        event == GuestEvent::Booted(true) ==> {
            &&& action is ClearOutput
            &&& final(sandbox).state().resident
            &&& final(sandbox).state().stage is Clearing
            &&& final(sandbox).state().code == old(sandbox).state().code
        },
        event == GuestEvent::Booted(false) ==> {
            &&& action == GuestAction::Fail(
                if old(sandbox).state().from_golden {
                    GuestError::Golden
                } else {
                    GuestError::Boot
                },
            )
            &&& final(sandbox).state().resident == old(sandbox).state().resident
            &&& final(sandbox).state().stage is Idle
        },
        event is Cleared ==> {
            &&& action == GuestAction::RunCode(old(sandbox).state().code->0)
            &&& final(sandbox).state().resident == old(sandbox).state().resident
            &&& final(sandbox).state().stage is Running
        },
        event matches GuestEvent::Ran(Ok(output)) ==> (action matches GuestAction::Done(result) && {
            &&& result.stdout == output.stdout
            &&& result.stderr == output.stderr
            &&& result.exit_code == output.exit_code
        }),
        event matches GuestEvent::Ran(Err(trap)) ==> (action matches GuestAction::Done(result) && {
            &&& result.stdout@.len() == 0
            &&& result.stderr == trap
            &&& result.exit_code == -1
        }),
        event is Ran ==> {
            &&& final(sandbox).state().resident == old(sandbox).state().resident
            &&& final(sandbox).state().stage is Idle
        },
{
}

/// Which event a sandbox waits for: a run when none is under way, then what comes of each step.
pub proof fn law_awaited_events(state: GuestState, event: GuestEvent)
    ensures
        state.accepts(event) <==> match state.stage {
            Stage::Idle => event is Run,
            Stage::Booting => event is Booted,
            Stage::Clearing => event is Cleared,
            Stage::Running => event is Ran,
        },
{
}

/// The result of a run is the guest's own: for any two outputs, the results are the same in a
/// stream or in the exit code exactly where the outputs are.
pub proof fn law_results_tell_outputs_apart<G>(
    sandbox: &mut UnikraftGuestSandbox<G>,
    other: &mut UnikraftGuestSandbox<G>,
    output: RunOutput,
    other_output: RunOutput,
    result: ExecutionResult,
    other_result: ExecutionResult,
)
    requires
        call_ensures(
            UnikraftGuestSandbox::<G>::advance,
            (sandbox, GuestEvent::Ran(Ok(output))),
            GuestAction::Done(result),
        ),
        call_ensures(
            UnikraftGuestSandbox::<G>::advance,
            (other, GuestEvent::Ran(Ok(other_output))),
            GuestAction::Done(other_result),
        ),
    ensures
        result.exit_code == 0 <==> output.exit_code == 0,
        result.exit_code == other_result.exit_code <==> output.exit_code == other_output.exit_code,
        result.stdout == other_result.stdout <==> output.stdout == other_output.stdout,
        result.stderr == other_result.stderr <==> output.stderr == other_output.stderr,
{
}

/// A new sandbox has no machine: it is in order, waits for a run, and boots for the first, and can
/// be neither captured nor rewound before.
pub proof fn law_new_sandbox<G>(
    backend: Unikraft<G>,
    opened: Vec<Result<PathBuf, String>>,
    sandbox: &mut UnikraftGuestSandbox<G>,
    stage: Stage,
    captured: Result<(), GuestError>,
    snapshot: &Snapshot,
    rewound: Result<(), GuestError>,
    code: String,
    action: GuestAction,
)
    requires
        call_ensures(
            UnikraftGuestSandbox::<G>::new,
            (backend, Ok::<(), String>(()), opened),
            Ok::<UnikraftGuestSandbox<G>, GuestError>(*old(sandbox)),
        ),
        call_ensures(UnikraftGuestSandbox::<G>::stage, (&*old(sandbox),), stage),
        call_ensures(UnikraftGuestSandbox::<G>::snapshot, (&*old(sandbox),), captured),
        call_ensures(UnikraftGuestSandbox::<G>::restore, (&*old(sandbox), snapshot), rewound),
        call_ensures(UnikraftGuestSandbox::<G>::advance, (sandbox, GuestEvent::Run(code)), action),
    ensures
        old(sandbox).state().wf(),
        old(sandbox).state().accepts(GuestEvent::Run(code)),
        old(sandbox).state().from_golden == (backend.golden is Some),
        stage is Idle,
        captured == Err::<(), GuestError>(GuestError::SnapshotBeforeRun),
        rewound == Err::<(), GuestError>(GuestError::RestoreBeforeRun),
        action is Boot,
{
    lemma_first_failure(opened@);
}

/// A sandbox that waits for a run goes through it step by step: the code asked for is delivered,
/// what the guest gives is the result, and from then on the machine is there: it can be captured
/// and rewound, and the next run goes without a boot and delivers its own code.
pub proof fn law_two_runs<G>(
    first: &mut UnikraftGuestSandbox<G>,
    booted: &mut UnikraftGuestSandbox<G>,
    cleared: &mut UnikraftGuestSandbox<G>,
    ran: &mut UnikraftGuestSandbox<G>,
    again: &mut UnikraftGuestSandbox<G>,
    cleared_again: &mut UnikraftGuestSandbox<G>,
    code: String,
    next_code: String,
    output: RunOutput,
    actions: Seq<GuestAction>,
    captured: Result<(), GuestError>,
    snapshot: &Snapshot,
    rewound: Result<(), GuestError>,
)
    requires
        actions.len() == 6,
        call_ensures(UnikraftGuestSandbox::<G>::advance, (first, GuestEvent::Run(code)), actions[0]),
        actions[0] is Boot,
        *old(booted) == *final(first),
        call_ensures(
            UnikraftGuestSandbox::<G>::advance,
            (booted, GuestEvent::Booted(true)),
            actions[1],
        ),
        *old(cleared) == *final(booted),
        call_ensures(UnikraftGuestSandbox::<G>::advance, (cleared, GuestEvent::Cleared), actions[2]),
        *old(ran) == *final(cleared),
        call_ensures(
            UnikraftGuestSandbox::<G>::advance,
            (ran, GuestEvent::Ran(Ok(output))),
            actions[3],
        ),
        *old(again) == *final(ran),
        call_ensures(UnikraftGuestSandbox::<G>::snapshot, (&*old(again),), captured),
        call_ensures(UnikraftGuestSandbox::<G>::restore, (&*old(again), snapshot), rewound),
        call_ensures(
            UnikraftGuestSandbox::<G>::advance,
            (again, GuestEvent::Run(next_code)),
            actions[4],
        ),
        *old(cleared_again) == *final(again),
        call_ensures(
            UnikraftGuestSandbox::<G>::advance,
            (cleared_again, GuestEvent::Cleared),
            actions[5],
        ),
    ensures
        actions[1] is ClearOutput,
        actions[2] == GuestAction::RunCode(code),
        actions[3] == GuestAction::Done(
            ExecutionResult {
                stdout: output.stdout,
                stderr: output.stderr,
                exit_code: output.exit_code,
            },
        ),
        captured == Ok::<(), GuestError>(()),
        rewound == Ok::<(), GuestError>(()),
        actions[4] is ClearOutput,
        actions[5] == GuestAction::RunCode(next_code),
{
}

/// A boot that fails fails the run, for the reason of its kind, and the next run boots again.
pub proof fn law_failed_boot<G>(
    first: &mut UnikraftGuestSandbox<G>,
    booted: &mut UnikraftGuestSandbox<G>,
    again: &mut UnikraftGuestSandbox<G>,
    code: String,
    next_code: String,
    start: GuestAction,
    failure: GuestAction,
    restart: GuestAction,
)
    requires
        call_ensures(UnikraftGuestSandbox::<G>::advance, (first, GuestEvent::Run(code)), start),
        start is Boot,
        *old(booted) == *final(first),
        call_ensures(
            UnikraftGuestSandbox::<G>::advance,
            (booted, GuestEvent::Booted(false)),
            failure,
        ),
        *old(again) == *final(booted),
        call_ensures(UnikraftGuestSandbox::<G>::advance, (again, GuestEvent::Run(next_code)), restart),
    ensures
        failure == GuestAction::Fail(
            if old(first).config().golden is Some {
                GuestError::Golden
            } else {
                GuestError::Boot
            },
        ),
        restart is Boot,
{
    old(first).lemma_from_golden();
}

/// A machine can be captured and rewound exactly where it is there.
pub proof fn law_capture_and_rewind<G>(
    sandbox: &UnikraftGuestSandbox<G>,
    snapshot: &Snapshot,
    captured: Result<(), GuestError>,
    rewound: Result<(), GuestError>,
    stage: Stage,
)
    requires
        call_ensures(UnikraftGuestSandbox::<G>::snapshot, (sandbox,), captured),
        call_ensures(UnikraftGuestSandbox::<G>::restore, (sandbox, snapshot), rewound),
        call_ensures(UnikraftGuestSandbox::<G>::stage, (sandbox,), stage),
    ensures
        captured is Ok <==> sandbox.state().resident,
        captured is Err ==> captured == Err::<(), GuestError>(GuestError::SnapshotBeforeRun),
        rewound is Ok <==> sandbox.state().resident,
        rewound is Err ==> rewound == Err::<(), GuestError>(GuestError::RestoreBeforeRun),
        stage == sandbox.state().stage,
{
}

/// A snapshot that was captured names the backend, and one that was not is an error; a rewind came
/// to what it came to.
pub proof fn law_capture_and_rewind_done(
    done: bool,
    snapshot: Result<Snapshot, GuestError>,
    rewound: Result<(), GuestError>,
)
    requires
        call_ensures(backend::snapshot_captured, (done,), snapshot),
        call_ensures(backend::restore_done, (done,), rewound),
    ensures
        done <==> snapshot is Ok,
        snapshot matches Ok(s) ==> s.backend@ == "hyperlight-unikraft"@,
        snapshot is Err ==> snapshot == Err::<Snapshot, GuestError>(GuestError::Snapshot),
        done <==> rewound is Ok,
        rewound is Err ==> rewound == Err::<(), GuestError>(GuestError::Restore),
{
}

/// What the errors of the backend read as.
pub proof fn law_guest_messages(error: &GuestError, message: String)
    requires
        call_ensures(GuestError::message, (error,), message),
    ensures
        message@ == match *error {
            GuestError::Runtime(words) => words@,
            GuestError::Mount(words) => words@,
            GuestError::GoldenUnreadable => "failed to load golden snapshot directory"@,
            GuestError::Boot => "failed to boot Unikraft VM"@,
            GuestError::Golden => "failed to create Unikraft VM from golden snapshot"@,
            GuestError::SnapshotBeforeRun => "snapshot() called before any run()"@,
            GuestError::Snapshot => "failed to capture snapshot"@,
            GuestError::RestoreBeforeRun => "restore() called before any run()"@,
            GuestError::Restore => "failed to restore snapshot"@,
        },
{
}

} // verus!
