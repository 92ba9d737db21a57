//! The Unikraft guest backend: what to boot, and the life of the guest once it is booted.
//!
//! The guest is a resident driver. It boots on the first run and stays; each run delivers its
//! code to it. Booting, running, capturing and rewinding the machine belong to the embedding
//! program. When each of them is due, and what a run comes to, is decided here.

use std::path::PathBuf;
use vstd::prelude::*;

use crate::outside;
use crate::tools;

verus! {

/// Default guest heap size (512 MiB).
///
/// Large enough for CPython and Node.js guests.
pub const DEFAULT_HEAP_SIZE: u64 = 512 * 1024 * 1024;

/// Default guest stack / scratch size (8 MiB).
pub const DEFAULT_STACK_SIZE: u64 = 8 * 1024 * 1024;

/// A loaded golden snapshot, from which many sandboxes can be made. The kernel, and for an
/// inline-baked golden the initrd, are part of it.
///
/// The snapshot is a handle of type `G`, which the embedding program loads once and which the
/// backend only carries: all sandboxes made of clones of one golden start from what was loaded.
pub struct UnikraftGolden<G> {
    pub snapshot: G,
}

impl<G> std::fmt::Debug for UnikraftGolden<G> {
    /// Shows that there is a golden, and nothing of its snapshot.
    fn fmt(&self, f: &mut std::fmt::Formatter<'_>) -> (done: std::fmt::Result)
        ensures
            done is Ok ==> outside::written(*final(f)) == outside::written(*old(f))
                + "UnikraftGolden { .. }"@,
    {
        outside::write_text(f, "UnikraftGolden { .. }")
    }
}

impl<G: Clone> Clone for UnikraftGolden<G> {
    fn clone(&self) -> (copy: UnikraftGolden<G>)
        ensures
            cloned::<G>(self.snapshot, copy.snapshot),
    {
        UnikraftGolden { snapshot: self.snapshot.clone() }
    }
}

/// The Unikraft guest backend: the image to boot and the VM sizing to use.
#[derive(Clone, Debug)]
pub struct Unikraft<G> {
    pub kernel: PathBuf,
    pub initrd: Option<PathBuf>,
    pub heap_size: u64,
    pub stack_size: u64,
    pub initrd_base: Option<u64>,
    /// Host directories with the guest paths at which they are exposed.
    pub mounts: Vec<(PathBuf, String)>,
    /// When set, the sandbox is created from this warm golden instead of cold-booting a kernel.
    pub golden: Option<UnikraftGolden<G>>,
}

impl<G> Unikraft<G> {
    /// Whether all but the image has its default.
    pub open spec fn has_default_sizing(&self) -> bool {
        &&& self.initrd is None
        &&& self.heap_size == DEFAULT_HEAP_SIZE
        &&& self.stack_size == DEFAULT_STACK_SIZE
        &&& self.initrd_base is None
        &&& self.mounts@ == Seq::<(PathBuf, String)>::empty()
    }

    /// Create a backend that boots `kernel`. Use [`initrd`](Self::initrd) to attach the guest
    /// filesystem image, which is usually required.
    pub fn new(kernel: PathBuf) -> (backend: Unikraft<G>)
        ensures
            backend.kernel == kernel,
            backend.has_default_sizing(),
            backend.golden is None,
    {
        Unikraft {
            kernel,
            initrd: None,
            heap_size: DEFAULT_HEAP_SIZE,
            stack_size: DEFAULT_STACK_SIZE,
            initrd_base: None,
            mounts: Vec::new(),
            golden: None,
        }
    }

    /// The golden of the snapshot that was loaded, if it could be.
    pub fn load_golden(loaded: Option<G>) -> (golden: Result<UnikraftGolden<G>, GuestError>)
        ensures
            golden == match loaded {
                Some(snapshot) => Ok::<UnikraftGolden<G>, GuestError>(UnikraftGolden { snapshot }),
                None => Err(GuestError::GoldenUnreadable),
            },
    {
        match loaded {
            Some(snapshot) => Ok(UnikraftGolden { snapshot }),
            None => Err(GuestError::GoldenUnreadable),
        }
    }

    /// Build sandboxes from a golden instead of cold-booting a kernel. The kernel path is empty
    /// and not read.
    pub fn from_golden(golden: UnikraftGolden<G>) -> (backend: Unikraft<G>)
        ensures
            outside::path_bytes(backend.kernel) == Seq::<u8>::empty(),
            backend.has_default_sizing(),
            backend.golden == Some(golden),
    {
        Unikraft {
            kernel: outside::empty_path(),
            initrd: None,
            heap_size: DEFAULT_HEAP_SIZE,
            stack_size: DEFAULT_STACK_SIZE,
            initrd_base: None,
            mounts: Vec::new(),
            golden: Some(golden),
        }
    }

    /// Attach the initrd/rootfs CPIO image.
    pub fn initrd(self, path: PathBuf) -> (backend: Unikraft<G>)
        ensures
            backend == (Unikraft { initrd: Some(path), ..self }),
    {
        let mut backend = self;
        backend.initrd = Some(path);
        backend
    }

    /// Override the guest heap size in bytes (default 512 MiB).
    pub fn heap_size(self, bytes: u64) -> (backend: Unikraft<G>)
        ensures
            backend == (Unikraft { heap_size: bytes, ..self }),
    {
        let mut backend = self;
        backend.heap_size = bytes;
        backend
    }

    /// Override the guest stack / scratch size in bytes (default 8 MiB).
    pub fn stack_size(self, bytes: u64) -> (backend: Unikraft<G>)
        ensures
            backend == (Unikraft { stack_size: bytes, ..self }),
    {
        let mut backend = self;
        backend.stack_size = bytes;
        backend
    }

    /// Override the guest virtual address where the mapped initrd is placed. Where it is not set,
    /// the machine places the initrd at its default. It has to match what the kernel expects.
    pub fn initrd_base(self, base: u64) -> (backend: Unikraft<G>)
        ensures
            backend == (Unikraft { initrd_base: Some(base), ..self }),
    {
        let mut backend = self;
        backend.initrd_base = Some(base);
        backend
    }

    /// Expose a host directory to the guest at `guest_path`. Repeatable.
    pub fn mount(self, host_dir: PathBuf, guest_path: String) -> (backend: Unikraft<G>)
        ensures
            backend.mounts@ == self.mounts@.push((host_dir, guest_path)),
            backend == (Unikraft { mounts: backend.mounts, ..self }),
    {
        let mut backend = self;
        backend.mounts.push((host_dir, guest_path));
        backend
    }
}

/// Why a sandbox could not be made, or an operation on it failed.
pub enum GuestError {
    /// The shared runtime is missing; with a description.
    Runtime(String),
    /// A host directory cannot be exposed; with a description.
    Mount(String),
    /// The golden could not be loaded.
    GoldenUnreadable,
    /// The machine could not be booted.
    Boot,
    /// The machine could not be made from the golden.
    Golden,
    /// A snapshot before any run.
    SnapshotBeforeRun,
    /// The snapshot could not be captured.
    Snapshot,
    /// A rewind before any run.
    RestoreBeforeRun,
    /// The machine could not be rewound.
    Restore,
}

impl GuestError {
    /// What the error reads as.
    pub open spec fn text(&self) -> Seq<char> {
        match self {
            GuestError::Runtime(words) => words@,
            GuestError::Mount(words) => words@,
            GuestError::GoldenUnreadable => "failed to load golden snapshot directory"@,
            GuestError::Boot => "failed to boot Unikraft VM"@,
            GuestError::Golden => "failed to create Unikraft VM from golden snapshot"@,
            GuestError::SnapshotBeforeRun => "snapshot() called before any run()"@,
            GuestError::Snapshot => "failed to capture snapshot"@,
            GuestError::RestoreBeforeRun => "restore() called before any run()"@,
            GuestError::Restore => "failed to restore snapshot"@,
        }
    }

    /// What the error reads as.
    pub fn message(&self) -> (message: String)
        ensures
            message@ == self.text(),
    {
        match self {
            GuestError::Runtime(words) => words.clone(),
            GuestError::Mount(words) => words.clone(),
            GuestError::GoldenUnreadable => "failed to load golden snapshot directory".to_owned(),
            GuestError::Boot => "failed to boot Unikraft VM".to_owned(),
            GuestError::Golden => "failed to create Unikraft VM from golden snapshot".to_owned(),
            GuestError::SnapshotBeforeRun => "snapshot() called before any run()".to_owned(),
            GuestError::Snapshot => "failed to capture snapshot".to_owned(),
            GuestError::RestoreBeforeRun => "restore() called before any run()".to_owned(),
            GuestError::Restore => "failed to restore snapshot".to_owned(),
        }
    }
}

/// A host directory that is open and exposed to the guest.
pub struct MountPoint {
    pub host_dir: PathBuf,
    pub guest_path: String,
}

/// What the machine captured of a run.
pub struct RunOutput {
    pub stdout: String,
    pub stderr: String,
    pub exit_code: i32,
}

/// What a run came to.
pub struct ExecutionResult {
    pub stdout: String,
    pub stderr: String,
    pub exit_code: i32,
}

/// A checkpoint of the guest. The machine keeps the one state that it rewinds to, so the
/// checkpoint holds no more than the name of its backend.
pub struct Snapshot {
    pub backend: String,
}

/// How to make the machine.
pub enum BootPlan<'a, G> {
    /// Boot a kernel.
    Cold {
        kernel: &'a PathBuf,
        heap_size: u64,
        stack_size: u64,
        /// The host tools to register, in order.
        tools: [&'static str; 4],
        initrd: Option<&'a PathBuf>,
        /// The guest virtual address at which to place the initrd, or none for the default.
        initrd_base: Option<u64>,
        /// The directories to expose, in order.
        preopens: &'a Vec<MountPoint>,
    },
    /// Start from a golden, which holds its own kernel and sizing.
    Golden {
        golden: &'a UnikraftGolden<G>,
        preopens: &'a Vec<MountPoint>,
        initrd: Option<&'a PathBuf>,
    },
}

/// What a run waits for.
#[derive(Clone, Copy, PartialEq, Eq, Structural)]
pub enum Stage {
    /// No run is under way.
    Idle,
    /// The machine is being made.
    Booting,
    /// The output area is being cleared.
    Clearing,
    /// The code is running.
    Running,
}

/// What happens to a sandbox.
pub enum GuestEvent {
    /// This code is to be run.
    Run(String),
    /// The machine was made, or could not be.
    Booted(bool),
    /// The output area was cleared, as far as it can be.
    Cleared,
    /// The guest ran the code, or trapped; with a description.
    Ran(Result<RunOutput, String>),
}

/// What is to be done next.
pub enum GuestAction {
    /// Make the machine as [`UnikraftGuestSandbox::evolve`] plans it.
    Boot,
    /// Clear the output area.
    ClearOutput,
    /// Deliver this code to the machine.
    RunCode(String),
    /// The run is over.
    Done(ExecutionResult),
    /// The run has failed.
    Fail(GuestError),
}

/// What a sandbox remembers between events: whether it has a machine, whether that is made from a
/// golden, what it waits for, and the code that is still to be delivered.
pub struct GuestState {
    pub resident: bool,
    pub from_golden: bool,
    pub stage: Stage,
    pub code: Option<String>,
}

impl GuestState {
    /// A machine is made only where none is there; the output area is cleared and code runs only
    /// on a machine that is there; and there is code to deliver from the call for a run until it
    /// is delivered.
    pub open spec fn wf(self) -> bool {
        &&& self.stage is Booting ==> !self.resident
        &&& self.stage is Clearing || self.stage is Running ==> self.resident
        &&& self.code is Some <==> self.stage is Booting || self.stage is Clearing
    }

    /// Whether the event is one that the sandbox waits for.
    pub open spec fn accepts(self, event: GuestEvent) -> bool {
        match event {
            GuestEvent::Run(_) => self.stage is Idle,
            GuestEvent::Booted(_) => self.stage is Booting,
            GuestEvent::Cleared => self.stage is Clearing,
            GuestEvent::Ran(_) => self.stage is Running,
        }
    }

    /// What the sandbox remembers after an event.
    pub open spec fn after(self, event: GuestEvent) -> GuestState {
        match event {
            GuestEvent::Run(code) => GuestState {
                stage: if self.resident {
                    Stage::Clearing
                } else {
                    Stage::Booting
                },
                code: Some(code),
                ..self
            },
            GuestEvent::Booted(true) => GuestState {
                resident: true,
                stage: Stage::Clearing,
                ..self
            },
            GuestEvent::Booted(false) => GuestState { stage: Stage::Idle, code: None, ..self },
            GuestEvent::Cleared => GuestState { stage: Stage::Running, code: None, ..self },
            GuestEvent::Ran(_) => GuestState { stage: Stage::Idle, ..self },
        }
    }

    /// Whether `action` is what an event calls for.
    pub open spec fn calls_for(self, event: GuestEvent, action: GuestAction) -> bool {
        match event {
            GuestEvent::Run(_) => if self.resident {
                action is ClearOutput
            } else {
                action is Boot
            },
            GuestEvent::Booted(true) => action is ClearOutput,
            GuestEvent::Booted(false) => action == GuestAction::Fail(
                if self.from_golden {
                    GuestError::Golden
                } else {
                    GuestError::Boot
                },
            ),
            GuestEvent::Cleared => {
                &&& action matches GuestAction::RunCode(code)
                &&& self.code == Some(code)
            },
            GuestEvent::Ran(Ok(output)) => action == GuestAction::Done(
                ExecutionResult {
                    stdout: output.stdout,
                    stderr: output.stderr,
                    exit_code: output.exit_code,
                },
            ),
            GuestEvent::Ran(Err(trap)) => {
                &&& action matches GuestAction::Done(result)
                &&& result.stdout@ == Seq::<char>::empty()
                &&& result.stderr == trap
                &&& result.exit_code == -1
            },
        }
    }
}

/// A built Unikraft sandbox: the boot configuration, and the life of the guest.
pub struct UnikraftGuestSandbox<G> {
    kernel: PathBuf,
    initrd: Option<PathBuf>,
    heap_size: u64,
    stack_size: u64,
    initrd_base: Option<u64>,
    preopens: Vec<MountPoint>,
    golden: Option<UnikraftGolden<G>>,
    resident: bool,
    stage: Stage,
    code: Option<String>,
}

/// The first failure among some openings.
pub open spec fn first_failure(opened: Seq<Result<PathBuf, String>>) -> Option<String>
    decreases opened.len(),
{
    if opened.len() == 0 {
        None
    } else {
        match opened[0] {
            Err(words) => Some(words),
            Ok(_) => first_failure(opened.drop_first()),
        }
    }
}

/// What some mounts expose once they are open: each host directory as it was opened, at the guest
/// path of its mount.
pub open spec fn mount_points(
    mounts: Seq<(PathBuf, String)>,
    opened: Seq<Result<PathBuf, String>>,
) -> Seq<MountPoint> {
    Seq::new(
        mounts.len(),
        |i: int| MountPoint { host_dir: opened[i]->Ok_0, guest_path: mounts[i].1 },
    )
}

/// What a sandbox boots with.
pub struct BootConfig<G> {
    pub kernel: PathBuf,
    pub initrd: Option<PathBuf>,
    pub heap_size: u64,
    pub stack_size: u64,
    pub initrd_base: Option<u64>,
    pub preopens: Seq<MountPoint>,
    pub golden: Option<UnikraftGolden<G>>,
}

impl<G> UnikraftGuestSandbox<G> {
    /// What the sandbox remembers between events.
    pub closed spec fn state(&self) -> GuestState {
        GuestState {
            resident: self.resident,
            from_golden: self.golden is Some,
            stage: self.stage,
            code: self.code,
        }
    }

    /// What the sandbox boots with.
    pub closed spec fn config(&self) -> BootConfig<G> {
        BootConfig {
            kernel: self.kernel,
            initrd: self.initrd,
            heap_size: self.heap_size,
            stack_size: self.stack_size,
            initrd_base: self.initrd_base,
            preopens: self.preopens@,
            golden: self.golden,
        }
    }

    /// The machine is made from a golden where the configuration has one.
    pub proof fn lemma_from_golden(&self)
        ensures
            self.state().from_golden == (self.config().golden is Some),
    {
    }

    /// Makes a sandbox of `backend`, given whether the shared `runtime` is there and what opening
    /// the host directory of each of the backend's mounts gave, in order, up to the first that
    /// failed. No machine is made yet.
    pub fn new(
        backend: Unikraft<G>,
        runtime: Result<(), String>,
        opened: Vec<Result<PathBuf, String>>,
    ) -> (sandbox: Result<UnikraftGuestSandbox<G>, GuestError>)
        requires
            runtime is Ok && first_failure(opened@) is None ==> opened@.len()
                == backend.mounts@.len(),
            opened@.len() <= backend.mounts@.len(),
        ensures
            match runtime {
                Err(words) => sandbox == Err::<UnikraftGuestSandbox<G>, GuestError>(
                    GuestError::Runtime(words),
                ),
                Ok(_) => match first_failure(opened@) {
                    Some(words) => sandbox == Err::<UnikraftGuestSandbox<G>, GuestError>(
                        GuestError::Mount(words),
                    ),
                    None => {
                        &&& sandbox matches Ok(sandbox)
                        &&& sandbox.config() == (BootConfig {
                            kernel: backend.kernel,
                            initrd: backend.initrd,
                            heap_size: backend.heap_size,
                            stack_size: backend.stack_size,
                            initrd_base: backend.initrd_base,
                            preopens: mount_points(backend.mounts@, opened@),
                            golden: backend.golden,
                        })
                        &&& sandbox.state() == (GuestState {
                            resident: false,
                            from_golden: backend.golden is Some,
                            stage: Stage::Idle,
                            code: None,
                        })
                    },
                },
            },
    {
        match runtime {
            Err(words) => {
                return Err(GuestError::Runtime(words));
            },
            Ok(_) => {},
        }
        let ghost all = opened@;
        let ghost all_mounts = backend.mounts@;
        let mut left = opened;
        let mut mounts = backend.mounts;
        let mut preopens: Vec<MountPoint> = Vec::new();
        assert(all.skip(0) =~= all);
        assert(all_mounts.skip(0) =~= all_mounts);
        while left.len() > 0
            invariant
                runtime is Ok,
                all == opened@,
                all.len() <= all_mounts.len(),
                preopens@.len() + left@.len() == all.len(),
                left@ == all.skip(preopens@.len() as int),
                mounts@ == all_mounts.skip(preopens@.len() as int),
                first_failure(all) == first_failure(left@),
                forall|i: int|
                    0 <= i < preopens@.len() ==> #[trigger] preopens@[i] == (MountPoint {
                        host_dir: all[i]->Ok_0,
                        guest_path: all_mounts[i].1,
                    }),
            decreases left@.len(),
        {
            let ghost before = left@;
            let next = left.remove(0);
            let (_, guest_path) = mounts.remove(0);
            assert(left@ =~= before.drop_first());
            match next {
                Ok(host_dir) => {
                    preopens.push(MountPoint { host_dir, guest_path });
                },
                Err(words) => {
                    return Err(GuestError::Mount(words));
                },
            }
            assert(left@ =~= all.skip(preopens@.len() as int));
            assert(mounts@ =~= all_mounts.skip(preopens@.len() as int));
        }
        assert(preopens@ =~= mount_points(all_mounts, all));
        Ok(
            UnikraftGuestSandbox {
                kernel: backend.kernel,
                initrd: backend.initrd,
                heap_size: backend.heap_size,
                stack_size: backend.stack_size,
                initrd_base: backend.initrd_base,
                preopens,
                golden: backend.golden,
                resident: false,
                stage: Stage::Idle,
                code: None,
            },
        )
    }

    /// How to make the machine: from the golden where there is one, else by booting the kernel
    /// with the host tools.
    pub fn evolve(&self) -> (plan: BootPlan<'_, G>)
        ensures
            match self.config().golden {
                Some(golden) => {
                    &&& plan matches BootPlan::Golden { golden: base, preopens, initrd }
                    &&& *base == golden
                    &&& preopens@ == self.config().preopens
                    &&& match initrd {
                        Some(path) => self.config().initrd == Some(*path),
                        None => self.config().initrd is None,
                    }
                },
                None => {
                    &&& plan matches BootPlan::Cold {
                        kernel,
                        heap_size,
                        stack_size,
                        tools,
                        initrd,
                        initrd_base,
                        preopens,
                    }
                    &&& *kernel == self.config().kernel
                    &&& heap_size == self.config().heap_size
                    &&& stack_size == self.config().stack_size
                    &&& tools@ == tools::HOST_TOOLS@
                    &&& initrd_base == self.config().initrd_base
                    &&& preopens@ == self.config().preopens
                    &&& match initrd {
                        Some(path) => self.config().initrd == Some(*path),
                        None => self.config().initrd is None,
                    }
                },
            },
    {
        match &self.golden {
            Some(golden) => BootPlan::Golden {
                golden,
                preopens: &self.preopens,
                initrd: self.initrd.as_ref(),
            },
            None => BootPlan::Cold {
                kernel: &self.kernel,
                heap_size: self.heap_size,
                stack_size: self.stack_size,
                tools: tools::HOST_TOOLS,
                initrd: self.initrd.as_ref(),
                initrd_base: self.initrd_base,
                preopens: &self.preopens,
            },
        }
    }

    /// Takes in what happened and says what is next.
    pub fn advance(&mut self, event: GuestEvent) -> (action: GuestAction)
        requires
            old(self).state().wf(),
            old(self).state().accepts(event),
        ensures
            final(self).state().wf(),
            final(self).state() == old(self).state().after(event),
            old(self).state().calls_for(event, action),
            final(self).config() == old(self).config(),
    {
        match event {
            GuestEvent::Run(code) => {
                self.code = Some(code);
                if self.resident {
                    self.stage = Stage::Clearing;
                    GuestAction::ClearOutput
                } else {
                    self.stage = Stage::Booting;
                    GuestAction::Boot
                }
            },
            GuestEvent::Booted(made) => {
                if made {
                    self.resident = true;
                    self.stage = Stage::Clearing;
                    GuestAction::ClearOutput
                } else {
                    self.stage = Stage::Idle;
                    self.code = None;
                    match &self.golden {
                        Some(_) => GuestAction::Fail(GuestError::Golden),
                        None => GuestAction::Fail(GuestError::Boot),
                    }
                }
            },
            GuestEvent::Cleared => {
                self.stage = Stage::Running;
                GuestAction::RunCode(self.code.take().unwrap())
            },
            GuestEvent::Ran(outcome) => {
                self.stage = Stage::Idle;
                match outcome {
                    Ok(output) => GuestAction::Done(
                        ExecutionResult {
                            stdout: output.stdout,
                            stderr: output.stderr,
                            exit_code: output.exit_code,
                        },
                    ),
                    Err(trap) => GuestAction::Done(
                        ExecutionResult { stdout: String::new(), stderr: trap, exit_code: -1 },
                    ),
                }
            },
        }
    }

    /// What the sandbox waits for.
    pub fn stage(&self) -> (stage: Stage)
        ensures
            stage == self.state().stage,
    {
        self.stage
    }

    /// Whether a snapshot may be captured: only of a machine that is there.
    pub fn snapshot(&self) -> (due: Result<(), GuestError>)
        ensures
            due == if self.state().resident {
                Ok::<(), GuestError>(())
            } else {
                Err(GuestError::SnapshotBeforeRun)
            },
    {
        if self.resident {
            Ok(())
        } else {
            Err(GuestError::SnapshotBeforeRun)
        }
    }

    /// Whether the machine may be rewound: only one that is there. Which checkpoint is given does
    /// not matter.
    pub fn restore(&self, snapshot: &Snapshot) -> (due: Result<(), GuestError>)
        ensures
            due == if self.state().resident {
                Ok::<(), GuestError>(())
            } else {
                Err(GuestError::RestoreBeforeRun)
            },
    {
        if self.resident {
            Ok(())
        } else {
            Err(GuestError::RestoreBeforeRun)
        }
    }
}

/// The checkpoint of a snapshot that was captured.
pub fn snapshot_captured(captured: bool) -> (snapshot: Result<Snapshot, GuestError>)
    ensures
        captured ==> (snapshot matches Ok(s) && s.backend@ == "hyperlight-unikraft"@),
        !captured ==> snapshot == Err::<Snapshot, GuestError>(GuestError::Snapshot),
{
    if captured {
        Ok(Snapshot { backend: "hyperlight-unikraft".to_owned() })
    } else {
        Err(GuestError::Snapshot)
    }
}

/// What a rewind came to.
pub fn restore_done(rewound: bool) -> (outcome: Result<(), GuestError>)
    ensures
        outcome == if rewound {
            Ok::<(), GuestError>(())
        } else {
            Err(GuestError::Restore)
        },
{
    if rewound {
        Ok(())
    } else {
        Err(GuestError::Restore)
    }
}

/// What a sandbox remembers after some events.
pub open spec fn after_all(state: GuestState, events: Seq<GuestEvent>) -> GuestState
    decreases events.len(),
{
    if events.len() == 0 {
        state
    } else {
        after_all(state, events.drop_last()).after(events.last())
    }
}

/// Whether each of some events is one that the sandbox waits for when it comes.
pub open spec fn accepts_all(state: GuestState, events: Seq<GuestEvent>) -> bool
    decreases events.len(),
{
    events.len() > 0 ==> accepts_all(state, events.drop_last()) && after_all(
        state,
        events.drop_last(),
    ).accepts(events.last())
}

/// Whatever happens, a machine is made only where none is there, and the output area is cleared
/// and code runs only on a machine that is there.
pub proof fn law_code_runs_on_a_machine(state: GuestState, events: Seq<GuestEvent>)
    requires
        state.wf(),
        accepts_all(state, events),
    ensures
        after_all(state, events).wf(),
    decreases events.len(),
{
    if events.len() > 0 {
        law_code_runs_on_a_machine(state, events.drop_last());
    }
}

/// The guest stays resident: once a machine is there it stays, whatever happens, and no further
/// event calls for a boot.
pub proof fn law_guest_boots_once(
    state: GuestState,
    events: Seq<GuestEvent>,
    event: GuestEvent,
    action: GuestAction,
)
    requires
        state.wf(),
        state.resident,
        accepts_all(state, events),
        after_all(state, events).accepts(event),
        after_all(state, events).calls_for(event, action),
    ensures
        after_all(state, events).resident,
        action !is Boot,
{
    lemma_resident_stays(state, events);
}

proof fn lemma_resident_stays(state: GuestState, events: Seq<GuestEvent>)
    requires
        state.resident,
    ensures
        after_all(state, events).resident,
    decreases events.len(),
{
    if events.len() > 0 {
        lemma_resident_stays(state, events.drop_last());
    }
}

/// Code is delivered to the guest only once the output area has been cleared for it.
pub proof fn law_output_is_cleared_before_code_runs(
    state: GuestState,
    event: GuestEvent,
    action: GuestAction,
)
    requires
        state.accepts(event),
        state.calls_for(event, action),
    ensures
        action is RunCode <==> event is Cleared,
        event is Cleared ==> state.stage is Clearing,
        action is ClearOutput <==> state.after(event).stage is Clearing,
{
}

/// A boot that fails leaves the sandbox as it was before the run, so that the next run boots
/// again.
pub proof fn law_failed_boot_is_forgotten(state: GuestState, code: String)
    requires
        state.wf(),
        state.stage is Idle,
        !state.resident,
    ensures
        after_all(state, seq![GuestEvent::Run(code), GuestEvent::Booted(false)]) == state,
{
    let events = seq![GuestEvent::Run(code), GuestEvent::Booted(false)];
    reveal_with_fuel(after_all, 3);
    assert(events.drop_last() =~= seq![GuestEvent::Run(code)]);
    assert(events.drop_last().drop_last() =~= Seq::empty());
}

/// The events of a run up to the delivery of its code, where the machine can be made.
pub open spec fn events_before_code(state: GuestState, code: String) -> Seq<GuestEvent> {
    if state.resident {
        seq![GuestEvent::Run(code)]
    } else {
        seq![GuestEvent::Run(code), GuestEvent::Booted(true)]
    }
}

/// The code that a run asks for is the code that is delivered to the machine, whether or not the
/// machine is made for it.
pub proof fn law_code_asked_for_is_delivered(
    state: GuestState,
    code: String,
    action: GuestAction,
)
    requires
        state.wf(),
        state.stage is Idle,
        after_all(state, events_before_code(state, code)).calls_for(GuestEvent::Cleared, action),
    ensures
        accepts_all(state, events_before_code(state, code).push(GuestEvent::Cleared)),
        action == GuestAction::RunCode(code),
{
    let events = events_before_code(state, code);
    reveal_with_fuel(after_all, 3);
    reveal_with_fuel(accepts_all, 4);
    assert(events.push(GuestEvent::Cleared).drop_last() =~= events);
    if state.resident {
        assert(events.drop_last() =~= Seq::empty());
    } else {
        assert(events.drop_last() =~= seq![GuestEvent::Run(code)]);
        assert(events.drop_last().drop_last() =~= Seq::empty());
    }
}

/// A trap of the guest is a result, never a failure of the run.
pub proof fn law_trap_is_a_result(state: GuestState, trap: String, action: GuestAction)
    requires
        state.calls_for(GuestEvent::Ran(Err(trap)), action),
    ensures
        action is Done,
        action->Done_0.exit_code == -1,
        action->Done_0.stderr == trap,
{
}

} // verus!
