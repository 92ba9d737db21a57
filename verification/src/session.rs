//! A sandbox session as a scripting host drives it.
//!
//! The sandbox is built on the first run, so that tools, network permissions and credentials can
//! be registered beforehand. Until then they are kept here; on the first run they are applied, in
//! the order in which they came. Tools and credential resolvers are values of the embedding
//! program, which the session only carries.

use vstd::prelude::*;

use crate::backend::{ExecutionResult, Unikraft, DEFAULT_HEAP_SIZE, DEFAULT_STACK_SIZE};
use crate::outside;
use crate::table::Table;
use crate::text;

verus! {

/// Why an operation on a session failed.
pub enum SessionError {
    /// A tool was registered too late.
    ToolsClosed,
    /// A size could not be read; with a description.
    Size(String),
    /// A tool registration was of the wrong shape; with a description.
    Registration(String),
    /// The tools could not be put together; with a description.
    Tools(String),
    /// The sandbox could not be built; with a description.
    Create(String),
    /// A network permission or a credential was refused; with a description.
    Setup(String),
    /// The code could not be run; with a description.
    Execution(String),
    /// The sandbox is not built yet.
    NotInitialized,
    /// The snapshot failed; with a description.
    Snapshot(String),
    /// The rewind failed; with a description.
    Restore(String),
    /// The output files could not be listed; with a description.
    OutputFiles(String),
    /// The output path could not be had; with a description.
    OutputPath(String),
}

impl SessionError {
    /// What the error reads as.
    pub open spec fn text(&self) -> Seq<char> {
        match self {
            SessionError::ToolsClosed =>
                "Cannot register tools after sandbox has been initialized. Register all tools before the first run() call."@,
            SessionError::Size(words) => words@,
            SessionError::Registration(words) => words@,
            SessionError::Tools(words) => words@,
            SessionError::Create(words) => "Failed to create sandbox: "@ + words@,
            SessionError::Setup(words) => words@,
            SessionError::Execution(words) => "Execution failed: "@ + words@,
            SessionError::NotInitialized => "Sandbox not initialized"@,
            SessionError::Snapshot(words) => "Snapshot failed: "@ + words@,
            SessionError::Restore(words) => "Restore failed: "@ + words@,
            SessionError::OutputFiles(words) => "Failed to get output files: "@ + words@,
            SessionError::OutputPath(words) => "Failed to get output path: "@ + words@,
        }
    }

    /// What the error reads as.
    pub fn message(&self) -> (message: String)
        ensures
            message@ == self.text(),
    {
        match self {
            SessionError::ToolsClosed =>
                "Cannot register tools after sandbox has been initialized. Register all tools before the first run() call.".to_owned(),
            SessionError::Size(words) => words.clone(),
            SessionError::Registration(words) => words.clone(),
            SessionError::Tools(words) => words.clone(),
            SessionError::Create(words) => text::joined(
                "Failed to create sandbox: ",
                words.as_str(),
            ),
            SessionError::Setup(words) => words.clone(),
            SessionError::Execution(words) => text::joined("Execution failed: ", words.as_str()),
            SessionError::NotInitialized => "Sandbox not initialized".to_owned(),
            SessionError::Snapshot(words) => text::joined("Snapshot failed: ", words.as_str()),
            SessionError::Restore(words) => text::joined("Restore failed: ", words.as_str()),
            SessionError::OutputFiles(words) => text::joined(
                "Failed to get output files: ",
                words.as_str(),
            ),
            SessionError::OutputPath(words) => text::joined(
                "Failed to get output path: ",
                words.as_str(),
            ),
        }
    }
}

/// A network target, with the methods allowed for it, or all where none are named.
pub struct DomainRule {
    pub target: String,
    pub methods: Option<Vec<String>>,
}

/// A scoped credential for outgoing requests.
pub struct PendingCredential<R> {
    pub id: String,
    pub target: String,
    pub header: String,
    pub prefix: String,
    pub resolver: R,
}

/// What may be done with directories.
pub struct DirAccess {
    pub read: bool,
    pub mutate: bool,
}

/// What may be done with files.
pub struct FileAccess {
    pub read: bool,
    pub write: bool,
}

/// Where the guest's output goes.
pub enum OutputChoice<'a> {
    /// Nowhere.
    Nowhere,
    /// To a directory of its own.
    Temporary,
    /// To this directory, opened with this access to what is in it.
    Directory { path: &'a str, dirs: DirAccess, files: FileAccess },
}

/// What a session waits for.
#[derive(Clone, Copy, PartialEq, Eq, Structural)]
pub enum SessionStage {
    /// No run is under way.
    Idle,
    /// The tools are being put together.
    BuildingTools,
    /// The sandbox is being built.
    BuildingSandbox,
    /// A network permission is being applied.
    Allowing,
    /// A credential is being registered.
    Registering,
    /// The code is running.
    Running,
}

/// What happens to a session.
pub enum SessionEvent<T> {
    /// This code is to be run.
    Run(String),
    /// The tools were put together, or could not be; with those that are left.
    ToolsBuilt(Table<T>, Result<(), String>),
    /// The sandbox was built, or could not be.
    SandboxBuilt(Result<(), String>),
    /// The network permission was applied, or refused.
    DomainAllowed(Result<(), String>),
    /// The credential was registered, or refused.
    CredentialRegistered(Result<(), String>),
    /// The code ran, or could not be run.
    Ran(Result<ExecutionResult, String>),
}

/// What is to be done next.
pub enum SessionAction<R> {
    /// Take the tools with [`UnikraftSandbox::take_tools`] and put them together.
    BuildTools,
    /// Build the sandbox of [`UnikraftSandbox::guest`].
    BuildSandbox,
    /// Apply this network permission to the sandbox.
    AllowDomain(DomainRule),
    /// Register this credential with the sandbox.
    RegisterCredential(PendingCredential<R>),
    /// Run this code in the sandbox.
    RunCode(String),
    /// The run is over.
    Done(ExecutionResult),
    /// The run has failed.
    Fail(SessionError),
}

/// What a session remembers between events.
#[verifier::ext_equal]
pub struct SessionState<T, R> {
    /// Whether the sandbox is built and set up.
    pub initialized: bool,
    /// What the session waits for.
    pub stage: SessionStage,
    /// The code that is to be run once the sandbox is set up.
    pub code: Option<String>,
    /// The tools registered so far.
    pub tools: Map<Seq<char>, T>,
    /// The network permissions asked for before the first run, in order.
    pub pending_networks: Seq<DomainRule>,
    /// The credentials registered before the first run, in order.
    pub pending_credentials: Seq<PendingCredential<R>>,
    /// The network permissions still to be applied to the sandbox being set up.
    pub due_networks: Seq<DomainRule>,
    /// The credentials still to be registered with the sandbox being set up.
    pub due_credentials: Seq<PendingCredential<R>>,
}

impl<T, R> SessionState<T, R> {
    /// The sandbox is set up when code runs, and not yet while it is being set up; nothing is due
    /// and no code waits but in a setup.
    pub open spec fn wf(self) -> bool {
        &&& self.stage is Running ==> self.initialized
        &&& !(self.stage is Running || self.stage is Idle) ==> !self.initialized
        &&& self.code is Some <==> !(self.stage is Running || self.stage is Idle)
        &&& !(self.stage is Allowing) ==> self.due_networks.len() == 0
        &&& !(self.stage is Registering) ==> self.due_credentials.len() == 0
    }

    /// Whether the event is one that the session waits for.
    pub open spec fn accepts(self, event: SessionEvent<T>) -> bool {
        match event {
            SessionEvent::Run(_) => self.stage is Idle,
            SessionEvent::ToolsBuilt(left, _) => self.stage is BuildingTools && left.wf(),
            SessionEvent::SandboxBuilt(_) => self.stage is BuildingSandbox,
            SessionEvent::DomainAllowed(_) => self.stage is Allowing,
            SessionEvent::CredentialRegistered(_) => self.stage is Registering,
            SessionEvent::Ran(_) => self.stage is Running,
        }
    }

    /// The session after the setup took its next step over the credentials that are due.
    pub open spec fn next_credential(self) -> (SessionState<T, R>, SessionAction<R>) {
        if self.due_credentials.len() > 0 {
            (
                SessionState {
                    stage: SessionStage::Registering,
                    due_credentials: self.due_credentials.drop_first(),
                    ..self
                },
                SessionAction::RegisterCredential(self.due_credentials[0]),
            )
        } else {
            (
                SessionState {
                    initialized: true,
                    stage: SessionStage::Running,
                    code: None,
                    ..self
                },
                SessionAction::RunCode(self.code->0),
            )
        }
    }

    /// The session after the setup took its next step over the network permissions that are due.
    /// The credentials become due when no permission is.
    pub open spec fn next_network(self) -> (SessionState<T, R>, SessionAction<R>) {
        if self.due_networks.len() > 0 {
            (
                SessionState {
                    stage: SessionStage::Allowing,
                    due_networks: self.due_networks.drop_first(),
                    ..self
                },
                SessionAction::AllowDomain(self.due_networks[0]),
            )
        } else {
            (SessionState {
                due_credentials: self.pending_credentials,
                pending_credentials: Seq::empty(),
                ..self
            }).next_credential()
        }
    }

    /// The session after a failure, which gives up what was due and the code that waited.
    pub open spec fn failed(self, error: SessionError) -> (SessionState<T, R>, SessionAction<R>) {
        (
            SessionState {
                stage: SessionStage::Idle,
                code: None,
                due_networks: Seq::empty(),
                due_credentials: Seq::empty(),
                ..self
            },
            SessionAction::Fail(error),
        )
    }

    /// What the session remembers after an event, and what is to be done.
    pub open spec fn after(self, event: SessionEvent<T>) -> (SessionState<T, R>, SessionAction<R>) {
        match event {
            SessionEvent::Run(code) => if self.initialized {
                (
                    SessionState { stage: SessionStage::Running, ..self },
                    SessionAction::RunCode(code),
                )
            } else {
                (
                    SessionState { stage: SessionStage::BuildingTools, code: Some(code), ..self },
                    SessionAction::BuildTools,
                )
            },
            SessionEvent::ToolsBuilt(left, outcome) => {
                let with_left = SessionState { tools: left@, ..self };
                match outcome {
                    Ok(_) => (
                        SessionState { stage: SessionStage::BuildingSandbox, ..with_left },
                        SessionAction::BuildSandbox,
                    ),
                    Err(words) => with_left.failed(SessionError::Tools(words)),
                }
            },
            SessionEvent::SandboxBuilt(outcome) => match outcome {
                Ok(_) => (SessionState {
                    due_networks: self.pending_networks,
                    pending_networks: Seq::empty(),
                    ..self
                }).next_network(),
                Err(words) => self.failed(SessionError::Create(words)),
            },
            SessionEvent::DomainAllowed(outcome) => match outcome {
                Ok(_) => self.next_network(),
                Err(words) => self.failed(SessionError::Setup(words)),
            },
            SessionEvent::CredentialRegistered(outcome) => match outcome {
                Ok(_) => self.next_credential(),
                Err(words) => self.failed(SessionError::Setup(words)),
            },
            SessionEvent::Ran(outcome) => match outcome {
                Ok(result) => (
                    SessionState { stage: SessionStage::Idle, ..self },
                    SessionAction::Done(result),
                ),
                Err(words) => self.failed(SessionError::Execution(words)),
            },
        }
    }
}

/// What a session was opened with.
pub struct SessionConfig {
    pub kernel: Seq<char>,
    pub initrd: Option<Seq<char>>,
    pub initrd_base: Option<u64>,
    pub heap_size: Option<u64>,
    pub stack_size: Option<u64>,
    pub input_dir: Option<Seq<char>>,
    pub output_dir: Option<Seq<char>>,
    pub temp_output: bool,
}

/// The text of an optional text.
pub open spec fn view_of(text: Option<String>) -> Option<Seq<char>> {
    match text {
        Some(text) => Some(text@),
        None => None,
    }
}

/// The text of an optional text.
pub open spec fn view_of_str(text: Option<&str>) -> Option<Seq<char>> {
    match text {
        Some(text) => Some(text@),
        None => None,
    }
}

/// The size that was read, where one was given.
pub open spec fn size_of_reading(size: Option<Result<u64, String>>) -> Option<u64> {
    match size {
        Some(Ok(bytes)) => Some(bytes),
        _ => None,
    }
}

/// A Unikraft micro-VM sandbox as a scripting host sees it. Tools are of type `T`, credential
/// resolvers of type `R`.
pub struct UnikraftSandbox<T, R> {
    initialized: bool,
    stage: SessionStage,
    code: Option<String>,
    tools: Table<T>,
    pending_networks: Vec<DomainRule>,
    pending_credentials: Vec<PendingCredential<R>>,
    due_networks: Vec<DomainRule>,
    due_credentials: Vec<PendingCredential<R>>,
    kernel: String,
    initrd: Option<String>,
    initrd_base: Option<u64>,
    heap_size: Option<u64>,
    stack_size: Option<u64>,
    input_dir: Option<String>,
    output_dir: Option<String>,
    temp_output: bool,
}

/// An owned copy of an optional text.
fn owned(text: Option<&str>) -> (copy: Option<String>)
    ensures
        view_of(copy) == view_of_str(text),
{
    match text {
        Some(text) => Some(text.to_owned()),
        None => None,
    }
}

/// An optional text, borrowed.
fn borrowed(text: &Option<String>) -> (same: Option<&str>)
    ensures
        view_of_str(same) == view_of(*text),
{
    match text {
        Some(text) => Some(text.as_str()),
        None => None,
    }
}

impl<T, R> UnikraftSandbox<T, R> {
    /// What the session remembers between events.
    pub closed spec fn state(&self) -> SessionState<T, R> {
        SessionState {
            initialized: self.initialized,
            stage: self.stage,
            code: self.code,
            tools: self.tools@,
            pending_networks: self.pending_networks@,
            pending_credentials: self.pending_credentials@,
            due_networks: self.due_networks@,
            due_credentials: self.due_credentials@,
        }
    }

    /// What the session was opened with.
    pub closed spec fn config(&self) -> SessionConfig {
        SessionConfig {
            kernel: self.kernel@,
            initrd: view_of(self.initrd),
            initrd_base: self.initrd_base,
            heap_size: self.heap_size,
            stack_size: self.stack_size,
            input_dir: view_of(self.input_dir),
            output_dir: view_of(self.output_dir),
            temp_output: self.temp_output,
        }
    }

    /// The tools are a table, and the session is in order.
    pub closed spec fn wf(&self) -> bool {
        self.tools.wf() && self.state().wf()
    }

    /// A session in order remembers a state in order.
    pub proof fn lemma_wf(&self)
        requires
            self.wf(),
        ensures
            self.state().wf(),
    {
    }

    /// Opens a session on a kernel. The sizes are given as they were read, if they were given; a
    /// heap size that could not be read is reported before a stack size.
    pub fn new(
        kernel: &str,
        initrd: Option<&str>,
        initrd_base: Option<u64>,
        input_dir: Option<&str>,
        output_dir: Option<&str>,
        temp_output: bool,
        heap_size: Option<Result<u64, String>>,
        stack_size: Option<Result<u64, String>>,
    ) -> (sandbox: Result<UnikraftSandbox<T, R>, SessionError>)
        ensures
            match (heap_size, stack_size) {
                (Some(Err(words)), _) => sandbox == Err::<UnikraftSandbox<T, R>, SessionError>(
                    SessionError::Size(words),
                ),
                (_, Some(Err(words))) => sandbox == Err::<UnikraftSandbox<T, R>, SessionError>(
                    SessionError::Size(words),
                ),
                _ => {
                    &&& sandbox matches Ok(s)
                    &&& s.wf()
                    &&& s.state() == (SessionState::<T, R> {
                        initialized: false,
                        stage: SessionStage::Idle,
                        code: None,
                        tools: Map::empty(),
                        pending_networks: Seq::empty(),
                        pending_credentials: Seq::empty(),
                        due_networks: Seq::empty(),
                        due_credentials: Seq::empty(),
                    })
                    &&& s.config() == (SessionConfig {
                        kernel: kernel@,
                        initrd: view_of_str(initrd),
                        initrd_base,
                        heap_size: size_of_reading(heap_size),
                        stack_size: size_of_reading(stack_size),
                        input_dir: view_of_str(input_dir),
                        output_dir: view_of_str(output_dir),
                        temp_output,
                    })
                },
            },
    {
        let heap_size = match heap_size {
            Some(Ok(bytes)) => Some(bytes),
            Some(Err(words)) => {
                return Err(SessionError::Size(words));
            },
            None => None,
        };
        let stack_size = match stack_size {
            Some(Ok(bytes)) => Some(bytes),
            Some(Err(words)) => {
                return Err(SessionError::Size(words));
            },
            None => None,
        };
        Ok(
            UnikraftSandbox {
                initialized: false,
                stage: SessionStage::Idle,
                code: None,
                tools: Table::new(),
                pending_networks: Vec::new(),
                pending_credentials: Vec::new(),
                due_networks: Vec::new(),
                due_credentials: Vec::new(),
                kernel: kernel.to_owned(),
                initrd: owned(initrd),
                initrd_base,
                heap_size,
                stack_size,
                input_dir: owned(input_dir),
                output_dir: owned(output_dir),
                temp_output,
            },
        )
    }

    /// Registers a tool under its name, in place of one that had it. Refused once the sandbox is
    /// built, whatever the registration.
    pub fn register_tool(&mut self, registration: Result<(String, T), String>) -> (outcome: Result<
        (),
        SessionError,
    >)
        requires
            old(self).wf(),
        ensures
            final(self).wf(),
            final(self).config() == old(self).config(),
            if old(self).state().initialized {
                &&& outcome == Err::<(), SessionError>(SessionError::ToolsClosed)
                &&& final(self).state() == old(self).state()
            } else {
                match registration {
                    Ok((name, tool)) => {
                        &&& outcome == Ok::<(), SessionError>(())
                        &&& final(self).state() == (SessionState {
                            tools: old(self).state().tools.insert(name@, tool),
                            ..old(self).state()
                        })
                    },
                    Err(words) => {
                        &&& outcome == Err::<(), SessionError>(SessionError::Registration(words))
                        &&& final(self).state() == old(self).state()
                    },
                }
            },
    {
        if self.initialized {
            return Err(SessionError::ToolsClosed);
        }
        match registration {
            Ok((name, tool)) => {
                self.tools.insert(name, tool);
                Ok(())
            },
            Err(words) => Err(SessionError::Registration(words)),
        }
    }

    /// Hands out the tools to be put together.
    pub fn take_tools(&mut self) -> (tools: Table<T>)
        requires
            old(self).wf(),
        ensures
            final(self).wf(),
            final(self).config() == old(self).config(),
            tools.wf(),
            tools@ == old(self).state().tools,
            final(self).state() == (SessionState { tools: Map::empty(), ..old(self).state() }),
    {
        let mut tools = Table::new();
        std::mem::swap(&mut tools, &mut self.tools);
        tools
    }

    /// Asks for a network permission. Before the first run it is kept for later, and nothing is
    /// to be done; once the sandbox is built it is to be applied to it at once.
    pub fn allow_domain(&mut self, target: &str, methods: Option<Vec<String>>) -> (now: Option<
        DomainRule,
    >)
        requires
            old(self).wf(),
        ensures
            final(self).wf(),
            final(self).config() == old(self).config(),
            if old(self).state().initialized {
                &&& now matches Some(rule)
                &&& rule.target@ == target@
                &&& rule.methods == methods
                &&& final(self).state() == old(self).state()
            } else {
                let pending = final(self).state().pending_networks;
                &&& now is None
                &&& pending.len() == old(self).state().pending_networks.len() + 1
                &&& pending.drop_last() == old(self).state().pending_networks
                &&& pending.last().target@ == target@
                &&& pending.last().methods == methods
                &&& final(self).state() == (SessionState {
                    pending_networks: pending,
                    ..old(self).state()
                })
            },
    {
        let rule = DomainRule { target: target.to_owned(), methods };
        if self.initialized {
            Some(rule)
        } else {
            self.pending_networks.push(rule);
            assert(self.pending_networks@.drop_last() =~= old(self).pending_networks@);
            None
        }
    }

    /// Registers a scoped credential. Before the first run it is kept for later, and nothing is to
    /// be done; once the sandbox is built it is to be registered with it at once.
    pub fn register_credential(
        &mut self,
        id: &str,
        target: &str,
        header: &str,
        prefix: &str,
        resolver: R,
    ) -> (now: Option<PendingCredential<R>>)
        requires
            old(self).wf(),
        ensures
            final(self).wf(),
            final(self).config() == old(self).config(),
            if old(self).state().initialized {
                &&& now matches Some(credential)
                &&& is_credential(credential, id@, target@, header@, prefix@, resolver)
                &&& final(self).state() == old(self).state()
            } else {
                let pending = final(self).state().pending_credentials;
                &&& now is None
                &&& pending.len() == old(self).state().pending_credentials.len() + 1
                &&& pending.drop_last() == old(self).state().pending_credentials
                &&& is_credential(pending.last(), id@, target@, header@, prefix@, resolver)
                &&& final(self).state() == (SessionState {
                    pending_credentials: pending,
                    ..old(self).state()
                })
            },
    {
        let credential = PendingCredential {
            id: id.to_owned(),
            target: target.to_owned(),
            header: header.to_owned(),
            prefix: prefix.to_owned(),
            resolver,
        };
        if self.initialized {
            Some(credential)
        } else {
            self.pending_credentials.push(credential);
            assert(self.pending_credentials@.drop_last() =~= old(self).pending_credentials@);
            None
        }
    }

    /// The guest to build the sandbox of. Sizes that were not given have their defaults.
    pub fn guest<G>(&self) -> (guest: Unikraft<G>)
        ensures
            outside::path_bytes(guest.kernel) == vstd::utf8::encode_utf8(self.config().kernel),
            match guest.initrd {
                Some(path) => {
                    &&& self.config().initrd matches Some(initrd)
                    &&& outside::path_bytes(path) == vstd::utf8::encode_utf8(initrd)
                },
                None => self.config().initrd is None,
            },
            guest.heap_size == match self.config().heap_size {
                Some(bytes) => bytes,
                None => DEFAULT_HEAP_SIZE,
            },
            guest.stack_size == match self.config().stack_size {
                Some(bytes) => bytes,
                None => DEFAULT_STACK_SIZE,
            },
            guest.initrd_base == self.config().initrd_base,
            guest.mounts@.len() == 0,
            guest.golden is None,
    {
        let mut guest: Unikraft<G> = Unikraft::new(outside::path_from_text(self.kernel.as_str()));
        if let Some(initrd) = &self.initrd {
            guest = guest.initrd(outside::path_from_text(initrd.as_str()));
        }
        if let Some(heap) = self.heap_size {
            guest = guest.heap_size(heap);
        }
        if let Some(stack) = self.stack_size {
            guest = guest.stack_size(stack);
        }
        if let Some(base) = self.initrd_base {
            guest = guest.initrd_base(base);
        }
        guest
    }

    /// The directory that the guest reads its input from.
    pub fn input_dir(&self) -> (dir: Option<&str>)
        ensures
            view_of_str(dir) == self.config().input_dir,
    {
        borrowed(&self.input_dir)
    }

    /// Where the guest's output goes: to the directory given, whose directories may be read and
    /// changed and whose files may be read and written, else to one of its own where that was asked
    /// for.
    pub fn output(&self) -> (choice: OutputChoice<'_>)
        ensures
            match self.config().output_dir {
                Some(dir) => {
                    &&& choice matches OutputChoice::Directory { path, dirs, files }
                    &&& path@ == dir
                    &&& dirs == (DirAccess { read: true, mutate: true })
                    &&& files == (FileAccess { read: true, write: true })
                },
                None => if self.config().temp_output {
                    choice is Temporary
                } else {
                    choice is Nowhere
                },
            },
    {
        match &self.output_dir {
            Some(dir) => OutputChoice::Directory {
                path: dir.as_str(),
                dirs: DirAccess { read: true, mutate: true },
                files: FileAccess { read: true, write: true },
            },
            None => if self.temp_output {
                OutputChoice::Temporary
            } else {
                OutputChoice::Nowhere
            },
        }
    }

    /// Gives up what was due and the code that waited.
    fn fail(&mut self, error: SessionError) -> (action: SessionAction<R>)
        ensures
            (final(self).state(), action) == old(self).state().failed(error),
            final(self).config() == old(self).config(),
            final(self).tools == old(self).tools,
    {
        self.stage = SessionStage::Idle;
        self.code = None;
        self.due_networks = Vec::new();
        self.due_credentials = Vec::new();
        assert(self.state() =~= old(self).state().failed(error).0);
        SessionAction::Fail(error)
    }

    /// Takes the next step of the setup over the credentials that are due.
    fn next_credential(&mut self) -> (action: SessionAction<R>)
        requires
            old(self).code is Some,
        ensures
            (final(self).state(), action) == old(self).state().next_credential(),
            final(self).config() == old(self).config(),
            final(self).tools == old(self).tools,
    {
        if self.due_credentials.len() > 0 {
            self.stage = SessionStage::Registering;
            let credential = self.due_credentials.remove(0);
            assert(self.due_credentials@ =~= old(self).due_credentials@.drop_first());
            SessionAction::RegisterCredential(credential)
        } else {
            self.initialized = true;
            self.stage = SessionStage::Running;
            SessionAction::RunCode(self.code.take().unwrap())
        }
    }

    /// Takes the next step of the setup over the network permissions that are due.
    fn next_network(&mut self) -> (action: SessionAction<R>)
        requires
            old(self).code is Some,
            old(self).due_credentials@.len() == 0,
        ensures
            (final(self).state(), action) == old(self).state().next_network(),
            final(self).config() == old(self).config(),
            final(self).tools == old(self).tools,
    {
        if self.due_networks.len() > 0 {
            self.stage = SessionStage::Allowing;
            let rule = self.due_networks.remove(0);
            assert(self.due_networks@ =~= old(self).due_networks@.drop_first());
            SessionAction::AllowDomain(rule)
        } else {
            std::mem::swap(&mut self.due_credentials, &mut self.pending_credentials);
            assert(self.pending_credentials@ =~= Seq::empty());
            self.next_credential()
        }
    }

    /// Takes in what happened and says what is next.
    pub fn advance(&mut self, event: SessionEvent<T>) -> (action: SessionAction<R>)
        requires
            old(self).wf(),
            old(self).state().accepts(event),
        ensures
            final(self).wf(),
            (final(self).state(), action) == old(self).state().after(event),
            final(self).config() == old(self).config(),
    {
        match event {
            SessionEvent::Run(code) => {
                if self.initialized {
                    self.stage = SessionStage::Running;
                    SessionAction::RunCode(code)
                } else {
                    self.code = Some(code);
                    self.stage = SessionStage::BuildingTools;
                    SessionAction::BuildTools
                }
            },
            SessionEvent::ToolsBuilt(left, outcome) => {
                self.tools = left;
                match outcome {
                    Ok(_) => {
                        self.stage = SessionStage::BuildingSandbox;
                        SessionAction::BuildSandbox
                    },
                    Err(words) => self.fail(SessionError::Tools(words)),
                }
            },
            SessionEvent::SandboxBuilt(outcome) => match outcome {
                Ok(_) => {
                    std::mem::swap(&mut self.due_networks, &mut self.pending_networks);
                    assert(self.pending_networks@ =~= Seq::empty());
                    self.next_network()
                },
                Err(words) => self.fail(SessionError::Create(words)),
            },
            SessionEvent::DomainAllowed(outcome) => match outcome {
                Ok(_) => self.next_network(),
                Err(words) => self.fail(SessionError::Setup(words)),
            },
            SessionEvent::CredentialRegistered(outcome) => match outcome {
                Ok(_) => self.next_credential(),
                Err(words) => self.fail(SessionError::Setup(words)),
            },
            SessionEvent::Ran(outcome) => {
                match outcome {
                    Ok(result) => {
                        self.stage = SessionStage::Idle;
                        SessionAction::Done(result)
                    },
                    Err(words) => self.fail(SessionError::Execution(words)),
                }
            },
        }
    }

    /// What the session waits for.
    pub fn stage(&self) -> (stage: SessionStage)
        ensures
            stage == self.state().stage,
    {
        self.stage
    }

    /// Whether the built sandbox may be asked for a snapshot, a rewind, or its output.
    pub fn check_initialized(&self) -> (ready: Result<(), SessionError>)
        ensures
            ready == if self.state().initialized {
                Ok::<(), SessionError>(())
            } else {
                Err(SessionError::NotInitialized)
            },
    {
        if self.initialized {
            Ok(())
        } else {
            Err(SessionError::NotInitialized)
        }
    }
}

/// Whether a credential holds these parts.
pub open spec fn is_credential<R>(
    credential: PendingCredential<R>,
    id: Seq<char>,
    target: Seq<char>,
    header: Seq<char>,
    prefix: Seq<char>,
    resolver: R,
) -> bool {
    &&& credential.id@ == id
    &&& credential.target@ == target
    &&& credential.header@ == header
    &&& credential.prefix@ == prefix
    &&& credential.resolver == resolver
}

/// What the built sandbox can be asked for.
pub enum Query {
    Snapshot,
    Restore,
    OutputFiles,
    OutputPath,
}

/// What a query came to: what the sandbox gave, or the error of that query with the sandbox's
/// words.
pub fn query_outcome<S>(query: Query, outcome: Result<S, String>) -> (answer: Result<
    S,
    SessionError,
>)
    ensures
        match outcome {
            Ok(given) => answer == Ok::<S, SessionError>(given),
            Err(words) => answer == Err::<S, SessionError>(
                match query {
                    Query::Snapshot => SessionError::Snapshot(words),
                    Query::Restore => SessionError::Restore(words),
                    Query::OutputFiles => SessionError::OutputFiles(words),
                    Query::OutputPath => SessionError::OutputPath(words),
                },
            ),
        },
{
    match outcome {
        Ok(given) => Ok(given),
        Err(words) => Err(
            match query {
                Query::Snapshot => SessionError::Snapshot(words),
                Query::Restore => SessionError::Restore(words),
                Query::OutputFiles => SessionError::OutputFiles(words),
                Query::OutputPath => SessionError::OutputPath(words),
            },
        ),
    }
}

/// What calling a credential resolver of the scripting host came to.
pub enum ResolverOutcome {
    /// It returned a text.
    Text(String),
    /// It returned something else.
    NotText,
    /// It raised an exception; with the name of its type, where that is known.
    Raised(Option<String>),
}

/// Whether `reply` is what calling a resolver comes to. Of an exception only the name of its type
/// is told: its message may hold secrets.
pub open spec fn replies(outcome: ResolverOutcome, reply: Result<String, String>) -> bool {
    match outcome {
        ResolverOutcome::Text(credential) => reply == Ok::<String, String>(credential),
        ResolverOutcome::NotText => reply matches Err(words) && words@
            == "credential resolver did not return a str"@,
        ResolverOutcome::Raised(exception) => reply matches Err(words) && words@
            == "python resolver raised "@ + match exception {
            Some(name) => name@,
            None => "Exception"@,
        },
    }
}

/// The credential that a resolver gave, or why it gave none.
pub fn resolver_reply(outcome: ResolverOutcome) -> (reply: Result<String, String>)
    ensures
        replies(outcome, reply),
{
    match outcome {
        ResolverOutcome::Text(credential) => Ok(credential),
        ResolverOutcome::NotText => Err("credential resolver did not return a str".to_owned()),
        ResolverOutcome::Raised(exception) => match exception {
            Some(name) => Err(text::joined("python resolver raised ", name.as_str())),
            None => Err(text::joined("python resolver raised ", "Exception")),
        },
    }
}

/// What happens to a resolver.
pub enum ResolverEvent {
    /// It is invoked.
    Invoked,
    /// Its callable was called, and this came of it.
    Returned(ResolverOutcome),
}

/// What a resolver calls for.
pub enum ResolverAction<'a, C> {
    /// Call this callable once, without arguments.
    Call(&'a C),
    /// The invocation is over, with this reply.
    Reply(Result<String, String>),
}

/// Whether `action` is what an event calls for from a resolver that wraps `callable`.
pub open spec fn resolver_calls_for<C>(
    callable: C,
    event: ResolverEvent,
    action: ResolverAction<'_, C>,
) -> bool {
    match event {
        ResolverEvent::Invoked => action matches ResolverAction::Call(called) && *called
            == callable,
        ResolverEvent::Returned(outcome) => action matches ResolverAction::Reply(reply) && replies(
            outcome,
            reply,
        ),
    }
}

/// A callable of the scripting host as a credential resolver. It remembers nothing between
/// invocations, so that each calls the callable anew.
pub struct CallableResolver<C> {
    callable: C,
}

impl<C> CallableResolver<C> {
    /// The callable that is wrapped.
    pub closed spec fn callable(&self) -> C {
        self.callable
    }

    /// Takes in what happened and says what is next.
    pub fn step(&self, event: ResolverEvent) -> (action: ResolverAction<'_, C>)
        ensures
            resolver_calls_for(self.callable(), event, action),
    {
        match event {
            ResolverEvent::Invoked => ResolverAction::Call(&self.callable),
            ResolverEvent::Returned(outcome) => ResolverAction::Reply(resolver_reply(outcome)),
        }
    }
}

/// Wraps a callable as a credential resolver. The callable is not called for that.
pub fn python_callable_to_resolver<C>(callable: C) -> (resolver: CallableResolver<C>)
    ensures
        resolver.callable() == callable,
{
    CallableResolver { callable }
}

/// The events of some invocations, one after the other, of which each came to one of `outcomes`.
pub open spec fn invocations(outcomes: Seq<ResolverOutcome>) -> Seq<ResolverEvent>
    decreases outcomes.len(),
{
    if outcomes.len() == 0 {
        Seq::empty()
    } else {
        invocations(outcomes.drop_last()).push(ResolverEvent::Invoked).push(
            ResolverEvent::Returned(outcomes.last()),
        )
    }
}

/// How many of some actions call the callable.
pub open spec fn calls_among<C>(actions: Seq<ResolverAction<'_, C>>) -> nat
    decreases actions.len(),
{
    if actions.len() == 0 {
        0
    } else {
        calls_among(actions.drop_last()) + if actions.last() is Call {
            1nat
        } else {
            0
        }
    }
}

/// Whether two actions are those of one invocation: a call of the callable, and the reply that
/// its outcome comes to.
pub open spec fn is_one_invocation<C>(
    callable: C,
    outcome: ResolverOutcome,
    call: ResolverAction<'_, C>,
    reply: ResolverAction<'_, C>,
) -> bool {
    &&& resolver_calls_for(callable, ResolverEvent::Invoked, call)
    &&& resolver_calls_for(callable, ResolverEvent::Returned(outcome), reply)
}

/// However often a resolver is invoked, each invocation calls the callable once, and replies with
/// what came of that call: there are as many calls as invocations, and each invocation has a call
/// and then a reply of its own.
pub proof fn law_each_invocation_calls_once<C>(
    callable: C,
    outcomes: Seq<ResolverOutcome>,
    actions: Seq<ResolverAction<'_, C>>,
)
    requires
        actions.len() == invocations(outcomes).len(),
        forall|i: int|
            0 <= i < actions.len() ==> resolver_calls_for(
                callable,
                #[trigger] invocations(outcomes)[i],
                actions[i],
            ),
    ensures
        actions.len() == 2 * outcomes.len(),
        calls_among(actions) == outcomes.len(),
        forall|k: int|
            0 <= k < outcomes.len() ==> is_one_invocation(
                callable,
                #[trigger] outcomes[k],
                actions[2 * k],
                actions[2 * k + 1],
            ),
    decreases outcomes.len(),
{
    if outcomes.len() > 0 {
        let events = invocations(outcomes);
        let shorter = outcomes.drop_last();
        let earlier = actions.drop_last().drop_last();
        assert forall|i: int| 0 <= i < earlier.len() implies resolver_calls_for(
            callable,
            #[trigger] invocations(shorter)[i],
            earlier[i],
        ) by {
            assert(events[i] == invocations(shorter)[i]);
        }
        law_each_invocation_calls_once(callable, shorter, earlier);
        let n = earlier.len() as int;
        assert(events[n] is Invoked);
        assert(events[n + 1] == ResolverEvent::Returned(outcomes.last()));
        assert(resolver_calls_for(callable, events[n], actions[n]));
        assert(resolver_calls_for(callable, events[n + 1], actions[n + 1]));
        assert(actions.drop_last().last() == actions[n]);
        reveal_with_fuel(calls_among, 3);
        assert forall|k: int| 0 <= k < outcomes.len() implies is_one_invocation(
            callable,
            #[trigger] outcomes[k],
            actions[2 * k],
            actions[2 * k + 1],
        ) by {
            if k < shorter.len() {
                assert(shorter[k] == outcomes[k]);
                assert(earlier[2 * k] == actions[2 * k]);
                assert(earlier[2 * k + 1] == actions[2 * k + 1]);
            }
        }
    }
}

/// The steps that are still owed in a setup that is under way: the network permissions in the
/// order in which they were asked for, then the credentials in the order in which they were
/// registered, then the run of the code that waits.
pub open spec fn owed<T, R>(state: SessionState<T, R>) -> Seq<SessionAction<R>> {
    let networks = if state.stage is BuildingSandbox {
        state.pending_networks
    } else {
        state.due_networks
    };
    let credentials = if state.stage is Registering {
        state.due_credentials
    } else {
        state.pending_credentials
    };
    networks.map_values(|rule: DomainRule| SessionAction::<R>::AllowDomain(rule))
        + credentials.map_values(
        |credential: PendingCredential<R>| SessionAction::<R>::RegisterCredential(credential),
    ) + seq![SessionAction::RunCode(state.code->0)]
}

/// The event that says that the step under way went well.
pub open spec fn success<T>(stage: SessionStage) -> SessionEvent<T> {
    match stage {
        SessionStage::BuildingSandbox => SessionEvent::SandboxBuilt(Ok(())),
        SessionStage::Allowing => SessionEvent::DomainAllowed(Ok(())),
        _ => SessionEvent::CredentialRegistered(Ok(())),
    }
}

/// Whether a sandbox is being built or set up.
pub open spec fn in_setup(stage: SessionStage) -> bool {
    stage is BuildingSandbox || stage is Allowing || stage is Registering
}

/// A step of the setup that goes well calls for the first of the steps that are owed, and the
/// others stay owed. The last step is the run, on a sandbox that counts as initialized.
pub proof fn law_setup_takes_what_is_owed<T, R>(state: SessionState<T, R>)
    requires
        state.wf(),
        in_setup(state.stage),
    ensures
        ({
            let (next, action) = state.after(success(state.stage));
            &&& next.wf()
            &&& action == owed(state)[0]
            &&& action is RunCode ==> next.initialized && next.stage is Running
            &&& !(action is RunCode) ==> {
                &&& !next.initialized
                &&& in_setup(next.stage)
                &&& owed(next) == owed(state).drop_first()
            }
        }),
{
    let (next, action) = state.after(success(state.stage));
    if state.stage is BuildingSandbox {
        if state.pending_networks.len() > 0 {
            assert(owed(next) =~= owed(state).drop_first());
        } else if state.pending_credentials.len() > 0 {
            assert(owed(next) =~= owed(state).drop_first());
        }
    } else if state.stage is Allowing {
        if state.due_networks.len() > 0 {
            assert(owed(next) =~= owed(state).drop_first());
        } else if state.pending_credentials.len() > 0 {
            assert(owed(next) =~= owed(state).drop_first());
        }
    } else {
        if state.due_credentials.len() > 0 {
            assert(owed(next) =~= owed(state).drop_first());
        }
    }
}

/// The actions that the next `count` steps of a setup call for when all go well.
pub open spec fn setup_actions<T, R>(state: SessionState<T, R>, count: nat) -> Seq<
    SessionAction<R>,
>
    decreases count,
{
    if count == 0 {
        Seq::empty()
    } else {
        let (next, action) = state.after(success(state.stage));
        seq![action] + setup_actions(next, (count - 1) as nat)
    }
}

/// A setup in which all goes well applies everything that was registered beforehand, once and in
/// order, and then runs the code: its actions are those that are owed.
pub proof fn law_setup_applies_everything<T, R>(state: SessionState<T, R>, count: nat)
    requires
        state.wf(),
        in_setup(state.stage),
        count <= owed(state).len(),
    ensures
        setup_actions(state, count) == owed(state).take(count as int),
    decreases count,
{
    if count > 0 {
        let (next, action) = state.after(success(state.stage));
        law_setup_takes_what_is_owed(state);
        if action is RunCode {
            lemma_run_is_owed_last(state);
            assert(owed(state).len() == 1);
            assert(setup_actions(next, 0) =~= Seq::empty());
        } else {
            law_setup_applies_everything(next, (count - 1) as nat);
        }
        assert(setup_actions(state, count) =~= owed(state).take(count as int));
    } else {
        assert(owed(state).take(0) =~= Seq::empty());
    }
}

/// What the session remembers after the next `count` steps of a setup when all go well.
pub open spec fn after_steps<T, R>(state: SessionState<T, R>, count: nat) -> SessionState<T, R>
    decreases count,
{
    if count == 0 {
        state
    } else {
        after_steps(state.after(success(state.stage)).0, (count - 1) as nat)
    }
}

/// Whether nothing is pending that the setup under way has passed by.
spec fn has_passed_nothing<T, R>(state: SessionState<T, R>) -> bool {
    &&& !(state.stage is BuildingSandbox) ==> state.pending_networks.len() == 0
    &&& state.stage is Registering ==> state.pending_credentials.len() == 0
}

proof fn lemma_setup_leaves_nothing<T, R>(state: SessionState<T, R>)
    requires
        state.wf(),
        in_setup(state.stage),
        has_passed_nothing(state),
    ensures
        ({
            let end = after_steps(state, owed(state).len());
            &&& end.wf()
            &&& end.initialized
            &&& end.stage is Running
            &&& end.pending_networks.len() == 0
            &&& end.pending_credentials.len() == 0
            &&& end.tools == state.tools
        }),
    decreases owed(state).len(),
{
    let (next, action) = state.after(success(state.stage));
    law_setup_takes_what_is_owed(state);
    assert(owed(state).len() > 0);
    if action is RunCode {
        lemma_run_is_owed_last(state);
        reveal_with_fuel(after_steps, 2);
    } else {
        assert(has_passed_nothing(next));
        lemma_setup_leaves_nothing(next);
    }
}

/// A setup in which all goes well leaves nothing to be done again: after the steps that were owed
/// when the sandbox was being built, the session is initialized and no network permission and no
/// credential is pending. When the code has run, the next run is a run of its code alone.
pub proof fn law_setup_leaves_nothing_pending<T, R>(
    state: SessionState<T, R>,
    result: ExecutionResult,
    code: String,
)
    requires
        state.wf(),
        state.stage is BuildingSandbox,
    ensures
        ({
            let end = after_steps(state, owed(state).len());
            let idle = end.after(SessionEvent::Ran(Ok(result))).0;
            let (next, action) = idle.after(SessionEvent::Run(code));
            &&& end.initialized
            &&& end.stage is Running
            &&& end.pending_networks.len() == 0
            &&& end.pending_credentials.len() == 0
            &&& idle.stage is Idle
            &&& action == SessionAction::<R>::RunCode(code)
            &&& next.initialized
            &&& next.pending_networks.len() == 0
            &&& next.pending_credentials.len() == 0
        }),
{
    lemma_setup_leaves_nothing(state);
}

proof fn lemma_run_is_owed_last<T, R>(state: SessionState<T, R>)
    ensures
        owed(state)[0] is RunCode ==> owed(state).len() == 1,
{
    let networks = if state.stage is BuildingSandbox {
        state.pending_networks
    } else {
        state.due_networks
    };
    let credentials = if state.stage is Registering {
        state.due_credentials
    } else {
        state.pending_credentials
    };
    if networks.len() > 0 {
        assert(owed(state)[0] == SessionAction::<R>::AllowDomain(networks[0]));
    } else if credentials.len() > 0 {
        assert(owed(state)[0] == SessionAction::<R>::RegisterCredential(credentials[0]));
    }
}

/// Whatever happens, a session stays in order; and once its sandbox is built it stays built, so
/// that each further run is a run of the code alone.
pub proof fn law_session_stays_initialized<T, R>(
    state: SessionState<T, R>,
    event: SessionEvent<T>,
)
    requires
        state.wf(),
        state.accepts(event),
    ensures
        state.after(event).0.wf(),
        state.initialized ==> state.after(event).0.initialized,
        state.initialized && event is Run ==> state.after(event).1 is RunCode,
{
}

/// The code that a run asks for is the code that is run: at once in a sandbox that is set up; else
/// it waits, whatever happens, until it is run or the setup fails.
pub proof fn law_code_asked_for_is_run<T, R>(state: SessionState<T, R>, event: SessionEvent<T>)
    requires
        state.wf(),
        state.accepts(event),
    ensures
        ({
            let (next, action) = state.after(event);
            &&& event matches SessionEvent::Run(code) ==> if state.initialized {
                action == SessionAction::<R>::RunCode(code)
            } else {
                next.code == Some(code)
            }
            &&& state.code matches Some(code) ==> match action {
                SessionAction::RunCode(run) => run == code,
                SessionAction::Fail(_) => next.code is None,
                _ => next.code == Some(code),
            }
            &&& action is RunCode ==> event is Run || state.code is Some
        }),
{
}

/// Code runs only in a sandbox that is built and set up.
pub proof fn law_code_runs_after_setup<T, R>(state: SessionState<T, R>, event: SessionEvent<T>)
    requires
        state.wf(),
        state.accepts(event),
        state.after(event).1 is RunCode,
    ensures
        state.after(event).0.initialized,
        state.after(event).0.due_networks.len() == 0,
        state.after(event).0.due_credentials.len() == 0,
{
}

} // verus!
