//! Laws of a session.

use vstd::prelude::*;

use crate::backend::{ExecutionResult, Unikraft, DEFAULT_HEAP_SIZE, DEFAULT_STACK_SIZE};
use crate::outside;
use crate::session;
use crate::session::{
    CallableResolver, DomainRule, OutputChoice, PendingCredential, Query, ResolverAction,
    ResolverEvent, ResolverOutcome, SessionAction, SessionError, SessionEvent, SessionStage,
    SessionState, UnikraftSandbox,
};
use crate::table::Table;

verus! {

/// A session is opened exactly where the sizes that were given could be read; else the words of
/// the heap size are told, or those of the stack size.
pub proof fn law_session_is_opened<T, R>(
    kernel: &str,
    initrd: Option<&str>,
    initrd_base: Option<u64>,
    input_dir: Option<&str>,
    output_dir: Option<&str>,
    temp_output: bool,
    heap_size: Option<Result<u64, String>>,
    stack_size: Option<Result<u64, String>>,
    opened: Result<UnikraftSandbox<T, R>, SessionError>,
)
    requires
        call_ensures(
            UnikraftSandbox::<T, R>::new,
            (
                kernel,
                initrd,
                initrd_base,
                input_dir,
                output_dir,
                temp_output,
                heap_size,
                stack_size,
            ),
            opened,
        ),
    ensures
        opened is Ok <==> !(heap_size matches Some(Err(_))) && !(stack_size matches Some(Err(_))),
        heap_size matches Some(Err(words)) ==> opened == Err::<UnikraftSandbox<T, R>, SessionError>(
            SessionError::Size(words),
        ),
        !(heap_size matches Some(Err(_))) ==> (stack_size matches Some(Err(words)) ==> opened
            == Err::<UnikraftSandbox<T, R>, SessionError>(SessionError::Size(words))),
{
}

/// What a session was opened with comes out again: the guest to build has the kernel, the initrd
/// and its address as given, the sizes as given or their defaults, and no more; the input is read
/// from the directory given; the output goes to the directory given, open to reading and changing,
/// else to one of its own where that was asked for. Nothing is built yet, and the first run begins
/// with the tools.
pub proof fn law_opened_session<T, R, G>(
    kernel: &str,
    initrd: Option<&str>,
    initrd_base: Option<u64>,
    input_dir: Option<&str>,
    output_dir: Option<&str>,
    temp_output: bool,
    heap_size: Option<Result<u64, String>>,
    stack_size: Option<Result<u64, String>>,
    opened: &mut UnikraftSandbox<T, R>,
    guest: Unikraft<G>,
    input: Option<&str>,
    output: OutputChoice<'_>,
    ready: Result<(), SessionError>,
    stage: SessionStage,
    code: String,
    action: SessionAction<R>,
)
    requires
        call_ensures(
            UnikraftSandbox::<T, R>::new,
            (
                kernel,
                initrd,
                initrd_base,
                input_dir,
                output_dir,
                temp_output,
                heap_size,
                stack_size,
            ),
            Ok::<UnikraftSandbox<T, R>, SessionError>(*old(opened)),
        ),
        call_ensures(UnikraftSandbox::<T, R>::guest::<G>, (&*old(opened),), guest),
        call_ensures(UnikraftSandbox::<T, R>::input_dir, (&*old(opened),), input),
        call_ensures(UnikraftSandbox::<T, R>::output, (&*old(opened),), output),
        call_ensures(UnikraftSandbox::<T, R>::check_initialized, (&*old(opened),), ready),
        call_ensures(UnikraftSandbox::<T, R>::stage, (&*old(opened),), stage),
        call_ensures(UnikraftSandbox::<T, R>::advance, (opened, SessionEvent::Run(code)), action),
    ensures
        old(opened).wf(),
        old(opened).state().tools.dom() == Set::<Seq<char>>::empty(),
        old(opened).state().pending_networks.len() == 0,
        old(opened).state().pending_credentials.len() == 0,
        outside::path_bytes(guest.kernel) == vstd::utf8::encode_utf8(kernel@),
        guest.initrd is Some <==> initrd is Some,
        initrd matches Some(path) ==> outside::path_bytes(guest.initrd->0)
            == vstd::utf8::encode_utf8(path@),
        guest.initrd_base == initrd_base,
        heap_size matches Some(Ok(bytes)) ==> guest.heap_size == bytes,
        heap_size is None ==> guest.heap_size == DEFAULT_HEAP_SIZE,
        stack_size matches Some(Ok(bytes)) ==> guest.stack_size == bytes,
        stack_size is None ==> guest.stack_size == DEFAULT_STACK_SIZE,
        guest.mounts@.len() == 0,
        guest.golden is None,
        input is Some <==> input_dir is Some,
        input_dir matches Some(dir) ==> input->0@ == dir@,
        output_dir matches Some(dir) ==> (output matches OutputChoice::Directory {
            path,
            dirs,
            files,
        } && {
            &&& path@ == dir@
            &&& dirs.read
            &&& dirs.mutate
            &&& files.read
            &&& files.write
        }),
        output_dir is None && temp_output ==> output is Temporary,
        output_dir is None && !temp_output ==> output is Nowhere,
        ready == Err::<(), SessionError>(SessionError::NotInitialized),
        stage is Idle,
        action is BuildTools,
{
}

/// A tool that is registered before the sandbox is built is among the tools to be put together,
/// under its name, in place of one that had it; the others stay. Nothing else changes.
pub proof fn law_registered_tool<T, R>(
    before: &mut UnikraftSandbox<T, R>,
    name: String,
    tool: T,
    outcome: Result<(), SessionError>,
    after: &mut UnikraftSandbox<T, R>,
    tools: &Table<T>,
    key: &str,
    got: Option<&T>,
)
    requires
        !old(before).state().initialized,
        call_ensures(
            UnikraftSandbox::<T, R>::register_tool,
            (before, Ok::<(String, T), String>((name, tool))),
            outcome,
        ),
        *old(after) == *final(before),
        call_ensures(UnikraftSandbox::<T, R>::take_tools, (after,), *tools),
        call_ensures(Table::<T>::get, (tools, key), got),
    ensures
        outcome == Ok::<(), SessionError>(()),
        key@ == name@ ==> got == Some(&tool),
        key@ != name@ ==> match got {
            Some(value) => old(before).state().tools.contains_key(key@)
                && old(before).state().tools[key@] == value,
            None => !old(before).state().tools.contains_key(key@),
        },
        final(before).config() == old(before).config(),
        final(before).state() == (SessionState {
            tools: final(before).state().tools,
            ..old(before).state()
        }),
        final(after).state().tools.dom() == Set::<Seq<char>>::empty(),
        final(after).state() == (SessionState {
            tools: final(after).state().tools,
            ..old(after).state()
        }),
{
}

/// A tool that is registered once the sandbox is built is refused, whatever it is; a registration
/// of the wrong shape is refused in its words. Either changes nothing.
pub proof fn law_refused_tool<T, R>(
    session: &mut UnikraftSandbox<T, R>,
    registration: Result<(String, T), String>,
    outcome: Result<(), SessionError>,
)
    requires
        call_ensures(UnikraftSandbox::<T, R>::register_tool, (session, registration), outcome),
    ensures
        old(session).state().initialized ==> outcome == Err::<(), SessionError>(
            SessionError::ToolsClosed,
        ),
        !old(session).state().initialized ==> (registration matches Err(words) ==> outcome == Err::<
            (),
            SessionError,
        >(SessionError::Registration(words))),
        outcome is Err ==> final(session).state() == old(session).state() && final(session).config()
            == old(session).config(),
{
}

/// A network permission that is asked for is to be applied at once where the sandbox is built, as
/// it was asked for; else it waits behind those that were asked for before. Nothing else changes.
pub proof fn law_network_permission<T, R>(
    session: &mut UnikraftSandbox<T, R>,
    target: &str,
    methods: Option<Vec<String>>,
    now: Option<DomainRule>,
)
    requires
        call_ensures(UnikraftSandbox::<T, R>::allow_domain, (session, target, methods), now),
    ensures
        final(session).config() == old(session).config(),
        old(session).state().initialized ==> {
            &&& now matches Some(rule)
            &&& rule.target@ == target@
            &&& rule.methods == methods
            &&& final(session).state() == old(session).state()
        },
        !old(session).state().initialized ==> {
            let pending = final(session).state().pending_networks;
            &&& now is None
            &&& pending.len() == old(session).state().pending_networks.len() + 1
            &&& forall|i: int|
                0 <= i < pending.len() - 1 ==> #[trigger] pending[i]
                    == old(session).state().pending_networks[i]
            &&& pending[pending.len() - 1].target@ == target@
            &&& pending[pending.len() - 1].methods == methods
            &&& final(session).state() == (SessionState {
                pending_networks: pending,
                ..old(session).state()
            })
        },
{
    if !old(session).state().initialized {
        let pending = final(session).state().pending_networks;
        assert forall|i: int| 0 <= i < pending.len() - 1 implies #[trigger] pending[i] == old(
            session,
        ).state().pending_networks[i] by {
            assert(pending[i] == pending.drop_last()[i]);
        }
    }
}

/// Whether a credential has the parts that were given.
pub open spec fn has_parts<R>(
    credential: PendingCredential<R>,
    id: &str,
    target: &str,
    header: &str,
    prefix: &str,
    resolver: R,
) -> bool {
    &&& credential.id@ == id@
    &&& credential.target@ == target@
    &&& credential.header@ == header@
    &&& credential.prefix@ == prefix@
    &&& credential.resolver == resolver
}

/// A credential that is registered is to be handed on at once where the sandbox is built, part by
/// part as it was given; else it waits behind those that were registered before. Nothing else
/// changes.
pub proof fn law_credential<T, R>(
    session: &mut UnikraftSandbox<T, R>,
    id: &str,
    target: &str,
    header: &str,
    prefix: &str,
    resolver: R,
    now: Option<PendingCredential<R>>,
)
    requires
        call_ensures(
            UnikraftSandbox::<T, R>::register_credential,
            (session, id, target, header, prefix, resolver),
            now,
        ),
    ensures
        final(session).config() == old(session).config(),
        old(session).state().initialized ==> {
            &&& now matches Some(credential)
            &&& has_parts(credential, id, target, header, prefix, resolver)
            &&& final(session).state() == old(session).state()
        },
        !old(session).state().initialized ==> {
            let pending = final(session).state().pending_credentials;
            &&& now is None
            &&& pending.len() == old(session).state().pending_credentials.len() + 1
            &&& forall|i: int|
                0 <= i < pending.len() - 1 ==> #[trigger] pending[i]
                    == old(session).state().pending_credentials[i]
            &&& has_parts(pending[pending.len() - 1], id, target, header, prefix, resolver)
            &&& final(session).state() == (SessionState {
                pending_credentials: pending,
                ..old(session).state()
            })
        },
{
    if !old(session).state().initialized {
        let pending = final(session).state().pending_credentials;
        assert forall|i: int| 0 <= i < pending.len() - 1 implies #[trigger] pending[i] == old(
            session,
        ).state().pending_credentials[i] by {
            assert(pending[i] == pending.drop_last()[i]);
        }
    }
}

/// A run that the sandbox completes ends with exactly the sandbox's result, stream by stream and
/// with its exit code; one that it cannot complete fails in the sandbox's words. Either leaves the
/// session as it was before that run.
pub proof fn law_result_of_a_run<T, R>(
    session: &mut UnikraftSandbox<T, R>,
    outcome: Result<ExecutionResult, String>,
    action: SessionAction<R>,
)
    requires
        old(session).wf(),
        call_ensures(
            UnikraftSandbox::<T, R>::advance,
            (session, SessionEvent::Ran(outcome)),
            action,
        ),
        old(session).state().stage is Running,
    ensures
        outcome matches Ok(result) ==> (action matches SessionAction::Done(told) && {
            &&& told.stdout == result.stdout
            &&& told.stderr == result.stderr
            &&& told.exit_code == result.exit_code
        }),
        outcome matches Err(words) ==> action == SessionAction::<R>::Fail(
            SessionError::Execution(words),
        ),
        final(session).state().stage is Idle,
        final(session).state().initialized,
        final(session).state().tools == old(session).state().tools,
        final(session).state().pending_networks == old(session).state().pending_networks,
        final(session).state().pending_credentials == old(session).state().pending_credentials,
        final(session).config() == old(session).config(),
{
    old(session).lemma_wf();
}

/// A run of a sandbox that is built is a run of its code, at once; else the code waits, and the
/// tools are put together first.
pub proof fn law_run_begins<T, R>(
    session: &mut UnikraftSandbox<T, R>,
    code: String,
    action: SessionAction<R>,
)
    requires
        call_ensures(UnikraftSandbox::<T, R>::advance, (session, SessionEvent::Run(code)), action),
    ensures
        final(session).config() == old(session).config(),
        old(session).state().initialized ==> {
            &&& action == SessionAction::<R>::RunCode(code)
            &&& final(session).state() == (SessionState {
                stage: SessionStage::Running,
                ..old(session).state()
            })
        },
        !old(session).state().initialized ==> {
            &&& action is BuildTools
            &&& final(session).state() == (SessionState {
                stage: SessionStage::BuildingTools,
                code: Some(code),
                ..old(session).state()
            })
        },
{
}

/// Whether nothing but what a setup under way is about has changed.
pub open spec fn keeps_the_rest<T, R>(
    before: SessionState<T, R>,
    after: SessionState<T, R>,
) -> bool {
    &&& !after.initialized
    &&& after.stage is Idle
    &&& after.code is None
    &&& after.pending_networks == before.pending_networks
    &&& after.pending_credentials == before.pending_credentials
    &&& after.due_networks.len() == 0
    &&& after.due_credentials.len() == 0
}

/// When the tools are put together, the sandbox is built next; when they cannot be, the run fails
/// in those words. The tools that are left are kept, and what was registered stays registered.
pub proof fn law_tools_built<T, R>(
    session: &mut UnikraftSandbox<T, R>,
    left: Table<T>,
    outcome: Result<(), String>,
    action: SessionAction<R>,
)
    requires
        old(session).wf(),
        old(session).state().stage is BuildingTools,
        call_ensures(
            UnikraftSandbox::<T, R>::advance,
            (session, SessionEvent::ToolsBuilt(left, outcome)),
            action,
        ),
    ensures
        final(session).config() == old(session).config(),
        final(session).state().tools == left@,
        outcome is Ok ==> {
            &&& action is BuildSandbox
            &&& final(session).state() == (SessionState {
                stage: SessionStage::BuildingSandbox,
                tools: left@,
                ..old(session).state()
            })
        },
        outcome matches Err(words) ==> {
            &&& action == SessionAction::<R>::Fail(SessionError::Tools(words))
            &&& keeps_the_rest(old(session).state(), final(session).state())
        },
{
    old(session).lemma_wf();
}

/// Whether `action` and `after` are the next step of a setup to which these permissions and
/// credentials are still to be applied: the first permission; where there is none, the first
/// credential; and where there is none either, the run of the code that waits.
pub open spec fn is_next_step<T, R>(
    networks: Seq<DomainRule>,
    credentials: Seq<PendingCredential<R>>,
    code: Option<String>,
    action: SessionAction<R>,
    after: SessionState<T, R>,
) -> bool {
    if networks.len() > 0 {
        &&& action == SessionAction::<R>::AllowDomain(networks[0])
        &&& after.stage is Allowing
        &&& !after.initialized
        &&& after.code == code
        &&& after.due_networks == networks.skip(1)
        &&& after.pending_credentials == credentials
    } else if credentials.len() > 0 {
        &&& action == SessionAction::<R>::RegisterCredential(credentials[0])
        &&& after.stage is Registering
        &&& !after.initialized
        &&& after.code == code
        &&& after.due_credentials == credentials.skip(1)
    } else {
        &&& Some(action) == match code {
            Some(code) => Some(SessionAction::<R>::RunCode(code)),
            None => None,
        }
        &&& after.stage is Running
        &&& after.initialized
        &&& after.pending_credentials.len() == 0
    }
}

/// When the sandbox is built, what was registered before is applied to it: permissions first, each
/// kind in order, and then the code that waits is run. When it cannot be built the run fails in
/// those words, and all stays registered.
pub proof fn law_sandbox_built<T, R>(
    session: &mut UnikraftSandbox<T, R>,
    outcome: Result<(), String>,
    action: SessionAction<R>,
)
    requires
        old(session).wf(),
        old(session).state().stage is BuildingSandbox,
        call_ensures(
            UnikraftSandbox::<T, R>::advance,
            (session, SessionEvent::SandboxBuilt(outcome)),
            action,
        ),
    ensures
        final(session).config() == old(session).config(),
        final(session).state().tools == old(session).state().tools,
        outcome is Ok ==> {
            &&& final(session).state().pending_networks.len() == 0
            &&& is_next_step(
                old(session).state().pending_networks,
                old(session).state().pending_credentials,
                old(session).state().code,
                action,
                final(session).state(),
            )
        },
        outcome matches Err(words) ==> {
            &&& action == SessionAction::<R>::Fail(SessionError::Create(words))
            &&& keeps_the_rest(old(session).state(), final(session).state())
        },
{
    old(session).lemma_wf();
    let state = old(session).state();
    assert(state.pending_networks.len() > 0 ==> state.pending_networks.drop_first()
        =~= state.pending_networks.skip(1));
    assert(state.pending_credentials.len() > 0 ==> state.pending_credentials.drop_first()
        =~= state.pending_credentials.skip(1));
}

/// When a permission is applied, the setup goes on with the next step; when it is refused, the run
/// fails in those words, and what is still to be applied of the permissions is given up.
pub proof fn law_permission_applied<T, R>(
    session: &mut UnikraftSandbox<T, R>,
    outcome: Result<(), String>,
    action: SessionAction<R>,
)
    requires
        old(session).wf(),
        old(session).state().stage is Allowing,
        call_ensures(
            UnikraftSandbox::<T, R>::advance,
            (session, SessionEvent::DomainAllowed(outcome)),
            action,
        ),
    ensures
        final(session).config() == old(session).config(),
        final(session).state().tools == old(session).state().tools,
        final(session).state().pending_networks == old(session).state().pending_networks,
        outcome is Ok ==> is_next_step(
            old(session).state().due_networks,
            old(session).state().pending_credentials,
            old(session).state().code,
            action,
            final(session).state(),
        ),
        outcome matches Err(words) ==> {
            &&& action == SessionAction::<R>::Fail(SessionError::Setup(words))
            &&& keeps_the_rest(old(session).state(), final(session).state())
        },
{
    old(session).lemma_wf();
    let state = old(session).state();
    assert(state.due_networks.len() > 0 ==> state.due_networks.drop_first()
        =~= state.due_networks.skip(1));
    assert(state.pending_credentials.len() > 0 ==> state.pending_credentials.drop_first()
        =~= state.pending_credentials.skip(1));
}

/// When a credential is registered, the setup goes on with the next one, and then with the run;
/// when it is refused, the run fails in those words, and what is still to be registered is given
/// up.
pub proof fn law_credential_applied<T, R>(
    session: &mut UnikraftSandbox<T, R>,
    outcome: Result<(), String>,
    action: SessionAction<R>,
)
    requires
        old(session).wf(),
        old(session).state().stage is Registering,
        call_ensures(
            UnikraftSandbox::<T, R>::advance,
            (session, SessionEvent::CredentialRegistered(outcome)),
            action,
        ),
    ensures
        final(session).config() == old(session).config(),
        final(session).state().tools == old(session).state().tools,
        final(session).state().pending_networks == old(session).state().pending_networks,
        final(session).state().pending_credentials == old(session).state().pending_credentials,
        outcome is Ok ==> if old(session).state().due_credentials.len() > 0 {
            &&& action == SessionAction::<R>::RegisterCredential(
                old(session).state().due_credentials[0],
            )
            &&& final(session).state().stage is Registering
            &&& !final(session).state().initialized
            &&& final(session).state().code == old(session).state().code
            &&& final(session).state().due_credentials
                == old(session).state().due_credentials.skip(1)
        } else {
            &&& action == SessionAction::<R>::RunCode(old(session).state().code->0)
            &&& final(session).state().stage is Running
            &&& final(session).state().initialized
        },
        outcome matches Err(words) ==> {
            &&& action == SessionAction::<R>::Fail(SessionError::Setup(words))
            &&& keeps_the_rest(old(session).state(), final(session).state())
        },
{
    old(session).lemma_wf();
    let due = old(session).state().due_credentials;
    assert(due.len() > 0 ==> due.drop_first() =~= due.skip(1));
}

/// A first run from end to end, on a session with one permission asked for: the tools are put
/// together, the sandbox is built, the permission is applied as it was asked for, the code asked
/// for is run, and its result is told; the next run is a run of its code alone.
pub proof fn law_first_run<T, R>(
    asked: &mut UnikraftSandbox<T, R>,
    target: &str,
    methods: Option<Vec<String>>,
    now: Option<DomainRule>,
    begun: &mut UnikraftSandbox<T, R>,
    with_tools: &mut UnikraftSandbox<T, R>,
    built: &mut UnikraftSandbox<T, R>,
    allowed: &mut UnikraftSandbox<T, R>,
    ran: &mut UnikraftSandbox<T, R>,
    again: &mut UnikraftSandbox<T, R>,
    code: String,
    left: Table<T>,
    result: ExecutionResult,
    next_code: String,
    actions: Seq<SessionAction<R>>,
    ready: Result<(), SessionError>,
)
    requires
        old(asked).wf(),
        !old(asked).state().initialized,
        old(asked).state().stage is Idle,
        old(asked).state().pending_networks.len() == 0,
        old(asked).state().pending_credentials.len() == 0,
        actions.len() == 6,
        call_ensures(UnikraftSandbox::<T, R>::allow_domain, (asked, target, methods), now),
        *old(begun) == *final(asked),
        call_ensures(UnikraftSandbox::<T, R>::advance, (begun, SessionEvent::Run(code)), actions[0]),
        *old(with_tools) == *final(begun),
        call_ensures(
            UnikraftSandbox::<T, R>::advance,
            (with_tools, SessionEvent::ToolsBuilt(left, Ok(()))),
            actions[1],
        ),
        *old(built) == *final(with_tools),
        call_ensures(
            UnikraftSandbox::<T, R>::advance,
            (built, SessionEvent::SandboxBuilt(Ok(()))),
            actions[2],
        ),
        *old(allowed) == *final(built),
        call_ensures(
            UnikraftSandbox::<T, R>::advance,
            (allowed, SessionEvent::DomainAllowed(Ok(()))),
            actions[3],
        ),
        *old(ran) == *final(allowed),
        call_ensures(
            UnikraftSandbox::<T, R>::advance,
            (ran, SessionEvent::Ran(Ok(result))),
            actions[4],
        ),
        *old(again) == *final(ran),
        call_ensures(UnikraftSandbox::<T, R>::check_initialized, (&*old(again),), ready),
        call_ensures(
            UnikraftSandbox::<T, R>::advance,
            (again, SessionEvent::Run(next_code)),
            actions[5],
        ),
    ensures
        actions[0] is BuildTools,
        actions[1] is BuildSandbox,
        actions[2] matches SessionAction::AllowDomain(rule) && rule.target@ == target@
            && rule.methods == methods,
        actions[3] == SessionAction::<R>::RunCode(code),
        actions[4] == SessionAction::<R>::Done(result),
        ready == Ok::<(), SessionError>(()),
        actions[5] == SessionAction::<R>::RunCode(next_code),
{
}

/// Which event a session waits for: a run when none is under way, then what comes of each step.
pub proof fn law_awaited_session_events<T, R>(state: SessionState<T, R>, event: SessionEvent<T>)
    ensures
        state.accepts(event) <==> match state.stage {
            SessionStage::Idle => event is Run,
            SessionStage::BuildingTools => event matches SessionEvent::ToolsBuilt(left, _)
                && left.wf(),
            SessionStage::BuildingSandbox => event is SandboxBuilt,
            SessionStage::Allowing => event is DomainAllowed,
            SessionStage::Registering => event is CredentialRegistered,
            SessionStage::Running => event is Ran,
        },
{
}

/// The built sandbox may be asked exactly where it is built.
pub proof fn law_ready_session<T, R>(
    session: &UnikraftSandbox<T, R>,
    ready: Result<(), SessionError>,
    stage: SessionStage,
)
    requires
        call_ensures(UnikraftSandbox::<T, R>::check_initialized, (session,), ready),
        call_ensures(UnikraftSandbox::<T, R>::stage, (session,), stage),
    ensures
        ready is Ok <==> session.state().initialized,
        ready is Err ==> ready == Err::<(), SessionError>(SessionError::NotInitialized),
        stage == session.state().stage,
{
}

/// What the built sandbox gives is told as it is; what it refuses is told in its words, as a
/// failure of what was asked.
pub proof fn law_query<S>(
    query: Query,
    outcome: Result<S, String>,
    answer: Result<S, SessionError>,
)
    requires
        call_ensures(session::query_outcome::<S>, (query, outcome), answer),
    ensures
        outcome matches Ok(given) ==> answer == Ok::<S, SessionError>(given),
        outcome matches Err(words) ==> (answer matches Err(error) && {
            &&& query is Snapshot ==> error == SessionError::Snapshot(words)
            &&& query is Restore ==> error == SessionError::Restore(words)
            &&& query is OutputFiles ==> error == SessionError::OutputFiles(words)
            &&& query is OutputPath ==> error == SessionError::OutputPath(words)
        }),
{
}

/// A resolver's text is the credential; anything else is none, and of an exception only the name
/// of its type is told.
pub proof fn law_resolver_reply(outcome: ResolverOutcome, reply: Result<String, String>)
    requires
        call_ensures(session::resolver_reply, (outcome,), reply),
    ensures
        outcome matches ResolverOutcome::Text(text) ==> reply == Ok::<String, String>(text),
        outcome is NotText ==> (reply matches Err(words) && words@
            == "credential resolver did not return a str"@),
        outcome matches ResolverOutcome::Raised(Some(name)) ==> (reply matches Err(words) && words@
            == "python resolver raised "@ + name@),
        outcome matches ResolverOutcome::Raised(None) ==> (reply matches Err(words) && words@
            == "python resolver raised "@ + "Exception"@),
{
}

/// A wrapped callable is called when the resolver is invoked, and what came of the call is the
/// reply.
pub proof fn law_wrapped_callable<C>(
    callable: C,
    resolver: &CallableResolver<C>,
    call: ResolverAction<'_, C>,
    outcome: ResolverOutcome,
    reply: ResolverAction<'_, C>,
)
    requires
        call_ensures(session::python_callable_to_resolver::<C>, (callable,), *resolver),
        call_ensures(CallableResolver::<C>::step, (resolver, ResolverEvent::Invoked), call),
        call_ensures(
            CallableResolver::<C>::step,
            (resolver, ResolverEvent::Returned(outcome)),
            reply,
        ),
    ensures
        call matches ResolverAction::Call(called) && *called == callable,
        reply is Reply,
        outcome matches ResolverOutcome::Text(text) ==> reply->Reply_0 == Ok::<String, String>(text),
        outcome is NotText ==> (reply->Reply_0 matches Err(words) && words@
            == "credential resolver did not return a str"@),
        outcome matches ResolverOutcome::Raised(Some(name)) ==> (reply->Reply_0 matches Err(words)
            && words@ == "python resolver raised "@ + name@),
        outcome matches ResolverOutcome::Raised(None) ==> (reply->Reply_0 matches Err(words)
            && words@ == "python resolver raised "@ + "Exception"@),
{
}

/// What the errors of a session read as.
pub proof fn law_session_messages(error: &SessionError, message: String)
    requires
        call_ensures(SessionError::message, (error,), message),
    ensures
        message@ == match *error {
            SessionError::ToolsClosed =>
                "Cannot register tools after sandbox has been initialized. Register all tools before the first run() call."@,
            SessionError::Size(words) => words@,
            SessionError::Registration(words) => words@,
            SessionError::Tools(words) => words@,
            SessionError::Create(words) => "Failed to create sandbox: "@ + words@,
            SessionError::Setup(words) => words@,
            SessionError::Execution(words) => "Execution failed: "@ + words@,
            SessionError::NotInitialized => "Sandbox not initialized"@,
            SessionError::Snapshot(words) => "Snapshot failed: "@ + words@,
            SessionError::Restore(words) => "Restore failed: "@ + words@,
            SessionError::OutputFiles(words) => "Failed to get output files: "@ + words@,
            SessionError::OutputPath(words) => "Failed to get output path: "@ + words@,
        },
{
}

} // verus!
