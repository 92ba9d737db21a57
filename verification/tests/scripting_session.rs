use std::path::PathBuf;
use unikraft_sandbox::backend::{ExecutionResult, DEFAULT_HEAP_SIZE, DEFAULT_STACK_SIZE};
use unikraft_sandbox::session::{
    python_callable_to_resolver, query_outcome, resolver_reply, OutputChoice, Query,
    ResolverAction, ResolverEvent, ResolverOutcome, SessionAction, SessionError, SessionEvent, SessionStage, UnikraftSandbox,
};
use unikraft_sandbox::table::Table;

type Session = UnikraftSandbox<u32, u8>;

fn session() -> Session {
    open(None, None).ok().unwrap()
}

fn open(
    heap: Option<Result<u64, String>>,
    stack: Option<Result<u64, String>>,
) -> Result<Session, SessionError> {
    Session::new("kernel", Some("initrd"), Some(9), None, None, false, heap, stack)
}

fn result() -> ExecutionResult {
    ExecutionResult {
        stdout: "o".to_string(),
        stderr: "e".to_string(),
        exit_code: 3,
    }
}

fn name(action: &SessionAction<u8>) -> String {
    match action {
        SessionAction::BuildTools => "tools".to_string(),
        SessionAction::BuildSandbox => "sandbox".to_string(),
        SessionAction::AllowDomain(rule) => format!("allow {}", rule.target),
        SessionAction::RegisterCredential(credential) => format!("credential {}", credential.id),
        SessionAction::RunCode(code) => {
            assert_eq!(code, "code");
            "run".to_string()
        }
        SessionAction::Done(result) => format!("done {}", result.exit_code),
        SessionAction::Fail(error) => format!("fail {}", error.message()),
    }
}

fn step(session: &mut Session, event: SessionEvent<u32>) -> String {
    name(&session.advance(event))
}

/// Registers two permissions and two credentials.
fn prepared() -> Session {
    let mut session = session();
    assert!(session.allow_domain("a.example", None).is_none());
    assert!(session
        .register_credential("c1", "a.example", "authorization", "Bearer ", 1)
        .is_none());
    assert!(session
        .allow_domain("b.example", Some(vec!["GET".to_string()]))
        .is_none());
    assert!(session.register_credential("c2", "b.example", "x-key", "", 2).is_none());
    session
}

fn initialized() -> Session {
    let mut session = session();
    assert_eq!(step(&mut session, SessionEvent::Run("code".to_string())), "tools");
    let tools = session.take_tools();
    step(&mut session, SessionEvent::ToolsBuilt(tools, Ok(())));
    assert_eq!(step(&mut session, SessionEvent::SandboxBuilt(Ok(()))), "run");
    assert_eq!(step(&mut session, SessionEvent::Ran(Ok(result()))), "done 3");
    session
}

#[test]
fn setup_applies_everything_in_order() {
    let mut session = prepared();
    assert_eq!(step(&mut session, SessionEvent::Run("code".to_string())), "tools");
    assert_eq!(step(&mut session, SessionEvent::ToolsBuilt(Table::new(), Ok(()))), "sandbox");
    assert_eq!(step(&mut session, SessionEvent::SandboxBuilt(Ok(()))), "allow a.example");
    match session.advance(SessionEvent::DomainAllowed(Ok(()))) {
        SessionAction::AllowDomain(rule) => {
            assert_eq!(rule.target, "b.example");
            assert_eq!(rule.methods, Some(vec!["GET".to_string()]));
        }
        other => panic!("{}", name(&other)),
    }
    match session.advance(SessionEvent::DomainAllowed(Ok(()))) {
        SessionAction::RegisterCredential(credential) => {
            assert_eq!(credential.id, "c1");
            assert_eq!(credential.target, "a.example");
            assert_eq!(credential.header, "authorization");
            assert_eq!(credential.prefix, "Bearer ");
            assert_eq!(credential.resolver, 1);
        }
        other => panic!("{}", name(&other)),
    }
    assert_eq!(step(&mut session, SessionEvent::CredentialRegistered(Ok(()))), "credential c2");
    assert!(session.check_initialized().is_err());
    assert!(session.stage() == SessionStage::Registering);
    assert_eq!(step(&mut session, SessionEvent::CredentialRegistered(Ok(()))), "run");
    assert!(session.check_initialized().is_ok());
    assert_eq!(step(&mut session, SessionEvent::Ran(Ok(result()))), "done 3");
    assert_eq!(step(&mut session, SessionEvent::Run("code".to_string())), "run");
}

#[test]
fn refused_permission_drops_the_permissions_and_keeps_the_credentials() {
    let mut session = prepared();
    step(&mut session, SessionEvent::Run("code".to_string()));
    step(&mut session, SessionEvent::ToolsBuilt(Table::new(), Ok(())));
    step(&mut session, SessionEvent::SandboxBuilt(Ok(())));
    assert_eq!(
        step(&mut session, SessionEvent::DomainAllowed(Err("bad target".to_string()))),
        "fail bad target"
    );
    assert!(session.check_initialized().is_err());
    assert_eq!(step(&mut session, SessionEvent::Run("code".to_string())), "tools");
    step(&mut session, SessionEvent::ToolsBuilt(Table::new(), Ok(())));
    assert_eq!(step(&mut session, SessionEvent::SandboxBuilt(Ok(()))), "credential c1");
    assert_eq!(
        step(&mut session, SessionEvent::CredentialRegistered(Err("bad id".to_string()))),
        "fail bad id"
    );
    step(&mut session, SessionEvent::Run("code".to_string()));
    step(&mut session, SessionEvent::ToolsBuilt(Table::new(), Ok(())));
    assert_eq!(step(&mut session, SessionEvent::SandboxBuilt(Ok(()))), "run");
}

#[test]
fn failed_build_keeps_what_was_registered() {
    let mut session = prepared();
    step(&mut session, SessionEvent::Run("code".to_string()));
    assert_eq!(
        step(
            &mut session,
            SessionEvent::ToolsBuilt(Table::new(), Err("bad tool".to_string()))
        ),
        "fail bad tool"
    );
    step(&mut session, SessionEvent::Run("code".to_string()));
    step(&mut session, SessionEvent::ToolsBuilt(Table::new(), Ok(())));
    assert_eq!(
        step(&mut session, SessionEvent::SandboxBuilt(Err("no kernel".to_string()))),
        "fail Failed to create sandbox: no kernel"
    );
    step(&mut session, SessionEvent::Run("code".to_string()));
    step(&mut session, SessionEvent::ToolsBuilt(Table::new(), Ok(())));
    assert_eq!(step(&mut session, SessionEvent::SandboxBuilt(Ok(()))), "allow a.example");
}

#[test]
fn failed_run_leaves_the_sandbox() {
    let mut session = initialized();
    step(&mut session, SessionEvent::Run("code".to_string()));
    assert_eq!(
        step(&mut session, SessionEvent::Ran(Err("no VM".to_string()))),
        "fail Execution failed: no VM"
    );
    assert!(session.check_initialized().is_ok());
}

#[test]
fn tools_are_registered_before_the_first_run() {
    let mut session = session();
    assert!(session.register_tool(Ok(("add".to_string(), 1))).is_ok());
    assert!(session.register_tool(Ok(("sub".to_string(), 2))).is_ok());
    assert!(session.register_tool(Ok(("add".to_string(), 3))).is_ok());
    assert_eq!(
        session
            .register_tool(Err("needs a callback".to_string()))
            .err()
            .map(|e| e.message()),
        Some("needs a callback".to_string())
    );
    session.advance(SessionEvent::Run("code".to_string()));
    let tools = session.take_tools();
    assert_eq!(tools.len(), 2);
    assert_eq!(tools.get("add"), Some(&3));
    assert_eq!(tools.get("sub"), Some(&2));
    assert!(session.take_tools().is_empty());
}

#[test]
fn tools_are_closed_after_the_first_run() {
    let mut session = initialized();
    assert_eq!(
        session.register_tool(Err("ignored".to_string())).err().map(|e| e.message()),
        Some(
            "Cannot register tools after sandbox has been initialized. Register all tools before \
             the first run() call."
                .to_string()
        )
    );
}

#[test]
fn registrations_go_straight_through_after_the_first_run() {
    let mut session = initialized();
    let rule = session.allow_domain("a.example", None).unwrap();
    assert_eq!(rule.target, "a.example");
    assert!(rule.methods.is_none());
    let credential = session.register_credential("c", "t", "h", "p", 5).unwrap();
    assert_eq!(credential.resolver, 5);
    assert_eq!(step(&mut session, SessionEvent::Run("code".to_string())), "run");
}

#[test]
fn guest_takes_the_sizes_given() {
    let guest = open(Some(Ok(1280)), None).ok().unwrap().guest::<u32>();
    assert_eq!(guest.kernel, PathBuf::from("kernel"));
    assert_eq!(guest.initrd, Some(PathBuf::from("initrd")));
    assert_eq!(guest.initrd_base, Some(9));
    assert_eq!(guest.heap_size, 1280);
    assert_eq!(guest.stack_size, DEFAULT_STACK_SIZE);
    assert!(guest.golden.is_none());
    assert_eq!(session().guest::<u32>().heap_size, DEFAULT_HEAP_SIZE);
    assert_eq!(open(None, Some(Ok(4))).ok().unwrap().guest::<u32>().stack_size, 4);
}

#[test]
fn bad_heap_size_is_reported_before_bad_stack_size() {
    let bad = |words: &str| Some(Err(words.to_string()));
    assert_eq!(
        open(bad("heap"), bad("stack")).err().map(|e| e.message()),
        Some("heap".to_string())
    );
    assert_eq!(
        open(Some(Ok(1)), bad("stack")).err().map(|e| e.message()),
        Some("stack".to_string())
    );
}

#[test]
fn output_directory_goes_before_a_temporary_one() {
    let open = |dir: Option<&str>, temp: bool| {
        Session::new("k", None, None, Some("/in"), dir, temp, None, None).ok().unwrap()
    };
    match open(Some("/o"), true).output() {
        OutputChoice::Directory { path, dirs, files } => {
            assert_eq!(path, "/o");
            assert!(dirs.read && dirs.mutate);
            assert!(files.read && files.write);
        }
        _ => panic!("no directory"),
    }
    assert!(matches!(open(None, true).output(), OutputChoice::Temporary));
    assert!(matches!(open(None, false).output(), OutputChoice::Nowhere));
    assert_eq!(open(None, false).input_dir(), Some("/in"));
    assert_eq!(session().input_dir(), None);
}

#[test]
fn queries_need_the_sandbox() {
    assert_eq!(
        session().check_initialized().err().map(|e| e.message()),
        Some("Sandbox not initialized".to_string())
    );
    assert!(initialized().check_initialized().is_ok());
}

#[test]
fn failed_queries_say_what_failed() {
    let fail = |query: Query| {
        query_outcome::<()>(query, Err("x".to_string())).err().map(|e| e.message()).unwrap()
    };
    assert_eq!(fail(Query::Snapshot), "Snapshot failed: x");
    assert_eq!(fail(Query::Restore), "Restore failed: x");
    assert_eq!(fail(Query::OutputFiles), "Failed to get output files: x");
    assert_eq!(fail(Query::OutputPath), "Failed to get output path: x");
    assert_eq!(query_outcome(Query::Snapshot, Ok(4)).ok(), Some(4));
}

#[test]
fn resolver_tells_the_type_of_an_exception_only() {
    assert_eq!(
        resolver_reply(ResolverOutcome::Text("secret".to_string())),
        Ok("secret".to_string())
    );
    assert_eq!(
        resolver_reply(ResolverOutcome::NotText),
        Err("credential resolver did not return a str".to_string())
    );
    assert_eq!(
        resolver_reply(ResolverOutcome::Raised(Some("ValueError".to_string()))),
        Err("python resolver raised ValueError".to_string())
    );
    assert_eq!(
        resolver_reply(ResolverOutcome::Raised(None)),
        Err("python resolver raised Exception".to_string())
    );
}

#[test]
fn each_invocation_calls_once() {
    let resolver = python_callable_to_resolver("callable");
    let mut calls = 0;
    for _ in 0..3 {
        match resolver.step(ResolverEvent::Invoked) {
            ResolverAction::Call(callable) => assert_eq!(*callable, "callable"),
            ResolverAction::Reply(_) => panic!("a reply without a call"),
        }
        calls += 1;
        let returned = ResolverOutcome::Text(format!("secret {calls}"));
        match resolver.step(ResolverEvent::Returned(returned)) {
            ResolverAction::Reply(reply) => assert_eq!(reply, Ok(format!("secret {calls}"))),
            ResolverAction::Call(_) => panic!("a second call"),
        }
    }
}
