use std::path::PathBuf;
use unikraft_sandbox::backend::{
    restore_done, snapshot_captured, BootPlan, ExecutionResult, GuestAction, GuestError, GuestEvent, RunOutput,
    Snapshot, Stage, Unikraft, UnikraftGolden, UnikraftGuestSandbox, DEFAULT_HEAP_SIZE,
    DEFAULT_STACK_SIZE,
};

/// A backend whose goldens are known by a number.
type Backend = Unikraft<u32>;

fn sandbox(backend: Backend) -> UnikraftGuestSandbox<u32> {
    match UnikraftGuestSandbox::new(backend, Ok(()), Vec::new()) {
        Ok(sandbox) => sandbox,
        Err(error) => panic!("{}", error.message()),
    }
}

fn output() -> RunOutput {
    RunOutput {
        stdout: "out".to_string(),
        stderr: "err".to_string(),
        exit_code: 7,
    }
}

fn done(action: GuestAction) -> ExecutionResult {
    match action {
        GuestAction::Done(result) => result,
        _ => panic!("not done"),
    }
}

#[test]
fn unikraft_defaults() {
    let u = Backend::new(PathBuf::from("k"));
    assert_eq!(u.heap_size, DEFAULT_HEAP_SIZE);
    assert_eq!(u.stack_size, DEFAULT_STACK_SIZE);
    assert!(u.initrd.is_none());
}

#[test]
fn unikraft_builder_overrides() {
    let u = Backend::new(PathBuf::from("kernel"))
        .initrd(PathBuf::from("rootfs.cpio"))
        .heap_size(64 << 20)
        .stack_size(4 << 20);
    assert_eq!(u.kernel, PathBuf::from("kernel"));
    assert_eq!(u.initrd, Some(PathBuf::from("rootfs.cpio")));
    assert_eq!(u.heap_size, 64 << 20);
    assert_eq!(u.stack_size, 4 << 20);
}

#[test]
fn default_sizes_have_their_values() {
    assert_eq!(DEFAULT_HEAP_SIZE, 536_870_912);
    assert_eq!(DEFAULT_STACK_SIZE, 8_388_608);
}

#[test]
fn mounts_are_kept_in_order() {
    let u = Backend::new(PathBuf::from("k"))
        .initrd_base(0xFEF0_0000)
        .mount(PathBuf::from("/a"), "/x".to_string())
        .mount(PathBuf::from("/b"), "/y".to_string());
    assert_eq!(u.initrd_base, Some(0xFEF0_0000));
    assert_eq!(
        u.mounts,
        vec![
            (PathBuf::from("/a"), "/x".to_string()),
            (PathBuf::from("/b"), "/y".to_string())
        ]
    );
    let copy = u.clone();
    assert_eq!(copy.mounts, u.mounts);
}

#[test]
fn golden_needs_no_kernel() {
    let golden = UnikraftGolden { snapshot: 7 };
    let u = Backend::from_golden(golden.clone());
    assert_eq!(u.kernel, PathBuf::new());
    assert_eq!(u.heap_size, DEFAULT_HEAP_SIZE);
    assert_eq!(u.golden.map(|g| g.snapshot), Some(7));
    assert_eq!(golden.snapshot, 7);
}

#[test]
fn golden_shows_nothing_of_its_snapshot() {
    let golden = UnikraftGolden { snapshot: "secret" };
    assert_eq!(format!("{golden:?}"), "UnikraftGolden { .. }");
    assert_eq!(format!("{golden:#?}"), "UnikraftGolden { .. }");
    let backend = Backend::from_golden(UnikraftGolden { snapshot: 7 });
    assert!(format!("{backend:?}").ends_with("golden: Some(UnikraftGolden { .. }) }"));
}

#[test]
fn golden_must_load() {
    let loaded = Backend::load_golden(Some(7));
    assert_eq!(loaded.ok().map(|g| g.snapshot), Some(7));
    let missing = Backend::load_golden(None);
    assert_eq!(
        missing.err().map(|e| e.message()),
        Some("failed to load golden snapshot directory".to_string())
    );
}

#[test]
fn missing_runtime_is_reported_before_mounts() {
    let made = UnikraftGuestSandbox::new(
        Backend::new(PathBuf::from("k")).mount(PathBuf::from("/a"), "/x".to_string()),
        Err("no runtime".to_string()),
        vec![Err("no dir".to_string())],
    );
    assert_eq!(made.err().map(|e| e.message()), Some("no runtime".to_string()));
}

#[test]
fn first_bad_mount_is_reported() {
    let made = UnikraftGuestSandbox::new(
        Backend::new(PathBuf::from("k"))
            .mount(PathBuf::from("/a"), "/x".to_string())
            .mount(PathBuf::from("/b"), "/y".to_string())
            .mount(PathBuf::from("/c"), "/z".to_string()),
        Ok(()),
        vec![
            Ok(PathBuf::from("/a")),
            Err("first".to_string()),
            Err("second".to_string()),
        ],
    );
    assert_eq!(made.err().map(|e| e.message()), Some("first".to_string()));
}

#[test]
fn cold_boot_takes_the_configuration() {
    let backend = Backend::new(PathBuf::from("k"))
        .initrd(PathBuf::from("i"))
        .heap_size(1)
        .stack_size(2)
        .initrd_base(0xFEF0_0000)
        .mount(PathBuf::from("a"), "/x".to_string())
        .mount(PathBuf::from("b"), "/y".to_string());
    let made = UnikraftGuestSandbox::new(
        backend,
        Ok(()),
        vec![Ok(PathBuf::from("/abs/a")), Ok(PathBuf::from("/abs/b"))],
    );
    let sandbox = made.ok().unwrap();
    match sandbox.evolve() {
        BootPlan::Cold { kernel, heap_size, stack_size, tools, initrd, initrd_base, preopens } => {
            assert_eq!(initrd_base, Some(0xFEF0_0000));
            assert_eq!(kernel, &PathBuf::from("k"));
            assert_eq!((heap_size, stack_size), (1, 2));
            assert_eq!(tools, ["call_tool", "read_file", "write_file", "fetch"]);
            assert_eq!(initrd, Some(&PathBuf::from("i")));
            let guests: Vec<&str> = preopens.iter().map(|m| m.guest_path.as_str()).collect();
            assert_eq!(guests, ["/x", "/y"]);
            let hosts: Vec<PathBuf> = preopens.iter().map(|m| m.host_dir.clone()).collect();
            assert_eq!(hosts, [PathBuf::from("/abs/a"), PathBuf::from("/abs/b")]);
        }
        BootPlan::Golden { .. } => panic!("golden"),
    }
}

#[test]
fn golden_goes_before_kernel() {
    let backend = Backend::from_golden(UnikraftGolden { snapshot: 7 })
        .initrd(PathBuf::from("i"));
    match sandbox(backend).evolve() {
        BootPlan::Golden { golden, preopens, initrd } => {
            assert_eq!(golden.snapshot, 7);
            assert!(preopens.is_empty());
            assert_eq!(initrd, Some(&PathBuf::from("i")));
        }
        BootPlan::Cold { .. } => panic!("cold"),
    }
}

#[test]
fn guest_boots_once() {
    let mut sandbox = sandbox(Backend::new(PathBuf::from("k")));
    assert!(sandbox.stage() == Stage::Idle);
    assert!(matches!(sandbox.advance(GuestEvent::Run("code".to_string())), GuestAction::Boot));
    assert!(matches!(
        sandbox.advance(GuestEvent::Booted(true)),
        GuestAction::ClearOutput
    ));
    match sandbox.advance(GuestEvent::Cleared) {
        GuestAction::RunCode(code) => assert_eq!(code, "code"),
        _ => panic!("no code is delivered"),
    }
    let result = done(sandbox.advance(GuestEvent::Ran(Ok(output()))));
    assert_eq!(result.stdout, "out");
    assert_eq!(result.stderr, "err");
    assert_eq!(result.exit_code, 7);
    assert!(sandbox.stage() == Stage::Idle);
    assert!(matches!(
        sandbox.advance(GuestEvent::Run("other code".to_string())),
        GuestAction::ClearOutput
    ));
    match sandbox.advance(GuestEvent::Cleared) {
        GuestAction::RunCode(code) => assert_eq!(code, "other code"),
        _ => panic!("no code is delivered"),
    }
}

#[test]
fn trap_is_a_result() {
    let mut sandbox = sandbox(Backend::new(PathBuf::from("k")));
    sandbox.advance(GuestEvent::Run("code".to_string()));
    sandbox.advance(GuestEvent::Booted(true));
    sandbox.advance(GuestEvent::Cleared);
    let result = done(sandbox.advance(GuestEvent::Ran(Err("trap".to_string()))));
    assert_eq!(result.stdout, "");
    assert_eq!(result.stderr, "trap");
    assert_eq!(result.exit_code, -1);
}

#[test]
fn failed_boot_is_tried_again() {
    let mut cold = sandbox(Backend::new(PathBuf::from("k")));
    cold.advance(GuestEvent::Run("code".to_string()));
    match cold.advance(GuestEvent::Booted(false)) {
        GuestAction::Fail(error) => assert_eq!(error.message(), "failed to boot Unikraft VM"),
        _ => panic!("no failure"),
    }
    assert!(matches!(cold.advance(GuestEvent::Run("code".to_string())), GuestAction::Boot));

    let golden = UnikraftGolden { snapshot: 7 };
    let mut warm = sandbox(Backend::from_golden(golden));
    warm.advance(GuestEvent::Run("code".to_string()));
    match warm.advance(GuestEvent::Booted(false)) {
        GuestAction::Fail(error) => assert_eq!(
            error.message(),
            "failed to create Unikraft VM from golden snapshot"
        ),
        _ => panic!("no failure"),
    }
}

#[test]
fn snapshot_and_restore_need_a_run() {
    let mut sandbox = sandbox(Backend::new(PathBuf::from("k")));
    let snapshot = Snapshot { backend: String::new() };
    assert_eq!(
        sandbox.snapshot().err().map(|e| e.message()),
        Some("snapshot() called before any run()".to_string())
    );
    assert_eq!(
        sandbox.restore(&snapshot).err().map(|e| e.message()),
        Some("restore() called before any run()".to_string())
    );
    sandbox.advance(GuestEvent::Run("code".to_string()));
    sandbox.advance(GuestEvent::Booted(true));
    assert!(sandbox.snapshot().is_ok());
    assert!(sandbox.restore(&snapshot).is_ok());
}

#[test]
fn snapshot_names_its_backend() {
    let taken = snapshot_captured(true);
    assert_eq!(taken.ok().map(|s| s.backend), Some("hyperlight-unikraft".to_string()));
    assert_eq!(
        snapshot_captured(false).err().map(|e| e.message()),
        Some("failed to capture snapshot".to_string())
    );
    assert!(restore_done(true).is_ok());
    assert!(matches!(
        restore_done(false),
        Err(GuestError::Restore)
    ));
    assert_eq!(GuestError::Restore.message(), "failed to restore snapshot");
}
