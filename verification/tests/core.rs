use blackhole::admission::{resolve_destination_name, EntryKind};
use blackhole::errors::{BlackholeError, InvalidReason};
use blackhole::manager::{Blackhole, CreateDirOutcome};
use blackhole::ops::{parse_operation, Operation};
use blackhole::paths::FsPath;
use blackhole::platform::Platform;

fn path(components: &[&str]) -> FsPath {
    FsPath::from_components(components.iter().map(|c| c.to_string()).collect())
}

fn strings(items: &[&str]) -> Vec<String> {
    items.iter().map(|s| s.to_string()).collect()
}

#[test]
fn fs_path_basics() {
    let mut p = path(&["/", "home", "user"]);
    assert_eq!(p.depth(), 3);
    assert_eq!(p.file_name(), Some(&"user".to_string()));
    p.push("BLACKHOLE".to_string());
    assert_eq!(p.depth(), 4);
    assert_eq!(p.file_name(), Some(&"BLACKHOLE".to_string()));
    let q = p.join(&"a.txt".to_string());
    assert_eq!(q.depth(), 5);
    assert_eq!(q.file_name(), Some(&"a.txt".to_string()));
    assert!(q.starts_with(&p));
    assert!(p.starts_with(&p));
    assert!(!p.starts_with(&q));
    assert!(FsPath::new().file_name().is_none());
    let r = q.clone();
    assert!(r.starts_with(&q) && q.starts_with(&r));
    assert_eq!(path(&["home", "user", "BLACKHOLE"]).render(), "home/user/BLACKHOLE");
    assert_eq!(FsPath::new().render(), "");
}

#[test]
fn resolve_prefers_override() {
    let over = path(&["/", "tmp", "hole"]);
    let home = path(&["/", "home", "user"]);
    let p = Blackhole::resolve(Some(over), Some(home)).unwrap();
    assert_eq!(p.file_name(), Some(&"hole".to_string()));
    assert_eq!(p.depth(), 3);
}

#[test]
fn resolve_appends_reserved_name_to_home() {
    let home = path(&["/", "home", "user"]);
    let p = Blackhole::resolve(None, Some(home)).unwrap();
    assert_eq!(p.depth(), 4);
    assert_eq!(p.file_name(), Some(&"BLACKHOLE".to_string()));
}

#[test]
fn resolve_without_any_source_is_a_configuration_error() {
    let r = Blackhole::resolve(None, None);
    match r {
        Err(BlackholeError::Configuration) => {}
        _ => panic!("expected a configuration error"),
    }
}

#[test]
fn new_prefers_the_override() {
    let over = path(&["/", "tmp", "hole"]);
    let hole = Blackhole::new(Some(over)).unwrap();
    assert_eq!(hole.path.file_name(), Some(&"hole".to_string()));
    assert_eq!(hole.path.depth(), 3);
}

#[test]
fn new_without_an_override_uses_the_reserved_name() {
    // Whether a home directory exists depends on the environment; when one
    // does, the folder carries the reserved name under it.
    if let Ok(hole) = Blackhole::new(None) {
        assert_eq!(hole.path.file_name(), Some(&"BLACKHOLE".to_string()));
    }
}

#[test]
fn initialize_treats_already_exists_as_success() {
    let hole = Blackhole { path: path(&["/", "home", "user", "BLACKHOLE"]) };
    assert!(hole.initialize(CreateDirOutcome::Created).is_ok());
    assert!(hole.initialize(CreateDirOutcome::AlreadyExisted).is_ok());
    // Running it twice in a row stays a success: nothing depends on history.
    assert!(hole.initialize(CreateDirOutcome::AlreadyExisted).is_ok());
    match hole.initialize(CreateDirOutcome::Failed) {
        Err(BlackholeError::Io { .. }) => {}
        _ => panic!("expected an io error"),
    }
}

#[test]
fn send_rejects_the_blackhole_itself() {
    let root = path(&["/", "home", "user", "BLACKHOLE"]);
    let hole = Blackhole { path: root.clone() };
    let r = hole.send(&root, EntryKind::Directory, &strings(&[]));
    match r {
        Err(BlackholeError::InvalidInput(InvalidReason::AlreadyInBlackhole)) => {}
        _ => panic!("expected the self-nesting rejection"),
    }
}

#[test]
fn send_rejects_paths_already_inside() {
    let root = path(&["/", "home", "user", "BLACKHOLE"]);
    let hole = Blackhole { path: root.clone() };
    let inside = root.join(&"old.txt".to_string());
    let r = hole.send(&inside, EntryKind::File, &strings(&["old.txt"]));
    match r {
        Err(BlackholeError::InvalidInput(InvalidReason::AlreadyInBlackhole)) => {}
        _ => panic!("expected the self-nesting rejection"),
    }
}

#[test]
fn send_rejects_missing_sources() {
    let hole = Blackhole { path: path(&["/", "home", "user", "BLACKHOLE"]) };
    let gone = path(&["/", "tmp", "gone.txt"]);
    let r = hole.send(&gone, EntryKind::Missing, &strings(&[]));
    match r {
        Err(BlackholeError::InvalidInput(InvalidReason::MissingSource)) => {}
        _ => panic!("expected the missing-source rejection"),
    }
}

#[test]
fn send_rejects_special_filesystem_objects() {
    let hole = Blackhole { path: path(&["/", "home", "user", "BLACKHOLE"]) };
    let device = path(&["/", "dev", "null"]);
    let r = hole.send(&device, EntryKind::Other, &strings(&[]));
    match r {
        Err(BlackholeError::InvalidInput(InvalidReason::NotFileOrDirectory)) => {}
        _ => panic!("expected the not-a-file rejection"),
    }
}

#[test]
fn send_plans_a_move_into_the_blackhole() {
    let root = path(&["/", "home", "user", "BLACKHOLE"]);
    let hole = Blackhole { path: root.clone() };
    let source = path(&["/", "tmp", "report.txt"]);
    let plan = hole.send(&source, EntryKind::File, &strings(&[])).unwrap();
    assert_eq!(plan.from.file_name(), Some(&"report.txt".to_string()));
    assert_eq!(plan.to.file_name(), Some(&"report.txt".to_string()));
    assert!(plan.to.starts_with(&root));
    assert_eq!(plan.to.depth(), 5);
}

#[test]
fn send_disambiguates_colliding_names() {
    let root = path(&["/", "home", "user", "BLACKHOLE"]);
    let hole = Blackhole { path: root.clone() };
    let source = path(&["/", "tmp", "report.txt"]);
    let plan = hole
        .send(&source, EntryKind::File, &strings(&["report.txt"]))
        .unwrap();
    assert_eq!(plan.to.file_name(), Some(&"report.txt (1)".to_string()));
    let plan2 = hole
        .send(
            &source,
            EntryKind::File,
            &strings(&["report.txt", "report.txt (1)"]),
        )
        .unwrap();
    assert_eq!(plan2.to.file_name(), Some(&"report.txt (2)".to_string()));
}

#[test]
fn probe_takes_the_first_free_disambiguator() {
    let existing = strings(&["a", "a (1)", "a (3)"]);
    let name = resolve_destination_name(&existing, &"a".to_string()).unwrap();
    assert_eq!(name, "a (2)");
    let free = resolve_destination_name(&strings(&[]), &"a".to_string()).unwrap();
    assert_eq!(free, "a");
}

#[test]
fn is_empty_sees_only_sidecar_files() {
    let hole = Blackhole { path: path(&["/", "h", "BLACKHOLE"]) };
    assert!(hole.is_empty(&strings(&[]), Platform::Windows));
    assert!(hole.is_empty(&strings(&["desktop.ini"]), Platform::Windows));
    assert!(!hole.is_empty(&strings(&["desktop.ini", "a.txt"]), Platform::Windows));
    assert!(hole.is_empty(&strings(&[".DS_Store", "Icon\r"]), Platform::MacOS));
    assert!(!hole.is_empty(&strings(&["desktop.ini"]), Platform::Other));
}

#[test]
fn parse_operation_shapes() {
    assert!(matches!(
        parse_operation(&strings(&[])),
        Some(Operation::Initialize)
    ));
    assert!(matches!(
        parse_operation(&strings(&["--purge"])),
        Some(Operation::Purge)
    ));
    match parse_operation(&strings(&["--send", "/tmp/x"])) {
        Some(Operation::SendTo(p)) => assert_eq!(p, "/tmp/x"),
        _ => panic!("expected a send operation"),
    }
    assert!(parse_operation(&strings(&["--send"])).is_none());
    assert!(parse_operation(&strings(&["--purge", "x"])).is_none());
    assert!(parse_operation(&strings(&["bogus"])).is_none());
    assert!(parse_operation(&strings(&["--send", "a", "b"])).is_none());
}
