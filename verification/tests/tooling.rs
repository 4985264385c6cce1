use std::cmp::Ordering;

use bitfield::bounds::Bounds;
use bitfield::command::Command;
use bitfield::sorted::{cmp, error, probably_has_spans, sorted, Kind, Path};

#[test]
fn bounds_values() {
    assert_eq!(Bounds::Exclusive(0, 3).values(), vec![0, 1, 2]);
    assert_eq!(Bounds::Inclusive(0, 3).values(), vec![0, 1, 2, 3]);
    assert_eq!(Bounds::Exclusive(5, 5).values(), vec![]);
    assert_eq!(Bounds::Inclusive(5, 5).values(), vec![5]);
    assert_eq!(Bounds::Exclusive(7, 3).values(), vec![]);
    assert_eq!(
        Bounds::Inclusive(u64::MAX - 2, u64::MAX).values(),
        vec![u64::MAX - 2, u64::MAX - 1, u64::MAX]
    );
}

#[test]
fn command_builder_collects_parts() {
    let command = Command::builder()
        .executable("cargo".to_string())
        .arg("build".to_string())
        .arg("--release".to_string())
        .env("RUSTFLAGS=-g".to_string())
        .current_dir("..".to_string())
        .build()
        .unwrap();
    assert_eq!(command.executable, "cargo");
    assert_eq!(command.args, vec!["build".to_string(), "--release".to_string()]);
    assert_eq!(command.env, vec!["RUSTFLAGS=-g".to_string()]);
    assert_eq!(command.current_dir.as_deref(), Some(".."));
}

#[test]
fn command_builder_requires_executable() {
    let r = Command::builder().arg("build".to_string()).build();
    assert_eq!(r.unwrap_err(), "Error: field 'executable' haven't been set.");
}

#[test]
fn ident_ordering() {
    assert_eq!(cmp("a", "b"), Ordering::Less);
    assert_eq!(cmp("B", "a"), Ordering::Greater);
    assert_eq!(cmp("B", "c"), Ordering::Less);
    assert_eq!(cmp("abc", "abc"), Ordering::Equal);
    assert_eq!(cmp("abc", "abcd"), Ordering::Less);
    // The wildcard sorts last.
    assert_eq!(cmp("_", "zzz"), Ordering::Greater);
    assert_eq!(cmp("zzz", "_"), Ordering::Less);
    assert_eq!(cmp("_", "_"), Ordering::Equal);
}

fn path(segments: &[&str]) -> Path {
    Path { segments: segments.iter().map(|s| s.to_string()).collect() }
}

#[test]
fn path_ordering() {
    assert_eq!(path(&["io", "Error"]).cmp(&path(&["io", "Read"])), Ordering::Less);
    assert_eq!(path(&["io"]).cmp(&path(&["io", "Read"])), Ordering::Less);
    assert_eq!(path(&["net"]).cmp(&path(&["io", "Read"])), Ordering::Greater);
    assert_eq!(path(&["io", "Read"]).cmp(&path(&["io", "Read"])), Ordering::Equal);
}

#[test]
fn sorted_accepts_ordered_paths() {
    let paths = vec![path(&["Bug"]), path(&["Fmt"]), path(&["Io"]), path(&["_"])];
    assert_eq!(sorted(&paths), Ok(()));
    assert_eq!(sorted(&vec![]), Ok(()));
    assert_eq!(sorted(&vec![path(&["Only"])]), Ok(()));
}

#[test]
fn sorted_reports_first_misplacement() {
    let paths = vec![path(&["Fmt"]), path(&["Io"]), path(&["Bug"])];
    assert_eq!(
        sorted(&paths).unwrap_err(),
        "Bug should sort before Fmt"
    );
    let qualified = vec![path(&["io", "Write"]), path(&["io", "Read"])];
    assert_eq!(
        sorted(&qualified).unwrap_err(),
        "io::Read should sort before io::Write"
    );
}

#[test]
fn error_message_renders_paths() {
    assert_eq!(
        error(&path(&["a", "b"]), &path(&["c"])),
        "a::b should sort before c"
    );
}

#[test]
fn span_availability() {
    assert!(probably_has_spans(Kind::Enum));
    assert!(!probably_has_spans(Kind::Match));
    assert!(!probably_has_spans(Kind::Let));
}
