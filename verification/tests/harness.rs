use bitfield::manifest::Edition;
use bitfield::normalize::{diagnostics, keep, replace_crlf, trim};
use bitfield::runner::{build_dependencies, Error, Expected, Project, Test, TestCases};
use bitfield::term::{bold, bold_color, color, reset, Color, Style};

#[test]
fn trim_drops_trailing_whitespace() {
    assert_eq!(trim("hello  \n\t "), "hello\n");
    assert_eq!(trim("hello"), "hello\n");
    assert_eq!(trim(""), "");
    assert_eq!(trim(" \n \t"), "");
    assert_eq!(trim("a\nb\n"), "a\nb\n");
}

#[test]
fn replace_crlf_unifies_line_endings() {
    assert_eq!(replace_crlf("a\r\nb\r\n"), "a\nb\n");
    assert_eq!(replace_crlf("a\rb"), "a\rb");
    assert_eq!(replace_crlf("\r\r\n"), "\r\n");
    assert_eq!(replace_crlf(""), "");
}

#[test]
fn keep_filters_boilerplate() {
    assert!(keep("error[E0308]: mismatched types"));
    assert!(!keep("  --> src/main.rs:1:1"));
    assert!(!keep("error: aborting due to previous error"));
    assert!(!keep("To learn more, run the command again with --verbose."));
    assert!(keep(""));
}

#[test]
fn diagnostics_normalizes_output() {
    let raw = "error: something failed\r\n  --> src/lib.rs:3:7\r\n\r\n\r\nnote: more\r\n";
    assert_eq!(diagnostics(raw), "error: something failed\n\nnote: more\n");
    assert_eq!(diagnostics(""), "");
    assert_eq!(
        diagnostics("error: aborting due to previous error\n"),
        ""
    );
}

#[test]
fn progress_tests() {
    let mut t = TestCases::new();
    t.pass("tests/01-specifier-types.rs");
    t.pass("tests/02-storage.rs");
    t.pass("tests/03-accessors.rs");
    t.compile_fail("tests/04-multiple-of-8bits.rs");
    t.pass("tests/05-accessor-signatures.rs");
    t.pass("tests/06-enums.rs");
    t.pass("tests/07-optional-discriminant.rs");
    t.compile_fail("tests/08-non-power-of-two.rs");
    t.compile_fail("tests/09-variant-out-of-range.rs");
    t.pass("tests/10-bits-attribute.rs");
    t.compile_fail("tests/11-bits-attribute-wrong.rs");
    t.pass("tests/12-accessors-edge.rs");

    let tests = &t.runner().tests;
    assert_eq!(tests.len(), 12);
    assert_eq!(tests[0].path, "tests/01-specifier-types.rs");
    assert_eq!(tests[0].expected, Expected::Pass);
    assert_eq!(tests[3].expected, Expected::CompileFail);
    assert_eq!(tests[11].path, "tests/12-accessors-edge.rs");
}

#[test]
fn test_names_from_paths() {
    let t = Test { path: "tests/01-parse.rs".to_string(), expected: Expected::Pass };
    assert_eq!(t.name(), "01_parse");
    let t2 = Test { path: "a-b/c-d.e.rs".to_string(), expected: Expected::Pass };
    assert_eq!(t2.name(), "c_d.e");
    let t3 = Test { path: "noext".to_string(), expected: Expected::Pass };
    assert_eq!(t3.name(), "noext");
    let t4 = Test { path: ".hidden".to_string(), expected: Expected::Pass };
    assert_eq!(t4.name(), ".hidden");
}

#[test]
fn pass_decisions() {
    let t = Test { path: "t.rs".to_string(), expected: Expected::Pass };
    assert_eq!(t.check_pass(false, false), Err(Error::CargoFail));
    assert_eq!(t.check_pass(true, false), Err(Error::RunFailed));
    assert_eq!(t.check_pass(true, true), Ok(()));
}

#[test]
fn compile_fail_decisions() {
    let t = Test { path: "t.rs".to_string(), expected: Expected::CompileFail };
    let stderr = "error: no\n".to_string();
    assert_eq!(
        t.check_compile_fail(true, &stderr, None),
        Err(Error::ShouldNotHaveCompiled)
    );
    // No recorded expectation: the observed output is accepted to be saved.
    assert_eq!(t.check_compile_fail(false, &stderr, None), Ok(()));
    let expected_unix = "error: no\n".to_string();
    let expected_windows = "error: no\r\n".to_string();
    let expected_other = "error: yes\n".to_string();
    assert_eq!(t.check_compile_fail(false, &stderr, Some(&expected_unix)), Ok(()));
    assert_eq!(t.check_compile_fail(false, &stderr, Some(&expected_windows)), Ok(()));
    assert_eq!(
        t.check_compile_fail(false, &stderr, Some(&expected_other)),
        Err(Error::Mismatch)
    );
}

#[test]
fn manifest_for_recorded_tests() {
    let mut t = TestCases::new();
    t.pass("tests/01-parse.rs");
    t.compile_fail("tests/02-broken.rs");
    let project = Project {
        dir: "target/tests".to_string(),
        target_dir: "target".to_string(),
        name: "builder-tests".to_string(),
    };
    let m = t.runner().make_manifest("builder".to_string(), &project, "../../builder");
    assert_eq!(m.package.name, "builder-tests");
    assert_eq!(m.package.version, "0.0.0");
    assert_eq!(m.package.edition, Edition::E2018);
    assert!(!m.package.publish);
    assert_eq!(m.dependencies.len(), 1);
    assert_eq!(m.dependencies[0].0, "builder");
    assert_eq!(m.dependencies[0].1.path.as_deref(), Some("../../builder"));
    assert_eq!(m.dependencies[0].1.version, None);
    assert_eq!(m.bins.len(), 3);
    assert_eq!(m.bins[0].name, "builder-tests");
    assert_eq!(m.bins[0].path, "main.rs");
    assert_eq!(m.bins[1].name, "01_parse");
    assert_eq!(m.bins[1].path, "../../builder/tests/01-parse.rs");
    assert_eq!(m.bins[2].name, "02_broken");
    assert_eq!(m.bins[2].path, "../../builder/tests/02-broken.rs");
}

#[test]
fn config_silences_lints() {
    let t = TestCases::new();
    let c = t.runner().make_config();
    assert_eq!(c.build.rustflags, vec!["-A".to_string(), "dead_code".to_string()]);
}

#[test]
fn dependency_build_decision() {
    assert_eq!(build_dependencies(true), Ok(()));
    assert_eq!(build_dependencies(false), Err(Error::CargoFail));
}

#[test]
fn already_printed_errors() {
    assert!(Error::CargoFail.already_printed());
    assert!(Error::Mismatch.already_printed());
    assert!(Error::ShouldNotHaveCompiled.already_printed());
    assert!(!Error::RunFailed.already_printed());
    assert!(!Error::Open("x.rs".to_string()).already_printed());
}

#[test]
fn terminal_styles() {
    assert_eq!(bold(), Style { bold: true, fg: None });
    assert_eq!(color(Color::Green), Style { bold: false, fg: Some(Color::Green) });
    assert_eq!(bold_color(Color::Red), Style { bold: true, fg: Some(Color::Red) });
    assert_eq!(reset(), Style { bold: false, fg: None });
}
