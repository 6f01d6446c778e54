use obsessed::check_file_pair::GlobalOpts;
use obsessed::drift::{hash_file_step, HashAction};
use obsessed::error::PairError;
use obsessed::pairing::{collect_missing, pairing_outcome, resolve_pairs, PairReport};
use obsessed::paths::{file_name, join_path, relative_directory, split_name};
use obsessed::preferred_suffix::{command, CommandArgs};
use obsessed::template::{expected_path, render};
use obsessed::text::{decimal_string, hex_string};
use obsessed::vars::{file_variables, PairContext, VarMap};

fn ctx() -> PairContext {
    PairContext {
        cwd: "/work".to_string(),
        from: "/work/src".to_string(),
        to: "/work/tests".to_string(),
    }
}

fn strings(v: &[&str]) -> Vec<String> {
    v.iter().map(|s| s.to_string()).collect()
}

#[test]
fn path_parts() {
    assert_eq!(file_name("/a/b/c.tar.gz"), "c.tar.gz");
    assert_eq!(file_name("plain"), "plain");
    assert_eq!(
        split_name("c.tar.gz"),
        Some(("c.tar".to_string(), "gz".to_string()))
    );
    assert_eq!(split_name(".bashrc"), None);
    assert_eq!(split_name("Makefile"), None);
    assert_eq!(split_name(".."), None);
    assert_eq!(join_path("/a", "b/*.py"), "/a/b/*.py");
    assert_eq!(join_path("/a/", "b"), "/a/b");
    assert_eq!(join_path("/a", "/abs"), "/abs");
    assert_eq!(relative_directory("/a/b/c.py", "/a"), Some("b".to_string()));
    assert_eq!(relative_directory("/a/c.py", "/a/"), Some(".".to_string()));
    assert_eq!(relative_directory("/ab/c.py", "/a"), None);
}

#[test]
fn relative_from_is_dot_for_top_level_file() {
    let vars = file_variables("/work/src/main.py", &ctx(), &None).unwrap();
    assert_eq!(vars.get("relative_from"), Some(".".to_string()));
    assert_eq!(vars.get("filename"), Some("main.py".to_string()));
    assert_eq!(vars.get("stem"), Some("main".to_string()));
    assert_eq!(vars.get("extension"), Some("py".to_string()));
    assert_eq!(vars.get("to"), Some("/work/tests".to_string()));
    assert_eq!(vars.get("nothing"), None);
    let nested = file_variables("/work/src/utils/slack/template.py", &ctx(), &None).unwrap();
    assert_eq!(nested.get("relative_from"), Some("utils/slack".to_string()));
}

#[test]
fn regex_group_overrides_filename() {
    let re = Some("^test_(?P<filename>.*)$".to_string());
    let vars = file_variables("/work/src/test_main.py", &ctx(), &re).unwrap();
    assert_eq!(vars.get("filename"), Some("main.py".to_string()));
    assert_eq!(vars.get("stem"), Some("test_main".to_string()));
}

#[test]
fn regex_that_does_not_match_is_an_error() {
    let re = Some("^test_(?P<filename>.*)$".to_string());
    let r = file_variables("/work/src/main.py", &ctx(), &re);
    assert_eq!(r.err(), Some(PairError::FilenameNotMatched("main.py".to_string())));
}

#[test]
fn refused_regex_is_invalid_input() {
    let re = Some("(".to_string());
    let r = resolve_pairs(&vec![], &ctx(), "{to}/{filename}", &re);
    assert!(matches!(r, Err(PairError::InvalidInput(_))));
}

#[test]
fn file_without_extension_is_missing_component() {
    let r = file_variables("/work/src/Makefile", &ctx(), &None);
    assert_eq!(
        r.err(),
        Some(PairError::MissingPathComponent("/work/src/Makefile".to_string()))
    );
    let r = file_variables("/elsewhere/main.py", &ctx(), &None);
    assert_eq!(
        r.err(),
        Some(PairError::MissingPathComponent("/elsewhere/main.py".to_string()))
    );
}

#[test]
fn render_substitutes_and_rejects_unknown_names() {
    let mut vars = VarMap::new();
    vars.insert("a".to_string(), "x".to_string());
    vars.insert("a".to_string(), "y".to_string());
    assert_eq!(render("p/{a}/q", &vars), Ok("p/y/q".to_string()));
    assert_eq!(render("plain", &vars), Ok("plain".to_string()));
    assert_eq!(
        render("x/{a}/{b}", &vars),
        Err(PairError::UnknownVariable("Invalid key: b".to_string()))
    );
    assert!(matches!(render("{a", &vars), Err(PairError::InvalidInput(_))));
}

#[test]
fn expected_path_default_template() {
    let r = expected_path(
        "/work/src/utils/logger.py",
        &ctx(),
        "{to}/{relative_from}/{filename}",
        &None,
    );
    assert_eq!(r, Ok("/work/tests/utils/logger.py".to_string()));
}

#[test]
fn one_missing_file_scenario() {
    let files = strings(&["/work/src/main.py"]);
    let expected = resolve_pairs(&files, &ctx(), "{to}/test_{filename}", &None).unwrap();
    assert_eq!(expected, strings(&["/work/tests/test_main.py"]));
    let missing = collect_missing(&expected, &vec![false]);
    assert_eq!(missing, strings(&["/work/tests/test_main.py"]));
    let outcome = pairing_outcome(missing, false, false);
    assert_eq!(outcome.report, PairReport::Missing(1));
    assert_eq!(outcome.report.exit_code(), 1);
    assert!(outcome.report.message().contains("There are 1 missing files"));
    assert!(outcome.to_create.is_empty());
}

#[test]
fn all_absent_reports_every_candidate() {
    let expected = strings(&["/t/a.py", "/t/b.py", "/t/c.py", "/t/d.py"]);
    let missing = collect_missing(&expected, &vec![false; 4]);
    let outcome = pairing_outcome(missing, false, false);
    assert_eq!(outcome.report, PairReport::Missing(4));
    assert_eq!(outcome.report.to_error(), Some(PairError::MissingPairs(4)));
    assert_eq!(
        outcome.report.message(),
        "There are 4 missing files. Use `--create-if-not-exists` to create them."
    );
    assert_ne!(outcome.report.exit_code(), 0);
}

#[test]
fn create_then_second_run_succeeds() {
    let expected = strings(&["/t/a.py", "/t/b.py", "/t/c.py"]);
    let first = pairing_outcome(collect_missing(&expected, &vec![true, false, false]), true, false);
    assert_eq!(first.report, PairReport::Created(2));
    assert_eq!(first.report.message(), "Created 2 missing files.");
    assert_eq!(first.report.exit_code(), 1);
    assert_eq!(first.to_create, strings(&["/t/b.py", "/t/c.py"]));
    let exists: Vec<bool> = expected
        .iter()
        .map(|p| p == "/t/a.py" || first.to_create.contains(p))
        .collect();
    let second = pairing_outcome(collect_missing(&expected, &exists), false, false);
    assert_eq!(second.report, PairReport::AllPresent);
    assert_eq!(second.report.exit_code(), 0);
    assert_eq!(second.report.to_error(), None);
}

#[test]
fn dry_run_reports_alike_and_creates_nothing() {
    let missing = strings(&["/t/b.py", "/t/c.py"]);
    let real = pairing_outcome(missing.clone(), true, false);
    let dry = pairing_outcome(missing, true, true);
    assert_eq!(dry.report, real.report);
    assert_eq!(dry.report.message(), "Created 2 missing files.");
    assert!(dry.to_create.is_empty());
    assert_eq!(real.to_create.len(), 2);
    let opts = GlobalOpts { dry_run: true };
    assert!(opts.dry_run);
}

#[test]
fn hash_file_first_write_then_accept() {
    assert_eq!(hash_file_step(None, "abc".to_string(), false), Ok(HashAction::WriteHash));
    assert_eq!(
        hash_file_step(Some("abc".to_string()), "abc".to_string(), false),
        Ok(HashAction::Accept { remove_hash_file: true })
    );
    assert_eq!(
        hash_file_step(Some("abc".to_string()), "abc".to_string(), true),
        Ok(HashAction::Accept { remove_hash_file: false })
    );
    assert_eq!(
        hash_file_step(Some("abc".to_string()), "abd".to_string(), false),
        Err(PairError::DriftDetected("abd".to_string(), "abc".to_string()))
    );
}

#[test]
fn decimal_numerals() {
    assert_eq!(decimal_string(0), "0");
    assert_eq!(decimal_string(7), "7");
    assert_eq!(decimal_string(1234), "1234");
}

#[test]
fn preferred_suffix_rejects_empty_name() {
    let opts = GlobalOpts { dry_run: false };
    assert!(command(CommandArgs { file: "my-file.txt".to_string() }, opts).is_ok());
    assert!(matches!(
        command(CommandArgs { file: String::new() }, opts),
        Err(PairError::InvalidInput(_))
    ));
}

#[test]
fn hex_numerals() {
    assert_eq!(hex_string(0), "0");
    assert_eq!(hex_string(255), "ff");
    assert_eq!(hex_string(u64::MAX), "ffffffffffffffff");
    assert_eq!(hex_string(0x1a2b), "1a2b");
}

#[test]
fn created_report_is_an_error() {
    assert_eq!(PairReport::Created(3).to_error(), Some(PairError::MissingPairs(3)));
}

#[test]
fn top_level_file_renders_dot_directory() {
    let r = expected_path("/work/src/main.py", &ctx(), "{to}/x{relative_from}x", &None);
    assert_eq!(r, Ok("/work/tests/x.x".to_string()));
}

#[test]
fn capture_group_changes_rendered_path() {
    let re = Some("^test_(?P<filename>.*)$".to_string());
    let r = expected_path(
        "/work/src/test_main.py",
        &ctx(),
        "{to}/{relative_from}/{filename}",
        &re,
    );
    assert_eq!(r, Ok("/work/tests/./main.py".to_string()));
}

#[test]
fn conclude_counts_all_absent_pairs() {
    let args = obsessed::check_file_pair::CommandArgs {
        from: "src".to_string(),
        to: "tests".to_string(),
        include_globs: strings(&["**/*.py"]),
        exclude_globs: vec![],
        expect: "{to}/{relative_from}/{filename}".to_string(),
        filename_regex: None,
        create_if_not_exists: true,
    };
    let expected = strings(&["/t/a.py", "/t/b.py"]);
    let dry = obsessed::check_file_pair::conclude(&expected, &vec![false, false], &args, GlobalOpts { dry_run: true });
    assert_eq!(dry.report, PairReport::Created(2));
    assert!(dry.to_create.is_empty());
    let real = obsessed::check_file_pair::conclude(&expected, &vec![false, true], &args, GlobalOpts { dry_run: false });
    assert_eq!(real.report, PairReport::Created(1));
    assert_eq!(real.to_create, strings(&["/t/a.py"]));
}
