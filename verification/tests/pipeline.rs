use texclean::file_matcher::FileMatcher;
use texclean::pipeline::{
    compile_rules, delete_rules, Action, Args, CompileOutcome, Event, Notice, Phase, Pipeline,
};
use texclean::summary::Summary;

fn pipeline(update: bool) -> Pipeline {
    let args = Args { path: "root".to_string(), update };
    Pipeline::new(args, compile_rules().unwrap(), delete_rules().unwrap())
}

fn entry(path: &str, parent: Option<&str>) -> Event {
    Event::Entry { path: path.to_string(), parent: parent.map(|p| p.to_string()) }
}

fn compiled(path: &str, outcome: CompileOutcome) -> Event {
    Event::Compiled { path: path.to_string(), outcome }
}

fn deleted(path: &str, removed: bool) -> Event {
    Event::Deleted { path: path.to_string(), removed }
}

fn report(notice: Notice, path: &str) -> Action {
    Action::Report { notice, path: path.to_string() }
}

fn walk(phase: Phase, summary: Option<&[&str]>) -> Action {
    Action::Walk { phase, summary: summary.map(summary_of), root: "root".to_string() }
}

fn summary_of(failed: &[&str]) -> Summary {
    Summary::new(failed.iter().map(|s| s.to_string()).collect())
}

fn parent_of(path: &str) -> Option<String> {
    match path.rfind('/') {
        Some(at) => Some(path[..at].to_string()),
        None if path.is_empty() => None,
        None => Some(String::new()),
    }
}

/// Runs the pipeline over `files` as a caller would: walks, compiles and deletes as the
/// actions say. A compilation that succeeds leaves an `aux`, a `log` and a `pdf` file.
fn run(
    p: &mut Pipeline,
    files: &mut Vec<String>,
    compiler: fn(&str) -> CompileOutcome,
    removable: fn(&str) -> bool,
) -> Vec<Action> {
    let mut trace = Vec::new();
    let mut action = p.step(Event::Start);
    loop {
        trace.push(action.clone());
        match action {
            Action::Walk { .. } => {
                for path in files.clone() {
                    let answer = p.step(Event::Entry { path: path.clone(), parent: parent_of(&path) });
                    trace.push(answer.clone());
                    match answer {
                        Action::Compile { file, .. } => {
                            let outcome = compiler(&file);
                            if outcome == CompileOutcome::Succeeded {
                                let stem = file.strip_suffix(".tex").unwrap().to_string();
                                for ext in ["aux", "log", "pdf"] {
                                    files.push(format!("{stem}.{ext}"));
                                }
                            }
                            trace.push(p.step(Event::Compiled { path: file, outcome }));
                        }
                        Action::Delete { path } => {
                            let removed = removable(&path);
                            if removed {
                                files.retain(|f| f != &path);
                            }
                            trace.push(p.step(Event::Deleted { path, removed }));
                        }
                        _ => {}
                    }
                }
                action = p.step(Event::WalkEnded);
            }
            Action::Stop { .. } => return trace,
            other => panic!("unexpected {other:?}"),
        }
    }
}

fn always(_: &str) -> CompileOutcome {
    CompileOutcome::Succeeded
}

fn never(_: &str) -> CompileOutcome {
    CompileOutcome::Failed
}

fn yes(_: &str) -> bool {
    true
}

fn names(files: &[&str]) -> Vec<String> {
    files.iter().map(|s| s.to_string()).collect()
}

#[test]
fn built_in_rules() {
    let compile = compile_rules().unwrap();
    assert_eq!(compile.matches("a/report.tex"), Ok(true));
    assert_eq!(compile.matches("a/report.aux"), Ok(false));

    let delete = delete_rules().unwrap();
    assert_eq!(delete.matches("x.aux"), Ok(true));
    assert_eq!(delete.matches("x.log"), Ok(true));
    assert_eq!(delete.matches("a.synctex.gz"), Ok(true));
    assert_eq!(delete.matches("a.gz"), Ok(false));
    assert_eq!(delete.matches("a.synctex"), Ok(false));
    assert_eq!(delete.matches("report.tex"), Ok(false));
    assert_eq!(delete.matches("report.pdf"), Ok(false));
}

#[test]
fn run_without_update_only_deletes() {
    let mut p = pipeline(false);
    let mut files = names(&["x.aux", "x.log", "x.tex"]);

    let trace = run(&mut p, &mut files, always, yes);

    assert_eq!(files, names(&["x.tex"]));
    assert!(!trace.iter().any(|a| matches!(a, Action::Compile { .. })));
    assert_eq!(
        trace,
        vec![
            walk(Phase::Deleting, None),
            Action::Delete { path: "x.aux".to_string() },
            report(Notice::Removed, "x.aux"),
            Action::Delete { path: "x.log".to_string() },
            report(Notice::Removed, "x.log"),
            Action::Nothing,
            Action::Stop { summary: None },
        ]
    );
    assert_eq!(p.phase(), Phase::Done);
}

#[test]
fn failed_compilation_is_summarised_and_deletion_follows() {
    let mut p = pipeline(true);
    let mut files = names(&["x.tex", "old.log"]);

    let trace = run(&mut p, &mut files, never, yes);

    assert_eq!(
        trace,
        vec![
            walk(Phase::Compiling, None),
            Action::Compile { dir: "".to_string(), file: "x.tex".to_string() },
            report(Notice::CompileFailed, "x.tex"),
            Action::Nothing,
            walk(Phase::Deleting, Some(&["x.tex"])),
            Action::Nothing,
            Action::Delete { path: "old.log".to_string() },
            report(Notice::Removed, "old.log"),
            Action::Stop { summary: None },
        ]
    );
    match &trace[4] {
        Action::Walk { summary: Some(s), .. } => assert_eq!(s.text(), "This file failed: x.tex"),
        other => panic!("unexpected {other:?}"),
    }
    assert_eq!(files, names(&["x.tex"]));
}

#[test]
fn deletion_sees_what_compilation_left() {
    let mut p = pipeline(true);
    let mut files = names(&["doc/x.tex"]);

    let trace = run(&mut p, &mut files, always, yes);

    assert_eq!(files, names(&["doc/x.tex", "doc/x.pdf"]));
    assert_eq!(trace[1], Action::Compile { dir: "doc".to_string(), file: "doc/x.tex".to_string() });
    let first_delete = trace.iter().position(|a| matches!(a, Action::Delete { .. })).unwrap();
    let last_compile = trace.iter().rposition(|a| matches!(a, Action::Compile { .. })).unwrap();
    let summary = trace
        .iter()
        .position(|a| matches!(a, Action::Walk { phase: Phase::Deleting, summary: Some(_), .. }))
        .unwrap();
    assert!(last_compile < summary && summary < first_delete);
    match &trace[summary] {
        Action::Walk { summary: Some(s), .. } => assert_eq!(s.text(), "No files failed!"),
        other => panic!("unexpected {other:?}"),
    }
}

fn second_fails(file: &str) -> CompileOutcome {
    if file == "b.tex" {
        CompileOutcome::Failed
    } else {
        CompileOutcome::Succeeded
    }
}

fn second_stays(path: &str) -> bool {
    path != "b.aux"
}

#[test]
fn one_failing_compilation_does_not_stop_the_others() {
    let mut p = pipeline(true);
    let mut files = names(&["a.tex", "b.tex", "c.tex"]);

    let trace = run(&mut p, &mut files, second_fails, yes);

    let compiled: Vec<&Action> =
        trace.iter().filter(|a| matches!(a, Action::Compile { .. })).collect();
    assert_eq!(compiled.len(), 3);
    assert!(trace.contains(&report(Notice::Compiled, "a.tex")));
    assert!(trace.contains(&report(Notice::CompileFailed, "b.tex")));
    assert!(trace.contains(&report(Notice::Compiled, "c.tex")));
    assert!(trace.contains(&walk(Phase::Deleting, Some(&["b.tex"]))));
    assert_eq!(files, names(&["a.tex", "b.tex", "c.tex", "a.pdf", "c.pdf"]));
}

#[test]
fn one_failing_deletion_does_not_stop_the_others() {
    let mut p = pipeline(false);
    let mut files = names(&["a.aux", "b.aux", "c.aux"]);

    let trace = run(&mut p, &mut files, always, second_stays);

    assert_eq!(files, names(&["b.aux"]));
    assert_eq!(
        trace,
        vec![
            walk(Phase::Deleting, None),
            Action::Delete { path: "a.aux".to_string() },
            report(Notice::Removed, "a.aux"),
            Action::Delete { path: "b.aux".to_string() },
            report(Notice::RemoveFailed, "b.aux"),
            Action::Delete { path: "c.aux".to_string() },
            report(Notice::Removed, "c.aux"),
            Action::Stop { summary: None },
        ]
    );
}

#[test]
fn several_failures_are_listed_in_order() {
    let mut p = pipeline(true);
    let mut files = names(&["b.tex", "a.tex", "c.tex"]);

    let trace = run(&mut p, &mut files, never, yes);

    let summary = walk(Phase::Deleting, Some(&["b.tex", "a.tex", "c.tex"]));
    assert!(trace.contains(&summary));
    match summary {
        Action::Walk { summary: Some(s), .. } => {
            assert_eq!(s.text(), "These files failed: b.tex, a.tex, c.tex")
        }
        other => panic!("unexpected {other:?}"),
    }
}

#[test]
fn start_enters_the_first_phase() {
    let mut with = pipeline(true);
    assert_eq!(with.phase(), Phase::Idle);
    assert_eq!(with.step(Event::Start), walk(Phase::Compiling, None));
    assert_eq!(with.phase(), Phase::Compiling);
    assert_eq!(with.step(Event::Start), Action::Nothing);
    assert_eq!(with.phase(), Phase::Compiling);

    let mut without = pipeline(false);
    assert_eq!(without.step(Event::Start), walk(Phase::Deleting, None));
    assert_eq!(without.phase(), Phase::Deleting);
}

#[test]
fn entries_are_judged_by_the_rules_of_the_phase() {
    let mut p = pipeline(true);
    p.step(Event::Start);

    assert_eq!(
        p.step(entry("d/x.tex", Some("d"))),
        Action::Compile { dir: "d".to_string(), file: "d/x.tex".to_string() }
    );
    assert_eq!(p.step(entry("d/x.aux", Some("d"))), Action::Nothing);
    assert_eq!(p.step(entry("d/noext", Some("d"))), Action::Nothing);
    assert_eq!(p.step(entry("d/.tex", Some("d"))), Action::Nothing);

    assert_eq!(p.step(Event::WalkEnded), walk(Phase::Deleting, Some(&[])));
    assert_eq!(p.step(entry("d/x.tex", Some("d"))), Action::Nothing);
    assert_eq!(p.step(entry("d/x.aux", Some("d"))), Action::Delete { path: "d/x.aux".to_string() });
    assert_eq!(p.step(entry("d/x.aux", None)), Action::Delete { path: "d/x.aux".to_string() });
    assert_eq!(p.step(entry("d/x.gz", Some("d"))), Action::Nothing);
    assert_eq!(
        p.step(entry("d/x.synctex.gz", Some("d"))),
        Action::Delete { path: "d/x.synctex.gz".to_string() }
    );
    assert_eq!(p.step(entry("d/aux", Some("d"))), Action::Nothing);
}

#[test]
fn document_without_parent_is_skipped_and_not_recorded() {
    let mut p = pipeline(true);
    p.step(Event::Start);

    assert_eq!(p.step(entry("x.tex", None)), report(Notice::NoParent, "x.tex"));
    assert_eq!(p.phase(), Phase::Compiling);
    assert_eq!(
        p.step(entry("y.tex", Some(""))),
        Action::Compile { dir: "".to_string(), file: "y.tex".to_string() }
    );
    assert_eq!(p.step(Event::WalkEnded), walk(Phase::Deleting, Some(&[])));
}

#[test]
fn compiler_that_does_not_start_is_a_failure() {
    let mut p = pipeline(true);
    p.step(Event::Start);

    assert_eq!(
        p.step(compiled("a.tex", CompileOutcome::NotStarted)),
        report(Notice::CompilerNotStarted, "a.tex")
    );
    assert_eq!(p.step(compiled("b.tex", CompileOutcome::Succeeded)), report(Notice::Compiled, "b.tex"));
    assert_eq!(p.step(compiled("c.tex", CompileOutcome::Failed)), report(Notice::CompileFailed, "c.tex"));
    assert_eq!(p.step(Event::WalkEnded), walk(Phase::Deleting, Some(&["a.tex", "c.tex"])));
}

#[test]
fn failures_are_cleared_between_phases() {
    let mut p = pipeline(true);
    p.step(Event::Start);
    p.step(compiled("a.tex", CompileOutcome::Failed));
    p.step(Event::WalkEnded);

    assert_eq!(p.step(deleted("a.aux", false)), report(Notice::RemoveFailed, "a.aux"));
    assert_eq!(p.step(Event::Interrupt), Action::Stop { summary: Some(summary_of(&["a.aux"])) });
}

#[test]
fn interrupt_summarises_once() {
    let mut p = pipeline(true);
    p.step(Event::Start);
    p.step(compiled("a.tex", CompileOutcome::Failed));

    assert_eq!(p.step(Event::Interrupt), Action::Stop { summary: Some(summary_of(&["a.tex"])) });
    assert_eq!(p.phase(), Phase::Done);
    assert_eq!(p.step(Event::Interrupt), Action::Stop { summary: None });
    assert_eq!(p.step(entry("x.tex", Some(""))), Action::Nothing);
    assert_eq!(p.step(entry("x.aux", Some(""))), Action::Nothing);
    assert_eq!(p.step(Event::WalkEnded), Action::Nothing);
    assert_eq!(p.step(Event::Start), Action::Nothing);
    assert_eq!(p.phase(), Phase::Done);
}

#[test]
fn interrupt_without_failures() {
    let mut p = pipeline(false);
    p.step(Event::Start);

    assert_eq!(p.step(Event::Interrupt), Action::Stop { summary: Some(summary_of(&[])) });
}

#[test]
fn interrupt_before_the_start() {
    let mut p = pipeline(true);

    assert_eq!(p.step(Event::Interrupt), Action::Stop { summary: None });
    assert_eq!(p.phase(), Phase::Done);
    assert_eq!(p.step(Event::Start), Action::Nothing);
}

#[test]
fn events_of_another_phase_change_nothing() {
    let mut p = pipeline(true);

    assert_eq!(p.step(entry("x.tex", Some(""))), Action::Nothing);
    assert_eq!(p.step(compiled("x.tex", CompileOutcome::Failed)), Action::Nothing);
    assert_eq!(p.step(deleted("x.aux", false)), Action::Nothing);
    assert_eq!(p.step(Event::WalkEnded), Action::Nothing);
    assert_eq!(p.phase(), Phase::Idle);

    p.step(Event::Start);
    assert_eq!(p.step(deleted("x.aux", false)), Action::Nothing);
    assert_eq!(p.step(Event::WalkEnded), walk(Phase::Deleting, Some(&[])));
    assert_eq!(p.step(compiled("x.tex", CompileOutcome::Failed)), Action::Nothing);
    assert_eq!(p.step(Event::WalkEnded), Action::Stop { summary: None });
    assert_eq!(p.phase(), Phase::Done);
}

#[test]
fn pipeline_with_other_rules() {
    let compile = FileMatcher::try_from([["md"].as_slice()].as_slice()).unwrap();
    let delete = FileMatcher::try_from([["html", "out"].as_slice()].as_slice()).unwrap();
    let args = Args { path: "site".to_string(), update: true };
    let mut p = Pipeline::new(args, compile, delete);

    assert_eq!(
        p.step(Event::Start),
        Action::Walk { phase: Phase::Compiling, summary: None, root: "site".to_string() }
    );
    assert_eq!(
        p.step(entry("site/a.md", Some("site"))),
        Action::Compile { dir: "site".to_string(), file: "site/a.md".to_string() }
    );
    assert_eq!(p.step(entry("site/a.tex", Some("site"))), Action::Nothing);
    p.step(Event::WalkEnded);
    assert_eq!(
        p.step(entry("site/out/a.html", Some("site/out"))),
        Action::Delete { path: "site/out/a.html".to_string() }
    );
    assert_eq!(p.step(entry("site/a.html", Some("site"))), Action::Nothing);
}

#[test]
fn empty_definition_leaves_no_pipeline_to_start() {
    let rules = FileMatcher::try_from([[].as_slice(), ["aux"].as_slice()].as_slice());

    assert!(rules.is_err());
}
