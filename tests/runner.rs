use std::cell::Cell;
use std::rc::Rc;

use program_analysis::cache::{Curve, IntoCfg, IntoSsa};
use program_analysis::errors::{AnalysisError, CFGError};
use program_analysis::files::FileLibrary;
use program_analysis::report::{FileLocation, Report, ReportCode, ReportCollection, Severity};
use program_analysis::runner::{AnalysisPass, AnalysisRunner, ReportWriter};

#[derive(Clone, Debug, PartialEq)]
struct Graph {
    name: String,
    build: usize,
}

#[derive(Clone)]
struct Ast {
    name: String,
    warnings: Vec<CFGError>,
    cfg_failure: Option<CFGError>,
    ssa_failure: bool,
    lowerings: Rc<Cell<usize>>,
}

impl Ast {
    fn new(name: &str, lowerings: &Rc<Cell<usize>>) -> Ast {
        Ast {
            name: name.to_string(),
            warnings: Vec::new(),
            cfg_failure: None,
            ssa_failure: false,
            lowerings: lowerings.clone(),
        }
    }
}

impl IntoCfg<Graph> for Ast {
    fn lowered(&self, _curve: Curve) -> Result<Graph, CFGError> {
        if let Some(error) = &self.cfg_failure {
            return Err(error.clone());
        }
        let name = if self.ssa_failure { "ssa-failure".to_string() } else { self.name.clone() };
        Ok(Graph { name, build: self.lowerings.get() })
    }

    fn lowering_reports(&self, _curve: Curve) -> Vec<Report> {
        self.warnings.iter().map(|w| CFGError::produce_report(w.clone())).collect()
    }

    fn into_cfg(&self, _curve: &Curve, reports: &mut Vec<Report>) -> Result<Graph, CFGError> {
        self.lowerings.set(self.lowerings.get() + 1);
        for warning in &self.warnings {
            reports.push(CFGError::produce_report(warning.clone()));
        }
        if let Some(error) = &self.cfg_failure {
            return Err(error.clone());
        }
        let name = if self.ssa_failure { "ssa-failure".to_string() } else { self.name.clone() };
        Ok(Graph { name, build: self.lowerings.get() })
    }
}

impl IntoSsa for Graph {
    fn ssa(&self) -> Result<Graph, Report> {
        self.clone().into_ssa()
    }

    fn into_ssa(self) -> Result<Graph, Report> {
        if self.name == "ssa-failure" {
            Err(Report::error("SSA conversion failed.".to_string(), ReportCode::FailedToLift))
        } else {
            Ok(self)
        }
    }
}

type Runner = AnalysisRunner<Ast, Graph>;

fn location(start: usize, end: usize) -> FileLocation {
    FileLocation { start, end }
}

fn shadowing(name: &str) -> CFGError {
    CFGError::ShadowingVariableWarning {
        name: name.to_string(),
        primary_file_id: 0,
        primary_location: location(10, 20),
        secondary_file_id: 0,
        secondary_location: location(1, 5),
    }
}

fn undefined(name: &str) -> CFGError {
    CFGError::UndefinedVariableError { name: name.to_string(), file_id: 0, file_location: location(3, 4) }
}

#[test]
fn test_function() {
    let count = Rc::new(Cell::new(0));
    let mut runner: Runner = AnalysisRunner::new(Curve::Goldilocks).with_function("foo", 0, Ast::new("foo", &count));

    // `foo` is known, its CFG can be had, and is then cached.
    assert!(runner.is_function("foo"));
    assert!(!runner.is_function_cached("foo"));
    assert!(runner.function("foo").is_ok());
    assert!(runner.is_function_cached("foo"));

    // Take and replace.
    let (cfg, _) = runner.take_function("foo").unwrap();
    assert!(!runner.is_function_cached("foo"));
    assert!(!runner.replace_function("foo", cfg));
    assert!(runner.is_function_cached("foo"));

    // `baz` is unknown, asking for it fails, and nothing is cached.
    assert!(!runner.is_function("baz"));
    assert!(!runner.is_function_cached("baz"));
    assert!(matches!(runner.function("baz"), Err(AnalysisError::UnknownFunction { .. })));
    assert!(!runner.is_function_cached("baz"));
}

#[test]
fn test_template() {
    let count = Rc::new(Cell::new(0));
    let mut runner: Runner = AnalysisRunner::new(Curve::Goldilocks).with_template("Foo", 0, Ast::new("Foo", &count));

    assert!(runner.is_template("Foo"));
    assert!(!runner.is_template_cached("Foo"));
    assert!(runner.template("Foo").is_ok());
    assert!(runner.is_template_cached("Foo"));

    let (cfg, _) = runner.take_template("Foo").unwrap();
    assert!(!runner.is_template_cached("Foo"));
    assert!(!runner.replace_template("Foo", cfg));
    assert!(runner.is_template_cached("Foo"));

    assert!(!runner.is_template("Baz"));
    assert!(!runner.is_template_cached("Baz"));
    assert!(matches!(runner.template("Baz"), Err(AnalysisError::UnknownTemplate { .. })));
    assert!(!runner.is_template_cached("Baz"));
}

const FOO_SOURCE: &str = "
            template Foo(n) {
                signal input a[2];

                a[0] === a[1];
            }
        ";

#[test]
fn test_underlying_str() {
    let mut files = FileLibrary::new();
    let file_id = files.add_file("file-0.circom".to_string(), FOO_SOURCE.to_string(), true);
    let count = Rc::new(Cell::new(0));
    let runner: Runner = AnalysisRunner::new(Curve::Goldilocks)
        .with_file_library(files)
        .with_template("Foo", file_id, Ast::new("Foo", &count));

    let declaration = FOO_SOURCE.find("signal input a[2]").unwrap();
    let constraint = FOO_SOURCE.find("a[0] === a[1];").unwrap();
    let string = runner.underlying_str(file_id, &location(declaration, declaration + 17)).unwrap();
    assert_eq!(string, "signal input a[2]");
    let string = runner.underlying_str(file_id, &location(constraint, constraint + 14)).unwrap();
    assert_eq!(string, "a[0] === a[1];");
}

#[test]
fn span_past_the_end_is_invalid() {
    let mut files = FileLibrary::new();
    let file_id = files.add_file("a.circom".to_string(), "abc".to_string(), true);
    let runner: Runner = AnalysisRunner::new(Curve::Bn254).with_file_library(files);
    assert_eq!(runner.underlying_str(file_id, &location(0, 3)).unwrap(), "abc");
    assert_eq!(runner.underlying_str(file_id, &location(3, 3)).unwrap(), "");
    assert!(matches!(
        runner.underlying_str(file_id, &location(1, 4)),
        Err(AnalysisError::InvalidLocation { file_id: 0, file_location: FileLocation { start: 1, end: 4 } })
    ));
    assert!(matches!(runner.underlying_str(file_id, &location(2, 1)), Err(AnalysisError::InvalidLocation { .. })));
}

#[test]
fn unknown_file_is_reported() {
    let runner: Runner = AnalysisRunner::new(Curve::Bn254);
    assert!(matches!(runner.underlying_str(3, &location(0, 0)), Err(AnalysisError::UnknownFile { file_id: 3 })));
}

#[test]
fn span_inside_a_character_is_invalid() {
    let mut files = FileLibrary::new();
    let file_id = files.add_file("u.circom".to_string(), "aéb".to_string(), true);
    let runner: Runner = AnalysisRunner::new(Curve::Bn254).with_file_library(files);
    assert_eq!(runner.underlying_str(file_id, &location(1, 3)).unwrap(), "é");
    assert!(matches!(runner.underlying_str(file_id, &location(2, 3)), Err(AnalysisError::InvalidLocation { .. })));
    assert!(matches!(runner.underlying_str(file_id, &location(1, 2)), Err(AnalysisError::InvalidLocation { .. })));
}

#[test]
fn second_request_is_a_cache_hit() {
    let count = Rc::new(Cell::new(0));
    let mut runner: Runner = AnalysisRunner::new(Curve::Bn254).with_function("f", 0, Ast::new("f", &count));
    let first = runner.function("f").unwrap().clone();
    let second = runner.function("f").unwrap().clone();
    assert_eq!(count.get(), 1);
    assert_eq!(first, second);
    let (taken, _) = runner.take_function("f").unwrap();
    assert_eq!(taken, first);
    assert_eq!(count.get(), 1);
}

#[test]
fn failed_lowering_is_remembered() {
    let count = Rc::new(Cell::new(0));
    let mut ast = Ast::new("T", &count);
    ast.cfg_failure = Some(undefined("x"));
    let mut runner: Runner = AnalysisRunner::new(Curve::Bn254).with_template("T", 0, ast);
    assert!(matches!(runner.template("T"), Err(AnalysisError::FailedToLiftTemplate { .. })));
    assert!(matches!(runner.template("T"), Err(AnalysisError::FailedToLiftTemplate { .. })));
    assert!(matches!(runner.take_template("T"), Err(AnalysisError::FailedToLiftTemplate { .. })));
    assert_eq!(count.get(), 1);
    assert!(!runner.is_template_cached("T"));
}

#[test]
fn failed_ssa_conversion_is_remembered() {
    let count = Rc::new(Cell::new(0));
    let mut ast = Ast::new("g", &count);
    ast.ssa_failure = true;
    let mut runner: Runner = AnalysisRunner::new(Curve::Bn254).with_function("g", 0, ast);
    assert!(matches!(runner.take_function("g"), Err(AnalysisError::FailedToLiftFunction { .. })));
    assert!(matches!(runner.function("g"), Err(AnalysisError::FailedToLiftFunction { .. })));
    assert_eq!(count.get(), 1);
}

#[test]
fn take_then_replace_restores_the_cache() {
    let count = Rc::new(Cell::new(0));
    let mut runner: Runner = AnalysisRunner::new(Curve::Bn254).with_function("f", 0, Ast::new("f", &count));
    let before = runner.function("f").unwrap().clone();
    let (cfg, _) = runner.take_function("f").unwrap();
    assert!(!runner.replace_function("f", cfg));
    assert_eq!(runner.function("f").unwrap(), &before);
    assert_eq!(count.get(), 1);
}

#[test]
fn nested_take_is_overwritten_by_outer_replace() {
    let count = Rc::new(Cell::new(0));
    let mut runner: Runner = AnalysisRunner::new(Curve::Bn254).with_function("r", 0, Ast::new("r", &count));
    let (outer, _) = runner.take_function("r").unwrap();
    let (inner, _) = runner.take_function("r").unwrap();
    assert_eq!(count.get(), 2);
    assert_ne!(outer, inner);
    assert!(!runner.replace_function("r", inner.clone()));
    assert!(runner.replace_function("r", outer.clone()));
    assert_eq!(runner.function("r").unwrap(), &outer);
}

struct Recorder {
    messages: Vec<String>,
    emitted: Vec<ReportCollection>,
}

impl ReportWriter for Recorder {
    fn messages(&self) -> Vec<String> {
        self.messages.clone()
    }

    fn written(&self) -> Vec<ReportCollection> {
        self.emitted.clone()
    }

    fn write_message(&mut self, message: &str) {
        self.messages.push(message.to_string());
    }

    fn write_reports(&mut self, reports: &ReportCollection, _file_library: &FileLibrary) {
        self.emitted.push(reports.clone());
    }
}

enum Pass {
    Note(&'static str),
    Recurse(&'static str),
}

impl Pass {
    fn note(text: &str, cfg: &Graph) -> Report {
        Report::info(format!("{text} {}", cfg.name), ReportCode::AnalysisFinding)
    }
}

impl AnalysisPass<Ast, Graph> for Pass {
    fn findings(&self, _runner: &Runner, cfg: &Graph) -> ReportCollection {
        match self {
            Pass::Note(text) => vec![Pass::note(text, cfg)],
            // The nested take empties the slot, so its replace never overwrites.
            Pass::Recurse(_) => Vec::new(),
        }
    }

    fn run(&self, runner: &mut Runner, cfg: &Graph) -> ReportCollection {
        match self {
            Pass::Note(text) => vec![Pass::note(text, cfg)],
            Pass::Recurse(name) => {
                let mut found = Vec::new();
                if let Ok((inner, _)) = runner.take_function(name) {
                    if runner.replace_function(name, inner) {
                        found.push(Report::info("overwrote".to_string(), ReportCode::AnalysisFinding));
                    }
                }
                found
            },
        }
    }
}

#[test]
fn lowering_reports_come_before_pass_reports() {
    let count = Rc::new(Cell::new(0));
    let mut ast = Ast::new("f", &count);
    ast.warnings = vec![shadowing("x"), shadowing("y")];
    let mut runner: Runner = AnalysisRunner::new(Curve::Bn254).with_function("f", 0, ast);
    let passes = vec![Pass::Note("first"), Pass::Note("second")];
    let mut writer = Recorder { messages: Vec::new(), emitted: Vec::new() };
    runner.analyze_functions(&passes, &mut writer, false);

    assert_eq!(writer.messages, vec!["analyzing function 'f'".to_string()]);
    assert_eq!(writer.emitted.len(), 1);
    let messages: Vec<String> = writer.emitted[0].iter().map(|r| r.message.clone()).collect();
    assert_eq!(
        messages,
        vec![
            "Declaration of variable `x` shadows previous declaration.".to_string(),
            "Declaration of variable `y` shadows previous declaration.".to_string(),
            "first f".to_string(),
            "second f".to_string(),
        ]
    );
    assert_eq!(writer.emitted[0][0].severity, Severity::Warning);
    assert_eq!(writer.emitted[0][2].severity, Severity::Info);
    assert!(runner.is_function_cached("f"));

    // A second analysis has no lowering reports left to emit.
    runner.analyze_functions(&passes, &mut writer, false);
    assert_eq!(writer.emitted[1].len(), 2);
    assert_eq!(count.get(), 1);
}

#[test]
fn failure_report_is_emitted_once() {
    let count = Rc::new(Cell::new(0));
    let mut ast = Ast::new("T", &count);
    ast.cfg_failure = Some(undefined("v"));
    let mut runner: Runner = AnalysisRunner::new(Curve::Bn254).with_template("T", 0, ast);
    let passes = vec![Pass::Note("never")];
    let mut writer = Recorder { messages: Vec::new(), emitted: Vec::new() };
    runner.analyze_templates(&passes, &mut writer, false);
    runner.analyze_templates(&passes, &mut writer, false);
    assert_eq!(writer.messages, vec!["analyzing template 'T'".to_string(), "analyzing template 'T'".to_string()]);
    assert_eq!(writer.emitted[0].len(), 1);
    assert_eq!(writer.emitted[0][0].message, "Variable `v` is used before it is defined.");
    assert_eq!(writer.emitted[0][0].severity, Severity::Error);
    assert_eq!(writer.emitted[1].len(), 0);
    assert_eq!(count.get(), 1);
}

#[test]
fn recursive_analysis_overwrites_without_error() {
    let count = Rc::new(Cell::new(0));
    let mut runner: Runner = AnalysisRunner::new(Curve::Bn254).with_function("r", 0, Ast::new("r", &count));
    let passes = vec![Pass::Recurse("r")];
    let mut writer = Recorder { messages: Vec::new(), emitted: Vec::new() };
    runner.analyze_functions(&passes, &mut writer, false);
    assert_eq!(count.get(), 2);
    assert_eq!(writer.emitted[0].len(), 0);
    assert_eq!(writer.messages, vec!["analyzing function 'r'".to_string()]);
    let (reports, regenerated) = runner.function_reports("r", &passes);
    assert!(reports.is_empty());
    assert!(regenerated);
    assert_eq!(runner.function("r").unwrap().build, 1);
}

#[test]
fn names_can_be_restricted_to_user_input() {
    let mut files = FileLibrary::new();
    let user = files.add_file("main.circom".to_string(), String::new(), true);
    let library = files.add_file("lib.circom".to_string(), String::new(), false);
    let count = Rc::new(Cell::new(0));
    let runner: Runner = AnalysisRunner::new(Curve::Bn254)
        .with_file_library(files)
        .with_template("A", user, Ast::new("A", &count))
        .with_template("B", library, Ast::new("B", &count))
        .with_function("f", library, Ast::new("f", &count))
        .with_function("g", user, Ast::new("g", &count));
    assert_eq!(runner.template_names(false), vec!["A".to_string(), "B".to_string()]);
    assert_eq!(runner.template_names(true), vec!["A".to_string()]);
    assert_eq!(runner.function_names(false), vec!["f".to_string(), "g".to_string()]);
    assert_eq!(runner.function_names(true), vec!["g".to_string()]);
    assert!(runner.file_library().is_user_input(user));
    assert!(!runner.file_library().is_user_input(library));
    assert!(!runner.file_library().is_user_input(7));
}

#[test]
fn libraries_are_appended() {
    let runner: Runner = AnalysisRunner::new(Curve::Bn254)
        .with_libraries(&["a".to_string()])
        .with_libraries(&["b".to_string(), "c".to_string()]);
    assert_eq!(runner.libraries(), &vec!["a".to_string(), "b".to_string(), "c".to_string()]);
}

#[test]
fn lowering_reports_are_handed_out_once() {
    let count = Rc::new(Cell::new(0));
    let mut ast = Ast::new("f", &count);
    ast.warnings = vec![shadowing("x")];
    let mut runner: Runner = AnalysisRunner::new(Curve::Bn254).with_function("f", 0, ast);
    let (cfg, reports) = runner.take_function("f").unwrap();
    assert_eq!(reports.len(), 1);
    assert_eq!(reports[0].code, ReportCode::ShadowingVariable);
    assert!(!runner.replace_function("f", cfg));
    assert!(runner.take_function_reports("f").is_empty());
    let (cfg, reports) = runner.take_function("f").unwrap();
    assert!(reports.is_empty());
    assert!(!runner.replace_function("f", cfg));

    let mut more = vec![Report::warning("late".to_string(), ReportCode::AnalysisFinding)];
    runner.append_function_reports("f", &mut more);
    assert!(more.is_empty());
    let reports = runner.take_function_reports("f");
    assert_eq!(reports.len(), 1);
    assert_eq!(reports[0].message, "late");
    assert_eq!(count.get(), 1);
}

#[test]
fn template_reports_appends_pass_output() {
    let count = Rc::new(Cell::new(0));
    let mut ast = Ast::new("T", &count);
    ast.warnings = vec![CFGError::ParameterNameCollisionError {
        name: "n".to_string(),
        file_id: 0,
        file_location: location(0, 1),
    }];
    let mut runner: Runner = AnalysisRunner::new(Curve::Bn254).with_template("T", 0, ast);
    let mut early = vec![Report::info("early".to_string(), ReportCode::AnalysisFinding)];
    runner.append_template_reports("T", &mut early);
    let passes = vec![Pass::Note("seen")];
    let (reports, regenerated) = runner.template_reports("T", &passes);
    assert!(!regenerated);
    let messages: Vec<String> = reports.iter().map(|r| r.message.clone()).collect();
    assert_eq!(
        messages,
        vec![
            "early".to_string(),
            "Parameter `n` declared multiple times.".to_string(),
            "seen T".to_string(),
        ]
    );
    assert!(runner.is_template_cached("T"));
    assert!(runner.take_template_reports("T").is_empty());
}

#[test]
fn unknown_template_reports_nothing() {
    let mut runner: Runner = AnalysisRunner::new(Curve::Bn254);
    let passes = vec![Pass::Note("never")];
    let (reports, regenerated) = runner.template_reports("Nope", &passes);
    assert!(reports.is_empty());
    assert!(!regenerated);
    assert!(!runner.is_template_cached("Nope"));
}

#[test]
fn take_then_replace_drains_lowering_reports() {
    let count = Rc::new(Cell::new(0));
    let mut ast = Ast::new("T", &count);
    ast.warnings = vec![shadowing("a"), shadowing("b")];
    let mut runner: Runner = AnalysisRunner::new(Curve::Bn254).with_template("T", 0, ast);
    assert!(runner.template("T").is_ok());
    let (cfg, reports) = runner.take_template("T").unwrap();
    assert_eq!(reports.len(), 2);
    assert!(!runner.replace_template("T", cfg));
    assert!(runner.is_template_cached("T"));
    assert!(runner.take_template_reports("T").is_empty());
    assert_eq!(count.get(), 1);
}

#[test]
fn failure_report_stays_until_taken() {
    let count = Rc::new(Cell::new(0));
    let mut ast = Ast::new("g", &count);
    ast.cfg_failure = Some(undefined("z"));
    let mut runner: Runner = AnalysisRunner::new(Curve::Bn254).with_function("g", 0, ast);
    assert!(matches!(runner.take_function("g"), Err(AnalysisError::FailedToLiftFunction { .. })));
    let reports = runner.take_function_reports("g");
    assert_eq!(reports.len(), 1);
    assert_eq!(reports[0].message, "Variable `z` is used before it is defined.");
    assert!(matches!(runner.take_function("g"), Err(AnalysisError::FailedToLiftFunction { .. })));
    assert!(runner.take_function_reports("g").is_empty());
    assert_eq!(count.get(), 1);
}
