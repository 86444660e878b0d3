use program_analysis::errors::{CFGError, IRError};
use program_analysis::report::{FileLocation, Label, ReportCode, Severity};

fn location(start: usize, end: usize) -> FileLocation {
    FileLocation { start, end }
}

fn label_text(label: &Label) -> Option<String> {
    label.message.clone()
}

#[test]
fn undefined_variable_report() {
    let report = CFGError::produce_report(CFGError::UndefinedVariableError {
        name: "a".to_string(),
        file_id: 2,
        file_location: location(4, 9),
    });
    assert_eq!(report.severity, Severity::Error);
    assert_eq!(report.code, ReportCode::UninitializedSymbolInExpression);
    assert_eq!(report.message, "Variable `a` is used before it is defined.");
    assert_eq!(report.primary.len(), 1);
    assert_eq!(report.primary[0].file_id, 2);
    assert_eq!(report.primary[0].location, location(4, 9));
    assert_eq!(label_text(&report.primary[0]), Some("Variable is first seen here.".to_string()));
    assert!(report.secondary.is_empty());
    assert!(report.notes.is_empty());
}

#[test]
fn shadowing_report() {
    let report = CFGError::produce_report(CFGError::ShadowingVariableWarning {
        name: "x".to_string(),
        primary_file_id: 0,
        primary_location: location(10, 20),
        secondary_file_id: 1,
        secondary_location: location(1, 5),
    });
    assert_eq!(report.severity, Severity::Warning);
    assert_eq!(report.code, ReportCode::ShadowingVariable);
    assert_eq!(report.message, "Declaration of variable `x` shadows previous declaration.");
    assert_eq!(report.primary[0].location, location(10, 20));
    assert_eq!(label_text(&report.primary[0]), Some("Shadowing declaration here.".to_string()));
    assert_eq!(report.secondary.len(), 1);
    assert_eq!(report.secondary[0].file_id, 1);
    assert_eq!(report.secondary[0].location, location(1, 5));
    assert_eq!(label_text(&report.secondary[0]), Some("Shadowed variable is declared here.".to_string()));
    assert_eq!(report.notes, vec!["Consider renaming the second occurrence of `x`.".to_string()]);
}

#[test]
fn parameter_collision_report() {
    let report = CFGError::produce_report(CFGError::ParameterNameCollisionError {
        name: "n".to_string(),
        file_id: 0,
        file_location: location(0, 3),
    });
    assert_eq!(report.severity, Severity::Warning);
    assert_eq!(report.code, ReportCode::ParameterNameCollision);
    assert_eq!(report.message, "Parameter `n` declared multiple times.");
    assert_eq!(label_text(&report.primary[0]), Some("Parameters declared here.".to_string()));
    assert!(report.secondary.is_empty());
    assert_eq!(report.notes, vec!["Rename the second occurrence of `n`.".to_string()]);
}

#[test]
fn ir_error_converts() {
    let error: CFGError = IRError::UndefinedVariableError {
        name: "q".to_string(),
        file_id: 5,
        file_location: location(2, 3),
    }
    .into();
    match error {
        CFGError::UndefinedVariableError { name, file_id, file_location } => {
            assert_eq!(name, "q");
            assert_eq!(file_id, 5);
            assert_eq!(file_location, location(2, 3));
        },
        _ => panic!("wrong variant"),
    }
}
