use vstd::prelude::*;
use crate::report::{FileLocation, Report, ReportCode, Severity, concat3, label_is};

verus! {

/// Errors raised by the intermediate representation while lowering.
#[derive(Clone, Debug)]
pub enum IRError {
    /// The variable is read before it is declared or written.
    UndefinedVariableError { name: String, file_id: usize, file_location: FileLocation },
}

/// Errors and warnings raised while building a control-flow graph.
#[derive(Clone, Debug)]
pub enum CFGError {
    /// The variable is read before it is declared/written.
    UndefinedVariableError { name: String, file_id: usize, file_location: FileLocation },
    /// The variable declaration shadows a previous declaration.
    ShadowingVariableWarning {
        name: String,
        primary_file_id: usize,
        primary_location: FileLocation,
        secondary_file_id: usize,
        secondary_location: FileLocation,
    },
    /// Multiple parameters with the same name in function or template definition.
    ParameterNameCollisionError { name: String, file_id: usize, file_location: FileLocation },
}

/// Why a definition's graph, or a span of source text, could not be had.
#[derive(Clone, Debug)]
pub enum AnalysisError {
    UnknownTemplate { name: String },
    UnknownFunction { name: String },
    FailedToLiftTemplate { name: String },
    FailedToLiftFunction { name: String },
    UnknownFile { file_id: usize },
    InvalidLocation { file_id: usize, file_location: FileLocation },
}

/// `r` is the diagnostic that describes `e`.
pub open spec fn is_report_of(e: CFGError, r: Report) -> bool {
    match e {
        CFGError::UndefinedVariableError { name, file_id, file_location } => {
            &&& r.severity == Severity::Error
            &&& r.code == ReportCode::UninitializedSymbolInExpression
            &&& r.message@ == "Variable `"@ + name@ + "` is used before it is defined."@
            &&& r.primary@.len() == 1
            &&& label_is(r.primary@[0], file_location, file_id, Some("Variable is first seen here."@))
            &&& r.secondary@.len() == 0
            &&& r.notes@.len() == 0
        },
        CFGError::ShadowingVariableWarning {
            name,
            primary_file_id,
            primary_location,
            secondary_file_id,
            secondary_location,
        } => {
            &&& r.severity == Severity::Warning
            &&& r.code == ReportCode::ShadowingVariable
            &&& r.message@ == "Declaration of variable `"@ + name@ + "` shadows previous declaration."@
            &&& r.primary@.len() == 1
            &&& label_is(r.primary@[0], primary_location, primary_file_id, Some("Shadowing declaration here."@))
            &&& r.secondary@.len() == 1
            &&& label_is(
                r.secondary@[0],
                secondary_location,
                secondary_file_id,
                Some("Shadowed variable is declared here."@),
            )
            &&& r.notes@.len() == 1
            &&& r.notes@[0]@ == "Consider renaming the second occurrence of `"@ + name@ + "`."@
        },
        CFGError::ParameterNameCollisionError { name, file_id, file_location } => {
            &&& r.severity == Severity::Warning
            &&& r.code == ReportCode::ParameterNameCollision
            &&& r.message@ == "Parameter `"@ + name@ + "` declared multiple times."@
            &&& r.primary@.len() == 1
            &&& label_is(r.primary@[0], file_location, file_id, Some("Parameters declared here."@))
            &&& r.secondary@.len() == 0
            &&& r.notes@.len() == 1
            &&& r.notes@[0]@ == "Rename the second occurrence of `"@ + name@ + "`."@
        },
    }
}

/// The CFG error that carries the same facts as an IR error.
pub open spec fn cfg_error_of(e: IRError) -> CFGError {
    match e {
        IRError::UndefinedVariableError { name, file_id, file_location } => {
            CFGError::UndefinedVariableError { name, file_id, file_location }
        },
    }
}

impl CFGError {
    /// The diagnostic that describes `error`.
    pub fn produce_report(error: Self) -> (r: Report)
        ensures
            is_report_of(error, r),
    {
        match error {
            CFGError::UndefinedVariableError { name, file_id, file_location } => {
                let mut report = Report::error(
                    concat3("Variable `", name.as_str(), "` is used before it is defined."),
                    ReportCode::UninitializedSymbolInExpression,
                );
                report.add_primary(file_location, file_id, "Variable is first seen here.".to_owned());
                report
            },
            CFGError::ShadowingVariableWarning {
                name,
                primary_file_id,
                primary_location,
                secondary_file_id,
                secondary_location,
            } => {
                let mut report = Report::warning(
                    concat3(
                        "Declaration of variable `",
                        name.as_str(),
                        "` shadows previous declaration.",
                    ),
                    ReportCode::ShadowingVariable,
                );
                report.add_primary(
                    primary_location,
                    primary_file_id,
                    "Shadowing declaration here.".to_owned(),
                );
                report.add_secondary(
                    secondary_location,
                    secondary_file_id,
                    Some("Shadowed variable is declared here.".to_owned()),
                );
                report.add_note(
                    concat3("Consider renaming the second occurrence of `", name.as_str(), "`."),
                );
                report
            },
            CFGError::ParameterNameCollisionError { name, file_id, file_location } => {
                let mut report = Report::warning(
                    concat3("Parameter `", name.as_str(), "` declared multiple times."),
                    ReportCode::ParameterNameCollision,
                );
                report.add_primary(file_location, file_id, "Parameters declared here.".to_owned());
                report.add_note(concat3("Rename the second occurrence of `", name.as_str(), "`."));
                report
            },
        }
    }

    /// The CFG error that carries the same facts as `error`.
    pub fn from_ir_error(error: IRError) -> (r: CFGError)
        ensures
            r == cfg_error_of(error),
    {
        match error {
            IRError::UndefinedVariableError { name, file_id, file_location } => {
                CFGError::UndefinedVariableError { name, file_id, file_location }
            },
        }
    }
}

impl From<IRError> for CFGError {
    fn from(error: IRError) -> (r: CFGError) {
        CFGError::from_ir_error(error)
    }
}

impl vstd::std_specs::convert::FromSpecImpl<IRError> for CFGError {
    open spec fn obeys_from_spec() -> bool {
        true
    }

    open spec fn from_spec(v: IRError) -> CFGError {
        cfg_error_of(v)
    }
}

} // verus!
