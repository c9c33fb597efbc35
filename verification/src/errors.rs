//! The error taxonomy of a generation run.  Every failure aborts the run;
//! each variant carries the offending path where one exists.

use vstd::prelude::*;

verus! {

/// Ghost meaning of a [`GenError`].
pub enum ErrorModel {
    MissingDefinition,
    InvalidDefinition,
    UnsupportedVariableType { variable: Seq<char> },
    Render { path: Option<Seq<char>> },
    BinaryDecode { path: Seq<char> },
    Io { path: Seq<char> },
    SourceAcquisition,
}

/// Why a generation run was aborted.
#[derive(Debug)]
pub enum GenError {
    /// The definition file is absent at the expected location.
    MissingDefinition,
    /// The definition is present but structurally invalid.
    InvalidDefinition,
    /// A variable's default value has a shape outside the supported set.
    UnsupportedVariableType { variable: String },
    /// The template engine rejected a path or content template; the path is
    /// absent for cleanup-path templates not tied to a walked file.
    Render { path: Option<String> },
    /// Content reached the renderer but is not valid text.
    BinaryDecode { path: String },
    /// A filesystem operation failed on the given path.
    Io { path: String },
    /// The template source could not be obtained.
    SourceAcquisition,
}

impl View for GenError {
    type V = ErrorModel;

    open spec fn view(&self) -> ErrorModel {
        match self {
            GenError::MissingDefinition => ErrorModel::MissingDefinition,
            GenError::InvalidDefinition => ErrorModel::InvalidDefinition,
            GenError::UnsupportedVariableType { variable } => ErrorModel::UnsupportedVariableType {
                variable: variable@,
            },
            GenError::Render { path } => ErrorModel::Render {
                path: match path {
                    Some(p) => Some(p@),
                    None => None,
                },
            },
            GenError::BinaryDecode { path } => ErrorModel::BinaryDecode { path: path@ },
            GenError::Io { path } => ErrorModel::Io { path: path@ },
            GenError::SourceAcquisition => ErrorModel::SourceAcquisition,
        }
    }
}

} // verus!
