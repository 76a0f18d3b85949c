//! The desktop app's state and its error type.

use vstd::prelude::*;
use vstd::string::StrSliceExecFns;
use vstd::string::StringExecFns;
use crate::text::push_str;

verus! {

/// An error of a desktop command.
#[derive(Clone, Debug)]
pub enum AppError {
    /// `unf` could not be started.
    SpawnFailed(String),
    /// `unf` reported an error.
    UnfError(String),
    /// The output of `unf` could not be read.
    ParseError(String),
    /// No project is selected.
    NoProject,
    /// A background task failed.
    JoinFailed(String),
}

impl AppError {
    /// The text of the error, as the app shows it.
    pub open spec fn spec_message(&self) -> Seq<char> {
        match self {
            AppError::SpawnFailed(m) => "Failed to start unf: "@ + m@,
            AppError::UnfError(m) => "unf error: "@ + m@,
            AppError::ParseError(m) => "Failed to parse unf output: "@ + m@,
            AppError::NoProject => "No project selected"@,
            AppError::JoinFailed(m) => "Task failed: "@ + m@,
        }
    }

    /// The text of the error (see `spec_message`).
    pub fn message(&self) -> (r: String)
        ensures
            r@ == self.spec_message(),
    {
        let (head, detail) = match self {
            AppError::SpawnFailed(m) => ("Failed to start unf: ", m.as_str()),
            AppError::UnfError(m) => ("unf error: ", m.as_str()),
            AppError::ParseError(m) => ("Failed to parse unf output: ", m.as_str()),
            AppError::NoProject => {
                return String::from_str("No project selected");
            },
            AppError::JoinFailed(m) => ("Task failed: ", m.as_str()),
        };
        let mut r = String::from_str(head);
        push_str(&mut r, detail);
        r
    }
}

/// The desktop app's state: the project the user selected, if any.
#[derive(Clone, Debug)]
pub struct AppState {
    pub selected_project: Option<String>,
}

impl AppState {
    /// No project selected.
    pub fn new() -> (r: Self)
        ensures
            r.selected_project is None,
    {
        AppState { selected_project: None }
    }

    /// The selected project, or `NoProject`.
    pub fn selected_project(&self) -> (r: Result<String, AppError>)
        ensures
            match self.selected_project {
                Some(p) => r matches Ok(s) && s@ == p@,
                None => r matches Err(e) && e is NoProject,
            },
    {
        match &self.selected_project {
            Some(p) => Ok(p.clone()),
            None => Err(AppError::NoProject),
        }
    }

    /// Selects a project.
    pub fn set_selected_project(&mut self, path: String)
        ensures
            final(self).selected_project == Some(path),
    {
        self.selected_project = Some(path);
    }
}

} // verus!
