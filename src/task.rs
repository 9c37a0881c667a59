//! Classifying an artifact path as something to test or something to run.
use vstd::prelude::*;

use crate::path::{file_name_of, file_stem_of, parent_of, path_file_name, path_file_stem, path_parent};

verus! {

/// The name of the directory that holds per-dependency build outputs; an
/// artifact found there is a test binary.
pub const DEPS_DIR: &'static str = "deps";

/// What to do with an artifact.
#[derive(Clone, Debug, PartialEq, Eq)]
pub enum Task {
    /// Generate bindings into `out_dir` and serve the module named `wasm`.
    Run { out_dir: String, wasm: String },
    /// Hand the artifact to the test runner.
    Test,
}

/// Why a path could not be classified.
#[derive(Clone, Copy, Debug, PartialEq, Eq)]
pub enum TaskError {
    /// The path has no file name, so no stem.
    NoFileStem,
    /// The path has no parent directory, or its parent has no final
    /// component to inspect.
    NoParentDir,
}

/// A task, with its strings seen as character sequences.
pub enum TaskModel {
    Run { out_dir: Seq<char>, wasm: Seq<char> },
    Test,
}

impl View for Task {
    type V = TaskModel;

    open spec fn view(&self) -> TaskModel {
        match self {
            Task::Run { out_dir, wasm } => TaskModel::Run { out_dir: out_dir@, wasm: wasm@ },
            Task::Test => TaskModel::Test,
        }
    }
}

/// The classification of a path's text: its stem first, then its parent,
/// then the parent's final component, which decides between the two tasks.
pub open spec fn classify_spec(p: Seq<char>) -> Result<TaskModel, TaskError> {
    match file_stem_of(p) {
        None => Err(TaskError::NoFileStem),
        Some(stem) => match parent_of(p) {
            None => Err(TaskError::NoParentDir),
            Some(dir) => match file_name_of(dir) {
                None => Err(TaskError::NoParentDir),
                Some(name) => if name == DEPS_DIR@ {
                    Ok(TaskModel::Test)
                } else {
                    Ok(TaskModel::Run { out_dir: dir, wasm: stem })
                },
            },
        },
    }
}

impl Task {
    /// Classifies the artifact at `path`: a test where its directory is named
    /// `deps`, otherwise a run out of that directory under the artifact's stem.
    pub fn classify(path: &str) -> (r: Result<Task, TaskError>)
        ensures
            match r {
                Ok(t) => classify_spec(path@) == Ok::<TaskModel, TaskError>(t@),
                Err(e) => classify_spec(path@) == Err::<TaskModel, TaskError>(e),
            },
    {
        let wasm = match path_file_stem(path) {
            Some(s) => s,
            None => return Err(TaskError::NoFileStem),
        };
        let out_dir = match path_parent(path) {
            Some(d) => d,
            None => return Err(TaskError::NoParentDir),
        };
        let name = match path_file_name(out_dir.as_str()) {
            Some(n) => n,
            None => return Err(TaskError::NoParentDir),
        };
        let deps = String::from_str(DEPS_DIR);
        if name == deps {
            Ok(Task::Test)
        } else {
            Ok(Task::Run { out_dir, wasm })
        }
    }
}

} // verus!

verus! {

/// An artifact whose directory is named exactly `deps` is a test, whatever
/// the rest of its path.
pub proof fn lemma_deps_dir_is_test(p: Seq<char>)
    requires
        file_stem_of(p) is Some,
        parent_of(p) is Some,
        file_name_of(parent_of(p).unwrap()) == Some(DEPS_DIR@),
    ensures
        classify_spec(p) == Ok::<TaskModel, TaskError>(TaskModel::Test),
{
}

/// An artifact whose directory has any other name is run out of that
/// directory, under the artifact's stem.
pub proof fn lemma_other_dir_is_run(p: Seq<char>, name: Seq<char>)
    requires
        file_stem_of(p) is Some,
        parent_of(p) is Some,
        file_name_of(parent_of(p).unwrap()) == Some(name),
        name != DEPS_DIR@,
    ensures
        classify_spec(p) == Ok::<TaskModel, TaskError>(
            TaskModel::Run { out_dir: parent_of(p).unwrap(), wasm: file_stem_of(p).unwrap() },
        ),
{
}

} // verus!
