//! Task templates and their preparation into spawn instructions.
//!
//! A task template describes a command to run; a task context carries the
//! editor state at the moment a task is requested. Preparing a template in a
//! context resolves its variables and yields a [`SpawnInTerminal`] record.

pub mod env;
pub mod pairs;
pub mod source;
pub mod template;
pub mod variables;

pub use env::EnvVariables;
pub use variables::{TaskVariables, VariableKey, VariableName};
pub use template::{
    Definition, RevealStrategy, SpawnInTerminal, SubstitutionError, Task, TaskContext, TaskDefinitions,
    TaskId, TaskTemplate,
};
pub use source::{OneshotSource, Registry, Schedule, SourceParseError, StaticSource, TaskSource};
