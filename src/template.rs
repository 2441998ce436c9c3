//! Task templates, and their preparation into spawn instructions.

use crate::env::{substituted, EnvVariables};
use crate::variables::{env_of, TaskVariables};
use vstd::prelude::*;

verus! {

/// Task identifier, unique within the application.
/// Task reruns and terminal tabs are managed by it.
#[derive(Debug, Clone, PartialEq, Eq, Hash)]
pub struct TaskId(pub String);

impl TaskId {
    /// A copy of the identifier.
    pub fn copied(&self) -> (r: TaskId)
        ensures
            r.0@ == self.0@,
    {
        TaskId(self.0.clone())
    }
}

/// What to do with the terminal pane and tab, after the command was started.
#[derive(Clone, Copy, Debug, PartialEq, Eq, Structural)]
pub enum RevealStrategy {
    /// Always show the terminal pane, add and focus the corresponding task's tab in it.
    Always,
    /// Do not change terminal pane focus, but still add/reuse the task's tab there.
    Never,
}

impl Default for RevealStrategy {
    fn default() -> (r: RevealStrategy)
        ensures
            r == RevealStrategy::Always,
    {
        RevealStrategy::Always
    }
}

/// Static task definition from the tasks config file.
#[derive(Debug, Clone)]
pub struct Definition {
    /// Human readable name of the task to display in the UI.
    pub label: String,
    /// Executable command to spawn.
    pub command: String,
    /// Arguments to the command.
    pub args: Vec<String>,
    /// Env overrides for the command, appended to the terminal's environment.
    pub env: EnvVariables,
    /// Current working directory to spawn the command into, defaults to the
    /// current project root. May refer to task variables.
    pub cwd: Option<String>,
    /// Whether to use a new terminal tab or reuse the existing one to spawn the process.
    pub use_new_terminal: bool,
    /// Whether to allow multiple instances of the same task to be run, or
    /// rather wait for the existing ones to finish.
    pub allow_concurrent_runs: bool,
    /// What to do with the terminal pane and tab, after the command was started.
    pub reveal: RevealStrategy,
}

/// What a [`Definition`] holds, as mathematical values.
pub struct DefinitionView {
    pub label: Seq<char>,
    pub command: Seq<char>,
    pub args: Seq<Seq<char>>,
    pub env: Map<Seq<char>, Seq<char>>,
    pub cwd: Option<Seq<char>>,
    pub use_new_terminal: bool,
    pub allow_concurrent_runs: bool,
    pub reveal: RevealStrategy,
}

/// The view of an optional string.
pub open spec fn opt_view(o: Option<String>) -> Option<Seq<char>> {
    match o {
        Some(s) => Some(s@),
        None => None,
    }
}

impl View for Definition {
    type V = DefinitionView;

    open spec fn view(&self) -> DefinitionView {
        DefinitionView {
            label: self.label@,
            command: self.command@,
            args: self.args@.map_values(|a: String| a@),
            env: self.env@,
            cwd: opt_view(self.cwd),
            use_new_terminal: self.use_new_terminal,
            allow_concurrent_runs: self.allow_concurrent_runs,
            reveal: self.reveal,
        }
    }
}

impl Definition {
    /// The definition is sound: its environment holds each key once.
    pub open spec fn wf(&self) -> bool {
        self.env.wf()
    }

    /// A copy of the definition.
    pub fn copied(&self) -> (r: Definition)
        requires
            self.wf(),
        ensures
            r.wf(),
            r@ == self@,
    {
        let mut env = EnvVariables::new();
        env.extend_from(&self.env);
        proof {
            assert(env@ =~= self.env@);
        }
        let args = copy_strings(&self.args);
        let cwd = match &self.cwd {
            Some(dir) => Some(dir.clone()),
            None => None,
        };
        let r = Definition {
            label: self.label.clone(),
            command: self.command.clone(),
            args,
            env,
            cwd,
            use_new_terminal: self.use_new_terminal,
            allow_concurrent_runs: self.allow_concurrent_runs,
            reveal: self.reveal,
        };
        assert(r@.args =~= self@.args);
        r
    }

    /// A definition with the given label and command, and every other field
    /// at its default.
    pub fn new(label: String, command: String) -> (r: Definition)
        ensures
            r.wf(),
            r.label@ == label@,
            r.command@ == command@,
            r.args@.len() == 0,
            r.env@ == Map::<Seq<char>, Seq<char>>::empty(),
            r.cwd is None,
            !r.use_new_terminal,
            !r.allow_concurrent_runs,
            r.reveal == RevealStrategy::Always,
    {
        Definition {
            label,
            command,
            args: Vec::new(),
            env: EnvVariables::new(),
            cwd: None,
            use_new_terminal: false,
            allow_concurrent_runs: false,
            reveal: RevealStrategy::Always,
        }
    }
}

impl Default for Definition {
    fn default() -> (r: Definition)
        ensures
            r.wf(),
            r.label@.len() == 0,
            r.command@.len() == 0,
            r.args@.len() == 0,
            r.env@ == Map::<Seq<char>, Seq<char>>::empty(),
            r.cwd is None,
            !r.use_new_terminal,
            !r.allow_concurrent_runs,
            r.reveal == RevealStrategy::Always,
    {
        Definition::new(String::new(), String::new())
    }
}

/// A group of task definitions, as a tasks file holds them.
#[derive(Debug, Clone)]
pub struct TaskDefinitions(pub Vec<Definition>);

/// The state in which a task is requested: the current file or function,
/// and where the task should run.
#[derive(Debug, Clone)]
pub struct TaskContext {
    /// A path to a directory in which the task should be executed.
    pub cwd: Option<String>,
    /// Additional environment variables associated with a given task.
    pub task_variables: TaskVariables,
}

impl Default for TaskContext {
    fn default() -> (r: TaskContext)
        ensures
            r.cwd is None,
            r.task_variables.wf(),
            r.task_variables@ == Map::<crate::variables::VariableKey, Seq<char>>::empty(),
    {
        TaskContext { cwd: None, task_variables: TaskVariables::new() }
    }
}

/// Everything needed to spawn a new terminal tab for a task.
#[derive(Debug, Clone)]
pub struct SpawnInTerminal {
    /// Id of the task to use when determining task tab affinity.
    pub id: TaskId,
    /// Human readable name of the terminal tab.
    pub label: String,
    /// Executable command to spawn.
    pub command: String,
    /// Arguments to the command.
    pub args: Vec<String>,
    /// Current working directory to spawn the command into.
    pub cwd: Option<String>,
    /// Env overrides for the command, appended to the terminal's environment.
    pub env: EnvVariables,
    /// Whether to use a new terminal tab or reuse the existing one to spawn the process.
    pub use_new_terminal: bool,
    /// Whether to allow multiple instances of the same task to be run, or
    /// rather wait for the existing ones to finish.
    pub allow_concurrent_runs: bool,
    /// What to do with the terminal pane and tab, after the command was started.
    pub reveal: RevealStrategy,
}

/// A template's working directory refers, without a default, to a variable
/// that the context does not set, or holds a malformed reference: the task
/// cannot be spawned.
#[derive(Debug, Clone)]
pub struct SubstitutionError {
    /// The working directory template that could not be resolved.
    pub template: String,
}

/// A task template: an identifier and the definition of the task.
#[derive(Debug, Clone)]
pub struct TaskTemplate {
    /// The identifier of the task.
    pub id: TaskId,
    /// What to run, and how.
    pub definition: Definition,
}

/// A task that can be spawned: it has an identifier, a name, a working
/// directory, and turns into a spawn instruction in a context.
pub trait Task {
    /// The identifier of the task, as text.
    spec fn task_id(&self) -> Seq<char>;

    /// The name of the task, as text.
    spec fn task_name(&self) -> Seq<char>;

    /// The working directory of the task, if it has one.
    spec fn task_cwd(&self) -> Option<Seq<char>>;

    /// The task is in a state to be prepared.
    spec fn ready(&self) -> bool;

    /// What preparing the task in the context `cx` gives, where it gave `r`.
    spec fn prepared_as(
        &self,
        cx: TaskContext,
        r: Result<SpawnInTerminal, SubstitutionError>,
    ) -> bool;

    /// Unique identifier of the task to spawn.
    fn id(&self) -> (r: &TaskId)
        ensures
            r.0@ == self.task_id(),
    ;

    /// Human readable name of the task to display in the UI.
    fn name(&self) -> (r: &str)
        ensures
            r@ == self.task_name(),
    ;

    /// Task's current working directory. If `None`, the current project's root will be used.
    fn cwd(&self) -> (r: Option<&str>)
        ensures
            match r {
                Some(dir) => self.task_cwd() == Some(dir@),
                None => self.task_cwd() is None,
            },
    ;

    /// Sets up everything needed to spawn the task in the given context:
    /// the instruction carries the task's identifier and name.
    fn prepare_exec(&self, cx: TaskContext) -> (r: Result<SpawnInTerminal, SubstitutionError>)
        requires
            self.ready(),
            cx.task_variables.wf(),
        ensures
            self.prepared_as(cx, r),
            r is Ok ==> r->Ok_0.id.0@ == self.task_id() && r->Ok_0.label@ == self.task_name(),
    ;
}

fn copy_strings(v: &Vec<String>) -> (r: Vec<String>)
    ensures
        r@ == v@,
{
    let mut r: Vec<String> = Vec::new();
    let mut i: usize = 0;
    while i < v.len()
        invariant
            i <= v@.len(),
            r@ == v@.take(i as int),
        decreases v@.len() - i,
    {
        r.push(v[i].clone());
        proof {
            assert(r@ =~= v@.take(i + 1));
        }
        i = i + 1;
    }
    proof {
        assert(v@.take(i as int) =~= v@);
    }
    r
}

/// The environment variables that a context's task variables turn into.
pub open spec fn context_env(vars: TaskVariables) -> Map<Seq<char>, Seq<char>> {
    env_of(vars@)
}

impl View for TaskTemplate {
    type V = (Seq<char>, DefinitionView);

    open spec fn view(&self) -> (Seq<char>, DefinitionView) {
        (self.id.0@, self.definition@)
    }
}

/// The template that free-text input gives: identifier, label and command
/// are all that text, and the rest is at its defaults.
pub open spec fn oneshot_view(prompt: Seq<char>) -> (Seq<char>, DefinitionView) {
    (
        prompt,
        DefinitionView {
            label: prompt,
            command: prompt,
            args: Seq::empty(),
            env: Map::empty(),
            cwd: None,
            use_new_terminal: false,
            allow_concurrent_runs: false,
            reveal: RevealStrategy::Always,
        },
    )
}

impl TaskTemplate {
    /// A copy of the template.
    pub fn copied(&self) -> (r: TaskTemplate)
        requires
            self.definition.wf(),
        ensures
            r.definition.wf(),
            r@ == self@,
    {
        TaskTemplate { id: self.id.copied(), definition: self.definition.copied() }
    }

    /// A template built from free-text input: its identifier, its label and
    /// its command are all that text, and the rest is at its defaults.
    pub fn oneshot(prompt: String) -> (r: TaskTemplate)
        ensures
            r.definition.wf(),
            r.id.0@ == prompt@,
            r.definition.label@ == prompt@,
            r.definition.command@ == prompt@,
            r.definition.args@.len() == 0,
            r.definition.env@ == Map::<Seq<char>, Seq<char>>::empty(),
            r.definition.cwd is None,
            !r.definition.use_new_terminal,
            !r.definition.allow_concurrent_runs,
            r.definition.reveal == RevealStrategy::Always,
            r@ == oneshot_view(prompt@),
    {
        let id = TaskId(prompt.clone());
        let label = prompt.clone();
        let r = TaskTemplate { id, definition: Definition::new(label, prompt) };
        assert(r.definition@.args =~= Seq::<Seq<char>>::empty());
        r
    }

    /// The spawn instruction for this template, given its resolved working
    /// directory and the environment that the task variables turned into:
    /// the template's fields as they are, and the definition's environment
    /// with the task variables set over it.
    pub fn spawn_in(&self, cwd: Option<String>, task_env: &EnvVariables) -> (r: SpawnInTerminal)
        requires
            self.definition.wf(),
            task_env.wf(),
        ensures
            r.id.0@ == self.id.0@,
            r.label@ == self.definition.label@,
            r.command@ == self.definition.command@,
            r.args@ == self.definition.args@,
            r.cwd == cwd,
            r.env.wf(),
            r.env@ == self.definition.env@.union_prefer_right(task_env@),
            r.use_new_terminal == self.definition.use_new_terminal,
            r.allow_concurrent_runs == self.definition.allow_concurrent_runs,
            r.reveal == self.definition.reveal,
    {
        let mut env = EnvVariables::new();
        env.extend_from(&self.definition.env);
        proof {
            assert(env@ =~= self.definition.env@);
        }
        env.extend_from(task_env);
        SpawnInTerminal {
            id: self.id.copied(),
            label: self.definition.label.clone(),
            command: self.definition.command.clone(),
            args: copy_strings(&self.definition.args),
            cwd,
            env,
            use_new_terminal: self.definition.use_new_terminal,
            allow_concurrent_runs: self.definition.allow_concurrent_runs,
            reveal: self.definition.reveal,
        }
    }

    /// What preparing the template in a context gives: the working
    /// directory template, if there is one, substituted from the context's
    /// variables (an error carrying the template where that fails), else the
    /// context's directory; the template's other fields as they are; and the
    /// definition's environment with the task variables set over it.
    pub open spec fn prepared(
        &self,
        cx: TaskContext,
        r: Result<SpawnInTerminal, SubstitutionError>,
    ) -> bool {
        &&& match self.definition.cwd {
            Some(template) => match substituted(template@, context_env(cx.task_variables)) {
                Some(dir) => r is Ok && r->Ok_0.cwd is Some && r->Ok_0.cwd->0@ == dir,
                None => r is Err && r->Err_0.template@ == template@,
            },
            None => r is Ok && r->Ok_0.cwd == cx.cwd,
        }
        &&& r is Ok ==> {
            let s = r->Ok_0;
            &&& s.id.0@ == self.id.0@
            &&& s.label@ == self.definition.label@
            &&& s.command@ == self.definition.command@
            &&& s.args@ == self.definition.args@
            &&& s.env.wf()
            &&& s.env@ == self.definition.env@.union_prefer_right(context_env(cx.task_variables))
            &&& s.use_new_terminal == self.definition.use_new_terminal
            &&& s.allow_concurrent_runs == self.definition.allow_concurrent_runs
            &&& s.reveal == self.definition.reveal
        }
    }

    /// Resolves the template in a context: the working directory template,
    /// if there is one, has its variable references substituted from the
    /// context's variables, else the context's directory is taken; the
    /// environment is the definition's, with the task variables set over it.
    /// Fails where the working directory cannot be substituted.
    pub fn prepare(&self, cx: TaskContext) -> (r: Result<SpawnInTerminal, SubstitutionError>)
        requires
            self.definition.wf(),
            cx.task_variables.wf(),
        ensures
            self.prepared(cx, r),
    {
        let TaskContext { cwd, task_variables } = cx;
        let task_env = task_variables.into_env_variables();
        let cwd = match &self.definition.cwd {
            Some(template) => match task_env.substitute(template) {
                Some(dir) => Some(dir),
                None => {
                    return Err(SubstitutionError { template: template.clone() });
                },
            },
            None => cwd,
        };
        Ok(self.spawn_in(cwd, &task_env))
    }
}

impl Task for TaskTemplate {
    open spec fn task_id(&self) -> Seq<char> {
        self.id.0@
    }

    open spec fn task_name(&self) -> Seq<char> {
        self.definition.label@
    }

    open spec fn task_cwd(&self) -> Option<Seq<char>> {
        opt_view(self.definition.cwd)
    }

    open spec fn ready(&self) -> bool {
        self.definition.wf()
    }

    open spec fn prepared_as(
        &self,
        cx: TaskContext,
        r: Result<SpawnInTerminal, SubstitutionError>,
    ) -> bool {
        self.prepared(cx, r)
    }

    fn id(&self) -> &TaskId {
        &self.id
    }

    fn name(&self) -> &str {
        self.definition.label.as_str()
    }

    fn cwd(&self) -> Option<&str> {
        match &self.definition.cwd {
            Some(dir) => Some(dir.as_str()),
            None => None,
        }
    }

    fn prepare_exec(&self, cx: TaskContext) -> Result<SpawnInTerminal, SubstitutionError> {
        self.prepare(cx)
    }
}

} // verus!
