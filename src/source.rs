//! Sources of tasks, and the registry that gathers the tasks of all of them.

use crate::template::{oneshot_view, Definition, DefinitionView, TaskId, TaskTemplate};
use vstd::prelude::*;

verus! {

/// A source failed to parse its backing data.
#[derive(Debug, Clone)]
pub struct SourceParseError {
    /// What went wrong.
    pub message: String,
}

/// Tasks defined in a tasks file. The file is read and parsed off the
/// scheduling path; the source holds the outcome of the last parse.
#[derive(Debug)]
pub struct StaticSource {
    /// What the identifiers of this source's tasks start with.
    pub id_base: String,
    /// The definitions of the last parse of the file, or how it failed.
    pub definitions: Result<Vec<Definition>, SourceParseError>,
}

/// Tasks built from free-text input, each scheduled once.
#[derive(Debug)]
pub struct OneshotSource {
    /// The templates that wait to be scheduled.
    pub pending: Vec<TaskTemplate>,
}

/// A provider of task templates.
#[derive(Debug)]
pub enum TaskSource {
    /// Tasks from a tasks file.
    Static(StaticSource),
    /// Tasks built from free-text input.
    Oneshot(OneshotSource),
}

/// The identifier of the task that a static source makes of a definition:
/// the source's base, an underscore, and the definition's label.
pub open spec fn static_task_id(id_base: Seq<char>, label: Seq<char>) -> Seq<char> {
    id_base + seq!['_'] + label
}

impl TaskSource {
    /// Every template and definition that the source holds is sound.
    pub open spec fn wf(&self) -> bool {
        match self {
            TaskSource::Static(s) => match s.definitions {
                Ok(defs) => forall|i: int| 0 <= i < defs@.len() ==> (#[trigger] defs@[i]).wf(),
                Err(_) => true,
            },
            TaskSource::Oneshot(o) => forall|i: int|
                0 <= i < o.pending@.len() ==> (#[trigger] o.pending@[i]).definition.wf(),
        }
    }

    /// The templates that the source offers for scheduling, or `None` where
    /// it failed to parse its data.
    pub open spec fn offered(&self) -> Option<Seq<(Seq<char>, DefinitionView)>> {
        match self {
            TaskSource::Static(s) => match s.definitions {
                Ok(defs) => Some(
                    defs@.map_values(
                        |d: Definition| (static_task_id(s.id_base@, d.label@), d@),
                    ),
                ),
                Err(_) => None,
            },
            TaskSource::Oneshot(o) => Some(o.pending@.map_values(|t: TaskTemplate| t@)),
        }
    }

    /// What the source is after it was asked for its tasks: a one-shot
    /// source is emptied, a static one stays as it is.
    pub open spec fn after_scheduling(&self, next: TaskSource) -> bool {
        match self {
            TaskSource::Static(_) => next == *self,
            TaskSource::Oneshot(_) => next is Oneshot && next->Oneshot_0.pending@.len() == 0,
        }
    }
}

impl OneshotSource {
    /// A source with nothing to schedule.
    pub fn new() -> (r: OneshotSource)
        ensures
            r.pending@.len() == 0,
    {
        OneshotSource { pending: Vec::new() }
    }

    /// Adds a task built from free-text input, to be scheduled once;
    /// returns its identifier, which is the text itself.
    pub fn spawn(&mut self, prompt: String) -> (r: TaskId)
        requires
            forall|i: int|
                0 <= i < old(self).pending@.len() ==> (#[trigger] old(self).pending@[i]).definition.wf(),
        ensures
            r.0@ == prompt@,
            final(self).pending@.len() == old(self).pending@.len() + 1,
            forall|i: int|
                0 <= i < old(self).pending@.len() ==> #[trigger] final(self).pending@[i] == old(self).pending@[i],
            final(self).pending@.last()@ == oneshot_view(prompt@),
            forall|i: int|
                0 <= i < final(self).pending@.len() ==> (#[trigger] final(self).pending@[i]).definition.wf(),
    {
        let template = TaskTemplate::oneshot(prompt);
        let id = template.id.copied();
        self.pending.push(template);
        id
    }
}

/// The tasks of one source, each with the source's position.
pub open spec fn block(src: TaskSource, j: int) -> Seq<(int, (Seq<char>, DefinitionView))> {
    match src.offered() {
        Some(ts) => ts.map_values(|t: (Seq<char>, DefinitionView)| (j, t)),
        None => Seq::empty(),
    }
}

/// The tasks of a sequence of sources: the tasks of each source in turn.
pub open spec fn gathered(sources: Seq<TaskSource>) -> Seq<(int, (Seq<char>, DefinitionView))>
    decreases sources.len(),
{
    if sources.len() == 0 {
        Seq::empty()
    } else {
        gathered(sources.drop_last()) + block(sources.last(), sources.len() - 1)
    }
}

/// The positions of the sources that failed to parse their data.
pub open spec fn failed(sources: Seq<TaskSource>) -> Seq<int>
    decreases sources.len(),
{
    if sources.len() == 0 {
        Seq::empty()
    } else if sources.last().offered() is None {
        failed(sources.drop_last()).push(sources.len() - 1)
    } else {
        failed(sources.drop_last())
    }
}

/// What a registry hands out when asked for its tasks.
#[derive(Debug)]
pub struct Schedule {
    /// The tasks of all sources, each with the position of its source.
    pub tasks: Vec<(usize, TaskTemplate)>,
    /// The sources that failed to parse their data, with the failure.
    pub errors: Vec<(usize, SourceParseError)>,
}

impl Schedule {
    /// The tasks, as mathematical values.
    pub open spec fn tasks_view(&self) -> Seq<(int, (Seq<char>, DefinitionView))> {
        self.tasks@.map_values(|p: (usize, TaskTemplate)| (p.0 as int, p.1@))
    }

    /// The positions of the failed sources.
    pub open spec fn error_positions(&self) -> Seq<int> {
        self.errors@.map_values(|p: (usize, SourceParseError)| p.0 as int)
    }
}

/// Two of the tasks share an identifier.
pub open spec fn shares_id(tasks: Seq<(int, (Seq<char>, DefinitionView))>, id: Seq<char>) -> bool {
    exists|a: int, b: int|
        0 <= a < b < tasks.len() && (#[trigger] tasks[a]).1.0 == id && (#[trigger] tasks[b]).1.0
            == id
}

impl Schedule {
    /// An identifier that two of the tasks share, if there is one: such a
    /// collision is reported, never settled by dropping one of the tasks.
    pub fn duplicate_task_id(&self) -> (r: Option<TaskId>)
        ensures
            match r {
                Some(id) => shares_id(self.tasks_view(), id.0@),
                None => forall|id: Seq<char>| !shares_id(self.tasks_view(), id),
            },
    {
        let ghost tv = self.tasks_view();
        let n = self.tasks.len();
        let mut b: usize = 0;
        while b < n
            invariant
                n == self.tasks@.len(),
                tv == self.tasks_view(),
                b <= n,
                forall|x: int, y: int| 0 <= x < y < b ==> (#[trigger] tv[x]).1.0 != (#[trigger] tv[y]).1.0,
            decreases n - b,
        {
            let mut a: usize = 0;
            while a < b
                invariant
                    n == self.tasks@.len(),
                    tv == self.tasks_view(),
                    a <= b < n,
                    forall|x: int| 0 <= x < a ==> (#[trigger] tv[x]).1.0 != tv[b as int].1.0,
                decreases b - a,
            {
                if self.tasks[a].1.id.0 == self.tasks[b].1.id.0 {
                    assert(tv[a as int].1.0 == tv[b as int].1.0);
                    return Some(self.tasks[a].1.id.copied());
                }
                a = a + 1;
            }
            b = b + 1;
        }
        assert forall|id: Seq<char>| !shares_id(tv, id) by {
            assert forall|x: int, y: int| 0 <= x < y < tv.len() implies !((#[trigger] tv[x]).1.0 == id
                && (#[trigger] tv[y]).1.0 == id) by {}
        }
        None
    }
}

/// An ordered set of task sources.
#[derive(Debug)]
pub struct Registry {
    /// The sources, in order.
    pub sources: Vec<TaskSource>,
}

fn static_templates(s: &StaticSource, defs: &Vec<Definition>) -> (r: Vec<TaskTemplate>)
    requires
        forall|i: int| 0 <= i < defs@.len() ==> (#[trigger] defs@[i]).wf(),
    ensures
        r@.len() == defs@.len(),
        forall|i: int|
            0 <= i < r@.len() ==> (#[trigger] r@[i]).definition.wf() && r@[i]@ == (
            static_task_id(s.id_base@, defs@[i].label@),
            defs@[i]@,
            ),
{
    let mut r: Vec<TaskTemplate> = Vec::new();
    let mut k: usize = 0;
    while k < defs.len()
        invariant
            k <= defs@.len(),
            r@.len() == k,
            forall|i: int| 0 <= i < defs@.len() ==> (#[trigger] defs@[i]).wf(),
            forall|i: int|
                0 <= i < k ==> (#[trigger] r@[i]).definition.wf() && r@[i]@ == (
                static_task_id(s.id_base@, defs@[i].label@),
                defs@[i]@,
                ),
        decreases defs@.len() - k,
    {
        let mut id = s.id_base.clone();
        proof {
            reveal_strlit("_");
        }
        id.append("_");
        id.append(defs[k].label.as_str());
        let ghost expected = static_task_id(s.id_base@, defs@[k as int].label@);
        assert(id@ =~= expected);
        r.push(TaskTemplate { id: TaskId(id), definition: defs[k].copied() });
        k = k + 1;
    }
    r
}

/// The views of a sequence of templates.
pub open spec fn templates_view(v: Seq<TaskTemplate>) -> Seq<(Seq<char>, DefinitionView)> {
    v.map_values(|t: TaskTemplate| t@)
}

/// The views of a sequence of tasks with their sources' positions.
pub open spec fn tagged_view(v: Seq<(usize, TaskTemplate)>) -> Seq<(int, (Seq<char>, DefinitionView))> {
    v.map_values(|p: (usize, TaskTemplate)| (p.0 as int, p.1@))
}

impl TaskSource {
    /// The templates that the source offers, or the failure of its parse.
    pub fn offered_templates(&self) -> (r: Result<Vec<TaskTemplate>, SourceParseError>)
        requires
            self.wf(),
        ensures
            match r {
                Ok(v) => self.offered() == Some(templates_view(v@)) && forall|i: int|
                    0 <= i < v@.len() ==> (#[trigger] v@[i]).definition.wf(),
                Err(_) => self.offered() is None,
            },
    {
        match self {
            TaskSource::Static(s) => match &s.definitions {
                Ok(defs) => {
                    let v = static_templates(s, defs);
                    assert(self.offered()->0 =~= templates_view(v@));
                    Ok(v)
                },
                Err(e) => Err(e.clone()),
            },
            TaskSource::Oneshot(o) => {
                let mut v: Vec<TaskTemplate> = Vec::new();
                let mut k: usize = 0;
                while k < o.pending.len()
                    invariant
                        k <= o.pending@.len(),
                        v@.len() == k,
                        forall|i: int|
                            0 <= i < o.pending@.len() ==> (#[trigger] o.pending@[i]).definition.wf(),
                        forall|i: int|
                            0 <= i < k ==> (#[trigger] v@[i]).definition.wf() && v@[i]@
                                == o.pending@[i]@,
                    decreases o.pending@.len() - k,
                {
                    v.push(o.pending[k].copied());
                    k = k + 1;
                }
                assert(self.offered()->0 =~= templates_view(v@));
                Ok(v)
            },
        }
    }
}

fn append_tagged(tasks: &mut Vec<(usize, TaskTemplate)>, j: usize, offered: Vec<TaskTemplate>)
    requires
        forall|i: int| 0 <= i < offered@.len() ==> (#[trigger] offered@[i]).definition.wf(),
        forall|i: int| 0 <= i < old(tasks)@.len() ==> (#[trigger] old(tasks)@[i]).1.definition.wf(),
    ensures
        tagged_view(final(tasks)@) == tagged_view(old(tasks)@) + templates_view(offered@).map_values(
            |t: (Seq<char>, DefinitionView)| (j as int, t),
        ),
        forall|i: int| 0 <= i < final(tasks)@.len() ==> (#[trigger] final(tasks)@[i]).1.definition.wf(),
{
    let ghost start = tasks@;
    let ghost all = offered@;
    let mut rest = offered;
    while rest.len() > 0
        invariant
            rest@.len() <= all.len(),
            forall|i: int| 0 <= i < rest@.len() ==> #[trigger] rest@[i] == all[all.len() - rest@.len() + i],
            forall|i: int| 0 <= i < all.len() ==> (#[trigger] all[i]).definition.wf(),
            tasks@.len() == start.len() + all.len() - rest@.len(),
            forall|i: int| 0 <= i < start.len() ==> #[trigger] tasks@[i] == start[i],
            forall|i: int|
                0 <= i < all.len() - rest@.len() ==> #[trigger] tasks@[start.len() + i] == (j, all[i]),
            forall|i: int| 0 <= i < tasks@.len() ==> (#[trigger] tasks@[i]).1.definition.wf(),
        decreases rest@.len(),
    {
        let t = rest.remove(0);
        tasks.push((j, t));
    }
    let ghost added = templates_view(all).map_values(|t: (Seq<char>, DefinitionView)| (j as int, t));
    assert forall|i: int| 0 <= i < tasks@.len() implies #[trigger] tagged_view(tasks@)[i] == (
    tagged_view(start) + added)[i] by {
        if i >= start.len() {
            assert(tasks@[start.len() + (i - start.len())] == (j, all[i - start.len()]));
        }
    }
    assert(tagged_view(tasks@) =~= tagged_view(start) + templates_view(all).map_values(
        |t: (Seq<char>, DefinitionView)| (j as int, t),
    ));
}

impl Registry {
    /// A registry without sources.
    pub fn new() -> (r: Registry)
        ensures
            r.wf(),
            r.sources@.len() == 0,
    {
        Registry { sources: Vec::new() }
    }

    /// Adds a source after the others; returns its position.
    pub fn add_source(&mut self, source: TaskSource) -> (r: usize)
        requires
            old(self).wf(),
            source.wf(),
            old(self).sources@.len() < usize::MAX,
        ensures
            final(self).wf(),
            r == old(self).sources@.len(),
            final(self).sources@ == old(self).sources@.push(source),
    {
        let r = self.sources.len();
        self.sources.push(source);
        r
    }

    /// Every source is sound.
    pub open spec fn wf(&self) -> bool {
        forall|i: int| 0 <= i < self.sources@.len() ==> (#[trigger] self.sources@[i]).wf()
    }

    /// Collects the tasks of all sources, source by source and in each
    /// source's order, with the position of the source that offered each;
    /// and the sources that failed to parse their data. A failed source
    /// offers no task and leaves the tasks of the others as they are.
    /// One-shot sources are emptied.
    pub fn tasks_to_schedule(&mut self) -> (r: Schedule)
        requires
            old(self).wf(),
        ensures
            final(self).wf(),
            r.tasks_view() == gathered(old(self).sources@),
            r.error_positions() == failed(old(self).sources@),
            final(self).sources@.len() == old(self).sources@.len(),
            forall|i: int|
                0 <= i < old(self).sources@.len() ==> (#[trigger] old(self).sources@[i]).after_scheduling(
                    final(self).sources@[i],
                ),
            forall|i: int| 0 <= i < r.tasks@.len() ==> (#[trigger] r.tasks@[i]).1.definition.wf(),
    {
        let ghost start = self.sources@;
        let mut tasks: Vec<(usize, TaskTemplate)> = Vec::new();
        let mut errors: Vec<(usize, SourceParseError)> = Vec::new();
        let n = self.sources.len();
        let mut j: usize = 0;
        while j < n
            invariant
                n == start.len(),
                j <= n,
                self.sources@.len() == n,
                forall|i: int| 0 <= i < n ==> (#[trigger] start[i]).wf(),
                forall|i: int| j <= i < n ==> #[trigger] self.sources@[i] == start[i],
                forall|i: int|
                    0 <= i < j ==> (#[trigger] start[i]).after_scheduling(self.sources@[i])
                        && self.sources@[i].wf(),
                tasks@.map_values(|p: (usize, TaskTemplate)| (p.0 as int, p.1@)) == gathered(
                    start.take(j as int),
                ),
                errors@.map_values(|p: (usize, SourceParseError)| p.0 as int) == failed(
                    start.take(j as int),
                ),
                forall|i: int| 0 <= i < tasks@.len() ==> (#[trigger] tasks@[i]).1.definition.wf(),
            decreases n - j,
        {
            let ghost src = start[j as int];
            proof {
                assert(start.take(j + 1).drop_last() =~= start.take(j as int));
                assert(start.take(j + 1).last() == src);
            }
            match self.sources[j].offered_templates() {
                Ok(offered) => {
                    append_tagged(&mut tasks, j, offered);
                },
                Err(e) => {
                    let ghost before = errors@;
                    errors.push((j, e));
                    proof {
                        assert(errors@.map_values(|p: (usize, SourceParseError)| p.0 as int)
                            =~= before.map_values(|p: (usize, SourceParseError)| p.0 as int).push(
                            j as int,
                        ));
                    }
                },
            }
            let is_oneshot = match &self.sources[j] {
                TaskSource::Oneshot(_) => true,
                TaskSource::Static(_) => false,
            };
            if is_oneshot {
                self.sources.set(j, TaskSource::Oneshot(OneshotSource { pending: Vec::new() }));
            }
            j = j + 1;
        }
        proof {
            assert(start.take(n as int) =~= start);
            assert forall|i: int| 0 <= i < n implies #[trigger] self.sources@[i].wf() by {
                assert(start[i].after_scheduling(self.sources@[i]));
            }
        }
        Schedule { tasks, errors }
    }
}

/// The tasks of a gathered list that come from the source at position `j`,
/// in order.
pub open spec fn from_source<T>(ts: Seq<(int, T)>, j: int) -> Seq<T>
    decreases ts.len(),
{
    if ts.len() == 0 {
        Seq::empty()
    } else if ts.last().0 == j {
        from_source(ts.drop_last(), j).push(ts.last().1)
    } else {
        from_source(ts.drop_last(), j)
    }
}

proof fn lemma_from_source_append<T>(a: Seq<(int, T)>, b: Seq<(int, T)>, j: int)
    ensures
        from_source(a + b, j) == from_source(a, j) + from_source(b, j),
    decreases b.len(),
{
    if b.len() == 0 {
        assert(a + b =~= a);
        assert(from_source(a, j) + from_source(b, j) =~= from_source(a, j));
    } else {
        assert((a + b).drop_last() =~= a + b.drop_last());
        assert((a + b).last() == b.last());
        lemma_from_source_append(a, b.drop_last(), j);
        if b.last().0 == j {
            assert(from_source(a, j) + from_source(b, j) =~= (from_source(a, j) + from_source(
                b.drop_last(),
                j,
            )).push(b.last().1));
        }
    }
}

proof fn lemma_from_source_tagged<T>(ts: Seq<T>, k: int, j: int)
    ensures
        from_source(ts.map_values(|t: T| (k, t)), j) == if k == j {
            ts
        } else {
            Seq::empty()
        },
    decreases ts.len(),
{
    let tagged = ts.map_values(|t: T| (k, t));
    if ts.len() > 0 {
        assert(tagged.drop_last() =~= ts.drop_last().map_values(|t: T| (k, t)));
        lemma_from_source_tagged(ts.drop_last(), k, j);
        if k == j {
            assert(ts.drop_last().push(ts.last()) =~= ts);
        }
    } else {
        if k == j {
            assert(ts =~= Seq::empty());
        }
    }
}

/// Registry isolation: whatever the other sources hold, and whether or not
/// they fail to parse their data, the tasks that the registry gathers from a
/// source are the tasks that source offers, in its order, and none where
/// it failed.
pub proof fn lemma_sources_isolated(sources: Seq<TaskSource>, j: int)
    requires
        0 <= j < sources.len(),
    ensures
        from_source(gathered(sources), j) == match sources[j].offered() {
            Some(ts) => ts,
            None => Seq::empty(),
        },
    decreases sources.len(),
{
    let p = sources.drop_last();
    let last = sources.len() - 1;
    lemma_from_source_append(gathered(p), block(sources.last(), last), j);
    match sources.last().offered() {
        Some(ts) => lemma_from_source_tagged(ts, last, j),
        None => {},
    }
    if j < last {
        assert(p[j] == sources[j]);
        lemma_sources_isolated(p, j);
    } else {
        lemma_no_tasks_beyond(p, j);
    }
    assert(from_source(gathered(p), j) + from_source(block(sources.last(), last), j)
        =~= from_source(gathered(sources), j));
}

proof fn lemma_no_tasks_beyond(sources: Seq<TaskSource>, j: int)
    requires
        j >= sources.len(),
    ensures
        from_source(gathered(sources), j) == Seq::<(Seq<char>, DefinitionView)>::empty(),
    decreases sources.len(),
{
    if sources.len() > 0 {
        let p = sources.drop_last();
        let last = sources.len() - 1;
        lemma_from_source_append(gathered(p), block(sources.last(), last), j);
        match sources.last().offered() {
            Some(ts) => lemma_from_source_tagged(ts, last, j),
            None => {},
        }
        lemma_no_tasks_beyond(p, j);
        assert(from_source(block(sources.last(), last), j) =~= Seq::<(Seq<char>, DefinitionView)>::empty());
    }
}

} // verus!
