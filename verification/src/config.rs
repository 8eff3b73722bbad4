//! The loaded workspace configuration: tasks, namespaces, and their fields.

use vstd::prelude::*;

verus! {

/// A task's command: either one string handed to a shell, or an argv list.
#[derive(Debug, Clone)]
pub enum Run {
    Command(String),
    Args(Vec<String>),
}

/// A task's shell setting: a boolean (true selects the default shell) or an
/// explicit interpreter path.
#[derive(Debug, Clone)]
pub enum Shell {
    Bool(bool),
    Path(String),
}

/// A file-set specification: a flat pattern list where a leading `!` marks
/// exclusion, or an object with separate inclusion and exclusion lists.
#[derive(Debug, Clone)]
pub enum Files {
    List(Vec<String>),
    Object { included: Vec<String>, excluded: Vec<String> },
}

/// A usage example attached to a task for documentation.
#[derive(Debug, Clone)]
pub struct Example {
    pub description: Option<String>,
    pub run: String,
}

/// One task: its command, shell setting, dependency edges, input and output
/// file sets, and documentation fields.
#[derive(Debug, Clone)]
pub struct Task {
    pub run: Run,
    pub shell: Option<Shell>,
    pub dependencies: Option<Vec<String>>,
    pub inputs: Option<Files>,
    pub outputs: Option<Files>,
    pub usage: Option<String>,
    pub description: Option<String>,
    pub examples: Option<Vec<Example>>,
}

/// Look a name up in an association list; the first matching entry wins.
pub open spec fn assoc_get<V>(entries: Seq<(String, V)>, name: Seq<char>) -> Option<V>
    decreases entries.len(),
{
    if entries.len() == 0 {
        None
    } else if entries[0].0@ == name {
        Some(entries[0].1)
    } else {
        assoc_get(entries.skip(1), name)
    }
}

/// Distinct keys, as the entries of a loaded configuration map have.
pub open spec fn unique_keys<V>(entries: Seq<(String, V)>) -> bool {
    forall|i: int, j: int| 0 <= i < j < entries.len() ==> (#[trigger] entries[i].0@)
        != (#[trigger] entries[j].0@)
}

/// Under distinct keys, lookup returns the value of the one matching entry,
/// wherever it stands.
pub proof fn lemma_assoc_get_unique<V>(entries: Seq<(String, V)>, i: int)
    requires
        unique_keys(entries),
        0 <= i < entries.len(),
    ensures
        assoc_get(entries, entries[i].0@) == Some(entries[i].1),
    decreases entries.len(),
{
    if i == 0 {
    } else {
        assert(entries[0].0@ != entries[i].0@);
        assert(entries.skip(1)[i - 1] == entries[i]);
        assert forall|a: int, b: int|
            0 <= a < b < entries.skip(1).len() implies (#[trigger] entries.skip(1)[a].0@) != (
        #[trigger] entries.skip(1)[b].0@) by {
            assert(entries.skip(1)[a] == entries[a + 1]);
            assert(entries.skip(1)[b] == entries[b + 1]);
        }
        lemma_assoc_get_unique(entries.skip(1), i - 1);
    }
}

/// Appending a fresh key keeps the keys distinct.
pub proof fn lemma_unique_keys_push<V>(entries: Seq<(String, V)>, name: String, value: V)
    requires
        unique_keys(entries),
        forall|i: int| 0 <= i < entries.len() ==> (#[trigger] entries[i].0@) != name@,
    ensures
        unique_keys(entries.push((name, value))),
{
    let pushed = entries.push((name, value));
    assert forall|i: int, j: int| 0 <= i < j < pushed.len() implies (#[trigger] pushed[i].0@) != (
    #[trigger] pushed[j].0@) by {
        if j < entries.len() {
            assert(pushed[i] == entries[i]);
            assert(pushed[j] == entries[j]);
        } else {
            assert(pushed[i] == entries[i]);
        }
    }
}

/// A value found by `assoc_get` is the value of some entry.
pub proof fn lemma_assoc_get_is_entry<V>(entries: Seq<(String, V)>, name: Seq<char>)
    ensures
        assoc_get(entries, name) matches Some(v) ==> exists|i: int|
            0 <= i < entries.len() && #[trigger] entries[i].1 == v,
    decreases entries.len(),
{
    if entries.len() > 0 && !(entries[0].0@ == name) {
        lemma_assoc_get_is_entry(entries.skip(1), name);
        if assoc_get(entries, name) is Some {
            let v = assoc_get(entries, name).unwrap();
            let j = choose|j: int|
                0 <= j < entries.skip(1).len() && #[trigger] entries.skip(1)[j].1 == v;
            assert(entries[j + 1].1 == v);
        }
    }
}

/// The tasks of a configuration or namespace, keyed by name.
#[derive(Debug, Clone)]
pub struct TaskTable {
    pub entries: Vec<(String, Task)>,
}

impl View for TaskTable {
    type V = Seq<(String, Task)>;

    open spec fn view(&self) -> Seq<(String, Task)> {
        self.entries@
    }
}

impl TaskTable {
    pub fn new() -> (r: TaskTable)
        ensures
            r@ == Seq::<(String, Task)>::empty(),
    {
        TaskTable { entries: Vec::new() }
    }

    pub fn insert(&mut self, name: String, task: Task)
        ensures
            final(self)@ == old(self)@.push((name, task)),
    {
        self.entries.push((name, task));
    }

    pub fn len(&self) -> (r: usize)
        ensures
            r == self@.len(),
    {
        self.entries.len()
    }

    pub fn key_at(&self, i: usize) -> (r: &String)
        requires
            i < self@.len(),
        ensures
            r == self@[i as int].0,
    {
        &self.entries[i].0
    }

    pub fn get(&self, name: &String) -> (r: Option<&Task>)
        ensures
            match r {
                Some(t) => assoc_get(self@, name@) == Some(*t),
                None => assoc_get(self@, name@) is None,
            },
    {
        let ghost whole = self.entries@;
        proof {
            assert(whole.skip(0) =~= whole);
        }
        let mut i: usize = 0;
        while i < self.entries.len()
            invariant
                0 <= i <= whole.len(),
                whole == self.entries@,
                assoc_get(whole, name@) == assoc_get(whole.skip(i as int), name@),
            decreases whole.len() - i,
        {
            if self.entries[i].0.eq(name) {
                assert(whole.skip(i as int)[0] == whole[i as int]);
                return Some(&self.entries[i].1);
            }
            proof {
                assert(whole.skip(i as int)[0] == whole[i as int]);
                assert(whole.skip(i as int).skip(1) =~= whole.skip(i + 1));
            }
            i += 1;
        }
        None
    }
}

/// The namespaces of a configuration, keyed by name.
#[derive(Debug, Clone)]
pub struct NamespaceTable {
    pub entries: Vec<(String, Namespace)>,
}

/// A namespace: a named group of tasks.
#[derive(Debug, Clone)]
pub struct Namespace {
    pub tasks: TaskTable,
}

/// Either a namespace or a task, as a configuration value may be.
#[derive(Debug, Clone)]
pub enum NamespaceOrTask {
    Namespace(Namespace),
    Task(Task),
}

impl View for NamespaceTable {
    type V = Seq<(String, Namespace)>;

    open spec fn view(&self) -> Seq<(String, Namespace)> {
        self.entries@
    }
}

impl NamespaceTable {
    pub fn new() -> (r: NamespaceTable)
        ensures
            r@ == Seq::<(String, Namespace)>::empty(),
    {
        NamespaceTable { entries: Vec::new() }
    }

    pub fn insert(&mut self, name: String, namespace: Namespace)
        ensures
            final(self)@ == old(self)@.push((name, namespace)),
    {
        self.entries.push((name, namespace));
    }

    pub fn len(&self) -> (r: usize)
        ensures
            r == self@.len(),
    {
        self.entries.len()
    }

    pub fn namespace_at(&self, i: usize) -> (r: &Namespace)
        requires
            i < self@.len(),
        ensures
            r == self@[i as int].1,
    {
        &self.entries[i].1
    }

    pub fn get(&self, name: &String) -> (r: Option<&Namespace>)
        ensures
            match r {
                Some(ns) => assoc_get(self@, name@) == Some(*ns),
                None => assoc_get(self@, name@) is None,
            },
    {
        let ghost whole = self.entries@;
        proof {
            assert(whole.skip(0) =~= whole);
        }
        let mut i: usize = 0;
        while i < self.entries.len()
            invariant
                0 <= i <= whole.len(),
                whole == self.entries@,
                assoc_get(whole, name@) == assoc_get(whole.skip(i as int), name@),
            decreases whole.len() - i,
        {
            if self.entries[i].0.eq(name) {
                assert(whole.skip(i as int)[0] == whole[i as int]);
                return Some(&self.entries[i].1);
            }
            proof {
                assert(whole.skip(i as int)[0] == whole[i as int]);
                assert(whole.skip(i as int).skip(1) =~= whole.skip(i + 1));
            }
            i += 1;
        }
        None
    }
}

/// A loaded workspace configuration: top-level tasks and namespaces, either
/// of which may be absent.
#[derive(Debug, Clone)]
pub struct Config {
    pub tasks: Option<TaskTable>,
    pub namespaces: Option<NamespaceTable>,
}

/// A task whose command can actually be spawned: an argv list holds at least
/// the program.
pub open spec fn task_run_wf(t: Task) -> bool {
    match t.run {
        Run::Command(_) => true,
        Run::Args(a) => a@.len() > 0,
    }
}

/// Every task reachable through the configuration has a spawnable command.
pub open spec fn config_wf(config: Config) -> bool {
    &&& match config.tasks {
        Some(ts) => forall|i: int|
            0 <= i < ts@.len() ==> task_run_wf(#[trigger] ts@[i].1),
        None => true,
    }
    &&& match config.namespaces {
        Some(nss) => forall|i: int, j: int|
            0 <= i < nss@.len() && 0 <= j < nss@[i].1.tasks@.len() ==> task_run_wf(
                #[trigger] nss@[i].1.tasks@[j].1,
            ),
        None => true,
    }
}

fn table_valid(ts: &TaskTable) -> (r: bool)
    ensures
        r == forall|i: int| 0 <= i < ts@.len() ==> task_run_wf(#[trigger] ts@[i].1),
{
    let mut i: usize = 0;
    while i < ts.len()
        invariant
            0 <= i <= ts@.len(),
            forall|k: int| 0 <= k < i ==> task_run_wf(#[trigger] ts@[k].1),
        decreases ts@.len() - i,
    {
        let ghost k = i as int;
        let ok = match &ts.entries[i].1.run {
            Run::Command(_) => true,
            Run::Args(a) => a.len() > 0,
        };
        if !ok {
            assert(!task_run_wf(ts@[k].1));
            return false;
        }
        assert(task_run_wf(ts@[k].1));
        i += 1;
    }
    true
}

/// Check that every task of the configuration has a spawnable command.
pub fn config_valid(config: &Config) -> (r: bool)
    ensures
        r == config_wf(*config),
{
    match &config.tasks {
        Some(ts) => {
            if !table_valid(ts) {
                proof {
                    assert(exists|j: int|
                        0 <= j < ts@.len() && !task_run_wf(#[trigger] ts@[j].1));
                    assert(!config_wf(*config));
                }
                return false;
            }
        },
        None => {},
    }
    match &config.namespaces {
        Some(nss) => {
            let mut i: usize = 0;
            while i < nss.len()
                invariant
                    0 <= i <= nss@.len(),
                    config.namespaces == Some(*nss),
                    forall|k: int, j: int|
                        0 <= k < i && 0 <= j < nss@[k].1.tasks@.len() ==> task_run_wf(
                            #[trigger] nss@[k].1.tasks@[j].1,
                        ),
                decreases nss@.len() - i,
            {
                if !table_valid(&nss.namespace_at(i).tasks) {
                    proof {
                        let t = nss@[i as int].1.tasks;
                        assert(exists|j: int|
                            0 <= j < t@.len() && !task_run_wf(#[trigger] t@[j].1));
                        let j = choose|j: int|
                            0 <= j < t@.len() && !task_run_wf(#[trigger] t@[j].1);
                        let nss2 = config.namespaces.unwrap();
                        assert(nss2 == *nss);
                        assert(!task_run_wf(nss2@[i as int].1.tasks@[j].1));
                        assert(!config_wf(*config));
                    }
                    return false;
                }
                i += 1;
            }
            true
        },
        None => true,
    }
}

} // verus!
