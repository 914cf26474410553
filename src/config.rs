//! The run's configuration: tasks, the output root and the reference
//! document, and how settings from a file and the command line combine.

use vstd::prelude::*;
use crate::error::BuildError;
use crate::paths::{file_name, file_name_spec, join, join_spec, stem, stem_spec};

verus! {

/// The plain view of a list of strings.
pub open spec fn strings_view(v: Seq<String>) -> Seq<Seq<char>> {
    v.map_values(|s: String| s@)
}

/// The plain view of an optional string.
pub open spec fn opt_view(o: Option<String>) -> Option<Seq<char>> {
    match o {
        Some(s) => Some(s@),
        None => None,
    }
}

/// `a` when it is set, else `b`.
pub open spec fn either(a: Option<Seq<char>>, b: Option<Seq<char>>) -> Option<Seq<char>> {
    match a {
        Some(x) => Some(x),
        None => b,
    }
}

/// A task as plain values: its source directory and its outputs.
pub type TaskSpec = (Seq<char>, Seq<Seq<char>>);

/// One source directory and the outputs to render from it.
pub struct Task {
    pub source: String,
    pub outputs: Vec<String>,
}

impl View for Task {
    type V = TaskSpec;

    open spec fn view(&self) -> TaskSpec {
        (self.source@, strings_view(self.outputs@))
    }
}

/// The plain view of a list of tasks.
pub open spec fn tasks_view(v: Seq<Task>) -> Seq<TaskSpec> {
    v.map_values(|t: Task| t@)
}

/// Settings as read from the configuration file.
pub struct Configuration {
    pub out_directory: Option<String>,
    pub tasks: Vec<Task>,
    pub reference_doc: Option<String>,
}

/// Settings given on the command line.
pub struct Opts {
    pub path: Option<String>,
    pub outputs: Vec<String>,
    pub out_directory: Option<String>,
    pub reference_doc: Option<String>,
}

/// The settings of a run, with the working directory they are relative to.
pub struct RuntimeConfiguration {
    pub current_dir: String,
    pub configuration: Configuration,
}

/// The source directory of the task made by convention.
pub open spec fn conventional_source() -> Seq<char> {
    "src"@
}

/// The output root used when none is configured.
pub open spec fn default_out_directory() -> Seq<char> {
    "pub"@
}

/// Where a reference document is looked for when none is configured,
/// relative to the working directory.
pub open spec fn conventional_reference_doc() -> Seq<char> {
    "style/style.docx"@
}

/// The output a task made by convention gets: the working directory's name
/// with its extension set to `docx`; none for the root directory.
pub open spec fn default_output(cwd: Seq<char>) -> Option<Seq<char>> {
    let name = file_name_spec(cwd);
    if name.len() == 0 {
        None
    } else {
        Some(stem_spec(name) + ".docx"@)
    }
}

/// The tasks of a run. A path on the command line makes the only task, with
/// the outputs given there. Otherwise the configured tasks run, each with the
/// outputs of the command line where any are given; with no task configured,
/// one task on the conventional source directory runs, with the outputs of
/// the command line or else the conventional output.
pub open spec fn merged_tasks(
    configured: Seq<TaskSpec>,
    path: Option<Seq<char>>,
    outputs: Seq<Seq<char>>,
    cwd: Seq<char>,
) -> Seq<TaskSpec> {
    match path {
        Some(p) => seq![(p, outputs)],
        None => if configured.len() == 0 {
            let outs = if outputs.len() > 0 {
                outputs
            } else {
                match default_output(cwd) {
                    Some(o) => seq![o],
                    None => Seq::empty(),
                }
            };
            seq![(conventional_source(), outs)]
        } else if outputs.len() > 0 {
            configured.map_values(|t: TaskSpec| (t.0, outputs))
        } else {
            configured
        },
    }
}

/// A copy of a list of strings.
pub fn clone_strings(v: &Vec<String>) -> (r: Vec<String>)
    ensures
        strings_view(r@) == strings_view(v@),
{
    let mut r: Vec<String> = Vec::new();
    let mut i: usize = 0;
    while i < v.len()
        invariant
            i <= v@.len(),
            r@.len() == i,
            forall|k: int| 0 <= k < i ==> #[trigger] r@[k]@ == v@[k]@,
        decreases v@.len() - i,
    {
        r.push(v[i].clone());
        i = i + 1;
    }
    proof {
        assert(strings_view(r@) =~= strings_view(v@));
    }
    r
}

fn clone_opt(o: &Option<String>) -> (r: Option<String>)
    ensures
        opt_view(r) == opt_view(*o),
{
    match o {
        Some(s) => Some(s.clone()),
        None => None,
    }
}

/// The conventional output for the working directory `cwd`.
fn conventional_output(cwd: &str) -> (r: Option<String>)
    ensures
        opt_view(r) == default_output(cwd@),
{
    let name = file_name(cwd);
    let n = name.unicode_len();
    if n == 0 {
        return None;
    }
    let stem = stem(name);
    let mut r = String::from_str(stem);
    proof {
        reveal_strlit(".docx");
    }
    r.append(".docx");
    Some(r)
}

impl Configuration {
    /// Combines the configuration with the command line, in the working
    /// directory `current_dir`.
    pub fn with_opts(self, opts: Opts, current_dir: String) -> (r: RuntimeConfiguration)
        ensures
            r.current_dir@ == current_dir@,
            opt_view(r.configuration.out_directory) == either(
                opt_view(opts.out_directory),
                opt_view(self.out_directory),
            ),
            opt_view(r.configuration.reference_doc) == either(
                opt_view(opts.reference_doc),
                opt_view(self.reference_doc),
            ),
            tasks_view(r.configuration.tasks@) == merged_tasks(
                tasks_view(self.tasks@),
                opt_view(opts.path),
                strings_view(opts.outputs@),
                current_dir@,
            ),
    {
        let ghost configured = tasks_view(self.tasks@);
        let ghost outs = strings_view(opts.outputs@);
        let out_directory = match opts.out_directory {
            Some(d) => Some(d),
            None => self.out_directory,
        };
        let reference_doc = match opts.reference_doc {
            Some(d) => Some(d),
            None => self.reference_doc,
        };
        let mut tasks: Vec<Task> = Vec::new();
        match opts.path {
            Some(path) => {
                tasks.push(Task { source: path, outputs: opts.outputs });
                proof {
                    assert(tasks_view(tasks@) =~= merged_tasks(
                        configured,
                        opt_view(opts.path),
                        outs,
                        current_dir@,
                    ));
                }
            },
            None => {
                if self.tasks.len() == 0 {
                    let mut outputs = opts.outputs;
                    if outputs.len() == 0 {
                        match conventional_output(current_dir.as_str()) {
                            Some(o) => outputs.push(o),
                            None => {},
                        }
                    }
                    proof {
                        reveal_strlit("src");
                        assert(strings_view(outputs@) =~= merged_tasks(
                            configured,
                            None,
                            outs,
                            current_dir@,
                        )[0].1);
                    }
                    tasks.push(Task { source: String::from_str("src"), outputs });
                    proof {
                        assert(tasks_view(tasks@) =~= merged_tasks(
                            configured,
                            None,
                            outs,
                            current_dir@,
                        ));
                    }
                } else if opts.outputs.len() > 0 {
                    let mut i: usize = 0;
                    while i < self.tasks.len()
                        invariant
                            i <= self.tasks@.len(),
                            configured == tasks_view(self.tasks@),
                            outs == strings_view(opts.outputs@),
                            tasks@.len() == i,
                            forall|k: int|
                                0 <= k < i ==> #[trigger] tasks_view(tasks@)[k] == (
                                configured[k].0,
                                outs,
                            ),
                        decreases self.tasks@.len() - i,
                    {
                        let ghost before = tasks@;
                        tasks.push(
                            Task {
                                source: self.tasks[i].source.clone(),
                                outputs: clone_strings(&opts.outputs),
                            },
                        );
                        proof {
                            assert forall|k: int| 0 <= k <= i implies #[trigger] tasks_view(
                                tasks@,
                            )[k] == (configured[k].0, outs) by {
                                if k < i {
                                    assert(tasks@[k] == before[k]);
                                    assert(tasks_view(before)[k] == (configured[k].0, outs));
                                }
                            }
                        }
                        i = i + 1;
                    }
                    proof {
                        assert(tasks_view(tasks@) =~= merged_tasks(
                            configured,
                            None,
                            outs,
                            current_dir@,
                        ));
                    }
                } else {
                    tasks = self.tasks;
                }
            },
        }
        RuntimeConfiguration {
            current_dir,
            configuration: Configuration { out_directory, tasks, reference_doc },
        }
    }
}

/// The output root of a run.
pub open spec fn out_root(c: &RuntimeConfiguration) -> Seq<char> {
    match c.configuration.out_directory {
        Some(d) => d@,
        None => default_out_directory(),
    }
}

/// Where the reference document of a run is looked for.
pub open spec fn reference_candidate(c: &RuntimeConfiguration) -> Seq<char> {
    match c.configuration.reference_doc {
        Some(p) => p@,
        None => join_spec(c.current_dir@, conventional_reference_doc()),
    }
}

impl RuntimeConfiguration {
    /// The tasks of the run, in order.
    pub fn tasks(&self) -> (r: &Vec<Task>)
        ensures
            r@ == self.configuration.tasks@,
    {
        &self.configuration.tasks
    }

    /// Where the sources of a task whose source is `source` lie.
    pub fn source_path(&self, source: &str) -> (r: String)
        ensures
            r@ == join_spec(self.current_dir@, source@),
    {
        join(self.current_dir.as_str(), source)
    }

    /// Where the outputs of a task whose source is `source` are built.
    pub fn build_path(&self, source: &str) -> (r: String)
        ensures
            r@ == join_spec(out_root(self), source@),
    {
        match &self.configuration.out_directory {
            Some(d) => join(d.as_str(), source),
            None => {
                proof {
                    reveal_strlit("pub");
                }
                join("pub", source)
            },
        }
    }

    /// The path whose existence decides the reference document: the
    /// configured one, or else the conventional one under the working
    /// directory.
    pub fn reference_doc_candidate(&self) -> (r: String)
        ensures
            r@ == reference_candidate(self),
    {
        match &self.configuration.reference_doc {
            Some(p) => p.clone(),
            None => {
                proof {
                    reveal_strlit("style/style.docx");
                }
                join(self.current_dir.as_str(), "style/style.docx")
            },
        }
    }
}

/// The reference document to style outputs with, given whether the
/// candidate path exists. A configured document that is missing is an
/// error; a missing conventional one means no reference document.
pub fn try_get_reference_doc(configuration: &RuntimeConfiguration, candidate_exists: bool) -> (r:
    Result<Option<String>, BuildError>)
    ensures
        candidate_exists ==> (r matches Ok(Some(p)) && p@ == reference_candidate(configuration)),
        !candidate_exists ==> r == (match configuration.configuration.reference_doc {
            Some(_) => Err::<Option<String>, BuildError>(BuildError::MissingReferenceDocument),
            None => Ok(None),
        }),
{
    if candidate_exists {
        Ok(Some(configuration.reference_doc_candidate()))
    } else {
        match &configuration.configuration.reference_doc {
            Some(_) => Err(BuildError::MissingReferenceDocument),
            None => Ok(None),
        }
    }
}

} // verus!
