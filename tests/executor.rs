use std::collections::{HashMap, HashSet};

use mdp::config::{Configuration, RuntimeConfiguration, Task};
use mdp::error::BuildError;
use mdp::executor::{Action, Phase, TaskRun};
use mdp::snapshot::{FileTime, Snapshot};

struct Disk {
    sidecars: HashMap<String, Snapshot>,
    artifacts: HashSet<String>,
    dirs: HashSet<String>,
    references: HashSet<String>,
}

impl Disk {
    fn new() -> Disk {
        Disk { sidecars: HashMap::new(), artifacts: HashSet::new(), dirs: HashSet::new(), references: HashSet::new() }
    }
}

#[derive(Debug, PartialEq)]
enum End {
    Done,
    Failed(BuildError),
    Aborted(String),
}

struct Call {
    inputs: Vec<String>,
    output: String,
    reference_doc: Option<String>,
}

fn config(reference_doc: Option<&str>) -> RuntimeConfiguration {
    RuntimeConfiguration {
        current_dir: String::from("/w"),
        configuration: Configuration {
            out_directory: Some(String::from("/out")),
            tasks: Vec::new(),
            reference_doc: reference_doc.map(String::from),
        },
    }
}

fn sources(mtime: i64) -> Snapshot {
    Snapshot::from_entries(vec![(String::from("/w/src/a.md"), FileTime { secs: mtime, nanos: 0 })])
}

fn task(outputs: &[&str]) -> Task {
    Task { source: String::from("src"), outputs: outputs.iter().map(|o| String::from(*o)).collect() }
}

/// Drives one task to its end against the simulated disk; the converter
/// succeeds when `converter_ok` holds.
fn drive(c: &RuntimeConfiguration, t: &Task, src: Snapshot, disk: &mut Disk, converter_ok: bool) -> (End, Vec<Call>) {
    let mut run = TaskRun::new(t, c, src);
    let mut calls = Vec::new();
    let mut action = run.start(c);
    loop {
        action = match action {
            Action::Inspect { target, reference } => {
                assert_eq!(run.phase, Phase::Inspecting);
                disk.dirs.insert(target.dir.clone());
                let prior = disk.sidecars.get(&target.sidecar);
                let exists = disk.artifacts.contains(&target.artifact);
                let reference_exists = disk.references.contains(&reference);
                run.inspected(c, prior, exists, reference_exists)
            }
            Action::Convert { inputs, output, reference_doc } => {
                calls.push(Call { inputs, output: output.clone(), reference_doc });
                if converter_ok {
                    disk.artifacts.insert(output);
                }
                run.converted(converter_ok)
            }
            Action::Record { output: _, sidecar, snapshot } => {
                disk.sidecars.insert(sidecar, snapshot);
                run.recorded(c)
            }
            Action::Done => return (End::Done, calls),
            Action::Fail(e) => return (End::Failed(e), calls),
            Action::Abort { output } => return (End::Aborted(output), calls),
        };
    }
}

#[test]
fn first_build_converts_and_records() {
    let c = config(None);
    let mut disk = Disk::new();
    let (end, calls) = drive(&c, &task(&["book.docx"]), sources(1), &mut disk, true);
    assert_eq!(end, End::Done);
    assert_eq!(calls.len(), 1);
    assert_eq!(calls[0].inputs, vec![String::from("/w/src/a.md")]);
    assert_eq!(calls[0].output, "/out/src/docx/book.docx");
    assert_eq!(calls[0].reference_doc, None);
    assert!(disk.dirs.contains("/out/src/docx"));
    let stored = disk.sidecars.get("/out/src/docx/.snapshot").unwrap();
    assert!(*stored == sources(1));
}

#[test]
fn unchanged_rerun_is_skipped() {
    let c = config(None);
    let mut disk = Disk::new();
    drive(&c, &task(&["book.docx"]), sources(1), &mut disk, true);
    let (end, calls) = drive(&c, &task(&["book.docx"]), sources(1), &mut disk, true);
    assert_eq!(end, End::Done);
    assert!(calls.is_empty());
}

#[test]
fn second_run_converts_nothing_for_several_outputs() {
    let c = config(None);
    let mut disk = Disk::new();
    let t = task(&["book.docx", "book.pdf", "book.epub"]);
    let (_, first) = drive(&c, &t, sources(1), &mut disk, true);
    assert_eq!(first.len(), 3);
    let (end, second) = drive(&c, &t, sources(1), &mut disk, true);
    assert_eq!(end, End::Done);
    assert_eq!(second.len(), 0);
}

#[test]
fn modified_source_triggers_conversion() {
    let c = config(None);
    let mut disk = Disk::new();
    drive(&c, &task(&["book.docx"]), sources(1), &mut disk, true);
    let (end, calls) = drive(&c, &task(&["book.docx"]), sources(2), &mut disk, true);
    assert_eq!(end, End::Done);
    assert_eq!(calls.len(), 1);
    assert!(*disk.sidecars.get("/out/src/docx/.snapshot").unwrap() == sources(2));
}

#[test]
fn deleted_artifact_triggers_conversion() {
    let c = config(None);
    let mut disk = Disk::new();
    drive(&c, &task(&["book.docx"]), sources(1), &mut disk, true);
    disk.artifacts.remove("/out/src/docx/book.docx");
    let (end, calls) = drive(&c, &task(&["book.docx"]), sources(1), &mut disk, true);
    assert_eq!(end, End::Done);
    assert_eq!(calls.len(), 1);
}

#[test]
fn converter_failure_aborts_and_keeps_snapshot() {
    let c = config(None);
    let mut disk = Disk::new();
    drive(&c, &task(&["book.docx"]), sources(1), &mut disk, true);
    let (end, calls) = drive(&c, &task(&["book.docx", "book.pdf"]), sources(2), &mut disk, false);
    assert_eq!(end, End::Aborted(String::from("book.docx")));
    assert_eq!(calls.len(), 1);
    assert!(*disk.sidecars.get("/out/src/docx/.snapshot").unwrap() == sources(1));
    assert!(disk.sidecars.get("/out/src/pdf/.snapshot").is_none());
}

#[test]
fn converter_failure_on_first_build_writes_no_snapshot() {
    let c = config(None);
    let mut disk = Disk::new();
    let (end, _) = drive(&c, &task(&["book.docx"]), sources(1), &mut disk, false);
    assert_eq!(end, End::Aborted(String::from("book.docx")));
    assert!(disk.sidecars.is_empty());
}

#[test]
fn output_without_extension_fails_before_conversion() {
    let c = config(None);
    let mut disk = Disk::new();
    let (end, calls) = drive(&c, &task(&["report"]), sources(1), &mut disk, true);
    assert_eq!(end, End::Failed(BuildError::MissingExtension));
    assert!(calls.is_empty());
    assert!(disk.dirs.is_empty());
}

#[test]
fn missing_configured_reference_doc_fails_only_when_converting() {
    let c = config(Some("tmpl/ref.docx"));
    let mut disk = Disk::new();
    let (end, calls) = drive(&c, &task(&["book.docx"]), sources(1), &mut disk, true);
    assert_eq!(end, End::Failed(BuildError::MissingReferenceDocument));
    assert!(calls.is_empty());
    disk.references.insert(String::from("tmpl/ref.docx"));
    let (end, calls) = drive(&c, &task(&["book.docx"]), sources(1), &mut disk, true);
    assert_eq!(end, End::Done);
    assert_eq!(calls[0].reference_doc, Some(String::from("tmpl/ref.docx")));
}

#[test]
fn conventional_reference_doc_is_used_when_present() {
    let c = config(None);
    let mut disk = Disk::new();
    disk.references.insert(String::from("/w/style/style.docx"));
    let (_, calls) = drive(&c, &task(&["book.docx"]), sources(1), &mut disk, true);
    assert_eq!(calls[0].reference_doc, Some(String::from("/w/style/style.docx")));
}

#[test]
fn outputs_sharing_an_extension_share_a_sidecar() {
    let c = config(None);
    let mut disk = Disk::new();
    let (_, calls) = drive(&c, &task(&["one.docx", "two.docx"]), sources(1), &mut disk, true);
    assert_eq!(calls.len(), 2);
    assert_eq!(calls[1].output, "/out/src/docx/two.docx");
    assert_eq!(disk.sidecars.len(), 1);
}

#[test]
fn empty_output_list_is_done_at_once() {
    let c = config(None);
    let mut disk = Disk::new();
    let (end, calls) = drive(&c, &task(&[]), sources(1), &mut disk, true);
    assert_eq!(end, End::Done);
    assert!(calls.is_empty());
}
