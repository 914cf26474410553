use mdp::config::{try_get_reference_doc, Configuration, Opts, RuntimeConfiguration, Task};
use mdp::error::BuildError;

fn s(x: &str) -> String {
    String::from(x)
}

fn no_opts() -> Opts {
    Opts { path: None, outputs: Vec::new(), out_directory: None, reference_doc: None }
}

fn empty_config() -> Configuration {
    Configuration { out_directory: None, tasks: Vec::new(), reference_doc: None }
}

fn configured() -> Configuration {
    Configuration {
        out_directory: Some(s("non-standard directory")),
        tasks: vec![Task { source: s("masquerade"), outputs: vec![s("m.docx"), s("m.pdf")] }],
        reference_doc: None,
    }
}

#[test]
fn conventional_task_uses_directory_name() {
    let r = empty_config().with_opts(no_opts(), s("/home/me/my-book"));
    let tasks = r.tasks();
    assert_eq!(tasks.len(), 1);
    assert_eq!(tasks[0].source, "src");
    assert_eq!(tasks[0].outputs, vec![s("my-book.docx")]);
    assert_eq!(r.current_dir, "/home/me/my-book");
}

#[test]
fn conventional_output_replaces_extension() {
    let r = empty_config().with_opts(no_opts(), s("/home/me/novel.v2"));
    assert_eq!(r.tasks()[0].outputs, vec![s("novel.docx")]);
}

#[test]
fn root_directory_gets_no_conventional_output() {
    let r = empty_config().with_opts(no_opts(), s("/"));
    assert_eq!(r.tasks().len(), 1);
    assert!(r.tasks()[0].outputs.is_empty());
}

#[test]
fn command_line_outputs_feed_conventional_task() {
    let opts = Opts { outputs: vec![s("x.pdf")], ..no_opts() };
    let r = empty_config().with_opts(opts, s("/home/me/book"));
    assert_eq!(r.tasks()[0].outputs, vec![s("x.pdf")]);
}

#[test]
fn command_line_path_replaces_tasks() {
    let opts = Opts { path: Some(s("chapters")), outputs: vec![s("c.epub")], ..no_opts() };
    let r = configured().with_opts(opts, s("/w"));
    assert_eq!(r.tasks().len(), 1);
    assert_eq!(r.tasks()[0].source, "chapters");
    assert_eq!(r.tasks()[0].outputs, vec![s("c.epub")]);
    assert_eq!(r.configuration.out_directory, Some(s("non-standard directory")));
}

#[test]
fn command_line_outputs_replace_configured_outputs() {
    let opts = Opts { outputs: vec![s("a.html")], ..no_opts() };
    let r = configured().with_opts(opts, s("/w"));
    assert_eq!(r.tasks().len(), 1);
    assert_eq!(r.tasks()[0].source, "masquerade");
    assert_eq!(r.tasks()[0].outputs, vec![s("a.html")]);
}

#[test]
fn configured_tasks_kept_without_command_line() {
    let r = configured().with_opts(no_opts(), s("/w"));
    assert_eq!(r.tasks()[0].source, "masquerade");
    assert_eq!(r.tasks()[0].outputs.len(), 2);
}

#[test]
fn command_line_settings_take_precedence() {
    let mut c = configured();
    c.reference_doc = Some(s("file.docx"));
    let opts = Opts { out_directory: Some(s("out")), reference_doc: Some(s("cli.docx")), ..no_opts() };
    let r = c.with_opts(opts, s("/w"));
    assert_eq!(r.configuration.out_directory, Some(s("out")));
    assert_eq!(r.configuration.reference_doc, Some(s("cli.docx")));
    let r2 = { let mut c2 = configured(); c2.reference_doc = Some(s("file.docx")); c2 }.with_opts(no_opts(), s("/w"));
    assert_eq!(r2.configuration.reference_doc, Some(s("file.docx")));
}

#[test]
fn paths_of_a_task() {
    let r = empty_config().with_opts(no_opts(), s("/w"));
    assert_eq!(r.source_path("src"), "/w/src");
    assert_eq!(r.build_path("src"), "pub/src");
    let r2 = configured().with_opts(no_opts(), s("/w"));
    assert_eq!(r2.build_path("masquerade"), "non-standard directory/masquerade");
}

fn runtime(reference_doc: Option<String>) -> RuntimeConfiguration {
    RuntimeConfiguration {
        current_dir: s("/w"),
        configuration: Configuration { out_directory: None, tasks: Vec::new(), reference_doc },
    }
}

#[test]
fn conventional_reference_doc_is_optional() {
    let r = runtime(None);
    assert_eq!(r.reference_doc_candidate(), "/w/style/style.docx");
    assert_eq!(try_get_reference_doc(&r, true), Ok(Some(s("/w/style/style.docx"))));
    assert_eq!(try_get_reference_doc(&r, false), Ok(None));
}

#[test]
fn configured_reference_doc_must_exist() {
    let r = runtime(Some(s("tmpl/ref.docx")));
    assert_eq!(r.reference_doc_candidate(), "tmpl/ref.docx");
    assert_eq!(try_get_reference_doc(&r, true), Ok(Some(s("tmpl/ref.docx"))));
    assert_eq!(try_get_reference_doc(&r, false), Err(BuildError::MissingReferenceDocument));
}
