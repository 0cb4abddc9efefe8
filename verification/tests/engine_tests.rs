use spark::store::KeywordStore;
use spark::{Event, ExtractError, File, Options, Request, Template};

struct Run {
    log: Vec<String>,
    writes: Vec<(String, String)>,
    warns: Vec<String>,
    prompts: Vec<String>,
    queries: Vec<(String, String)>,
    dirs: Vec<String>,
    gits: Vec<String>,
    post_errors: Vec<String>,
    failure: Option<ExtractError>,
    machine: spark::Extraction,
}

fn drive(
    template: Template,
    store: KeywordStore,
    mut lines: Vec<Option<String>>,
    mut json_answers: Vec<Option<String>>,
    mut write_results: Vec<bool>,
) -> Run {
    let mut run = Run {
        log: Vec::new(),
        writes: Vec::new(),
        warns: Vec::new(),
        prompts: Vec::new(),
        queries: Vec::new(),
        dirs: Vec::new(),
        gits: Vec::new(),
        post_errors: Vec::new(),
        failure: None,
        machine: template.extract(store),
    };
    let mut req = run.machine.step(Event::Proceed);
    let mut steps = 0;
    loop {
        steps += 1;
        assert!(steps < 10_000, "driver did not terminate");
        match req {
            Request::Continue => {
                req = run.machine.step(Event::Proceed);
            }
            Request::PromptLine { label } => {
                run.log.push(format!("prompt:{}", label));
                run.prompts.push(label);
                let answer = if lines.is_empty() { None } else { lines.remove(0) };
                req = run.machine.step(Event::Line { value: answer });
            }
            Request::Warn { token } => {
                run.log.push(format!("warn:{}", token));
                run.warns.push(token);
                req = run.machine.step(Event::Proceed);
            }
            Request::JsonQuery { query, json } => {
                run.log.push(format!("json:{}", query));
                run.queries.push((query, json));
                let answer = if json_answers.is_empty() { None } else { json_answers.remove(0) };
                req = run.machine.step(Event::JsonResult { value: answer });
            }
            Request::CreateDirs { path } => {
                run.log.push(format!("mkdir:{}", path));
                run.dirs.push(path);
                req = run.machine.step(Event::DirCreated { ok: true });
            }
            Request::WriteFile { path, content } => {
                run.log.push(format!("write:{}", path));
                run.writes.push((path, content));
                let ok = if write_results.is_empty() { true } else { write_results.remove(0) };
                req = run.machine.step(Event::Written { ok });
            }
            Request::InitGit { root } => {
                run.log.push(format!("git:{}", root));
                run.gits.push(root);
                req = run.machine.step(Event::Proceed);
            }
            Request::PostError { message } => {
                run.post_errors.push(message);
                break;
            }
            Request::Failed { error } => {
                run.failure = Some(error);
                break;
            }
            Request::Done => break,
        }
    }
    run
}

fn plain_options() -> Options {
    let mut o = Options::default();
    o.use_liquid = Some(false);
    o.json_data = None;
    o
}

fn template_of(files: Vec<File>, options: Options) -> Template {
    let mut t = Template { info: None, options: None, files: None };
    t.set_files(files);
    t.set_options(options);
    t
}

#[test]
fn pass_through_resolves_empty_with_one_warning() {
    let files = vec![File::new("out.txt".to_string(), "v={{$FOO}}".to_string())];
    let run = drive(
        template_of(files, plain_options()),
        KeywordStore::new(),
        vec![],
        vec![],
        vec![],
    );
    assert_eq!(run.warns, vec!["{{$FOO}}".to_string()]);
    assert_eq!(
        run.machine.store_ref().get(&"{{$FOO}}".to_string()),
        Some(String::new())
    );
    assert_eq!(run.writes, vec![("out.txt".to_string(), "v=".to_string())]);
    assert!(run.failure.is_none());
}

#[test]
fn read_populates_bare_token_too() {
    let files = vec![File::new("out.txt".to_string(), "hello {{$NAME:read}}".to_string())];
    let run = drive(
        template_of(files, plain_options()),
        KeywordStore::new(),
        vec![Some("Alice".to_string())],
        vec![],
        vec![],
    );
    assert_eq!(run.prompts, vec!["NAME".to_string()]);
    let store = run.machine.store_ref();
    assert_eq!(store.get(&"{{$NAME:read}}".to_string()), Some("Alice".to_string()));
    assert_eq!(store.get(&"{{$NAME}}".to_string()), Some("Alice".to_string()));
    assert_eq!(run.writes[0].1, "hello Alice");
}

#[test]
fn resolved_token_is_not_prompted_again() {
    let files = vec![
        File::new("a.txt".to_string(), "{{$NAME:read}}".to_string()),
        File::new("b.txt".to_string(), "{{$NAME:read}} again".to_string()),
    ];
    let run = drive(
        template_of(files, plain_options()),
        KeywordStore::new(),
        vec![Some("once".to_string())],
        vec![],
        vec![],
    );
    assert_eq!(run.prompts.len(), 1);
    assert_eq!(run.writes[1].1, "once again");
    assert!(run.failure.is_none());
}

#[test]
fn prompt_failure_aborts_the_file() {
    let files = vec![File::new("a.txt".to_string(), "{{$NAME:read}}".to_string())];
    let run = drive(
        template_of(files, plain_options()),
        KeywordStore::new(),
        vec![None],
        vec![],
        vec![],
    );
    assert!(matches!(run.failure, Some(ExtractError::PromptFailed { .. })));
    assert!(run.writes.is_empty());
}

#[test]
fn first_touch_project_name_prompts_once_between_writes() {
    let mut store = KeywordStore::new();
    store.insert("{{$PROJECTNAME}}".to_string(), String::new());
    let files = vec![
        File::new("a.txt".to_string(), "first".to_string()),
        File::new("b.txt".to_string(), "of {{$PROJECTNAME}}".to_string()),
        File::new("c.txt".to_string(), "{{$PROJECTNAME}} last".to_string()),
    ];
    let run = drive(
        template_of(files, plain_options()),
        store,
        vec![Some("demo".to_string())],
        vec![],
        vec![],
    );
    assert_eq!(run.prompts, vec!["Project name".to_string()]);
    let prompt_at = run.log.iter().position(|e| e == "prompt:Project name").unwrap();
    let first_write = run.log.iter().position(|e| e == "write:a.txt").unwrap();
    let second_write = run.log.iter().position(|e| e == "write:b.txt").unwrap();
    assert!(first_write < prompt_at && prompt_at < second_write);
    assert_eq!(run.writes[1].1, "of demo");
    assert_eq!(run.writes[2].1, "demo last");
}

#[test]
fn token_resolved_in_one_file_substitutes_in_the_next() {
    let files = vec![
        File::new("a.txt".to_string(), "{{$X:read}}".to_string()),
        File::new("b.txt".to_string(), "see {{$X}} here".to_string()),
    ];
    let run = drive(
        template_of(files, plain_options()),
        KeywordStore::new(),
        vec![Some("V".to_string())],
        vec![],
        vec![],
    );
    assert_eq!(run.prompts.len(), 1);
    assert_eq!(run.writes[1].1, "see V here");
}

#[test]
fn dotted_name_takes_json_precedence_over_read() {
    let mut options = plain_options();
    let doc: serde_json::Value = serde_json::from_str("{\"a\":{\"b\":\"x\"}}").unwrap();
    options.set_json(doc);
    let files = vec![File::new("out.txt".to_string(), "got {{$a.b:read}}".to_string())];
    let run = drive(
        template_of(files, options),
        KeywordStore::new(),
        vec![],
        vec![Some("\"x\"\n".to_string())],
        vec![],
    );
    assert!(run.prompts.is_empty());
    assert_eq!(run.queries.len(), 1);
    assert_eq!(run.queries[0].0, "a.b");
    assert!(run.queries[0].1.contains("\"a\""));
    assert_eq!(
        run.machine.store_ref().get(&"{{$a.b:read}}".to_string()),
        Some("x".to_string())
    );
    assert_eq!(run.writes[0].1, "got x");
}

#[test]
fn failed_json_lookup_leaves_token_unresolved() {
    let mut options = plain_options();
    let doc: serde_json::Value = serde_json::from_str("{\"a\":1}").unwrap();
    options.set_json(doc);
    let files = vec![File::new("out.txt".to_string(), "{{$a.b.c}}".to_string())];
    let run = drive(template_of(files, options), KeywordStore::new(), vec![], vec![None], vec![]);
    assert_eq!(run.machine.store_ref().get(&"{{$a.b.c}}".to_string()), None);
    assert_eq!(run.writes[0].1, "{{$a.b.c}}");
}

#[test]
fn directories_are_created_before_the_write() {
    let files = vec![File::new("sub/dir/out.txt".to_string(), "deep".to_string())];
    let run = drive(
        template_of(files.clone(), plain_options()),
        KeywordStore::new(),
        vec![],
        vec![],
        vec![],
    );
    assert_eq!(run.dirs, vec!["sub/dir".to_string()]);
    let mkdir_at = run.log.iter().position(|e| e.starts_with("mkdir:")).unwrap();
    let write_at = run.log.iter().position(|e| e.starts_with("write:")).unwrap();
    assert!(mkdir_at < write_at);
    // A second run over the same files asks again and succeeds again: the
    // creation is requested idempotently.
    let rerun = drive(
        template_of(files, plain_options()),
        KeywordStore::new(),
        vec![],
        vec![],
        vec![],
    );
    assert_eq!(rerun.dirs, vec!["sub/dir".to_string()]);
    assert!(rerun.failure.is_none());
}

#[test]
fn unknown_function_rejects_whole_text() {
    let files = vec![File::new(
        "out.txt".to_string(),
        "{{$FOO:bogus}} and {{$BAR}}".to_string(),
    )];
    let run = drive(
        template_of(files, plain_options()),
        KeywordStore::new(),
        vec![],
        vec![],
        vec![],
    );
    match run.failure {
        Some(ExtractError::InvalidFunction { ref name }) => assert_eq!(name, "bogus"),
        ref other => panic!("expected an invalid-function failure, got {:?}", other),
    }
    assert!(run.warns.is_empty());
    assert!(run.writes.is_empty());
    assert_eq!(run.machine.store_ref().get(&"{{$BAR}}".to_string()), None);
}

#[test]
fn failed_write_aborts_later_files_and_keeps_earlier_output() {
    let files = vec![
        File::new("a.txt".to_string(), "one".to_string()),
        File::new("b.txt".to_string(), "two".to_string()),
        File::new("c.txt".to_string(), "three".to_string()),
    ];
    let mut run = drive(
        template_of(files, plain_options()),
        KeywordStore::new(),
        vec![],
        vec![],
        vec![true, false],
    );
    match run.failure {
        Some(ExtractError::WriteFailed { ref path }) => assert_eq!(path, "b.txt"),
        ref other => panic!("expected a write failure, got {:?}", other),
    }
    assert_eq!(run.writes.len(), 2);
    assert_eq!(run.writes[0].0, "a.txt");
    assert!(!run.log.iter().any(|e| e == "write:c.txt"));
    // The machine stays failed: stepping again asks for nothing new.
    let again = run.machine.step(Event::Proceed);
    assert!(matches!(again, Request::Failed { .. }));
}

#[test]
fn git_init_requested_in_project_root() {
    let mut options = plain_options();
    options.set_git(true);
    options.set_project_root("demo");
    let files = vec![File::new("a.txt".to_string(), "x".to_string())];
    let run = drive(template_of(files, options), KeywordStore::new(), vec![], vec![], vec![]);
    assert_eq!(run.gits, vec!["demo".to_string()]);
    let write_at = run.log.iter().position(|e| e.starts_with("write:")).unwrap();
    let git_at = run.log.iter().position(|e| e.starts_with("git:")).unwrap();
    assert!(write_at < git_at);
}

#[test]
fn git_without_project_root_is_reported_not_fatal() {
    let mut options = plain_options();
    options.set_git(true);
    let files = vec![File::new("a.txt".to_string(), "x".to_string())];
    let run = drive(template_of(files, options), KeywordStore::new(), vec![], vec![], vec![]);
    assert!(run.gits.is_empty());
    assert_eq!(run.post_errors.len(), 1);
    assert!(run.failure.is_none());
    assert_eq!(run.writes.len(), 1);
}

#[test]
fn liquid_pass_renders_control_flow() {
    let mut options = Options::default();
    options.json_data = None;
    let files = vec![File::new(
        "out.txt".to_string(),
        "{% if true %}kept{% endif %}".to_string(),
    )];
    let run = drive(template_of(files, options), KeywordStore::new(), vec![], vec![], vec![]);
    assert!(run.failure.is_none());
    assert_eq!(run.writes[0].1, "kept");
}

#[test]
fn liquid_failure_aborts_the_run() {
    let mut options = Options::default();
    options.json_data = None;
    let files = vec![File::new(
        "out.txt".to_string(),
        "{% endif %}".to_string(),
    )];
    let run = drive(template_of(files, options), KeywordStore::new(), vec![], vec![], vec![]);
    assert!(matches!(run.failure, Some(ExtractError::RenderFailed { .. })));
    assert!(run.writes.is_empty());
}

#[test]
fn meta_template_marker_becomes_project_token() {
    let mut store = KeywordStore::new();
    store.insert("{{$PROJECTNAME}}".to_string(), "demo".to_string());
    let files = vec![File::new(
        "out.txt".to_string(),
        "name = initPJNAME".to_string(),
    )];
    let run = drive(template_of(files, plain_options()), store, vec![], vec![], vec![]);
    // The marker turns into the token text before substitution, so the
    // resolved project name stands in the output.
    assert_eq!(run.writes[0].1, "name = demo");
}

#[test]
fn defaults_enable_liquid_and_no_git() {
    let o = Options::default();
    assert!(!o.git);
    assert_eq!(o.use_liquid, Some(true));
    assert!(o.json_data.is_some());
    assert_eq!(o.project_root, "");
}

#[test]
fn dump_options_copies_the_plain_fields() {
    let mut t = Template { info: None, options: None, files: None };
    assert!(t.dump_options().is_none());
    let mut o = Options::default();
    o.set_git(true);
    o.set_project_root("root");
    t.set_options(o);
    let d = t.dump_options().expect("options set");
    assert!(d.git);
    assert_eq!(d.project_root, "root");
    assert_eq!(d.use_liquid, Some(true));
    assert!(d.json_data.is_some());
}

#[test]
fn liquify_renders_directly() {
    let out = Template::liquify("a{% if false %}b{% endif %}c").expect("valid template");
    assert_eq!(out, "ac");
}

#[test]
fn set_info_keeps_other_fields() {
    let mut t = Template { info: None, options: None, files: None };
    t.set_files(vec![File::new("p".to_string(), "c".to_string())]);
    t.set_info(spark::Information {
        name: Some("n".to_string()),
        author: Some("a".to_string()),
        description: Some("d".to_string()),
    });
    assert!(t.info.is_some());
    assert_eq!(t.files.as_ref().unwrap().len(), 1);
}

#[test]
fn failed_directory_creation_aborts() {
    let files = vec![File::new("sub/out.txt".to_string(), "x".to_string())];
    let mut machine = template_of(files, plain_options()).extract(KeywordStore::new());
    let mut req = machine.step(Event::Proceed);
    let mut guard = 0;
    loop {
        guard += 1;
        assert!(guard < 100, "driver did not terminate");
        match req {
            Request::Continue => req = machine.step(Event::Proceed),
            Request::CreateDirs { path } => {
                assert_eq!(path, "sub");
                req = machine.step(Event::DirCreated { ok: false });
            }
            Request::Failed { error } => {
                match error {
                    ExtractError::DirFailed { path } => assert_eq!(path, "sub"),
                    other => panic!("expected a directory failure, got {:?}", other),
                }
                break;
            }
            other => panic!("unexpected request: {:?}", other),
        }
    }
}
