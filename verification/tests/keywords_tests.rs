use spark::store::KeywordStore;
use spark::{Config, File, Fns, Keywords, Template};

#[test]
fn from_formats_bare_token() {
    assert_eq!(Keywords::from("FOO", None), "{{$FOO}}");
}

#[test]
fn from_formats_function_token() {
    assert_eq!(Keywords::from("FOO", Some("read")), "{{$FOO:read}}");
}

#[test]
fn strip_removes_wrapper() {
    assert_eq!(Keywords::strip("{{$FOO}}"), "FOO");
    assert_eq!(Keywords::strip("{{$FOO:read}}"), "FOO:read");
    assert_eq!(Keywords::strip("plain"), "plain");
}

#[test]
fn remove_fn_name_drops_suffix() {
    assert_eq!(Fns::remove_fn_name("{{$FOO:read}}", Fns::Read), "{{$FOO}}");
    assert_eq!(Fns::remove_fn_name("{{$FOO}}", Fns::Plain), "{{$FOO}}");
}

#[test]
fn init_seeds_defaults() {
    let env = vec![("PATH".to_string(), "/usr/bin".to_string())];
    let store = Keywords::init(
        Some("/home/me".to_string()),
        Some("proj".to_string()),
        "utc-now".to_string(),
        "local-now".to_string(),
        "2024".to_string(),
        "24".to_string(),
        "6".to_string(),
        "15".to_string(),
        env,
    );
    assert_eq!(store.get(&"{{$HOME}}".to_string()), Some("/home/me".to_string()));
    assert_eq!(store.get(&"{{$PROJECTNAME}}".to_string()), Some(String::new()));
    assert_eq!(store.get(&"{{$CURRENTDIR}}".to_string()), Some("proj".to_string()));
    assert_eq!(store.get(&"{{$NOW_UTC}}".to_string()), Some("utc-now".to_string()));
    assert_eq!(store.get(&"{{$NOW}}".to_string()), Some("local-now".to_string()));
    assert_eq!(store.get(&"{{$YYYY}}".to_string()), Some("2024".to_string()));
    assert_eq!(store.get(&"{{$YY}}".to_string()), Some("24".to_string()));
    assert_eq!(store.get(&"{{$MM}}".to_string()), Some("6".to_string()));
    assert_eq!(store.get(&"{{$DD}}".to_string()), Some("15".to_string()));
    assert_eq!(store.get(&"{{$PATH}}".to_string()), Some("/usr/bin".to_string()));
}

#[test]
fn init_env_overrides_seed() {
    let env = vec![("PROJECTNAME".to_string(), "forced".to_string())];
    let store = Keywords::init(
        None,
        None,
        String::new(),
        String::new(),
        String::new(),
        String::new(),
        String::new(),
        String::new(),
        env,
    );
    assert_eq!(store.get(&"{{$PROJECTNAME}}".to_string()), Some("forced".to_string()));
    assert_eq!(store.get(&"{{$HOME}}".to_string()), None);
}

#[test]
fn replace_keywords_substitutes_every_known_token() {
    let mut store = KeywordStore::new();
    store.insert("{{$A}}".to_string(), "alpha".to_string());
    store.insert("{{$B}}".to_string(), "beta".to_string());
    let out = Keywords::replace_keywords(&store, "{{$A}} and {{$B}} and {{$A}}");
    assert_eq!(out, "alpha and beta and alpha");
}

#[test]
fn replace_keywords_is_single_pass() {
    let mut store = KeywordStore::new();
    store.insert("{{$A}}".to_string(), "{{$B}}".to_string());
    store.insert("{{$B}}".to_string(), "beta".to_string());
    // The value stored first is itself replaced by the later pair's pass,
    // but a value never re-enters its own key's pass.
    let out = Keywords::replace_keywords(&store, "{{$A}}");
    assert_eq!(out, "beta");
    let mut store2 = KeywordStore::new();
    store2.insert("{{$B}}".to_string(), "beta".to_string());
    store2.insert("{{$A}}".to_string(), "{{$B}}".to_string());
    let out2 = Keywords::replace_keywords(&store2, "{{$A}}");
    assert_eq!(out2, "{{$B}}");
}

#[test]
fn store_insert_overwrites_in_place() {
    let mut store = KeywordStore::new();
    store.insert("{{$A}}".to_string(), "one".to_string());
    store.insert("{{$B}}".to_string(), "two".to_string());
    store.insert("{{$A}}".to_string(), "three".to_string());
    assert_eq!(store.len(), 2);
    assert_eq!(store.pair_at(0).0, "{{$A}}");
    assert_eq!(store.pair_at(0).1, "three");
    assert!(store.contains_key(&"{{$B}}".to_string()));
}

#[test]
fn config_paths_sit_beside_the_config_file() {
    let c = Config::new("/home/me/.config/spark/config.toml".to_string());
    assert_eq!(c.templates_path, "/home/me/.config/spark/templates");
    let local = Config::new("config.toml".to_string());
    assert_eq!(local.templates_path, "templates");
}

#[test]
fn config_keywords_are_wrapped_as_tokens() {
    let store = Config::get_keywords(vec![
        ("author".to_string(), "someone".to_string()),
        ("year".to_string(), "1999".to_string()),
    ]);
    assert_eq!(store.get(&"{{$author}}".to_string()), Some("someone".to_string()));
    assert_eq!(store.get(&"{{$year}}".to_string()), Some("1999".to_string()));
}

#[test]
fn with_toml_ext_appends_once() {
    assert_eq!(Template::with_toml_ext("base"), "base.toml");
    assert_eq!(Template::with_toml_ext("base.toml"), "base.toml");
}

#[test]
fn validate_falls_back_to_templates_dir() {
    assert_eq!(Template::validate("base", "/t", true), "base.toml");
    assert_eq!(Template::validate("base", "/t", false), "/t/base.toml");
}

#[test]
fn generate_filters_and_strips_paths() {
    let listing = vec![
        File::new("./a.txt".to_string(), "one".to_string()),
        File::new("./x/.git/config".to_string(), "skip".to_string()),
        File::new("./sub/b.txt".to_string(), "two".to_string()),
    ];
    let t = Template::generate(listing);
    let files = t.files.expect("files set");
    assert_eq!(files.len(), 2);
    assert_eq!(files[0].path, "a.txt");
    assert_eq!(files[0].content, "one");
    assert_eq!(files[1].path, "sub/b.txt");
    assert_eq!(files[1].content, "two");
}
