use spark::store::KeywordStore;
use spark::Fns;

#[test]
fn find_classifies_tokens() {
    let store = KeywordStore::new();
    let found = Fns::find("hi {{$NAME}} aged {{$AGE:read}}", &store).expect("scan succeeds");
    assert_eq!(found.len(), 2);
    assert_eq!(found[0].name, "NAME");
    assert_eq!(found[0].token, "{{$NAME}}");
    assert!(matches!(found[0].func, Fns::Plain));
    assert_eq!(found[1].name, "AGE");
    assert_eq!(found[1].token, "{{$AGE:read}}");
    assert!(matches!(found[1].func, Fns::Read));
}

#[test]
fn find_skips_tokens_already_in_store() {
    let mut store = KeywordStore::new();
    store.insert("{{$NAME}}".to_string(), "set".to_string());
    let found = Fns::find("{{$NAME}} and {{$OTHER}}", &store).expect("scan succeeds");
    assert_eq!(found.len(), 1);
    assert_eq!(found[0].token, "{{$OTHER}}");
}

#[test]
fn find_rejects_unknown_function() {
    let store = KeywordStore::new();
    let r = Fns::find("{{$FOO:bogus}} then {{$BAR}}", &store);
    assert_eq!(r.err(), Some("bogus".to_string()));
}

#[test]
fn find_known_token_with_bad_suffix_is_skipped() {
    let mut store = KeywordStore::new();
    store.insert("{{$FOO:bogus}}".to_string(), "cached".to_string());
    let found = Fns::find("{{$FOO:bogus}} {{$BAR}}", &store).expect("resolved token skipped");
    assert_eq!(found.len(), 1);
    assert_eq!(found[0].token, "{{$BAR}}");
}

#[test]
fn find_deduplicates_by_name() {
    let store = KeywordStore::new();
    let found = Fns::find("{{$FOO}} twice {{$FOO}}", &store).expect("scan succeeds");
    assert_eq!(found.len(), 1);
    assert_eq!(found[0].token, "{{$FOO}}");
}

#[test]
fn find_last_classification_wins_at_first_position() {
    let store = KeywordStore::new();
    let found = Fns::find("{{$FOO}} then {{$FOO:read}}", &store).expect("scan succeeds");
    assert_eq!(found.len(), 1);
    assert_eq!(found[0].name, "FOO");
    assert_eq!(found[0].token, "{{$FOO:read}}");
    assert!(matches!(found[0].func, Fns::Read));
}

#[test]
fn find_takes_shortest_span() {
    let store = KeywordStore::new();
    let found = Fns::find("{{$A}}}} tail", &store).expect("scan succeeds");
    assert_eq!(found.len(), 1);
    assert_eq!(found[0].token, "{{$A}}");
}

#[test]
fn find_ignores_spans_with_newlines() {
    let store = KeywordStore::new();
    let found = Fns::find("{{$A\n}}", &store).expect("scan succeeds");
    assert_eq!(found.len(), 0);
}

#[test]
fn find_trims_function_suffix() {
    let store = KeywordStore::new();
    let found = Fns::find("{{$AGE: read }}", &store).expect("scan succeeds");
    assert_eq!(found.len(), 1);
    assert!(matches!(found[0].func, Fns::Read));
    assert_eq!(found[0].name, "AGE");
}

#[test]
fn find_two_colons_pass_through() {
    let store = KeywordStore::new();
    let found = Fns::find("{{$A:B:C}}", &store).expect("scan succeeds");
    assert_eq!(found.len(), 1);
    assert_eq!(found[0].name, "A:B:C");
    assert!(matches!(found[0].func, Fns::Plain));
}
