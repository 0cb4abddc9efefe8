//! The library's general guarantees, stated and proved once for all inputs:
//! idempotent resolution, function-suffix equivalence, dotted-name
//! precedence, the once-per-run project prompt, directory creation before
//! every write, whole-text rejection on an unknown function suffix, and
//! fail-fast ordering after a failed write.
use crate::engine::{
    dirs_rel, dispatch_rel, project_check_rel, project_unset, scan_rel, spec_out_dir, step_rel,
    write_done_rel, Event, Extraction, Request,
};
use crate::keywords::{spec_strip, spec_token};
use crate::scanner::{spec_classify, spec_collect, spec_find, spec_insert_found, FoundView};
use crate::store::spec_has_key;
use crate::text::{
    is_wrap_char, lemma_replace_single, lemma_trim_end_by_take, lemma_trim_start_by_skip,
    spec_match_at, spec_replace, spec_trim_by, spec_trim_end_by, spec_trim_start_by,
};
use vstd::prelude::*;

verus! {

/// Idempotent resolution: a token the store already resolves is never among
/// the classifications a scan yields, so no later step stores under it, and
/// no prompt or warning is ever issued for it again.
pub proof fn lemma_scan_skips_resolved(
    text: Seq<char>,
    store: Seq<(Seq<char>, Seq<char>)>,
    tok: Seq<char>,
)
    requires
        spec_has_key(store, tok),
        spec_find(text, store) is Ok,
    ensures
        forall|k: int|
            0 <= k < spec_find(text, store)->Ok_0.len() ==> spec_find(text, store)->Ok_0[k].token
                != tok,
{
    lemma_collect_skips(crate::scanner::spec_tokens(text, 0), store, Seq::empty(), tok);
}

proof fn lemma_name_index_range(acc: Seq<FoundView>, name: Seq<char>)
    ensures
        -1 <= crate::scanner::spec_name_index(acc, name) < acc.len(),
    decreases acc.len(),
{
    if acc.len() > 0 && acc[0].name != name {
        lemma_name_index_range(acc.skip(1), name);
    }
}

proof fn lemma_classify_keeps_token(t: Seq<char>)
    requires
        spec_classify(t) is Ok,
    ensures
        spec_classify(t)->Ok_0.token == t,
{
}

proof fn lemma_collect_skips(
    tokens: Seq<Seq<char>>,
    store: Seq<(Seq<char>, Seq<char>)>,
    acc: Seq<FoundView>,
    tok: Seq<char>,
)
    requires
        spec_has_key(store, tok),
        forall|k: int| 0 <= k < acc.len() ==> acc[k].token != tok,
        spec_collect(tokens, store, acc) is Ok,
    ensures
        forall|k: int|
            0 <= k < spec_collect(tokens, store, acc)->Ok_0.len() ==> spec_collect(
                tokens,
                store,
                acc,
            )->Ok_0[k].token != tok,
    decreases tokens.len(),
{
    if tokens.len() == 0 {
    } else if spec_has_key(store, tokens[0]) {
        lemma_collect_skips(tokens.skip(1), store, acc, tok);
    } else {
        match spec_classify(tokens[0]) {
            Result::Ok(f) => {
                lemma_classify_keeps_token(tokens[0]);
                assert(f.token == tokens[0]);
                assert(tokens[0] != tok);
                let acc2 = spec_insert_found(acc, f);
                lemma_name_index_range(acc, f.name);
                assert forall|k: int| 0 <= k < acc2.len() implies acc2[k].token != tok by {
                    let i = crate::scanner::spec_name_index(acc, f.name);
                    if i >= 0 {
                        assert(acc2 == acc.update(i, f));
                        if k != i {
                            assert(acc2[k] == acc[k]);
                        } else {
                            assert(acc2[k] == f);
                        }
                    } else {
                        assert(acc2 == acc.push(f));
                        if k < acc.len() {
                            assert(acc2[k] == acc[k]);
                        } else {
                            assert(acc2[k] == f);
                        }
                    }
                }
                lemma_collect_skips(tokens.skip(1), store, acc2, tok);
            },
            Result::Err(_) => {},
        }
    }
}

/// Function-suffix equivalence: removing the `read` suffix from the token
/// `{{$NAME:read}}` yields exactly `{{$NAME}}`, for every name free of
/// colons; a `read` resolution therefore populates the bare token with the
/// same value.
pub proof fn lemma_read_token_bare(name: Seq<char>)
    requires
        forall|j: int| 0 <= j < name.len() ==> name[j] != ':',
    ensures
        spec_replace(
            spec_token(name, Option::Some("read"@)),
            seq![':'] + "read"@,
            Seq::empty(),
        ) == spec_token(name, Option::None),
{
    reveal_strlit("read");
    let tok = spec_token(name, Option::Some("read"@));
    let pat = seq![':'] + "read"@;
    let n = name.len() as int;
    let p = 3 + n;
    assert(pat.len() == 5);
    assert(tok.len() == n + 10);
    assert(spec_match_at(tok, pat, p)) by {
        assert(tok.subrange(p, p + 5) =~= pat);
    }
    assert forall|k: int| k != p implies !spec_match_at(tok, pat, k) by {
        if spec_match_at(tok, pat, k) {
            assert(tok.subrange(k, k + 5)[0] == pat[0]);
            assert(tok[k] == ':');
            if k < 3 {
                assert(tok[k] == '{' || tok[k] == '$');
            } else if k < p {
                assert(tok[k] == name[k - 3]);
            } else {
                assert(k + 5 <= tok.len());
                assert(k <= p + 2);
                if k == p + 1 {
                    assert(tok[k] == 'r');
                } else if k == p + 2 {
                    assert(tok[k] == 'e');
                }
            }
        }
    }
    lemma_replace_single(tok, pat, Seq::empty(), p);
    assert(tok.take(p) + Seq::<char>::empty() + tok.skip(p + 5) =~= spec_token(
        name,
        Option::None,
    ));
}

/// First-touch project name: once the store holds a non-empty project name,
/// the per-file project check never prompts again.
pub proof fn lemma_project_prompt_once(pre: Extraction, post: Extraction, r: Request)
    requires
        !project_unset(pre),
        project_check_rel(pre, post, r),
    ensures
        !(r is PromptLine),
        post.store@ == pre.store@,
{
}

/// Dotted-name JSON precedence: with a JSON document configured, a dotted
/// name is sent to the query evaluator whatever function suffix its token
/// carries; neither a prompt nor a warning is issued for it.
pub proof fn lemma_json_precedence(pre: Extraction, post: Extraction, r: Request, on_path: bool)
    requires
        pre.pending.deep_view().len() > 0,
        pre.json_text is Some,
        crate::text::spec_index_of(pre.pending.deep_view()[0].name, '.') >= 0,
        dispatch_rel(pre, post, r, on_path),
    ensures
        r is JsonQuery,
        post.store@ == pre.store@,
{
}

/// Directory auto-creation: whenever the substituted output path has a
/// non-empty parent, its creation is requested at the directory stage, and
/// no write is ever requested there; the write stage comes only after.
pub proof fn lemma_dirs_before_write(pre: Extraction, post: Extraction, r: Request)
    requires
        dirs_rel(pre, post, r),
    ensures
        spec_out_dir(pre).len() > 0 ==> (r matches Request::CreateDirs { path } && path@
            == spec_out_dir(pre)),
        !(r is WriteFile),
{
}

/// Unknown function rejection: a scan that meets an unrecognized function
/// suffix fails the whole text with the store untouched, so no placeholder
/// of that text is resolved, not even partially.
pub proof fn lemma_unknown_function_rejects(
    pre: Extraction,
    post: Extraction,
    r: Request,
    text: Seq<char>,
    on_path: bool,
)
    requires
        scan_rel(pre, post, r, text, on_path),
        spec_find(text, pre.store@) is Err,
    ensures
        post.store@ == pre.store@,
        post.stage is Failed,
        r is Failed,
{
}

/// Abort-on-error ordering, first half: a failed write fails the machine at
/// once, with the store and the file index frozen.
pub proof fn lemma_write_failure_aborts(pre: Extraction, post: Extraction, r: Request)
    requires
        write_done_rel(pre, Event::Written { ok: false }, post, r),
    ensures
        post.stage is Failed,
        post.idx == pre.idx,
        post.store@ == pre.store@,
        r is Failed,
{
}

/// Abort-on-error ordering, second half: a failed machine stays failed; no
/// later step requests another write (or any removal of earlier output), so
/// files after the failing one are never processed and files before it stay
/// on disk.
pub proof fn lemma_failed_machine_stays(pre: Extraction, e: Event, post: Extraction, r: Request)
    requires
        pre.stage is Failed,
        step_rel(pre, e, post, r),
    ensures
        post.stage is Failed,
        post.idx == pre.idx,
        post.store@ == pre.store@,
        r is Failed,
{
}

/// Pass-through default: applying a warning acknowledgement stores exactly
/// the empty string under the token text, and only there.
pub proof fn lemma_pass_through_empty(pre: Extraction, post: Extraction, r: Request, on_path: bool)
    requires
        pre.pending.deep_view().len() > 0,
        pre.store.wf(),
        crate::engine::warn_rel(pre, post, r, on_path),
    ensures
        spec_has_key(post.store@, pre.pending.deep_view()[0].token),
        crate::store::spec_value_of(post.store@, pre.pending.deep_view()[0].token)
            == Seq::<char>::empty(),
        forall|k: Seq<char>|
            k != pre.pending.deep_view()[0].token && spec_has_key(pre.store@, k) ==> (
            spec_has_key(post.store@, k) && crate::store::spec_value_of(post.store@, k)
                == crate::store::spec_value_of(pre.store@, k)),
{
    crate::store::lemma_store_insert(
        pre.store@,
        pre.pending.deep_view()[0].token,
        Seq::empty(),
    );
}

/// The strip of a bare token built from a wrapper-free name gives the name
/// back: formatting and stripping round-trip.
pub proof fn lemma_token_strip_round_trip(name: Seq<char>)
    requires
        forall|j: int| 0 <= j < name.len() ==> !is_wrap_char(name[j]),
    ensures
        spec_strip(spec_token(name, Option::None)) == name,
{
    let tok = spec_token(name, Option::None);
    let f = |c: char| is_wrap_char(c);
    assert(tok.len() == name.len() + 5);
    lemma_trim_start_wrap(tok, name);
    let mid = name + seq!['}', '}'];
    if name.len() == 0 {
        assert(mid =~= seq!['}', '}']);
        assert forall|j: int| 0 <= j < 2 implies is_wrap_char(mid[j]) by {
            assert(mid[j] == '}');
        }
        lemma_trim_end_by_take(mid, f, 0);
        assert(mid.take(0) =~= name);
    } else {
        lemma_trim_end_wrap(mid, name);
    }
}

proof fn lemma_trim_start_wrap(tok: Seq<char>, name: Seq<char>)
    requires
        tok == seq!['{', '{', '$'] + name + seq!['}', '}'],
        forall|j: int| 0 <= j < name.len() ==> !is_wrap_char(name[j]),
    ensures
        spec_trim_by(tok, |c: char| is_wrap_char(c)) == spec_trim_end_by(
            name + seq!['}', '}'],
            |c: char| is_wrap_char(c),
        ),
{
    let f = |c: char| is_wrap_char(c);
    if name.len() == 0 {
        assert(tok =~= seq!['{', '{', '$', '}', '}']);
        assert(spec_trim_start_by(tok, f) == tok.skip(5)) by {
            assert forall|j: int| 0 <= j < 5 implies is_wrap_char(tok[j]) by {
                assert(tok[j] == '{' || tok[j] == '$' || tok[j] == '}');
            }
            lemma_all_wrap_start(tok, 5);
        }
        assert(tok.skip(5) =~= Seq::<char>::empty());
        assert(name + seq!['}', '}'] =~= seq!['}', '}']);
        assert(spec_trim_end_by(seq!['}', '}'], f) == Seq::<char>::empty()) by {
            assert forall|j: int| 0 <= j < 2 implies is_wrap_char(seq!['}', '}'][j]) by {
                assert(seq!['}', '}'][j] == '}');
            }
            lemma_trim_end_by_take(seq!['}', '}'], f, 0);
            assert(seq!['}', '}'].take(0) =~= Seq::<char>::empty());
        }
        assert(spec_trim_end_by(Seq::<char>::empty(), f) == Seq::<char>::empty());
    } else {
        assert(spec_trim_start_by(tok, f) == tok.skip(3)) by {
            assert(tok[0] == '{' && tok[1] == '{' && tok[2] == '$');
            assert(tok[3] == name[0]);
            assert(!is_wrap_char(tok[3]));
            lemma_all_wrap_start(tok, 3);
        }
        assert(tok.skip(3) =~= name + seq!['}', '}']);
    }
}

proof fn lemma_all_wrap_start(tok: Seq<char>, a: int)
    requires
        0 <= a <= tok.len(),
        forall|j: int| 0 <= j < a ==> is_wrap_char(tok[j]),
        a == tok.len() || !is_wrap_char(tok[a]),
    ensures
        spec_trim_start_by(tok, |c: char| is_wrap_char(c)) == tok.skip(
            a,
        ),
{
    lemma_trim_start_by_skip(tok, |c: char| is_wrap_char(c), a);
}

proof fn lemma_trim_end_wrap(mid: Seq<char>, name: Seq<char>)
    requires
        mid == name + seq!['}', '}'],
        name.len() > 0,
        forall|j: int| 0 <= j < name.len() ==> !is_wrap_char(name[j]),
    ensures
        spec_trim_end_by(mid, |c: char| is_wrap_char(c)) == name,
{
    let f = |c: char| is_wrap_char(c);
    assert forall|j: int| name.len() <= j < mid.len() implies f(mid[j]) by {
        assert(mid[j] == '}');
    }
    assert(!f(mid[name.len() - 1]));
    lemma_trim_end_by_take(mid, f, name.len() as int);
    assert(mid.take(name.len() as int) =~= name);
}

} // verus!
