//! Placeholder discovery and classification: finds the leftmost, shortest
//! `{{$...}}` spans of a text, skips tokens the store already resolves, and
//! classifies each remaining token by its optional function suffix.
use crate::store::{spec_has_key, KeywordStore};
use crate::text::{
    chars_of, count_char, eq_chars, index_of, spec_count_char, spec_index_of, spec_replace,
    spec_trim_by, string_of, subvec, trim_spaces, trim_wrap, is_space_char,
};
use crate::keywords::{spec_strip, spec_token};
use crate::Fns;
use vstd::prelude::*;

verus! {

/// A token opens at `i`: the characters `{{$`.
pub open spec fn spec_open_at(t: Seq<char>, i: int) -> bool {
    0 <= i && i + 3 <= t.len() && t[i] == '{' && t[i + 1] == '{' && t[i + 2] == '$'
}

/// A token closes at `j`: the characters `}}`.
pub open spec fn spec_close_at(t: Seq<char>, j: int) -> bool {
    0 <= j && j + 2 <= t.len() && t[j] == '}' && t[j + 1] == '}'
}

/// The first closing position at or after `from`, or -1.
pub open spec fn spec_first_close(t: Seq<char>, from: int) -> int
    decreases t.len() - from,
{
    if from < 0 || from + 2 > t.len() {
        -1
    } else if spec_close_at(t, from) {
        from
    } else {
        spec_first_close(t, from + 1)
    }
}

/// Exclusive end of the shortest token starting at `i`, or -1 when no token
/// starts there. The span between the delimiters may not hold a newline.
pub open spec fn spec_match_end(t: Seq<char>, i: int) -> int {
    if !spec_open_at(t, i) {
        -1
    } else {
        let j = spec_first_close(t, i + 3);
        if j >= 0 && (forall|k: int| i + 3 <= k < j ==> t[k] != '\n') {
            j + 2
        } else {
            -1
        }
    }
}

/// Every token text of `t` from position `pos` on: leftmost first, shortest
/// span, scanning resuming right after each match.
pub open spec fn spec_tokens(t: Seq<char>, pos: int) -> Seq<Seq<char>>
    decreases t.len() - pos,
{
    if pos < 0 || pos >= t.len() {
        Seq::empty()
    } else {
        let e = spec_match_end(t, pos);
        if pos < e <= t.len() {
            seq![t.subrange(pos, e)] + spec_tokens(t, e)
        } else {
            spec_tokens(t, pos + 1)
        }
    }
}

proof fn lemma_first_close_found(t: Seq<char>, from: int, j: int)
    requires
        0 <= from <= j,
        spec_close_at(t, j),
        forall|k: int| from <= k < j ==> !spec_close_at(t, k),
    ensures
        spec_first_close(t, from) == j,
    decreases j - from,
{
    if from < j {
        lemma_first_close_found(t, from + 1, j);
    }
}

proof fn lemma_first_close_absent(t: Seq<char>, from: int)
    requires
        0 <= from,
        forall|k: int| from <= k ==> !spec_close_at(t, k),
    ensures
        spec_first_close(t, from) == -1,
    decreases t.len() - from,
{
    if from + 2 <= t.len() {
        lemma_first_close_absent(t, from + 1);
    }
}

/// The end of the shortest token starting at `i`, if one starts there.
fn match_end_at(t: &Vec<char>, i: usize) -> (r: Option<usize>)
    requires
        i < t@.len(),
    ensures
        match r {
            Option::Some(e) => spec_match_end(t@, i as int) == e as int && i < e <= t@.len(),
            Option::None => spec_match_end(t@, i as int) == -1,
        },
{
    let n = t.len();
    if n - i < 3 || t[i] != '{' || t[i + 1] != '{' || t[i + 2] != '$' {
        assert(!spec_open_at(t@, i as int));
        return Option::None;
    }
    assert(spec_open_at(t@, i as int));
    let mut j: usize = i + 3;
    let mut saw_newline: bool = false;
    while j < n - 1
        invariant
            spec_open_at(t@, i as int),
            i + 3 <= j,
            3 <= n == t@.len(),
            j <= n,
            forall|k: int| i + 3 <= k < j ==> !spec_close_at(t@, k),
            saw_newline == !(forall|k: int| i + 3 <= k < j ==> t@[k] != '\n'),
        decreases n - j,
    {
        if t[j] == '}' && t[j + 1] == '}' {
            assert(spec_close_at(t@, j as int));
            proof {
                lemma_first_close_found(t@, i + 3, j as int);
            }
            if saw_newline {
                return Option::None;
            }
            proof {
                assert(spec_first_close(t@, i + 3) == j as int);
                assert(forall|k: int| i + 3 <= k < j ==> t@[k] != '\n');
                assert(spec_match_end(t@, i as int) == j + 2);
            }
            return Option::Some(j + 2);
        }
        if t[j] == '\n' {
            saw_newline = true;
        }
        assert(!spec_close_at(t@, j as int));
        j = j + 1;
    }
    proof {
        assert forall|k: int| i + 3 <= k implies !spec_close_at(t@, k) by {
            if k >= j {
                assert(k + 2 > t@.len());
            }
        }
        lemma_first_close_absent(t@, i + 3);
    }
    Option::None
}

/// All token texts of `t`, leftmost first.
pub fn scan_tokens(t: &Vec<char>) -> (r: Vec<Vec<char>>)
    ensures
        r.deep_view() == spec_tokens(t@, 0),
{
    let n = t.len();
    let mut out: Vec<Vec<char>> = Vec::new();
    let mut pos: usize = 0;
    proof {
        assert(out.deep_view() =~= Seq::<Seq<char>>::empty());
    }
    while pos < n
        invariant
            n == t@.len(),
            pos <= n,
            spec_tokens(t@, 0) == out.deep_view() + spec_tokens(t@, pos as int),
        decreases n - pos,
    {
        let ghost pre = out.deep_view();
        match match_end_at(t, pos) {
            Option::Some(e) => {
                let tok = subvec(t, pos, e);
                assert(tok.deep_view() =~= tok@);
                out.push(tok);
                proof {
                    assert(out.deep_view() =~~= pre.push(t@.subrange(pos as int, e as int)));
                    assert(spec_tokens(t@, 0) =~~= out.deep_view() + spec_tokens(t@, e as int));
                }
                pos = e;
            },
            Option::None => {
                pos = pos + 1;
            },
        }
    }
    assert(spec_tokens(t@, pos as int) =~= Seq::<Seq<char>>::empty());
    assert(out.deep_view() =~= out.deep_view() + Seq::<Seq<char>>::empty());
    out
}

/// A classified placeholder: the stripped name under which it resolves, the
/// exact token text under which the value is stored, and the function.
pub struct FoundKeyword {
    pub name: String,
    pub token: String,
    pub func: Fns,
}

/// The spec-level shape of a classified placeholder.
pub struct FoundView {
    pub name: Seq<char>,
    pub token: Seq<char>,
    pub func: Fns,
}

impl View for FoundKeyword {
    type V = FoundView;

    open spec fn view(&self) -> FoundView {
        FoundView { name: self.name@, token: self.token@, func: self.func }
    }
}

impl DeepView for FoundKeyword {
    type V = FoundView;

    open spec fn deep_view(&self) -> FoundView {
        self@
    }
}

/// How one token text classifies: `Err` carries the unrecognized function
/// suffix. A name with exactly one colon is split there and its suffix must
/// trim-equal `read`; any other name passes through unclassified.
pub open spec fn spec_classify(token: Seq<char>) -> Result<FoundView, Seq<char>> {
    let stripped = spec_strip(token);
    if spec_count_char(stripped, ':') == 1 {
        let i = spec_index_of(stripped, ':');
        let suffix = stripped.skip(i + 1);
        if spec_trim_by(suffix, |c: char| is_space_char(c)) == "read"@ {
            Result::Ok(FoundView { name: stripped.take(i), token, func: Fns::Read })
        } else {
            Result::Err(suffix)
        }
    } else {
        Result::Ok(FoundView { name: stripped, token, func: Fns::Plain })
    }
}

/// Classifies one token text.
pub fn classify(token: &String) -> (r: Result<FoundKeyword, String>)
    ensures
        match r {
            Result::Ok(f) => spec_classify(token@) is Ok && f@ == spec_classify(token@)->Ok_0,
            Result::Err(e) => spec_classify(token@) is Err && e@ == spec_classify(token@)->Err_0,
        },
{
    let chars = chars_of(token.as_str());
    let stripped = trim_wrap(&chars);
    let colons = count_char(&stripped, ':');
    if colons == 1 {
        match index_of(&stripped, ':') {
            Option::Some(i) => {
                let sl = stripped.len();
                assert(i < sl);
                let suffix = subvec(&stripped, i + 1, sl);
                let trimmed = trim_spaces(&suffix);
                let read_chars = chars_of("read");
                if eq_chars(&trimmed, &read_chars) {
                    let name = subvec(&stripped, 0, i);
                    assert(stripped@.take(i as int) =~= stripped@.subrange(0, i as int));
                    Result::Ok(
                        FoundKeyword {
                            name: string_of(&name),
                            token: token.clone(),
                            func: Fns::Read,
                        },
                    )
                } else {
                    Result::Err(string_of(&suffix))
                }
            },
            Option::None => {
                // One colon was counted, so one is found.
                proof {
                    crate::text::lemma_index_of_none(stripped@, ':');
                    crate::text::lemma_count_none(stripped@, ':');
                }
                vstd::pervasive::unreached()
            },
        }
    } else {
        Result::Ok(
            FoundKeyword { name: string_of(&stripped), token: token.clone(), func: Fns::Plain },
        )
    }
}

/// Index of the entry named `name` in the accumulated list, or -1.
pub open spec fn spec_name_index(acc: Seq<FoundView>, name: Seq<char>) -> int
    decreases acc.len(),
{
    if acc.len() == 0 {
        -1
    } else if acc[0].name == name {
        0
    } else {
        let r = spec_name_index(acc.skip(1), name);
        if r < 0 {
            -1
        } else {
            r + 1
        }
    }
}

/// Inserting into the ordered mapping from stripped name to classification:
/// a repeated name keeps its first position and takes the later
/// classification; a new name is appended.
pub open spec fn spec_insert_found(acc: Seq<FoundView>, f: FoundView) -> Seq<FoundView> {
    let i = spec_name_index(acc, f.name);
    if i >= 0 {
        acc.update(i, f)
    } else {
        acc.push(f)
    }
}

/// Folding classification over the scanned tokens: tokens the store already
/// resolves are skipped before classification, and the first unrecognized
/// function suffix fails the whole scan.
pub open spec fn spec_collect(
    tokens: Seq<Seq<char>>,
    store: Seq<(Seq<char>, Seq<char>)>,
    acc: Seq<FoundView>,
) -> Result<Seq<FoundView>, Seq<char>>
    decreases tokens.len(),
{
    if tokens.len() == 0 {
        Result::Ok(acc)
    } else if spec_has_key(store, tokens[0]) {
        spec_collect(tokens.skip(1), store, acc)
    } else {
        match spec_classify(tokens[0]) {
            Result::Ok(f) => spec_collect(tokens.skip(1), store, spec_insert_found(acc, f)),
            Result::Err(e) => Result::Err(e),
        }
    }
}

/// What scanning `text` against `store` finds: the ordered classification of
/// every token not already resolved, or the unrecognized function suffix
/// that failed the scan.
pub open spec fn spec_find(
    text: Seq<char>,
    store: Seq<(Seq<char>, Seq<char>)>,
) -> Result<Seq<FoundView>, Seq<char>> {
    spec_collect(spec_tokens(text, 0), store, Seq::empty())
}

fn name_index(acc: &Vec<FoundKeyword>, name: &String) -> (r: Option<usize>)
    ensures
        match r {
            Option::Some(i) => spec_name_index(acc.deep_view(), name@) == i as int && i
                < acc@.len(),
            Option::None => spec_name_index(acc.deep_view(), name@) == -1,
        },
{
    let n = acc.len();
    let mut i: usize = 0;
    while i < n
        invariant
            i <= n,
            n == acc@.len(),
            acc.deep_view().len() == acc@.len(),
            forall|j: int| 0 <= j < i ==> acc.deep_view()[j].name != name@,
        decreases n - i,
    {
        assert(acc.deep_view()[i as int] == acc@[i as int]@);
        if acc[i].name.eq(name) {
            proof {
                lemma_name_index_found(acc.deep_view(), name@, i as int);
            }
            return Option::Some(i);
        }
        i = i + 1;
    }
    proof {
        lemma_name_index_absent(acc.deep_view(), name@);
    }
    Option::None
}

proof fn lemma_name_index_found(acc: Seq<FoundView>, name: Seq<char>, i: int)
    requires
        0 <= i < acc.len(),
        acc[i].name == name,
        forall|j: int| 0 <= j < i ==> acc[j].name != name,
    ensures
        spec_name_index(acc, name) == i,
    decreases i,
{
    if i > 0 {
        lemma_name_index_found(acc.skip(1), name, i - 1);
    }
}

proof fn lemma_name_index_absent(acc: Seq<FoundView>, name: Seq<char>)
    requires
        forall|j: int| 0 <= j < acc.len() ==> acc[j].name != name,
    ensures
        spec_name_index(acc, name) == -1,
    decreases acc.len(),
{
    if acc.len() > 0 {
        lemma_name_index_absent(acc.skip(1), name);
    }
}

impl Fns {
    /// Scans `txt` for placeholder tokens not already resolved by the store
    /// and classifies each. An unrecognized function suffix fails the whole
    /// scan and names the suffix; the store is read only.
    pub fn find(txt: &str, keywords: &KeywordStore) -> (r: Result<Vec<FoundKeyword>, String>)
        ensures
            match r {
                Result::Ok(found) => spec_find(txt@, keywords@) is Ok && found.deep_view()
                    == spec_find(txt@, keywords@)->Ok_0,
                Result::Err(e) => spec_find(txt@, keywords@) is Err && e@ == spec_find(
                    txt@,
                    keywords@,
                )->Err_0,
            },
    {
        let chars = chars_of(txt);
        let tokens = scan_tokens(&chars);
        let ghost toks = spec_tokens(txt@, 0);
        let mut acc: Vec<FoundKeyword> = Vec::new();
        let n = tokens.len();
        let mut i: usize = 0;
        proof {
            assert(toks.skip(0) =~= toks);
            assert(acc.deep_view() =~= Seq::<FoundView>::empty());
        }
        while i < n
            invariant
                i <= n,
                n == tokens@.len(),
                toks == spec_tokens(txt@, 0),
                tokens.deep_view() == toks,
                toks.len() == tokens@.len(),
                spec_collect(toks, keywords@, Seq::empty()) == spec_collect(
                    toks.skip(i as int),
                    keywords@,
                    acc.deep_view(),
                ),
            decreases n - i,
        {
            proof {
                assert(toks.skip(i as int).skip(1) =~= toks.skip(i + 1));
                assert(toks.skip(i as int)[0] == toks[i as int]);
                assert(tokens.deep_view()[i as int] == tokens@[i as int].deep_view());
                assert(tokens@[i as int].deep_view() =~= tokens@[i as int]@);
            }
            let token = string_of(&tokens[i]);
            if !keywords.contains_key(&token) {
                match classify(&token) {
                    Result::Ok(f) => {
                        let ghost pre = acc.deep_view();
                        match name_index(&acc, &f.name) {
                            Option::Some(k) => {
                                acc.set(k, f);
                                assert(acc.deep_view() =~= spec_insert_found(pre, f@));
                            },
                            Option::None => {
                                acc.push(f);
                                assert(acc.deep_view() =~= spec_insert_found(pre, f@));
                            },
                        }
                    },
                    Result::Err(e) => {
                        proof {
                            assert(!spec_has_key(keywords@, toks[i as int]));
                            assert(spec_collect(toks.skip(i as int), keywords@, acc.deep_view())
                                == Result::<Seq<FoundView>, Seq<char>>::Err(e@));
                        }
                        return Result::Err(e);
                    },
                }
            }
            i = i + 1;
        }
        assert(toks.skip(i as int) =~= Seq::<Seq<char>>::empty());
        Result::Ok(acc)
    }

    /// Removes the `:func` suffix of this function from a token text.
    pub fn remove_fn_name(keyword: &str, func_name: Fns) -> (r: String)
        ensures
            r@ == spec_replace(keyword@, seq![':'] + spec_fn_name(func_name), Seq::empty()),
    {
        let mut pat: Vec<char> = Vec::new();
        pat.push(':');
        match func_name {
            Fns::Read => {
                let name = chars_of("read");
                crate::text::push_all(&mut pat, &name);
            },
            Fns::Plain => {},
        }
        assert(pat@ =~= seq![':'] + spec_fn_name(func_name));
        let kc = chars_of(keyword);
        let empty: Vec<char> = Vec::new();
        assert(empty@ =~= Seq::<char>::empty());
        let out = crate::text::replace_chars(&kc, &pat, &empty);
        string_of(&out)
    }

    /// The textual name of the function suffix.
    pub fn name_text(self) -> (r: String)
        ensures
            r@ == spec_fn_name(self),
    {
        match self {
            Fns::Read => {
                let mut v: Vec<char> = Vec::new();
                v.push('r');
                v.push('e');
                v.push('a');
                v.push('d');
                proof {
                    reveal_strlit("read");
                    assert(v@ =~= "read"@);
                }
                string_of(&v)
            },
            Fns::Plain => {
                String::new()
            },
        }
    }
}

/// The textual name of a function suffix: `read`, or empty for pass-through.
pub open spec fn spec_fn_name(f: Fns) -> Seq<char> {
    match f {
        Fns::Read => "read"@,
        Fns::Plain => Seq::empty(),
    }
}

} // verus!
