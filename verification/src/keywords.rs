//! Token formatting, stripping, store seeding and the substitution engine.
use crate::store::{spec_insert, KeywordStore};
use crate::text::{
    chars_of, is_wrap_char, replace_chars, spec_replace, spec_trim_by, string_of, trim_wrap,
};
use crate::Keywords;
use vstd::prelude::*;

verus! {

/// The literal token text for `name`: `{{$name}}`, or `{{$name:func}}` with a
/// function suffix.
pub open spec fn spec_token(name: Seq<char>, func: Option<Seq<char>>) -> Seq<char> {
    match func {
        Option::Some(f) => seq!['{', '{', '$'] + name + seq![':'] + f + seq!['}', '}'],
        Option::None => seq!['{', '{', '$'] + name + seq!['}', '}'],
    }
}

/// The wrapper characters `{`, `$`, `}` trimmed from both ends.
pub open spec fn spec_strip(s: Seq<char>) -> Seq<char> {
    spec_trim_by(s, |c: char| is_wrap_char(c))
}

/// What substituting every stored pair into `text` yields: one single pass
/// per key, in first-write order, never rescanning replaced text.
pub open spec fn spec_subst(pairs: Seq<(Seq<char>, Seq<char>)>, text: Seq<char>) -> Seq<char>
    decreases pairs.len(),
{
    if pairs.len() == 0 {
        text
    } else {
        spec_subst(pairs.skip(1), spec_replace(text, pairs[0].0, pairs[0].1))
    }
}

/// Seeding with the wrapped environment pairs, in order.
pub open spec fn spec_env_fold(
    pairs: Seq<(Seq<char>, Seq<char>)>,
    env: Seq<(Seq<char>, Seq<char>)>,
) -> Seq<(Seq<char>, Seq<char>)>
    decreases env.len(),
{
    if env.len() == 0 {
        pairs
    } else {
        spec_env_fold(spec_insert(pairs, spec_token(env[0].0, Option::None), env[0].1), env.skip(1))
    }
}

/// The optional home and current-directory seeds.
pub open spec fn spec_opt_seed(
    pairs: Seq<(Seq<char>, Seq<char>)>,
    name: Seq<char>,
    value: Option<Seq<char>>,
) -> Seq<(Seq<char>, Seq<char>)> {
    match value {
        Option::Some(v) => spec_insert(pairs, spec_token(name, Option::None), v),
        Option::None => pairs,
    }
}

/// The whole seeded store: home, the empty project name, the current
/// directory's basename, the timestamps and calendar fields, then every
/// environment variable, each key wrapped as a token.
pub open spec fn spec_seeded(
    home: Option<Seq<char>>,
    current_dir: Option<Seq<char>>,
    now_utc: Seq<char>,
    now_local: Seq<char>,
    year: Seq<char>,
    yy: Seq<char>,
    month: Seq<char>,
    day: Seq<char>,
    env: Seq<(Seq<char>, Seq<char>)>,
) -> Seq<(Seq<char>, Seq<char>)> {
    let s = spec_opt_seed(Seq::empty(), "HOME"@, home);
    let s = spec_insert(s, spec_token("PROJECTNAME"@, Option::None), Seq::empty());
    let s = spec_opt_seed(s, "CURRENTDIR"@, current_dir);
    let s = spec_insert(s, spec_token("NOW_UTC"@, Option::None), now_utc);
    let s = spec_insert(s, spec_token("NOW"@, Option::None), now_local);
    let s = spec_insert(s, spec_token("YYYY"@, Option::None), year);
    let s = spec_insert(s, spec_token("YY"@, Option::None), yy);
    let s = spec_insert(s, spec_token("MM"@, Option::None), month);
    let s = spec_insert(s, spec_token("DD"@, Option::None), day);
    spec_env_fold(s, env)
}

impl Keywords {
    /// The literal token text for `name`, with an optional function suffix.
    pub fn from(name: &str, function: Option<&str>) -> (r: String)
        ensures
            r@ == spec_token(
                name@,
                match function {
                    Option::Some(f) => Option::Some(f@),
                    Option::None => Option::None,
                },
            ),
    {
        let mut out: Vec<char> = Vec::new();
        out.push('{');
        out.push('{');
        out.push('$');
        let name_chars = chars_of(name);
        crate::text::push_all(&mut out, &name_chars);
        match function {
            Option::Some(f) => {
                out.push(':');
                let f_chars = chars_of(f);
                crate::text::push_all(&mut out, &f_chars);
                out.push('}');
                out.push('}');
                assert(out@ =~= spec_token(name@, Option::Some(f@)));
            },
            Option::None => {
                out.push('}');
                out.push('}');
                assert(out@ =~= spec_token(name@, Option::None));
            },
        }
        string_of(&out)
    }

    /// The token text with the `{`, `$`, `}` wrapper trimmed from both ends.
    pub fn strip(keyword: &str) -> (r: String)
        ensures
            r@ == spec_strip(keyword@),
    {
        let v = chars_of(keyword);
        let t = trim_wrap(&v);
        string_of(&t)
    }

    /// Replaces every stored token text occurring in `data` by its value:
    /// every key of the store is tried, not only tokens scanned out of
    /// `data`, one single pass per key in first-write order.
    pub fn replace_keywords(keywords: &KeywordStore, data: &str) -> (r: String)
        ensures
            r@ == spec_subst(keywords@, data@),
    {
        let mut cur = chars_of(data);
        let n = keywords.len();
        let mut i: usize = 0;
        proof {
            assert(keywords@.skip(0) =~= keywords@);
        }
        while i < n
            invariant
                i <= n,
                n == keywords@.len(),
                spec_subst(keywords@, data@) == spec_subst(keywords@.skip(i as int), cur@),
            decreases n - i,
        {
            let (k, v) = keywords.pair_at(i);
            let kc = chars_of(k.as_str());
            let vc = chars_of(v.as_str());
            let next = replace_chars(&cur, &kc, &vc);
            proof {
                assert(keywords@.skip(i as int).skip(1) =~= keywords@.skip(i + 1));
                assert(keywords@.skip(i as int)[0] == keywords@[i as int]);
            }
            cur = next;
            i = i + 1;
        }
        assert(keywords@.skip(i as int) =~= Seq::<(Seq<char>, Seq<char>)>::empty());
        string_of(&cur)
    }

    /// Builds the seeded store from plain values the caller gathered: the
    /// user's home path, the current directory's basename, the current UTC
    /// and local timestamps, the calendar fields and the environment
    /// variables. The project name is seeded empty.
    pub fn init(
        home: Option<String>,
        current_dir: Option<String>,
        now_utc: String,
        now_local: String,
        year: String,
        yy: String,
        month: String,
        day: String,
        env_vars: Vec<(String, String)>,
    ) -> (r: KeywordStore)
        ensures
            r.wf(),
            r@ == spec_seeded(
                match home {
                    Option::Some(h) => Option::Some(h@),
                    Option::None => Option::None,
                },
                match current_dir {
                    Option::Some(d) => Option::Some(d@),
                    Option::None => Option::None,
                },
                now_utc@,
                now_local@,
                year@,
                yy@,
                month@,
                day@,
                env_vars.deep_view(),
            ),
    {
        let ghost ghome = match home {
            Option::Some(ref h) => Option::Some(h@),
            Option::None => Option::None::<Seq<char>>,
        };
        let ghost gdir = match current_dir {
            Option::Some(ref d) => Option::Some(d@),
            Option::None => Option::None::<Seq<char>>,
        };
        let mut store = KeywordStore::new();
        match home {
            Option::Some(h) => {
                store.insert(Keywords::from("HOME", Option::None), h);
            },
            Option::None => {},
        }
        store.insert(Keywords::from("PROJECTNAME", Option::None), String::new());
        match current_dir {
            Option::Some(d) => {
                store.insert(Keywords::from("CURRENTDIR", Option::None), d);
            },
            Option::None => {},
        }
        store.insert(Keywords::from("NOW_UTC", Option::None), now_utc);
        store.insert(Keywords::from("NOW", Option::None), now_local);
        store.insert(Keywords::from("YYYY", Option::None), year);
        store.insert(Keywords::from("YY", Option::None), yy);
        store.insert(Keywords::from("MM", Option::None), month);
        store.insert(Keywords::from("DD", Option::None), day);
        let ghost base = store@;
        assert(base == spec_insert(
            spec_insert(
                spec_insert(
                    spec_insert(
                        spec_insert(
                            spec_insert(
                                spec_opt_seed(
                                    spec_insert(
                                        spec_opt_seed(Seq::empty(), "HOME"@, ghome),
                                        spec_token("PROJECTNAME"@, Option::None),
                                        Seq::empty(),
                                    ),
                                    "CURRENTDIR"@,
                                    gdir,
                                ),
                                spec_token("NOW_UTC"@, Option::None),
                                now_utc@,
                            ),
                            spec_token("NOW"@, Option::None),
                            now_local@,
                        ),
                        spec_token("YYYY"@, Option::None),
                        year@,
                    ),
                    spec_token("YY"@, Option::None),
                    yy@,
                ),
                spec_token("MM"@, Option::None),
                month@,
            ),
            spec_token("DD"@, Option::None),
            day@,
        ));
        let m = env_vars.len();
        let mut i: usize = 0;
        proof {
            assert(env_vars.deep_view().skip(0) =~= env_vars.deep_view());
        }
        while i < m
            invariant
                i <= m,
                m == env_vars@.len(),
                env_vars.deep_view().len() == env_vars@.len(),
                store.wf(),
                spec_env_fold(base, env_vars.deep_view()) == spec_env_fold(
                    store@,
                    env_vars.deep_view().skip(i as int),
                ),
            decreases m - i,
        {
            let key = Keywords::from(env_vars[i].0.as_str(), Option::None);
            let value = env_vars[i].1.clone();
            proof {
                assert(env_vars.deep_view()[i as int] == (env_vars@[i as int].0@, env_vars@[
                    i as int].1@));
                assert(env_vars.deep_view().skip(i as int).skip(1) =~= env_vars.deep_view().skip(
                    i + 1,
                ));
                assert(env_vars.deep_view().skip(i as int)[0] == env_vars.deep_view()[i as int]);
            }
            store.insert(key, value);
            i = i + 1;
        }
        assert(env_vars.deep_view().skip(i as int) =~= Seq::<(Seq<char>, Seq<char>)>::empty());
        store
    }
}

} // verus!
