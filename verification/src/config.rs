//! The configuration locations: the config document's path and the templates
//! directory that sits beside it.
use crate::text::{chars_of, parent_dir, push_all, spec_parent, string_of};
use vstd::prelude::*;

verus! {

/// Where the configuration and the template documents live.
#[derive(Debug, Clone)]
pub struct Config {
    pub path: String,
    pub templates_path: String,
}

/// The templates directory beside a config path: its parent directory joined
/// with `templates`; a path without a directory part uses `templates` alone.
pub open spec fn spec_templates_dir(path: Seq<char>) -> Seq<char> {
    if spec_parent(path).len() == 0 {
        "templates"@
    } else {
        spec_parent(path) + seq!['/'] + "templates"@
    }
}

impl Config {
    /// From the already home-expanded config path.
    pub fn new(path: String) -> (r: Config)
        ensures
            r.path@ == path@,
            r.templates_path@ == spec_templates_dir(path@),
    {
        let chars = chars_of(path.as_str());
        let parent = parent_dir(&chars);
        let name = chars_of("templates");
        if parent.len() == 0 {
            Config { path, templates_path: string_of(&name) }
        } else {
            let mut out = parent;
            out.push('/');
            push_all(&mut out, &name);
            assert(out@ =~= spec_parent(path@) + seq!['/'] + "templates"@);
            Config { path, templates_path: string_of(&out) }
        }
    }

    /// Wraps plain key/value pairs read from the configuration into the
    /// keyword store: each key becomes its placeholder token.
    pub fn get_keywords(pairs: Vec<(String, String)>) -> (r: crate::store::KeywordStore)
        ensures
            r.wf(),
            r@ == crate::keywords::spec_env_fold(
                Seq::<(Seq<char>, Seq<char>)>::empty(),
                pairs.deep_view(),
            ),
    {
        let mut store = crate::store::KeywordStore::new();
        let ghost dv = pairs.deep_view();
        let n = pairs.len();
        let mut i: usize = 0;
        proof {
            assert(dv.skip(0) =~= dv);
        }
        while i < n
            invariant
                i <= n,
                n == pairs@.len(),
                dv == pairs.deep_view(),
                dv.len() == n,
                store.wf(),
                crate::keywords::spec_env_fold(Seq::<(Seq<char>, Seq<char>)>::empty(), dv)
                    == crate::keywords::spec_env_fold(store@, dv.skip(i as int)),
            decreases n - i,
        {
            proof {
                assert(dv.skip(i as int).skip(1) =~= dv.skip(i + 1));
                assert(dv.skip(i as int)[0] == dv[i as int]);
                assert(dv[i as int] == (pairs@[i as int].0@, pairs@[i as int].1@));
            }
            let key = crate::Keywords::from(pairs[i].0.as_str(), Option::None);
            let value = pairs[i].1.clone();
            store.insert(key, value);
            i = i + 1;
        }
        assert(dv.skip(i as int) =~= Seq::<(Seq<char>, Seq<char>)>::empty());
        store
    }
}

} // verus!
