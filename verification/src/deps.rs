//! The resolved dependency set: lookup, the environment-override pass, and
//! deterministic aggregation of the descriptors' fields.

use vstd::prelude::*;
use crate::envvars::{env_var_name, snake, snake_of, EnvVariable, EnvVariables};
use crate::error::Error;
use crate::flags::{BuildFlag, BuildFlags, FlagView};
use crate::library::{Library, LibView, Source};
use crate::sorting::{
    define_views, has_define, lemma_has_define_concat, lemma_has_define_is_contains, sorted_dedup,
    sorted_dedup_defines, strictly_sorted_defines,
};
use crate::strutil::{
    assoc_get, assoc_put, has_str, join_strings, join_with, lemma_assoc_put_absent,
    lemma_assoc_put_found, lemma_has_str_concat, lemma_has_str_is_contains, split_paths,
    split_spec, split_string, strictly_sorted, views,
};

verus! {

/// The views of a list of keyed descriptors.
pub open spec fn dep_views(s: Seq<(String, Library)>) -> Seq<(Seq<char>, LibView)> {
    s.map_values(|p: (String, Library)| (p.0@, p.1@))
}

/// All the system dependencies retrieved by resolution, keyed by the
/// manifest key that declared each.
#[derive(Debug)]
pub struct Dependencies {
    libs: Vec<(String, Library)>,
}

impl View for Dependencies {
    type V = Seq<(Seq<char>, LibView)>;

    closed spec fn view(&self) -> Seq<(Seq<char>, LibView)> {
        dep_views(self.libs@)
    }
}

/// One aggregated string-list field of a descriptor.
#[derive(Clone, Copy, Debug)]
pub enum LibField {
    Libs,
    LinkPaths,
    Frameworks,
    FrameworkPaths,
    IncludePaths,
}

/// The chosen field of a descriptor.
pub open spec fn lib_field(l: LibView, f: LibField) -> Seq<Seq<char>> {
    match f {
        LibField::Libs => l.libs,
        LibField::LinkPaths => l.link_paths,
        LibField::Frameworks => l.frameworks,
        LibField::FrameworkPaths => l.framework_paths,
        LibField::IncludePaths => l.include_paths,
    }
}

/// Whether some descriptor of `s` holds the value `x` in the chosen field.
pub open spec fn set_has_field(s: Seq<(Seq<char>, LibView)>, f: LibField, x: Seq<char>) -> bool {
    exists|j: int| 0 <= j < s.len() && #[trigger] lib_field(s[j].1, f).contains(x)
}

pub open spec fn set_has_field_upto(
    s: Seq<(Seq<char>, LibView)>,
    f: LibField,
    x: Seq<char>,
    n: int,
) -> bool {
    exists|j: int| 0 <= j < n && j < s.len() && #[trigger] lib_field(s[j].1, f).contains(x)
}

/// Whether some descriptor of `s` holds the define `x`.
pub open spec fn set_has_define(
    s: Seq<(Seq<char>, LibView)>,
    x: (Seq<char>, Option<Seq<char>>),
) -> bool {
    exists|j: int| 0 <= j < s.len() && #[trigger] s[j].1.defines.contains(x)
}

pub open spec fn set_has_define_upto(
    s: Seq<(Seq<char>, LibView)>,
    x: (Seq<char>, Option<Seq<char>>),
    n: int,
) -> bool {
    exists|j: int| 0 <= j < n && j < s.len() && #[trigger] s[j].1.defines.contains(x)
}

/// Append clones of all of `v` to `acc`.
fn push_all(acc: &mut Vec<String>, v: &Vec<String>)
    ensures
        final(acc)@ == old(acc)@ + v@,
{
    let mut k: usize = 0;
    proof {
        assert(acc@ =~= acc@ + v@.take(0));
    }
    while k < v.len()
        invariant
            0 <= k <= v@.len(),
            acc@ == old(acc)@ + v@.take(k as int),
        decreases v@.len() - k,
    {
        acc.push(v[k].clone());
        proof {
            assert(old(acc)@ + v@.take(k as int + 1) =~= (old(acc)@ + v@.take(k as int)).push(
                v@[k as int],
            ));
        }
        k = k + 1;
    }
    proof {
        assert(v@.take(v@.len() as int) =~= v@);
    }
}

/// The chosen field of a descriptor, as the executable vector.
fn field_vec<'a>(l: &'a Library, f: LibField) -> (r: &'a Vec<String>)
    ensures
        views(r@) == lib_field(l@, f),
{
    match f {
        LibField::Libs => &l.libs,
        LibField::LinkPaths => &l.link_paths,
        LibField::Frameworks => &l.frameworks,
        LibField::FrameworkPaths => &l.framework_paths,
        LibField::IncludePaths => &l.include_paths,
    }
}

impl Default for Dependencies {
    /// An empty set of dependencies.
    fn default() -> (r: Self)
        ensures
            r@ == Seq::<(Seq<char>, LibView)>::empty(),
    {
        let r = Dependencies { libs: Vec::new() };
        proof {
            assert(dep_views(r.libs@) =~= Seq::<(Seq<char>, LibView)>::empty());
        }
        r
    }
}

impl Dependencies {
    /// Keys are unique: at most one descriptor per manifest key.
    pub open spec fn wf(&self) -> bool {
        forall|i: int, j: int| 0 <= i < j < self@.len() ==> self@[i].0 != self@[j].0
    }

    /// Retrieve details about a system dependency by the manifest key that
    /// declared it.
    pub fn get_by_name(&self, name: &str) -> (r: Option<&Library>)
        ensures
            r is Some <==> assoc_get(self@, name@) is Some,
            r matches Some(l) ==> assoc_get(self@, name@) == Some(l@),
    {
        let key = name.to_owned();
        let mut i: usize = 0;
        proof {
            assert(self@.skip(0) =~= self@);
        }
        while i < self.libs.len()
            invariant
                0 <= i <= self.libs@.len(),
                self@ == dep_views(self.libs@),
                key@ == name@,
                assoc_get(self@, name@) == assoc_get(self@.skip(i as int), name@),
            decreases self.libs@.len() - i,
        {
            if self.libs[i].0 == key {
                proof {
                    assert(self@.skip(i as int)[0] == self@[i as int]);
                }
                return Some(&self.libs[i].1);
            }
            proof {
                assert(self@.skip(i as int)[0] == self@[i as int]);
                assert(self@.skip(i as int).drop_first() =~= self@.skip(i as int + 1));
            }
            i = i + 1;
        }
        proof {
            assert(self@.skip(i as int) =~= Seq::<(Seq<char>, LibView)>::empty());
        }
        None
    }

    /// All dependencies, in insertion order, each with the manifest key that
    /// declared it.
    pub fn iter(&self) -> (r: &Vec<(String, Library)>)
        ensures
            dep_views(r@) == self@,
    {
        &self.libs
    }

    /// The position of the descriptor under `name`, if any.
    fn find_key(&self, name: &str) -> (r: Option<usize>)
        ensures
            r matches Some(j) ==> 0 <= j < self@.len() && self@[j as int].0 == name@ && forall|
                p: int,
            | 0 <= p < j ==> self@[p].0 != name@,
            r is None ==> forall|p: int| 0 <= p < self@.len() ==> self@[p].0 != name@,
    {
        let key = name.to_owned();
        let mut i: usize = 0;
        while i < self.libs.len()
            invariant
                0 <= i <= self.libs@.len(),
                self@ == dep_views(self.libs@),
                key@ == name@,
                forall|p: int| 0 <= p < i ==> self@[p].0 != name@,
            decreases self.libs@.len() - i,
        {
            if self.libs[i].0 == key {
                return Some(i);
            }
            i = i + 1;
        }
        None
    }

    /// Insert a descriptor under a key; a duplicate key silently replaces
    /// the earlier descriptor.
    pub fn add(&mut self, name: &str, lib: Library)
        ensures
            final(self)@ == assoc_put(old(self)@, name@, lib@),
            old(self).wf() ==> final(self).wf(),
    {
        let ghost orig = self@;
        let ghost pair = (name@, lib@);
        match self.find_key(name) {
            Some(j) => {
                proof {
                    lemma_assoc_put_found(orig, name@, lib@, j as int);
                }
                let ghost before = self.libs@;
                self.libs.set(j, (name.to_owned(), lib));
                proof {
                    assert(self@.len() == orig.len());
                    assert forall|p: int| 0 <= p < orig.len() implies dep_views(self.libs@)[p]
                        == orig.update(j as int, pair)[p] by {
                        if p != j {
                            assert(self.libs@[p] == before[p]);
                        }
                    }
                    assert(dep_views(self.libs@) =~= orig.update(j as int, pair));
                    if old(self).wf() {
                        assert forall|a: int, b: int|
                            0 <= a < b < self@.len() implies self@[a].0 != self@[b].0 by {
                            assert(orig[a].0 != orig[b].0);
                            assert(orig[j as int].0 == name@);
                        }
                    }
                }
            },
            None => {
                proof {
                    lemma_assoc_put_absent(orig, name@, lib@);
                }
                let ghost before = self.libs@;
                self.libs.push((name.to_owned(), lib));
                proof {
                    assert forall|p: int| 0 <= p < orig.len() + 1 implies dep_views(self.libs@)[p]
                        == orig.push(pair)[p] by {
                        if p < orig.len() {
                            assert(self.libs@[p] == before[p]);
                        }
                    }
                    assert(dep_views(self.libs@) =~= orig.push(pair));
                    if old(self).wf() {
                        assert forall|a: int, b: int|
                            0 <= a < b < self@.len() implies self@[a].0 != self@[b].0 by {
                            if b < orig.len() {
                                assert(orig[a].0 != orig[b].0);
                            } else {
                                assert(self@[a].0 != name@);
                            }
                        }
                    }
                }
            },
        }
    }

    /// All values of one string-list field across the set, each once, in
    /// ascending order.
    fn collect_field(&self, f: LibField) -> (r: Vec<String>)
        ensures
            strictly_sorted(views(r@)),
            forall|x: Seq<char>| #[trigger] has_str(r@, x) ==> set_has_field(self@, f, x),
            forall|x: Seq<char>| #[trigger] set_has_field(self@, f, x) ==> has_str(r@, x),
    {
        let mut acc: Vec<String> = Vec::new();
        let mut i: usize = 0;
        while i < self.libs.len()
            invariant
                0 <= i <= self.libs@.len(),
                self@ == dep_views(self.libs@),
                forall|x: Seq<char>| #[trigger] has_str(acc@, x) ==> set_has_field_upto(
                    self@,
                    f,
                    x,
                    i as int,
                ),
                forall|x: Seq<char>| #[trigger] set_has_field_upto(self@, f, x, i as int)
                    ==> has_str(acc@, x),
            decreases self.libs@.len() - i,
        {
            let ghost prev = acc@;
            let v = field_vec(&self.libs[i].1, f);
            let ghost vv = v@;
            push_all(&mut acc, v);
            proof {
                assert(lib_field(self@[i as int].1, f) == views(vv));
                assert forall|x: Seq<char>| #[trigger] has_str(acc@, x) implies set_has_field_upto(
                    self@,
                    f,
                    x,
                    i as int + 1,
                ) by {
                    lemma_has_str_concat(prev, vv, x);
                    if has_str(prev, x) {
                        assert(set_has_field_upto(self@, f, x, i as int));
                        let j = choose|j: int|
                            0 <= j < i as int && j < self@.len() && #[trigger] lib_field(
                                self@[j].1,
                                f,
                            ).contains(x);
                        assert(lib_field(self@[j].1, f).contains(x));
                    } else {
                        lemma_has_str_is_contains(vv, x);
                        assert(lib_field(self@[i as int].1, f).contains(x));
                    }
                }
                assert forall|x: Seq<char>|
                    #[trigger] set_has_field_upto(self@, f, x, i as int + 1) implies has_str(
                    acc@,
                    x,
                ) by {
                    let j = choose|j: int|
                        0 <= j < i as int + 1 && j < self@.len() && #[trigger] lib_field(
                            self@[j].1,
                            f,
                        ).contains(x);
                    lemma_has_str_concat(prev, vv, x);
                    if j < i as int {
                        assert(set_has_field_upto(self@, f, x, i as int));
                    } else {
                        lemma_has_str_is_contains(vv, x);
                    }
                }
            }
            i = i + 1;
        }
        let r = sorted_dedup(acc);
        proof {
            assert forall|x: Seq<char>| #[trigger] set_has_field(self@, f, x) implies has_str(
                r@,
                x,
            ) by {
                assert(set_has_field_upto(self@, f, x, self@.len() as int));
            }
        }
        r
    }

    /// Each link library of each descriptor, deduplicated and in ascending
    /// order.
    pub fn all_libs(&self) -> (r: Vec<String>)
        ensures
            strictly_sorted(views(r@)),
            forall|x: Seq<char>| #[trigger] has_str(r@, x) ==> set_has_field(
                self@,
                LibField::Libs,
                x,
            ),
            forall|x: Seq<char>| #[trigger] set_has_field(self@, LibField::Libs, x) ==> has_str(
                r@,
                x,
            ),
    {
        self.collect_field(LibField::Libs)
    }

    /// Each linker search path of each descriptor, deduplicated and in
    /// ascending order.
    pub fn all_link_paths(&self) -> (r: Vec<String>)
        ensures
            strictly_sorted(views(r@)),
            forall|x: Seq<char>| #[trigger] has_str(r@, x) ==> set_has_field(
                self@,
                LibField::LinkPaths,
                x,
            ),
            forall|x: Seq<char>| #[trigger] set_has_field(self@, LibField::LinkPaths, x)
                ==> has_str(r@, x),
    {
        self.collect_field(LibField::LinkPaths)
    }

    /// Each framework of each descriptor, deduplicated and in ascending
    /// order.
    pub fn all_frameworks(&self) -> (r: Vec<String>)
        ensures
            strictly_sorted(views(r@)),
            forall|x: Seq<char>| #[trigger] has_str(r@, x) ==> set_has_field(
                self@,
                LibField::Frameworks,
                x,
            ),
            forall|x: Seq<char>| #[trigger] set_has_field(self@, LibField::Frameworks, x)
                ==> has_str(r@, x),
    {
        self.collect_field(LibField::Frameworks)
    }

    /// Each framework search path of each descriptor, deduplicated and in
    /// ascending order.
    pub fn all_framework_paths(&self) -> (r: Vec<String>)
        ensures
            strictly_sorted(views(r@)),
            forall|x: Seq<char>| #[trigger] has_str(r@, x) ==> set_has_field(
                self@,
                LibField::FrameworkPaths,
                x,
            ),
            forall|x: Seq<char>| #[trigger] set_has_field(self@, LibField::FrameworkPaths, x)
                ==> has_str(r@, x),
    {
        self.collect_field(LibField::FrameworkPaths)
    }

    /// Each header search path of each descriptor, deduplicated and in
    /// ascending order.
    pub fn all_include_paths(&self) -> (r: Vec<String>)
        ensures
            strictly_sorted(views(r@)),
            forall|x: Seq<char>| #[trigger] has_str(r@, x) ==> set_has_field(
                self@,
                LibField::IncludePaths,
                x,
            ),
            forall|x: Seq<char>| #[trigger] set_has_field(self@, LibField::IncludePaths, x)
                ==> has_str(r@, x),
    {
        self.collect_field(LibField::IncludePaths)
    }

    /// Each preprocessor define of each descriptor, deduplicated and in
    /// ascending order.
    pub fn all_defines(&self) -> (r: Vec<(String, Option<String>)>)
        ensures
            strictly_sorted_defines(define_views(r@)),
            forall|x: (Seq<char>, Option<Seq<char>>)| #[trigger] has_define(r@, x)
                ==> set_has_define(self@, x),
            forall|x: (Seq<char>, Option<Seq<char>>)| #[trigger] set_has_define(self@, x)
                ==> has_define(r@, x),
    {
        let mut acc: Vec<(String, Option<String>)> = Vec::new();
        let mut i: usize = 0;
        while i < self.libs.len()
            invariant
                0 <= i <= self.libs@.len(),
                self@ == dep_views(self.libs@),
                forall|x: (Seq<char>, Option<Seq<char>>)| #[trigger] has_define(acc@, x)
                    ==> set_has_define_upto(self@, x, i as int),
                forall|x: (Seq<char>, Option<Seq<char>>)| #[trigger] set_has_define_upto(
                    self@,
                    x,
                    i as int,
                ) ==> has_define(acc@, x),
            decreases self.libs@.len() - i,
        {
            let ghost prev = acc@;
            let v = &self.libs[i].1.defines;
            let ghost vv = v@;
            let mut k: usize = 0;
            proof {
                assert(acc@ =~= prev + vv.take(0));
            }
            while k < v.len()
                invariant
                    0 <= k <= vv.len(),
                    v@ == vv,
                    acc@ == prev + vv.take(k as int),
                decreases vv.len() - k,
            {
                acc.push((v[k].0.clone(), match &v[k].1 {
                    Some(s) => Some(s.clone()),
                    None => None,
                }));
                proof {
                    assert(prev + vv.take(k as int + 1) =~= (prev + vv.take(k as int)).push(
                        vv[k as int],
                    ));
                }
                k = k + 1;
            }
            proof {
                assert(vv.take(vv.len() as int) =~= vv);
                assert(self@[i as int].1.defines == define_views(vv));
                assert forall|x: (Seq<char>, Option<Seq<char>>)|
                    #[trigger] has_define(acc@, x) implies set_has_define_upto(
                    self@,
                    x,
                    i as int + 1,
                ) by {
                    lemma_has_define_concat(prev, vv, x);
                    if has_define(prev, x) {
                        assert(set_has_define_upto(self@, x, i as int));
                        let j = choose|j: int|
                            0 <= j < i as int && j < self@.len()
                                && #[trigger] self@[j].1.defines.contains(x);
                        assert(self@[j].1.defines.contains(x));
                    } else {
                        lemma_has_define_is_contains(vv, x);
                        assert(self@[i as int].1.defines.contains(x));
                    }
                }
                assert forall|x: (Seq<char>, Option<Seq<char>>)|
                    #[trigger] set_has_define_upto(self@, x, i as int + 1) implies has_define(
                    acc@,
                    x,
                ) by {
                    let j = choose|j: int|
                        0 <= j < i as int + 1 && j < self@.len()
                            && #[trigger] self@[j].1.defines.contains(x);
                    lemma_has_define_concat(prev, vv, x);
                    if j < i as int {
                        assert(set_has_define_upto(self@, x, i as int));
                    } else {
                        lemma_has_define_is_contains(vv, x);
                    }
                }
            }
            i = i + 1;
        }
        let r = sorted_dedup_defines(acc);
        proof {
            assert forall|x: (Seq<char>, Option<Seq<char>>)|
                #[trigger] set_has_define(self@, x) implies has_define(r@, x) by {
                assert(set_has_define_upto(self@, x, self@.len() as int));
            }
        }
        r
    }
}

// ---------------------------------------------------------------------------
// The environment-override pass
// ---------------------------------------------------------------------------

/// The value of one string-list field after the override pass: if the tuning
/// variable is set its split value fully replaces the field (an empty value
/// clears it); otherwise the field is kept.
pub open spec fn field_override(
    env: Seq<(Seq<char>, Seq<char>)>,
    key: Seq<char>,
    suffix: Seq<char>,
    sep: char,
    cur: Seq<Seq<char>>,
) -> Seq<Seq<char>> {
    match assoc_get(env, env_var_name(Some(key), suffix)) {
        Some(v) => if v.len() == 0 {
            Seq::empty()
        } else {
            split_spec(v, sep)
        },
        None => cur,
    }
}

/// A whole set after the override pass: each descriptor overridden under
/// its own key, keys and order kept.
pub open spec fn overridden(
    s: Seq<(Seq<char>, LibView)>,
    env: Seq<(Seq<char>, Seq<char>)>,
) -> Seq<(Seq<char>, LibView)> {
    Seq::new(s.len(), |j: int| (s[j].0, apply_env_spec(s[j].0, s[j].1, env)))
}

/// A descriptor after the override pass: the five overridable fields each
/// replaced when their variable is set, everything else kept.
pub open spec fn apply_env_spec(
    key: Seq<char>,
    l: LibView,
    env: Seq<(Seq<char>, Seq<char>)>,
) -> LibView {
    LibView {
        name: l.name,
        source: l.source,
        libs: field_override(env, key, "LIB"@, ' ', l.libs),
        link_paths: field_override(env, key, "SEARCH_NATIVE"@, ':', l.link_paths),
        frameworks: field_override(env, key, "LIB_FRAMEWORK"@, ' ', l.frameworks),
        framework_paths: field_override(env, key, "SEARCH_FRAMEWORK"@, ':', l.framework_paths),
        include_paths: field_override(env, key, "INCLUDE"@, ':', l.include_paths),
        defines: l.defines,
        version: l.version,
    }
}

/// One descriptor run through the override pass.
pub fn override_lib(key: &str, lib: Library, env: &EnvVariables) -> (r: Library)
    ensures
        r@ == apply_env_spec(key@, lib@, env@),
{
    let mut lib = lib;
    if let Some(v) = env.get_var(&EnvVariable::new_search_native(key)) {
        lib.link_paths = split_paths(v.as_str());
        proof {
            if v@.len() == 0 {
                assert(views(lib.link_paths@) =~= Seq::<Seq<char>>::empty());
            }
        }
    }
    if let Some(v) = env.get_var(&EnvVariable::new_search_framework(key)) {
        lib.framework_paths = split_paths(v.as_str());
        proof {
            if v@.len() == 0 {
                assert(views(lib.framework_paths@) =~= Seq::<Seq<char>>::empty());
            }
        }
    }
    if let Some(v) = env.get_var(&EnvVariable::new_lib(key)) {
        lib.libs = split_string(v.as_str());
        proof {
            if v@.len() == 0 {
                assert(views(lib.libs@) =~= Seq::<Seq<char>>::empty());
            }
        }
    }
    if let Some(v) = env.get_var(&EnvVariable::new_lib_framework(key)) {
        lib.frameworks = split_string(v.as_str());
        proof {
            if v@.len() == 0 {
                assert(views(lib.frameworks@) =~= Seq::<Seq<char>>::empty());
            }
        }
    }
    if let Some(v) = env.get_var(&EnvVariable::new_include(key)) {
        lib.include_paths = split_paths(v.as_str());
        proof {
            if v@.len() == 0 {
                assert(views(lib.include_paths@) =~= Seq::<Seq<char>>::empty());
            }
        }
    }
    lib
}

impl Dependencies {
    /// The override pass: apply the five per-key tuning variables to every
    /// descriptor, independently.  Running it again with the same
    /// environment changes nothing more.
    pub fn override_from_flags(&mut self, env: &EnvVariables)
        ensures
            final(self)@.len() == old(self)@.len(),
            forall|j: int| 0 <= j < final(self)@.len() ==> #[trigger] final(self)@[j] == (
                old(self)@[j].0,
                apply_env_spec(old(self)@[j].0, old(self)@[j].1, env@),
            ),
            final(self)@ == overridden(old(self)@, env@),
    {
        let ghost orig = self@;
        let mut i: usize = 0;
        while i < self.libs.len()
            invariant
                0 <= i <= self.libs@.len(),
                self@ == dep_views(self.libs@),
                orig == old(self)@,
                self@.len() == orig.len(),
                forall|j: int| i <= j < self@.len() ==> #[trigger] self@[j] == orig[j],
                forall|j: int| 0 <= j < i ==> #[trigger] self@[j] == (
                    orig[j].0,
                    apply_env_spec(orig[j].0, orig[j].1, env@),
                ),
            decreases self.libs@.len() - i,
        {
            let ghost before = self.libs@;
            let (key, lib) = self.libs.remove(i);
            let newlib = override_lib(key.as_str(), lib, env);
            self.libs.insert(i, (key, newlib));
            proof {
                assert(dep_views(before)[i as int] == orig[i as int]);
                assert(dep_views(self.libs@) =~~= dep_views(before).update(
                    i as int,
                    (orig[i as int].0, apply_env_spec(orig[i as int].0, orig[i as int].1, env@)),
                ));
                assert forall|j: int| 0 <= j < i + 1 implies #[trigger] dep_views(self.libs@)[j]
                    == (orig[j].0, apply_env_spec(orig[j].0, orig[j].1, env@)) by {
                    if j < i {
                        assert(dep_views(before)[j] == (
                            orig[j].0,
                            apply_env_spec(orig[j].0, orig[j].1, env@),
                        ));
                    }
                }
            }
            i = i + 1;
        }
        proof {
            assert(self@ =~= overridden(orig, env@));
        }
    }
}


// ---------------------------------------------------------------------------
// The flag generator
// ---------------------------------------------------------------------------

/// A no-discovery descriptor that defines nothing to link against: the
/// missing-lib rule rejects it.
pub open spec fn lib_missing(l: LibView) -> bool {
    l.source == Source::EnvVariables && l.libs.len() == 0 && l.frameworks.len() == 0
}

/// The first descriptor that breaks the missing-lib rule, if any.
pub open spec fn missing_lib_at(s: Seq<(Seq<char>, LibView)>) -> Option<int>
    decreases s.len(),
{
    if s.len() == 0 {
        None
    } else if lib_missing(s[0].1) {
        Some(0int)
    } else {
        match missing_lib_at(s.drop_first()) {
            Some(j) => Some(j + 1),
            None => None,
        }
    }
}

proof fn lemma_missing_at_found(s: Seq<(Seq<char>, LibView)>, i: int)
    requires
        0 <= i < s.len(),
        lib_missing(s[i].1),
        forall|j: int| 0 <= j < i ==> !lib_missing(s[j].1),
    ensures
        missing_lib_at(s) == Some(i),
    decreases i,
{
    if i > 0 {
        assert(!lib_missing(s[0].1));
        assert(s.drop_first()[i - 1] == s[i]);
        assert forall|j: int| 0 <= j < i - 1 implies !lib_missing(s.drop_first()[j].1) by {
            assert(s[j + 1] == s.drop_first()[j]);
        }
        lemma_missing_at_found(s.drop_first(), i - 1);
    }
}

proof fn lemma_missing_at_none(s: Seq<(Seq<char>, LibView)>)
    requires
        forall|j: int| 0 <= j < s.len() ==> !lib_missing(s[j].1),
    ensures
        missing_lib_at(s) is None,
    decreases s.len(),
{
    if s.len() > 0 {
        assert forall|j: int| 0 <= j < s.drop_first().len() implies !lib_missing(
            s.drop_first()[j].1,
        ) by {
            assert(s[j + 1] == s.drop_first()[j]);
        }
        lemma_missing_at_none(s.drop_first());
    }
}

/// The header search paths of all descriptors, laid end to end in set
/// order.
pub open spec fn all_includes(s: Seq<(Seq<char>, LibView)>) -> Seq<Seq<char>>
    decreases s.len(),
{
    if s.len() == 0 {
        Seq::empty()
    } else {
        s[0].1.include_paths + all_includes(s.drop_first())
    }
}

proof fn lemma_all_includes_push(t: Seq<(Seq<char>, LibView)>, p: (Seq<char>, LibView))
    ensures
        all_includes(t.push(p)) == all_includes(t) + p.1.include_paths,
    decreases t.len(),
{
    if t.len() == 0 {
        assert(t.push(p)[0] == p);
        assert(t.push(p).drop_first() =~= Seq::<(Seq<char>, LibView)>::empty());
        assert(all_includes(Seq::<(Seq<char>, LibView)>::empty()) == Seq::<Seq<char>>::empty());
        assert(all_includes(t.push(p)) =~= all_includes(t) + p.1.include_paths);
    } else {
        lemma_all_includes_push(t.drop_first(), p);
        assert(t.push(p)[0] == t[0]);
        assert(t.push(p).drop_first() =~= t.drop_first().push(p));
        assert(all_includes(t.push(p)) =~= all_includes(t) + p.1.include_paths);
    }
}

/// The rerun directives of one dependency key, in the order the variables
/// are declared.
pub open spec fn rerun_views(key: Seq<char>) -> Seq<FlagView> {
    seq![
        FlagView::RerunIfEnvChanged(Some(key), "LIB"@),
        FlagView::RerunIfEnvChanged(Some(key), "LIB_FRAMEWORK"@),
        FlagView::RerunIfEnvChanged(Some(key), "SEARCH_NATIVE"@),
        FlagView::RerunIfEnvChanged(Some(key), "SEARCH_FRAMEWORK"@),
        FlagView::RerunIfEnvChanged(Some(key), "INCLUDE"@),
        FlagView::RerunIfEnvChanged(Some(key), "NO_PKG_CONFIG"@),
        FlagView::RerunIfEnvChanged(Some(key), "BUILD_INTERNAL"@),
    ]
}

/// The rerun directives of every key, in set order.
pub open spec fn rerun_all(s: Seq<(Seq<char>, LibView)>) -> Seq<FlagView>
    decreases s.len(),
{
    if s.len() == 0 {
        Seq::empty()
    } else {
        rerun_views(s[0].0) + rerun_all(s.drop_first())
    }
}

proof fn lemma_rerun_all_push(t: Seq<(Seq<char>, LibView)>, p: (Seq<char>, LibView))
    ensures
        rerun_all(t.push(p)) == rerun_all(t) + rerun_views(p.0),
    decreases t.len(),
{
    if t.len() == 0 {
        assert(t.push(p)[0] == p);
        assert(t.push(p).drop_first() =~= Seq::<(Seq<char>, LibView)>::empty());
        assert(rerun_all(Seq::<(Seq<char>, LibView)>::empty()) == Seq::<FlagView>::empty());
        assert(rerun_all(t.push(p)) =~= rerun_all(t) + rerun_views(p.0));
    } else {
        lemma_rerun_all_push(t.drop_first(), p);
        assert(t.push(p)[0] == t[0]);
        assert(t.push(p).drop_first() =~= t.drop_first().push(p));
        assert(rerun_all(t.push(p)) =~= rerun_all(t) + rerun_views(p.0));
    }
}

/// Every directive of one resolution run: the joined header paths if there
/// are any, a rerun trigger for the global build-internal variable, then the
/// rerun triggers of every key.
pub open spec fn gen_flags_spec(s: Seq<(Seq<char>, LibView)>) -> Seq<FlagView> {
    (if all_includes(s).len() > 0 {
        seq![FlagView::Include(join_with(all_includes(s), ":"@))]
    } else {
        Seq::empty()
    }) + seq![FlagView::RerunIfEnvChanged(None, "BUILD_INTERNAL"@)] + rerun_all(s)
}

impl Dependencies {
    /// The directive stream of this set, or the missing-lib error naming the
    /// first no-discovery descriptor that defines nothing to link against.
    pub fn gen_flags(&self) -> (r: Result<BuildFlags, Error>)
        ensures
            missing_lib_at(self@) matches Some(j) ==> (r matches Err(e) && e matches
                Error::MissingLib(k) && k@ == self@[j].0),
            missing_lib_at(self@) is None ==> (r matches Ok(flags) && flags@ == gen_flags_spec(
                self@,
            )),
    {
        let mut include_paths: Vec<String> = Vec::new();
        let mut i: usize = 0;
        proof {
            assert(all_includes(self@.take(0)) =~= Seq::<Seq<char>>::empty());
            assert(views(include_paths@) =~= Seq::<Seq<char>>::empty());
        }
        while i < self.libs.len()
            invariant
                0 <= i <= self.libs@.len(),
                self@ == dep_views(self.libs@),
                views(include_paths@) == all_includes(self@.take(i as int)),
                forall|j: int| 0 <= j < i ==> !lib_missing(self@[j].1),
            decreases self.libs@.len() - i,
        {
            let ghost prev = include_paths@;
            let ghost vv = self.libs@[i as int].1.include_paths@;
            push_all(&mut include_paths, &self.libs[i].1.include_paths);
            proof {
                assert(views(prev + vv) =~= views(prev) + views(vv));
                lemma_all_includes_push(self@.take(i as int), self@[i as int]);
                assert(self@.take(i as int + 1) =~= self@.take(i as int).push(self@[i as int]));
            }
            if self.libs[i].1.source == Source::EnvVariables && self.libs[i].1.libs.len() == 0
                && self.libs[i].1.frameworks.len() == 0 {
                proof {
                    assert(views(self.libs@[i as int].1.libs@) =~= Seq::<Seq<char>>::empty());
                    assert(views(self.libs@[i as int].1.frameworks@) =~= Seq::<
                        Seq<char>,
                    >::empty());
                    assert(lib_missing(self@[i as int].1));
                    lemma_missing_at_found(self@, i as int);
                }
                return Err(Error::MissingLib(self.libs[i].0.clone()));
            }
            proof {
                assert(self@[i as int].1.libs.len() == self.libs@[i as int].1.libs@.len());
                assert(self@[i as int].1.frameworks.len() == self.libs@[
                    i as int
                ].1.frameworks@.len());
            }
            i = i + 1;
        }
        proof {
            lemma_missing_at_none(self@);
            assert(self@.take(self@.len() as int) =~= self@);
        }
        let mut flags = BuildFlags::new();
        if include_paths.len() > 0 {
            let joined = join_strings(&include_paths, ":");
            flags.add(BuildFlag::Include(joined));
        }
        flags.add(BuildFlag::RerunIfEnvChanged(EnvVariable::new_build_internal(None)));
        let ghost base = flags@;
        proof {
            assert(base =~= (if all_includes(self@).len() > 0 {
                seq![FlagView::Include(join_with(all_includes(self@), ":"@))]
            } else {
                Seq::<FlagView>::empty()
            }) + seq![FlagView::RerunIfEnvChanged(None, "BUILD_INTERNAL"@)]);
            assert(rerun_all(self@.take(0)) =~= Seq::<FlagView>::empty());
            assert(base + rerun_all(self@.take(0)) =~= base);
        }
        let mut i: usize = 0;
        while i < self.libs.len()
            invariant
                0 <= i <= self.libs@.len(),
                self@ == dep_views(self.libs@),
                flags@ == base + rerun_all(self@.take(i as int)),
            decreases self.libs@.len() - i,
        {
            let key = &self.libs[i].0;
            let ghost kv = key@;
            let ghost prevf = flags@;
            flags.add(BuildFlag::RerunIfEnvChanged(EnvVariable::new_lib(key.as_str())));
            flags.add(BuildFlag::RerunIfEnvChanged(EnvVariable::new_lib_framework(key.as_str())));
            flags.add(BuildFlag::RerunIfEnvChanged(EnvVariable::new_search_native(key.as_str())));
            flags.add(
                BuildFlag::RerunIfEnvChanged(EnvVariable::new_search_framework(key.as_str())),
            );
            flags.add(BuildFlag::RerunIfEnvChanged(EnvVariable::new_include(key.as_str())));
            flags.add(BuildFlag::RerunIfEnvChanged(EnvVariable::new_no_pkg_config(key.as_str())));
            flags.add(
                BuildFlag::RerunIfEnvChanged(EnvVariable::new_build_internal(Some(key.as_str()))),
            );
            proof {
                assert(kv == self@[i as int].0);
                lemma_rerun_all_push(self@.take(i as int), self@[i as int]);
                assert(self@.take(i as int + 1) =~= self@.take(i as int).push(self@[i as int]));
                assert(flags@ =~= prevf + rerun_views(kv));
                assert(flags@ =~= base + rerun_all(self@.take(i as int + 1)));
            }
            i = i + 1;
        }
        proof {
            assert(self@.take(self@.len() as int) =~= self@);
            assert(flags@ =~= gen_flags_spec(self@));
        }
        Ok(flags)
    }
}


impl Dependencies {
    /// The presence marker of each accepted key, in set order: the token
    /// the consuming build can test to know a dependency was found.
    pub fn presence_markers(&self) -> (r: Vec<String>)
        ensures
            r@.len() == self@.len(),
            forall|j: int| 0 <= j < r@.len() ==> #[trigger] r@[j]@ == "system_deps_have_"@
                + snake_of(self@[j].0),
    {
        let mut r: Vec<String> = Vec::new();
        let mut i: usize = 0;
        while i < self.libs.len()
            invariant
                0 <= i <= self.libs@.len(),
                self@ == dep_views(self.libs@),
                r@.len() == i,
                forall|j: int| 0 <= j < i ==> #[trigger] r@[j]@ == "system_deps_have_"@
                    + snake_of(self@[j].0),
            decreases self.libs@.len() - i,
        {
            let mut m = ("system_deps_have_").to_owned();
            let sn = snake(self.libs[i].0.as_str());
            m.append(sn.as_str());
            r.push(m);
            i = i + 1;
        }
        r
    }
}

} // verus!
