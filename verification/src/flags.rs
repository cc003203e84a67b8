//! The build directives handed to the host build system, and their
//! deterministic textual rendering.

use vstd::prelude::*;
use crate::envvars::{env_var_name, EnvVariable};

verus! {

/// The mathematical content of one directive: the per-dependency tuning
/// variables appear as the dependency key, if any, and the variable suffix.
#[verifier::ext_equal]
pub enum FlagView {
    Include(Seq<char>),
    SearchNative(Seq<char>),
    SearchFramework(Seq<char>),
    Lib(Seq<char>),
    LibFramework(Seq<char>),
    RerunIfEnvChanged(Option<Seq<char>>, Seq<char>),
}

/// One directive for the host build system.
#[derive(Debug)]
pub enum BuildFlag {
    /// The joined header search paths.
    Include(String),
    /// A native linker search path.
    SearchNative(String),
    /// A framework search path.
    SearchFramework(String),
    /// A library to link.
    Lib(String),
    /// A framework to link.
    LibFramework(String),
    /// Rerun resolution when the named environment variable changes.
    RerunIfEnvChanged(EnvVariable),
}

impl View for BuildFlag {
    type V = FlagView;

    open spec fn view(&self) -> FlagView {
        match self {
            BuildFlag::Include(s) => FlagView::Include(s@),
            BuildFlag::SearchNative(s) => FlagView::SearchNative(s@),
            BuildFlag::SearchFramework(s) => FlagView::SearchFramework(s@),
            BuildFlag::Lib(s) => FlagView::Lib(s@),
            BuildFlag::LibFramework(s) => FlagView::LibFramework(s@),
            BuildFlag::RerunIfEnvChanged(v) => FlagView::RerunIfEnvChanged(
                v.lib_spec(),
                v.suffix_spec(),
            ),
        }
    }
}

pub open spec fn flag_views(s: Seq<BuildFlag>) -> Seq<FlagView> {
    s.map_values(|f: BuildFlag| f@)
}

/// What one directive renders to.
pub open spec fn render_spec(f: FlagView) -> Seq<char> {
    match f {
        FlagView::Include(p) => "include="@ + p,
        FlagView::SearchNative(l) => "rustc-link-search=native="@ + l,
        FlagView::SearchFramework(l) => "rustc-link-search=framework="@ + l,
        FlagView::Lib(l) => "rustc-link-lib="@ + l,
        FlagView::LibFramework(l) => "rustc-link-lib=framework="@ + l,
        FlagView::RerunIfEnvChanged(lib, suffix) => "rerun-if-env-changed="@ + env_var_name(
            lib,
            suffix,
        ),
    }
}

impl BuildFlag {
    /// The text of this directive, without the `cargo:` prefix.
    pub fn render(&self) -> (r: String)
        ensures
            r@ == render_spec(self@),
    {
        match self {
            BuildFlag::Include(p) => {
                let mut s = ("include=").to_owned();
                s.append(p.as_str());
                s
            },
            BuildFlag::SearchNative(l) => {
                let mut s = ("rustc-link-search=native=").to_owned();
                s.append(l.as_str());
                s
            },
            BuildFlag::SearchFramework(l) => {
                let mut s = ("rustc-link-search=framework=").to_owned();
                s.append(l.as_str());
                s
            },
            BuildFlag::Lib(l) => {
                let mut s = ("rustc-link-lib=").to_owned();
                s.append(l.as_str());
                s
            },
            BuildFlag::LibFramework(l) => {
                let mut s = ("rustc-link-lib=framework=").to_owned();
                s.append(l.as_str());
                s
            },
            BuildFlag::RerunIfEnvChanged(v) => {
                let mut s = ("rerun-if-env-changed=").to_owned();
                let name = v.var_name();
                s.append(name.as_str());
                s
            },
        }
    }
}

/// The full directive stream: each directive on its own line, prefixed
/// `cargo:`.
pub open spec fn render_all_spec(s: Seq<FlagView>) -> Seq<char>
    decreases s.len(),
{
    if s.len() == 0 {
        Seq::empty()
    } else {
        "cargo:"@ + render_spec(s[0]) + "\n"@ + render_all_spec(s.drop_first())
    }
}

pub proof fn lemma_render_all_push(s: Seq<FlagView>, x: FlagView)
    ensures
        render_all_spec(s.push(x)) == render_all_spec(s) + "cargo:"@ + render_spec(x) + "\n"@,
    decreases s.len(),
{
    if s.len() == 0 {
        assert(s.push(x)[0] == x);
        assert(s.push(x).drop_first() =~= Seq::<FlagView>::empty());
        assert(render_all_spec(Seq::<FlagView>::empty()) == Seq::<char>::empty());
        assert(render_all_spec(s.push(x)) =~= render_all_spec(s) + "cargo:"@ + render_spec(x)
            + "\n"@);
    } else {
        lemma_render_all_push(s.drop_first(), x);
        assert(s.push(x)[0] == s[0]);
        assert(s.push(x).drop_first() =~= s.drop_first().push(x));
        assert(render_all_spec(s.push(x)) =~= render_all_spec(s) + "cargo:"@ + render_spec(x)
            + "\n"@);
    }
}

/// The ordered directives of one resolution run.
#[derive(Debug)]
pub struct BuildFlags(Vec<BuildFlag>);

impl View for BuildFlags {
    type V = Seq<FlagView>;

    closed spec fn view(&self) -> Seq<FlagView> {
        flag_views(self.0@)
    }
}

impl BuildFlags {
    /// No directives yet.
    pub fn new() -> (r: Self)
        ensures
            r@ == Seq::<FlagView>::empty(),
    {
        let r = BuildFlags(Vec::new());
        proof {
            assert(flag_views(r.0@) =~= Seq::<FlagView>::empty());
        }
        r
    }

    /// Append one directive.
    pub fn add(&mut self, flag: BuildFlag)
        ensures
            final(self)@ == old(self)@.push(flag@),
    {
        let ghost fv = flag@;
        let ghost before = self.0@;
        self.0.push(flag);
        proof {
            assert(flag_views(self.0@) =~= flag_views(before).push(fv));
        }
    }

    /// The directives, in order.
    pub fn flags(&self) -> (r: &Vec<BuildFlag>)
        ensures
            flag_views(r@) == self@,
    {
        &self.0
    }

    /// The whole directive stream as text, one `cargo:` line per directive.
    pub fn render(&self) -> (r: String)
        ensures
            r@ == render_all_spec(self@),
    {
        let mut r = String::new();
        let mut i: usize = 0;
        proof {
            assert(self@.take(0) =~= Seq::<FlagView>::empty());
        }
        while i < self.0.len()
            invariant
                0 <= i <= self.0@.len(),
                self@ == flag_views(self.0@),
                r@ == render_all_spec(self@.take(i as int)),
            decreases self.0@.len() - i,
        {
            r.append("cargo:");
            let line = self.0[i].render();
            r.append(line.as_str());
            r.append("\n");
            proof {
                lemma_render_all_push(self@.take(i as int), self@[i as int]);
                assert(self@.take(i as int + 1) =~= self@.take(i as int).push(self@[i as int]));
            }
            i = i + 1;
        }
        proof {
            assert(self@.take(self@.len() as int) =~= self@);
        }
        r
    }
}

} // verus!
