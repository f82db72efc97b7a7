//! The compile context: the variable store, the set of files currently
//! mid-compile, and the injected collaborators — the file contents and the
//! environment variables, both supplied up front as plain string maps so that
//! compilation itself is deterministic and fully specified.

use vstd::prelude::*;

use crate::error::Error;
use crate::error::ErrorKind;
use crate::paths::canonical_path;
use crate::strmap::StrMap;

verus! {

/// What a variable name means: the variable store first, then the
/// environment, then nothing.
pub open spec fn lookup_var(
    vars: Map<Seq<char>, Seq<char>>,
    env: Map<Seq<char>, Seq<char>>,
    name: Seq<char>,
) -> Option<Seq<char>> {
    if vars.contains_key(name) {
        Option::Some(vars[name])
    } else if env.contains_key(name) {
        Option::Some(env[name])
    } else {
        Option::None
    }
}

/// The mathematical state of a [`Context`].
#[verifier::ext_equal]
pub struct CtxView {
    /// The variable store.
    pub vars: Map<Seq<char>, Seq<char>>,
    /// File contents by canonical path.
    pub files: Map<Seq<char>, Seq<char>>,
    /// The read-only environment fallback for variable lookup.
    pub env: Map<Seq<char>, Seq<char>>,
    /// Canonical paths of the files currently mid-compile.
    pub active: Set<Seq<char>>,
}

/// The state threaded through one compile run.
pub struct Context {
    vars: StrMap,
    files: StrMap,
    env: StrMap,
    actives: StrMap,
}

impl View for Context {
    type V = CtxView;

    closed spec fn view(&self) -> CtxView {
        CtxView {
            vars: self.vars@,
            files: self.files@,
            env: self.env@,
            active: self.actives@.dom(),
        }
    }
}

impl Context {
    /// A fresh context: no variables, no files, no environment, nothing
    /// active.
    pub fn new() -> (r: Context)
        ensures
            r@.vars == Map::<Seq<char>, Seq<char>>::empty(),
            r@.files == Map::<Seq<char>, Seq<char>>::empty(),
            r@.env == Map::<Seq<char>, Seq<char>>::empty(),
            r@.active == Set::<Seq<char>>::empty(),
    {
        let r = Context {
            vars: StrMap::new(),
            files: StrMap::new(),
            env: StrMap::new(),
            actives: StrMap::new(),
        };
        proof {
            assert(r@.active =~= Set::<Seq<char>>::empty());
        }
        r
    }

    /// Makes `content` available under the canonical spelling of `path`.
    pub fn add_file(&mut self, path: &str, content: &str)
        ensures
            final(self)@.files == old(self)@.files.insert(canonical_path(path@), content@),
            final(self)@.vars == old(self)@.vars,
            final(self)@.env == old(self)@.env,
            final(self)@.active == old(self)@.active,
    {
        let pvec = crate::chars::str_to_chars(path);
        let cvec = crate::paths::canonicalize_chars(&pvec);
        let key = crate::chars::chars_to_string(&cvec);
        self.files.insert(key, String::from_str(content));
    }

    /// Makes `value` the environment fallback for `name`.
    pub fn set_env_var(&mut self, name: &str, value: &str)
        ensures
            final(self)@.env == old(self)@.env.insert(name@, value@),
            final(self)@.vars == old(self)@.vars,
            final(self)@.files == old(self)@.files,
            final(self)@.active == old(self)@.active,
    {
        self.env.insert(String::from_str(name), String::from_str(value));
    }

    /// Binds `name` to `value` in the variable store.
    pub fn set_var(&mut self, name: String, value: String)
        ensures
            final(self)@.vars == old(self)@.vars.insert(name@, value@),
            final(self)@.files == old(self)@.files,
            final(self)@.env == old(self)@.env,
            final(self)@.active == old(self)@.active,
    {
        self.vars.insert(name, value);
    }

    /// A snapshot of the variable store, for restoring after a nested
    /// compile.
    pub fn export_vars(&self) -> (r: StrMap)
        ensures
            r@ == self@.vars,
    {
        self.vars.duplicate()
    }

    /// Replaces the variable store wholesale, restoring a snapshot.
    pub fn replace_vars(&mut self, vars: StrMap)
        ensures
            final(self)@.vars == vars@,
            final(self)@.files == old(self)@.files,
            final(self)@.env == old(self)@.env,
            final(self)@.active == old(self)@.active,
    {
        self.vars = vars;
    }

    /// Looks `name` up in the variable store, then in the environment.
    pub fn load_var(&self, name: &str) -> (r: Option<String>)
        ensures
            match r {
                Some(v) => lookup_var(self@.vars, self@.env, name@) == Option::Some(v@),
                None => lookup_var(self@.vars, self@.env, name@) is None,
            },
    {
        match self.vars.get(name) {
            Some(v) => Some(v.clone()),
            None => match self.env.get(name) {
                Some(v) => Some(v.clone()),
                None => None,
            },
        }
    }

    /// Whether the file named `name` is currently mid-compile.
    pub fn active(&self, name: &str) -> (r: bool)
        ensures
            r == self@.active.contains(name@),
    {
        self.actives.contains_key(name)
    }

    /// Marks the file named `name` as mid-compile.
    pub fn add_active(&mut self, name: &str)
        ensures
            final(self)@.active == old(self)@.active.insert(name@),
            final(self)@.vars == old(self)@.vars,
            final(self)@.files == old(self)@.files,
            final(self)@.env == old(self)@.env,
    {
        self.actives.insert(String::from_str(name), String::new());
        proof {
            assert(final(self)@.active =~= old(self)@.active.insert(name@));
        }
    }

    /// Unmarks the file named `name`.
    pub fn remove_active(&mut self, name: &str)
        ensures
            final(self)@.active == old(self)@.active.remove(name@),
            final(self)@.vars == old(self)@.vars,
            final(self)@.files == old(self)@.files,
            final(self)@.env == old(self)@.env,
    {
        self.actives.remove(name);
        proof {
            assert(final(self)@.active =~= old(self)@.active.remove(name@));
        }
    }

    /// The content filed under `path`: missing files are an `IOError` when
    /// `required`, and empty content otherwise.
    pub fn load_file(&self, path: &str, required: bool) -> (r: Result<String, Error>)
        ensures
            match r {
                Ok(s) => if self@.files.contains_key(path@) {
                    s@ == self@.files[path@]
                } else {
                    !required && s@ == Seq::<char>::empty()
                },
                Err(e) => e.kind == ErrorKind::IOError && required && !self@.files.contains_key(
                    path@,
                ),
            },
    {
        match self.files.get(path) {
            Some(v) => Ok(v.clone()),
            None => if required {
                Err(Error::new(ErrorKind::IOError, "cannot read file: ", path))
            } else {
                Ok(String::new())
            },
        }
    }
}

} // verus!
