//! The executable compiler: the scanner, the directive interpreter, and the
//! file-compile driver, each proved to return exactly what the spec functions
//! in [`crate::semantics`] say.

use vstd::prelude::*;

use crate::context::Context;
use crate::error::Error;
use crate::error::ErrorKind;
use crate::paths::canonical_path;
use crate::semantics::CompOut;
use crate::semantics::DirOut;
use crate::semantics::content_var;
use crate::semantics::index_of_space;
use crate::semantics::kw_incl;
use crate::semantics::kw_let;
use crate::semantics::kw_require;
use crate::semantics::kw_set;
use crate::semantics::kw_var;
use crate::semantics::kw_wrapped;
use crate::semantics::md_html;
use crate::semantics::md_raw;
use crate::semantics::scan_from;
use crate::semantics::spec_compile;
use crate::semantics::spec_directive;
use crate::semantics::spec_process;

verus! {

/// How deep file inclusion may nest before the compile fails with
/// [`ErrorKind::RecursionLimit`].
pub const MAX_DEPTH: u32 = 64;

/// The first index at or after `from` holding a space, or the length.
fn find_space(v: &Vec<char>, from: usize) -> (r: usize)
    ensures
        r == index_of_space(v@, from as int),
        r <= v@.len(),
        from <= v@.len() ==> from <= r,
{
    let n = v.len();
    if from >= n {
        return n;
    }
    let mut i = from;
    while i < n
        invariant
            from <= i <= n,
            n == v@.len(),
            index_of_space(v@, from as int) == index_of_space(v@, i as int),
        decreases n - i,
    {
        if v[i] == ' ' {
            return i;
        }
        i = i + 1;
    }
    n
}

/// Whether `v` spells the empty-when-missing variable keyword.
fn word_is_var(v: &Vec<char>) -> (r: bool)
    ensures
        r == (v@ == kw_var()),
{
    let r = v.len() == 3 && v[0] == 'v' && v[1] == 'a' && v[2] == 'r';
    proof {
        if r {
            assert(v@ =~= kw_var());
        }
    }
    r
}

/// Whether `v` spells the error-when-missing variable keyword.
fn word_is_let(v: &Vec<char>) -> (r: bool)
    ensures
        r == (v@ == kw_let()),
{
    let r = v.len() == 3 && v[0] == 'l' && v[1] == 'e' && v[2] == 't';
    proof {
        if r {
            assert(v@ =~= kw_let());
        }
    }
    r
}

/// Whether `v` spells the cycle-tolerant file-inclusion keyword.
fn word_is_incl(v: &Vec<char>) -> (r: bool)
    ensures
        r == (v@ == kw_incl()),
{
    let r = v.len() == 7 && v[0] == 'i' && v[1] == 'n' && v[2] == 'c' && v[3] == 'l' && v[4] == 'u'
        && v[5] == 'd' && v[6] == 'e';
    proof {
        if r {
            assert(v@ =~= kw_incl());
        }
    }
    r
}

/// Whether `v` spells the cycle-rejecting file-inclusion keyword.
fn word_is_require(v: &Vec<char>) -> (r: bool)
    ensures
        r == (v@ == kw_require()),
{
    let r = v.len() == 7 && v[0] == 'r' && v[1] == 'e' && v[2] == 'q' && v[3] == 'u' && v[4] == 'i'
        && v[5] == 'r' && v[6] == 'e';
    proof {
        if r {
            assert(v@ =~= kw_require());
        }
    }
    r
}

/// Whether `v` spells the layout keyword.
fn word_is_wrapped(v: &Vec<char>) -> (r: bool)
    ensures
        r == (v@ == kw_wrapped()),
{
    let r = v.len() == 7 && v[0] == 'w' && v[1] == 'r' && v[2] == 'a' && v[3] == 'p' && v[4] == 'p'
        && v[5] == 'e' && v[6] == 'd';
    proof {
        if r {
            assert(v@ =~= kw_wrapped());
        }
    }
    r
}

/// Whether `v` spells the assignment keyword.
fn word_is_set(v: &Vec<char>) -> (r: bool)
    ensures
        r == (v@ == kw_set()),
{
    let r = v.len() == 3 && v[0] == 's' && v[1] == 'e' && v[2] == 't';
    proof {
        if r {
            assert(v@ =~= kw_set());
        }
    }
    r
}

/// Whether `v` spells the escaping modifier.
fn word_is_html(v: &Vec<char>) -> (r: bool)
    ensures
        r == (v@ == md_html()),
{
    let r = v.len() == 4 && v[0] == 'h' && v[1] == 't' && v[2] == 'm' && v[3] == 'l';
    proof {
        if r {
            assert(v@ =~= md_html());
        }
    }
    r
}

/// Whether `v` spells the verbatim modifier.
fn word_is_raw(v: &Vec<char>) -> (r: bool)
    ensures
        r == (v@ == md_raw()),
{
    let r = v.len() == 3 && v[0] == 'r' && v[1] == 'a' && v[2] == 'w';
    proof {
        if r {
            assert(v@ =~= md_raw());
        }
    }
    r
}

/// Runs one directive: appends its substitution to `out` (the layout
/// directive instead captures and replaces `out`), updates the variable
/// store as the directive demands, and leaves everything untouched on error.
pub fn process_directive(
    context: &mut Context,
    body: &Vec<char>,
    out: &mut Vec<char>,
    base: &Vec<char>,
    depth: u32,
) -> (r: Result<(), Error>)
    ensures
        final(context)@.files == old(context)@.files,
        final(context)@.env == old(context)@.env,
        final(context)@.active == old(context)@.active,
        match (r, spec_directive(
            old(context)@.files,
            old(context)@.env,
            old(context)@.vars,
            old(context)@.active,
            base@,
            body@,
            old(out)@,
            depth as nat,
        )) {
            (Ok(_), DirOut::Done { out: out2, vars: vars2 }) => final(out)@ == out2
                && final(context)@.vars == vars2,
            (Err(e), DirOut::Fail { kind }) => e.kind == kind && final(out)@ == old(out)@
                && final(context)@.vars == old(context)@.vars,
            _ => false,
        },
    decreases depth, 0int, 0int,
{
    let n = body.len();
    let k1 = find_space(body, 0);
    if k1 >= n {
        let text = crate::chars::chars_to_string(body);
        return Err(Error::new(ErrorKind::InvalidDirective, "invalid directive: ", text.as_str()));
    }
    let k2 = find_space(body, k1 + 1);
    if k2 >= n {
        let text = crate::chars::chars_to_string(body);
        return Err(Error::new(ErrorKind::InvalidDirective, "invalid directive: ", text.as_str()));
    }
    let kw = crate::chars::copy_range(body, 0, k1);
    let md = crate::chars::copy_range(body, k1 + 1, k2);
    let arg = crate::chars::copy_range(body, k2 + 1, n);
    if word_is_set(&kw) {
        if arg.len() == 0 {
            let text = crate::chars::chars_to_string(body);
            return Err(
                Error::new(ErrorKind::InvalidDirective, "invalid set format: ", text.as_str()),
            );
        }
        let name = crate::chars::chars_to_string(&md);
        let value = crate::chars::chars_to_string(&arg);
        context.set_var(name, value);
        return Ok(());
    }
    let html = word_is_html(&md);
    let raw = word_is_raw(&md);
    if !html && !raw {
        let text = crate::chars::chars_to_string(body);
        return Err(Error::new(ErrorKind::InvalidDirective, "invalid directive: ", text.as_str()));
    }
    let is_var = word_is_var(&kw);
    let is_let = word_is_let(&kw);
    if is_var || is_let {
        let name = crate::chars::chars_to_string(&arg);
        match context.load_var(name.as_str()) {
            Some(value) => {
                let vchars = crate::chars::str_to_chars(value.as_str());
                if html {
                    let esc = crate::escape::escape_chars(&vchars);
                    crate::chars::push_all(out, &esc);
                } else {
                    crate::chars::push_all(out, &vchars);
                }
                return Ok(());
            },
            None => {
                if is_let {
                    return Err(
                        Error::new(ErrorKind::MissingVariable, "cannot find variable: ", name.as_str()),
                    );
                }
                return Ok(());
            },
        }
    }
    let is_incl = word_is_incl(&kw);
    let is_req = word_is_require(&kw);
    let is_wrap = word_is_wrapped(&kw);
    if !is_incl && !is_req && !is_wrap {
        let text = crate::chars::chars_to_string(body);
        return Err(Error::new(ErrorKind::InvalidDirective, "invalid directive: ", text.as_str()));
    }
    let target = crate::paths::join_chars(base, &arg);
    let cvec = crate::paths::canonicalize_chars(&target);
    let cpath = crate::chars::chars_to_string(&cvec);
    if context.active(cpath.as_str()) {
        if is_req {
            return Err(
                Error::new(
                    ErrorKind::CyclicInclude,
                    "cannot require file due to cycle: ",
                    cpath.as_str(),
                ),
            );
        }
        return Ok(());
    }
    if depth == 0 {
        return Err(
            Error::new(ErrorKind::RecursionLimit, "inclusion nested too deeply: ", cpath.as_str()),
        );
    }
    let saved = context.export_vars();
    if is_wrap {
        let captured = crate::chars::chars_to_string(out);
        proof {
            reveal_strlit("content");
            assert("content"@ =~= content_var());
        }
        context.set_var(String::from_str("content"), captured);
    }
    let target_str = crate::chars::chars_to_string(&target);
    let res = compile_path(context, target_str.as_str(), true, depth - 1);
    context.replace_vars(saved);
    match res {
        Ok(text) => {
            let tchars = crate::chars::str_to_chars(text.as_str());
            let sub = if html {
                crate::escape::escape_chars(&tchars)
            } else {
                tchars
            };
            if is_wrap {
                out.clear();
            }
            crate::chars::push_all(out, &sub);
            Ok(())
        },
        Err(e) => Err(e),
    }
}

/// Scans `content` for directives and runs them: literal text passes through
/// (a backslash escapes a bracket or a backslash), each directive's
/// substitution is inserted in its place, and the first error aborts the
/// whole scan. `base` is the directory against which relative inclusion
/// arguments resolve; `depth` bounds further inclusion nesting.
pub fn process(context: &mut Context, content: &str, base: &str, depth: u32) -> (r: Result<
    String,
    Error,
>)
    ensures
        final(context)@.files == old(context)@.files,
        final(context)@.env == old(context)@.env,
        final(context)@.active == old(context)@.active,
        match (r, spec_process(
            old(context)@.files,
            old(context)@.env,
            old(context)@.vars,
            old(context)@.active,
            base@,
            content@,
            0,
            Seq::empty(),
            depth as nat,
        )) {
            (Ok(s), CompOut::Done { text, vars }) => s@ == text && final(context)@.vars == vars,
            (Err(e), CompOut::Fail { kind }) => e.kind == kind,
            _ => false,
        },
    decreases depth, 1int, 0int,
{
    let chars = crate::chars::str_to_chars(content);
    let bvec = crate::chars::str_to_chars(base);
    let n = chars.len();
    let mut out: Vec<char> = Vec::new();
    let mut i: usize = 0;
    while i < n
        invariant
            0 <= i <= n,
            n == chars@.len(),
            chars@ == content@,
            bvec@ == base@,
            context@.files == old(context)@.files,
            context@.env == old(context)@.env,
            context@.active == old(context)@.active,
            spec_process(old(context)@.files, old(context)@.env, old(context)@.vars, old(context)@.active, base@, content@, 0, Seq::empty(), depth as nat)
                == spec_process(
                old(context)@.files,
                old(context)@.env,
                context@.vars,
                old(context)@.active,
                base@,
                content@,
                i as int,
                out@,
                depth as nat,
            ),
        decreases n - i,
    {
        let ghost out_pre = out@;
        let ghost vars_pre = context@.vars;
        let c = chars[i];
        if c == '\\' && i + 1 < n && (chars[i + 1] == '[' || chars[i + 1] == '\\') {
            out.push(chars[i + 1]);
            proof {
                assert(spec_process(
                    old(context)@.files,
                    old(context)@.env,
                    vars_pre,
                    old(context)@.active,
                    base@,
                    content@,
                    i as int,
                    out_pre,
                    depth as nat,
                ) == spec_process(
                    old(context)@.files,
                    old(context)@.env,
                    vars_pre,
                    old(context)@.active,
                    base@,
                    content@,
                    i + 2,
                    out@,
                    depth as nat,
                ));
            }
            i = i + 2;
        } else if c == '[' {
            let mut body: Vec<char> = Vec::new();
            let mut j = i + 1;
            let mut closed = false;
            while j < n && !closed
                invariant
                    i + 1 <= j <= n,
                    n == chars@.len(),
                    chars@ == content@,
                    closed ==> scan_from(content@, i + 1) == Option::Some((body@, j as int)),
                    !closed ==> (match scan_from(content@, j as int) {
                        Option::None => scan_from(content@, i + 1) is None,
                        Option::Some(bj) => scan_from(content@, i + 1) == Option::Some(
                            (body@ + bj.0, bj.1),
                        ),
                    }),
                decreases n - j,
            {
                let ghost body_pre = body@;
                let ghost j_pre = j as int;
                let d = chars[j];
                if d == ']' {
                    closed = true;
                    j = j + 1;
                    proof {
                        assert(scan_from(content@, j_pre) == Option::Some(
                            (Seq::<char>::empty(), j_pre + 1),
                        ));
                        assert(body_pre + Seq::<char>::empty() =~= body@);
                    }
                } else if d == '\\' && j + 1 < n && (chars[j + 1] == ']' || chars[j + 1] == '\\') {
                    body.push(chars[j + 1]);
                    j = j + 2;
                    proof {
                        match scan_from(content@, j_pre + 2) {
                            Option::None => {
                                assert(scan_from(content@, j_pre) is None);
                            },
                            Option::Some(bj) => {
                                assert(scan_from(content@, j_pre) == Option::Some(
                                    (seq![content@[j_pre + 1]] + bj.0, bj.1),
                                ));
                                assert(body_pre + (seq![content@[j_pre + 1]] + bj.0) =~= body@
                                    + bj.0);
                            },
                        }
                    }
                } else {
                    body.push(d);
                    j = j + 1;
                    proof {
                        match scan_from(content@, j_pre + 1) {
                            Option::None => {
                                assert(scan_from(content@, j_pre) is None);
                            },
                            Option::Some(bj) => {
                                assert(scan_from(content@, j_pre) == Option::Some(
                                    (seq![content@[j_pre]] + bj.0, bj.1),
                                ));
                                assert(body_pre + (seq![content@[j_pre]] + bj.0) =~= body@ + bj.0);
                            },
                        }
                    }
                }
            }
            if !closed {
                proof {
                    assert(scan_from(content@, j as int) is None);
                    assert(spec_process(
                        old(context)@.files,
                        old(context)@.env,
                        vars_pre,
                        old(context)@.active,
                        base@,
                        content@,
                        i as int,
                        out_pre,
                        depth as nat,
                    ) == CompOut::Fail { kind: ErrorKind::UnterminatedDirective });
                }
                let text = crate::chars::chars_to_string(&body);
                return Err(
                    Error::new(ErrorKind::UnterminatedDirective, "invalid directive: ", text.as_str()),
                );
            }
            let dres = process_directive(context, &body, &mut out, &bvec, depth);
            match dres {
                Ok(_) => {
                    proof {
                        assert(spec_process(
                            old(context)@.files,
                            old(context)@.env,
                            vars_pre,
                            old(context)@.active,
                            base@,
                            content@,
                            i as int,
                            out_pre,
                            depth as nat,
                        ) == spec_process(
                            old(context)@.files,
                            old(context)@.env,
                            context@.vars,
                            old(context)@.active,
                            base@,
                            content@,
                            j as int,
                            out@,
                            depth as nat,
                        ));
                    }
                    i = j;
                },
                Err(e) => {
                    proof {
                        assert(spec_process(
                            old(context)@.files,
                            old(context)@.env,
                            vars_pre,
                            old(context)@.active,
                            base@,
                            content@,
                            i as int,
                            out_pre,
                            depth as nat,
                        ) == CompOut::Fail { kind: e.kind });
                    }
                    return Err(e);
                },
            }
        } else {
            out.push(c);
            proof {
                assert(spec_process(
                    old(context)@.files,
                    old(context)@.env,
                    vars_pre,
                    old(context)@.active,
                    base@,
                    content@,
                    i as int,
                    out_pre,
                    depth as nat,
                ) == spec_process(
                    old(context)@.files,
                    old(context)@.env,
                    vars_pre,
                    old(context)@.active,
                    base@,
                    content@,
                    i + 1,
                    out@,
                    depth as nat,
                ));
            }
            i = i + 1;
        }
    }
    let s = crate::chars::chars_to_string(&out);
    Ok(s)
}

/// Compiles the file at `path`: loads it (an error when `required` and the
/// file is missing, empty content otherwise), marks its canonical spelling
/// active for the duration, scans its content with the file's own directory
/// as the base for relative inclusion arguments, and unmarks it on every
/// exit path.
pub fn compile_path(context: &mut Context, path: &str, required: bool, depth: u32) -> (r: Result<
    String,
    Error,
>)
    requires
        !old(context)@.active.contains(canonical_path(path@)),
    ensures
        final(context)@.files == old(context)@.files,
        final(context)@.env == old(context)@.env,
        final(context)@.active == old(context)@.active,
        match (r, spec_compile(
            old(context)@.files,
            old(context)@.env,
            old(context)@.vars,
            old(context)@.active,
            path@,
            required,
            depth as nat,
        )) {
            (Ok(s), CompOut::Done { text, vars }) => s@ == text && final(context)@.vars == vars,
            (Err(e), CompOut::Fail { kind }) => e.kind == kind,
            _ => false,
        },
    decreases depth, 2int, 0int,
{
    let pvec = crate::chars::str_to_chars(path);
    let cvec = crate::paths::canonicalize_chars(&pvec);
    let cpath = crate::chars::chars_to_string(&cvec);
    match context.load_file(cpath.as_str(), required) {
        Err(e) => Err(e),
        Ok(loaded) => {
            let bvec = crate::paths::parent_chars(&cvec);
            let bdir = crate::chars::chars_to_string(&bvec);
            context.add_active(cpath.as_str());
            let result = process(context, loaded.as_str(), bdir.as_str(), depth);
            context.remove_active(cpath.as_str());
            proof {
                assert(old(context)@.active.insert(cvec@).remove(cvec@) =~= old(context)@.active);
            }
            result
        },
    }
}

/// Compiles the file at `path` with everything it transitively pulls in:
/// the single entry point a driver calls once per source file, with a fresh
/// context. A missing file is an error, and inclusion may nest at most
/// [`MAX_DEPTH`] files deep.
pub fn compile_file(context: &mut Context, path: &str) -> (r: Result<String, Error>)
    requires
        !old(context)@.active.contains(canonical_path(path@)),
    ensures
        final(context)@.files == old(context)@.files,
        final(context)@.env == old(context)@.env,
        final(context)@.active == old(context)@.active,
        match (r, spec_compile(
            old(context)@.files,
            old(context)@.env,
            old(context)@.vars,
            old(context)@.active,
            path@,
            true,
            MAX_DEPTH as nat,
        )) {
            (Ok(s), CompOut::Done { text, vars }) => s@ == text && final(context)@.vars == vars,
            (Err(e), CompOut::Fail { kind }) => e.kind == kind,
            _ => false,
        },
{
    compile_path(context, path, true, MAX_DEPTH)
}

} // verus!
