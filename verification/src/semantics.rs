//! The meaning of compilation, as spec functions.
//!
//! `spec_compile` says what compiling a file yields, `spec_process` what
//! scanning a span of text yields, and `spec_directive` what one directive
//! does; the three are mutually recursive through file inclusion, bounded by
//! an explicit depth. The executable compiler in [`crate::engine`] is proved
//! to return exactly these values.

use vstd::prelude::*;

use crate::context::lookup_var;
use crate::error::ErrorKind;
use crate::escape::escape_seq;
use crate::paths::canonical_path;
use crate::paths::join_path;
use crate::paths::parent_dir;

verus! {

/// What compiling a file or a span of text yields: the compiled text and the
/// variable store it leaves behind, or the kind of error that aborted it.
#[verifier::ext_equal]
pub enum CompOut {
    Done { text: Seq<char>, vars: Map<Seq<char>, Seq<char>> },
    Fail { kind: ErrorKind },
}

/// What one directive does: the output buffer after it (most directives
/// append to it; the layout directive replaces it) and the variable store it
/// leaves behind, or the kind of error it raises.
#[verifier::ext_equal]
pub enum DirOut {
    Done { out: Seq<char>, vars: Map<Seq<char>, Seq<char>> },
    Fail { kind: ErrorKind },
}

/// The keyword of the variable directive whose missing value is empty text.
pub open spec fn kw_var() -> Seq<char> {
    seq!['v', 'a', 'r']
}

/// The keyword of the variable directive whose missing value is an error.
pub open spec fn kw_let() -> Seq<char> {
    seq!['l', 'e', 't']
}

/// The keyword of the file-inclusion directive that expands to nothing on a
/// cycle.
pub open spec fn kw_incl() -> Seq<char> {
    seq!['i', 'n', 'c', 'l', 'u', 'd', 'e']
}

/// The keyword of the file-inclusion directive that fails on a cycle.
pub open spec fn kw_require() -> Seq<char> {
    seq!['r', 'e', 'q', 'u', 'i', 'r', 'e']
}

/// The keyword of the layout directive: it hands the output produced so far
/// to the target file through a reserved variable.
pub open spec fn kw_wrapped() -> Seq<char> {
    seq!['w', 'r', 'a', 'p', 'p', 'e', 'd']
}

/// The keyword of the assignment directive.
pub open spec fn kw_set() -> Seq<char> {
    seq!['s', 'e', 't']
}

/// The modifier that HTML-escapes the substitution.
pub open spec fn md_html() -> Seq<char> {
    seq!['h', 't', 'm', 'l']
}

/// The modifier that passes the substitution through verbatim.
pub open spec fn md_raw() -> Seq<char> {
    seq!['r', 'a', 'w']
}

/// The reserved variable through which the layout directive hands the
/// captured output to its target.
pub open spec fn content_var() -> Seq<char> {
    seq!['c', 'o', 'n', 't', 'e', 'n', 't']
}

/// The first index at or after `i` holding a space, or the length.
pub open spec fn index_of_space(s: Seq<char>, i: int) -> int
    decreases s.len() - i,
{
    if i < 0 || i >= s.len() {
        s.len() as int
    } else if s[i] == ' ' {
        i
    } else {
        index_of_space(s, i + 1)
    }
}

/// The index after a directive body's keyword.
pub open spec fn body_k1(body: Seq<char>) -> int {
    index_of_space(body, 0)
}

/// The index after a directive body's second word.
pub open spec fn body_k2(body: Seq<char>) -> int {
    index_of_space(body, body_k1(body) + 1)
}

/// Whether a directive body has the three parts every directive needs:
/// a keyword, a second word, and a rest.
pub open spec fn directive_shaped(body: Seq<char>) -> bool {
    body_k2(body) < body.len()
}

/// The keyword of a directive body.
pub open spec fn directive_kw(body: Seq<char>) -> Seq<char> {
    body.subrange(0, body_k1(body))
}

/// The second word of a directive body: the modifier, or for the assignment
/// directive the variable name.
pub open spec fn directive_md(body: Seq<char>) -> Seq<char> {
    body.subrange(body_k1(body) + 1, body_k2(body))
}

/// The rest of a directive body: the variable name or path argument, or for
/// the assignment directive the value.
pub open spec fn directive_arg(body: Seq<char>) -> Seq<char> {
    body.subrange(body_k2(body) + 1, body.len() as int)
}

/// Scanning a directive body from position `i` (just inside the opening
/// bracket): the body with its escapes resolved and the position just past
/// the closing bracket, or nothing when no unescaped bracket closes it.
pub open spec fn scan_from(content: Seq<char>, i: int) -> Option<(Seq<char>, int)>
    decreases content.len() - i,
{
    if i < 0 || i >= content.len() {
        Option::None
    } else if content[i] == ']' {
        Option::Some((Seq::empty(), i + 1))
    } else if content[i] == '\\' && i + 1 < content.len() && (content[i + 1] == ']' || content[i
        + 1] == '\\') {
        match scan_from(content, i + 2) {
            Option::None => Option::None,
            Option::Some((b, j)) => Option::Some((seq![content[i + 1]] + b, j)),
        }
    } else {
        match scan_from(content, i + 1) {
            Option::None => Option::None,
            Option::Some((b, j)) => Option::Some((seq![content[i]] + b, j)),
        }
    }
}

/// A successful scan lands strictly beyond where it started and within the
/// text.
pub proof fn lemma_scan_from_bounds(content: Seq<char>, i: int)
    ensures
        scan_from(content, i) matches Option::Some(bj) ==> i < bj.1 <= content.len(),
    decreases content.len() - i,
{
    if 0 <= i < content.len() {
        lemma_scan_from_bounds(content, i + 1);
        if i + 1 < content.len() {
            lemma_scan_from_bounds(content, i + 2);
        }
    }
}

/// What compiling the file at `path` yields: its content is processed with
/// the file marked active and with relative inclusion arguments resolved
/// against the file's own directory. A missing file is an error when
/// `required` and empty content otherwise.
pub open spec fn spec_compile(
    fs: Map<Seq<char>, Seq<char>>,
    env: Map<Seq<char>, Seq<char>>,
    vars: Map<Seq<char>, Seq<char>>,
    active: Set<Seq<char>>,
    path: Seq<char>,
    required: bool,
    depth: nat,
) -> CompOut
    decreases depth, 1int, 0int,
{
    let cpath = canonical_path(path);
    if !fs.contains_key(cpath) && required {
        CompOut::Fail { kind: ErrorKind::IOError }
    } else {
        let content = if fs.contains_key(cpath) {
            fs[cpath]
        } else {
            Seq::<char>::empty()
        };
        spec_process(
            fs,
            env,
            vars,
            active.insert(cpath),
            parent_dir(cpath),
            content,
            0,
            Seq::empty(),
            depth,
        )
    }
}

/// What scanning `content` from position `i` yields, with `acc` the output
/// produced so far: literal characters pass through (a backslash escapes a
/// bracket or a backslash), an unescaped `[` opens a directive that runs and
/// resumes the scan past its `]`, and an unterminated directive is an error.
pub open spec fn spec_process(
    fs: Map<Seq<char>, Seq<char>>,
    env: Map<Seq<char>, Seq<char>>,
    vars: Map<Seq<char>, Seq<char>>,
    active: Set<Seq<char>>,
    base: Seq<char>,
    content: Seq<char>,
    i: int,
    acc: Seq<char>,
    depth: nat,
) -> CompOut
    decreases depth, 0int, content.len() - i + 1,
{
    if i < 0 || i >= content.len() {
        CompOut::Done { text: acc, vars }
    } else {
        let c = content[i];
        if c == '\\' && i + 1 < content.len() && (content[i + 1] == '[' || content[i + 1]
            == '\\') {
            spec_process(fs, env, vars, active, base, content, i + 2, acc.push(content[i + 1]), depth)
        } else if c == '[' {
            match scan_from(content, i + 1) {
                Option::None => CompOut::Fail { kind: ErrorKind::UnterminatedDirective },
                Option::Some((body, j)) => {
                    proof {
                        lemma_scan_from_bounds(content, i + 1);
                    }
                    match spec_directive(fs, env, vars, active, base, body, acc, depth) {
                        DirOut::Fail { kind } => CompOut::Fail { kind },
                        DirOut::Done { out, vars: vars2 } => spec_process(
                            fs,
                            env,
                            vars2,
                            active,
                            base,
                            content,
                            j,
                            out,
                            depth,
                        ),
                    }
                },
            }
        } else {
            spec_process(fs, env, vars, active, base, content, i + 1, acc.push(c), depth)
        }
    }
}

/// What one directive does, given the output `acc` produced so far in the
/// current file. Variable directives append a (possibly escaped) value;
/// the assignment directive binds its name to its value; file-inclusion
/// directives compile their target against a variable snapshot, so that
/// assignments inside the target never leak out; the layout directive hands
/// `acc` to its target through the reserved variable and replaces the buffer
/// with the target's output. Anything else is an invalid directive.
pub open spec fn spec_directive(
    fs: Map<Seq<char>, Seq<char>>,
    env: Map<Seq<char>, Seq<char>>,
    vars: Map<Seq<char>, Seq<char>>,
    active: Set<Seq<char>>,
    base: Seq<char>,
    body: Seq<char>,
    acc: Seq<char>,
    depth: nat,
) -> DirOut
    decreases depth, 0int, 0int,
{
    if !directive_shaped(body) {
        DirOut::Fail { kind: ErrorKind::InvalidDirective }
    } else {
        let kw = directive_kw(body);
        let md = directive_md(body);
        let arg = directive_arg(body);
        if kw == kw_set() {
            if arg.len() > 0 {
                DirOut::Done { out: acc, vars: vars.insert(md, arg) }
            } else {
                DirOut::Fail { kind: ErrorKind::InvalidDirective }
            }
        } else if md == md_html() || md == md_raw() {
            let html = md == md_html();
            if kw == kw_var() || kw == kw_let() {
                match lookup_var(vars, env, arg) {
                    Option::Some(v) => DirOut::Done {
                        out: acc + (if html {
                            escape_seq(v)
                        } else {
                            v
                        }),
                        vars,
                    },
                    Option::None => if kw == kw_let() {
                        DirOut::Fail { kind: ErrorKind::MissingVariable }
                    } else {
                        DirOut::Done { out: acc, vars }
                    },
                }
            } else if kw == kw_incl() || kw == kw_require() || kw == kw_wrapped() {
                let target = join_path(base, arg);
                if active.contains(canonical_path(target)) {
                    if kw == kw_require() {
                        DirOut::Fail { kind: ErrorKind::CyclicInclude }
                    } else {
                        DirOut::Done { out: acc, vars }
                    }
                } else if depth == 0 {
                    DirOut::Fail { kind: ErrorKind::RecursionLimit }
                } else {
                    let vars_in = if kw == kw_wrapped() {
                        vars.insert(content_var(), acc)
                    } else {
                        vars
                    };
                    match spec_compile(fs, env, vars_in, active, target, true, (depth - 1) as nat) {
                        CompOut::Done { text, vars: _ } => DirOut::Done {
                            out: if kw == kw_wrapped() {
                                if html {
                                    escape_seq(text)
                                } else {
                                    text
                                }
                            } else {
                                acc + (if html {
                                    escape_seq(text)
                                } else {
                                    text
                                })
                            },
                            vars,
                        },
                        CompOut::Fail { kind } => DirOut::Fail { kind },
                    }
                }
            } else {
                DirOut::Fail { kind: ErrorKind::InvalidDirective }
            }
        } else {
            DirOut::Fail { kind: ErrorKind::InvalidDirective }
        }
    }
}

} // verus!
