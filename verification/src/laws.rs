//! Laws of the compiler, proved once and for all over the spec semantics.

use vstd::prelude::*;

use crate::context::lookup_var;
use crate::paths::canonical_path;
use crate::paths::join_path;
use crate::semantics::CompOut;
use crate::semantics::DirOut;
use crate::semantics::content_var;
use crate::semantics::directive_arg;
use crate::semantics::directive_kw;
use crate::semantics::directive_md;
use crate::semantics::directive_shaped;
use crate::semantics::kw_incl;
use crate::semantics::kw_let;
use crate::semantics::kw_require;
use crate::semantics::kw_var;
use crate::semantics::kw_wrapped;
use crate::semantics::md_html;
use crate::semantics::md_raw;
use crate::semantics::spec_compile;
use crate::semantics::spec_directive;
use crate::semantics::spec_process;

verus! {

/// Scanning pure literal text appends it to the output untouched.
proof fn lemma_literal_passthrough(
    fs: Map<Seq<char>, Seq<char>>,
    env: Map<Seq<char>, Seq<char>>,
    vars: Map<Seq<char>, Seq<char>>,
    active: Set<Seq<char>>,
    base: Seq<char>,
    content: Seq<char>,
    i: int,
    acc: Seq<char>,
    depth: nat,
)
    requires
        0 <= i <= content.len(),
        forall|k: int| 0 <= k < content.len() ==> content[k] != '[' && #[trigger] content[k]
            != '\\',
    ensures
        spec_process(fs, env, vars, active, base, content, i, acc, depth) == (CompOut::Done {
            text: acc + content.skip(i),
            vars,
        }),
    decreases content.len() - i,
{
    if i >= content.len() {
        assert(acc + content.skip(i) =~= acc);
    } else {
        lemma_literal_passthrough(
            fs,
            env,
            vars,
            active,
            base,
            content,
            i + 1,
            acc.push(content[i]),
            depth,
        );
        assert(acc.push(content[i]) + content.skip(i + 1) =~= acc + content.skip(i));
    }
}

/// Law: text with no bracket and no backslash compiles to itself, and leaves
/// the variable store alone, whatever the context holds.
pub proof fn lemma_literal_identity(
    fs: Map<Seq<char>, Seq<char>>,
    env: Map<Seq<char>, Seq<char>>,
    vars: Map<Seq<char>, Seq<char>>,
    active: Set<Seq<char>>,
    base: Seq<char>,
    content: Seq<char>,
    depth: nat,
)
    requires
        forall|k: int| 0 <= k < content.len() ==> content[k] != '[' && #[trigger] content[k]
            != '\\',
    ensures
        spec_process(fs, env, vars, active, base, content, 0, Seq::empty(), depth)
            == (CompOut::Done { text: content, vars }),
{
    lemma_literal_passthrough(fs, env, vars, active, base, content, 0, Seq::empty(), depth);
    assert(Seq::<char>::empty() + content.skip(0) =~= content);
}

/// Whether a directive body is one of the three file-inclusion forms.
pub open spec fn inclusion_directive(body: Seq<char>) -> bool {
    directive_shaped(body) && (directive_md(body) == md_html() || directive_md(body) == md_raw())
        && (directive_kw(body) == kw_incl() || directive_kw(body) == kw_require() || directive_kw(
        body,
    ) == kw_wrapped())
}

/// Law (scope isolation): a file-inclusion directive that succeeds leaves the
/// variable store exactly as it found it, so nothing a nested file assigns is
/// visible to the directives after the inclusion point.
pub proof fn lemma_scope_isolation(
    fs: Map<Seq<char>, Seq<char>>,
    env: Map<Seq<char>, Seq<char>>,
    vars: Map<Seq<char>, Seq<char>>,
    active: Set<Seq<char>>,
    base: Seq<char>,
    body: Seq<char>,
    acc: Seq<char>,
    depth: nat,
)
    requires
        inclusion_directive(body),
    ensures
        spec_directive(fs, env, vars, active, base, body, acc, depth) matches DirOut::Done {
            vars: vars2,
            ..
        } ==> vars2 == vars,
{
}

/// Law (layout wrapping): with the target not mid-compile and depth to spare,
/// the verbatim layout directive hands the output captured so far to its
/// target through the reserved variable, and the buffer afterwards holds
/// exactly the target's compiled output — the captured text survives only
/// where the target reinserts it. The target's failure is the directive's.
pub proof fn lemma_wrapped_replaces_output(
    fs: Map<Seq<char>, Seq<char>>,
    env: Map<Seq<char>, Seq<char>>,
    vars: Map<Seq<char>, Seq<char>>,
    active: Set<Seq<char>>,
    base: Seq<char>,
    body: Seq<char>,
    acc: Seq<char>,
    depth: nat,
)
    requires
        directive_shaped(body),
        directive_kw(body) == kw_wrapped(),
        directive_md(body) == md_raw(),
        !active.contains(canonical_path(join_path(base, directive_arg(body)))),
        depth > 0,
    ensures
        spec_directive(fs, env, vars, active, base, body, acc, depth) == (match spec_compile(
            fs,
            env,
            vars.insert(content_var(), acc),
            active,
            join_path(base, directive_arg(body)),
            true,
            (depth - 1) as nat,
        ) {
            CompOut::Done { text, vars: _ } => DirOut::Done { out: text, vars },
            CompOut::Fail { kind } => DirOut::Fail { kind },
        }),
{
}

/// Law (missing variables): a variable directive looks its name up in the
/// variable store first and the environment second; when both are silent, the
/// lenient keyword substitutes empty text and the strict one fails.
pub proof fn lemma_variable_lookup(
    fs: Map<Seq<char>, Seq<char>>,
    env: Map<Seq<char>, Seq<char>>,
    vars: Map<Seq<char>, Seq<char>>,
    active: Set<Seq<char>>,
    base: Seq<char>,
    body: Seq<char>,
    acc: Seq<char>,
    depth: nat,
)
    requires
        directive_shaped(body),
        directive_kw(body) == kw_var() || directive_kw(body) == kw_let(),
        directive_md(body) == md_raw(),
    ensures
        spec_directive(fs, env, vars, active, base, body, acc, depth) == (match lookup_var(
            vars,
            env,
            directive_arg(body),
        ) {
            Option::Some(v) => DirOut::Done { out: acc + v, vars },
            Option::None => if directive_kw(body) == kw_let() {
                DirOut::Fail { kind: crate::error::ErrorKind::MissingVariable }
            } else {
                DirOut::Done { out: acc, vars }
            },
        }),
{
}

} // verus!
