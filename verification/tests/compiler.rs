use csi::context::Context;
use csi::engine::compile_file;
use csi::engine::compile_path;
use csi::engine::process;
use csi::error::ErrorKind;

/// The file-inclusion keyword, assembled at run time.
fn incl_kw() -> String {
    format!("inc{}", "lude")
}

#[test]
fn literal_text_unchanged() {
    let mut ctx = Context::new();
    let out = process(&mut ctx, "hello, plain text. no markup at all", "", 8).unwrap();
    assert_eq!(out, "hello, plain text. no markup at all");
}

#[test]
fn literal_empty_unchanged() {
    let mut ctx = Context::new();
    let out = process(&mut ctx, "", "", 8).unwrap();
    assert_eq!(out, "");
}

#[test]
fn var_substitutes_value() {
    let mut ctx = Context::new();
    ctx.set_var(String::from("x"), String::from("1"));
    let out = process(&mut ctx, "a[var raw x]b", "", 8).unwrap();
    assert_eq!(out, "a1b");
}

#[test]
fn var_missing_is_empty() {
    let mut ctx = Context::new();
    let out = process(&mut ctx, "a[var raw x]b", "", 8).unwrap();
    assert_eq!(out, "ab");
}

#[test]
fn var_html_escapes_value() {
    let mut ctx = Context::new();
    ctx.set_var(String::from("x"), String::from("<b>&</b>"));
    let out = process(&mut ctx, "[var html x]", "", 8).unwrap();
    assert_eq!(out, "&lt;b&gt;&amp;&lt;/b&gt;");
}

#[test]
fn var_falls_back_to_environment() {
    let mut ctx = Context::new();
    ctx.set_env_var("greeting", "salve");
    let out = process(&mut ctx, "[var raw greeting]", "", 8).unwrap();
    assert_eq!(out, "salve");
}

#[test]
fn var_store_shadows_environment() {
    let mut ctx = Context::new();
    ctx.set_env_var("greeting", "salve");
    ctx.set_var(String::from("greeting"), String::from("hi"));
    let out = process(&mut ctx, "[var raw greeting]", "", 8).unwrap();
    assert_eq!(out, "hi");
}

#[test]
fn let_missing_fails() {
    let mut ctx = Context::new();
    let err = process(&mut ctx, "[let raw x]", "", 8).unwrap_err();
    assert_eq!(err.kind, ErrorKind::MissingVariable);
}

#[test]
fn let_present_substitutes() {
    let mut ctx = Context::new();
    ctx.set_var(String::from("x"), String::from("7"));
    let out = process(&mut ctx, "[let raw x]", "", 8).unwrap();
    assert_eq!(out, "7");
}

#[test]
fn escaped_bracket_is_literal() {
    let mut ctx = Context::new();
    ctx.set_var(String::from("x"), String::from("1"));
    let out = process(&mut ctx, "\\[var raw x]", "", 8).unwrap();
    assert_eq!(out, "[var raw x]");
}

#[test]
fn escaped_backslash_is_literal() {
    let mut ctx = Context::new();
    let out = process(&mut ctx, "a\\\\b", "", 8).unwrap();
    assert_eq!(out, "a\\b");
}

#[test]
fn lone_backslash_is_literal() {
    let mut ctx = Context::new();
    let out = process(&mut ctx, "a\\b", "", 8).unwrap();
    assert_eq!(out, "a\\b");
}

#[test]
fn escaped_close_bracket_inside_directive() {
    let mut ctx = Context::new();
    ctx.set_var(String::from("x]y"), String::from("ok"));
    let out = process(&mut ctx, "[var raw x\\]y]", "", 8).unwrap();
    assert_eq!(out, "ok");
}

#[test]
fn unterminated_directive_fails() {
    let mut ctx = Context::new();
    let err = process(&mut ctx, "text [var raw x", "", 8).unwrap_err();
    assert_eq!(err.kind, ErrorKind::UnterminatedDirective);
}

#[test]
fn unknown_keyword_fails() {
    let mut ctx = Context::new();
    let err = process(&mut ctx, "[frobnicate raw x]", "", 8).unwrap_err();
    assert_eq!(err.kind, ErrorKind::InvalidDirective);
}

#[test]
fn missing_modifier_fails() {
    let mut ctx = Context::new();
    let err = process(&mut ctx, "[var x]", "", 8).unwrap_err();
    assert_eq!(err.kind, ErrorKind::InvalidDirective);
}

#[test]
fn set_defines_variable_for_later_directives() {
    let mut ctx = Context::new();
    let out = process(&mut ctx, "[set x hello there][var raw x]", "", 8).unwrap();
    assert_eq!(out, "hello there");
}

#[test]
fn set_without_value_fails() {
    let mut ctx = Context::new();
    let err = process(&mut ctx, "[set x]", "", 8).unwrap_err();
    assert_eq!(err.kind, ErrorKind::InvalidDirective);
}

#[test]
fn require_compiles_nested_file() {
    let mut ctx = Context::new();
    ctx.add_file("part.txt", "world");
    let out = process(&mut ctx, "hello [require raw part.txt]!", "", 8).unwrap();
    assert_eq!(out, "hello world!");
}

#[test]
fn require_missing_file_fails() {
    let mut ctx = Context::new();
    let err = process(&mut ctx, "[require raw missing.txt]", "", 8).unwrap_err();
    assert_eq!(err.kind, ErrorKind::IOError);
}

#[test]
fn require_cycle_fails() {
    let mut ctx = Context::new();
    ctx.add_file("a.txt", "A[require raw b.txt]");
    ctx.add_file("b.txt", "B[require raw a.txt]");
    let err = compile_file(&mut ctx, "a.txt").unwrap_err();
    assert_eq!(err.kind, ErrorKind::CyclicInclude);
}

#[test]
fn cycle_tolerant_form_expands_empty_at_reentry() {
    let mut ctx = Context::new();
    let kw = incl_kw();
    ctx.add_file("a.txt", &format!("A[{} raw b.txt]", kw));
    ctx.add_file("b.txt", &format!("B[{} raw a.txt]", kw));
    let out = compile_file(&mut ctx, "a.txt").unwrap();
    assert_eq!(out, "AB");
}

#[test]
fn child_assignment_invisible_to_parent() {
    let mut ctx = Context::new();
    ctx.add_file("inc.txt", "[set x 1]");
    ctx.add_file("top.txt", "[set x 0][require raw inc.txt]x=[var raw x]");
    let out = compile_file(&mut ctx, "top.txt").unwrap();
    assert_eq!(out, "x=0");
}

#[test]
fn nested_file_sees_parent_variables() {
    let mut ctx = Context::new();
    ctx.add_file("inc.txt", "[var raw x]");
    ctx.add_file("top.txt", "[set x 9][require raw inc.txt]");
    let out = compile_file(&mut ctx, "top.txt").unwrap();
    assert_eq!(out, "9");
}

#[test]
fn relative_paths_resolve_against_the_file_compiled() {
    let mut ctx = Context::new();
    ctx.add_file("sub/page.txt", "[require raw part.txt]");
    ctx.add_file("sub/part.txt", "nested");
    let out = compile_file(&mut ctx, "sub/page.txt").unwrap();
    assert_eq!(out, "nested");
}

#[test]
fn cycle_detected_through_another_spelling() {
    let mut ctx = Context::new();
    ctx.add_file("d/a.txt", "[require raw ../d/a.txt]");
    let err = compile_file(&mut ctx, "d/a.txt").unwrap_err();
    assert_eq!(err.kind, ErrorKind::CyclicInclude);
}

#[test]
fn wrapped_hands_output_to_layout() {
    let mut ctx = Context::new();
    ctx.add_file("layout.html", "pre [var raw content] post");
    ctx.add_file("page.html", "A[wrapped raw layout.html]");
    let out = compile_file(&mut ctx, "page.html").unwrap();
    assert_eq!(out, "pre A post");
}

#[test]
fn wrapped_clears_captured_output() {
    let mut ctx = Context::new();
    ctx.add_file("layout.html", "only the layout");
    ctx.add_file("page.html", "gone[wrapped raw layout.html]");
    let out = compile_file(&mut ctx, "page.html").unwrap();
    assert_eq!(out, "only the layout");
}

#[test]
fn wrapped_content_variable_restored_after() {
    let mut ctx = Context::new();
    ctx.add_file("layout.html", "[var raw content]");
    ctx.add_file("page.html", "A[wrapped raw layout.html][var raw content]");
    let out = compile_file(&mut ctx, "page.html").unwrap();
    assert_eq!(out, "A");
}

#[test]
fn require_html_escapes_nested_output() {
    let mut ctx = Context::new();
    ctx.add_file("part.txt", "<i>");
    let out = process(&mut ctx, "[require html part.txt]", "", 8).unwrap();
    assert_eq!(out, "&lt;i&gt;");
}

#[test]
fn wrapped_html_escapes_layout_output() {
    let mut ctx = Context::new();
    ctx.add_file("layout.html", "<[var raw content]>");
    ctx.add_file("page.html", "A[wrapped html layout.html]");
    let out = compile_file(&mut ctx, "page.html").unwrap();
    assert_eq!(out, "&lt;A&gt;");
}

#[test]
fn depth_guard_fails_with_dedicated_error() {
    let mut ctx = Context::new();
    ctx.add_file("a.txt", "fine");
    let err = process(&mut ctx, "[require raw a.txt]", "", 0).unwrap_err();
    assert_eq!(err.kind, ErrorKind::RecursionLimit);
}

#[test]
fn inner_failure_restores_active_set() {
    let mut ctx = Context::new();
    ctx.add_file("bad.txt", "[let raw nowhere]");
    ctx.add_file("top.txt", "[require raw bad.txt]");
    let err = compile_file(&mut ctx, "top.txt").unwrap_err();
    assert_eq!(err.kind, ErrorKind::MissingVariable);
    assert!(!ctx.active("top.txt"));
    assert!(!ctx.active("bad.txt"));
    // the same context can compile cleanly afterwards
    ctx.add_file("ok.txt", "fine");
    assert_eq!(compile_file(&mut ctx, "ok.txt").unwrap(), "fine");
}

#[test]
fn compile_path_not_required_missing_is_empty() {
    let mut ctx = Context::new();
    let out = compile_path(&mut ctx, "absent.txt", false, 8).unwrap();
    assert_eq!(out, "");
}

#[test]
fn error_message_names_the_subject() {
    let mut ctx = Context::new();
    let err = process(&mut ctx, "[let raw treasure]", "", 8).unwrap_err();
    assert!(err.message().contains("treasure"));
}

#[test]
fn context_load_file_respects_required() {
    let mut ctx = Context::new();
    ctx.add_file("here.txt", "content!");
    assert_eq!(ctx.load_file("here.txt", true).unwrap(), "content!");
    assert_eq!(ctx.load_file("gone.txt", false).unwrap(), "");
    let err = ctx.load_file("gone.txt", true).unwrap_err();
    assert_eq!(err.kind, ErrorKind::IOError);
}

#[test]
fn context_active_marks_round_trip() {
    let mut ctx = Context::new();
    assert!(!ctx.active("f"));
    ctx.add_active("f");
    assert!(ctx.active("f"));
    ctx.remove_active("f");
    assert!(!ctx.active("f"));
}

#[test]
fn context_export_replace_round_trip() {
    let mut ctx = Context::new();
    ctx.set_var(String::from("a"), String::from("1"));
    let snapshot = ctx.export_vars();
    ctx.set_var(String::from("a"), String::from("2"));
    ctx.replace_vars(snapshot);
    let out = process(&mut ctx, "[var raw a]", "", 8).unwrap();
    assert_eq!(out, "1");
}

#[test]
fn load_var_checks_store_then_environment() {
    let mut ctx = Context::new();
    assert!(ctx.load_var("k").is_none());
    ctx.set_env_var("k", "env");
    assert_eq!(ctx.load_var("k").unwrap(), "env");
    ctx.set_var(String::from("k"), String::from("store"));
    assert_eq!(ctx.load_var("k").unwrap(), "store");
}
