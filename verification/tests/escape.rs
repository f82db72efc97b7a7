use csi::escape::escape_text;

#[test]
fn escape_text_works_empty() {
    assert_eq!(escape_text(""), "")
}

#[test]
fn escape_text_works_basic() {
    assert_eq!(escape_text("this is a test"), "this is a test")
}

#[test]
fn escape_text_works_html() {
    assert_eq!(
        escape_text("<hello world /> \"123\" wow! & stuff' yeah"),
        "&lt;hello world /&gt; &quot;123&quot; wow! &amp; stuff&apos; yeah"
    )
}

#[test]
fn escape_text_five_specials_in_order() {
    assert_eq!(escape_text("<>&\"'"), "&lt;&gt;&amp;&quot;&apos;")
}
