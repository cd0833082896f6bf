use mdhtml::escape_html;

#[test]
fn escape_each_reserved_character() {
    assert_eq!(escape_html("&"), "&amp;");
    assert_eq!(escape_html("<"), "&lt;");
    assert_eq!(escape_html(">"), "&gt;");
    assert_eq!(escape_html("\""), "&quot;");
    assert_eq!(escape_html("'"), "&#39;");
}

#[test]
fn escape_only_reserved_characters() {
    let out = escape_html("&<>\"'");
    assert_eq!(out, "&amp;&lt;&gt;&quot;&#39;");
    assert!(!out.contains('<') && !out.contains('>') && !out.contains('"') && !out.contains('\''));
    assert_eq!(out.matches('&').count(), 5);
}

#[test]
fn escape_keeps_other_text() {
    assert_eq!(escape_html("héllo wörld ✓"), "héllo wörld ✓");
    assert_eq!(escape_html(""), "");
}

#[test]
fn escape_mixed_text() {
    assert_eq!(escape_html("a<b>&'c\"d"), "a&lt;b&gt;&amp;&#39;c&quot;d");
}

#[test]
fn escape_is_not_idempotent() {
    let once = escape_html("&");
    let twice = escape_html(&once);
    assert_eq!(twice, "&amp;amp;");
    assert_ne!(twice, once);
}
