use mdhtml::parse_markdown;

#[test]
fn test_parse_simple() {
    let input = "# Hello\n\nThis is **bold** text.";
    let output = parse_markdown(input);
    assert!(output.contains("<h1>"));
    assert!(output.contains("Hello"));
    assert!(output.contains("<strong>"));
    assert!(output.contains("bold"));
}

#[test]
fn test_parse_code_block() {
    let input = "```rust\nfn main() {}\n```";
    let output = parse_markdown(input);
    assert!(output.contains("<pre>"));
    assert!(output.contains("<code"));
    assert!(output.contains("language-rust"));
}

#[test]
fn parse_simple_exact_output() {
    let output = parse_markdown("# Hello\n\nThis is **bold** text.");
    assert_eq!(output, "<h1>Hello</h1>\n<p>This is <strong>bold</strong> text.</p>\n");
}

#[test]
fn parse_code_block_exact_output() {
    let output = parse_markdown("```rust\nfn main() {}\n```");
    assert_eq!(output, "<pre><code class=\"language-rust\">fn main() {}\n</code></pre>\n");
}

#[test]
fn parse_fence_language_is_trimmed() {
    let output = parse_markdown("```  rust  \nx\n```");
    assert!(output.starts_with("<pre><code class=\"language-rust\">"));
}

#[test]
fn parse_fence_without_language_is_bare() {
    let output = parse_markdown("```\nx\n```");
    assert_eq!(output, "<pre><code>x\n</code></pre>\n");
}

#[test]
fn parse_escapes_text() {
    assert_eq!(parse_markdown("a &amp; b < c"), "<p>a &amp; b &lt; c</p>\n");
}

#[test]
fn parse_task_list() {
    let output = parse_markdown("- [x] done\n- [ ] todo");
    assert_eq!(
        output,
        "<ul><li><input type=\"checkbox\" checked disabled> done</li>\n\
         <li><input type=\"checkbox\" disabled> todo</li>\n</ul>\n"
    );
}

#[test]
fn parse_ordered_list_renders_unordered() {
    let output = parse_markdown("1. one\n2. two");
    assert_eq!(output, "<ul><li>one</li>\n<li>two</li>\n</ul>\n");
}

#[test]
fn parse_image_alt_text() {
    let output = parse_markdown("![a *b* `c`](x.png)");
    assert_eq!(output, "<p><img src=\"x.png\" alt=\"a b c\" /></p>\n");
}

#[test]
fn parse_strikethrough_and_rule() {
    assert_eq!(parse_markdown("~~gone~~\n\n---"), "<p><del>gone</del></p>\n<hr>\n");
}

#[test]
fn parse_empty_input() {
    assert_eq!(parse_markdown(""), "");
}

#[test]
fn parse_link() {
    assert_eq!(parse_markdown("[a *b*](x?y&z)"), "<p><a href=\"x?y&amp;z\">a <em>b</em></a></p>\n");
}
