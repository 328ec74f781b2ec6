use bundlrs::markdown::{
    color_blocks_with, colorize_blocks, colorize_percent, directive_rewrite, expand_directives, from_tree,
    insert_stylesheets, parse_markdown, style_block_sources, style_sources_from, tree_is_well_formed, Block, Rule,
};

/// A stand-in stylesheet compiler: it marks the program it was given.
fn css_of(program: String) -> String {
    format!("css[{}]", program)
}

fn block(rule: Rule, text: &str, inner: &[&str]) -> Block {
    Block { rule, text: text.to_string(), inner: inner.iter().map(|s| s.to_string()).collect() }
}

#[test]
fn close_directive_becomes_span_end() {
    let tree = vec![block(Rule::CLOSE, "close", &[])];
    assert_eq!(from_tree(&tree, "a e#close# b e#close#".to_string(), css_of), "a </span> b </span>");
}

#[test]
fn theme_directive() {
    let tree = vec![block(Rule::THEME, "theme dark", &["dark"])];
    assert_eq!(expand_directives(&tree, "x e#theme dark# y".to_string()), "x <theme>dark</theme> y");
}

#[test]
fn hsl_directive() {
    let tree = vec![block(Rule::HSL, "hue 120", &["hue", "120"])];
    assert_eq!(expand_directives(&tree, "e#hue 120#".to_string()), "<hue>120</hue>");
}

#[test]
fn html_directive_escapes_quotes_in_its_pattern() {
    let tree = vec![block(Rule::HTML, "html div class=\"a\"", &["div", "class=\"a\""])];
    let out = expand_directives(&tree, "e#html div class=&quot;a&quot;#".to_string());
    assert_eq!(out, "<div class=\"a\" >");
    // the unescaped text is not the pattern
    let raw = expand_directives(&tree, "e#html div class=\"a\"#".to_string());
    assert_eq!(raw, "e#html div class=\"a\"#");
}

#[test]
fn chtml_id_and_class_directives() {
    let tree = vec![
        block(Rule::CHTML, "chtml div", &["div"]),
        block(Rule::ID, "id top", &["top"]),
        block(Rule::CLASS, "class a b", &["a", "b"]),
    ];
    let out = expand_directives(&tree, "e#id top#e#class a b#x e#chtml div#".to_string());
    assert_eq!(out, "<span id=\"top\"><span class=\"a b \">x </div>");
}

#[test]
fn animation_directive() {
    let tree = vec![block(Rule::ANIMATION, "animation spin 2s", &["spin", "2s"])];
    let out = expand_directives(&tree, "e#animation spin 2s#".to_string());
    assert_eq!(
        out,
        "<span role=\"animation\" style=\"animation: spin 2s  ease-in-out forwards running; display: inline-block;\">"
    );
}

#[test]
fn other_blocks_change_nothing() {
    let tree = vec![block(Rule::OTHER, "close", &[])];
    assert_eq!(expand_directives(&tree, "e#close#".to_string()), "e#close#");
    assert!(directive_rewrite(&tree[0]).is_none());
}

#[test]
fn directive_rewrite_pattern_and_markup() {
    let b = block(Rule::CLASS, "class \"q\"", &["\"q\""]);
    let (p, m) = directive_rewrite(&b).unwrap();
    assert_eq!(p, "e#class &quot;q&quot;#");
    assert_eq!(m, "<span class=\"\"q\" \">");
}

#[test]
fn blocks_act_in_order() {
    let tree = vec![block(Rule::ID, "id a", &["a"]), block(Rule::CLOSE, "close", &[])];
    let whole = expand_directives(&tree, "e#id a#t e#close#".to_string());
    let first = expand_directives(&vec![block(Rule::ID, "id a", &["a"])], "e#id a#t e#close#".to_string());
    let split = expand_directives(&vec![block(Rule::CLOSE, "close", &[])], first);
    assert_eq!(whole, split);
    assert_eq!(whole, "<span id=\"a\">t </span>");
}

#[test]
fn color_blocks_become_spans() {
    assert_eq!(
        colorize_blocks("say c#red# hello # now".to_string()),
        "say <span style=\"color: red\" role=\"custom-color\">hello</span> now"
    );
    assert_eq!(
        colorize_blocks("c#$ff0000#x#".to_string()),
        "<span style=\"color: #ff0000\" role=\"custom-color\">x</span>"
    );
}

#[test]
fn percent_colors_become_spans() {
    assert_eq!(
        colorize_percent("a %blue% hi %% b".to_string()),
        "a <span style=\"color: blue;\" role=\"custom-color\">hi</span> b"
    );
    assert_eq!(colorize_percent("no spans".to_string()), "no spans");
}

#[test]
fn style_blocks_are_listed_and_replaced() {
    let src = "x ssm#a$b# y ssm#c#";
    let sheets = style_block_sources(src).unwrap();
    assert_eq!(sheets, vec![("ssm#a$b#".to_string(), "a#b".to_string()), ("ssm#c#".to_string(), "c".to_string())]);
    let compiled = vec![
        ("ssm#a$b#".to_string(), "p{}".to_string()),
        ("ssm#c#".to_string(), "q{}".to_string()),
    ];
    assert_eq!(insert_stylesheets(src.to_string(), &compiled), "x <style>p{}</style> y <style>q{}</style>");
}

#[test]
fn from_tree_runs_every_pass() {
    let tree = vec![block(Rule::CLOSE, "close", &[])];
    let out = from_tree(&tree, "c#red#a#e#close# %green% b %%".to_string(), css_of);
    assert_eq!(
        out,
        "<span style=\"color: red\" role=\"custom-color\">a</span></span> <span style=\"color: green;\" role=\"custom-color\">b</span>"
    );
}

#[test]
fn parse_markdown_renders_with_the_tree() {
    let tree = vec![block(Rule::THEME, "theme x", &["x"])];
    assert_eq!(parse_markdown("e#theme x#", &tree, css_of), "<theme>x</theme>");
    assert_eq!(parse_markdown("plain", &vec![], css_of), "plain");
}

#[test]
fn well_formedness_of_trees() {
    assert!(tree_is_well_formed(&vec![block(Rule::CLOSE, "close", &[])]));
    assert!(!tree_is_well_formed(&vec![block(Rule::HSL, "hue", &["hue"])]));
    assert!(!tree_is_well_formed(&vec![block(Rule::THEME, "theme", &[])]));
}

#[test]
fn tree_without_directives_only_colours() {
    let tree = vec![block(Rule::OTHER, "x", &[])];
    let text = "e#close# %red% a %%".to_string();
    assert_eq!(from_tree(&tree, text.clone(), css_of), colorize_percent(colorize_blocks(text)));
}

#[test]
fn style_blocks_compiled_in_from_tree() {
    assert_eq!(from_tree(&vec![], "ssm#a$b#".to_string(), css_of), "<style>css[a#b]</style>");
    assert_eq!(
        from_tree(&vec![], "x ssm#p# c#red#y#".to_string(), css_of),
        "x <style>css[p]</style> <span style=\"color: red\" role=\"custom-color\">y</span>"
    );
}

#[test]
fn style_pass_runs_after_directives() {
    let tree = vec![block(Rule::CLOSE, "close", &[])];
    assert_eq!(
        parse_markdown("ssm#q# e#close#", &tree, css_of),
        "<style>css[q]</style> </span>"
    );
}

#[test]
fn text_without_hash_or_percent_unchanged() {
    let tree = vec![block(Rule::CLOSE, "close", &[]), block(Rule::THEME, "theme x", &["x"])];
    let text = "plain text, 50 % of it".to_string();
    assert_eq!(from_tree(&tree, text.clone(), css_of), text);
}

#[test]
fn captures_given_as_values() {
    use_captures();
}

fn use_captures() {
    let caps = vec![("c#red#x#".to_string(), vec![Some("$f00".to_string()), Some("x".to_string())])];
    assert_eq!(
        color_blocks_with("a c#red#x# c#red#x#".to_string(), &caps),
        "a <span style=\"color: #f00\" role=\"custom-color\">x</span> c#red#x#"
    );
    let missing = vec![("c#red#x#".to_string(), vec![None, Some("x".to_string())])];
    assert_eq!(color_blocks_with("c#red#x#".to_string(), &missing), "c#red#x#");
    let style = vec![("ssm#a$#".to_string(), vec![Some("a$".to_string())]), ("ssm##".to_string(), vec![None])];
    assert_eq!(style_sources_from(&style), vec![("ssm#a$#".to_string(), "a#".to_string())]);
}
