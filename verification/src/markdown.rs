//! The board-markdown extensions: `e#...#` directives, style blocks and
//! coloured text, rewritten into HTML.
use vstd::prelude::*;

use crate::regexes::{
    regex_captures, regex_compiles, regex_named_captures, regex_replace_all_result,
    regex_replace_exp,
};
use crate::text::{
    dollar_as_hash, lemma_dollars_to_hashes, lemma_replace_first_occurrence,
    lemma_replaced_absent, occurs_in, replace_all, replace_first_n, replaced, replaced_n,
};

verus! {

/// The kind of a parsed directive block, as the markdown grammar names it.
/// `OTHER` stands for every rule of the grammar that is not a directive.
#[allow(non_camel_case_types)]
#[derive(Clone, Copy, Debug, PartialEq, Eq, Structural)]
pub enum Rule {
    THEME,
    HSL,
    HTML,
    CHTML,
    ID,
    CLASS,
    CLOSE,
    ANIMATION,
    OTHER,
}

/// One top-level node of the parsed markdown: its rule, the text it spans
/// (between `e#` and `#` for a directive) and the texts of its child nodes.
pub struct Block {
    pub rule: Rule,
    pub text: String,
    pub inner: Vec<String>,
}

/// The mathematical value of a `Block`.
pub struct BlockView {
    pub rule: Rule,
    pub text: Seq<char>,
    pub inner: Seq<Seq<char>>,
}

impl View for Block {
    type V = BlockView;

    open spec fn view(&self) -> BlockView {
        BlockView { rule: self.rule, text: self.text@, inner: self.inner.deep_view() }
    }
}

/// The views of the blocks of a tree.
pub open spec fn tree_view(tree: Seq<Block>) -> Seq<BlockView> {
    tree.map_values(|b: Block| b@)
}

/// Whether a block has the children its rule needs: a name for `THEME`,
/// `HTML`, `CHTML`, `ID` and `ANIMATION`; a channel and a value for `HSL`.
pub open spec fn block_well_formed(b: BlockView) -> bool {
    match b.rule {
        Rule::HSL => b.inner.len() >= 2,
        Rule::THEME | Rule::HTML | Rule::CHTML | Rule::ID | Rule::ANIMATION => b.inner.len() >= 1,
        _ => true,
    }
}

/// Whether every block of a tree is well formed.
pub open spec fn tree_well_formed(tree: Seq<BlockView>) -> bool {
    forall|i: int| 0 <= i < tree.len() ==> #[trigger] block_well_formed(tree[i])
}

/// Whether the rule names a directive, which is rewritten into HTML.
pub open spec fn is_directive(rule: Rule) -> bool {
    rule != Rule::OTHER
}

/// Each word followed by one space, all concatenated.
pub open spec fn spaced(words: Seq<Seq<char>>) -> Seq<char>
    decreases words.len(),
{
    if words.len() == 0 {
        seq![]
    } else {
        spaced(words.drop_last()) + words.last() + " "@
    }
}

/// Double quotes written as the HTML entity `&quot;`.
pub open spec fn quotes_escaped(s: Seq<char>) -> Seq<char> {
    replaced(s, "\""@, "&quot;"@)
}

/// The text that a directive block stands for in the rendered page:
/// `e#`, the block's text (with quotes escaped for `HTML`, `CLASS` and
/// `ANIMATION`), and `#`.
pub open spec fn directive_pattern(b: BlockView) -> Seq<char> {
    let body = match b.rule {
        Rule::HTML | Rule::CLASS | Rule::ANIMATION => quotes_escaped(b.text),
        _ => b.text,
    };
    "e#"@ + body + "#"@
}

/// The HTML that a directive block is rewritten into.
pub open spec fn directive_markup(b: BlockView) -> Seq<char> {
    match b.rule {
        Rule::THEME => "<theme>"@ + b.inner[0] + "</theme>"@,
        Rule::HSL => "<"@ + b.inner[0] + ">"@ + b.inner[1] + "</"@ + b.inner[0] + ">"@,
        Rule::HTML => "<"@ + b.inner[0] + " "@ + spaced(b.inner.drop_first()) + ">"@,
        Rule::CHTML => "</"@ + b.inner[0] + ">"@,
        Rule::ID => "<span id=\""@ + b.inner[0] + "\">"@,
        Rule::CLASS => "<span class=\""@ + spaced(b.inner) + "\">"@,
        Rule::CLOSE => "</span>"@,
        Rule::ANIMATION => "<span role=\"animation\" style=\"animation: "@ + b.inner[0] + " "@
            + spaced(b.inner.drop_first())
            + " ease-in-out forwards running; display: inline-block;\">"@,
        Rule::OTHER => seq![],
    }
}

/// `out` after one block: a directive's pattern is replaced everywhere by
/// its markup; any other block leaves `out` as it is.
pub open spec fn apply_block(b: BlockView, out: Seq<char>) -> Seq<char> {
    if is_directive(b.rule) {
        replaced(out, directive_pattern(b), directive_markup(b))
    } else {
        out
    }
}

/// `out` after the blocks of `tree`, applied in order.
pub open spec fn expanded(tree: Seq<BlockView>, out: Seq<char>) -> Seq<char>
    decreases tree.len(),
{
    if tree.len() == 0 {
        out
    } else {
        apply_block(tree.last(), expanded(tree.drop_last(), out))
    }
}

/// Expanding a tree in two parts, one after the other, is expanding it at
/// once: blocks act in order.
pub proof fn lemma_expanded_split(first: Seq<BlockView>, second: Seq<BlockView>, out: Seq<char>)
    ensures
        expanded(first + second, out) == expanded(second, expanded(first, out)),
    decreases second.len(),
{
    if second.len() == 0 {
        assert(first + second =~= first);
    } else {
        lemma_expanded_split(first, second.drop_last(), out);
        assert((first + second).drop_last() =~= first + second.drop_last());
        assert((first + second).last() == second.last());
    }
}

/// A tree without directive blocks leaves the text as it is.
pub proof fn lemma_expanded_without_directives(tree: Seq<BlockView>, out: Seq<char>)
    requires
        forall|i: int| 0 <= i < tree.len() ==> !is_directive(#[trigger] tree[i].rule),
    ensures
        expanded(tree, out) == out,
    decreases tree.len(),
{
    if tree.len() > 0 {
        assert(!is_directive(tree[tree.len() - 1].rule));
        lemma_expanded_without_directives(tree.drop_last(), out);
    }
}

/// A directive whose pattern does not occur in the text leaves it as it is.
pub proof fn lemma_absent_directive(b: BlockView, out: Seq<char>)
    requires
        !occurs_in(directive_pattern(b), out),
    ensures
        apply_block(b, out) == out,
{
    if is_directive(b.rule) {
        reveal_strlit("e#");
        lemma_replaced_absent(out, directive_pattern(b), directive_markup(b));
    }
}

/// One more word adds that word and a space at the end.
proof fn lemma_spaced_push(words: Seq<Seq<char>>, w: Seq<char>)
    ensures
        spaced(words.push(w)) == spaced(words) + w + " "@,
{
    assert(words.push(w).drop_last() =~= words);
}

/// The markup of an `HTML` directive with only its tag is `<tag >`.
pub proof fn lemma_html_markup_tag_only(b: BlockView)
    requires
        b.rule == Rule::HTML,
        b.inner.len() == 1,
    ensures
        directive_markup(b) == "<"@ + b.inner[0] + " >"@,
{
    reveal_strlit(" ");
    reveal_strlit(">");
    reveal_strlit(" >");
    assert(b.inner.drop_first() =~= Seq::<Seq<char>>::empty());
    assert(" "@ + seq![] + ">"@ =~= " >"@);
    assert("<"@ + b.inner[0] + " "@ + spaced(b.inner.drop_first()) + ">"@ =~= "<"@ + b.inner[0]
        + " >"@);
}

/// Each further attribute of an `HTML` directive lands, followed by one
/// space, just before the closing `>`, after all the earlier ones.
pub proof fn lemma_html_markup_one_more_attribute(b: BlockView, attr: Seq<char>)
    requires
        b.rule == Rule::HTML,
        b.inner.len() >= 1,
    ensures
        directive_markup(BlockView { rule: Rule::HTML, text: b.text, inner: b.inner.push(attr) })
            == directive_markup(b).drop_last() + attr + " >"@,
{
    reveal_strlit(" ");
    reveal_strlit(">");
    reveal_strlit(" >");
    let more = b.inner.push(attr);
    assert(more.drop_first() =~= b.inner.drop_first().push(attr));
    assert(more[0] == b.inner[0]);
    lemma_spaced_push(b.inner.drop_first(), attr);
    let head = "<"@ + b.inner[0] + " "@ + spaced(b.inner.drop_first());
    assert((head + ">"@).drop_last() =~= head);
    assert(head + attr + " "@ + ">"@ =~= head + attr + " >"@);
}

/// The markup of a `CLASS` directive without names is `<span class="">`.
pub proof fn lemma_class_markup_no_names(b: BlockView)
    requires
        b.rule == Rule::CLASS,
        b.inner.len() == 0,
    ensures
        directive_markup(b) == "<span class=\"\">"@,
{
    reveal_strlit("<span class=\"");
    reveal_strlit("\">");
    reveal_strlit("<span class=\"\">");
    assert("<span class=\""@ + spaced(b.inner) + "\">"@ =~= "<span class=\"\">"@);
}

/// Each further class name lands, followed by one space, just before the
/// closing `">`, after all the earlier ones.
pub proof fn lemma_class_markup_one_more_name(b: BlockView, name: Seq<char>)
    requires
        b.rule == Rule::CLASS,
    ensures
        ({
            let m = directive_markup(b);
            directive_markup(BlockView { rule: Rule::CLASS, text: b.text, inner: b.inner.push(name) })
                == m.take(m.len() - 2) + name + " \">"@
        }),
{
    reveal_strlit("\">");
    reveal_strlit(" ");
    reveal_strlit(" \">");
    lemma_spaced_push(b.inner, name);
    let head = "<span class=\""@ + spaced(b.inner);
    assert((head + "\">"@).take((head + "\">"@).len() - 2) =~= head);
    assert(head + (spaced(b.inner) + name + " "@).skip(spaced(b.inner).len() as int) + "\">"@
        =~= head + name + " \">"@);
    assert("<span class=\""@ + (spaced(b.inner) + name + " "@) + "\">"@ =~= head + name + " \">"@);
}

/// The end of an `ANIMATION` directive's markup, after its parameters.
pub open spec fn animation_tail() -> Seq<char> {
    " ease-in-out forwards running; display: inline-block;\">"@
}

/// The markup of an `ANIMATION` directive with only its name `n`: the
/// animation `n`, a space, and the fixed tail.
pub proof fn lemma_animation_markup_name_only(b: BlockView)
    requires
        b.rule == Rule::ANIMATION,
        b.inner.len() == 1,
    ensures
        directive_markup(b) == "<span role=\"animation\" style=\"animation: "@ + b.inner[0] + " "@
            + animation_tail(),
{
    assert(b.inner.drop_first() =~= Seq::<Seq<char>>::empty());
    assert(" "@ + spaced(b.inner.drop_first()) =~= " "@);
}

/// Each further animation parameter lands, followed by one space, just
/// before the fixed tail, after all the earlier ones.
pub proof fn lemma_animation_markup_one_more_parameter(b: BlockView, p: Seq<char>)
    requires
        b.rule == Rule::ANIMATION,
        b.inner.len() >= 1,
    ensures
        ({
            let m = directive_markup(b);
            directive_markup(BlockView { rule: Rule::ANIMATION, text: b.text, inner: b.inner.push(p) })
                == m.take(m.len() - animation_tail().len()) + p + " "@ + animation_tail()
        }),
{
    let more = b.inner.push(p);
    assert(more.drop_first() =~= b.inner.drop_first().push(p));
    assert(more[0] == b.inner[0]);
    lemma_spaced_push(b.inner.drop_first(), p);
    let head = "<span role=\"animation\" style=\"animation: "@ + b.inner[0] + " "@ + spaced(
        b.inner.drop_first(),
    );
    let m = directive_markup(b);
    assert(m =~= head + animation_tail());
    assert(m.take(m.len() - animation_tail().len()) =~= head);
    assert(directive_markup(BlockView { rule: Rule::ANIMATION, text: b.text, inner: more }) =~= head
        + p + " "@ + animation_tail());
}

/// The markup of the directives with a fixed form.
pub proof fn lemma_fixed_markups(b: BlockView)
    requires
        block_well_formed(b),
    ensures
        b.rule == Rule::THEME ==> directive_markup(b) == "<theme>"@ + b.inner[0] + "</theme>"@,
        b.rule == Rule::HSL ==> directive_markup(b) == "<"@ + b.inner[0] + ">"@ + b.inner[1] + "</"@
            + b.inner[0] + ">"@,
        b.rule == Rule::CHTML ==> directive_markup(b) == "</"@ + b.inner[0] + ">"@,
        b.rule == Rule::ID ==> directive_markup(b) == "<span id=\""@ + b.inner[0] + "\">"@,
        b.rule == Rule::CLOSE ==> directive_markup(b) == "</span>"@,
        is_directive(b.rule) && b.rule != Rule::HTML && b.rule != Rule::CLASS && b.rule
            != Rule::ANIMATION ==> directive_pattern(b) == "e#"@ + b.text + "#"@,
        b.rule == Rule::HTML || b.rule == Rule::CLASS || b.rule == Rule::ANIMATION
            ==> directive_pattern(b) == "e#"@ + replaced(b.text, "\""@, "&quot;"@) + "#"@,
{
}

/// Style programs are the blocks' contents with every `$` read as `#`:
/// adding a match with its content adds exactly that block and program at
/// the end; a match without it adds nothing.
pub proof fn lemma_style_sources_push(caps: Seq<CaptureView>, c: CaptureView)
    ensures
        c.1.len() == 1 && c.1[0] is Some ==> style_sources(caps.push(c)) == style_sources(caps).push(
            (c.0, c.1[0]->0.map_values(|x: char| dollar_as_hash(x))),
        ),
        !(c.1.len() == 1 && c.1[0] is Some) ==> style_sources(caps.push(c)) == style_sources(caps),
{
    assert(caps.push(c).drop_last() =~= caps);
    if c.1.len() == 1 && c.1[0] is Some {
        lemma_dollars_to_hashes(c.1[0]->0);
    }
}

/// No style program holds a `$`, and each comes with its whole block.
pub proof fn lemma_style_programs_without_dollar(caps: Seq<CaptureView>)
    ensures
        forall|i: int, j: int|
            0 <= i < style_sources(caps).len() && 0 <= j < style_sources(caps)[i].1.len()
                ==> #[trigger] style_sources(caps)[i].1[j] != '$',
        style_sources(caps).len() <= caps.len(),
    decreases caps.len(),
{
    if caps.len() > 0 {
        let rest = caps.drop_last();
        lemma_style_programs_without_dollar(rest);
        assert(rest.push(caps.last()) =~= caps);
        lemma_style_sources_push(rest, caps.last());
        let c = caps.last();
        if c.1.len() == 1 && c.1[0] is Some {
            lemma_dollars_to_hashes(c.1[0]->0);
            let prog = c.1[0]->0.map_values(|x: char| dollar_as_hash(x));
            assert forall|j: int| 0 <= j < prog.len() implies prog[j] != '$' by {}
        }
    }
}

/// Coloured blocks act one after another: a further match works on the
/// text the earlier ones left.
pub proof fn lemma_color_steps_push(out: Seq<char>, caps: Seq<CaptureView>, c: CaptureView)
    ensures
        color_steps(out, caps.push(c)) == color_step(color_steps(out, caps), c),
{
    assert(caps.push(c).drop_last() =~= caps);
}

/// A coloured-block match with both groups turns the first occurrence of its
/// whole text, and only that, into a span coloured by `COLOR` (each `$` read
/// as `#`) around `CONTENT`.
pub proof fn lemma_color_step_first_occurrence(
    a: Seq<char>,
    b: Seq<char>,
    whole: Seq<char>,
    color: Seq<char>,
    content: Seq<char>,
)
    requires
        whole.len() > 0,
        forall|i: int| 0 <= i < a.len() ==> !#[trigger] whole.is_prefix_of((a + whole + b).skip(i)),
    ensures
        color_step(a + whole + b, (whole, seq![Some(color), Some(content)])) == a
            + "<span style=\"color: "@ + color.map_values(|x: char| dollar_as_hash(x))
            + "\" role=\"custom-color\">"@ + content + "</span>"@ + b,
{
    lemma_dollars_to_hashes(color);
    let span = color_span(replaced(color, "$"@, "#"@), content);
    lemma_replace_first_occurrence(a, whole, b, span);
    assert(a + span + b =~= a + "<span style=\"color: "@ + color.map_values(
        |x: char| dollar_as_hash(x),
    ) + "\" role=\"custom-color\">"@ + content + "</span>"@ + b);
}

/// Stylesheets act one after another: a further block is replaced in the
/// text the earlier ones left.
pub proof fn lemma_with_stylesheets_push(
    out: Seq<char>,
    sheets: Seq<(Seq<char>, Seq<char>)>,
    sheet: (Seq<char>, Seq<char>),
)
    ensures
        with_stylesheets(out, sheets.push(sheet)) == replaced(
            with_stylesheets(out, sheets),
            sheet.0,
            "<style>"@ + sheet.1 + "</style>"@,
        ),
{
    assert(sheets.push(sheet).drop_last() =~= sheets);
}

/// The words `words[from..]`, each followed by one space.
fn spaced_from(words: &Vec<String>, from: usize) -> (res: String)
    requires
        from <= words.len(),
    ensures
        res@ == spaced(words.deep_view().skip(from as int)),
{
    let mut res = String::new();
    let mut i: usize = from;
    assert(words.deep_view().skip(from as int).take(0) =~= Seq::<Seq<char>>::empty());
    while i < words.len()
        invariant
            from <= i <= words.len(),
            res@ == spaced(words.deep_view().skip(from as int).take(i - from)),
        decreases words.len() - i,
    {
        res.append(words[i].as_str());
        res.append(" ");
        let ghost ws = words.deep_view().skip(from as int);
        assert(ws.take(i + 1 - from).drop_last() =~= ws.take(i - from));
        assert(ws.take(i + 1 - from).last() == words[i as int]@);
        i += 1;
    }
    assert(words.deep_view().skip(from as int).take(i - from) =~= words.deep_view().skip(
        from as int,
    ));
    res
}

/// Whether every block of `tree` has the children its rule needs.
pub fn tree_is_well_formed(tree: &Vec<Block>) -> (res: bool)
    ensures
        res == tree_well_formed(tree_view(tree@)),
{
    let mut i: usize = 0;
    while i < tree.len()
        invariant
            i <= tree.len(),
            forall|j: int| 0 <= j < i ==> #[trigger] block_well_formed(tree_view(tree@)[j]),
        decreases tree.len() - i,
    {
        let b = &tree[i];
        assert(tree_view(tree@)[i as int] == b@);
        let ok = match b.rule {
            Rule::HSL => b.inner.len() >= 2,
            Rule::THEME | Rule::HTML | Rule::CHTML | Rule::ID | Rule::ANIMATION => b.inner.len() >= 1,
            _ => true,
        };
        assert(b@.inner.len() == b.inner@.len());
        if !ok {
            assert(!block_well_formed(tree_view(tree@)[i as int]));
            return false;
        }
        i += 1;
    }
    true
}

/// The pattern and the markup of a directive block; `None` for any other block.
pub fn directive_rewrite(b: &Block) -> (res: Option<(String, String)>)
    requires
        block_well_formed(b@),
    ensures
        res is None <==> !is_directive(b.rule),
        res matches Some(r) ==> r.0@ == directive_pattern(b@) && r.1@ == directive_markup(b@),
{
    let body = match b.rule {
        Rule::HTML | Rule::CLASS | Rule::ANIMATION => replace_all(b.text.as_str(), "\"", "&quot;"),
        _ => b.text.clone(),
    };
    let mut pattern = String::from_str("e#");
    pattern.append(body.as_str());
    pattern.append("#");
    let ghost inner = b@.inner;
    let markup = match b.rule {
        Rule::THEME => {
            let mut m = String::from_str("<theme>");
            m.append(b.inner[0].as_str());
            m.append("</theme>");
            m
        },
        Rule::HSL => {
            let mut m = String::from_str("<");
            m.append(b.inner[0].as_str());
            m.append(">");
            m.append(b.inner[1].as_str());
            m.append("</");
            m.append(b.inner[0].as_str());
            m.append(">");
            m
        },
        Rule::HTML => {
            let attrs = spaced_from(&b.inner, 1);
            assert(inner.skip(1) =~= inner.drop_first());
            let mut m = String::from_str("<");
            m.append(b.inner[0].as_str());
            m.append(" ");
            m.append(attrs.as_str());
            m.append(">");
            m
        },
        Rule::CHTML => {
            let mut m = String::from_str("</");
            m.append(b.inner[0].as_str());
            m.append(">");
            m
        },
        Rule::ID => {
            let mut m = String::from_str("<span id=\"");
            m.append(b.inner[0].as_str());
            m.append("\">");
            m
        },
        Rule::CLASS => {
            let attrs = spaced_from(&b.inner, 0);
            assert(inner.skip(0) =~= inner);
            let mut m = String::from_str("<span class=\"");
            m.append(attrs.as_str());
            m.append("\">");
            m
        },
        Rule::CLOSE => String::from_str("</span>"),
        Rule::ANIMATION => {
            let attrs = spaced_from(&b.inner, 1);
            assert(inner.skip(1) =~= inner.drop_first());
            let mut m = String::from_str("<span role=\"animation\" style=\"animation: ");
            m.append(b.inner[0].as_str());
            m.append(" ");
            m.append(attrs.as_str());
            m.append(" ease-in-out forwards running; display: inline-block;\">");
            m
        },
        Rule::OTHER => {
            return None;
        },
    };
    Some((pattern, markup))
}

/// Rewrites every directive of `tree` in `out`, block after block.
pub fn expand_directives(tree: &Vec<Block>, out: String) -> (res: String)
    requires
        tree_well_formed(tree_view(tree@)),
    ensures
        res@ == expanded(tree_view(tree@), out@),
{
    let mut out = out;
    let ghost start = out@;
    let mut i: usize = 0;
    assert(tree_view(tree@).take(0) =~= Seq::<BlockView>::empty());
    while i < tree.len()
        invariant
            i <= tree.len(),
            tree_well_formed(tree_view(tree@)),
            out@ == expanded(tree_view(tree@).take(i as int), start),
        decreases tree.len() - i,
    {
        assert(block_well_formed(tree_view(tree@)[i as int]));
        let ghost prefix = tree_view(tree@).take(i + 1);
        assert(prefix.drop_last() =~= tree_view(tree@).take(i as int));
        assert(prefix.last() == tree[i as int]@);
        match directive_rewrite(&tree[i]) {
            Some((pattern, markup)) => {
                out = replace_all(out.as_str(), pattern.as_str(), markup.as_str());
            },
            None => {},
        }
        i += 1;
    }
    assert(tree_view(tree@).take(i as int) =~= tree_view(tree@));
    out
}

/// The regex of a style block, `ssm#program#`, whose `CONTENT` is the program.
pub const STYLE_BLOCK_PATTERN: &'static str = "(ssm\\#)(?<CONTENT>.*?)\\#";

/// The regex of a coloured span in the older syntax, `c#colour#text#`.
pub const COLOR_BLOCK_PATTERN: &'static str = "(c\\#)\\s*(?<COLOR>.*?)\\s*\\#\\s*(?<CONTENT>.*?)\\s*\\#";

/// The regex of a coloured span, `%colour% text %%`.
pub const PERCENT_COLOR_PATTERN: &'static str = "%(.*?)%\\s*(.*?)\\s*(%{2})";

/// The replacement template of `PERCENT_COLOR_PATTERN`.
pub const PERCENT_COLOR_TEMPLATE: &'static str = "<span style=\"color: $1;\" role=\"custom-color\">$2</span>";

/// One match of a regex: the whole match and the named groups asked for.
pub type CaptureView = (Seq<char>, Seq<Option<Seq<char>>>);

/// The HTML of a coloured span.
pub open spec fn color_span(color: Seq<char>, content: Seq<char>) -> Seq<char> {
    "<span style=\"color: "@ + color + "\" role=\"custom-color\">"@ + content + "</span>"@
}

/// `out` after one coloured-block match: the first occurrence of the whole
/// match becomes a span, coloured by `COLOR` (with `$` read as `#`) around
/// `CONTENT`. A match without both groups leaves `out` as it is.
pub open spec fn color_step(out: Seq<char>, cap: CaptureView) -> Seq<char> {
    if cap.1.len() == 2 && cap.1[0] is Some && cap.1[1] is Some {
        replaced_n(out, cap.0, color_span(replaced(cap.1[0]->0, "$"@, "#"@), cap.1[1]->0), 1)
    } else {
        out
    }
}

/// `out` after the matches `caps`, in order.
pub open spec fn color_steps(out: Seq<char>, caps: Seq<CaptureView>) -> Seq<char>
    decreases caps.len(),
{
    if caps.len() == 0 {
        out
    } else {
        color_step(color_steps(out, caps.drop_last()), caps.last())
    }
}

/// The group names that the coloured-block pass reads.
pub open spec fn color_names() -> Seq<Seq<char>> {
    seq!["COLOR"@, "CONTENT"@]
}

/// `out` with its coloured blocks (`c#colour#text#`) turned into spans; the
/// matches are those of `out` before any of them is replaced.
pub open spec fn colored_blocks(out: Seq<char>) -> Seq<char> {
    if regex_compiles(COLOR_BLOCK_PATTERN@, true, true) {
        color_steps(
            out,
            regex_named_captures(COLOR_BLOCK_PATTERN@, true, true, out, color_names()),
        )
    } else {
        out
    }
}

/// `out` with its `%colour% text %%` spans turned into HTML.
pub open spec fn colored_percent(out: Seq<char>) -> Seq<char> {
    if regex_compiles(PERCENT_COLOR_PATTERN@, true, true) {
        regex_replace_all_result(
            PERCENT_COLOR_PATTERN@,
            true,
            true,
            out,
            PERCENT_COLOR_TEMPLATE@,
        )
    } else {
        out
    }
}


/// The programs of the style blocks among `caps`, in order, each with the
/// whole block it came from; `$` in a program is read as `#`. A match
/// without its `CONTENT` group is passed over.
pub open spec fn style_sources(caps: Seq<CaptureView>) -> Seq<(Seq<char>, Seq<char>)>
    decreases caps.len(),
{
    if caps.len() == 0 {
        seq![]
    } else {
        let rest = style_sources(caps.drop_last());
        let c = caps.last();
        if c.1.len() == 1 && c.1[0] is Some {
            rest.push((c.0, replaced(c.1[0]->0, "$"@, "#"@)))
        } else {
            rest
        }
    }
}

/// The style blocks `ssm#program#` of `out`: each whole block with its
/// program, or `None` if the style-block regex does not compile.
pub open spec fn style_blocks(out: Seq<char>) -> Option<Seq<(Seq<char>, Seq<char>)>> {
    if regex_compiles(STYLE_BLOCK_PATTERN@, true, true) {
        Some(
            style_sources(
                regex_named_captures(STYLE_BLOCK_PATTERN@, true, true, out, seq!["CONTENT"@]),
            ),
        )
    } else {
        None
    }
}

/// A stylesheet wrapped in a `style` element.
pub open spec fn style_element(css: Seq<char>) -> Seq<char> {
    "<style>"@ + css + "</style>"@
}

/// `out` with each block of `sheets` replaced, everywhere, by the `style`
/// element of its stylesheet, in order.
pub open spec fn with_stylesheets(out: Seq<char>, sheets: Seq<(Seq<char>, Seq<char>)>) -> Seq<char>
    decreases sheets.len(),
{
    if sheets.len() == 0 {
        out
    } else {
        replaced(
            with_stylesheets(out, sheets.drop_last()),
            sheets.last().0,
            style_element(sheets.last().1),
        )
    }
}

/// The programs of the style-block matches `caps`, each with the whole block
/// it came from, as `style_sources` states.
pub fn style_sources_from(caps: &Vec<(String, Vec<Option<String>>)>) -> (res: Vec<(String, String)>)
    ensures
        res.deep_view() == style_sources(caps.deep_view()),
{
    let ghost all = caps.deep_view();
    let mut res: Vec<(String, String)> = Vec::new();
    let mut i: usize = 0;
    assert(all.take(0) =~= Seq::<CaptureView>::empty());
    while i < caps.len()
        invariant
            i <= caps.len(),
            all == caps.deep_view(),
            res.deep_view() == style_sources(all.take(i as int)),
        decreases caps.len() - i,
    {
        assert(all.take(i + 1).drop_last() =~= all.take(i as int));
        assert(all.take(i + 1).last() == all[i as int]);
        let cap = &caps[i];
        assert(all[i as int] == (cap.0@, cap.1.deep_view()));
        if cap.1.len() == 1 {
            match &cap.1[0] {
                Some(content) => {
                    let program = replace_all(content.as_str(), "$", "#");
                    let ghost before = res.deep_view();
                    res.push((cap.0.clone(), program));
                    assert(res.deep_view() =~= before.push((cap.0@, program@)));
                },
                None => {},
            }
        }
        i += 1;
    }
    assert(all.take(i as int) =~= all);
    res
}

/// The style blocks `ssm#program#` of `out`, each as the whole block and its
/// program (with `$` read as `#`), in the order they occur.
pub fn style_block_sources(out: &str) -> (res: Option<Vec<(String, String)>>)
    ensures
        res.deep_view() == style_blocks(out@),
{
    let mut names: Vec<String> = Vec::new();
    names.push(String::from_str("CONTENT"));
    assert(names.deep_view() =~= seq!["CONTENT"@]);
    let caps = match regex_captures(out, STYLE_BLOCK_PATTERN, true, true, &names) {
        Some(caps) => caps,
        None => {
            return None;
        },
    };
    Some(style_sources_from(&caps))
}

/// Replaces each style block of `sheets` in `out` by the `style` element of
/// its compiled stylesheet (`sheets[i].1`), in order.
pub fn insert_stylesheets(out: String, sheets: &Vec<(String, String)>) -> (res: String)
    ensures
        res@ == with_stylesheets(out@, sheets.deep_view()),
{
    let ghost all = sheets.deep_view();
    let ghost start = out@;
    let mut out = out;
    let mut i: usize = 0;
    assert(all.take(0) =~= Seq::<(Seq<char>, Seq<char>)>::empty());
    while i < sheets.len()
        invariant
            i <= sheets.len(),
            all == sheets.deep_view(),
            out@ == with_stylesheets(start, all.take(i as int)),
        decreases sheets.len() - i,
    {
        assert(all.take(i + 1).drop_last() =~= all.take(i as int));
        assert(all.take(i + 1).last() == all[i as int]);
        let mut element = String::from_str("<style>");
        element.append(sheets[i].1.as_str());
        element.append("</style>");
        out = replace_all(out.as_str(), sheets[i].0.as_str(), element.as_str());
        i += 1;
    }
    assert(all.take(i as int) =~= all);
    out
}

/// The style blocks `blocks`, each with the stylesheet `css[i]` compiled
/// from its program.
pub open spec fn paired(blocks: Seq<(Seq<char>, Seq<char>)>, css: Seq<Seq<char>>) -> Seq<
    (Seq<char>, Seq<char>),
> {
    Seq::new(blocks.len(), |i: int| (blocks[i].0, css[i]))
}

/// `out` with each of its style blocks replaced by the `style` element of
/// the stylesheet `css` holds for it, in order; as it is if the style-block
/// regex does not compile.
pub open spec fn styled(out: Seq<char>, css: Seq<Seq<char>>) -> Seq<char> {
    match style_blocks(out) {
        Some(blocks) => with_stylesheets(out, paired(blocks, css)),
        None => out,
    }
}

/// The page text made of `source_text`: directives expanded, then style
/// blocks replaced by the stylesheets `css` compiled from them, then
/// coloured blocks, then `%` spans.
pub open spec fn rendered(tree: Seq<BlockView>, source_text: Seq<char>, css: Seq<Seq<char>>) -> Seq<char> {
    colored_percent(colored_blocks(styled(expanded(tree, source_text), css)))
}

/// The views of some strings.
pub open spec fn views(v: Seq<String>) -> Seq<Seq<char>> {
    v.map_values(|s: String| s@)
}

/// Whether `compile` was handed the programs of the style blocks of `out`,
/// in order, as `programs`, and answered `css`.
pub open spec fn compiled_by<F: Fn(String) -> String>(
    compile: F,
    out: Seq<char>,
    programs: Seq<String>,
    css: Seq<String>,
) -> bool {
    &&& programs.len() == css.len()
    &&& forall|i: int| 0 <= i < programs.len() ==> compile.ensures((programs[i],), #[trigger] css[i])
    &&& match style_blocks(out) {
        Some(blocks) => programs.len() == blocks.len() && forall|i: int|
            0 <= i < blocks.len() ==> (#[trigger] programs[i])@ == blocks[i].1,
        None => programs.len() == 0,
    }
}

/// A tree without directive blocks leaves only the style and colour passes.
pub proof fn lemma_rendered_without_directives(
    tree: Seq<BlockView>,
    source_text: Seq<char>,
    css: Seq<Seq<char>>,
)
    requires
        forall|i: int| 0 <= i < tree.len() ==> !is_directive(#[trigger] tree[i].rule),
    ensures
        rendered(tree, source_text, css) == colored_percent(colored_blocks(styled(source_text, css))),
{
    lemma_expanded_without_directives(tree, source_text);
}

/// A directive pattern holds a `#`: it starts with `e#`.
proof fn lemma_pattern_has_hash(b: BlockView, out: Seq<char>)
    requires
        forall|i: int| 0 <= i < out.len() ==> out[i] != '#',
    ensures
        !occurs_in(directive_pattern(b), out),
{
    reveal_strlit("e#");
    let pat = directive_pattern(b);
    assert(pat[1] == '#');
    assert forall|i: int| 0 <= i <= out.len() implies !#[trigger] pat.is_prefix_of(out.skip(i)) by {
        if pat.is_prefix_of(out.skip(i)) {
            assert(out.skip(i)[1] == '#');
            assert(out[i + 1] == '#');
        }
    }
}

/// Text without `#` holds no directive, so the directive pass leaves it as
/// it is.
pub proof fn lemma_expanded_without_hash(tree: Seq<BlockView>, out: Seq<char>)
    requires
        forall|i: int| 0 <= i < out.len() ==> out[i] != '#',
    ensures
        expanded(tree, out) == out,
    decreases tree.len(),
{
    if tree.len() > 0 {
        lemma_expanded_without_hash(tree.drop_last(), out);
        lemma_pattern_has_hash(tree.last(), out);
        lemma_absent_directive(tree.last(), out);
    }
}

/// `out` after the coloured-block matches `caps`, in order, as `color_steps`
/// states.
pub fn color_blocks_with(out: String, caps: &Vec<(String, Vec<Option<String>>)>) -> (res: String)
    ensures
        res@ == color_steps(out@, caps.deep_view()),
{
    let ghost all = caps.deep_view();
    let ghost start = out@;
    let mut out = out;
    let mut i: usize = 0;
    assert(all.take(0) =~= Seq::<CaptureView>::empty());
    while i < caps.len()
        invariant
            i <= caps.len(),
            all == caps.deep_view(),
            out@ == color_steps(start, all.take(i as int)),
        decreases caps.len() - i,
    {
        assert(all.take(i + 1).drop_last() =~= all.take(i as int));
        assert(all.take(i + 1).last() == all[i as int]);
        let cap = &caps[i];
        assert(all[i as int] == (cap.0@, cap.1.deep_view()));
        if cap.1.len() == 2 {
            match (&cap.1[0], &cap.1[1]) {
                (Some(color), Some(content)) => {
                    let color = replace_all(color.as_str(), "$", "#");
                    let mut span = String::from_str("<span style=\"color: ");
                    span.append(color.as_str());
                    span.append("\" role=\"custom-color\">");
                    span.append(content.as_str());
                    span.append("</span>");
                    out = replace_first_n(out.as_str(), cap.0.as_str(), span.as_str(), 1);
                },
                _ => {},
            }
        }
        i += 1;
    }
    assert(all.take(i as int) =~= all);
    out
}

/// Turns the coloured blocks `c#colour#text#` of `out` into spans.
pub fn colorize_blocks(out: String) -> (res: String)
    ensures
        res@ == colored_blocks(out@),
{
    let mut names: Vec<String> = Vec::new();
    names.push(String::from_str("COLOR"));
    names.push(String::from_str("CONTENT"));
    assert(names.deep_view() =~= color_names());
    let caps = match regex_captures(out.as_str(), COLOR_BLOCK_PATTERN, true, true, &names) {
        Some(caps) => caps,
        None => {
            return out;
        },
    };
    color_blocks_with(out, &caps)
}

/// Turns the `%colour% text %%` spans of `out` into HTML. If the span regex
/// did not build, the text would be left as it is; the constant pattern used
/// here builds.
pub fn colorize_percent(out: String) -> (res: String)
    ensures
        res@ == colored_percent(out@),
{
    match regex_replace_exp(
        out.as_str(),
        PERCENT_COLOR_PATTERN,
        true,
        true,
        PERCENT_COLOR_TEMPLATE,
    ) {
        Some(res) => res,
        None => out,
    }
}

/// Rewrites `source_text` with the extensions that `tree` was parsed into
/// (`tree` must be the parse of `source_text`). Turning markdown into HTML is
/// not done here: the passes act on the text as given.
///
/// The passes:
/// the directives; then the style blocks, each program (with `$` read as
/// `#`) handed to `compile` and the block replaced by a `style` element of
/// the stylesheet it answers; then the coloured blocks; then the `%` spans.
pub fn from_tree<F: Fn(String) -> String>(tree: &Vec<Block>, source_text: String, compile: F) -> (res: String)
    requires
        tree_well_formed(tree_view(tree@)),
        forall|p: String| compile.requires((p,)),
    ensures
        exists|programs: Seq<String>, css: Seq<String>|
            #[trigger] compiled_by(compile, expanded(tree_view(tree@), source_text@), programs, css)
                && res@ == rendered(tree_view(tree@), source_text@, views(css)),
{
    let out = expand_directives(tree, source_text);
    let ghost expanded_text = out@;
    let ghost mut programs: Seq<String> = Seq::empty();
    let ghost mut css: Seq<String> = Seq::empty();
    let out = match style_block_sources(out.as_str()) {
        None => out,
        Some(blocks) => {
            let ghost bv = blocks.deep_view();
            let mut sheets: Vec<(String, String)> = Vec::new();
            let mut i: usize = 0;
            while i < blocks.len()
                invariant
                    i <= blocks.len(),
                    bv == blocks.deep_view(),
                    style_blocks(expanded_text) == Some(bv),
                    forall|p: String| compile.requires((p,)),
                    sheets.len() == i,
                    programs.len() == i,
                    css.len() == i,
                    forall|j: int|
                        0 <= j < i ==> compile.ensures((programs[j],), #[trigger] css[j]),
                    forall|j: int| 0 <= j < i ==> (#[trigger] programs[j])@ == bv[j].1,
                    forall|j: int| 0 <= j < i ==> #[trigger] sheets.deep_view()[j] == (bv[j].0, css[j]@),
                decreases blocks.len() - i,
            {
                let program = blocks[i].1.clone();
                let ghost handed = program;
                let sheet = compile(program);
                proof {
                    programs = programs.push(handed);
                    css = css.push(sheet);
                }
                let ghost before = sheets.deep_view();
                sheets.push((blocks[i].0.clone(), sheet));
                assert(sheets.deep_view() =~= before.push((bv[i as int].0, css[i as int]@)));
                i += 1;
            }
            assert(sheets.deep_view() =~= paired(bv, views(css)));
            insert_stylesheets(out, &sheets)
        },
    };
    assert(compiled_by(compile, expanded_text, programs, css));
    let out = colorize_blocks(out);
    colorize_percent(out)
}

/// Rewrites `input` with its board-markdown extensions, as `from_tree`
/// does: `tree` must be the parse of `input`, and `compile` turns style
/// programs into stylesheets. Turning markdown into HTML is not done here.
pub fn parse_markdown<F: Fn(String) -> String>(input: &str, tree: &Vec<Block>, compile: F) -> (res: String)
    requires
        tree_well_formed(tree_view(tree@)),
        forall|p: String| compile.requires((p,)),
    ensures
        exists|programs: Seq<String>, css: Seq<String>|
            #[trigger] compiled_by(compile, expanded(tree_view(tree@), input@), programs, css)
                && res@ == rendered(tree_view(tree@), input@, views(css)),
{
    from_tree(tree, input.to_owned(), compile)
}

} // verus!
