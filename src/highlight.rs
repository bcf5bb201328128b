use vstd::prelude::*;
use vstd::string::*;
use crate::classify::{
    canonical_token, classify_spans, language_token, rules_for, rules_for_token, span_class, RuleSet,
    StyledSpan,
};
use crate::text::{lower_of, str_eq};
use crate::text::{expand_tabs, expand_tabs_of, lines_of, split_lines};
use syntect::easy::HighlightLines;
use syntect::highlighting::ThemeSet;
use syntect::parsing::{SyntaxReference, SyntaxSet};

verus! {

/// The semantic class of one highlighted piece of code.
#[derive(Clone, Copy, Debug, PartialEq, Eq, Structural)]
pub enum SpanClass {
    Keyword,
    Function,
    Comment,
    StringLit,
    Number,
    Type,
    Bool,
    Attribute,
    Text,
}

/// A piece of a code line with its semantic class.
pub struct ColoredSpan {
    pub text: String,
    pub class: SpanClass,
}

/// The length in characters of the longest of the lines, zero when there are none.
pub open spec fn max_line_len(ls: Seq<Seq<char>>) -> nat
    decreases ls.len(),
{
    if ls.len() == 0 {
        0
    } else {
        let m = max_line_len(ls.drop_last());
        let l = ls.last().len();
        if l > m {
            l
        } else {
            m
        }
    }
}

/// A code block needs scrolling when a line is longer than 80 characters or when it has
/// more than 15 lines.
pub open spec fn scroll_needed(code: Seq<char>) -> bool {
    max_line_len(lines_of(code)) > 80 || lines_of(code).len() > 15
}

/// The number of decimal digits of `n` (one for zero).
pub open spec fn digits(n: nat) -> nat
    decreases n,
{
    if n < 10 {
        1
    } else {
        1 + digits(n / 10)
    }
}

/// The block-level layout facts of a piece of code.
pub struct CodeLayout {
    pub line_count: usize,
    pub max_line_len: usize,
    pub needs_scroll: bool,
    pub gutter_width: usize,
}

/// The number of decimal digits of `n`.
pub fn digit_count(n: usize) -> (r: usize)
    ensures
        r == digits(n as nat),
{
    let mut k: usize = n;
    let mut d: usize = 1;
    proof {
        lemma_digits_bound(n as nat);
    }
    while k >= 10
        invariant
            d + digits(k as nat) == 1 + digits(n as nat),
            digits(k as nat) >= 1,
            n >= 1 ==> digits(n as nat) <= n,
        decreases k,
    {
        proof {
            lemma_digits_bound((k / 10) as nat);
        }
        k = k / 10;
        d = d + 1;
    }
    d
}

proof fn lemma_digits_bound(n: nat)
    ensures
        digits(n) >= 1,
        n >= 1 ==> digits(n) <= n,
    decreases n,
{
    if n >= 10 {
        lemma_digits_bound(n / 10);
    }
}

/// Line count, longest line, scroll need and gutter width of a piece of code.
pub fn code_layout(code: &str) -> (r: CodeLayout)
    ensures
        r.line_count == lines_of(code@).len(),
        r.max_line_len == max_line_len(lines_of(code@)),
        r.needs_scroll == scroll_needed(code@),
        r.gutter_width == digits(r.line_count as nat),
{
    let lines = split_lines(code);
    let ghost ls = lines@.map_values(|l: String| l@);
    let n = lines.len();
    let mut m: usize = 0;
    let mut k: usize = 0;
    while k < n
        invariant
            n == lines@.len(),
            ls == lines@.map_values(|l: String| l@),
            k <= n,
            m == max_line_len(ls.subrange(0, k as int)),
        decreases n - k,
    {
        let line = lines[k].as_str();
        let l = line.unicode_len();
        assert(ls[k as int] == line@);
        assert(ls.subrange(0, k + 1).drop_last() =~= ls.subrange(0, k as int));
        assert(ls.subrange(0, k + 1).last() == lines@[k as int]@);
        if l > m {
            m = l;
        }
        k += 1;
    }
    assert(ls.subrange(0, n as int) =~= ls);
    CodeLayout { line_count: n, max_line_len: m, needs_scroll: m > 80 || n > 15, gutter_width: digit_count(n) }
}

/// syntect's set of grammars, carried opaquely.
#[verifier::external_type_specification]
#[verifier::external_body]
pub struct ExSyntaxSet(SyntaxSet);

/// One grammar of a syntect set, carried opaquely.
#[verifier::external_type_specification]
#[verifier::external_body]
pub struct ExSyntaxReference(SyntaxReference);

/// syntect's set of colour themes, carried opaquely.
#[verifier::external_type_specification]
#[verifier::external_body]
pub struct ExThemeSet(ThemeSet);

/// One syntect colour theme, carried opaquely.
#[verifier::external_type_specification]
#[verifier::external_body]
pub struct ExTheme(syntect::highlighting::Theme);

/// syntect's line-by-line highlighter, whose parse state runs from line to line.
#[verifier::external_type_specification]
#[verifier::external_body]
pub struct ExHighlightLines<'a>(HighlightLines<'a>);

/// The grammars and colour themes that code is highlighted with. Its grammars are
/// always syntect's packaged defaults.
pub struct SyntaxCatalog {
    syntaxes: SyntaxSet,
    themes: ThemeSet,
}

/// The names of the themes that a theme set holds, in ascending order.
pub uninterp spec fn theme_names(ts: ThemeSet) -> Seq<Seq<char>>;

/// Relies on `SyntaxSet::load_defaults_newlines`: the grammars packaged with syntect.
#[verifier::external_body]
fn default_syntaxes() -> SyntaxSet {
    SyntaxSet::load_defaults_newlines()
}

/// Relies on `ThemeSet::load_defaults`: the themes packaged with syntect.
#[verifier::external_body]
fn default_themes() -> ThemeSet {
    ThemeSet::load_defaults()
}

impl SyntaxCatalog {
    /// The names of the catalog's themes, in ascending order.
    pub closed spec fn theme_names(&self) -> Seq<Seq<char>> {
        theme_names(self.themes)
    }

    /// The packaged grammars with the given themes.
    pub fn with_themes(themes: ThemeSet) -> (r: SyntaxCatalog)
        ensures
            r.theme_names() == theme_names(themes),
    {
        SyntaxCatalog { syntaxes: default_syntaxes(), themes }
    }

    /// The packaged grammars and themes.
    pub fn load_defaults() -> (r: SyntaxCatalog) {
        SyntaxCatalog::with_themes(default_themes())
    }
}

/// Relies on `BTreeMap::contains_key` on the set's `themes` map.
#[verifier::external_body]
fn has_theme(ts: &ThemeSet, name: &str) -> (r: bool)
    ensures
        r == theme_names(*ts).contains(name@),
{
    ts.themes.contains_key(name)
}

/// Relies on `BTreeMap::keys` on the set's `themes` map, which yields the keys in
/// ascending order: the first key, if any.
#[verifier::external_body]
fn first_theme_name(ts: &ThemeSet) -> (r: Option<String>)
    ensures
        r is None <==> theme_names(*ts).len() == 0,
        r matches Some(n) ==> theme_names(*ts).len() > 0 && n@ == theme_names(*ts)[0],
{
    ts.themes.keys().next().cloned()
}

/// Relies on indexing the set's `themes` map, which holds the name.
#[verifier::external_body]
fn theme_named<'a>(ts: &'a ThemeSet, name: &str) -> (r: &'a syntect::highlighting::Theme)
    requires
        theme_names(*ts).contains(name@),
{
    &ts.themes[name]
}

/// A grammar of a catalog, kept with the set it belongs to.
pub struct Grammar<'a> {
    set: &'a SyntaxSet,
    syntax: &'a SyntaxReference,
}

/// Relies on `SyntaxSet::find_syntax_by_token` to look a grammar up by extension or
/// name; nothing is assumed of which one it finds.
#[verifier::external_body]
fn grammar_by_token<'a>(catalog: &'a SyntaxCatalog, token: &str) -> Option<Grammar<'a>> {
    match catalog.syntaxes.find_syntax_by_token(token) {
        Some(syntax) => Some(Grammar { set: &catalog.syntaxes, syntax }),
        None => None,
    }
}

/// Relies on `SyntaxSet::find_syntax_by_extension` to look a grammar up by file
/// extension; nothing is assumed of which one it finds.
#[verifier::external_body]
fn grammar_by_extension<'a>(catalog: &'a SyntaxCatalog, extension: &str) -> Option<Grammar<'a>> {
    match catalog.syntaxes.find_syntax_by_extension(extension) {
        Some(syntax) => Some(Grammar { set: &catalog.syntaxes, syntax }),
        None => None,
    }
}

/// Relies on `SyntaxSet::find_syntax_by_name` to look a grammar up by name, without
/// panicking when there is none.
#[verifier::external_body]
fn grammar_by_name<'a>(catalog: &'a SyntaxCatalog, name: &str) -> Option<Grammar<'a>> {
    match catalog.syntaxes.find_syntax_by_name(name) {
        Some(syntax) => Some(Grammar { set: &catalog.syntaxes, syntax }),
        None => None,
    }
}

/// A running line-by-line highlighter, kept with the grammar set it parses with.
pub struct Highlighter<'a> {
    lines: HighlightLines<'a>,
    set: &'a SyntaxSet,
}

/// Relies on `HighlightLines::new`, which indexes the grammar's `__start` context:
/// every grammar of a catalog is a packaged one, loaded from a definition that has it.
#[verifier::external_body]
fn start_highlighter<'a>(grammar: &Grammar<'a>, theme: &'a syntect::highlighting::Theme) -> Highlighter<'a> {
    Highlighter { lines: HighlightLines::new(grammar.syntax, theme), set: grammar.set }
}

/// The text of styled pieces, joined in order.
pub open spec fn styled_text(spans: Seq<StyledSpan>) -> Seq<char>
    decreases spans.len(),
{
    if spans.len() == 0 {
        seq![]
    } else {
        styled_text(spans.drop_last()) + spans.last().text@
    }
}

/// The text of classified pieces, joined in order.
pub open spec fn line_text(spans: Seq<ColoredSpan>) -> Seq<char>
    decreases spans.len(),
{
    if spans.len() == 0 {
        seq![]
    } else {
        line_text(spans.drop_last()) + spans.last().text@
    }
}

/// Relies on `HighlightLines::highlight_line` with the set the grammar came from: its
/// pieces, joined in order, are a prefix of the line (all of it unless the parse state
/// broke off); each style is carried as its font bits and foreground colour.
#[verifier::external_body]
fn highlight_line(h: &mut Highlighter<'_>, line: &str) -> (r: Result<Vec<StyledSpan>, ()>)
    ensures
        r matches Ok(spans) ==> styled_text(spans@).is_prefix_of(line@),
{
    match h.lines.highlight_line(line, h.set) {
        Ok(ranges) => Ok(ranges.into_iter().map(|(style, text)| StyledSpan {
            font_style: style.font_style.bits(),
            red: style.foreground.r,
            green: style.foreground.g,
            blue: style.foreground.b,
            text: text.to_string(),
        }).collect()),
        Err(_) => Err(()),
    }
}

/// The theme preferred among those present: Dracula, then base16-ocean.dark, then
/// InspiredGitHub, then the first present; `None` only when there is none.
pub open spec fn preferred_theme(names: Seq<Seq<char>>) -> Option<Seq<char>> {
    if names.contains("Dracula"@) {
        Some("Dracula"@)
    } else if names.contains("base16-ocean.dark"@) {
        Some("base16-ocean.dark"@)
    } else if names.contains("InspiredGitHub"@) {
        Some("InspiredGitHub"@)
    } else if names.len() > 0 {
        Some(names[0])
    } else {
        None
    }
}

fn choose_theme_of(ts: &ThemeSet) -> (r: Option<String>)
    ensures
        r matches Some(x) ==> preferred_theme(theme_names(*ts)) == Some(x@) && theme_names(
            *ts,
        ).contains(x@),
        r is None ==> preferred_theme(theme_names(*ts)) is None,
{
    if has_theme(ts, "Dracula") {
        Some(String::from_str("Dracula"))
    } else if has_theme(ts, "base16-ocean.dark") {
        Some(String::from_str("base16-ocean.dark"))
    } else if has_theme(ts, "InspiredGitHub") {
        Some(String::from_str("InspiredGitHub"))
    } else {
        let r = first_theme_name(ts);
        if let Some(x) = &r {
            assert(theme_names(*ts)[0] == x@);
        }
        r
    }
}

/// The name of the theme a catalog highlights with.
pub fn choose_theme(catalog: &SyntaxCatalog) -> (r: Option<String>)
    ensures
        r matches Some(x) ==> preferred_theme(catalog.theme_names()) == Some(x@),
        r is None ==> preferred_theme(catalog.theme_names()) is None,
{
    choose_theme_of(&catalog.themes)
}

/// The grammar for a token: by token, else by extension, else the plain-text one.
fn find_grammar<'a>(catalog: &'a SyntaxCatalog, token: &str) -> Option<Grammar<'a>> {
    match grammar_by_token(catalog, token) {
        Some(g) => Some(g),
        None => match grammar_by_extension(catalog, token) {
            Some(g) => Some(g),
            None => grammar_by_name(catalog, "Plain Text"),
        },
    }
}

/// A line left unclassified: one piece of plain text.
pub fn plain_line(line: String) -> (r: Vec<ColoredSpan>)
    ensures
        is_plain(r@, line@),
        line_text(r@) == line@,
{
    let ghost l = line@;
    let mut out: Vec<ColoredSpan> = Vec::new();
    out.push(ColoredSpan { text: line, class: SpanClass::Text });
    assert(out@.drop_last() =~= Seq::<ColoredSpan>::empty());
    assert(line_text(out@.drop_last()) =~= Seq::<char>::empty());
    assert(Seq::<char>::empty() + l =~= l);
    out
}

proof fn lemma_classified_text(spans: Seq<StyledSpan>, out: Seq<ColoredSpan>)
    requires
        out.len() == spans.len(),
        forall|k: int| 0 <= k < out.len() ==> (#[trigger] out[k]).text@ == spans[k].text@,
    ensures
        line_text(out) == styled_text(spans),
    decreases out.len(),
{
    if out.len() > 0 {
        lemma_classified_text(spans.drop_last(), out.drop_last());
    }
}

/// The line is one piece of plain text.
pub open spec fn is_plain(r: Seq<ColoredSpan>, line: Seq<char>) -> bool {
    r.len() == 1 && r[0].text@ == line && r[0].class == SpanClass::Text
}

/// The pieces are the styled pieces, each classified under the rules.
pub open spec fn classified_as(r: Seq<ColoredSpan>, spans: Seq<StyledSpan>, rules: RuleSet) -> bool {
    &&& r.len() == spans.len()
    &&& forall|k: int|
        0 <= k < r.len() ==> {
            &&& (#[trigger] r[k]).text@ == spans[k].text@
            &&& r[k].class == span_class(
                spans[k].font_style,
                spans[k].red,
                spans[k].green,
                spans[k].blue,
                spans[k].text@,
                rules,
            )
        }
}

/// What one highlighted line is: the classified pieces of the highlighter when they
/// cover the whole line, else the line as one piece of plain text.
pub open spec fn line_outcome(
    r: Seq<ColoredSpan>,
    outcome: Result<Vec<StyledSpan>, ()>,
    line: Seq<char>,
    rules: RuleSet,
) -> bool {
    match outcome {
        Ok(spans) => if styled_text(spans@) == line {
            classified_as(r, spans@, rules)
        } else {
            is_plain(r, line)
        },
        Err(_) => is_plain(r, line),
    }
}

/// The line is either one piece of plain text or the classification of styled pieces
/// that make it up.
pub open spec fn line_from(r: Seq<ColoredSpan>, line: Seq<char>, rules: RuleSet) -> bool {
    ||| is_plain(r, line)
    ||| exists|spans: Seq<StyledSpan>| styled_text(spans) == line && classified_as(r, spans, rules)
}

/// The rules a code block's language selects.
pub open spec fn block_rules(language: Seq<char>) -> RuleSet {
    rules_for(canonical_token(lower_of(language), language))
}

fn joined_text(spans: &Vec<StyledSpan>) -> (r: String)
    ensures
        r@ == styled_text(spans@),
{
    let mut out = String::new();
    let mut k: usize = 0;
    while k < spans.len()
        invariant
            k <= spans@.len(),
            out@ == styled_text(spans@.subrange(0, k as int)),
        decreases spans@.len() - k,
    {
        assert(spans@.subrange(0, k + 1).drop_last() =~= spans@.subrange(0, k as int));
        out.append(spans[k].text.as_str());
        k += 1;
    }
    assert(spans@.subrange(0, spans@.len() as int) =~= spans@);
    out
}

/// Turns the highlighter's answer for a line into classified pieces: its pieces
/// classified when they make up the whole line, else the line as plain text.
pub fn classify_line(outcome: Result<Vec<StyledSpan>, ()>, line: String, rules: RuleSet) -> (r: Vec<
    ColoredSpan,
>)
    ensures
        line_outcome(r@, outcome, line@, rules),
        line_from(r@, line@, rules),
        line_text(r@) == line@,
{
    match outcome {
        Ok(spans) => {
            let joined = joined_text(&spans);
            if str_eq(joined.as_str(), line.as_str()) {
                let out = classify_spans(&spans, rules);
                proof {
                    lemma_classified_text(spans@, out@);
                }
                out
            } else {
                plain_line(line)
            }
        },
        Err(_) => plain_line(line),
    }
}

/// Highlights a piece of code line by line. Every line of the code, tabs expanded, is
/// either the classification, under the rules its language selects, of pieces the
/// highlighter styled and that make it up, or one piece of plain text. Without a theme
/// every line is plain text.
pub fn highlight_code(code: &str, language: &str, catalog: &SyntaxCatalog) -> (r: Vec<Vec<ColoredSpan>>)
    ensures
        r@.len() == lines_of(code@).len(),
        forall|k: int|
            0 <= k < r@.len() ==> line_text(#[trigger] r@[k]@) == expand_tabs(lines_of(code@)[k]),
        forall|k: int|
            0 <= k < r@.len() ==> line_from(
                #[trigger] r@[k]@,
                expand_tabs(lines_of(code@)[k]),
                block_rules(language@),
            ),
        catalog.theme_names().len() == 0 ==> forall|k: int|
            0 <= k < r@.len() ==> is_plain(#[trigger] r@[k]@, expand_tabs(lines_of(code@)[k])),
{
    let token = language_token(language);
    let rules = rules_for_token(token.as_str());
    let lines = split_lines(code);
    let ghost ls = lines@.map_values(|l: String| l@);
    let mut out: Vec<Vec<ColoredSpan>> = Vec::new();
    let theme_name = choose_theme(catalog);
    let grammar = find_grammar(catalog, token.as_str());
    match (theme_name, grammar) {
        (Some(name), Some(grammar)) => {
            let theme = theme_named(&catalog.themes, name.as_str());
            let mut h = start_highlighter(&grammar, theme);
            let mut k: usize = 0;
            while k < lines.len()
                invariant
                    k <= lines@.len(),
                    ls == lines@.map_values(|l: String| l@),
                    ls == lines_of(code@),
                    out@.len() == k,
                    rules == block_rules(language@),
                    catalog.theme_names().len() > 0,
                    forall|j: int|
                        0 <= j < k ==> line_text(#[trigger] out@[j]@) == expand_tabs(ls[j])
                            && line_from(out@[j]@, expand_tabs(ls[j]), rules),
                decreases lines@.len() - k,
            {
                let expanded = expand_tabs_of(lines[k].as_str());
                let outcome = highlight_line(&mut h, expanded.as_str());
                let spans = classify_line(outcome, expanded, rules);
                out.push(spans);
                k += 1;
            }
        },
        _ => {
            let mut k: usize = 0;
            while k < lines.len()
                invariant
                    k <= lines@.len(),
                    ls == lines@.map_values(|l: String| l@),
                    ls == lines_of(code@),
                    out@.len() == k,
                    forall|j: int|
                        0 <= j < k ==> line_text(#[trigger] out@[j]@) == expand_tabs(ls[j])
                            && is_plain(out@[j]@, expand_tabs(ls[j])),
                decreases lines@.len() - k,
            {
                let expanded = expand_tabs_of(lines[k].as_str());
                out.push(plain_line(expanded));
                k += 1;
            }
        },
    }
    out
}

} // verus!
