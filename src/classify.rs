use vstd::prelude::*;
use vstd::string::*;
use crate::highlight::{ColoredSpan, SpanClass};
use crate::text::{
    contains_char, ends_with, first_uppercase, is_number_like, lower_of, number_like, starts_uppercase,
    starts_with, str_eq, to_lower,
};

verus! {

/// The family of fallback rules used for a language.
#[derive(Clone, Copy, Debug, PartialEq, Eq, Structural)]
pub enum RuleSet {
    /// JavaScript-like.
    Script,
    /// HTML-like.
    Markup,
    /// CSS-like.
    Stylesheet,
    /// Rust-like, used for every other language.
    Generic,
}

/// One piece of a highlighted line as the highlighting engine styled it.
pub struct StyledSpan {
    /// The font style bits: bold 1, underline 2, italic 4.
    pub font_style: u8,
    pub red: u8,
    pub green: u8,
    pub blue: u8,
    pub text: String,
}

/// The bit of the font style that marks italic text.
pub const ITALIC: u8 = 4;

/// The canonical grammar token of a language name, given its lower-case form; a name
/// with no known alias is kept as it was written.
pub open spec fn canonical_token(lowered: Seq<char>, original: Seq<char>) -> Seq<char> {
    if lowered == "js"@ || lowered == "javascript"@ {
        "js"@
    } else if lowered == "css"@ {
        "css"@
    } else if lowered == "html"@ {
        "html"@
    } else if lowered == "typescript"@ || lowered == "ts"@ {
        "typescript"@
    } else if lowered == "python"@ || lowered == "py"@ {
        "python"@
    } else if lowered == "ruby"@ || lowered == "rb"@ {
        "ruby"@
    } else if lowered == "rust"@ || lowered == "rs"@ {
        "rust"@
    } else if lowered == "go"@ {
        "go"@
    } else if lowered == "java"@ {
        "java"@
    } else if lowered == "c"@ {
        "c"@
    } else if lowered == "cpp"@ || lowered == "c++"@ {
        "cpp"@
    } else if lowered == "csharp"@ || lowered == "c#"@ {
        "cs"@
    } else if lowered == "php"@ {
        "php"@
    } else if lowered == "shell"@ || lowered == "bash"@ || lowered == "sh"@ {
        "bash"@
    } else if lowered == "yaml"@ || lowered == "yml"@ {
        "yaml"@
    } else if lowered == "json"@ {
        "json"@
    } else if lowered == "markdown"@ || lowered == "md"@ {
        "markdown"@
    } else if lowered == "sql"@ {
        "sql"@
    } else {
        original
    }
}

/// The fallback rules for a canonical token.
pub open spec fn rules_for(token: Seq<char>) -> RuleSet {
    if token == "js"@ {
        RuleSet::Script
    } else if token == "html"@ {
        RuleSet::Markup
    } else if token == "css"@ {
        RuleSet::Stylesheet
    } else {
        RuleSet::Generic
    }
}

/// The class that a foreground colour of the palette stands for.
pub open spec fn palette_class(red: u8, green: u8, blue: u8) -> Option<SpanClass> {
    if red == 255 && green == 121 && blue == 198 {
        Some(SpanClass::Keyword)
    } else if red == 80 && green == 250 && blue == 123 {
        Some(SpanClass::Function)
    } else if red == 98 && green == 114 && blue == 164 {
        Some(SpanClass::Comment)
    } else if red == 241 && green == 250 && blue == 140 {
        Some(SpanClass::StringLit)
    } else if red == 189 && green == 147 && blue == 249 {
        Some(SpanClass::Number)
    } else if red == 139 && green == 233 && blue == 253 {
        Some(SpanClass::Type)
    } else if red == 248 && green == 248 && blue == 242 {
        Some(SpanClass::Text)
    } else {
        None
    }
}

/// The text opens and closes with the quote `q`.
pub open spec fn quoted(t: Seq<char>, q: Seq<char>) -> bool {
    q.is_prefix_of(t) && q.is_suffix_of(t)
}

/// Fallback rules for JavaScript-like code.
pub open spec fn script_class(t: Seq<char>) -> SpanClass {
    if t == "function"@ || t == "const"@ || t == "let"@ || t == "var"@ || t == "return"@ {
        SpanClass::Keyword
    } else if t == "true"@ || t == "false"@ {
        SpanClass::Bool
    } else if quoted(t, "\""@) || quoted(t, "'"@) {
        SpanClass::StringLit
    } else if "<"@.is_prefix_of(t) && ">"@.is_suffix_of(t) {
        SpanClass::Type
    } else if is_number_like(t) {
        SpanClass::Number
    } else if "//"@.is_prefix_of(t) {
        SpanClass::Comment
    } else if starts_uppercase(t) {
        SpanClass::Type
    } else {
        SpanClass::Text
    }
}

/// Fallback rules for HTML-like code.
pub open spec fn markup_class(t: Seq<char>) -> SpanClass {
    if "<"@.is_prefix_of(t) && t.contains('>') {
        SpanClass::Keyword
    } else if quoted(t, "\""@) {
        SpanClass::StringLit
    } else if "<!--"@.is_prefix_of(t) || "-->"@.is_suffix_of(t) {
        SpanClass::Comment
    } else {
        SpanClass::Text
    }
}

/// Fallback rules for CSS-like code.
pub open spec fn style_class(t: Seq<char>) -> SpanClass {
    if ":"@.is_suffix_of(t) {
        SpanClass::Keyword
    } else if "."@.is_prefix_of(t) || "#"@.is_prefix_of(t) {
        SpanClass::Type
    } else if "px"@.is_suffix_of(t) || "em"@.is_suffix_of(t) || "rem"@.is_suffix_of(t)
        || "%"@.is_suffix_of(t) {
        SpanClass::Number
    } else if "#"@.is_prefix_of(t) && (t.len() == 4 || t.len() == 7) {
        SpanClass::StringLit
    } else if "/*"@.is_prefix_of(t) || "*/"@.is_suffix_of(t) {
        SpanClass::Comment
    } else {
        SpanClass::Text
    }
}

/// Fallback rules for Rust-like code, used for every other language.
pub open spec fn generic_class(t: Seq<char>) -> SpanClass {
    if "#[derive"@.is_prefix_of(t) || "#["@.is_prefix_of(t) || "@"@.is_prefix_of(t) {
        SpanClass::Attribute
    } else if t == "true"@ || t == "false"@ {
        SpanClass::Bool
    } else if "fn "@.is_prefix_of(t) || "struct "@.is_prefix_of(t) || "enum "@.is_prefix_of(t) {
        SpanClass::Keyword
    } else if t == "let"@ || t == "mut"@ || t == "const"@ || t == "return"@ {
        SpanClass::Keyword
    } else if is_number_like(t) {
        SpanClass::Number
    } else if quoted(t, "\""@) {
        SpanClass::StringLit
    } else if "//"@.is_prefix_of(t) {
        SpanClass::Comment
    } else if starts_uppercase(t) {
        SpanClass::Type
    } else {
        SpanClass::Text
    }
}

/// The class the fallback rules give to a piece of text.
pub open spec fn fallback_class(rules: RuleSet, t: Seq<char>) -> SpanClass {
    match rules {
        RuleSet::Script => script_class(t),
        RuleSet::Markup => markup_class(t),
        RuleSet::Stylesheet => style_class(t),
        RuleSet::Generic => generic_class(t),
    }
}

/// The class of a styled piece of code: italic text is a type; otherwise the palette
/// decides, and where it has no entry for the colour, the fallback rules do.
pub open spec fn span_class(
    font_style: u8,
    red: u8,
    green: u8,
    blue: u8,
    t: Seq<char>,
    rules: RuleSet,
) -> SpanClass {
    if font_style & ITALIC != 0 {
        SpanClass::Type
    } else {
        match palette_class(red, green, blue) {
            Some(c) => c,
            None => fallback_class(rules, t),
        }
    }
}

/// The canonical grammar token of a language name, given its lower-case form.
pub fn canonical_language(lowered: &str, original: &str) -> (r: String)
    ensures
        r@ == canonical_token(lowered@, original@),
{
    let l = lowered;
    if str_eq(l, "js") || str_eq(l, "javascript") {
        String::from_str("js")
    } else if str_eq(l, "css") {
        String::from_str("css")
    } else if str_eq(l, "html") {
        String::from_str("html")
    } else if str_eq(l, "typescript") || str_eq(l, "ts") {
        String::from_str("typescript")
    } else if str_eq(l, "python") || str_eq(l, "py") {
        String::from_str("python")
    } else if str_eq(l, "ruby") || str_eq(l, "rb") {
        String::from_str("ruby")
    } else if str_eq(l, "rust") || str_eq(l, "rs") {
        String::from_str("rust")
    } else if str_eq(l, "go") {
        String::from_str("go")
    } else if str_eq(l, "java") {
        String::from_str("java")
    } else if str_eq(l, "c") {
        String::from_str("c")
    } else if str_eq(l, "cpp") || str_eq(l, "c++") {
        String::from_str("cpp")
    } else if str_eq(l, "csharp") || str_eq(l, "c#") {
        String::from_str("cs")
    } else if str_eq(l, "php") {
        String::from_str("php")
    } else if str_eq(l, "shell") || str_eq(l, "bash") || str_eq(l, "sh") {
        String::from_str("bash")
    } else if str_eq(l, "yaml") || str_eq(l, "yml") {
        String::from_str("yaml")
    } else if str_eq(l, "json") {
        String::from_str("json")
    } else if str_eq(l, "markdown") || str_eq(l, "md") {
        String::from_str("markdown")
    } else if str_eq(l, "sql") {
        String::from_str("sql")
    } else {
        String::from_str(original)
    }
}

/// The canonical grammar token of a language name as written on a code fence.
pub fn language_token(language: &str) -> (r: String)
    ensures
        r@ == canonical_token(lower_of(language@), language@),
{
    let lowered = to_lower(language);
    canonical_language(lowered.as_str(), language)
}

/// The fallback rules for a canonical token.
pub fn rules_for_token(token: &str) -> (r: RuleSet)
    ensures
        r == rules_for(token@),
{
    if str_eq(token, "js") {
        RuleSet::Script
    } else if str_eq(token, "html") {
        RuleSet::Markup
    } else if str_eq(token, "css") {
        RuleSet::Stylesheet
    } else {
        RuleSet::Generic
    }
}

/// The class of a foreground colour of the palette, if it has one.
pub fn palette_lookup(red: u8, green: u8, blue: u8) -> (r: Option<SpanClass>)
    ensures
        r == palette_class(red, green, blue),
{
    if red == 255 && green == 121 && blue == 198 {
        Some(SpanClass::Keyword)
    } else if red == 80 && green == 250 && blue == 123 {
        Some(SpanClass::Function)
    } else if red == 98 && green == 114 && blue == 164 {
        Some(SpanClass::Comment)
    } else if red == 241 && green == 250 && blue == 140 {
        Some(SpanClass::StringLit)
    } else if red == 189 && green == 147 && blue == 249 {
        Some(SpanClass::Number)
    } else if red == 139 && green == 233 && blue == 253 {
        Some(SpanClass::Type)
    } else if red == 248 && green == 248 && blue == 242 {
        Some(SpanClass::Text)
    } else {
        None
    }
}

fn is_quoted(t: &str, q: &str) -> (r: bool)
    ensures
        r == quoted(t@, q@),
{
    starts_with(t, q) && ends_with(t, q)
}

/// The class the fallback rules give to a piece of text.
pub fn fallback(rules: RuleSet, t: &str) -> (r: SpanClass)
    ensures
        r == fallback_class(rules, t@),
{
    match rules {
        RuleSet::Script => {
            if str_eq(t, "function") || str_eq(t, "const") || str_eq(t, "let") || str_eq(t, "var")
                || str_eq(t, "return") {
                SpanClass::Keyword
            } else if str_eq(t, "true") || str_eq(t, "false") {
                SpanClass::Bool
            } else if is_quoted(t, "\"") || is_quoted(t, "'") {
                SpanClass::StringLit
            } else if starts_with(t, "<") && ends_with(t, ">") {
                SpanClass::Type
            } else if number_like(t) {
                SpanClass::Number
            } else if starts_with(t, "//") {
                SpanClass::Comment
            } else if first_uppercase(t) {
                SpanClass::Type
            } else {
                SpanClass::Text
            }
        },
        RuleSet::Markup => {
            if starts_with(t, "<") && contains_char(t, '>') {
                SpanClass::Keyword
            } else if is_quoted(t, "\"") {
                SpanClass::StringLit
            } else if starts_with(t, "<!--") || ends_with(t, "-->") {
                SpanClass::Comment
            } else {
                SpanClass::Text
            }
        },
        RuleSet::Stylesheet => {
            if ends_with(t, ":") {
                SpanClass::Keyword
            } else if starts_with(t, ".") || starts_with(t, "#") {
                SpanClass::Type
            } else if ends_with(t, "px") || ends_with(t, "em") || ends_with(t, "rem") || ends_with(
                t,
                "%",
            ) {
                SpanClass::Number
            } else if starts_with(t, "#") && (t.unicode_len() == 4 || t.unicode_len() == 7) {
                SpanClass::StringLit
            } else if starts_with(t, "/*") || ends_with(t, "*/") {
                SpanClass::Comment
            } else {
                SpanClass::Text
            }
        },
        RuleSet::Generic => {
            if starts_with(t, "#[derive") || starts_with(t, "#[") || starts_with(t, "@") {
                SpanClass::Attribute
            } else if str_eq(t, "true") || str_eq(t, "false") {
                SpanClass::Bool
            } else if starts_with(t, "fn ") || starts_with(t, "struct ") || starts_with(t, "enum ") {
                SpanClass::Keyword
            } else if str_eq(t, "let") || str_eq(t, "mut") || str_eq(t, "const") || str_eq(
                t,
                "return",
            ) {
                SpanClass::Keyword
            } else if number_like(t) {
                SpanClass::Number
            } else if is_quoted(t, "\"") {
                SpanClass::StringLit
            } else if starts_with(t, "//") {
                SpanClass::Comment
            } else if first_uppercase(t) {
                SpanClass::Type
            } else {
                SpanClass::Text
            }
        },
    }
}

/// The class of one styled piece of code.
pub fn classify_span(span: &StyledSpan, rules: RuleSet) -> (r: SpanClass)
    ensures
        r == span_class(span.font_style, span.red, span.green, span.blue, span.text@, rules),
{
    if span.font_style & ITALIC != 0 {
        SpanClass::Type
    } else {
        match palette_lookup(span.red, span.green, span.blue) {
            Some(c) => c,
            None => fallback(rules, span.text.as_str()),
        }
    }
}

/// Classifies every piece of a highlighted line, keeping the text of each.
pub fn classify_spans(spans: &Vec<StyledSpan>, rules: RuleSet) -> (r: Vec<ColoredSpan>)
    ensures
        r@.len() == spans@.len(),
        forall|k: int|
            0 <= k < r@.len() ==> {
                &&& (#[trigger] r@[k]).text@ == spans@[k].text@
                &&& r@[k].class == span_class(
                    spans@[k].font_style,
                    spans@[k].red,
                    spans@[k].green,
                    spans@[k].blue,
                    spans@[k].text@,
                    rules,
                )
            },
{
    let mut out: Vec<ColoredSpan> = Vec::new();
    let mut k: usize = 0;
    while k < spans.len()
        invariant
            k <= spans@.len(),
            out@.len() == k,
            forall|j: int|
                0 <= j < k ==> {
                    &&& (#[trigger] out@[j]).text@ == spans@[j].text@
                    &&& out@[j].class == span_class(
                        spans@[j].font_style,
                        spans@[j].red,
                        spans@[j].green,
                        spans@[j].blue,
                        spans@[j].text@,
                        rules,
                    )
                },
        decreases spans@.len() - k,
    {
        let class = classify_span(&spans[k], rules);
        out.push(ColoredSpan { text: spans[k].text.clone(), class });
        k += 1;
    }
    out
}

/// The class of a span depends on its style, colour, text and rules alone.
pub proof fn lemma_classification_deterministic(
    a: StyledSpan,
    b: StyledSpan,
    rules: RuleSet,
)
    requires
        a.font_style == b.font_style,
        a.red == b.red,
        a.green == b.green,
        a.blue == b.blue,
        a.text@ == b.text@,
    ensures
        span_class(a.font_style, a.red, a.green, a.blue, a.text@, rules) == span_class(
            b.font_style,
            b.red,
            b.green,
            b.blue,
            b.text@,
            rules,
        ),
{
}

} // verus!
