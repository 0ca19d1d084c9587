//! Style declarations in text: the value of every declaration of one
//! property is replaced, by a regular expression.

use regex::Regex;
use vstd::prelude::*;
use vstd::string::*;

verus! {

/// The expression for the declarations of a property: the property's name,
/// optional white space, a colon and optional white space as the first
/// group, then everything up to the next semicolon as the second.
pub open spec fn declaration_pattern(property: Seq<char>) -> Seq<char> {
    "("@ + property + "\\s*:\\s*)([^;]+)"@
}

/// `value` with every dollar sign doubled, which is how a replacement text
/// spells a dollar sign that stands for itself.
pub open spec fn escaped(value: Seq<char>) -> Seq<char>
    decreases value.len(),
{
    if value.len() == 0 {
        Seq::empty()
    } else if value.last() == '$' {
        escaped(value.drop_last()).push('$').push('$')
    } else {
        escaped(value.drop_last()).push(value.last())
    }
}

/// The replacement text for a declaration: the first group as it was
/// matched, then `value` as it is.
pub open spec fn replacement(value: Seq<char>) -> Seq<char> {
    "${1}"@ + escaped(value)
}

/// What `regex` makes of `text` when every match of `pattern` is replaced by
/// the expansion of `replacement`; `None` where `pattern` does not compile.
pub uninterp spec fn regex_replaced(
    pattern: Seq<char>,
    text: Seq<char>,
    replacement: Seq<char>,
) -> Option<Seq<char>>;

/// `text` with the value of every declaration of `property` replaced by
/// `value`; `text` itself where the property makes no expression.
pub open spec fn declaration_rewritten(
    text: Seq<char>,
    property: Seq<char>,
    value: Seq<char>,
) -> Seq<char> {
    match regex_replaced(declaration_pattern(property), text, replacement(value)) {
        Some(rewritten) => rewritten,
        None => text,
    }
}

/// `regex::Regex::new` and, on the expression it gives,
/// `regex::Regex::replace_all` with a replacement text. Trusted: the result
/// is a function of the three texts, and `None` stands for a pattern that
/// does not compile.
#[verifier::external_body]
fn replace_all(pattern: &str, text: &str, replacement: &str) -> (out: Option<String>)
    ensures
        match out {
            Some(rewritten) => regex_replaced(pattern@, text@, replacement@) == Some(rewritten@),
            None => regex_replaced(pattern@, text@, replacement@).is_none(),
        },
{
    match Regex::new(pattern) {
        Ok(expression) => Some(expression.replace_all(text, replacement).into_owned()),
        Err(_) => None,
    }
}

/// The expression for the declarations of `property`.
pub fn pattern_for(property: &str) -> (pattern: String)
    ensures
        pattern@ == declaration_pattern(property@),
{
    let mut pattern = String::from_str("(");
    pattern.append(property);
    pattern.append("\\s*:\\s*)([^;]+)");
    pattern
}

/// `value` with every dollar sign doubled. Each step finds its character
/// from the start of `value`, which is a short text.
pub fn escape_dollars(value: &str) -> (out: String)
    ensures
        out@ == escaped(value@),
{
    let n: usize = value.unicode_len();
    let mut out = String::new();
    let mut i: usize = 0;
    assert(value@.take(0) =~= Seq::empty());
    while i < n
        invariant
            n == value@.len(),
            i <= n,
            out@ == escaped(value@.take(i as int)),
        decreases n - i,
    {
        proof {
            reveal_strlit("$$");
            assert(value@.take(i + 1).drop_last() =~= value@.take(i as int));
            assert(value@.subrange(i as int, i + 1) =~= seq![value@[i as int]]);
        }
        if value.get_char(i) == '$' {
            out.append("$$");
            assert(out@ =~= escaped(value@.take(i as int)).push('$').push('$'));
        } else {
            out.append(value.substring_char(i, i + 1));
            assert(out@ =~= escaped(value@.take(i as int)).push(value@[i as int]));
        }
        i += 1;
    }
    assert(value@.take(n as int) =~= value@);
    out
}

/// The replacement text that keeps a declaration's head and puts `value`,
/// as it is, in place of what followed.
pub fn replacement_for(value: &str) -> (out: String)
    ensures
        out@ == replacement(value@),
{
    let mut out = String::from_str("${1}");
    let tail = escape_dollars(value);
    out.append(tail.as_str());
    out
}

/// The text that a rewrite leaves: what the expression made of it, or the
/// text as it was where there was no expression.
pub fn rewritten_or_kept(text: &str, rewritten: Option<String>) -> (out: String)
    ensures
        out@ == match rewritten {
            Some(s) => s@,
            None => text@,
        },
{
    match rewritten {
        Some(s) => s,
        None => String::from_str(text),
    }
}

/// Replaces the value of every declaration of `property` in `text` by
/// `new_value`: the property's name, the colon and the white space around
/// it stay, and what follows up to the next semicolon or the end of the text
/// gives way.
pub fn rewrite_declaration(text: &str, property: &str, new_value: &str) -> (out: String)
    ensures
        out@ == declaration_rewritten(text@, property@, new_value@),
{
    let pattern = pattern_for(property);
    let replacement = replacement_for(new_value);
    let rewritten = replace_all(pattern.as_str(), text, replacement.as_str());
    rewritten_or_kept(text, rewritten)
}

} // verus!
