//! Value templates: a text in which every `{{ value }}` stands for the
//! current value of a property.

use vstd::prelude::*;

verus! {

/// `text` with every occurrence of `pattern` replaced by `with`, found from
/// the left, an occurrence starting no sooner than the one before it ends.
pub open spec fn substitute(text: Seq<char>, pattern: Seq<char>, with: Seq<char>) -> Seq<char>
    decreases text.len(),
{
    if pattern.len() == 0 || text.len() < pattern.len() {
        text
    } else if text.subrange(0, pattern.len() as int) == pattern {
        with + substitute(text.subrange(pattern.len() as int, text.len() as int), pattern, with)
    } else {
        seq![text[0]] + substitute(text.subrange(1, text.len() as int), pattern, with)
    }
}

/// The place in a template where the value goes.
pub open spec fn placeholder() -> Seq<char> {
    "{{ value }}"@
}

/// The text that a template yields for a value.
pub open spec fn rendered(template: Seq<char>, value: Seq<char>) -> Seq<char> {
    substitute(template, placeholder(), value)
}

/// `str::replace` of the standard library, for a pattern that is not empty:
/// every match of `pattern` in `text`, the matches taken from the left and
/// not overlapping, gives way to `with`.
#[verifier::external_body]
fn replace_all(text: &str, pattern: &str, with: &str) -> (r: String)
    ensures
        pattern@.len() > 0 ==> r@ == substitute(text@, pattern@, with@),
{
    text.replace(pattern, with)
}

/// Renders `template` with `value` in place of each `{{ value }}`.
pub fn render(template: &str, value: &str) -> (r: String)
    ensures
        r@ == rendered(template@, value@),
{
    proof {
        reveal_strlit("{{ value }}");
    }
    replace_all(template, "{{ value }}", value)
}

} // verus!
