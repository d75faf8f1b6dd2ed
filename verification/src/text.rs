//! Text that several modules put together: joining, debug quoting, comparison.

use vstd::prelude::*;
use vstd::string::*;

verus! {

/// `parts` in order, with `separator` between each two of them.
pub open spec fn joined(parts: Seq<Seq<char>>, separator: Seq<char>) -> Seq<char>
    decreases parts.len(),
{
    if parts.len() == 0 {
        Seq::empty()
    } else if parts.len() == 1 {
        parts[0]
    } else {
        joined(parts.drop_last(), separator) + separator + parts.last()
    }
}

/// Joining nothing gives no text, and joining one text gives that text.
pub proof fn law_single_texts_are_joined_to_themselves(part: Seq<char>, separator: Seq<char>)
    ensures
        joined(Seq::empty(), separator) == Seq::<char>::empty(),
        joined(seq![part], separator) == part,
{
}

/// Joining two lists of texts, one behind the other, gives the one joined, the separator,
/// and the other joined.
pub proof fn law_joined_texts_concatenate(
    first: Seq<Seq<char>>,
    second: Seq<Seq<char>>,
    separator: Seq<char>,
)
    requires
        first.len() > 0,
        second.len() > 0,
    ensures
        joined(first + second, separator) == joined(first, separator) + separator + joined(
            second,
            separator,
        ),
    decreases second.len(),
{
    let both = first + second;
    assert(both.drop_last() =~= first + second.drop_last());
    assert(both.last() == second.last());
    if second.len() == 1 {
        assert(both.drop_last() =~= first);
        assert(second.last() == second[0]);
    } else {
        law_joined_texts_concatenate(first, second.drop_last(), separator);
        assert(joined(first, separator) + separator + joined(second.drop_last(), separator)
            + separator + second.last() =~= joined(first, separator) + separator + (joined(
            second.drop_last(),
            separator,
        ) + separator + second.last()));
    }
}

/// Joins `parts` with `separator` between each two of them.
pub fn join(parts: &Vec<String>, separator: &str) -> (text: String)
    ensures
        text@ == joined(parts.deep_view(), separator@),
{
    let mut text = String::new();
    let ghost views = parts.deep_view();
    for i in 0..parts.len()
        invariant
            views == parts.deep_view(),
            text@ == joined(views.take(i as int), separator@),
    {
        if i > 0 {
            text.append(separator);
        }
        text.append(parts[i].as_str());
        proof {
            assert(views.take(i + 1).drop_last() =~= views.take(i as int));
            assert(views.take(i + 1).last() == parts[i as int]@);
            assert(Seq::<char>::empty() + parts[i as int]@ =~= parts[i as int]@);
        }
    }
    proof {
        assert(views.take(parts.len() as int) =~= views);
    }
    text
}

/// What `Debug` prints for a string: the text in double quotes, escaped.
pub uninterp spec fn debug_quoted(text: Seq<char>) -> Seq<char>;

/// Calls `std`'s `Debug` for `str`. The contract only names the result: it is fixed
/// by the text alone.
#[verifier::external_body]
pub(crate) fn debug_quote(text: &str) -> (quoted: String)
    ensures
        quoted@ == debug_quoted(text@),
{
    format!("{text:?}")
}

/// Calls `std`'s `==` on `str`: two strings are equal when their characters are.
#[verifier::external_body]
pub(crate) fn same_text(left: &str, right: &str) -> (same: bool)
    ensures
        same == (left@ == right@),
{
    left == right
}

/// `std`'s `String::push` appends one character.
pub assume_specification[ std::string::String::push ](s: &mut std::string::String, c: char)
    ensures
        final(s)@ == old(s)@.push(c),
;

/// Whether `text` is one of `texts`.
pub fn contains_text(texts: &[&str], text: &str) -> (found: bool)
    ensures
        found == texts.deep_view().contains(text@),
{
    for i in 0..texts.len()
        invariant
            forall|j: int| 0 <= j < i ==> texts@[j]@ != text@,
    {
        if same_text(texts[i], text) {
            proof {
                assert(texts.deep_view()[i as int] == text@);
            }
            return true;
        }
    }
    false
}

} // verus!
