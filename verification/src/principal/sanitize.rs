//! Cleaning of provider text.
//!
//! Providers are out of this library's control: nothing upstream keeps control
//! characters, escape sequences or long internal diagnostics out of their text. What
//! leaves this module is printable ASCII in single-spaced words, of bounded length.

use crate::text::joined;
use vstd::prelude::*;
use vstd::string::*;

verus! {

/// The longest text that is passed on uncut.
pub const MAX_PROVIDER_DETAIL_LEN: usize = 200;

/// What follows a text that was cut, so that readers do not take it to end there.
pub const TRUNCATION_MARKER: &'static str = "...(truncated)";

/// Whether `c` is a visible ASCII character.
pub open spec fn is_graphic(c: char) -> bool {
    '!' <= c <= '~'
}

/// Whether `c` has the Unicode property `White_Space`.
pub open spec fn is_white_space(c: char) -> bool {
    let code = c as u32;
    ||| 0x9 <= code <= 0xD
    ||| code == 0x20
    ||| code == 0x85
    ||| code == 0xA0
    ||| code == 0x1680
    ||| 0x2000 <= code <= 0x200A
    ||| code == 0x2028
    ||| code == 0x2029
    ||| code == 0x202F
    ||| code == 0x205F
    ||| code == 0x3000
}

/// `std`'s `char::is_whitespace` tells whether a character has the property
/// `White_Space` of the Unicode Character Database.
pub assume_specification[ char::is_whitespace ](c: char) -> (answer: bool)
    ensures
        answer == is_white_space(c),
;

/// The visible ASCII characters of `text`, with a space for each white space. All else
/// is dropped, non-ASCII text included: it could hide what a text says.
pub open spec fn printable(text: Seq<char>) -> Seq<char>
    decreases text.len(),
{
    if text.len() == 0 {
        Seq::empty()
    } else {
        let front = printable(text.drop_last());
        let c = text.last();
        if is_graphic(c) {
            front.push(c)
        } else if is_white_space(c) {
            front.push(' ')
        } else {
            front
        }
    }
}

/// The words of a text, which spaces separate.
pub open spec fn words(text: Seq<char>) -> Seq<Seq<char>>
    decreases text.len(),
{
    if text.len() == 0 {
        Seq::empty()
    } else {
        let front = text.drop_last();
        let c = text.last();
        if c == ' ' {
            words(front)
        } else if front.len() == 0 || front.last() == ' ' {
            words(front).push(seq![c])
        } else {
            words(front).drop_last().push(words(front).last().push(c))
        }
    }
}

/// The words of the printable part of a text, with one space between each two.
pub open spec fn collapsed(text: Seq<char>) -> Seq<char> {
    joined(words(printable(text)), seq![' '])
}

/// A provider text as it may be passed on.
pub open spec fn sanitized(text: Seq<char>) -> Seq<char> {
    let clean = collapsed(text);
    if clean.len() <= MAX_PROVIDER_DETAIL_LEN {
        clean
    } else {
        clean.take(MAX_PROVIDER_DETAIL_LEN as int) + TRUNCATION_MARKER@
    }
}

/// Where words begin and end: after a visible character there is a word to continue.
proof fn lemma_words(text: Seq<char>)
    ensures
        text.len() > 0 && text.last() != ' ' ==> words(text).len() > 0,
        forall|i: int| 0 <= i < words(text).len() ==> (#[trigger] words(text)[i]).len() > 0,
    decreases text.len(),
{
    if text.len() > 0 {
        lemma_words(text.drop_last());
    }
}

/// How the joined words grow with one more character.
proof fn lemma_joined_words_grow(text: Seq<char>, c: char)
    ensures
        ({
            let before = joined(words(text), seq![' ']);
            let after = joined(words(text.push(c)), seq![' ']);
            &&& c == ' ' ==> after == before
            &&& c != ' ' && text.len() > 0 && text.last() != ' ' ==> after == before.push(c)
            &&& c != ' ' && (text.len() == 0 || text.last() == ' ') ==> after == if before.len()
                == 0 {
                seq![c]
            } else {
                before.push(' ').push(c)
            }
            &&& before.len() == 0 <==> words(text).len() == 0
        }),
{
    lemma_words(text);
    assert(text.push(c).drop_last() =~= text);
    let ws = words(text);
    let before = joined(ws, seq![' ']);
    if ws.len() > 1 {
        assert(before == joined(ws.drop_last(), seq![' ']) + seq![' '] + ws.last());
    }
    if ws.len() > 0 {
        assert(ws[ws.len() - 1].len() > 0);
    }
    if c != ' ' {
        if text.len() == 0 || text.last() == ' ' {
            let next = ws.push(seq![c]);
            assert(next.drop_last() =~= ws);
            if ws.len() > 0 {
                assert(before + seq![' '] + seq![c] =~= before.push(' ').push(c));
            }
        } else {
            let next = ws.drop_last().push(ws.last().push(c));
            assert(next.drop_last() =~= ws.drop_last());
            if ws.len() == 1 {
                assert(ws.last() == ws[0]);
            } else {
                let front = joined(ws.drop_last(), seq![' ']) + seq![' '];
                assert(front + ws.last().push(c) =~= (front + ws.last()).push(c));
            }
        }
    }
}

/// Every character is visible ASCII or a space, none of the spaces is first or last,
/// and no two of them are next to each other.
pub open spec fn is_single_spaced(text: Seq<char>) -> bool {
    &&& forall|i: int|
        0 <= i < text.len() ==> '!' <= #[trigger] text[i] <= '~' || text[i] == ' '
    &&& text.len() > 0 ==> text[0] != ' ' && text.last() != ' '
    &&& forall|i: int|
        0 <= i < text.len() - 1 && #[trigger] text[i] == ' ' ==> text[i + 1] != ' '
}

proof fn lemma_printable_alphabet(text: Seq<char>)
    ensures
        forall|i: int|
            0 <= i < printable(text).len() ==> is_graphic(#[trigger] printable(text)[i])
                || printable(text)[i] == ' ',
    decreases text.len(),
{
    if text.len() > 0 {
        let front = printable(text.drop_last());
        lemma_printable_alphabet(text.drop_last());
        assert forall|i: int| 0 <= i < printable(text).len() implies is_graphic(
            #[trigger] printable(text)[i],
        ) || printable(text)[i] == ' ' by {
            if i < front.len() {
                assert(printable(text)[i] == front[i]);
            }
        }
    }
}

proof fn lemma_joined_words_single_spaced(text: Seq<char>)
    requires
        forall|i: int| 0 <= i < text.len() ==> is_graphic(#[trigger] text[i]) || text[i] == ' ',
    ensures
        is_single_spaced(joined(words(text), seq![' '])),
    decreases text.len(),
{
    if text.len() > 0 {
        let front = text.drop_last();
        assert(forall|i: int| 0 <= i < front.len() ==> front[i] == text[i]);
        lemma_joined_words_single_spaced(front);
        lemma_joined_words_grow(front, text.last());
        assert(front.push(text.last()) =~= text);
        assert(is_graphic(text[text.len() - 1]) || text[text.len() - 1] == ' ');
    }
}

/// What is left of a text before it is cut is visible ASCII in single-spaced words.
pub proof fn law_collapsed_text_is_single_spaced(text: Seq<char>)
    ensures
        is_single_spaced(collapsed(text)),
{
    lemma_printable_alphabet(text);
    lemma_joined_words_single_spaced(printable(text));
}

/// The printable part of text in the output alphabet is the text itself.
proof fn lemma_printable_keeps(text: Seq<char>)
    requires
        forall|i: int| 0 <= i < text.len() ==> is_graphic(#[trigger] text[i]) || text[i] == ' ',
    ensures
        printable(text) == text,
    decreases text.len(),
{
    if text.len() > 0 {
        let front = text.drop_last();
        assert(forall|i: int| 0 <= i < front.len() ==> front[i] == text[i]);
        lemma_printable_keeps(front);
        let c = text[text.len() - 1];
        assert(is_graphic(c) || c == ' ');
        assert(front.push(c) =~= text);
    }
}

/// Text that starts with a word and has no two spaces in a row is the join of its
/// words, but for a space at the end.
proof fn lemma_joined_words_keep(text: Seq<char>)
    requires
        text.len() > 0 ==> text[0] != ' ',
        forall|i: int|
            0 <= i < text.len() - 1 && #[trigger] text[i] == ' ' ==> text[i + 1] != ' ',
    ensures
        text.len() == 0 || text.last() != ' ' ==> joined(words(text), seq![' '])
            == text,
        text.len() > 0 && text.last() == ' ' ==> joined(words(text), seq![' '])
            == text.drop_last(),
    decreases text.len(),
{
    if text.len() > 0 {
        let front = text.drop_last();
        let c = text.last();
        assert(forall|i: int| 0 <= i < front.len() ==> front[i] == text[i]);
        assert forall|i: int|
            0 <= i < front.len() - 1 && #[trigger] front[i] == ' ' implies front[i + 1] != ' ' by {
            assert(text[i] == ' ');
        }
        lemma_joined_words_keep(front);
        lemma_joined_words_grow(front, c);
        assert(front.push(c) =~= text);
        if front.len() > 0 && front.last() == ' ' {
            assert(text[front.len() - 1] == ' ');
            assert(c != ' ');
            assert(front.drop_last().push(' ') =~= front);
            assert(front.len() > 1);
        }
    }
}

/// Text that is already clean and short enough passes unchanged.
pub proof fn law_clean_text_passes(text: Seq<char>)
    requires
        is_single_spaced(text),
        text.len() <= MAX_PROVIDER_DETAIL_LEN,
    ensures
        sanitized(text) == text,
{
    lemma_printable_keeps(text);
    lemma_joined_words_keep(text);
}

proof fn lemma_marker()
    ensures
        TRUNCATION_MARKER@.len() == 14,
        forall|i: int| 0 <= i < 14 ==> is_graphic(#[trigger] TRUNCATION_MARKER@[i]),
{
    reveal_strlit("...(truncated)");
}

/// Sanitized text holds visible ASCII and single spaces only: no control character,
/// no escape sequence, nothing outside ASCII.
pub proof fn law_sanitized_text_is_single_spaced(text: Seq<char>)
    ensures
        is_single_spaced(sanitized(text)),
{
    law_collapsed_text_is_single_spaced(text);
    lemma_marker();
    let clean = collapsed(text);
    if clean.len() > MAX_PROVIDER_DETAIL_LEN {
        let cut = clean.take(MAX_PROVIDER_DETAIL_LEN as int);
        let out = sanitized(text);
        assert(out[0] == clean[0]);
        assert(out.last() == TRUNCATION_MARKER@[13]);
        assert forall|i: int| 0 <= i < out.len() implies is_graphic(#[trigger] out[i]) || out[i]
            == ' ' by {
            if i < cut.len() {
                assert(out[i] == clean[i]);
            } else {
                assert(out[i] == TRUNCATION_MARKER@[i - cut.len()]);
            }
        }
        assert forall|i: int| 0 <= i < out.len() - 1 && #[trigger] out[i] == ' ' implies out[i + 1]
            != ' ' by {
            if i + 1 < cut.len() {
                assert(clean[i] == ' ');
                assert(out[i + 1] == clean[i + 1]);
            } else {
                assert(out[i + 1] == TRUNCATION_MARKER@[i + 1 - cut.len()]);
            }
        }
    }
}

/// Sanitized text is at most as long as the limit and the marker together; it ends
/// in the marker, after exactly the limit, when the clean text is longer.
pub proof fn law_sanitized_text_is_bounded(text: Seq<char>)
    ensures
        sanitized(text).len() <= MAX_PROVIDER_DETAIL_LEN + TRUNCATION_MARKER@.len(),
        collapsed(text).len() <= MAX_PROVIDER_DETAIL_LEN ==> sanitized(text) == collapsed(text),
        collapsed(text).len() > MAX_PROVIDER_DETAIL_LEN ==> {
            &&& sanitized(text).len() == MAX_PROVIDER_DETAIL_LEN + TRUNCATION_MARKER@.len()
            &&& sanitized(text).take(MAX_PROVIDER_DETAIL_LEN as int) == collapsed(text).take(
                MAX_PROVIDER_DETAIL_LEN as int,
            )
            &&& sanitized(text).skip(MAX_PROVIDER_DETAIL_LEN as int) == TRUNCATION_MARKER@
        },
{
    let clean = collapsed(text);
    if clean.len() > MAX_PROVIDER_DETAIL_LEN {
        let out = sanitized(text);
        assert(out.take(MAX_PROVIDER_DETAIL_LEN as int) =~= clean.take(
            MAX_PROVIDER_DETAIL_LEN as int,
        ));
        assert(out.skip(MAX_PROVIDER_DETAIL_LEN as int) =~= TRUNCATION_MARKER@);
    }
}

/// Sanitizing sanitized text changes nothing.
pub proof fn law_sanitizing_twice_is_sanitizing_once(text: Seq<char>)
    ensures
        sanitized(sanitized(text)) == sanitized(text),
{
    let out = sanitized(text);
    law_sanitized_text_is_single_spaced(text);
    law_sanitized_text_is_bounded(text);
    lemma_marker();
    lemma_printable_keeps(out);
    lemma_joined_words_keep(out);
    assert(collapsed(out) == out);
    if out.len() > MAX_PROVIDER_DETAIL_LEN {
        assert(out.take(MAX_PROVIDER_DETAIL_LEN as int) + TRUNCATION_MARKER@ =~= out);
    }
}

proof fn lemma_printable_concatenates(first: Seq<char>, second: Seq<char>)
    ensures
        printable(first + second) == printable(first) + printable(second),
    decreases second.len(),
{
    if second.len() == 0 {
        assert(first + second =~= first);
    } else {
        assert((first + second).drop_last() =~= first + second.drop_last());
        lemma_printable_concatenates(first, second.drop_last());
    }
}

/// What follows in a text only depends on the words so far, and on whether the next
/// character begins a word.
proof fn lemma_joined_words_continue(one: Seq<char>, other: Seq<char>, rest: Seq<char>)
    requires
        joined(words(one), seq![' ']) == joined(words(other), seq![' ']),
        (one.len() == 0 || one.last() == ' ') == (other.len() == 0 || other.last() == ' '),
    ensures
        joined(words(one + rest), seq![' ']) == joined(words(other + rest), seq![' ']),
        ((one + rest).len() == 0 || (one + rest).last() == ' ') == ((other + rest).len() == 0 || (
        other + rest).last() == ' '),
    decreases rest.len(),
{
    if rest.len() == 0 {
        assert(one + rest =~= one);
        assert(other + rest =~= other);
    } else {
        let front = rest.drop_last();
        let c = rest.last();
        lemma_joined_words_continue(one, other, front);
        lemma_joined_words_grow(one + front, c);
        lemma_joined_words_grow(other + front, c);
        assert((one + front).push(c) =~= one + rest);
        assert((other + front).push(c) =~= other + rest);
    }
}

/// A character that is neither visible ASCII nor white space makes no difference,
/// wherever it stands.
pub proof fn law_other_characters_make_no_difference(
    before: Seq<char>,
    c: char,
    after: Seq<char>,
)
    requires
        !('!' <= c <= '~'),
        !is_white_space(c),
    ensures
        sanitized(before.push(c) + after) == sanitized(before + after),
{
    lemma_printable_concatenates(before.push(c), after);
    lemma_printable_concatenates(before, after);
    assert(before.push(c).drop_last() =~= before);
}

/// Any white space does what a space does, wherever it stands.
pub proof fn law_white_space_is_a_space(before: Seq<char>, c: char, after: Seq<char>)
    requires
        is_white_space(c),
    ensures
        sanitized(before.push(c) + after) == sanitized(before.push(' ') + after),
{
    lemma_printable_concatenates(before.push(c), after);
    lemma_printable_concatenates(before.push(' '), after);
    assert(before.push(c).drop_last() =~= before);
    assert(before.push(' ').drop_last() =~= before);
}

/// Two spaces in a row do what one does, wherever they stand.
pub proof fn law_spaces_collapse(before: Seq<char>, after: Seq<char>)
    ensures
        sanitized(before.push(' ').push(' ') + after) == sanitized(before.push(' ') + after),
{
    let one = before.push(' ');
    let two = one.push(' ');
    lemma_printable_concatenates(two, after);
    lemma_printable_concatenates(one, after);
    assert(two.drop_last() =~= one);
    assert(one.drop_last() =~= before);
    lemma_joined_words_grow(printable(one), ' ');
    lemma_joined_words_continue(printable(two), printable(one), printable(after));
}

/// A space in front of a text, or behind it, makes no difference.
pub proof fn law_outer_spaces_make_no_difference(text: Seq<char>)
    ensures
        sanitized(seq![' '] + text) == sanitized(text),
        sanitized(text.push(' ')) == sanitized(text),
{
    let space = seq![' '];
    let nothing = Seq::<char>::empty();
    assert(space.drop_last() =~= nothing);
    assert(printable(nothing) =~= nothing);
    assert(printable(space) =~= space);
    lemma_printable_concatenates(space, text);
    assert(nothing.push(' ') =~= space);
    lemma_joined_words_grow(nothing, ' ');
    lemma_joined_words_continue(space, nothing, printable(text));
    assert(nothing + printable(text) =~= printable(text));
    assert(text.push(' ').drop_last() =~= text);
    lemma_joined_words_grow(printable(text), ' ');
}

/// Clean text that is too long keeps its beginning, up to the limit, and gets the marker.
pub proof fn law_long_text_keeps_its_beginning(text: Seq<char>)
    requires
        is_single_spaced(text),
        text.len() > MAX_PROVIDER_DETAIL_LEN,
    ensures
        sanitized(text) == text.take(MAX_PROVIDER_DETAIL_LEN as int) + TRUNCATION_MARKER@,
{
    lemma_printable_keeps(text);
    lemma_joined_words_keep(text);
}

/// Cleans a provider text before it can reach the wire: keeps visible ASCII, makes one
/// space of each run of white space, drops all else, and cuts what is too long.
pub fn sanitize_provider_detail(detail: &str) -> (clean: String)
    ensures
        clean@ == sanitized(detail@),
{
    let mut clean = String::new();
    // Whether the next visible character begins a word.
    let mut between_words = true;
    let ghost mut seen: Seq<char> = Seq::empty();
    for c in chars: detail.chars()
        invariant
            chars.seq() == detail@,
            seen == printable(detail@.take(chars.index() as int)),
            between_words == (seen.len() == 0 || seen.last() == ' '),
            clean@ == joined(words(seen), seq![' ']),
    {
        proof {
            let next = detail@.take(chars.index() + 1);
            assert(next.drop_last() =~= detail@.take(chars.index() as int));
            assert(next.last() == c);
        }
        if '!' <= c && c <= '~' {
            proof {
                lemma_joined_words_grow(seen, c);
                seen = seen.push(c);
            }
            if between_words && !clean.as_str().is_empty() {
                clean.push(' ');
            }
            clean.push(c);
            between_words = false;
        } else if c.is_whitespace() {
            proof {
                lemma_joined_words_grow(seen, ' ');
                seen = seen.push(' ');
            }
            between_words = true;
        }
    }
    proof {
        assert(detail@.take(detail@.len() as int) =~= detail@);
        law_collapsed_text_is_single_spaced(detail@);
        assert(forall|i: int|
            0 <= i < clean@.len() ==> is_graphic(#[trigger] clean@[i]) || clean@[i] == ' ');
    }
    if clean.as_str().unicode_len() <= MAX_PROVIDER_DETAIL_LEN {
        return clean;
    }
    let mut truncated = clean.as_str().substring_char(0, MAX_PROVIDER_DETAIL_LEN).to_owned();
    truncated.append(TRUNCATION_MARKER);
    truncated
}

} // verus!
