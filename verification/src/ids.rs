//! Universally unique identifiers and their text forms.

use vstd::prelude::*;

verus! {

/// A 128-bit identifier.
#[derive(Clone, Copy, Debug, PartialEq, Eq, Structural)]
pub struct Uuid {
    /// The identifier as a big-endian number.
    pub value: u128,
}

impl DeepView for Uuid {
    type V = Uuid;

    open spec fn deep_view(&self) -> Uuid {
        *self
    }
}

/// The value of a hexadecimal digit of either case.
pub open spec fn hex_value(c: char) -> Option<nat> {
    if '0' <= c <= '9' {
        Some((c as int - '0' as int) as nat)
    } else if 'a' <= c <= 'f' {
        Some((c as int - 'a' as int + 10) as nat)
    } else if 'A' <= c <= 'F' {
        Some((c as int - 'A' as int + 10) as nat)
    } else {
        None
    }
}

/// The number that `digits` write in base 16, if each of them is a digit.
pub open spec fn hex_number(digits: Seq<char>) -> Option<nat>
    decreases digits.len(),
{
    if digits.len() == 0 {
        Some(0)
    } else {
        match (hex_number(digits.drop_last()), hex_value(digits.last())) {
            (Some(high), Some(low)) => Some(16 * high + low),
            _ => None,
        }
    }
}

/// The digits of a text in groups of 8, 4, 4, 4 and 12 with hyphens between them.
pub open spec fn ungrouped(text: Seq<char>) -> Option<Seq<char>> {
    if text.len() == 36 && text[8] == '-' && text[13] == '-' && text[18] == '-' && text[23]
        == '-' {
        Some(
            text.subrange(0, 8) + text.subrange(9, 13) + text.subrange(14, 18) + text.subrange(
                19,
                23,
            ) + text.subrange(24, 36),
        )
    } else {
        None
    }
}

/// `c`, in lower case if it is an ASCII letter.
pub open spec fn ascii_lower(c: char) -> char {
    if 'A' <= c <= 'Z' {
        (c as int + 32) as char
    } else {
        c
    }
}

/// The characters in front of a UUID that is written as a URN.
pub open spec fn urn_prefix() -> Seq<char> {
    seq!['u', 'r', 'n', ':', 'u', 'u', 'i', 'd', ':']
}

/// The 32 characters that carry the value in one of the four forms of a UUID:
/// plain digits, hyphenated, hyphenated in braces, or as a URN.
pub open spec fn uuid_digits(text: Seq<char>) -> Option<Seq<char>> {
    if text.len() == 32 {
        Some(text)
    } else if text.len() == 36 {
        ungrouped(text)
    } else if text.len() == 38 && text[0] == '{' && text[37] == '}' {
        ungrouped(text.subrange(1, 37))
    } else if text.len() == 45 && text.subrange(0, 9).map_values(|c: char| ascii_lower(c))
        == urn_prefix() {
        ungrouped(text.subrange(9, 45))
    } else {
        None
    }
}

/// The identifier that `text` writes, if it writes one.
pub open spec fn parsed_uuid(text: Seq<char>) -> Option<Uuid> {
    match uuid_digits(text) {
        Some(digits) => match hex_number(digits) {
            Some(number) => Some(Uuid { value: number as u128 }),
            None => None,
        },
        None => None,
    }
}

/// The lower-case digit of a value below 16.
pub open spec fn hex_digit(value: nat) -> char {
    if value < 10 {
        ('0' as int + value) as char
    } else {
        ('a' as int + value - 10) as char
    }
}

/// The last `len` digits of `number` in base 16.
pub open spec fn hex_text(number: nat, len: nat) -> Seq<char>
    decreases len,
{
    if len == 0 {
        Seq::empty()
    } else {
        hex_text(number / 16, (len - 1) as nat).push(hex_digit(number % 16))
    }
}

/// The identifier in groups of 8, 4, 4, 4 and 12 lower-case digits.
pub open spec fn hyphenated(id: Uuid) -> Seq<char> {
    let digits = hex_text(id.value as nat, 32);
    digits.subrange(0, 8) + seq!['-'] + digits.subrange(8, 12) + seq!['-'] + digits.subrange(
        12,
        16,
    ) + seq!['-'] + digits.subrange(16, 20) + seq!['-'] + digits.subrange(20, 32)
}

/// The error of the `uuid` crate's parser.
#[verifier::external_type_specification]
#[verifier::external_body]
pub struct ExUuidError(uuid::Error);

/// Calls `uuid::Uuid::parse_str`: it succeeds exactly on the four text forms, with
/// digits and the URN prefix in either case, and then yields the number that the
/// digits write.
#[verifier::external_body]
fn parse_uuid_text(text: &str) -> (parsed: Result<u128, uuid::Error>)
    ensures
        match parsed {
            Ok(value) => parsed_uuid(text@) == Some(Uuid { value }),
            Err(_) => parsed_uuid(text@) is None,
        },
{
    uuid::Uuid::parse_str(text).map(|id| id.as_u128())
}

/// Calls `to_string` of `uuid::Uuid`: the lower-case hyphenated form.
#[verifier::external_body]
fn uuid_text(value: u128) -> (text: String)
    ensures
        text@ == hyphenated(Uuid { value }),
{
    uuid::Uuid::from_u128(value).to_string()
}

impl Uuid {
    /// The identifier that `text` writes in one of the four forms, if it writes one.
    pub fn parse_str(text: &str) -> (id: Option<Uuid>)
        ensures
            id == parsed_uuid(text@),
    {
        match parse_uuid_text(text) {
            Ok(value) => Some(Uuid { value }),
            Err(_) => None,
        }
    }

    /// The lower-case hyphenated form.
    pub fn to_string(&self) -> (text: String)
        ensures
            text@ == hyphenated(*self),
    {
        uuid_text(self.value)
    }
}

/// The least number that needs more than `len` digits in base 16.
spec fn hex_bound(len: nat) -> nat
    decreases len,
{
    if len == 0 {
        1
    } else {
        16 * hex_bound((len - 1) as nat)
    }
}

proof fn lemma_hex_digit_value(value: nat)
    requires
        value < 16,
    ensures
        hex_value(hex_digit(value)) == Some(value),
{
}

proof fn lemma_hex_text_number(number: nat, len: nat)
    requires
        number < hex_bound(len),
    ensures
        hex_text(number, len).len() == len,
        hex_number(hex_text(number, len)) == Some(number),
    decreases len,
{
    if len > 0 {
        lemma_hex_text_number(number / 16, (len - 1) as nat);
        lemma_hex_digit_value(number % 16);
        let text = hex_text(number, len);
        assert(text.drop_last() =~= hex_text(number / 16, (len - 1) as nat));
    }
}

/// Reading back the text form of an identifier gives the identifier.
pub proof fn law_uuid_text_round_trips(id: Uuid)
    ensures
        parsed_uuid(hyphenated(id)) == Some(id),
{
    reveal_with_fuel(hex_bound, 33);
    assert(hex_bound(32) == 0x1_0000_0000_0000_0000_0000_0000_0000_0000);
    lemma_hex_text_number(id.value as nat, 32);
    let digits = hex_text(id.value as nat, 32);
    let text = hyphenated(id);
    assert(text.len() == 36);
    assert(ungrouped(text) is Some);
    assert(ungrouped(text).unwrap() =~= digits);
}

/// Braces around the hyphenated form, or the URN prefix in front of it, make no difference.
pub proof fn law_uuid_forms_agree(text: Seq<char>)
    requires
        text.len() == 36,
    ensures
        parsed_uuid(seq!['{'] + text + seq!['}']) == parsed_uuid(text),
        parsed_uuid(seq!['u', 'r', 'n', ':', 'u', 'u', 'i', 'd', ':'] + text) == parsed_uuid(text),
{
    let braced = seq!['{'] + text + seq!['}'];
    assert(braced.subrange(1, 37) =~= text);
    let prefix = seq!['u', 'r', 'n', ':', 'u', 'u', 'i', 'd', ':'];
    let urn = prefix + text;
    assert(urn.subrange(0, 9) =~= prefix);
    assert(urn.subrange(9, 45) =~= text);
    assert(prefix.map_values(|c: char| ascii_lower(c)) =~= urn_prefix());
}

/// Thirty-two digits write the same UUID with hyphens behind the eighth, the twelfth, the
/// sixteenth and the twentieth, and without.
pub proof fn law_hyphens_make_no_difference(digits: Seq<char>)
    requires
        digits.len() == 32,
    ensures
        parsed_uuid(
            digits.subrange(0, 8) + seq!['-'] + digits.subrange(8, 12) + seq!['-']
                + digits.subrange(12, 16) + seq!['-'] + digits.subrange(16, 20) + seq!['-']
                + digits.subrange(20, 32),
        ) == parsed_uuid(digits),
{
    let text = digits.subrange(0, 8) + seq!['-'] + digits.subrange(8, 12) + seq!['-']
        + digits.subrange(12, 16) + seq!['-'] + digits.subrange(16, 20) + seq!['-']
        + digits.subrange(20, 32);
    assert(text.len() == 36);
    assert(ungrouped(text) is Some);
    assert(ungrouped(text).unwrap() =~= digits);
}

/// Digits of either case write the same number.
proof fn lemma_hex_case(one: Seq<char>, other: Seq<char>)
    requires
        one.len() == other.len(),
        forall|i: int|
            0 <= i < one.len() ==> hex_value(#[trigger] one[i]) == hex_value(other[i]),
    ensures
        hex_number(one) == hex_number(other),
    decreases one.len(),
{
    if one.len() > 0 {
        let front = one.drop_last();
        let other_front = other.drop_last();
        assert forall|i: int| 0 <= i < front.len() implies hex_value(#[trigger] front[i])
            == hex_value(other_front[i]) by {
            assert(front[i] == one[i]);
        }
        lemma_hex_case(front, other_front);
        assert(one.last() == one[one.len() - 1]);
    }
}

/// The case of its digits makes no difference to what thirty-two digits write.
pub proof fn law_case_makes_no_difference(one: Seq<char>, other: Seq<char>)
    requires
        one.len() == 32,
        other.len() == 32,
        forall|i: int|
            0 <= i < 32 ==> ascii_lower(#[trigger] one[i]) == ascii_lower(other[i]),
    ensures
        parsed_uuid(one) == parsed_uuid(other),
{
    assert forall|i: int| 0 <= i < one.len() implies hex_value(#[trigger] one[i]) == hex_value(
        other[i],
    ) by {
        lemma_lower_case_digit(one[i]);
        lemma_lower_case_digit(other[i]);
    }
    lemma_hex_case(one, other);
}

proof fn lemma_lower_case_digit(c: char)
    ensures
        hex_value(ascii_lower(c)) == hex_value(c),
{
}

proof fn lemma_hex_number_exists(digits: Seq<char>)
    ensures
        hex_number(digits) is Some <==> (forall|i: int|
            0 <= i < digits.len() ==> hex_value(#[trigger] digits[i]) is Some),
    decreases digits.len(),
{
    if digits.len() > 0 {
        let front = digits.drop_last();
        lemma_hex_number_exists(front);
        assert(digits.last() == digits[digits.len() - 1]);
        assert(forall|i: int| 0 <= i < front.len() ==> front[i] == digits[i]);
        if hex_number(digits) is Some {
            assert forall|i: int| 0 <= i < digits.len() implies hex_value(
                #[trigger] digits[i],
            ) is Some by {
                if i < front.len() {
                    assert(hex_value(front[i]) is Some);
                }
            }
        } else if hex_value(digits.last()) is Some {
            let i = choose|i: int| 0 <= i < front.len() && hex_value(#[trigger] front[i]) is None;
            assert(hex_value(digits[i]) is None);
        }
    }
}

/// Thirty-two characters write a UUID exactly when each is a hexadecimal digit. The
/// hyphenated form has its hyphens in their places, the braced form its braces, the URN its
/// prefix; text of any other length writes none.
pub proof fn law_other_texts_write_no_uuid(text: Seq<char>)
    ensures
        text.len() == 32 ==> (parsed_uuid(text) is Some <==> (forall|i: int|
            0 <= i < 32 ==> {
                ||| '0' <= #[trigger] text[i] <= '9'
                ||| 'a' <= text[i] <= 'f'
                ||| 'A' <= text[i] <= 'F'
            })),
        text.len() == 36 && parsed_uuid(text) is Some ==> text[8] == '-' && text[13] == '-'
            && text[18] == '-' && text[23] == '-',
        text.len() == 38 && parsed_uuid(text) is Some ==> text[0] == '{' && text[37] == '}',
        text.len() == 45 && parsed_uuid(text) is Some ==> text.subrange(0, 9).map_values(
            |c: char| ascii_lower(c),
        ) == seq!['u', 'r', 'n', ':', 'u', 'u', 'i', 'd', ':'],
        parsed_uuid(text) is Some ==> text.len() == 32 || text.len() == 36 || text.len() == 38
            || text.len() == 45,
{
    lemma_hex_number_exists(text);
    if text.len() == 32 && parsed_uuid(text) is Some {
        assert forall|i: int| 0 <= i < 32 implies {
            ||| '0' <= #[trigger] text[i] <= '9'
            ||| 'a' <= text[i] <= 'f'
            ||| 'A' <= text[i] <= 'F'
        } by {
            assert(hex_value(text[i]) is Some);
        }
    }
}

proof fn lemma_hex_text_is_lower_case(number: nat, len: nat)
    ensures
        hex_text(number, len).len() == len,
        forall|i: int|
            0 <= i < len ==> {
                ||| '0' <= #[trigger] hex_text(number, len)[i] <= '9'
                ||| 'a' <= hex_text(number, len)[i] <= 'f'
            },
    decreases len,
{
    if len > 0 {
        let front = hex_text(number / 16, (len - 1) as nat);
        lemma_hex_text_is_lower_case(number / 16, (len - 1) as nat);
        assert forall|i: int| 0 <= i < len implies {
            ||| '0' <= #[trigger] hex_text(number, len)[i] <= '9'
            ||| 'a' <= hex_text(number, len)[i] <= 'f'
        } by {
            if i < len - 1 {
                assert(hex_text(number, len)[i] == front[i]);
            } else {
                assert(hex_text(number, len)[i] == hex_digit(number % 16));
            }
        }
    }
}

/// The text form has thirty-six characters: hyphens in their places, and lower-case digits.
pub proof fn law_uuid_text_is_lower_case(id: Uuid)
    ensures
        hyphenated(id).len() == 36,
        forall|i: int|
            0 <= i < 36 ==> if i == 8 || i == 13 || i == 18 || i == 23 {
                #[trigger] hyphenated(id)[i] == '-'
            } else {
                '0' <= hyphenated(id)[i] <= '9' || 'a' <= hyphenated(id)[i] <= 'f'
            },
{
    lemma_hex_text_is_lower_case(id.value as nat, 32);
    let digits = hex_text(id.value as nat, 32);
    let text = hyphenated(id);
    assert forall|i: int| 0 <= i < 36 implies if i == 8 || i == 13 || i == 18 || i == 23 {
        #[trigger] text[i] == '-'
    } else {
        '0' <= text[i] <= '9' || 'a' <= text[i] <= 'f'
    } by {
        if i < 8 {
            assert(text[i] == digits[i]);
        } else if 8 < i < 13 {
            assert(text[i] == digits[i - 1]);
        } else if 13 < i < 18 {
            assert(text[i] == digits[i - 2]);
        } else if 18 < i < 23 {
            assert(text[i] == digits[i - 3]);
        } else if 23 < i {
            assert(text[i] == digits[i - 4]);
        }
    }
}

} // verus!
