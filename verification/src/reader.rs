//! Reading a line of JSON text into a document.
//!
//! The JSON grammar of values is left to `serde_json`. Each function of this
//! module that is marked `external_body` asks it, or `str`, one question about
//! a piece of text, and its contract states the answer or gives it a name.
//! [`parse`] puts the answers together into a document, and [`document_of`]
//! says how. The members of an object are taken one by one, so that a name
//! that occurs twice is there twice.

use vstd::prelude::*;
use crate::error::{outcome, DecodeError, DecodeErrorView, ErrorKind};
use crate::document::{
    items_view, lemma_items_view, lemma_members_view, members_view, Float, Json, JsonView, Number, Text, TextView,
};

verus! {

/// How deep a document may nest: a text with an array or object inside 127
/// others is the deepest that is read.
pub const DEPTH_LIMIT: usize = 128;

/// The four characters that JSON takes for whitespace.
pub open spec fn is_space(c: char) -> bool {
    c == ' ' || c == '\t' || c == '\n' || c == '\r'
}

/// The text without the whitespace at its front.
pub open spec fn skip_space(text: Seq<char>) -> Seq<char>
    decreases text.len(),
{
    if text.len() > 0 && is_space(text[0]) {
        skip_space(text.drop_first())
    } else {
        text
    }
}

/// The text after the character `c`, if it starts with `c`.
pub open spec fn after(text: Seq<char>, c: char) -> Option<Seq<char>> {
    if text.len() > 0 && text[0] == c {
        Some(text.drop_first())
    } else {
        None
    }
}

/// Whether the text is `word`, with nothing but whitespace around it.
pub open spec fn is_word(text: Seq<char>, word: Seq<char>) -> bool {
    let t = skip_space(text);
    &&& t.len() >= word.len()
    &&& t.subrange(0, word.len() as int) == word
    &&& skip_space(t.subrange(word.len() as int, t.len() as int)).len() == 0
}

/// The value of the literal `true` or `false` that `text` consists of.
pub open spec fn boolean_of(text: Seq<char>) -> Option<bool> {
    if is_word(text, "true"@) {
        Some(true)
    } else if is_word(text, "false"@) {
        Some(false)
    } else {
        None
    }
}

/// Whether `text` consists of the literal `null`.
pub open spec fn null_of(text: Seq<char>) -> bool {
    is_word(text, "null"@)
}

/// The content of the string literal that `text` consists of, where that
/// literal holds no escape sequence; `None` for any other text.
pub uninterp spec fn borrowed_string_of(text: Seq<char>) -> Option<Seq<char>>;

/// The unescaped content of the string literal that `text` consists of; `None`
/// where `text` is no string literal.
pub uninterp spec fn owned_string_of(text: Seq<char>) -> Option<Seq<char>>;

/// The bit pattern of the 64-bit float that the number literal which `text`
/// consists of is read as; `None` where `text` is no number literal, or one
/// beyond the range of such floats.
pub uninterp spec fn float_bits_of(text: Seq<char>) -> Option<u64>;

/// The value of the integer literal that `text` consists of, where a signed
/// integer of 128 bits holds it; `None` for any other text.
pub uninterp spec fn whole_number_of(text: Seq<char>) -> Option<i128>;

/// The texts of the elements of the array that `text` consists of, in order;
/// `None` where `text` is no array.
pub uninterp spec fn array_items_of(text: Seq<char>) -> Option<Seq<Seq<char>>>;

/// The first JSON value that `text` holds, after whitespace, and the text
/// that follows it; `None` where `text` does not start with a well-formed
/// value.
pub uninterp spec fn first_value_of(text: Seq<char>) -> Option<(Seq<char>, Seq<char>)>;

/// `str::trim_start_matches` with the four characters of JSON whitespace as
/// the pattern: the text without any of them at its front.
#[verifier::external_body]
fn after_spaces<'i>(text: &'i str) -> (r: &'i str)
    ensures
        r@ == skip_space(text@),
{
    text.trim_start_matches(&[' ', '\t', '\n', '\r'][..])
}

/// `str::strip_prefix` with one character as the pattern: the text after that
/// character, if the text starts with it.
#[verifier::external_body]
fn after_char<'i>(text: &'i str, c: char) -> (r: Option<&'i str>)
    ensures
        r.deep_view() == after(text@, c),
{
    text.strip_prefix(c)
}

/// `serde_json::from_str` at `&str`: succeeds on a string literal without
/// escape sequences, and then hands out the slice of `text` between the
/// quotes.
#[verifier::external_body]
fn read_borrowed_string<'i>(text: &'i str) -> (r: Option<&'i str>)
    ensures
        r.deep_view() == borrowed_string_of(text@),
{
    serde_json::from_str::<&'i str>(text).ok()
}

/// `serde_json::from_str` at `String`: succeeds on any string literal, and
/// hands out its unescaped content.
#[verifier::external_body]
fn read_owned_string(text: &str) -> (r: Option<String>)
    ensures
        r.deep_view() == owned_string_of(text@),
{
    serde_json::from_str::<String>(text).ok()
}

/// `serde_json::from_str` at `serde_json::Number`, then `Number::as_f64`:
/// succeeds on any number literal within the range of 64-bit floats. An
/// integer that 64 bits hold is converted to the float; any other literal is
/// read as a float in the first place. The float is handed out as its bit
/// pattern.
#[verifier::external_body]
fn read_float_bits(text: &str) -> (r: Option<u64>)
    ensures
        r == float_bits_of(text@),
{
    match serde_json::from_str::<serde_json::Number>(text) {
        Ok(number) => number.as_f64().map(|float| float.to_bits()),
        Err(_) => None,
    }
}

/// `serde_json::from_str` at `i128`: succeeds on an integer literal, without
/// fraction or exponent, whose value a signed integer of 128 bits holds.
#[verifier::external_body]
fn read_whole_number(text: &str) -> (r: Option<i128>)
    ensures
        r == whole_number_of(text@),
{
    serde_json::from_str::<i128>(text).ok()
}

/// `serde_json::from_str` at `bool`: succeeds on `true` and on `false`, with
/// nothing but whitespace around the word.
#[verifier::external_body]
fn read_boolean(text: &str) -> (r: Option<bool>)
    ensures
        r == boolean_of(text@),
{
    serde_json::from_str::<bool>(text).ok()
}

/// `serde_json::from_str` at `()`: succeeds on `null` alone, with nothing but
/// whitespace around the word.
#[verifier::external_body]
fn read_null(text: &str) -> (r: bool)
    ensures
        r == null_of(text@),
{
    serde_json::from_str::<()>(text).is_ok()
}

/// `serde_json::from_str` at a `Vec` of `&RawValue`: succeeds on an array of
/// well-formed values, and hands out the slice of `text` that each element
/// occupies. Such a slice lies between the brackets, so it is shorter than
/// `text`.
#[verifier::external_body]
fn read_array<'i>(text: &'i str) -> (r: Option<Vec<&'i str>>)
    ensures
        r.deep_view() == array_items_of(text@),
        r matches Some(items) ==> forall|i: int|
            0 <= i < items.len() ==> (#[trigger] items[i])@.len() < text@.len(),
{
    match serde_json::from_str::<Vec<&'i serde_json::value::RawValue>>(text) {
        Ok(items) => Some(items.into_iter().map(|raw| raw.get()).collect()),
        Err(_) => None,
    }
}

/// `serde_json::Deserializer::from_str`, turned by `into_iter` into a stream
/// of `&RawValue`, asked by `next` for one value: it skips whitespace, reads
/// one well-formed value and stops behind it, where `byte_offset` then
/// points. The value is handed out as the slice of `text` that it occupies,
/// with the slice from there to the end. A value has at least one character,
/// and the two slices do not overlap.
#[verifier::external_body]
fn read_first_value<'i>(text: &'i str) -> (r: Option<(&'i str, &'i str)>)
    ensures
        r.deep_view() == first_value_of(text@),
        r matches Some((value, rest)) ==> value@.len() >= 1 && value@.len() + rest@.len() <= text@.len(),
{
    let mut stream = serde_json::Deserializer::from_str(text).into_iter::<&'i serde_json::value::RawValue>();
    match stream.next() {
        Some(Ok(raw)) => text.get(stream.byte_offset()..).map(|rest| (raw.get(), rest)),
        _ => None,
    }
}

/// Pairs of the text of a name and the text of its value.
pub type MemberTexts = Seq<(Seq<char>, Seq<char>)>;

/// `front` followed by what `back` holds, if it holds anything.
pub open spec fn joined(front: MemberTexts, back: Option<MemberTexts>) -> Option<MemberTexts> {
    match back {
        Some(back) => Some(front + back),
        None => None,
    }
}

/// What closes an object: the text after the closing brace must be blank.
pub open spec fn closes(text: Seq<char>) -> bool {
    after(text, '}') matches Some(tail) && skip_space(tail).len() == 0
}

/// The members of an object from the place where one of them starts: a value
/// for the name, a colon, a value, and then either the closing brace or a
/// comma and the members that follow.
pub open spec fn members_from(rest: Seq<char>) -> Option<MemberTexts>
    decreases rest.len(),
{
    match first_value_of(rest) {
        Some((name, r1)) => match after(skip_space(r1), ':') {
            Some(r2) => match first_value_of(r2) {
                Some((value, r3)) => {
                    let r4 = skip_space(r3);
                    if after(r4, '}') is Some {
                        if closes(r4) {
                            Some(seq![(name, value)])
                        } else {
                            None
                        }
                    } else {
                        match after(r4, ',') {
                            Some(r5) => if r5.len() < rest.len() {
                                joined(seq![(name, value)], members_from(r5))
                            } else {
                                None
                            },
                            None => None,
                        }
                    }
                },
                None => None,
            },
            None => None,
        },
        None => None,
    }
}

/// The members of the object that `text` consists of, each as the text of its
/// name and the text of its value, in order and with every occurrence of a
/// name; `None` where `text` is no object.
pub open spec fn object_members_of(text: Seq<char>) -> Option<MemberTexts> {
    match after(skip_space(text), '{') {
        Some(inner) => {
            let first = skip_space(inner);
            if after(first, '}') is Some {
                if closes(first) {
                    Some(Seq::empty())
                } else {
                    None
                }
            } else {
                members_from(first)
            }
        },
        None => None,
    }
}

/// Skipping whitespace does not lengthen a text.
pub proof fn lemma_skip_space_len(text: Seq<char>)
    ensures
        skip_space(text).len() <= text.len(),
    decreases text.len(),
{
    if text.len() > 0 && is_space(text[0]) {
        lemma_skip_space_len(text.drop_first());
    }
}

/// A member put at the end of what was read is a member put at the front of
/// what follows.
pub proof fn lemma_joined_push(
    front: MemberTexts,
    member: (Seq<char>, Seq<char>),
    back: Option<MemberTexts>,
)
    ensures
        joined(front, joined(seq![member], back)) == joined(front.push(member), back),
{
    if let Some(b) = back {
        assert(front + (seq![member] + b) =~= front.push(member) + b);
    }
}

/// Splits the text of an object into the texts of its members.
#[verifier::loop_isolation(false)]
fn read_members<'i>(text: &'i str) -> (r: Option<Vec<(&'i str, &'i str)>>)
    ensures
        r.deep_view() == object_members_of(text@),
        r matches Some(members) ==> forall|i: int|
            0 <= i < members.len() ==> (#[trigger] members[i]).1@.len() < text@.len(),
{
    proof {
        lemma_skip_space_len(text@);
    }
    let inner = match after_char(after_spaces(text), '{') {
        Some(inner) => inner,
        None => return None,
    };
    let first = after_spaces(inner);
    proof {
        lemma_skip_space_len(inner@);
    }
    let mut out: Vec<(&'i str, &'i str)> = Vec::new();
    proof {
        assert(out.deep_view() =~= Seq::<(Seq<char>, Seq<char>)>::empty());
    }
    if let Some(tail) = after_char(first, '}') {
        return if after_spaces(tail).is_empty() {
            Some(out)
        } else {
            None
        };
    }
    let mut rest = first;
    proof {
        assert(Seq::<(Seq<char>, Seq<char>)>::empty() + members_from(rest@)->Some_0 =~= members_from(rest@)->Some_0);
    }
    loop
        invariant
            rest@.len() < text@.len(),
            object_members_of(text@) == joined(out.deep_view(), members_from(rest@)),
            forall|i: int| 0 <= i < out.len() ==> (#[trigger] out[i]).1@.len() < text@.len(),
        decreases rest@.len(),
    {
        let (name, r1) = match read_first_value(rest) {
            Some(found) => found,
            None => return None,
        };
        let r2 = match after_char(after_spaces(r1), ':') {
            Some(r2) => r2,
            None => return None,
        };
        let (value, r3) = match read_first_value(r2) {
            Some(found) => found,
            None => return None,
        };
        let r4 = after_spaces(r3);
        proof {
            lemma_skip_space_len(r1@);
            lemma_skip_space_len(r3@);
            lemma_joined_push(out.deep_view(), (name@, value@), members_from(r4@.drop_first()));
            lemma_joined_push(out.deep_view(), (name@, value@), Some(Seq::empty()));
            assert(seq![(name@, value@)] + Seq::<(Seq<char>, Seq<char>)>::empty() =~= seq![(name@, value@)]);
        }
        let ghost before = out.deep_view();
        out.push((name, value));
        proof {
            assert(out.deep_view() =~= before.push((name@, value@)));
            assert(out.deep_view() + Seq::<(Seq<char>, Seq<char>)>::empty() =~= out.deep_view());
        }
        if let Some(tail) = after_char(r4, '}') {
            return if after_spaces(tail).is_empty() {
                Some(out)
            } else {
                None
            };
        }
        rest = match after_char(r4, ',') {
            Some(r5) => r5,
            None => return None,
        };
    }
}

/// The name that the text of a member's name stands for: a string, borrowed
/// where it can be.
pub open spec fn name_of(text: Seq<char>) -> Option<TextView> {
    match borrowed_string_of(text) {
        Some(chars) => Some(TextView { chars, borrowed: true }),
        None => match owned_string_of(text) {
            Some(chars) => Some(TextView { chars, borrowed: false }),
            None => None,
        },
    }
}

/// The document that `text` holds, if it is well-formed JSON that nests less
/// deep than `depth`.
///
/// A string is tried first as one that can be borrowed.
pub open spec fn document_of(text: Seq<char>, depth: nat) -> Option<JsonView>
    decreases text.len(),
{
    if let Some(chars) = borrowed_string_of(text) {
        Some(JsonView::Text(TextView { chars, borrowed: true }))
    } else if let Some(chars) = owned_string_of(text) {
        Some(JsonView::Text(TextView { chars, borrowed: false }))
    } else if let Some(bits) = float_bits_of(text) {
        Some(JsonView::Number(Number { float: Float { bits }, whole: whole_number_of(text) }))
    } else if let Some(b) = boolean_of(text) {
        Some(JsonView::Bool(b))
    } else if null_of(text) {
        Some(JsonView::Null)
    } else if depth <= 1 {
        None
    } else if let Some(items) = array_items_of(text) {
        if forall|i: int|
            0 <= i < items.len() ==> (#[trigger] items[i]).len() < text.len() && document_of(
                items[i],
                (depth - 1) as nat,
            ) is Some {
            Some(
                JsonView::Array(
                    Seq::new(
                        items.len(),
                        |i: int|
                            if 0 <= i < items.len() && items[i].len() < text.len() {
                                document_of(items[i], (depth - 1) as nat)->Some_0
                            } else {
                                JsonView::Null
                            },
                    ),
                ),
            )
        } else {
            None
        }
    } else if let Some(members) = object_members_of(text) {
        if forall|i: int|
            0 <= i < members.len() ==> name_of((#[trigger] members[i]).0) is Some && members[i].1.len() < text.len()
                && document_of(members[i].1, (depth - 1) as nat) is Some {
            Some(
                JsonView::Object(
                    Seq::new(
                        members.len(),
                        |i: int|
                            if 0 <= i < members.len() && members[i].1.len() < text.len() {
                                (name_of(members[i].0)->Some_0, document_of(members[i].1, (depth - 1) as nat)->Some_0)
                            } else {
                                (TextView { chars: Seq::empty(), borrowed: false }, JsonView::Null)
                            },
                    ),
                ),
            )
        } else {
            None
        }
    } else {
        None
    }
}

/// What reading `text` yields: its document, or a syntax error.
pub open spec fn parsed(text: Seq<char>) -> Result<JsonView, DecodeErrorView> {
    parsed_within(text, DEPTH_LIMIT as nat)
}

/// What reading `text` to a given depth yields.
pub open spec fn parsed_within(text: Seq<char>, depth: nat) -> Result<JsonView, DecodeErrorView> {
    match document_of(text, depth) {
        Some(v) => Ok(v),
        None => Err(DecodeErrorView::here(ErrorKind::Syntax)),
    }
}

/// Reads `text` into a document.
///
/// Strings and names without escape sequences are borrowed from `text`; the
/// others are unescaped copies. A text that nests as deep as [`DEPTH_LIMIT`]
/// is refused.
pub fn parse<'i>(text: &'i str) -> (r: Result<Json<'i>, DecodeError>)
    ensures
        outcome(r) == parsed(text@),
{
    parse_within(text, DEPTH_LIMIT)
}

/// Reads `text` into a document that nests less deep than `depth`.
#[verifier::loop_isolation(false)]
pub fn parse_within<'i>(text: &'i str, depth: usize) -> (r: Result<Json<'i>, DecodeError>)
    ensures
        outcome(r) == parsed_within(text@, depth as nat),
    decreases text@.len(),
{
    proof {
        reveal_with_fuel(document_of, 2);
    }
    if let Some(s) = read_borrowed_string(text) {
        return Ok(Json::Text(Text::Borrowed(s)));
    }
    if let Some(s) = read_owned_string(text) {
        return Ok(Json::Text(Text::Owned(s)));
    }
    if let Some(bits) = read_float_bits(text) {
        let whole = read_whole_number(text);
        return Ok(Json::Number(Number { float: Float { bits }, whole }));
    }
    if let Some(b) = read_boolean(text) {
        return Ok(Json::Bool(b));
    }
    if read_null(text) {
        return Ok(Json::Null);
    }
    if depth <= 1 {
        return Err(DecodeError::here(ErrorKind::Syntax));
    }
    if let Some(items) = read_array(text) {
        let ghost parts = items.deep_view();
        let mut out: Vec<Json<'i>> = Vec::new();
        let mut i: usize = 0;
        while i < items.len()
            invariant
                i <= items.len(),
                out.len() == i,
                forall|j: int|
                    #![trigger parts[j]]
                    #![trigger out[j]]
                    0 <= j < i ==> document_of(parts[j], (depth - 1) as nat) == Some(out[j].deep_view()),
            decreases items.len() - i,
        {
            assert(parts[i as int] == items[i as int]@);
            match parse_within(items[i], depth - 1) {
                Ok(v) => out.push(v),
                Err(e) => {
                    return Err(e);
                },
            }
            i += 1;
        }
        proof {
            lemma_items_view(out);
            assert(forall|j: int| 0 <= j < parts.len() ==> (#[trigger] parts[j]) == items[j]@);
            assert(items_view(out) =~= document_of(text@, depth as nat)->Some_0->Array_0);
        }
        return Ok(Json::Array(out));
    }
    if let Some(members) = read_members(text) {
        let ghost parts = members.deep_view();
        let mut out: Vec<(Text<'i>, Json<'i>)> = Vec::new();
        let mut i: usize = 0;
        while i < members.len()
            invariant
                i <= members.len(),
                out.len() == i,
                forall|j: int|
                    #![trigger parts[j]]
                    #![trigger out[j]]
                    0 <= j < i ==> name_of(parts[j].0) == Some(out[j].0.deep_view()) && document_of(
                        parts[j].1,
                        (depth - 1) as nat,
                    ) == Some(out[j].1.deep_view()),
            decreases members.len() - i,
        {
            assert(parts[i as int] == (members[i as int].0@, members[i as int].1@));
            let name = match read_borrowed_string(members[i].0) {
                Some(s) => Text::Borrowed(s),
                None => match read_owned_string(members[i].0) {
                    Some(s) => Text::Owned(s),
                    None => {
                        return Err(DecodeError::here(ErrorKind::Syntax));
                    },
                },
            };
            match parse_within(members[i].1, depth - 1) {
                Ok(v) => out.push((name, v)),
                Err(e) => {
                    return Err(e);
                },
            }
            i += 1;
        }
        proof {
            lemma_members_view(out);
            assert(forall|j: int| 0 <= j < parts.len() ==> (#[trigger] parts[j]) == (members[j].0@, members[j].1@));
            assert(members_view(out) =~= document_of(text@, depth as nat)->Some_0->Object_0);
        }
        return Ok(Json::Object(out));
    }
    Err(DecodeError::here(ErrorKind::Syntax))
}

} // verus!
