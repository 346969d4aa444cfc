//! Binding rules: how a value of the document becomes a field of a record.

use vstd::prelude::*;
use crate::error::{outcome, DecodeError, DecodeErrorView, ErrorKind, StepView};
use crate::document::{
    detach, detach_items, detach_members, find_only, items_view, lemma_detach_items, lemma_detach_kind, lemma_detach_member,
    lemma_items_view, member, members_view, only_member, present_member, Float, Json, JsonView, Members, Text, TextView,
};

verus! {

/// How the text fields of a record treat a string that holds an escape
/// sequence. The text fields are all of them: addresses, handling, urls,
/// methods, reasons, header names and values, log messages and variables.
#[derive(Clone, Copy, PartialEq, Eq, Debug)]
pub enum Profile {
    /// Every text of a record is taken from the input line as it stands. A
    /// string that holds an escape sequence does not stand in the line as
    /// what it says, and fails the decoding.
    ZeroCopy,
    /// A text may be taken from the unescaped copy that the document holds.
    Copying,
}

/// A type with a rule that binds a JSON value to it.
pub trait Decode<'t>: Sized + DeepView {
    /// The rule: the value that `v` is bound to, or why it cannot be bound.
    spec fn decoded(v: JsonView, profile: Profile) -> Result<Self::V, DecodeErrorView>;

    /// Binds `v` by the rule.
    fn decode(v: &'t Json<'t>, profile: Profile) -> (r: Result<Self, DecodeError>)
        ensures
            outcome(r) == Self::decoded(v.deep_view(), profile),
    ;

    /// In the copying profile the rule reads what a text says, not where it
    /// is held: a detached value is bound as the value itself.
    proof fn lemma_detached(v: JsonView)
        ensures
            Self::decoded(detach(v), Profile::Copying) == Self::decoded(v, Profile::Copying),
    ;
}

/// The result of a rule, seen from the object whose member `name` it was
/// applied to.
pub open spec fn in_field<V>(
    name: Seq<char>,
    r: Result<V, DecodeErrorView>,
) -> Result<V, DecodeErrorView> {
    match r {
        Ok(x) => Ok(x),
        Err(e) => Err(e.within(StepView::Field(name))),
    }
}

/// The result of a rule, seen from the array whose element `i` it was applied
/// to.
pub open spec fn in_element<V>(
    i: nat,
    r: Result<V, DecodeErrorView>,
) -> Result<V, DecodeErrorView> {
    match r {
        Ok(x) => Ok(x),
        Err(e) => Err(e.within(StepView::Index(i))),
    }
}

/// The rule for a field that must be there: the one member called `name` is
/// bound by the rule of `T`.
#[verifier::opaque]
pub open spec fn required_field<'t, T: Decode<'t>>(
    m: Members,
    name: Seq<char>,
    profile: Profile,
) -> Result<T::V, DecodeErrorView> {
    match only_member(m, name) {
        Err(e) => Err(e),
        Ok(None) => Err(DecodeErrorView::missing(name)),
        Ok(Some(v)) => in_field(name, T::decoded(v, profile)),
    }
}

/// The rule for a field that may be left out: where the member called `name` is
/// absent or `null` the field is not present; otherwise the member is bound by
/// the rule of `T`.
#[verifier::opaque]
pub open spec fn optional_field<'t, T: Decode<'t>>(
    m: Members,
    name: Seq<char>,
    profile: Profile,
) -> Result<Option<T::V>, DecodeErrorView> {
    match only_member(m, name) {
        Err(e) => Err(e),
        Ok(None) => Ok(None),
        Ok(Some(JsonView::Null)) => Ok(None),
        Ok(Some(v)) => match in_field(name, T::decoded(v, profile)) {
            Ok(x) => Ok(Some(x)),
            Err(e) => Err(e),
        },
    }
}

/// Binds the member called `name`, which must be there.
pub fn required<'t, T: Decode<'t>>(
    members: &'t Vec<(Text<'t>, Json<'t>)>,
    name: &str,
    profile: Profile,
) -> (r: Result<T, DecodeError>)
    ensures
        outcome(r) == required_field::<T>(members_view(*members), name@, profile),
{
    reveal(required_field);
    match find_only(members, name) {
        Err(e) => Err(e),
        Ok(None) => Err(DecodeError::missing(name)),
        Ok(Some(v)) => match T::decode(v, profile) {
            Ok(x) => Ok(x),
            Err(e) => Err(e.within_field(name)),
        },
    }
}

/// Binds the member called `name`, if it is there and not `null`.
pub fn optional<'t, T: Decode<'t>>(
    members: &'t Vec<(Text<'t>, Json<'t>)>,
    name: &str,
    profile: Profile,
) -> (r: Result<Option<T>, DecodeError>)
    ensures
        outcome(r) == optional_field::<T>(members_view(*members), name@, profile),
{
    reveal(optional_field);
    match find_only(members, name) {
        Err(e) => Err(e),
        Ok(None) => Ok(None),
        Ok(Some(Json::Null)) => Ok(None),
        Ok(Some(v)) => match T::decode(v, profile) {
            Ok(x) => Ok(Some(x)),
            Err(e) => Err(e.within_field(name)),
        },
    }
}

/// A field that must be there is bound alike in an object and in its
/// detached copy, in the copying profile.
pub proof fn lemma_required_detached<'t, T: Decode<'t>>(m: Members, name: Seq<char>)
    ensures
        required_field::<T>(detach_members(m), name, Profile::Copying) == required_field::<T>(
            m,
            name,
            Profile::Copying,
        ),
{
    reveal(required_field);
    lemma_detach_member(m, name);
    if let Some(v) = member(m, name) {
        T::lemma_detached(v);
    }
}

/// A field that may be left out is bound alike in an object and in its
/// detached copy, in the copying profile.
pub proof fn lemma_optional_detached<'t, T: Decode<'t>>(m: Members, name: Seq<char>)
    ensures
        optional_field::<T>(detach_members(m), name, Profile::Copying) == optional_field::<T>(
            m,
            name,
            Profile::Copying,
        ),
{
    reveal(optional_field);
    lemma_detach_member(m, name);
    if let Some(v) = present_member(m, name) {
        T::lemma_detached(v);
    }
}

/// The members of `v`, which must be an object.
pub fn members_of<'t>(v: &'t Json<'t>) -> (r: Result<&'t Vec<(Text<'t>, Json<'t>)>, DecodeError>)
    ensures
        match r {
            Ok(members) => v.deep_view() == JsonView::Object(members_view(*members)),
            Err(e) => !(v.deep_view() is Object) && e.deep_view() == DecodeErrorView::here(ErrorKind::SchemaMismatch),
        },
{
    match v.as_object() {
        Some(members) => Ok(members),
        None => Err(DecodeError::here(ErrorKind::SchemaMismatch)),
    }
}

/// Whether the float with these bits is beyond every integer of 64 bits: its
/// exponent says that its magnitude is at least 2^64.
pub open spec fn beyond_64_bits(bits: u64) -> bool {
    ((bits >> 52) & 0x7ff) >= 1087
}

/// The integer that a field of a given range takes from `v`, which must be a
/// number. An integer in the range is taken. An integer outside it overflows
/// the field, and so does any number whose magnitude no field of 64 bits
/// holds. Any other number is no integer, and has the wrong type.
pub open spec fn integer_in(v: JsonView, low: int, high: int) -> Result<int, DecodeErrorView> {
    match v {
        JsonView::Number(n) => match n.whole {
            Some(i) => if low <= i <= high {
                Ok(i as int)
            } else {
                Err(DecodeErrorView::here(ErrorKind::NumericOverflow))
            },
            None => if beyond_64_bits(n.float.bits) {
                Err(DecodeErrorView::here(ErrorKind::NumericOverflow))
            } else {
                Err(DecodeErrorView::here(ErrorKind::SchemaMismatch))
            },
        },
        _ => Err(DecodeErrorView::here(ErrorKind::SchemaMismatch)),
    }
}

/// Takes from `v` an integer between `low` and `high`.
fn integer<'t>(v: &'t Json<'t>, low: i128, high: i128) -> (r: Result<i128, DecodeError>)
    ensures
        match r {
            Ok(i) => integer_in(v.deep_view(), low as int, high as int) == Ok::<int, DecodeErrorView>(i as int),
            Err(e) => integer_in(v.deep_view(), low as int, high as int) == Err::<int, DecodeErrorView>(e.deep_view()),
        },
{
    match v {
        Json::Number(n) => match n.whole {
            Some(i) => if low <= i && i <= high {
                Ok(i)
            } else {
                Err(DecodeError::here(ErrorKind::NumericOverflow))
            },
            None => if ((n.float.bits >> 52) & 0x7ff) >= 1087 {
                Err(DecodeError::here(ErrorKind::NumericOverflow))
            } else {
                Err(DecodeError::here(ErrorKind::SchemaMismatch))
            },
        },
        _ => Err(DecodeError::here(ErrorKind::SchemaMismatch)),
    }
}

impl<'t> Decode<'t> for u64 {
    open spec fn decoded(v: JsonView, profile: Profile) -> Result<u64, DecodeErrorView> {
        match integer_in(v, 0, u64::MAX as int) {
            Ok(i) => Ok(i as u64),
            Err(e) => Err(e),
        }
    }

    fn decode(v: &'t Json<'t>, profile: Profile) -> (r: Result<Self, DecodeError>) {
        match integer(v, 0, u64::MAX as i128) {
            Ok(i) => Ok(i as u64),
            Err(e) => Err(e),
        }
    }

    proof fn lemma_detached(v: JsonView) {
        lemma_detach_kind(v);
    }
}

impl<'t> Decode<'t> for u32 {
    open spec fn decoded(v: JsonView, profile: Profile) -> Result<u32, DecodeErrorView> {
        match integer_in(v, 0, u32::MAX as int) {
            Ok(i) => Ok(i as u32),
            Err(e) => Err(e),
        }
    }

    fn decode(v: &'t Json<'t>, profile: Profile) -> (r: Result<Self, DecodeError>) {
        match integer(v, 0, u32::MAX as i128) {
            Ok(i) => Ok(i as u32),
            Err(e) => Err(e),
        }
    }

    proof fn lemma_detached(v: JsonView) {
        lemma_detach_kind(v);
    }
}

impl<'t> Decode<'t> for i64 {
    open spec fn decoded(v: JsonView, profile: Profile) -> Result<i64, DecodeErrorView> {
        match integer_in(v, i64::MIN as int, i64::MAX as int) {
            Ok(i) => Ok(i as i64),
            Err(e) => Err(e),
        }
    }

    fn decode(v: &'t Json<'t>, profile: Profile) -> (r: Result<Self, DecodeError>) {
        match integer(v, i64::MIN as i128, i64::MAX as i128) {
            Ok(i) => Ok(i as i64),
            Err(e) => Err(e),
        }
    }

    proof fn lemma_detached(v: JsonView) {
        lemma_detach_kind(v);
    }
}

impl<'t> Decode<'t> for Float {
    open spec fn decoded(v: JsonView, profile: Profile) -> Result<Float, DecodeErrorView> {
        match v {
            JsonView::Number(n) => Ok(n.float),
            _ => Err(DecodeErrorView::here(ErrorKind::SchemaMismatch)),
        }
    }

    fn decode(v: &'t Json<'t>, profile: Profile) -> (r: Result<Self, DecodeError>) {
        match v {
            Json::Number(n) => Ok(n.float),
            _ => Err(DecodeError::here(ErrorKind::SchemaMismatch)),
        }
    }

    proof fn lemma_detached(v: JsonView) {
        lemma_detach_kind(v);
    }
}

impl<'t> Decode<'t> for bool {
    open spec fn decoded(v: JsonView, profile: Profile) -> Result<bool, DecodeErrorView> {
        match v {
            JsonView::Bool(b) => Ok(b),
            _ => Err(DecodeErrorView::here(ErrorKind::SchemaMismatch)),
        }
    }

    fn decode(v: &'t Json<'t>, profile: Profile) -> (r: Result<Self, DecodeError>) {
        match v {
            Json::Bool(b) => Ok(*b),
            _ => Err(DecodeError::here(ErrorKind::SchemaMismatch)),
        }
    }

    proof fn lemma_detached(v: JsonView) {
        lemma_detach_kind(v);
    }
}

/// The rule for text: in the zero-copy profile the text must be a slice of
/// the input, which it cannot be where its literal holds an escape sequence.
pub open spec fn borrowed_text(
    t: TextView,
    profile: Profile,
) -> Result<Seq<char>, DecodeErrorView> {
    if profile == Profile::ZeroCopy && !t.borrowed {
        Err(DecodeErrorView::here(ErrorKind::UnsupportedEscape))
    } else {
        Ok(t.chars)
    }
}

/// Borrows the content of `t` by the rule [`borrowed_text`].
pub fn borrow_text<'t>(t: &'t Text<'t>, profile: Profile) -> (r: Result<&'t str, DecodeError>)
    ensures
        outcome(r) == borrowed_text(t.deep_view(), profile),
{
    match t {
        Text::Borrowed(s) => Ok(*s),
        Text::Owned(s) => match profile {
            Profile::ZeroCopy => Err(DecodeError::here(ErrorKind::UnsupportedEscape)),
            Profile::Copying => Ok(s.as_str()),
        },
    }
}

/// Text: the record borrows it.
impl<'t> Decode<'t> for &'t str {
    open spec fn decoded(v: JsonView, profile: Profile) -> Result<Seq<char>, DecodeErrorView> {
        match v {
            JsonView::Text(t) => borrowed_text(t, profile),
            _ => Err(DecodeErrorView::here(ErrorKind::SchemaMismatch)),
        }
    }

    fn decode(v: &'t Json<'t>, profile: Profile) -> (r: Result<Self, DecodeError>) {
        match v {
            Json::Text(t) => borrow_text(t, profile),
            _ => Err(DecodeError::here(ErrorKind::SchemaMismatch)),
        }
    }

    proof fn lemma_detached(v: JsonView) {
        lemma_detach_kind(v);
    }
}

/// The rule for the elements of an array, each bound by the rule of `T`: the
/// bound elements in order, or the failure of the first element that fails.
pub open spec fn elements<'t, T: Decode<'t>>(
    items: Seq<JsonView>,
    profile: Profile,
) -> Result<Seq<T::V>, DecodeErrorView>
    decreases items.len(),
{
    if items.len() == 0 {
        Ok(Seq::empty())
    } else {
        match elements::<T>(items.drop_last(), profile) {
            Err(e) => Err(e),
            Ok(front) => match in_element((items.len() - 1) as nat, T::decoded(items.last(), profile)) {
                Err(e) => Err(e),
                Ok(x) => Ok(front.push(x)),
            },
        }
    }
}

/// A sequence: the value must be an array, and each element is bound by the
/// rule of `T`.
impl<'t, T: Decode<'t>> Decode<'t> for Vec<T> {
    open spec fn decoded(v: JsonView, profile: Profile) -> Result<Seq<T::V>, DecodeErrorView> {
        match v {
            JsonView::Array(items) => elements::<T>(items, profile),
            _ => Err(DecodeErrorView::here(ErrorKind::SchemaMismatch)),
        }
    }

    fn decode(v: &'t Json<'t>, profile: Profile) -> (r: Result<Self, DecodeError>) {
        let items = match v.as_array() {
            Some(items) => items,
            None => return Err(DecodeError::here(ErrorKind::SchemaMismatch)),
        };
        let ghost all = items_view(*items);
        proof {
            lemma_items_view(*items);
        }
        let mut out: Vec<T> = Vec::new();
        let mut i: usize = 0;
        proof {
            assert(all.take(0) =~= Seq::<JsonView>::empty());
            assert(out.deep_view() =~= Seq::<T::V>::empty());
        }
        while i < items.len()
            invariant
                i <= items.len(),
                v.deep_view() == JsonView::Array(all),
                all == items_view(*items),
                all.len() == items.len(),
                forall|j: int| 0 <= j < items.len() ==> #[trigger] all[j] == items[j].deep_view(),
                elements::<T>(all.take(i as int), profile) == Ok::<Seq<T::V>, DecodeErrorView>(out.deep_view()),
            decreases items.len() - i,
        {
            proof {
                assert(all.take(i as int + 1).drop_last() =~= all.take(i as int));
                assert(all.take(i as int + 1).last() == all[i as int]);
            }
            match T::decode(&items[i], profile) {
                Ok(x) => {
                    let ghost before = out.deep_view();
                    out.push(x);
                    proof {
                        assert(out.deep_view() =~= before.push(x.deep_view()));
                    }
                },
                Err(e) => {
                    proof {
                        lemma_elements_fail::<T>(all, profile, i as int + 1);
                    }
                    return Err(e.within_index(i));
                },
            }
            i += 1;
        }
        proof {
            assert(all.take(i as int) =~= all);
        }
        Ok(out)
    }

    proof fn lemma_detached(v: JsonView) {
        lemma_detach_kind(v);
        if let JsonView::Array(items) = v {
            lemma_detach_items(items);
            lemma_elements_detached::<T>(items);
        }
    }
}

/// Once a prefix of an array fails, the whole array fails in the same way.
pub proof fn lemma_elements_fail<'t, T: Decode<'t>>(items: Seq<JsonView>, profile: Profile, n: int)
    requires
        0 <= n <= items.len(),
        elements::<T>(items.take(n), profile) is Err,
    ensures
        elements::<T>(items, profile) == elements::<T>(items.take(n), profile),
    decreases items.len() - n,
{
    if n == items.len() {
        assert(items.take(n) =~= items);
    } else {
        assert(items.take(n + 1).drop_last() =~= items.take(n));
        lemma_elements_fail::<T>(items, profile, n + 1);
    }
}

/// The elements of an array are bound alike in the array and in its detached
/// copy, in the copying profile.
pub proof fn lemma_elements_detached<'t, T: Decode<'t>>(items: Seq<JsonView>)
    ensures
        elements::<T>(detach_items(items), Profile::Copying) == elements::<T>(items, Profile::Copying),
    decreases items.len(),
{
    lemma_detach_items(items);
    if items.len() > 0 {
        lemma_detach_items(items.drop_last());
        assert(detach_items(items).drop_last() =~= detach_items(items.drop_last()));
        lemma_elements_detached::<T>(items.drop_last());
        T::lemma_detached(items.last());
    }
}

/// What a sequence holds: where an array is bound, every element is, and the
/// sequence has the bound elements in the order of the array.
pub proof fn lemma_elements_content<'t, T: Decode<'t>>(items: Seq<JsonView>, profile: Profile)
    requires
        elements::<T>(items, profile) is Ok,
    ensures
        elements::<T>(items, profile)->Ok_0.len() == items.len(),
        forall|i: int|
            0 <= i < items.len() ==> T::decoded(#[trigger] items[i], profile) == Ok::<T::V, DecodeErrorView>(
                elements::<T>(items, profile)->Ok_0[i],
            ),
    decreases items.len(),
{
    if items.len() > 0 {
        lemma_elements_content::<T>(items.drop_last(), profile);
        assert(forall|i: int| 0 <= i < items.len() - 1 ==> items.drop_last()[i] == items[i]);
    }
}

/// A pair: the value must be an array of exactly two elements.
pub open spec fn pair_of<'t, A: Decode<'t>, B: Decode<'t>>(
    v: JsonView,
    profile: Profile,
) -> Result<(A::V, B::V), DecodeErrorView> {
    match v {
        JsonView::Array(items) => if items.len() == 2 {
            match in_element(0, A::decoded(items[0], profile)) {
                Err(e) => Err(e),
                Ok(a) => match in_element(1, B::decoded(items[1], profile)) {
                    Err(e) => Err(e),
                    Ok(b) => Ok((a, b)),
                },
            }
        } else {
            Err(DecodeErrorView::here(ErrorKind::SchemaMismatch))
        },
        _ => Err(DecodeErrorView::here(ErrorKind::SchemaMismatch)),
    }
}

impl<'t, A: Decode<'t>, B: Decode<'t>> Decode<'t> for (A, B) {
    open spec fn decoded(v: JsonView, profile: Profile) -> Result<(A::V, B::V), DecodeErrorView> {
        pair_of::<A, B>(v, profile)
    }

    fn decode(v: &'t Json<'t>, profile: Profile) -> (r: Result<Self, DecodeError>) {
        let items = match v.as_array() {
            Some(items) => items,
            None => return Err(DecodeError::here(ErrorKind::SchemaMismatch)),
        };
        proof {
            lemma_items_view(*items);
        }
        if items.len() != 2 {
            return Err(DecodeError::here(ErrorKind::SchemaMismatch));
        }
        let a = match A::decode(&items[0], profile) {
            Ok(a) => a,
            Err(e) => return Err(e.within_index(0)),
        };
        let b = match B::decode(&items[1], profile) {
            Ok(b) => b,
            Err(e) => return Err(e.within_index(1)),
        };
        Ok((a, b))
    }

    proof fn lemma_detached(v: JsonView) {
        lemma_detach_kind(v);
        if let JsonView::Array(items) = v {
            lemma_detach_items(items);
            if items.len() == 2 {
                A::lemma_detached(items[0]);
                B::lemma_detached(items[1]);
            }
        }
    }
}

} // verus!
