//! The document model: a JSON value as a tree, before any field is bound.

use vstd::prelude::*;
use vstd::string::StringSliceAdditionalSpecFns;
use vstd::utf8::encode_utf8_decode_utf8;
use crate::error::{DecodeError, DecodeErrorView, ErrorKind, StepView};

verus! {

/// A 64-bit binary floating-point number, held as its IEEE 754 bit pattern:
/// the value that the float type's `from_bits` takes and its `to_bits` gives.
#[derive(Clone, Copy, PartialEq, Eq, Debug)]
pub struct Float {
    pub bits: u64,
}

impl DeepView for Float {
    type V = Float;

    open spec fn deep_view(&self) -> Float {
        *self
    }
}

/// A JSON number.
#[derive(Clone, Copy, PartialEq, Eq, Debug)]
pub struct Number {
    /// The number as a 64-bit float.
    pub float: Float,
    /// The number's exact value, where its literal is an integer that 128
    /// bits hold.
    pub whole: Option<i128>,
}

/// A JSON string, or the name of an object's member.
#[derive(Clone, PartialEq, Eq, Debug)]
pub enum Text<'i> {
    /// The literal held no escape sequence: its content is a slice of the input.
    Borrowed(&'i str),
    /// The content is a copy, as it must be where the literal held an escape
    /// sequence.
    Owned(String),
}

/// The mathematical value of a [`Text`].
pub struct TextView {
    pub chars: Seq<char>,
    pub borrowed: bool,
}

impl<'i> DeepView for Text<'i> {
    type V = TextView;

    open spec fn deep_view(&self) -> TextView {
        match self {
            Text::Borrowed(s) => TextView { chars: s@, borrowed: true },
            Text::Owned(s) => TextView { chars: s@, borrowed: false },
        }
    }
}

impl<'i> Text<'i> {
    /// The characters of the text.
    pub fn as_str(&self) -> (s: &str)
        ensures
            s@ == self.deep_view().chars,
    {
        match self {
            Text::Borrowed(s) => s,
            Text::Owned(s) => s.as_str(),
        }
    }
}

/// A JSON document. The members of an object are kept in their order.
#[derive(PartialEq, Eq, Debug)]
pub enum Json<'i> {
    Null,
    Bool(bool),
    Number(Number),
    Text(Text<'i>),
    Array(Vec<Json<'i>>),
    Object(Vec<(Text<'i>, Json<'i>)>),
}

/// The mathematical value of a [`Json`] document.
pub enum JsonView {
    Null,
    Bool(bool),
    Number(Number),
    Text(TextView),
    Array(Seq<JsonView>),
    Object(Seq<(TextView, JsonView)>),
}

impl<'i> DeepView for Json<'i> {
    type V = JsonView;

    open spec fn deep_view(&self) -> JsonView
        decreases self,
    {
        match self {
            Json::Null => JsonView::Null,
            Json::Bool(b) => JsonView::Bool(*b),
            Json::Number(n) => JsonView::Number(*n),
            Json::Text(t) => JsonView::Text(t.deep_view()),
            Json::Array(items) => JsonView::Array(
                Seq::new(
                    items.len() as nat,
                    |i: int|
                        if 0 <= i < items.len() {
                            items[i].deep_view()
                        } else {
                            JsonView::Null
                        },
                ),
            ),
            Json::Object(members) => JsonView::Object(
                Seq::new(
                    members.len() as nat,
                    |i: int|
                        if 0 <= i < members.len() {
                            (members[i].0.deep_view(), members[i].1.deep_view())
                        } else {
                            (TextView { chars: Seq::empty(), borrowed: false }, JsonView::Null)
                        },
                ),
            ),
        }
    }
}

/// The members of an object, as a sequence of names and values.
pub type Members = Seq<(TextView, JsonView)>;

/// The views of the elements of an array.
pub open spec fn items_view(items: Vec<Json>) -> Seq<JsonView> {
    Json::Array(items).deep_view()->Array_0
}

/// The views of the members of an object.
pub open spec fn members_view(members: Vec<(Text, Json)>) -> Members {
    Json::Object(members).deep_view()->Object_0
}

/// The view of an array is the sequence of its elements' views.
pub proof fn lemma_items_view(items: Vec<Json>)
    ensures
        Json::Array(items).deep_view() == JsonView::Array(items_view(items)),
        items_view(items).len() == items.len(),
        forall|i: int| 0 <= i < items.len() ==> #[trigger] items_view(items)[i] == items[i].deep_view(),
{
    reveal_with_fuel(<Json as DeepView>::deep_view, 2);
}

/// The view of an object is the sequence of its members' views.
pub proof fn lemma_members_view(members: Vec<(Text, Json)>)
    ensures
        Json::Object(members).deep_view() == JsonView::Object(members_view(members)),
        members_view(members).len() == members.len(),
        forall|i: int|
            0 <= i < members.len() ==> #[trigger] members_view(members)[i] == (
                members[i].0.deep_view(),
                members[i].1.deep_view(),
            ),
{
    reveal_with_fuel(<Json as DeepView>::deep_view, 2);
}

/// The value of the first member called `name`, if there is one.
pub open spec fn member(m: Members, name: Seq<char>) -> Option<JsonView>
    decreases m.len(),
{
    if m.len() == 0 {
        None
    } else if m[0].0.chars == name {
        Some(m[0].1)
    } else {
        member(m.drop_first(), name)
    }
}

/// How many members are called `name`.
pub open spec fn occurrences(m: Members, name: Seq<char>) -> nat
    decreases m.len(),
{
    if m.len() == 0 {
        0
    } else if m[0].0.chars == name {
        1 + occurrences(m.drop_first(), name)
    } else {
        occurrences(m.drop_first(), name)
    }
}

/// The member called `name`, which a record takes a field from: absent if
/// no member has the name, and a mismatch if more than one has it.
pub open spec fn only_member(
    m: Members,
    name: Seq<char>,
) -> Result<Option<JsonView>, DecodeErrorView> {
    if occurrences(m, name) > 1 {
        Err(DecodeErrorView::here(ErrorKind::SchemaMismatch).within(StepView::Field(name)))
    } else {
        Ok(member(m, name))
    }
}

/// A name that no member has does not occur, and the other way round.
pub proof fn lemma_absent_member(m: Members, name: Seq<char>)
    ensures
        member(m, name) is None <==> occurrences(m, name) == 0,
    decreases m.len(),
{
    if m.len() > 0 {
        lemma_absent_member(m.drop_first(), name);
    }
}

/// As [`member`], but a member that holds `null` counts as absent.
pub open spec fn present_member(m: Members, name: Seq<char>) -> Option<JsonView> {
    match member(m, name) {
        Some(JsonView::Null) => None,
        found => found,
    }
}

/// A member not among the first `i` is found among the rest.
pub proof fn lemma_member_skip(m: Members, name: Seq<char>, i: int)
    requires
        0 <= i <= m.len(),
        forall|j: int| 0 <= j < i ==> (#[trigger] m[j]).0.chars != name,
    ensures
        member(m, name) == member(m.skip(i), name),
    decreases i,
{
    if i == 0 {
        assert(m.skip(0) =~= m);
    } else {
        lemma_member_skip(m, name, i - 1);
        assert(m.skip(i - 1).drop_first() =~= m.skip(i));
    }
}

/// Whether two strings hold the same characters.
pub fn same_text(a: &str, b: &str) -> (r: bool)
    ensures
        r == (a@ == b@),
{
    let x = a.as_bytes();
    let y = b.as_bytes();
    if x.len() != y.len() {
        return false;
    }
    let mut i: usize = 0;
    while i < x.len()
        invariant
            i <= x.len(),
            x.len() == y.len(),
            x@ == a.spec_bytes(),
            y@ == b.spec_bytes(),
            forall|j: int| 0 <= j < i ==> x@[j] == y@[j],
        decreases x.len() - i,
    {
        if x[i] != y[i] {
            return false;
        }
        i += 1;
    }
    proof {
        assert(x@ =~= y@);
        encode_utf8_decode_utf8(a@);
        encode_utf8_decode_utf8(b@);
    }
    true
}

/// Finds the value of the first member called `name`.
pub fn find<'t>(members: &'t Vec<(Text<'t>, Json<'t>)>, name: &str) -> (r: Option<&'t Json<'t>>)
    ensures
        r.deep_view() == member(members_view(*members), name@),
{
    let ghost m = members_view(*members);
    proof {
        lemma_members_view(*members);
    }
    let mut i: usize = 0;
    while i < members.len()
        invariant
            i <= members.len(),
            m == members_view(*members),
            m.len() == members.len(),
            forall|j: int| 0 <= j < members.len() ==> #[trigger] m[j] == (members[j].0.deep_view(), members[j].1.deep_view()),
            forall|j: int| 0 <= j < i ==> (#[trigger] m[j]).0.chars != name@,
        decreases members.len() - i,
    {
        if same_text(members[i].0.as_str(), name) {
            proof {
                lemma_member_skip(m, name@, i as int);
            }
            return Some(&members[i].1);
        }
        i += 1;
    }
    proof {
        lemma_member_skip(m, name@, m.len() as int);
    }
    None
}

/// The occurrences of a name are those among the first members and those
/// among the rest.
pub proof fn lemma_occurrences_skip(m: Members, name: Seq<char>, i: int)
    requires
        0 <= i < m.len(),
    ensures
        occurrences(m.skip(i), name) == occurrences(m.skip(i + 1), name) + if m[i].0.chars == name {
            1nat
        } else {
            0nat
        },
{
    assert(m.skip(i).drop_first() =~= m.skip(i + 1));
}

/// Whether more than one member is called `name`.
pub fn repeated<'t>(members: &'t Vec<(Text<'t>, Json<'t>)>, name: &str) -> (r: bool)
    ensures
        r == (occurrences(members_view(*members), name@) > 1),
{
    let ghost m = members_view(*members);
    proof {
        lemma_members_view(*members);
        assert(m.skip(0) =~= m);
    }
    let mut seen: usize = 0;
    let mut i: usize = 0;
    while i < members.len()
        invariant
            i <= members.len(),
            seen <= 1,
            m == members_view(*members),
            m.len() == members.len(),
            forall|j: int|
                0 <= j < members.len() ==> #[trigger] m[j] == (members[j].0.deep_view(), members[j].1.deep_view()),
            occurrences(m, name@) == seen + occurrences(m.skip(i as int), name@),
        decreases members.len() - i,
    {
        proof {
            lemma_occurrences_skip(m, name@, i as int);
        }
        if same_text(members[i].0.as_str(), name) {
            if seen == 1 {
                return true;
            }
            seen = 1;
        }
        i += 1;
    }
    false
}

/// Finds the member called `name` for a field of a record: the one member
/// of that name, or none; two members of one name are a mismatch.
pub fn find_only<'t>(members: &'t Vec<(Text<'t>, Json<'t>)>, name: &str) -> (r: Result<
    Option<&'t Json<'t>>,
    DecodeError,
>)
    ensures
        match r {
            Ok(found) => only_member(members_view(*members), name@) == Ok::<Option<JsonView>, DecodeErrorView>(
                found.deep_view(),
            ),
            Err(e) => only_member(members_view(*members), name@) == Err::<Option<JsonView>, DecodeErrorView>(
                e.deep_view(),
            ),
        },
{
    if repeated(members, name) {
        Err(DecodeError::here(ErrorKind::SchemaMismatch).within_field(name))
    } else {
        Ok(find(members, name))
    }
}

/// The same document with every text held as a copy, so that nothing in it
/// borrows from an input line.
pub open spec fn detach(v: JsonView) -> JsonView
    decreases v,
{
    match v {
        JsonView::Text(t) => JsonView::Text(TextView { chars: t.chars, borrowed: false }),
        JsonView::Array(items) => JsonView::Array(
            Seq::new(
                items.len(),
                |i: int|
                    if 0 <= i < items.len() {
                        detach(items[i])
                    } else {
                        JsonView::Null
                    },
            ),
        ),
        JsonView::Object(members) => JsonView::Object(
            Seq::new(
                members.len(),
                |i: int|
                    if 0 <= i < members.len() {
                        (TextView { chars: members[i].0.chars, borrowed: false }, detach(members[i].1))
                    } else {
                        (TextView { chars: Seq::empty(), borrowed: false }, JsonView::Null)
                    },
            ),
        ),
        other => other,
    }
}

/// The members of an object, each detached.
pub open spec fn detach_members(m: Members) -> Members {
    detach(JsonView::Object(m))->Object_0
}

/// The elements of an array, each detached.
pub open spec fn detach_items(items: Seq<JsonView>) -> Seq<JsonView> {
    detach(JsonView::Array(items))->Array_0
}

/// Detaching an object detaches its members one by one.
pub proof fn lemma_detach_members(m: Members)
    ensures
        detach(JsonView::Object(m)) == JsonView::Object(detach_members(m)),
        detach_members(m).len() == m.len(),
        forall|i: int|
            0 <= i < m.len() ==> #[trigger] detach_members(m)[i] == (
                TextView { chars: m[i].0.chars, borrowed: false },
                detach(m[i].1),
            ),
{
    reveal_with_fuel(detach, 2);
}

/// Detaching an array detaches its elements one by one.
pub proof fn lemma_detach_items(items: Seq<JsonView>)
    ensures
        detach(JsonView::Array(items)) == JsonView::Array(detach_items(items)),
        detach_items(items).len() == items.len(),
        forall|i: int| 0 <= i < items.len() ==> #[trigger] detach_items(items)[i] == detach(items[i]),
{
    reveal_with_fuel(detach, 2);
}

/// Detaching keeps the kind of a value.
pub proof fn lemma_detach_kind(v: JsonView)
    ensures
        detach(v) is Null <==> v is Null,
        detach(v) is Bool <==> v is Bool,
        detach(v) is Number <==> v is Number,
        detach(v) is Text <==> v is Text,
        detach(v) is Array <==> v is Array,
        detach(v) is Object <==> v is Object,
        v is Null || v is Bool || v is Number ==> detach(v) == v,
        v matches JsonView::Text(t) ==> detach(v) == JsonView::Text(TextView { chars: t.chars, borrowed: false }),
{
}

/// A member of a detached object is the detached member of the object.
pub proof fn lemma_detach_member(m: Members, name: Seq<char>)
    ensures
        member(detach_members(m), name) == match member(m, name) {
            Some(v) => Some(detach(v)),
            None => None,
        },
        present_member(detach_members(m), name) == match present_member(m, name) {
            Some(v) => Some(detach(v)),
            None => None,
        },
        occurrences(detach_members(m), name) == occurrences(m, name),
    decreases m.len(),
{
    lemma_detach_members(m);
    if m.len() > 0 {
        lemma_detach_members(m.drop_first());
        assert(detach_members(m).drop_first() =~= detach_members(m.drop_first()));
        lemma_detach_member(m.drop_first(), name);
    }
    if let Some(v) = member(m, name) {
        lemma_detach_kind(v);
    }
}

impl<'i> Json<'i> {
    /// The members of the document, if it is an object.
    pub fn as_object(&self) -> (r: Option<&Vec<(Text<'i>, Json<'i>)>>)
        ensures
            match r {
                Some(members) => self.deep_view() == JsonView::Object(members_view(*members)),
                None => !(self.deep_view() is Object),
            },
    {
        match self {
            Json::Object(members) => {
                proof {
                    lemma_members_view(*members);
                }
                Some(members)
            },
            _ => None,
        }
    }

    /// The elements of the document, if it is an array.
    pub fn as_array(&self) -> (r: Option<&Vec<Json<'i>>>)
        ensures
            match r {
                Some(items) => self.deep_view() == JsonView::Array(items_view(*items)),
                None => !(self.deep_view() is Array),
            },
    {
        match self {
            Json::Array(items) => {
                proof {
                    lemma_items_view(*items);
                }
                Some(items)
            },
            _ => None,
        }
    }
}

impl<'i> Json<'i> {
    /// A copy of the document that owns all its text. A record decoded from
    /// the copy can outlive the line that the document was read from.
    #[verifier::loop_isolation(false)]
    pub fn detached(&self) -> (r: Json<'static>)
        ensures
            r.deep_view() == detach(self.deep_view()),
        decreases self,
    {
        proof {
            reveal_with_fuel(detach, 2);
        }
        match self {
            Json::Null => Json::Null,
            Json::Bool(b) => Json::Bool(*b),
            Json::Number(n) => Json::Number(*n),
            Json::Text(t) => Json::Text(Text::Owned(t.as_str().to_owned())),
            Json::Array(items) => {
                proof {
                    lemma_items_view(*items);
                }
                let mut out: Vec<Json<'static>> = Vec::new();
                let mut i: usize = 0;
                while i < items.len()
                    invariant
                        i <= items.len(),
                        out.len() == i,
                        forall|j: int| 0 <= j < i ==> (#[trigger] out[j]).deep_view() == detach(items[j].deep_view()),
                    decreases items.len() - i,
                {
                    out.push(items[i].detached());
                    i += 1;
                }
                proof {
                    lemma_items_view(out);
                    assert(items_view(out) =~= detach(self.deep_view())->Array_0);
                }
                Json::Array(out)
            },
            Json::Object(members) => {
                proof {
                    lemma_members_view(*members);
                }
                let mut out: Vec<(Text<'static>, Json<'static>)> = Vec::new();
                let mut i: usize = 0;
                while i < members.len()
                    invariant
                        i <= members.len(),
                        out.len() == i,
                        forall|j: int|
                            0 <= j < i ==> (#[trigger] out[j]).0.deep_view() == (TextView {
                                chars: members[j].0.deep_view().chars,
                                borrowed: false,
                            }) && out[j].1.deep_view() == detach(members[j].1.deep_view()),
                    decreases members.len() - i,
                {
                    let name = Text::Owned(members[i].0.as_str().to_owned());
                    out.push((name, members[i].1.detached()));
                    i += 1;
                }
                proof {
                    lemma_members_view(out);
                    assert(members_view(out) =~= detach(self.deep_view())->Object_0);
                }
                Json::Object(out)
            },
        }
    }
}

} // verus!

