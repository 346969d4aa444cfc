//! Indexes from a name to what was logged under it, kept in the order in which
//! the names were first seen.
//!
//! The indexes are `LinearMap`s. What such a map holds is named by
//! [`header_entries`] and [`variable_entries`]; the functions marked
//! `external_body` say what the map's own methods do to that.

use vstd::prelude::*;
use linear_map::LinearMap;
use crate::error::{DecodeError, DecodeErrorView, ErrorKind};
use crate::document::{
    detach_members, find_only, lemma_detach_kind, lemma_detach_member, lemma_detach_members, lemma_members_view, member,
    members_view, only_member, present_member, Json, JsonView, Members, Text, TextView,
};
use crate::decode::{borrow_text, borrowed_text, in_field, members_of, Decode, Profile};

verus! {

#[verifier::external_type_specification]
#[verifier::external_body]
#[verifier::reject_recursive_types(K)]
#[verifier::reject_recursive_types(V)]
pub struct ExLinearMap<K, V>(LinearMap<K, V>);

/// Header values by header name.
pub type IndexedHeader<'i> = LinearMap<&'i str, Vec<&'i str>>;

/// Headers as they came: pairs of name and value.
pub type RawHeader<'i> = Vec<(&'i str, &'i str)>;

/// Log variables by name.
pub type LogVarsIndex<'i> = LinearMap<&'i str, &'i str>;

/// What a header index holds, as mathematics.
pub type HeaderEntries = Seq<(Seq<char>, Seq<Seq<char>>)>;

/// What a variable index holds, as mathematics.
pub type VariableEntries = Seq<(Seq<char>, Seq<char>)>;

/// The entries of a header index, in the order of the map's storage.
pub uninterp spec fn header_entries(index: LinearMap<&str, Vec<&str>>) -> Seq<(Seq<char>, Seq<Seq<char>>)>;

/// The entries of a variable index, in the order of the map's storage.
pub uninterp spec fn variable_entries(index: LinearMap<&str, &str>) -> Seq<(Seq<char>, Seq<char>)>;

/// The place of the first entry called `name`, or the number of entries if
/// there is none.
pub open spec fn first_position<V>(entries: Seq<(Seq<char>, V)>, name: Seq<char>) -> int
    decreases entries.len(),
{
    if entries.len() == 0 {
        0
    } else if entries[0].0 == name {
        0
    } else {
        1 + first_position(entries.drop_first(), name)
    }
}

/// The value of the first entry called `name`.
pub open spec fn lookup<V>(entries: Seq<(Seq<char>, V)>, name: Seq<char>) -> Option<V> {
    let p = first_position(entries, name);
    if 0 <= p < entries.len() {
        Some(entries[p].1)
    } else {
        None
    }
}

/// The entries after `value` is put under `name`: the first entry called
/// `name` keeps its place and its key and takes the value; without such an
/// entry, a new one is added at the end.
pub open spec fn put<V>(
    entries: Seq<(Seq<char>, V)>,
    name: Seq<char>,
    value: V,
) -> Seq<(Seq<char>, V)> {
    let p = first_position(entries, name);
    if 0 <= p < entries.len() {
        entries.update(p, (entries[p].0, value))
    } else {
        entries.push((name, value))
    }
}

/// `LinearMap::new`: a map without entries.
#[verifier::external_body]
pub(crate) fn new_header_index<'i>() -> (index: IndexedHeader<'i>)
    ensures
        header_entries(index) == Seq::<(Seq<char>, Seq<Seq<char>>)>::empty(),
{
    LinearMap::new()
}

/// `LinearMap::get`: a linear search from the front for a key equal to
/// `name`, which hands out the value stored with the first one found.
#[verifier::external_body]
pub(crate) fn header_values<'a, 'i>(
    index: &'a IndexedHeader<'i>,
    name: &str,
) -> (r: Option<&'a Vec<&'i str>>)
    ensures
        r.deep_view() == lookup(header_entries(*index), name@),
{
    index.get(name)
}

/// `LinearMap::insert`: replaces the value of the first entry whose key
/// equals `name`, and leaves that entry's key and place as they are; where no
/// key equals `name`, pushes a new entry at the end.
#[verifier::external_body]
pub(crate) fn put_header<'i>(index: &mut IndexedHeader<'i>, name: &'i str, values: Vec<&'i str>)
    ensures
        header_entries(*final(index)) == put(header_entries(*old(index)), name@, values.deep_view()),
{
    index.insert(name, values);
}

/// `LinearMap::new`: a map without entries.
#[verifier::external_body]
pub(crate) fn new_variable_index<'i>() -> (index: LogVarsIndex<'i>)
    ensures
        variable_entries(index) == Seq::<(Seq<char>, Seq<char>)>::empty(),
{
    LinearMap::new()
}

/// `LinearMap::insert`: replaces the value of the first entry whose key
/// equals `name`, and leaves that entry's key and place as they are; where no
/// key equals `name`, pushes a new entry at the end.
#[verifier::external_body]
pub(crate) fn put_variable<'i>(index: &mut LogVarsIndex<'i>, name: &'i str, value: &'i str)
    ensures
        variable_entries(*final(index)) == put(variable_entries(*old(index)), name@, value@),
{
    index.insert(name, value);
}

/// The entries after `values` are logged under `name`: they follow the values
/// that the name already has.
pub open spec fn merged(
    entries: HeaderEntries,
    name: Seq<char>,
    values: Seq<Seq<char>>,
) -> HeaderEntries {
    match lookup(entries, name) {
        Some(earlier) => put(entries, name, earlier + values),
        None => put(entries, name, values),
    }
}

/// The rule for a header index: each member of the object, in order, gives a
/// name and the array of strings logged under it; a name that comes again
/// adds its values to those it has. Names and values are text fields, bound
/// by the rule [`borrowed_text`].
pub open spec fn header_index_of(
    m: Members,
    profile: Profile,
) -> Result<HeaderEntries, DecodeErrorView>
    decreases m.len(),
{
    if m.len() == 0 {
        Ok(Seq::empty())
    } else {
        match header_index_of(m.drop_last(), profile) {
            Err(e) => Err(e),
            Ok(entries) => match in_field(m.last().0.chars, borrowed_text(m.last().0, profile)) {
                Err(e) => Err(e),
                Ok(name) => match in_field(name, <Vec<&str>>::decoded(m.last().1, profile)) {
                    Err(e) => Err(e),
                    Ok(values) => Ok(merged(entries, name, values)),
                },
            },
        }
    }
}

/// The rule for a value that is a header index: it must be an object.
pub open spec fn header_index(
    v: JsonView,
    profile: Profile,
) -> Result<HeaderEntries, DecodeErrorView> {
    match v {
        JsonView::Object(m) => header_index_of(m, profile),
        _ => Err(DecodeErrorView::here(ErrorKind::SchemaMismatch)),
    }
}

/// The rule for a field that holds a header index and may be left out.
#[verifier::opaque]
pub open spec fn optional_header_index_field(
    m: Members,
    name: Seq<char>,
    profile: Profile,
) -> Result<Option<HeaderEntries>, DecodeErrorView> {
    match only_member(m, name) {
        Err(e) => Err(e),
        Ok(None) => Ok(None),
        Ok(Some(JsonView::Null)) => Ok(None),
        Ok(Some(v)) => match in_field(name, header_index(v, profile)) {
            Ok(entries) => Ok(Some(entries)),
            Err(e) => Err(e),
        },
    }
}

/// The view of a header index that may be absent.
pub open spec fn optional_entries(index: Option<IndexedHeader>) -> Option<HeaderEntries> {
    match index {
        Some(index) => Some(header_entries(index)),
        None => None,
    }
}

/// The view of the result of decoding a header index.
pub open spec fn index_outcome(
    r: Result<IndexedHeader, DecodeError>,
) -> Result<HeaderEntries, DecodeErrorView> {
    match r {
        Ok(index) => Ok(header_entries(index)),
        Err(e) => Err(e.deep_view()),
    }
}

/// The view of the result of decoding a header index that may be absent.
pub open spec fn optional_index_outcome(
    r: Result<Option<IndexedHeader>, DecodeError>,
) -> Result<Option<HeaderEntries>, DecodeErrorView> {
    match r {
        Ok(index) => Ok(optional_entries(index)),
        Err(e) => Err(e.deep_view()),
    }
}

/// Once a prefix of the members fails, all of them fail in the same way.
pub proof fn lemma_header_index_fail(m: Members, profile: Profile, n: int)
    requires
        0 <= n <= m.len(),
        header_index_of(m.take(n), profile) is Err,
    ensures
        header_index_of(m, profile) == header_index_of(m.take(n), profile),
    decreases m.len() - n,
{
    if n == m.len() {
        assert(m.take(n) =~= m);
    } else {
        assert(m.take(n + 1).drop_last() =~= m.take(n));
        lemma_header_index_fail(m, profile, n + 1);
    }
}

/// The values of `front` followed by those of `back`.
fn joined<'i>(front: &Vec<&'i str>, back: Vec<&'i str>) -> (r: Vec<&'i str>)
    ensures
        r.deep_view() == front.deep_view() + back.deep_view(),
{
    let mut out: Vec<&'i str> = Vec::new();
    let mut i: usize = 0;
    while i < front.len()
        invariant
            i <= front.len(),
            out.len() == i,
            forall|j: int| 0 <= j < i ==> out[j]@ == front[j]@,
        decreases front.len() - i,
    {
        out.push(front[i]);
        i += 1;
    }
    let mut k: usize = 0;
    while k < back.len()
        invariant
            k <= back.len(),
            out.len() == front.len() + k,
            forall|j: int| 0 <= j < front.len() ==> out[j]@ == front[j]@,
            forall|j: int| 0 <= j < k ==> out[front.len() + j]@ == back[j]@,
        decreases back.len() - k,
    {
        out.push(back[k]);
        k += 1;
    }
    proof {
        assert(out.deep_view() =~= front.deep_view() + back.deep_view());
    }
    out
}

/// Binds `v` to a header index by the rule [`header_index`].
pub fn decode_header_index<'t>(
    v: &'t Json<'t>,
    profile: Profile,
) -> (r: Result<IndexedHeader<'t>, DecodeError>)
    ensures
        index_outcome(r) == header_index(v.deep_view(), profile),
{
    let members = match members_of(v) {
        Ok(members) => members,
        Err(e) => return Err(e),
    };
    let ghost m = members_view(*members);
    proof {
        lemma_members_view(*members);
        assert(m.take(0) =~= Seq::<(TextView, JsonView)>::empty());
    }
    let mut index = new_header_index();
    let mut i: usize = 0;
    while i < members.len()
        invariant
            i <= members.len(),
            v.deep_view() == JsonView::Object(m),
            m == members_view(*members),
            m.len() == members.len(),
            forall|j: int|
                0 <= j < members.len() ==> #[trigger] m[j] == (members[j].0.deep_view(), members[j].1.deep_view()),
            header_index_of(m.take(i as int), profile) == Ok::<HeaderEntries, DecodeErrorView>(header_entries(index)),
        decreases members.len() - i,
    {
        proof {
            assert(m.take(i as int + 1).drop_last() =~= m.take(i as int));
            assert(m.take(i as int + 1).last() == m[i as int]);
        }
        let name = match borrow_text(&members[i].0, profile) {
            Ok(name) => name,
            Err(e) => {
                proof {
                    lemma_header_index_fail(m, profile, i as int + 1);
                }
                return Err(e.within_field(members[i].0.as_str()));
            },
        };
        let values = match <Vec<&str>>::decode(&members[i].1, profile) {
            Ok(values) => values,
            Err(e) => {
                proof {
                    lemma_header_index_fail(m, profile, i as int + 1);
                }
                return Err(e.within_field(name));
            },
        };
        let all = match header_values(&index, name) {
            Some(earlier) => joined(earlier, values),
            None => values,
        };
        put_header(&mut index, name, all);
        i += 1;
    }
    proof {
        assert(m.take(i as int) =~= m);
    }
    Ok(index)
}

/// Binds the member called `name`, if it is there and not `null`, to a header
/// index.
pub fn optional_header_index<'t>(
    members: &'t Vec<(Text<'t>, Json<'t>)>,
    name: &str,
    profile: Profile,
) -> (r: Result<Option<IndexedHeader<'t>>, DecodeError>)
    ensures
        optional_index_outcome(r) == optional_header_index_field(members_view(*members), name@, profile),
{
    reveal(optional_header_index_field);
    match find_only(members, name) {
        Err(e) => Err(e),
        Ok(None) => Ok(None),
        Ok(Some(Json::Null)) => Ok(None),
        Ok(Some(v)) => match decode_header_index(v, profile) {
            Ok(index) => Ok(Some(index)),
            Err(e) => Err(e.within_field(name)),
        },
    }
}

/// The rule for a variable index: each member of the object, in order, gives
/// a name, which the index borrows, and the string logged under it; a name
/// that comes again replaces the string it has.
pub open spec fn variable_index_of(
    m: Members,
    profile: Profile,
) -> Result<VariableEntries, DecodeErrorView>
    decreases m.len(),
{
    if m.len() == 0 {
        Ok(Seq::empty())
    } else {
        match variable_index_of(m.drop_last(), profile) {
            Err(e) => Err(e),
            Ok(entries) => match in_field(m.last().0.chars, borrowed_text(m.last().0, profile)) {
                Err(e) => Err(e),
                Ok(name) => match in_field(m.last().0.chars, <&str>::decoded(m.last().1, profile)) {
                    Err(e) => Err(e),
                    Ok(value) => Ok(put(entries, name, value)),
                },
            },
        }
    }
}

/// The rule for a value that is a variable index: it must be an object.
pub open spec fn variable_index(
    v: JsonView,
    profile: Profile,
) -> Result<VariableEntries, DecodeErrorView> {
    match v {
        JsonView::Object(m) => variable_index_of(m, profile),
        _ => Err(DecodeErrorView::here(ErrorKind::SchemaMismatch)),
    }
}

/// The view of the result of decoding a variable index.
pub open spec fn variables_outcome(
    r: Result<LogVarsIndex, DecodeError>,
) -> Result<VariableEntries, DecodeErrorView> {
    match r {
        Ok(index) => Ok(variable_entries(index)),
        Err(e) => Err(e.deep_view()),
    }
}

/// Once a prefix of the members fails, all of them fail in the same way.
pub proof fn lemma_variable_index_fail(m: Members, profile: Profile, n: int)
    requires
        0 <= n <= m.len(),
        variable_index_of(m.take(n), profile) is Err,
    ensures
        variable_index_of(m, profile) == variable_index_of(m.take(n), profile),
    decreases m.len() - n,
{
    if n == m.len() {
        assert(m.take(n) =~= m);
    } else {
        assert(m.take(n + 1).drop_last() =~= m.take(n));
        lemma_variable_index_fail(m, profile, n + 1);
    }
}

/// Binds `v` to a variable index by the rule [`variable_index`].
pub fn decode_variable_index<'t>(
    v: &'t Json<'t>,
    profile: Profile,
) -> (r: Result<LogVarsIndex<'t>, DecodeError>)
    ensures
        variables_outcome(r) == variable_index(v.deep_view(), profile),
{
    let members = match members_of(v) {
        Ok(members) => members,
        Err(e) => return Err(e),
    };
    let ghost m = members_view(*members);
    proof {
        lemma_members_view(*members);
        assert(m.take(0) =~= Seq::<(TextView, JsonView)>::empty());
    }
    let mut index = new_variable_index();
    let mut i: usize = 0;
    while i < members.len()
        invariant
            i <= members.len(),
            v.deep_view() == JsonView::Object(m),
            m == members_view(*members),
            m.len() == members.len(),
            forall|j: int|
                0 <= j < members.len() ==> #[trigger] m[j] == (members[j].0.deep_view(), members[j].1.deep_view()),
            variable_index_of(m.take(i as int), profile) == Ok::<VariableEntries, DecodeErrorView>(
                variable_entries(index),
            ),
        decreases members.len() - i,
    {
        proof {
            assert(m.take(i as int + 1).drop_last() =~= m.take(i as int));
            assert(m.take(i as int + 1).last() == m[i as int]);
        }
        let name = match borrow_text(&members[i].0, profile) {
            Ok(name) => name,
            Err(e) => {
                proof {
                    lemma_variable_index_fail(m, profile, i as int + 1);
                }
                return Err(e.within_field(members[i].0.as_str()));
            },
        };
        let value = match <&str>::decode(&members[i].1, profile) {
            Ok(value) => value,
            Err(e) => {
                proof {
                    lemma_variable_index_fail(m, profile, i as int + 1);
                }
                return Err(e.within_field(name));
            },
        };
        put_variable(&mut index, name, value);
        i += 1;
    }
    proof {
        assert(m.take(i as int) =~= m);
    }
    Ok(index)
}

/// The rule for a field that holds a variable index and must be there.
#[verifier::opaque]
pub open spec fn required_variable_index_field(
    m: Members,
    name: Seq<char>,
    profile: Profile,
) -> Result<VariableEntries, DecodeErrorView> {
    match only_member(m, name) {
        Err(e) => Err(e),
        Ok(None) => Err(DecodeErrorView::missing(name)),
        Ok(Some(v)) => in_field(name, variable_index(v, profile)),
    }
}

/// Binds the member called `name`, which must be there, to a variable index.
pub fn required_variable_index<'t>(
    members: &'t Vec<(Text<'t>, Json<'t>)>,
    name: &str,
    profile: Profile,
) -> (r: Result<LogVarsIndex<'t>, DecodeError>)
    ensures
        variables_outcome(r) == required_variable_index_field(members_view(*members), name@, profile),
{
    reveal(required_variable_index_field);
    match find_only(members, name) {
        Err(e) => Err(e),
        Ok(None) => Err(DecodeError::missing(name)),
        Ok(Some(v)) => match decode_variable_index(v, profile) {
            Ok(index) => Ok(index),
            Err(e) => Err(e.within_field(name)),
        },
    }
}

/// A header index is bound alike from an object and from its detached copy,
/// in the copying profile.
pub proof fn lemma_header_index_detached(m: Members)
    ensures
        header_index_of(detach_members(m), Profile::Copying) == header_index_of(m, Profile::Copying),
    decreases m.len(),
{
    lemma_detach_members(m);
    if m.len() > 0 {
        lemma_detach_members(m.drop_last());
        assert(detach_members(m).drop_last() =~= detach_members(m.drop_last()));
        lemma_header_index_detached(m.drop_last());
        <Vec<&str>>::lemma_detached(m.last().1);
    }
}

/// A field that holds a header index is bound alike in an object and in its
/// detached copy, in the copying profile.
pub proof fn lemma_optional_header_index_detached(m: Members, name: Seq<char>)
    ensures
        optional_header_index_field(detach_members(m), name, Profile::Copying) == optional_header_index_field(
            m,
            name,
            Profile::Copying,
        ),
{
    reveal(optional_header_index_field);
    lemma_detach_member(m, name);
    if let Some(v) = present_member(m, name) {
        lemma_detach_kind(v);
        if let JsonView::Object(inner) = v {
            lemma_detach_members(inner);
            lemma_header_index_detached(inner);
        }
    }
}

/// A variable index is bound alike from an object and from its detached
/// copy, in the copying profile.
pub proof fn lemma_variable_index_detached(m: Members)
    ensures
        variable_index_of(detach_members(m), Profile::Copying) == variable_index_of(m, Profile::Copying),
    decreases m.len(),
{
    lemma_detach_members(m);
    if m.len() > 0 {
        lemma_detach_members(m.drop_last());
        assert(detach_members(m).drop_last() =~= detach_members(m.drop_last()));
        lemma_variable_index_detached(m.drop_last());
        <&str>::lemma_detached(m.last().1);
    }
}

/// A field that holds a variable index is bound alike in an object and in
/// its detached copy, in the copying profile.
pub proof fn lemma_required_variable_index_detached(m: Members, name: Seq<char>)
    ensures
        required_variable_index_field(detach_members(m), name, Profile::Copying) == required_variable_index_field(
            m,
            name,
            Profile::Copying,
        ),
{
    reveal(required_variable_index_field);
    lemma_detach_member(m, name);
    if let Some(v) = member(m, name) {
        lemma_detach_kind(v);
        if let JsonView::Object(inner) = v {
            lemma_detach_members(inner);
            lemma_variable_index_detached(inner);
        }
    }
}

/// No two members have the same name.
pub open spec fn distinct_names(m: Members) -> bool {
    forall|i: int, j: int| 0 <= i < j < m.len() ==> (#[trigger] m[i]).0.chars != (#[trigger] m[j]).0.chars
}

/// A name that no entry has is put at the end.
pub proof fn lemma_first_position_absent<V>(entries: Seq<(Seq<char>, V)>, name: Seq<char>)
    requires
        forall|i: int| 0 <= i < entries.len() ==> (#[trigger] entries[i]).0 != name,
    ensures
        first_position(entries, name) == entries.len(),
    decreases entries.len(),
{
    if entries.len() > 0 {
        assert(forall|i: int| 0 <= i < entries.len() - 1 ==> entries.drop_first()[i] == entries[i + 1]);
        lemma_first_position_absent(entries.drop_first(), name);
    }
}

/// What a header index holds where no name comes twice: one entry for each
/// member, in the order of the members, with the member's name and the
/// strings of its array in their order.
pub proof fn lemma_header_index_content(m: Members, profile: Profile)
    requires
        distinct_names(m),
        header_index_of(m, profile) is Ok,
    ensures
        header_index_of(m, profile)->Ok_0.len() == m.len(),
        forall|i: int|
            0 <= i < m.len() ==> {
                &&& (#[trigger] header_index_of(m, profile)->Ok_0[i]).0 == m[i].0.chars
                &&& borrowed_text(m[i].0, profile) is Ok
                &&& <Vec<&str>>::decoded(m[i].1, profile) == Ok::<Seq<Seq<char>>, DecodeErrorView>(
                    header_index_of(m, profile)->Ok_0[i].1,
                )
            },
    decreases m.len(),
{
    if m.len() > 0 {
        let front = m.drop_last();
        assert(forall|i: int| 0 <= i < front.len() ==> front[i] == m[i]);
        assert(distinct_names(front));
        lemma_header_index_content(front, profile);
        let earlier = header_index_of(front, profile)->Ok_0;
        assert(forall|i: int| 0 <= i < earlier.len() ==> (#[trigger] earlier[i]).0 != m.last().0.chars) by {
            assert(forall|i: int| 0 <= i < earlier.len() ==> (#[trigger] earlier[i]).0 == m[i].0.chars);
            assert(m.last() == m[m.len() - 1]);
        }
        lemma_first_position_absent(earlier, m.last().0.chars);
    }
}

/// What a variable index holds where no name comes twice: one entry for each
/// member, in the order of the members, with the member's name and its
/// string.
pub proof fn lemma_variable_index_content(m: Members, profile: Profile)
    requires
        distinct_names(m),
        variable_index_of(m, profile) is Ok,
    ensures
        variable_index_of(m, profile)->Ok_0.len() == m.len(),
        forall|i: int|
            0 <= i < m.len() ==> {
                &&& (#[trigger] variable_index_of(m, profile)->Ok_0[i]).0 == m[i].0.chars
                &&& borrowed_text(m[i].0, profile) is Ok
                &&& <&str>::decoded(m[i].1, profile) == Ok::<Seq<char>, DecodeErrorView>(
                    variable_index_of(m, profile)->Ok_0[i].1,
                )
            },
    decreases m.len(),
{
    if m.len() > 0 {
        let front = m.drop_last();
        assert(forall|i: int| 0 <= i < front.len() ==> front[i] == m[i]);
        assert(distinct_names(front));
        lemma_variable_index_content(front, profile);
        let earlier = variable_index_of(front, profile)->Ok_0;
        assert(forall|i: int| 0 <= i < earlier.len() ==> (#[trigger] earlier[i]).0 != m.last().0.chars) by {
            assert(forall|i: int| 0 <= i < earlier.len() ==> (#[trigger] earlier[i]).0 == m[i].0.chars);
            assert(m.last() == m[m.len() - 1]);
        }
        lemma_first_position_absent(earlier, m.last().0.chars);
    }
}

} // verus!
