//! JSON values.

use vstd::prelude::*;

use crate::seqs;
use crate::text;

verus! {

/// A JSON number: a whole number that fits in 64 bits, or the text of any other.
#[derive(Clone, Debug, PartialEq, Eq)]
pub enum Number {
    Unsigned(u64),
    Negative(i64),
    Other(String),
}

/// A JSON value. Members of an object stand in order.
#[derive(Debug, PartialEq, Eq)]
pub enum Json {
    Null,
    Bool(bool),
    Number(Number),
    Str(String),
    Array(Vec<Json>),
    Object(Vec<(String, Json)>),
}

/// What a JSON number says.
pub enum NumberView {
    Unsigned(u64),
    Negative(i64),
    Other(Seq<char>),
}

/// What a JSON value says.
pub enum JsonView {
    Null,
    Bool(bool),
    Number(NumberView),
    Str(Seq<char>),
    Array(Seq<JsonView>),
    Object(Seq<(Seq<char>, JsonView)>),
}

impl View for Number {
    type V = NumberView;

    open spec fn view(&self) -> NumberView {
        match self {
            Number::Unsigned(n) => NumberView::Unsigned(*n),
            Number::Negative(n) => NumberView::Negative(*n),
            Number::Other(t) => NumberView::Other(t@),
        }
    }
}

/// What a JSON value says.
pub open spec fn value_view(j: Json) -> JsonView
    decreases j,
{
    match j {
        Json::Null => JsonView::Null,
        Json::Bool(b) => JsonView::Bool(b),
        Json::Number(n) => JsonView::Number(n@),
        Json::Str(s) => JsonView::Str(s@),
        Json::Array(items) => JsonView::Array(items_view(items@)),
        Json::Object(members) => JsonView::Object(members_view(members@)),
    }
}

/// What the items of an array say.
pub open spec fn items_view(items: Seq<Json>) -> Seq<JsonView>
    decreases items,
{
    if items.len() == 0 {
        seq![]
    } else {
        items_view(items.drop_last()).push(value_view(items.last()))
    }
}

/// What the members of an object say.
pub open spec fn members_view(members: Seq<(String, Json)>) -> Seq<(Seq<char>, JsonView)>
    decreases members,
{
    if members.len() == 0 {
        seq![]
    } else {
        members_view(members.drop_last()).push((members.last().0@, value_view(members.last().1)))
    }
}

impl View for Json {
    type V = JsonView;

    open spec fn view(&self) -> JsonView {
        value_view(*self)
    }
}

/// The views of an array's items, one by one.
pub proof fn lemma_items_view(items: Seq<Json>)
    ensures
        items_view(items).len() == items.len(),
        forall|i: int|
            0 <= i < items.len() ==> #[trigger] items_view(items)[i] == value_view(items[i]),
    decreases items,
{
    if items.len() > 0 {
        lemma_items_view(items.drop_last());
        assert forall|i: int| 0 <= i < items.len() implies #[trigger] items_view(items)[i]
            == value_view(items[i]) by {
            if i < items.len() - 1 {
                assert(items.drop_last()[i] == items[i]);
                assert(items_view(items.drop_last())[i] == value_view(items.drop_last()[i]));
            }
        }
    }
}

/// The views of an object's members, one by one.
pub proof fn lemma_members_view(members: Seq<(String, Json)>)
    ensures
        members_view(members).len() == members.len(),
        forall|i: int|
            0 <= i < members.len() ==> #[trigger] members_view(members)[i] == (
                members[i].0@,
                value_view(members[i].1),
            ),
    decreases members,
{
    if members.len() > 0 {
        lemma_members_view(members.drop_last());
        assert forall|i: int| 0 <= i < members.len() implies #[trigger] members_view(members)[i]
            == (members[i].0@, value_view(members[i].1)) by {
            if i < members.len() - 1 {
                assert(members.drop_last()[i] == members[i]);
                assert(members_view(members.drop_last())[i] == (
                    members.drop_last()[i].0@,
                    value_view(members.drop_last()[i].1),
                ));
            }
        }
    }
}

/// The members called `key`.
pub open spec fn called(key: Seq<char>) -> spec_fn((Seq<char>, JsonView)) -> bool {
    |m: (Seq<char>, JsonView)| m.0 == key
}

/// The value of the first member called `key`, if the value is an object and has one.
pub open spec fn member(j: JsonView, key: Seq<char>) -> Option<JsonView> {
    match j {
        JsonView::Object(members) => match seqs::first_where(members, called(key)) {
            Some(i) => Some(members[i].1),
            None => None,
        },
        _ => None,
    }
}

/// The text of a string.
pub open spec fn str_of(j: JsonView) -> Option<Seq<char>> {
    match j {
        JsonView::Str(s) => Some(s),
        _ => None,
    }
}

/// The value of a whole number that is not negative.
pub open spec fn u64_of(j: JsonView) -> Option<u64> {
    match j {
        JsonView::Number(NumberView::Unsigned(n)) => Some(n),
        _ => None,
    }
}

/// The items of an array.
pub open spec fn array_of(j: JsonView) -> Option<Seq<JsonView>> {
    match j {
        JsonView::Array(items) => Some(items),
        _ => None,
    }
}

/// The member called `key` of a value that may be missing.
pub open spec fn member_opt(j: Option<JsonView>, key: Seq<char>) -> Option<JsonView> {
    match j {
        Some(j) => member(j, key),
        None => None,
    }
}

/// The text of a value that may be missing.
pub open spec fn str_opt(j: Option<JsonView>) -> Option<Seq<char>> {
    match j {
        Some(j) => str_of(j),
        None => None,
    }
}

/// The number of a value that may be missing.
pub open spec fn u64_opt(j: Option<JsonView>) -> Option<u64> {
    match j {
        Some(j) => u64_of(j),
        None => None,
    }
}

/// What a reference that may be missing says.
pub open spec fn ref_view(j: Option<&Json>) -> Option<JsonView> {
    match j {
        Some(j) => Some(j@),
        None => None,
    }
}

/// What a text reference that may be missing says.
pub open spec fn str_view(s: Option<&str>) -> Option<Seq<char>> {
    match s {
        Some(s) => Some(s@),
        None => None,
    }
}

impl Json {
    /// The value of the first member called `key`.
    pub fn get(&self, key: &str) -> (r: Option<&Json>)
        ensures
            ref_view(r) == member(self@, key@),
    {
        match self {
            Json::Object(members) => {
                let ghost views = members_view(members@);
                let ghost p = called(key@);
                proof {
                    lemma_members_view(members@);
                }
                let mut i: usize = 0;
                while i < members.len()
                    invariant
                        0 <= i <= members@.len(),
                        views == members_view(members@),
                        views.len() == members@.len(),
                        forall|j: int|
                            0 <= j < members@.len() ==> #[trigger] views[j] == (
                                members@[j].0@,
                                value_view(members@[j].1),
                            ),
                        p == called(key@),
                        self@ == JsonView::Object(views),
                        forall|j: int| 0 <= j < i ==> !p(#[trigger] views[j]),
                    decreases members@.len() - i,
                {
                    assert(views[i as int] == (
                        members@[i as int].0@,
                        value_view(members@[i as int].1),
                    ));
                    if text::str_eq(members[i].0.as_str(), key) {
                        proof {
                            assert(seqs::is_first_where(views, p, i as int));
                            seqs::lemma_first_where(views, p, i as int);
                        }
                        return Some(&members[i].1);
                    }
                    i += 1;
                }
                proof {
                    seqs::lemma_none_where(views, p);
                }
                None
            },
            _ => None,
        }
    }

    /// The text, if the value is a string.
    pub fn as_str(&self) -> (r: Option<&str>)
        ensures
            str_view(r) == str_of(self@),
    {
        match self {
            Json::Str(s) => Some(s.as_str()),
            _ => None,
        }
    }

    /// The number, if the value is a whole number that is not negative.
    pub fn as_u64(&self) -> (r: Option<u64>)
        ensures
            r == u64_of(self@),
    {
        match self {
            Json::Number(Number::Unsigned(n)) => Some(*n),
            _ => None,
        }
    }

    /// The items, if the value is an array.
    pub fn as_array(&self) -> (r: Option<&Vec<Json>>)
        ensures
            match r {
                Some(items) => array_of(self@) == Some(items_view(items@)),
                None => array_of(self@) is None,
            },
    {
        match self {
            Json::Array(items) => Some(items),
            _ => None,
        }
    }

    /// The text of the member called `key`.
    pub fn get_str(&self, key: &str) -> (r: Option<&str>)
        ensures
            str_view(r) == str_opt(member(self@, key@)),
    {
        match self.get(key) {
            Some(j) => j.as_str(),
            None => None,
        }
    }

    /// The number of the member called `key`.
    pub fn get_u64(&self, key: &str) -> (r: Option<u64>)
        ensures
            r == u64_opt(member(self@, key@)),
    {
        match self.get(key) {
            Some(j) => j.as_u64(),
            None => None,
        }
    }

    /// A string value.
    pub fn string(s: &str) -> (j: Json)
        ensures
            j@ == JsonView::Str(s@),
    {
        Json::Str(s.to_owned())
    }

    /// A whole number.
    pub fn number(n: u64) -> (j: Json)
        ensures
            j@ == JsonView::Number(NumberView::Unsigned(n)),
    {
        Json::Number(Number::Unsigned(n))
    }

    /// A copy of the value.
    pub fn copy(&self) -> (j: Json)
        ensures
            j@ == self@,
        decreases self,
    {
        match self {
            Json::Null => Json::Null,
            Json::Bool(b) => Json::Bool(*b),
            Json::Number(Number::Unsigned(n)) => Json::Number(Number::Unsigned(*n)),
            Json::Number(Number::Negative(n)) => Json::Number(Number::Negative(*n)),
            Json::Number(Number::Other(t)) => Json::Number(Number::Other(t.clone())),
            Json::Str(s) => Json::Str(s.clone()),
            Json::Array(items) => {
                let mut out: Vec<Json> = Vec::new();
                let mut i: usize = 0;
                while i < items.len()
                    invariant
                        0 <= i <= items@.len(),
                        *self == Json::Array(*items),
                        items_view(out@) =~= items_view(items@.take(i as int)),
                    decreases items@.len() - i,
                {
                    let ghost before = out@;
                    assert(decreases_to!(*self => self->Array_0));
                    assert(decreases_to!(*items => items@));
                    assert(decreases_to!(items@ => items@[i as int]));
                    out.push(items[i].copy());
                    proof {
                        assert(out@.drop_last() =~= before);
                        assert(items@.take(i + 1).drop_last() =~= items@.take(i as int));
                    }
                    i += 1;
                }
                assert(items@.take(i as int) =~= items@);
                Json::Array(out)
            },
            Json::Object(members) => {
                let mut out: Vec<(String, Json)> = Vec::new();
                let mut i: usize = 0;
                while i < members.len()
                    invariant
                        0 <= i <= members@.len(),
                        *self == Json::Object(*members),
                        members_view(out@) =~= members_view(members@.take(i as int)),
                    decreases members@.len() - i,
                {
                    let ghost before = out@;
                    assert(decreases_to!(*self => self->Object_0));
                    assert(decreases_to!(*members => members@));
                    assert(decreases_to!(members@ => members@[i as int]));
                    assert(decreases_to!(members@[i as int] => members@[i as int].1));
                    out.push((members[i].0.clone(), members[i].1.copy()));
                    proof {
                        assert(out@.drop_last() =~= before);
                        assert(members@.take(i + 1).drop_last() =~= members@.take(i as int));
                    }
                    i += 1;
                }
                assert(members@.take(i as int) =~= members@);
                Json::Object(out)
            },
        }
    }
}

impl Clone for Json {
    fn clone(&self) -> (j: Json)
        ensures
            j@ == self@,
    {
        self.copy()
    }
}

/// Adds a member at the end.
pub fn push_member(members: &mut Vec<(String, Json)>, key: &str, value: Json)
    ensures
        members_view(final(members)@) == members_view(old(members)@).push((key@, value@)),
{
    members.push((key.to_owned(), value));
    assert(members@.drop_last() =~= old(members)@);
}

/// Adds an item at the end.
pub fn push_item(items: &mut Vec<Json>, value: Json)
    ensures
        items_view(final(items)@) == items_view(old(items)@).push(value@),
{
    items.push(value);
    assert(items@.drop_last() =~= old(items)@);
}

/// No members.
pub open spec fn fields() -> Seq<(Seq<char>, JsonView)> {
    Seq::empty()
}

/// A list without members.
pub fn no_members() -> (members: Vec<(String, Json)>)
    ensures
        members_view(members@) == fields(),
{
    Vec::new()
}

/// The object with the given members.
pub fn object(members: Vec<(String, Json)>) -> (j: Json)
    ensures
        j@ == JsonView::Object(members_view(members@)),
{
    Json::Object(members)
}

/// The array with the given items.
pub fn array(items: Vec<Json>) -> (j: Json)
    ensures
        j@ == JsonView::Array(items_view(items@)),
{
    Json::Array(items)
}

/// A string.
pub fn owned(s: String) -> (j: Json)
    ensures
        j@ == JsonView::Str(s@),
{
    Json::Str(s)
}

/// A truth value.
pub fn truth(b: bool) -> (j: Json)
    ensures
        j@ == JsonView::Bool(b),
{
    Json::Bool(b)
}

/// What a whole number says.
pub open spec fn count_view(n: u64) -> JsonView {
    JsonView::Number(NumberView::Unsigned(n))
}

/// A value as `serde_json` holds it.
#[verifier::external_type_specification]
#[verifier::external_body]
pub struct ExValue(serde_json::Value);

/// What a value that `serde_json` holds says.
pub uninterp spec fn held(value: serde_json::Value) -> JsonView;

/// What a text says as JSON, or what is wrong with it in the words of `serde_json`.
pub uninterp spec fn parsed(text: Seq<char>) -> Result<JsonView, Seq<char>>;

/// What bytes say as JSON, or what is wrong with them in the words of `serde_json`.
pub uninterp spec fn parsed_bytes(bytes: Seq<u8>) -> Result<JsonView, Seq<char>>;

/// What a result of parsing says.
pub open spec fn parse_view(r: Result<Json, String>) -> Result<JsonView, Seq<char>> {
    match r {
        Ok(j) => Ok(j@),
        Err(e) => Err(e@),
    }
}

/// `serde_json::from_str` at `serde_json::Value`, and `to_string` of its error. What it
/// accepts, the value that a text stands for and the message about a bad text are left to
/// the names.
#[verifier::external_body]
fn parse_value(text: &str) -> (r: Result<serde_json::Value, String>)
    ensures
        match r {
            Ok(value) => parsed(text@) == Ok::<JsonView, Seq<char>>(held(value)),
            Err(e) => parsed(text@) == Err::<JsonView, Seq<char>>(e@),
        },
{
    serde_json::from_str::<serde_json::Value>(text).map_err(|e| e.to_string())
}

/// `serde_json::from_slice` at `serde_json::Value`, and `to_string` of its error. What it
/// accepts, the value that bytes stand for and the message about bad ones are left to the
/// names.
#[verifier::external_body]
fn parse_slice(bytes: &[u8]) -> (r: Result<serde_json::Value, String>)
    ensures
        match r {
            Ok(value) => parsed_bytes(bytes@) == Ok::<JsonView, Seq<char>>(held(value)),
            Err(e) => parsed_bytes(bytes@) == Err::<JsonView, Seq<char>>(e@),
        },
{
    serde_json::from_slice::<serde_json::Value>(bytes).map_err(|e| e.to_string())
}

/// The content of a `serde_json::Value`, variant by variant and all the way down. A number
/// is a whole number of 64 bits or has the text that `serde_json` prints of it.
#[verifier::external_body]
fn from_value(value: serde_json::Value) -> (j: Json)
    ensures
        j@ == held(value),
{
    match value {
        serde_json::Value::Null => Json::Null,
        serde_json::Value::Bool(b) => Json::Bool(b),
        serde_json::Value::Number(n) => Json::Number(match (n.as_u64(), n.as_i64()) {
            (Some(n), _) => Number::Unsigned(n),
            (None, Some(n)) => Number::Negative(n),
            (None, None) => Number::Other(n.to_string()),
        }),
        serde_json::Value::String(s) => Json::Str(s),
        serde_json::Value::Array(v) => Json::Array(v.into_iter().map(from_value).collect()),
        serde_json::Value::Object(m) => Json::Object(m.into_iter().map(|(k, v)| (k, from_value(v))).collect()),
    }
}

/// What a text says as JSON.
pub fn parse(text: &str) -> (r: Result<Json, String>)
    ensures
        parse_view(r) == parsed(text@),
{
    match parse_value(text) {
        Ok(value) => Ok(from_value(value)),
        Err(e) => Err(e),
    }
}

/// What bytes say as JSON.
pub fn parse_bytes(bytes: &[u8]) -> (r: Result<Json, String>)
    ensures
        parse_view(r) == parsed_bytes(bytes@),
{
    match parse_slice(bytes) {
        Ok(value) => Ok(from_value(value)),
        Err(e) => Err(e),
    }
}

/// A member is found by its name: the first of that name is read, whatever stands around it,
/// and a value that is no object has none.
pub proof fn members_are_found_by_name(
    members: Seq<(Seq<char>, JsonView)>,
    key: Seq<char>,
    i: int,
)
    requires
        0 <= i < members.len(),
        members[i].0 == key,
        forall|j: int| 0 <= j < i ==> (#[trigger] members[j]).0 != key,
    ensures
        member(JsonView::Object(members), key) == Some(members[i].1),
{
    assert(seqs::is_first_where(members, called(key), i));
    seqs::lemma_first_where(members, called(key), i);
}

/// A name that no member has is not found.
pub proof fn missing_members_are_not_found(members: Seq<(Seq<char>, JsonView)>, key: Seq<char>)
    requires
        forall|j: int| 0 <= j < members.len() ==> (#[trigger] members[j]).0 != key,
    ensures
        member(JsonView::Object(members), key) is None,
        member(JsonView::Null, key) is None,
{
    seqs::lemma_none_where(members, called(key));
}

/// The value is an object with such a member.
pub open spec fn says(j: JsonView, key: Seq<char>, value: JsonView) -> bool {
    j matches JsonView::Object(members) && members.contains((key, value))
}

} // verus!
