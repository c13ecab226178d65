//! A JSON value held as plain data, and what the message layer reads from
//! one.
//!
//! serde_json writes and reads the text; `reads_back` says which values it
//! reads back exactly as they were written: no number other than an
//! integer (a `Negative` one below zero), the members of every object in
//! ascending key order with no key twice (serde_json keeps objects in a
//! sorted map), and at most 127 nested arrays and objects (its recursion
//! limit).

use vstd::prelude::*;

use super::outside::json_number_text_ok;

verus! {

/// A JSON number: a non-negative integer, a negative integer, or the text
/// of any other number.
#[derive(Debug, PartialEq)]
pub enum JsonNumber {
    Unsigned(u64),
    Negative(i64),
    Real(String),
}

/// A JSON value.
#[derive(Debug, PartialEq)]
pub enum JsonValue {
    Null,
    Bool(bool),
    Number(JsonNumber),
    String(String),
    Array(Vec<JsonValue>),
    Object(Vec<JsonMember>),
}

/// A member of a JSON object: a key and its value.
#[derive(Debug, PartialEq)]
pub struct JsonMember {
    pub key: String,
    pub value: JsonValue,
}

/// A JSON value with its texts taken by their characters.
pub enum JsonView {
    Null,
    Bool(bool),
    Unsigned(u64),
    Negative(i64),
    Real(Seq<char>),
    Str(Seq<char>),
    Array(Seq<JsonView>),
    Object(Seq<(Seq<char>, JsonView)>),
}

/// The views of a sequence of values.
pub open spec fn items_view(s: Seq<JsonValue>) -> Seq<JsonView>
    decreases s,
{
    if s.len() == 0 {
        Seq::empty()
    } else {
        items_view(s.subrange(0, s.len() - 1)).push(s[s.len() - 1].view())
    }
}

/// A member's key, by its characters, and its value's view.
pub open spec fn member_view(m: JsonMember) -> (Seq<char>, JsonView)
    decreases m,
{
    (m.key@, m.value.view())
}

/// The views of a sequence of object members: each key's characters and
/// the view of its value.
pub open spec fn members_view(s: Seq<JsonMember>) -> Seq<(Seq<char>, JsonView)>
    decreases s,
{
    if s.len() == 0 {
        Seq::empty()
    } else {
        members_view(s.subrange(0, s.len() - 1)).push(member_view(s[s.len() - 1]))
    }
}

/// `items_view` maps each value to its view.
pub proof fn lemma_items_view(s: Seq<JsonValue>)
    ensures
        items_view(s).len() == s.len(),
        forall|i: int| 0 <= i < s.len() ==> #[trigger] items_view(s)[i] == s[i].view(),
    decreases s.len(),
{
    if s.len() > 0 {
        let t = s.subrange(0, s.len() - 1);
        lemma_items_view(t);
        assert(items_view(s) == items_view(t).push(s[s.len() - 1].view()));
        assert forall|i: int| 0 <= i < s.len() - 1 implies #[trigger] items_view(s)[i] == s[i].view() by {
            assert(t[i] == s[i]);
        }
    }
}

/// `members_view` maps each member to its key's characters and its value's view.
pub proof fn lemma_members_view(s: Seq<JsonMember>)
    ensures
        members_view(s).len() == s.len(),
        forall|i: int| 0 <= i < s.len() ==> #[trigger] members_view(s)[i] == member_view(s[i]),
    decreases s.len(),
{
    if s.len() > 0 {
        let t = s.subrange(0, s.len() - 1);
        lemma_members_view(t);
        assert(members_view(s) == members_view(t).push(member_view(s[s.len() - 1])));
        assert forall|i: int| 0 <= i < s.len() - 1 implies #[trigger] members_view(s)[i] == member_view(s[i]) by {
            assert(t[i] == s[i]);
        }
    }
}

impl View for JsonValue {
    type V = JsonView;

    open spec fn view(&self) -> JsonView
        decreases self,
    {
        match self {
            JsonValue::Null => JsonView::Null,
            JsonValue::Bool(b) => JsonView::Bool(*b),
            JsonValue::Number(JsonNumber::Unsigned(u)) => JsonView::Unsigned(*u),
            JsonValue::Number(JsonNumber::Negative(i)) => JsonView::Negative(*i),
            JsonValue::Number(JsonNumber::Real(t)) => JsonView::Real(t@),
            JsonValue::String(s) => JsonView::Str(s@),
            JsonValue::Array(items) => JsonView::Array(items_view(items@)),
            JsonValue::Object(entries) => JsonView::Object(members_view(entries@)),
        }
    }
}

/// Every `Real` number in `v` has a text that serde_json reads as a number,
/// so serde_json can write `v`.
pub open spec fn json_reals_ok(v: JsonView) -> bool
    decreases v,
{
    match v {
        JsonView::Real(t) => json_number_text_ok(t),
        JsonView::Array(items) => forall|i: int| 0 <= i < items.len() ==> json_reals_ok(#[trigger] items[i]),
        JsonView::Object(ms) => forall|i: int| 0 <= i < ms.len() ==> json_reals_ok(#[trigger] ms[i].1),
        _ => true,
    }
}

/// A value that reads back holds no `Real` number, so serde_json can write it.
pub proof fn lemma_reads_back_writable(v: JsonView, n: nat)
    requires
        reads_back_within(v, n),
    ensures
        json_reals_ok(v),
    decreases n,
{
    match v {
        JsonView::Array(items) => {
            assert forall|i: int| 0 <= i < items.len() implies json_reals_ok(#[trigger] items[i]) by {
                lemma_reads_back_writable(items[i], (n - 1) as nat);
            }
        },
        JsonView::Object(ms) => {
            assert forall|i: int| 0 <= i < ms.len() implies json_reals_ok(#[trigger] ms[i].1) by {
                lemma_reads_back_writable(ms[i].1, (n - 1) as nat);
            }
        },
        _ => {},
    }
}

/// `a` sorts before `b`, character by character (the order of Rust's
/// `String`, since UTF-8 keeps the order of code points).
pub open spec fn text_less(a: Seq<char>, b: Seq<char>) -> bool
    decreases a.len(),
{
    if b.len() == 0 {
        false
    } else if a.len() == 0 {
        true
    } else if a[0] != b[0] {
        (a[0] as u32) < (b[0] as u32)
    } else {
        text_less(a.drop_first(), b.drop_first())
    }
}

/// The keys of `ms` ascend strictly.
pub open spec fn keys_ascending(ms: Seq<(Seq<char>, JsonView)>) -> bool {
    forall|i: int, j: int| 0 <= i < j < ms.len() ==> text_less(#[trigger] ms[i].0, #[trigger] ms[j].0)
}

/// `v` reads back as itself, nested at most `n` arrays and objects deep.
pub open spec fn reads_back_within(v: JsonView, n: nat) -> bool
    decreases n,
{
    match v {
        JsonView::Real(_) => false,
        JsonView::Negative(i) => i < 0,
        JsonView::Array(items) => n > 0 && forall|i: int|
            0 <= i < items.len() ==> reads_back_within(#[trigger] items[i], (n - 1) as nat),
        JsonView::Object(ms) => n > 0 && keys_ascending(ms) && forall|i: int|
            0 <= i < ms.len() ==> reads_back_within(#[trigger] ms[i].1, (n - 1) as nat),
        _ => true,
    }
}

/// What serde_json writes of `v` it reads back as `v`.
pub open spec fn reads_back(v: JsonView) -> bool {
    reads_back_within(v, 127)
}

/// The value of the first member of `ms` with key `key`.
pub open spec fn member_of(ms: Seq<(Seq<char>, JsonView)>, key: Seq<char>) -> Option<JsonView>
    decreases ms.len(),
{
    if ms.len() == 0 {
        None
    } else if ms[0].0 == key {
        Some(ms[0].1)
    } else {
        member_of(ms.drop_first(), key)
    }
}

/// The member `key` of an object (`None` for anything else).
pub open spec fn field(v: JsonView, key: Seq<char>) -> Option<JsonView> {
    match v {
        JsonView::Object(ms) => member_of(ms, key),
        _ => None,
    }
}

/// The member `key` of an object when it is a string.
pub open spec fn field_text(v: JsonView, key: Seq<char>) -> Option<Seq<char>> {
    match field(v, key) {
        Some(JsonView::Str(s)) => Some(s),
        _ => None,
    }
}

/// The member `key` of an object when it is a boolean.
pub open spec fn field_bool(v: JsonView, key: Seq<char>) -> Option<bool> {
    match field(v, key) {
        Some(JsonView::Bool(b)) => Some(b),
        _ => None,
    }
}

/// The member `key` of an object when it is an integer that fits in `u64`.
pub open spec fn field_u64(v: JsonView, key: Seq<char>) -> Option<u64> {
    match field(v, key) {
        Some(JsonView::Unsigned(u)) => Some(u),
        Some(JsonView::Negative(i)) => if i >= 0 {
            Some(i as u64)
        } else {
            None
        },
        _ => None,
    }
}

/// The position of the first member of `members` with key `key`.
pub fn find_member(members: &Vec<JsonMember>, key: &str) -> (r: Option<usize>)
    ensures
        match r {
            Some(i) => i < members@.len() && members@[i as int].key@ == key@
                && member_of(members_view(members@), key@) == Some(members@[i as int].value@),
            None => member_of(members_view(members@), key@) is None,
        },
{
    proof {
        lemma_members_view(members@);
        assert(members_view(members@).skip(0) =~= members_view(members@));
    }
    let mut i: usize = 0;
    while i < members.len()
        invariant
            i <= members@.len(),
            members_view(members@).len() == members@.len(),
            forall|j: int| 0 <= j < members@.len() ==> #[trigger] members_view(members@)[j] == member_view(members@[j]),
            member_of(members_view(members@), key@) == member_of(members_view(members@).skip(i as int), key@),
        decreases members@.len() - i,
    {
        let ghost rest = members_view(members@).skip(i as int);
        assert(rest[0] == member_view(members@[i as int]));
        if crate::protocol::message::text_is(members[i].key.as_str(), key) {
            return Some(i);
        }
        assert(rest.drop_first() =~= members_view(members@).skip(i + 1));
        i = i + 1;
    }
    assert(members_view(members@).skip(i as int).len() == 0);
    None
}

/// A copy of the member `key` of an object (see `field`).
pub fn get_field(v: &JsonValue, key: &str) -> (r: Option<JsonValue>)
    ensures
        match r {
            Some(x) => field(v@, key@) == Some(x@),
            None => field(v@, key@) is None,
        },
{
    match v {
        JsonValue::Object(members) => match find_member(members, key) {
            Some(i) => Some(members[i].value.clone()),
            None => None,
        },
        _ => None,
    }
}

/// A copy of the member `key` of an object when it is a string.
pub fn get_text(v: &JsonValue, key: &str) -> (r: Option<String>)
    ensures
        match r {
            Some(s) => field_text(v@, key@) == Some(s@),
            None => field_text(v@, key@) is None,
        },
{
    match v {
        JsonValue::Object(members) => match find_member(members, key) {
            Some(i) => match &members[i].value {
                JsonValue::String(s) => Some(s.clone()),
                _ => None,
            },
            None => None,
        },
        _ => None,
    }
}

/// The member `key` of an object when it is a boolean.
pub fn get_bool(v: &JsonValue, key: &str) -> (r: Option<bool>)
    ensures
        r == field_bool(v@, key@),
{
    match v {
        JsonValue::Object(members) => match find_member(members, key) {
            Some(i) => match &members[i].value {
                JsonValue::Bool(b) => Some(*b),
                _ => None,
            },
            None => None,
        },
        _ => None,
    }
}

/// The member `key` of an object when it is an integer that fits in `u64`.
pub fn get_u64(v: &JsonValue, key: &str) -> (r: Option<u64>)
    ensures
        r == field_u64(v@, key@),
{
    match v {
        JsonValue::Object(members) => match find_member(members, key) {
            Some(i) => match &members[i].value {
                JsonValue::Number(JsonNumber::Unsigned(u)) => Some(*u),
                JsonValue::Number(JsonNumber::Negative(n)) => if *n >= 0 {
                    Some(*n as u64)
                } else {
                    None
                },
                _ => None,
            },
            None => None,
        },
        _ => None,
    }
}

impl Clone for JsonValue {
    #[verifier::loop_isolation(false)]
    fn clone(&self) -> (r: Self)
        ensures
            r@ == self@,
        decreases self,
    {
        match self {
            JsonValue::Null => JsonValue::Null,
            JsonValue::Bool(b) => JsonValue::Bool(*b),
            JsonValue::Number(n) => JsonValue::Number(n.clone()),
            JsonValue::String(s) => JsonValue::String(s.clone()),
            JsonValue::Array(items) => {
                let mut out: Vec<JsonValue> = Vec::new();
                let mut i: usize = 0;
                while i < items.len()
                    invariant
                        i <= items@.len(),
                        out@.len() == i,
                        forall|j: int| 0 <= j < i ==> out@[j]@ == items@[j]@,
                    decreases items@.len() - i,
                {
                    proof {
                        assert(decreases_to!(*self => self->Array_0));
                        assert(decreases_to!(self->Array_0 => self->Array_0@));
                        assert(decreases_to!(self->Array_0@ => items@[i as int]));
                    }
                    out.push(items[i].clone());
                    i = i + 1;
                }
                proof {
                    lemma_items_view(out@);
                    lemma_items_view(items@);
                    assert(items_view(out@) =~= items_view(items@));
                }
                JsonValue::Array(out)
            },
            JsonValue::Object(entries) => {
                let mut out: Vec<JsonMember> = Vec::new();
                let mut i: usize = 0;
                while i < entries.len()
                    invariant
                        i <= entries@.len(),
                        out@.len() == i,
                        forall|j: int| 0 <= j < i ==> out@[j].key@ == entries@[j].key@ && out@[j].value@ == entries@[j].value@,
                    decreases entries@.len() - i,
                {
                    proof {
                        assert(decreases_to!(*self => self->Object_0));
                        assert(decreases_to!(self->Object_0 => self->Object_0@));
                        assert(decreases_to!(self->Object_0@ => entries@[i as int]));
                        assert(decreases_to!(entries@[i as int] => entries@[i as int].value));
                    }
                    out.push(JsonMember { key: entries[i].key.clone(), value: entries[i].value.clone() });
                    i = i + 1;
                }
                proof {
                    lemma_members_view(out@);
                    lemma_members_view(entries@);
                    assert(members_view(out@) =~= members_view(entries@));
                }
                JsonValue::Object(out)
            },
        }
    }
}

impl Clone for JsonNumber {
    fn clone(&self) -> (r: Self)
        ensures
            match self {
                JsonNumber::Unsigned(u) => r == JsonNumber::Unsigned(*u),
                JsonNumber::Negative(i) => r == JsonNumber::Negative(*i),
                JsonNumber::Real(t) => r matches JsonNumber::Real(t2) && t2@ == t@,
            },
    {
        match self {
            JsonNumber::Unsigned(u) => JsonNumber::Unsigned(*u),
            JsonNumber::Negative(i) => JsonNumber::Negative(*i),
            JsonNumber::Real(t) => JsonNumber::Real(t.clone()),
        }
    }
}

impl Clone for JsonMember {
    fn clone(&self) -> (r: Self)
        ensures
            r.key@ == self.key@,
            r.value@ == self.value@,
    {
        JsonMember { key: self.key.clone(), value: self.value.clone() }
    }
}

} // verus!
