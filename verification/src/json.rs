//! JSON documents as plain values, and the reading and writing of JSON text.

use vstd::prelude::*;

use crate::text::{is_white, opt_str_view, str_eq};

verus! {

broadcast use vstd::string::group_string_axioms;

/// A JSON document.
///
/// `Int` and `UInt` hold the integers, `Float` the IEEE 754 bits of any other
/// number. An object is the list of its members; of two members with one key
/// the later one counts.
#[derive(Debug, PartialEq, Eq)]
pub enum Json {
    Null,
    Bool(bool),
    Int(i64),
    UInt(u64),
    Float(u64),
    Text(String),
    Array(Vec<Json>),
    Object(Vec<Member>),
}

/// A member of a JSON object.
#[derive(Debug, PartialEq, Eq)]
pub struct Member {
    pub key: String,
    pub value: Json,
}

/// What a JSON document denotes.
pub enum JsonView {
    Null,
    Bool(bool),
    Int(int),
    Float(u64),
    Text(Seq<char>),
    Array(Seq<JsonView>),
    Object(Map<Seq<char>, JsonView>),
}

/// The bits are those of a number, not of an infinity or a NaN.
pub open spec fn finite_bits(bits: u64) -> bool {
    (bits / 0x10_0000_0000_0000) % 0x800 != 0x7ff
}

impl Json {
    /// What the document denotes. A float that is no number denotes null.
    pub open spec fn view(&self) -> JsonView
        decreases self,
    {
        match self {
            Json::Null => JsonView::Null,
            Json::Bool(b) => JsonView::Bool(*b),
            Json::Int(i) => JsonView::Int(*i as int),
            Json::UInt(u) => JsonView::Int(*u as int),
            Json::Float(bits) => if finite_bits(*bits) {
                JsonView::Float(*bits)
            } else {
                JsonView::Null
            },
            Json::Text(t) => JsonView::Text(t@),
            Json::Array(items) => JsonView::Array(array_view(items@)),
            Json::Object(members) => JsonView::Object(members_view(members@)),
        }
    }
}

/// The views of the items of an array.
pub open spec fn array_view(items: Seq<Json>) -> Seq<JsonView>
    decreases items,
{
    items.map(|i: int, item: Json| if 0 <= i < items.len() { items[i].view() } else { JsonView::Null })
}

/// The mapping that the members of an object make up.
pub open spec fn members_view(members: Seq<Member>) -> Map<Seq<char>, JsonView>
    decreases members,
{
    if members.len() == 0 {
        Map::empty()
    } else {
        members_view(members.drop_last()).insert(members.last().key@, members.last().value.view())
    }
}

/// An item more is a view more.
pub proof fn array_view_push(items: Seq<Json>, item: Json)
    ensures
        array_view(items.push(item)) == array_view(items).push(item@),
{
    assert(array_view(items.push(item)) =~= array_view(items).push(item@));
}

impl JsonView {
    /// The member `key`, where the document is an object that has one.
    pub open spec fn get(self, key: Seq<char>) -> Option<JsonView> {
        match self {
            JsonView::Object(m) => if m.contains_key(key) {
                Some(m[key])
            } else {
                None
            },
            _ => None,
        }
    }

    pub open spec fn as_str(self) -> Option<Seq<char>> {
        match self {
            JsonView::Text(t) => Some(t),
            _ => None,
        }
    }

    pub open spec fn as_i64(self) -> Option<i64> {
        match self {
            JsonView::Int(i) => if i64::MIN <= i <= i64::MAX {
                Some(i as i64)
            } else {
                None
            },
            _ => None,
        }
    }

    /// The text of the member `key`.
    pub open spec fn get_str(self, key: Seq<char>) -> Option<Seq<char>> {
        match self.get(key) {
            Some(j) => j.as_str(),
            None => None,
        }
    }

    /// The integer of the member `key`.
    pub open spec fn get_i64(self, key: Seq<char>) -> Option<i64> {
        match self.get(key) {
            Some(j) => j.as_i64(),
            None => None,
        }
    }

    /// The member `inner` of the member `outer`.
    pub open spec fn get2(self, outer: Seq<char>, inner: Seq<char>) -> Option<JsonView> {
        match self.get(outer) {
            Some(j) => j.get(inner),
            None => None,
        }
    }

    /// The text of the member `inner` of the member `outer`.
    pub open spec fn get2_str(self, outer: Seq<char>, inner: Seq<char>) -> Option<Seq<char>> {
        match self.get2(outer, inner) {
            Some(j) => j.as_str(),
            None => None,
        }
    }
}

/// The view of an optional document.
pub open spec fn opt_json(o: Option<&Json>) -> Option<JsonView> {
    match o {
        Some(j) => Some(j.view()),
        None => None,
    }
}

proof fn lemma_members_get(members: Seq<Member>, key: Seq<char>, i: int)
    requires
        0 <= i < members.len(),
        members[i].key@ == key,
        forall|j: int| i < j < members.len() ==> (#[trigger] members[j]).key@ != key,
    ensures
        members_view(members).contains_key(key),
        members_view(members)[key] == members[i].value.view(),
    decreases members.len(),
{
    if i < members.len() - 1 {
        lemma_members_get(members.drop_last(), key, i);
    }
}

proof fn lemma_members_missing(members: Seq<Member>, key: Seq<char>)
    requires
        forall|j: int| 0 <= j < members.len() ==> (#[trigger] members[j]).key@ != key,
    ensures
        !members_view(members).contains_key(key),
    decreases members.len(),
{
    if members.len() > 0 {
        lemma_members_missing(members.drop_last(), key);
    }
}

impl Json {
    /// The member `key`, where the document is an object that has one.
    pub fn get(&self, key: &str) -> (r: Option<&Json>)
        ensures
            opt_json(r) == self@.get(key@),
            r matches Some(j) ==> decreases_to!(self => j),
    {
        match self {
            Json::Object(members) => {
                let mut i: usize = members.len();
                while i > 0
                    invariant
                        i <= members@.len(),
                        self@ == JsonView::Object(members_view(members@)),
                        self == Json::Object(*members),
                        forall|j: int|
                            i <= j < members@.len() ==> (#[trigger] members@[j]).key@ != key@,
                    decreases i,
                {
                    i -= 1;
                    if str_eq(members[i].key.as_str(), key) {
                        proof {
                            lemma_members_get(members@, key@, i as int);
                            assert(decreases_to!(self => self->Object_0));
                            assert(decreases_to!(members => members@[i as int].value));
                        }
                        return Some(&members[i].value);
                    }
                }
                proof {
                    lemma_members_missing(members@, key@);
                }
                None
            },
            _ => None,
        }
    }

    pub fn as_str(&self) -> (r: Option<&str>)
        ensures
            opt_str_view(r) == self@.as_str(),
    {
        match self {
            Json::Text(t) => Some(t.as_str()),
            _ => None,
        }
    }

    pub fn as_i64(&self) -> (r: Option<i64>)
        ensures
            r == self@.as_i64(),
    {
        match self {
            Json::Int(i) => Some(*i),
            Json::UInt(u) => if *u <= 0x7fff_ffff_ffff_ffff {
                Some(*u as i64)
            } else {
                None
            },
            _ => None,
        }
    }

    pub fn as_array(&self) -> (r: Option<&Vec<Json>>)
        ensures
            match r {
                Some(items) => self@ == JsonView::Array(array_view(items@)),
                None => !(self@ is Array),
            },
    {
        match self {
            Json::Array(items) => Some(items),
            _ => None,
        }
    }

    /// The text of the member `key`.
    pub fn get_str(&self, key: &str) -> (r: Option<&str>)
        ensures
            opt_str_view(r) == self@.get_str(key@),
    {
        match self.get(key) {
            Some(j) => j.as_str(),
            None => None,
        }
    }

    /// The integer of the member `key`.
    pub fn get_i64(&self, key: &str) -> (r: Option<i64>)
        ensures
            r == self@.get_i64(key@),
    {
        match self.get(key) {
            Some(j) => j.as_i64(),
            None => None,
        }
    }

    /// The member `inner` of the member `outer`.
    pub fn get2(&self, outer: &str, inner: &str) -> (r: Option<&Json>)
        ensures
            opt_json(r) == self@.get2(outer@, inner@),
    {
        match self.get(outer) {
            Some(j) => j.get(inner),
            None => None,
        }
    }

    /// The text of the member `inner` of the member `outer`.
    pub fn get2_str(&self, outer: &str, inner: &str) -> (r: Option<&str>)
        ensures
            opt_str_view(r) == self@.get2_str(outer@, inner@),
    {
        match self.get2(outer, inner) {
            Some(j) => j.as_str(),
            None => None,
        }
    }
}

/// A copy of the items of an array.
pub fn copy_items(items: &Vec<Json>) -> (r: Vec<Json>)
    ensures
        array_view(r@) == array_view(items@),
        r@.len() == items@.len(),
    decreases items,
{
    let mut out: Vec<Json> = Vec::new();
    let mut i: usize = 0;
    while i < items.len()
        invariant
            i <= items@.len(),
            out@.len() == i,
            forall|j: int| 0 <= j < i ==> (#[trigger] out@[j]).view() == items@[j].view(),
        decreases items@.len() - i,
    {
        assert(decreases_to!(items => items@[i as int]));
        out.push(items[i].clone());
        i += 1;
    }
    assert(array_view(out@) =~= array_view(items@));
    out
}

/// A copy of the members of an object.
pub fn copy_members(members: &Vec<Member>) -> (r: Vec<Member>)
    ensures
        members_view(r@) == members_view(members@),
    decreases members,
{
    let mut out: Vec<Member> = Vec::new();
    let mut i: usize = 0;
    while i < members.len()
        invariant
            i <= members@.len(),
            members_view(out@) == members_view(members@.take(i as int)),
        decreases members@.len() - i,
    {
        let ghost before = out@;
        assert(decreases_to!(members => members@[i as int].value));
        out.push(Member { key: members[i].key.clone(), value: members[i].value.clone() });
        assert(out@.drop_last() =~= before);
        assert(members@.take(i + 1).drop_last() =~= members@.take(i as int));
        i += 1;
    }
    assert(members@.take(members@.len() as int) =~= members@);
    out
}

impl Clone for Json {
    /// A copy of the document.
    fn clone(&self) -> (r: Self)
        ensures
            r@ == self@,
        decreases self,
    {
        match self {
            Json::Null => Json::Null,
            Json::Bool(b) => Json::Bool(*b),
            Json::Int(i) => Json::Int(*i),
            Json::UInt(u) => Json::UInt(*u),
            Json::Float(bits) => Json::Float(*bits),
            Json::Text(t) => Json::Text(t.clone()),
            Json::Array(items) => Json::Array(copy_items(items)),
            Json::Object(members) => Json::Object(copy_members(members)),
        }
    }
}

/// `serde_json::Value`, a parsed JSON document.
#[verifier::external_type_specification]
#[verifier::external_body]
pub struct ExValue(serde_json::Value);

/// The document that a `serde_json::Value` holds.
pub uninterp spec fn value_json(v: serde_json::Value) -> JsonView;

/// One level of a `serde_json::Value`, borrowed.
pub enum Opened<'a> {
    Null,
    Bool(bool),
    Int(i64),
    UInt(u64),
    Float(u64),
    Text(&'a String),
    Array(Vec<&'a serde_json::Value>),
    Object(Vec<(&'a String, &'a serde_json::Value)>),
}

/// One level of a `serde_json::Value`, owned.
pub enum Parts {
    Null,
    Bool(bool),
    Int(i64),
    UInt(u64),
    Float(u64),
    Text(String),
    Array(Vec<serde_json::Value>),
    Object(Vec<(String, serde_json::Value)>),
}

/// The documents of the items of an array.
pub open spec fn values_view(items: Seq<serde_json::Value>) -> Seq<JsonView> {
    items.map_values(|v: serde_json::Value| value_json(v))
}

/// The mapping that the entries of an object make up.
pub open spec fn entries_view(entries: Seq<(Seq<char>, JsonView)>) -> Map<Seq<char>, JsonView>
    decreases entries.len(),
{
    if entries.len() == 0 {
        Map::empty()
    } else {
        entries_view(entries.drop_last()).insert(entries.last().0, entries.last().1)
    }
}

impl<'a> Opened<'a> {
    /// The entries of an object, by their views.
    pub open spec fn entries(list: Seq<(&'a String, &'a serde_json::Value)>) -> Seq<
        (Seq<char>, JsonView),
    > {
        list.map_values(|e: (&'a String, &'a serde_json::Value)| (e.0@, value_json(*e.1)))
    }

    /// The document whose level this is.
    pub open spec fn view(&self) -> JsonView {
        match self {
            Opened::Null => JsonView::Null,
            Opened::Bool(b) => JsonView::Bool(*b),
            Opened::Int(i) => JsonView::Int(*i as int),
            Opened::UInt(u) => JsonView::Int(*u as int),
            Opened::Float(bits) => JsonView::Float(*bits),
            Opened::Text(t) => JsonView::Text(t@),
            Opened::Array(items) => JsonView::Array(
                items@.map_values(|v: &'a serde_json::Value| value_json(*v)),
            ),
            Opened::Object(list) => JsonView::Object(entries_view(Self::entries(list@))),
        }
    }
}

impl Parts {
    /// The entries of an object, by their views.
    pub open spec fn entries(list: Seq<(String, serde_json::Value)>) -> Seq<(Seq<char>, JsonView)> {
        list.map_values(|e: (String, serde_json::Value)| (e.0@, value_json(e.1)))
    }

    /// The document whose level this is. A float that is no number denotes null.
    pub open spec fn view(&self) -> JsonView {
        match self {
            Parts::Null => JsonView::Null,
            Parts::Bool(b) => JsonView::Bool(*b),
            Parts::Int(i) => JsonView::Int(*i as int),
            Parts::UInt(u) => JsonView::Int(*u as int),
            Parts::Float(bits) => if finite_bits(*bits) {
                JsonView::Float(*bits)
            } else {
                JsonView::Null
            },
            Parts::Text(t) => JsonView::Text(t@),
            Parts::Array(items) => JsonView::Array(values_view(items@)),
            Parts::Object(list) => JsonView::Object(entries_view(Self::entries(list@))),
        }
    }
}

/// Matches on `serde_json::Value`: one level of a document, its parts borrowed.
/// Numbers are told apart by `Number::as_i64` and `Number::as_u64`; any other
/// number is a finite float, handed out by its bits. The entries of an object
/// come from a map, so no key occurs twice.
#[verifier::external_body]
fn open_value(v: &serde_json::Value) -> (r: Opened<'_>)
    ensures
        r.view() == value_json(*v),
        r matches Opened::Float(bits) ==> finite_bits(bits),
        r matches Opened::Object(list) ==> forall|i: int, j: int|
            0 <= i < j < list@.len() ==> (#[trigger] list@[i]).0@ != (#[trigger] list@[j]).0@,
{
    match v {
        serde_json::Value::Null => Opened::Null,
        serde_json::Value::Bool(b) => Opened::Bool(*b),
        serde_json::Value::Number(n) => match (n.as_i64(), n.as_u64()) {
            (Some(i), _) => Opened::Int(i),
            (None, Some(u)) => Opened::UInt(u),
            (None, None) => Opened::Float(n.as_f64().unwrap_or_default().to_bits()),
        },
        serde_json::Value::String(t) => Opened::Text(t),
        serde_json::Value::Array(items) => Opened::Array(items.iter().collect()),
        serde_json::Value::Object(map) => Opened::Object(map.iter().collect()),
    }
}

/// Makes a `serde_json::Value` of one level of a document. An object is
/// collected into a map, where a later entry replaces an earlier one with its
/// key; the bits of a float go through `bytes::Buf::get_f64`, and
/// `Value::from` turns a float that is no number into null.
#[verifier::external_body]
fn close_value(parts: Parts) -> (r: serde_json::Value)
    ensures
        value_json(r) == parts.view(),
{
    match parts {
        Parts::Null => serde_json::Value::Null,
        Parts::Bool(b) => serde_json::Value::Bool(b),
        Parts::Int(i) => serde_json::Value::from(i),
        Parts::UInt(u) => serde_json::Value::from(u),
        Parts::Float(bits) => {
            serde_json::Value::from(bytes::Buf::get_f64(&mut &bits.to_be_bytes()[..]))
        },
        Parts::Text(t) => serde_json::Value::String(t),
        Parts::Array(items) => serde_json::Value::Array(items),
        Parts::Object(list) => serde_json::Value::Object(list.into_iter().collect()),
    }
}

proof fn lemma_entries_finite(entries: Seq<(Seq<char>, JsonView)>)
    ensures
        entries_view(entries).dom().finite(),
    decreases entries.len(),
{
    if entries.len() > 0 {
        lemma_entries_finite(entries.drop_last());
    }
}

proof fn lemma_entries_index(entries: Seq<(Seq<char>, JsonView)>, i: int)
    requires
        0 <= i < entries.len(),
        forall|a: int, b: int|
            0 <= a < b < entries.len() ==> (#[trigger] entries[a]).0 != (#[trigger] entries[b]).0,
    ensures
        entries_view(entries).contains_key(entries[i].0),
        entries_view(entries)[entries[i].0] == entries[i].1,
    decreases entries.len(),
{
    if i < entries.len() - 1 {
        lemma_entries_index(entries.drop_last(), i);
    }
}

/// The document that a `serde_json::Value` holds.
pub fn from_value(v: &serde_json::Value) -> (r: Json)
    ensures
        r@ == value_json(*v),
    decreases value_json(*v),
{
    let opened = open_value(v);
    match opened {
        Opened::Null => Json::Null,
        Opened::Bool(b) => Json::Bool(b),
        Opened::Int(i) => Json::Int(i),
        Opened::UInt(u) => Json::UInt(u),
        Opened::Float(bits) => Json::Float(bits),
        Opened::Text(t) => Json::Text(t.clone()),
        Opened::Array(items) => {
            let mut out: Vec<Json> = Vec::new();
            let mut i: usize = 0;
            let ghost all = items@.map_values(|v: &serde_json::Value| value_json(*v));
            while i < items.len()
                invariant
                    i <= items@.len(),
                    all == items@.map_values(|v: &serde_json::Value| value_json(*v)),
                    value_json(*v) == JsonView::Array(all),
                    array_view(out@) == all.take(i as int),
                    out@.len() == i,
                decreases items@.len() - i,
            {
                assert(all[i as int] == value_json(*items@[i as int]));
                assert(decreases_to!(value_json(*v) => all[i as int])) by {
                    assert(decreases_to!(value_json(*v) => value_json(*v)->Array_0));
                    assert(decreases_to!(all => all[i as int]));
                }
                let ghost before = out@;
                out.push(from_value(items[i]));
                proof {
                    assert forall|j: int| 0 <= j < out@.len() implies #[trigger] array_view(out@)[j]
                        == all.take(i + 1)[j] by {
                        if j < i {
                            assert(array_view(before)[j] == all.take(i as int)[j]);
                        }
                    }
                    assert(array_view(out@) =~= all.take(i + 1));
                }
                i += 1;
            }
            assert(all.take(all.len() as int) =~= all);
            Json::Array(out)
        },
        Opened::Object(list) => {
            let mut out: Vec<Member> = Vec::new();
            let mut i: usize = 0;
            let ghost all = Opened::entries(list@);
            while i < list.len()
                invariant
                    i <= list@.len(),
                    all == Opened::entries(list@),
                    value_json(*v) == JsonView::Object(entries_view(all)),
                    members_view(out@) == entries_view(all.take(i as int)),
                    forall|a: int, b: int|
                        0 <= a < b < list@.len() ==> (#[trigger] list@[a]).0@ != (
                        #[trigger] list@[b]).0@,
                decreases list@.len() - i,
            {
                proof {
                    assert forall|a: int, b: int| 0 <= a < b < all.len() implies (
                    #[trigger] all[a]).0 != (#[trigger] all[b]).0 by {
                        assert(list@[a].0@ != list@[b].0@);
                    }
                    lemma_entries_index(all, i as int);
                    lemma_entries_finite(all);
                    let m = entries_view(all);
                    let k = all[i as int].0;
                    assert(all[i as int].1 == value_json(*list@[i as int].1));
                    vstd::map::axiom_map_index_decreases_finite(m, k);
                    assert(decreases_to!(value_json(*v) => value_json(*v)->Object_0));
                }
                let ghost before = out@;
                let entry = &list[i];
                out.push(Member { key: entry.0.clone(), value: from_value(entry.1) });
                proof {
                    assert(out@.drop_last() =~= before);
                    assert(all.take(i + 1).drop_last() =~= all.take(i as int));
                }
                i += 1;
            }
            assert(all.take(all.len() as int) =~= all);
            Json::Object(out)
        },
    }
}

/// The `serde_json::Value` of a document.
pub fn to_value(j: &Json) -> (r: serde_json::Value)
    ensures
        value_json(r) == j@,
    decreases j,
{
    match j {
        Json::Null => close_value(Parts::Null),
        Json::Bool(b) => close_value(Parts::Bool(*b)),
        Json::Int(i) => close_value(Parts::Int(*i)),
        Json::UInt(u) => close_value(Parts::UInt(*u)),
        Json::Float(bits) => close_value(Parts::Float(*bits)),
        Json::Text(t) => close_value(Parts::Text(t.clone())),
        Json::Array(items) => {
            let mut out: Vec<serde_json::Value> = Vec::new();
            let mut i: usize = 0;
            while i < items.len()
                invariant
                    i <= items@.len(),
                    j == Json::Array(*items),
                    out@.len() == i,
                    forall|k: int| 0 <= k < i ==> value_json(#[trigger] out@[k]) == items@[k]@,
                decreases items@.len() - i,
            {
                assert(decreases_to!(j => items@[i as int])) by {
                    assert(decreases_to!(j => j->Array_0));
                }
                out.push(to_value(&items[i]));
                i += 1;
            }
            assert(values_view(out@) =~= array_view(items@));
            close_value(Parts::Array(out))
        },
        Json::Object(members) => {
            let mut out: Vec<(String, serde_json::Value)> = Vec::new();
            let mut i: usize = 0;
            while i < members.len()
                invariant
                    i <= members@.len(),
                    j == Json::Object(*members),
                    entries_view(Parts::entries(out@)) == members_view(members@.take(i as int)),
                decreases members@.len() - i,
            {
                assert(decreases_to!(j => members@[i as int].value)) by {
                    assert(decreases_to!(j => j->Object_0));
                }
                let ghost before = out@;
                out.push((members[i].key.clone(), to_value(&members[i].value)));
                proof {
                    assert(Parts::entries(out@).drop_last() =~= Parts::entries(before));
                    assert(members@.take(i + 1).drop_last() =~= members@.take(i as int));
                }
                i += 1;
            }
            assert(members@.take(members@.len() as int) =~= members@);
            close_value(Parts::Object(out))
        },
    }
}

/// What `serde_json::from_str` makes of a text: the document, or the text of
/// the error.
pub uninterp spec fn json_parse(text: Seq<char>) -> Result<JsonView, Seq<char>>;

/// What `serde_json::from_slice` makes of bytes: the document, or the text of
/// the error.
pub uninterp spec fn json_parse_bytes(bytes: Seq<u8>) -> Result<JsonView, Seq<char>>;

/// The compact text that `serde_json` writes for a document.
pub uninterp spec fn json_text(j: JsonView) -> Seq<char>;

/// A text that has no control characters, and does not start with white space.
pub open spec fn is_one_line(t: Seq<char>) -> bool {
    &&& t.len() > 0
    &&& !is_white(t[0])
    &&& forall|i: int| 0 <= i < t.len() ==> (#[trigger] t[i]) as u32 >= 0x20
}

/// The bits of the double that `serde_json` reads an integer as.
pub uninterp spec fn int_float_bits(i: int) -> u64;

/// Calls `serde_json::from_str`. The result is named `json_parse`.
#[verifier::external_body]
fn parse_value(text: &str) -> (r: Result<serde_json::Value, String>)
    ensures
        match r {
            Ok(v) => json_parse(text@) == Ok::<JsonView, Seq<char>>(value_json(v)),
            Err(e) => json_parse(text@) == Err::<JsonView, Seq<char>>(e@),
        },
{
    serde_json::from_str(text).map_err(|e: serde_json::Error| e.to_string())
}

/// Calls `serde_json::from_slice`. The result is named `json_parse_bytes`.
#[verifier::external_body]
fn parse_value_bytes(bytes: &[u8]) -> (r: Result<serde_json::Value, String>)
    ensures
        match r {
            Ok(v) => json_parse_bytes(bytes@) == Ok::<JsonView, Seq<char>>(value_json(v)),
            Err(e) => json_parse_bytes(bytes@) == Err::<JsonView, Seq<char>>(e@),
        },
{
    serde_json::from_slice(bytes).map_err(|e: serde_json::Error| e.to_string())
}

/// Writes a `serde_json::Value` with its `Display`, the compact notation. The
/// result is named `json_text`. Control characters occur in it only as escape
/// sequences, and white space only within strings, so it starts with neither.
#[verifier::external_body]
fn value_text(v: &serde_json::Value) -> (r: String)
    ensures
        r@ == json_text(value_json(*v)),
        is_one_line(r@),
{
    v.to_string()
}

/// Calls `serde_json::Value::as_f64` on an integer, and hands out the bits of
/// the double. The result is named `int_float_bits`; it is a finite number.
#[verifier::external_body]
fn int_as_float(v: &serde_json::Value) -> (r: u64)
    requires
        value_json(*v) is Int,
    ensures
        r == int_float_bits(value_json(*v)->Int_0),
        finite_bits(r),
{
    v.as_f64().unwrap_or_default().to_bits()
}

/// The bits of the number that a document is, read as a double.
pub open spec fn float_bits(j: JsonView) -> Option<u64> {
    match j {
        JsonView::Int(i) => Some(int_float_bits(i)),
        JsonView::Float(bits) => Some(bits),
        _ => None,
    }
}

/// Reads JSON text.
pub fn parse_json(text: &str) -> (r: Result<Json, String>)
    ensures
        match r {
            Ok(j) => json_parse(text@) == Ok::<JsonView, Seq<char>>(j@),
            Err(e) => json_parse(text@) == Err::<JsonView, Seq<char>>(e@),
        },
{
    match parse_value(text) {
        Ok(v) => Ok(from_value(&v)),
        Err(e) => Err(e),
    }
}

/// Reads JSON text from bytes.
pub fn parse_json_bytes(bytes: &[u8]) -> (r: Result<Json, String>)
    ensures
        match r {
            Ok(j) => json_parse_bytes(bytes@) == Ok::<JsonView, Seq<char>>(j@),
            Err(e) => json_parse_bytes(bytes@) == Err::<JsonView, Seq<char>>(e@),
        },
{
    match parse_value_bytes(bytes) {
        Ok(v) => Ok(from_value(&v)),
        Err(e) => Err(e),
    }
}

impl Json {
    /// The compact text of the document.
    pub fn to_text(&self) -> (r: String)
        ensures
            r@ == json_text(self@),
            is_one_line(r@),
    {
        value_text(&to_value(self))
    }

    /// The bits of the number that the document is, read as a double.
    pub fn as_float_bits(&self) -> (r: Option<u64>)
        ensures
            r == float_bits(self@),
            r matches Some(bits) ==> finite_bits(bits),
    {
        match self {
            Json::Int(_) | Json::UInt(_) => Some(int_as_float(&to_value(self))),
            Json::Float(bits) => if (*bits / 0x10_0000_0000_0000) % 0x800 != 0x7ff {
                Some(*bits)
            } else {
                None
            },
            _ => None,
        }
    }

    /// A text.
    pub fn text(t: &str) -> (r: Json)
        ensures
            r@ == JsonView::Text(t@),
    {
        Json::Text(t.to_owned())
    }

    /// An object without members.
    pub fn object() -> (r: Json)
        ensures
            r@ == JsonView::object(),
    {
        Json::Object(Vec::new())
    }

    /// The object with the member `key` set to `value`; anything but an object
    /// stays as it is.
    pub fn with(self, key: &str, value: Json) -> (r: Json)
        ensures
            r@ == self@.with(key@, value@),
    {
        match self {
            Json::Object(members) => {
                let mut members = members;
                let ghost before = members@;
                members.push(Member { key: key.to_owned(), value });
                assert(members@.drop_last() =~= before);
                Json::Object(members)
            },
            other => other,
        }
    }

    /// Null for no document.
    pub fn or_null(o: Option<Json>) -> (r: Json)
        ensures
            r@ == JsonView::or_null(
                match o {
                    Some(j) => Some(j@),
                    None => None,
                },
            ),
    {
        match o {
            Some(j) => j,
            None => Json::Null,
        }
    }
}

impl JsonView {
    /// An object without members.
    pub open spec fn object() -> JsonView {
        JsonView::Object(Map::empty())
    }

    /// The object with the member `key` set to `value`; anything but an object
    /// stays as it is.
    pub open spec fn with(self, key: Seq<char>, value: JsonView) -> JsonView {
        match self {
            JsonView::Object(m) => JsonView::Object(m.insert(key, value)),
            other => other,
        }
    }

    /// Null for no document.
    pub open spec fn or_null(o: Option<JsonView>) -> JsonView {
        match o {
            Some(j) => j,
            None => JsonView::Null,
        }
    }
}

} // verus!
