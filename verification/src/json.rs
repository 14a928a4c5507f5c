//! Request and answer bodies as plain values.
//!
//! [`Json`] holds what the handlers read and write. Its view, [`JsonView`], holds
//! the same tree over mathematical sequences.

use crate::text;
use vstd::prelude::*;

verus! {

/// A JSON value. A number that is no integer is carried by the bits of its double;
/// nothing here looks inside.
#[derive(Debug)]
pub enum Json {
    Null,
    Bool(bool),
    UInt(u64),
    NegInt(i64),
    Real(u64),
    Str(String),
    Array(Vec<Json>),
    Object(Vec<(String, Json)>),
}

/// The tree that a [`Json`] stands for.
pub enum JsonView {
    Null,
    Bool(bool),
    UInt(u64),
    NegInt(i64),
    Real(u64),
    Str(Seq<char>),
    Array(Seq<JsonView>),
    Object(Seq<(Seq<char>, JsonView)>),
}

impl Json {
    /// The tree that the value stands for.
    pub open spec fn tree(&self) -> JsonView
        decreases self,
    {
        match self {
            Json::Null => JsonView::Null,
            Json::Bool(b) => JsonView::Bool(*b),
            Json::UInt(n) => JsonView::UInt(*n),
            Json::NegInt(n) => JsonView::NegInt(*n),
            Json::Real(bits) => JsonView::Real(*bits),
            Json::Str(s) => JsonView::Str(s@),
            Json::Array(items) => JsonView::Array(
                Seq::new(
                    items@.len(),
                    |i: int|
                        if 0 <= i < items@.len() {
                            items@[i].tree()
                        } else {
                            JsonView::Null
                        },
                ),
            ),
            Json::Object(entries) => JsonView::Object(
                Seq::new(
                    entries@.len(),
                    |i: int|
                        if 0 <= i < entries@.len() {
                            (entries@[i].0@, entries@[i].1.tree())
                        } else {
                            (Seq::empty(), JsonView::Null)
                        },
                ),
            ),
        }
    }
}

impl View for Json {
    type V = JsonView;

    open spec fn view(&self) -> JsonView {
        self.tree()
    }
}

/// The views of the items of an array.
pub open spec fn item_views(items: Seq<Json>) -> Seq<JsonView> {
    Seq::new(items.len(), |i: int| items[i]@)
}

/// The views of the entries of an object.
pub open spec fn entry_views(entries: Seq<(String, Json)>) -> Seq<(Seq<char>, JsonView)> {
    Seq::new(entries.len(), |i: int| (entries[i].0@, entries[i].1@))
}

/// The value under the key. Where the key stands twice, the last one counts.
pub open spec fn entry(entries: Seq<(Seq<char>, JsonView)>, key: Seq<char>) -> Option<JsonView>
    decreases entries.len(),
{
    if entries.len() == 0 {
        None
    } else if entries.last().0 == key {
        Some(entries.last().1)
    } else {
        entry(entries.drop_last(), key)
    }
}

/// No key stands twice.
pub open spec fn distinct_keys(entries: Seq<(Seq<char>, JsonView)>) -> bool {
    forall|i: int, j: int|
        0 <= i < j < entries.len() ==> (#[trigger] entries[i]).0 != (#[trigger] entries[j]).0
}

/// The strings among the items, in order.
pub open spec fn string_items(items: Seq<JsonView>) -> Seq<Seq<char>>
    decreases items.len(),
{
    if items.len() == 0 {
        Seq::empty()
    } else {
        match items.last() {
            JsonView::Str(s) => string_items(items.drop_last()).push(s),
            _ => string_items(items.drop_last()),
        }
    }
}

impl JsonView {
    /// The member of an object; nothing for a value that is no object.
    pub open spec fn get(self, key: Seq<char>) -> Option<JsonView> {
        match self {
            JsonView::Object(entries) => entry(entries, key),
            _ => None,
        }
    }

    /// The string that a value is.
    pub open spec fn string(self) -> Option<Seq<char>> {
        match self {
            JsonView::Str(s) => Some(s),
            _ => None,
        }
    }

    /// The string that the member is.
    pub open spec fn text(self, key: Seq<char>) -> Option<Seq<char>> {
        match self.get(key) {
            Some(value) => value.string(),
            None => None,
        }
    }

    /// The string that the member is, or no characters.
    pub open spec fn text_or_empty(self, key: Seq<char>) -> Seq<char> {
        match self.text(key) {
            Some(s) => s,
            None => Seq::empty(),
        }
    }

    /// The truth value that the member is.
    pub open spec fn flag(self, key: Seq<char>) -> Option<bool> {
        match self.get(key) {
            Some(JsonView::Bool(b)) => Some(b),
            _ => None,
        }
    }

    /// The unsigned number that the member is.
    pub open spec fn number(self, key: Seq<char>) -> Option<u64> {
        match self.get(key) {
            Some(JsonView::UInt(n)) => Some(n),
            _ => None,
        }
    }

    /// The number of whatever kind that the member is.
    pub open spec fn numeric(self, key: Seq<char>) -> Option<JsonView> {
        match self.get(key) {
            Some(JsonView::UInt(n)) => Some(JsonView::UInt(n)),
            Some(JsonView::NegInt(n)) => Some(JsonView::NegInt(n)),
            Some(JsonView::Real(bits)) => Some(JsonView::Real(bits)),
            _ => None,
        }
    }

    /// The items of the array that the member is.
    pub open spec fn items(self, key: Seq<char>) -> Option<Seq<JsonView>> {
        match self.get(key) {
            Some(JsonView::Array(items)) => Some(items),
            _ => None,
        }
    }

    /// The entries of the object that the member is.
    pub open spec fn members(self, key: Seq<char>) -> Option<Seq<(Seq<char>, JsonView)>> {
        match self.get(key) {
            Some(JsonView::Object(entries)) => Some(entries),
            _ => None,
        }
    }
}

/// The view of an optional value.
pub open spec fn opt_json(o: Option<Json>) -> Option<JsonView> {
    match o {
        Some(j) => Some(j@),
        None => None,
    }
}

/// The view of an optional borrowed value.
pub open spec fn opt_json_ref(o: Option<&Json>) -> Option<JsonView> {
    match o {
        Some(j) => Some(j@),
        None => None,
    }
}

proof fn lemma_entry_take(entries: Seq<(Seq<char>, JsonView)>, key: Seq<char>, n: int)
    requires
        0 <= n <= entries.len(),
        forall|i: int| n <= i < entries.len() ==> (#[trigger] entries[i]).0 != key,
    ensures
        entry(entries, key) == entry(entries.take(n), key),
    decreases entries.len() - n,
{
    if n == entries.len() {
        assert(entries.take(n) =~= entries);
    } else {
        lemma_entry_take(entries.drop_last(), key, n);
        assert(entries.drop_last().take(n) =~= entries.take(n));
    }
}

/// Appending an entry changes the member under its key and no other.
pub proof fn lemma_entry_push(
    entries: Seq<(Seq<char>, JsonView)>,
    added: (Seq<char>, JsonView),
    key: Seq<char>,
)
    ensures
        entry(entries.push(added), key) == (if added.0 == key {
            Some(added.1)
        } else {
            entry(entries, key)
        }),
{
    assert(entries.push(added).drop_last() =~= entries);
}

/// Overwriting an entry changes the member under its key and no other.
proof fn lemma_entry_update(
    entries: Seq<(Seq<char>, JsonView)>,
    i: int,
    value: JsonView,
    key: Seq<char>,
)
    requires
        distinct_keys(entries),
        0 <= i < entries.len(),
    ensures
        entry(entries.update(i, (entries[i].0, value)), key) == (if entries[i].0 == key {
            Some(value)
        } else {
            entry(entries, key)
        }),
    decreases entries.len(),
{
    let all = entries.update(i, (entries[i].0, value));
    if i == entries.len() - 1 {
        assert(all.drop_last() =~= entries.drop_last());
    } else {
        assert(entries.last().0 != entries[i].0);
        lemma_entry_update(entries.drop_last(), i, value, key);
        assert(all.drop_last() =~= entries.drop_last().update(i, (entries[i].0, value)));
    }
}

impl Json {
    /// The member of an object under the key.
    pub fn get<'a>(&'a self, key: &str) -> (r: Option<&'a Json>)
        ensures
            opt_json_ref(r) == self@.get(key@),
    {
        match self {
            Json::Object(entries) => {
                assert(self@ == JsonView::Object(entry_views(entries@))) by {
                    lemma_object_view(*entries);
                }
                find(entries, key)
            },
            _ => None,
        }
    }

    /// The string that the member is.
    pub fn text<'a>(&'a self, key: &str) -> (r: Option<&'a str>)
        ensures
            text::opt_str_view(r) == self@.text(key@),
    {
        match self.get(key) {
            Some(Json::Str(s)) => Some(s.as_str()),
            _ => None,
        }
    }

    /// The string that the member is, or no characters.
    pub fn text_or_empty<'a>(&'a self, key: &str) -> (r: &'a str)
        ensures
            r@ == self@.text_or_empty(key@),
    {
        match self.text(key) {
            Some(s) => s,
            None => {
                proof {
                    reveal_strlit("");
                    assert(""@ =~= Seq::<char>::empty());
                }
                ""
            },
        }
    }

    /// The truth value that the member is.
    pub fn flag(&self, key: &str) -> (r: Option<bool>)
        ensures
            r == self@.flag(key@),
    {
        match self.get(key) {
            Some(Json::Bool(b)) => Some(*b),
            _ => None,
        }
    }

    /// The unsigned number that the member is.
    pub fn number(&self, key: &str) -> (r: Option<u64>)
        ensures
            r == self@.number(key@),
    {
        match self.get(key) {
            Some(Json::UInt(n)) => Some(*n),
            _ => None,
        }
    }

    /// The number of whatever kind that the member is.
    pub fn numeric(&self, key: &str) -> (r: Option<Json>)
        ensures
            opt_json(r) == self@.numeric(key@),
    {
        match self.get(key) {
            Some(Json::UInt(n)) => Some(Json::UInt(*n)),
            Some(Json::NegInt(n)) => Some(Json::NegInt(*n)),
            Some(Json::Real(bits)) => Some(Json::Real(*bits)),
            _ => None,
        }
    }

    /// The items of the array that the member is.
    pub fn items<'a>(&'a self, key: &str) -> (r: Option<&'a Vec<Json>>)
        ensures
            match r {
                Some(items) => self@.items(key@) == Some(item_views(items@)),
                None => self@.items(key@) is None,
            },
    {
        match self.get(key) {
            Some(Json::Array(items)) => {
                proof {
                    lemma_array_view(*items);
                }
                Some(items)
            },
            _ => None,
        }
    }

    /// The entries of the object that the member is.
    pub fn members<'a>(&'a self, key: &str) -> (r: Option<&'a Vec<(String, Json)>>)
        ensures
            match r {
                Some(entries) => self@.members(key@) == Some(entry_views(entries@)),
                None => self@.members(key@) is None,
            },
    {
        match self.get(key) {
            Some(Json::Object(entries)) => {
                proof {
                    lemma_object_view(*entries);
                }
                Some(entries)
            },
            _ => None,
        }
    }

    /// The value is `null`.
    pub fn is_null(&self) -> (r: bool)
        ensures
            r == (self@ is Null),
    {
        match self {
            Json::Null => true,
            _ => false,
        }
    }

    /// A copy of the whole tree.
    pub fn copy(&self) -> (r: Json)
        ensures
            r@ == self@,
        decreases self,
    {
        match self {
            Json::Null => Json::Null,
            Json::Bool(b) => Json::Bool(*b),
            Json::UInt(n) => Json::UInt(*n),
            Json::NegInt(n) => Json::NegInt(*n),
            Json::Real(bits) => Json::Real(*bits),
            Json::Str(s) => Json::Str(s.clone()),
            Json::Array(items) => {
                let mut out: Vec<Json> = Vec::new();
                let mut i: usize = 0;
                while i < items.len()
                    invariant
                        i <= items@.len(),
                        self == Json::Array(*items),
                        item_views(out@) == item_views(items@).take(i as int),
                    decreases items@.len() - i,
                {
                    let ghost before = item_views(out@);
                    assert(decreases_to!(*self => self->Array_0));
                    assert(decreases_to!(*self => items@[i as int]));
                    out.push(items[i].copy());
                    i += 1;
                    assert(item_views(out@) =~= before.push(items@[i - 1]@));
                    assert(item_views(out@) =~= item_views(items@).take(i as int));
                }
                proof {
                    lemma_array_view(*items);
                    lemma_array_view(out);
                    assert(item_views(items@).take(i as int) =~= item_views(items@));
                }
                Json::Array(out)
            },
            Json::Object(entries) => {
                let mut out: Vec<(String, Json)> = Vec::new();
                let mut i: usize = 0;
                while i < entries.len()
                    invariant
                        i <= entries@.len(),
                        self == Json::Object(*entries),
                        entry_views(out@) == entry_views(entries@).take(i as int),
                    decreases entries@.len() - i,
                {
                    let ghost before = entry_views(out@);
                    assert(decreases_to!(*self => self->Object_0));
                    assert(decreases_to!(*self => entries@[i as int].1));
                    out.push((entries[i].0.clone(), entries[i].1.copy()));
                    i += 1;
                    assert(entry_views(out@) =~= before.push(
                        (entries@[i - 1].0@, entries@[i - 1].1@),
                    ));
                    assert(entry_views(out@) =~= entry_views(entries@).take(i as int));
                }
                proof {
                    lemma_object_view(*entries);
                    lemma_object_view(out);
                    assert(entry_views(entries@).take(i as int) =~= entry_views(entries@));
                }
                Json::Object(out)
            },
        }
    }
}

/// An array views as the views of its items.
pub proof fn lemma_array_view(items: Vec<Json>)
    ensures
        Json::Array(items)@ == JsonView::Array(item_views(items@)),
{
    let v = Json::Array(items)@;
    assert(v->Array_0 =~= item_views(items@));
}

/// An object views as the views of its entries.
pub proof fn lemma_object_view(entries: Vec<(String, Json)>)
    ensures
        Json::Object(entries)@ == JsonView::Object(entry_views(entries@)),
{
    let v = Json::Object(entries)@;
    assert(v->Object_0 =~= entry_views(entries@));
}

/// The value under the key.
pub fn find<'a>(entries: &'a Vec<(String, Json)>, key: &str) -> (r: Option<&'a Json>)
    ensures
        opt_json_ref(r) == entry(entry_views(entries@), key@),
{
    let ghost all = entry_views(entries@);
    let mut n: usize = entries.len();
    while n > 0
        invariant
            n <= entries@.len(),
            all == entry_views(entries@),
            forall|k: int| n <= k < entries@.len() ==> (#[trigger] all[k]).0 != key@,
        decreases n,
    {
        assert(all[n - 1] == (entries@[n - 1].0@, entries@[n - 1].1@));
        if text::same(entries[n - 1].0.as_str(), key) {
            proof {
                lemma_entry_take(all, key@, n as int);
                assert(all.take(n as int).last() == all[n - 1]);
            }
            return Some(&entries[n - 1].1);
        }
        n -= 1;
    }
    proof {
        lemma_entry_take(all, key@, 0);
    }
    None
}

/// Puts a value under a key: in place of the value that stood there, or at the end.
pub fn put(entries: &mut Vec<(String, Json)>, key: &str, value: Json)
    requires
        distinct_keys(entry_views(old(entries)@)),
    ensures
        distinct_keys(entry_views(final(entries)@)),
        final(entries)@.len() > 0,
        forall|k: Seq<char>| #[trigger]
            entry(entry_views(final(entries)@), k) == (if k == key@ {
                Some(value@)
            } else {
                entry(entry_views(old(entries)@), k)
            }),
{
    let ghost before = entry_views(entries@);
    let ghost was = entries@;
    let mut i: usize = 0;
    while i < entries.len()
        invariant
            i <= entries@.len(),
            entries@ == was,
            was == old(entries)@,
            before == entry_views(was),
            distinct_keys(before),
            forall|k: int| 0 <= k < i ==> (#[trigger] before[k]).0 != key@,
        decreases entries@.len() - i,
    {
        if text::same(entries[i].0.as_str(), key) {
            let kept = entries[i].0.clone();
            entries.set(i, (kept, value));
            proof {
                let after = entry_views(entries@);
                assert(after =~= before.update(i as int, (before[i as int].0, value@)));
                assert forall|k: Seq<char>| #[trigger] entry(after, k) == (if k == key@ {
                    Some(value@)
                } else {
                    entry(before, k)
                }) by {
                    lemma_entry_update(before, i as int, value@, k);
                }
            }
            return;
        }
        i += 1;
    }
    entries.push((key.to_owned(), value));
    proof {
        let after = entry_views(entries@);
        assert(after =~= before.push((key@, value@)));
        assert forall|k: Seq<char>| #[trigger] entry(after, k) == (if k == key@ {
            Some(value@)
        } else {
            entry(before, k)
        }) by {
            lemma_entry_push(before, (key@, value@), k);
        }
    }
}

/// No entries yet.
pub fn fields() -> (r: Vec<(String, Json)>)
    ensures
        entry_views(r@) == Seq::<(Seq<char>, JsonView)>::empty(),
{
    let r: Vec<(String, Json)> = Vec::new();
    assert(entry_views(r@) =~= Seq::<(Seq<char>, JsonView)>::empty());
    r
}

/// The entries with one more at the end.
pub fn with(mut entries: Vec<(String, Json)>, key: &str, value: Json) -> (r: Vec<(String, Json)>)
    ensures
        entry_views(r@) == entry_views(entries@).push((key@, value@)),
{
    let ghost before = entry_views(entries@);
    entries.push((key.to_owned(), value));
    assert(entry_views(entries@) =~= before.push((key@, value@)));
    entries
}

/// The object with the entries.
pub fn object(entries: Vec<(String, Json)>) -> (r: Json)
    ensures
        r@ == JsonView::Object(entry_views(entries@)),
{
    proof {
        lemma_object_view(entries);
    }
    Json::Object(entries)
}

/// The array with the items.
pub fn array(items: Vec<Json>) -> (r: Json)
    ensures
        r@ == JsonView::Array(item_views(items@)),
{
    proof {
        lemma_array_view(items);
    }
    Json::Array(items)
}

/// A string value.
pub fn string(s: &str) -> (r: Json)
    ensures
        r@ == JsonView::Str(s@),
{
    Json::Str(s.to_owned())
}

/// An array of strings.
pub fn strings(list: &Vec<String>) -> (r: Json)
    ensures
        r@ == string_array(text::views(list@)),
{
    let mut items: Vec<Json> = Vec::new();
    let mut i: usize = 0;
    while i < list.len()
        invariant
            i <= list@.len(),
            items@.len() == i,
            forall|k: int| 0 <= k < i ==> (#[trigger] items@[k])@ == JsonView::Str(list@[k]@),
        decreases list@.len() - i,
    {
        items.push(Json::Str(list[i].clone()));
        i += 1;
    }
    assert(item_views(items@) =~= text::views(list@).map_values(|s: Seq<char>| JsonView::Str(s)));
    array(items)
}

/// The array of the strings.
pub open spec fn string_array(list: Seq<Seq<char>>) -> JsonView {
    JsonView::Array(list.map_values(|s: Seq<char>| JsonView::Str(s)))
}

/// The strings among the items of an array of strings are all of them.
pub proof fn lemma_string_items(list: Seq<Seq<char>>)
    ensures
        string_items(string_array(list)->Array_0) == list,
    decreases list.len(),
{
    let items = string_array(list)->Array_0;
    if list.len() > 0 {
        lemma_string_items(list.drop_last());
        assert(items.drop_last() =~= string_array(list.drop_last())->Array_0);
        assert(string_items(items) =~= list);
    } else {
        assert(string_items(items) =~= list);
    }
}

/// The strings among the items, in order.
pub fn strings_among(items: &Vec<Json>) -> (r: Vec<String>)
    ensures
        text::views(r@) == string_items(item_views(items@)),
{
    let mut out: Vec<String> = Vec::new();
    let mut i: usize = 0;
    assert(text::views(out@) =~= Seq::<Seq<char>>::empty());
    while i < items.len()
        invariant
            i <= items@.len(),
            text::views(out@) == string_items(item_views(items@).take(i as int)),
        decreases items@.len() - i,
    {
        let ghost before = text::views(out@);
        assert(item_views(items@).take(i + 1).drop_last() =~= item_views(items@).take(i as int));
        if let Json::Str(s) = &items[i] {
            out.push(s.clone());
            assert(text::views(out@) =~= before.push(s@));
        }
        i += 1;
    }
    assert(item_views(items@).take(i as int) =~= item_views(items@));
    out
}

// ── Laws ────────────────────────────────────────────────────────

/// A value views as what it holds.
pub proof fn values_view_as_what_they_hold(b: bool, n: u64, m: i64, bits: u64, s: String)
    ensures
        Json::Null@ == JsonView::Null,
        Json::Bool(b)@ == JsonView::Bool(b),
        Json::UInt(n)@ == JsonView::UInt(n),
        Json::NegInt(m)@ == JsonView::NegInt(m),
        Json::Real(bits)@ == JsonView::Real(bits),
        Json::Str(s)@ == JsonView::Str(s@),
{
}

/// The member of an object under a key is the last of its entries with that key; an
/// object without such an entry, and a value that is no object, have none.
pub proof fn members_are_the_last_entries(
    value: Json,
    key: &str,
    r: Option<&Json>,
    entries: Seq<(Seq<char>, JsonView)>,
    i: int,
)
    requires
        call_ensures(Json::get, (&value, key), r),
    ensures
        value@ == JsonView::Object(entries) && 0 <= i < entries.len() && entries[i].0 == key@ && (
        forall|j: int| i < j < entries.len() ==> (#[trigger] entries[j]).0 != key@) ==> (r matches Some(
            found,
        ) && found@ == entries[i].1),
        value@ == JsonView::Object(entries) && (forall|j: int|
            0 <= j < entries.len() ==> (#[trigger] entries[j]).0 != key@) ==> r is None,
        !(value@ is Object) ==> r is None,
{
    if value@ == JsonView::Object(entries) {
        if 0 <= i < entries.len() && entries[i].0 == key@ && (forall|j: int|
            i < j < entries.len() ==> (#[trigger] entries[j]).0 != key@) {
            lemma_entry_take(entries, key@, i + 1);
            assert(entries.take(i + 1).last() == entries[i]);
        }
        if forall|j: int| 0 <= j < entries.len() ==> (#[trigger] entries[j]).0 != key@ {
            lemma_entry_take(entries, key@, 0);
        }
    }
}

/// A member is read as a text, a truth value, a number, an array or an object exactly
/// where it is one, and as what it holds.
pub proof fn members_are_read_by_their_kind(value: JsonView, key: Seq<char>)
    ensures
        value.get(key) matches Some(JsonView::Str(s)) ==> value.text(key) == Some(s)
            && value.text_or_empty(key) == s,
        value.text(key) matches Some(s) ==> value.get(key) == Some(JsonView::Str(s)),
        value.text(key) is None ==> value.text_or_empty(key).len() == 0,
        value.get(key) matches Some(JsonView::Bool(b)) ==> value.flag(key) == Some(b),
        value.flag(key) matches Some(b) ==> value.get(key) == Some(JsonView::Bool(b)),
        value.get(key) matches Some(JsonView::UInt(n)) ==> value.number(key) == Some(n)
            && value.numeric(key) == Some(JsonView::UInt(n)),
        value.number(key) matches Some(n) ==> value.get(key) == Some(JsonView::UInt(n)),
        value.get(key) matches Some(JsonView::NegInt(n)) ==> value.numeric(key) == Some(
            JsonView::NegInt(n),
        ),
        value.get(key) matches Some(JsonView::Real(bits)) ==> value.numeric(key) == Some(
            JsonView::Real(bits),
        ),
        value.numeric(key) matches Some(n) ==> value.get(key) == Some(n),
        value.get(key) matches Some(JsonView::Array(items)) ==> value.items(key) == Some(items),
        value.items(key) matches Some(items) ==> value.get(key) == Some(JsonView::Array(items)),
        value.get(key) matches Some(JsonView::Object(entries)) ==> value.members(key) == Some(
            entries,
        ),
        value.members(key) matches Some(entries) ==> value.get(key) == Some(
            JsonView::Object(entries),
        ),
{
}

/// What is read of a member is what the member holds.
pub proof fn readers_tell_what_a_member_holds(
    value: Json,
    key: &str,
    member: JsonView,
    text: Option<&str>,
    or_empty: &str,
    flag: Option<bool>,
    number: Option<u64>,
    numeric: Option<Json>,
    items: Option<&Vec<Json>>,
    members: Option<&Vec<(String, Json)>>,
)
    requires
        value@.get(key@) == Some(member),
        call_ensures(Json::text, (&value, key), text),
        call_ensures(Json::text_or_empty, (&value, key), or_empty),
        call_ensures(Json::flag, (&value, key), flag),
        call_ensures(Json::number, (&value, key), number),
        call_ensures(Json::numeric, (&value, key), numeric),
        call_ensures(Json::items, (&value, key), items),
        call_ensures(Json::members, (&value, key), members),
    ensures
        member matches JsonView::Str(s) ==> (text matches Some(t) && t@ == s) && or_empty@ == s,
        !(member is Str) ==> text is None && or_empty@.len() == 0,
        member matches JsonView::Bool(b) ==> flag == Some(b),
        !(member is Bool) ==> flag is None,
        member matches JsonView::UInt(n) ==> number == Some(n),
        !(member is UInt) ==> number is None,
        member is UInt || member is NegInt || member is Real ==> (numeric matches Some(n) && n@
            == member),
        !(member is UInt || member is NegInt || member is Real) ==> numeric is None,
        member matches JsonView::Array(all) ==> (items matches Some(v) && item_views(v@) == all),
        !(member is Array) ==> items is None,
        member matches JsonView::Object(all) ==> (members matches Some(v) && entry_views(v@) == all),
        !(member is Object) ==> members is None,
{
}

/// The strings among the items are all of them and nothing else, in their order.
pub proof fn string_items_are_all_strings(items: Seq<JsonView>)
    ensures
        string_items(items) == items.filter(|v: JsonView| v is Str).map_values(
            |v: JsonView| v->Str_0,
        ),
        forall|i: int|
            0 <= i < items.len() && (#[trigger] items[i]) is Str ==> string_items(items).contains(
                items[i]->Str_0,
            ),
    decreases items.len(),
{
    let strings = |v: JsonView| v is Str;
    let inside = |v: JsonView| v->Str_0;
    if items.len() > 0 {
        let rest = items.drop_last();
        string_items_are_all_strings(rest);
        reveal(Seq::filter);
        assert(string_items(items) =~= items.filter(strings).map_values(inside));
        assert forall|i: int| 0 <= i < items.len() && (#[trigger] items[i]) is Str implies string_items(
            items,
        ).contains(items[i]->Str_0) by {
            let all = string_items(items);
            let s = items[i]->Str_0;
            if i < rest.len() {
                assert(rest[i] is Str);
                let k = choose|k: int| 0 <= k < string_items(rest).len() && string_items(rest)[k] == s;
                assert(all[k] == s);
            } else {
                assert(all[all.len() - 1] == s);
            }
        }
    } else {
        reveal(Seq::filter);
        assert(string_items(items) =~= items.filter(strings).map_values(inside));
    }
}

/// What stands behind a key is found there, and so is what is put there later; other
/// keys keep what they have.
pub proof fn puts_are_read_back(
    entries: Seq<(Seq<char>, JsonView)>,
    key: Seq<char>,
    value: JsonView,
    other: Seq<char>,
)
    ensures
        JsonView::Object(entries.push((key, value))).get(key) == Some(value),
        other != key ==> JsonView::Object(entries.push((key, value))).get(other)
            == JsonView::Object(entries).get(other),
{
    lemma_entry_push(entries, (key, value), key);
    lemma_entry_push(entries, (key, value), other);
}

} // verus!
