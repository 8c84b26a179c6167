//! JSON values as the node protocol reads them.
//!
//! Message bodies are JSON objects. [`Json`] holds such a value in plain Rust
//! data, [`JsonView`] is its mathematical model, and the functions here read
//! and build objects and arrays against that model.

use vstd::prelude::*;

verus! {

/// A JSON value.
///
/// Numbers are kept as integers wherever they are integers between
/// `i64::MIN` and `u64::MAX`; any other number keeps its decimal text.
/// An object is a list of named entries. Where a name occurs more than once,
/// the first entry is the one that is read, and the value cannot be written
/// as text.
#[derive(Debug, PartialEq, Eq)]
pub enum Json {
    Null,
    Bool(bool),
    Int(i128),
    Real(String),
    Text(String),
    Array(Vec<Json>),
    Object(Vec<(String, Json)>),
}

/// The entries of a JSON object, in order.
pub type Fields = Vec<(String, Json)>;

/// The mathematical model of a [`Json`] value.
pub ghost enum JsonView {
    Null,
    Bool(bool),
    Int(int),
    Real(Seq<char>),
    Text(Seq<char>),
    Array(Seq<JsonView>),
    Object(Seq<(Seq<char>, JsonView)>),
}

/// The model of an object's entries.
pub type FieldsView = Seq<(Seq<char>, JsonView)>;

/// The model of a value.
pub open spec fn model(value: Json) -> JsonView
    decreases value,
{
    match value {
        Json::Null => JsonView::Null,
        Json::Bool(b) => JsonView::Bool(b),
        Json::Int(i) => JsonView::Int(i as int),
        Json::Real(text) => JsonView::Real(text@),
        Json::Text(text) => JsonView::Text(text@),
        Json::Array(items) => JsonView::Array(
            Seq::new(
                items@.len(),
                |i: int|
                    if 0 <= i < items@.len() {
                        model(items@[i])
                    } else {
                        JsonView::Null
                    },
            ),
        ),
        Json::Object(fields) => JsonView::Object(
            Seq::new(
                fields@.len(),
                |i: int|
                    if 0 <= i < fields@.len() {
                        (fields@[i].0@, model(fields@[i].1))
                    } else {
                        (Seq::empty(), JsonView::Null)
                    },
            ),
        ),
    }
}

impl View for Json {
    type V = JsonView;

    open spec fn view(&self) -> JsonView {
        model(*self)
    }
}

impl DeepView for Json {
    type V = JsonView;

    open spec fn deep_view(&self) -> JsonView {
        self.view()
    }
}

/// The models of a list of values, item by item.
pub open spec fn view_items(items: Seq<Json>) -> Seq<JsonView> {
    Seq::new(items.len(), |i: int| items[i]@)
}

/// The models of a list of entries, entry by entry.
pub open spec fn view_fields(fields: Seq<(String, Json)>) -> FieldsView {
    Seq::new(fields.len(), |i: int| (fields[i].0@, fields[i].1@))
}

/// The model of an array is the array of its items' models.
pub proof fn lemma_array_view(items: Vec<Json>)
    ensures
        Json::Array(items)@ == JsonView::Array(view_items(items@)),
{
    assert(Json::Array(items)@->Array_0 =~= view_items(items@));
}

/// The model of an object is the list of its entries' models.
pub proof fn lemma_object_view(fields: Fields)
    ensures
        Json::Object(fields)@ == JsonView::Object(view_fields(fields@)),
{
    assert(Json::Object(fields)@->Object_0 =~= view_fields(fields@));
}

impl JsonView {
    /// The value as a signed 64-bit integer, where it is one.
    pub open spec fn as_i64(self) -> Option<i64> {
        match self {
            JsonView::Int(i) if i64::MIN <= i <= i64::MAX => Some(i as i64),
            _ => None,
        }
    }

    /// The value as an unsigned 64-bit integer, where it is one.
    pub open spec fn as_u64(self) -> Option<u64> {
        match self {
            JsonView::Int(i) if 0 <= i <= u64::MAX => Some(i as u64),
            _ => None,
        }
    }

    /// The value as a string, where it is one.
    pub open spec fn as_text(self) -> Option<Seq<char>> {
        match self {
            JsonView::Text(text) => Some(text),
            _ => None,
        }
    }

    /// The items of the value, where it is an array.
    pub open spec fn as_array(self) -> Option<Seq<JsonView>> {
        match self {
            JsonView::Array(items) => Some(items),
            _ => None,
        }
    }

    /// The entries of the value, where it is an object.
    pub open spec fn as_object(self) -> Option<FieldsView> {
        match self {
            JsonView::Object(fields) => Some(fields),
            _ => None,
        }
    }
}

/// Entry `i` is the first entry of `fields` named `key`.
pub open spec fn first_at(fields: FieldsView, key: Seq<char>, i: int) -> bool {
    &&& 0 <= i < fields.len()
    &&& fields[i].0 == key
    &&& forall|j: int| 0 <= j < i ==> (#[trigger] fields[j]).0 != key
}

/// Some entry of `fields` is named `key`.
pub open spec fn has_field(fields: FieldsView, key: Seq<char>) -> bool {
    exists|i: int| first_at(fields, key, i)
}

/// The value that `fields` gives to `key`: that of the first entry so named.
pub open spec fn field(fields: FieldsView, key: Seq<char>) -> Option<JsonView> {
    if has_field(fields, key) {
        Some(fields[choose|i: int| first_at(fields, key, i)].1)
    } else {
        None
    }
}

/// `fields` with `key` set to `value`: in place where `key` is there, at the end where not.
pub open spec fn with_field(fields: FieldsView, key: Seq<char>, value: JsonView) -> FieldsView {
    if has_field(fields, key) {
        fields.update(choose|i: int| first_at(fields, key, i), (key, value))
    } else {
        fields.push((key, value))
    }
}

/// `fields` without its first entry named `key`.
pub open spec fn without_field(fields: FieldsView, key: Seq<char>) -> FieldsView {
    if has_field(fields, key) {
        fields.remove(choose|i: int| first_at(fields, key, i))
    } else {
        fields
    }
}

/// No two entries of `fields` share a name.
pub open spec fn distinct_keys(fields: FieldsView) -> bool {
    forall|i: int, j: int|
        0 <= i < j < fields.len() ==> (#[trigger] fields[i]).0 != (#[trigger] fields[j]).0
}

/// No object in `value`, at any depth, has two entries with one name.
pub open spec fn names_apart(value: JsonView) -> bool
    decreases value, 1int,
{
    match value {
        JsonView::Array(items) => items_apart(items),
        JsonView::Object(fields) => distinct_keys(fields) && values_apart(fields),
        _ => true,
    }
}

/// In none of `items` does an object have two entries with one name.
pub open spec fn items_apart(items: Seq<JsonView>) -> bool
    decreases items, 0int,
{
    forall|i: int| 0 <= i < items.len() ==> names_apart(#[trigger] items[i])
}

/// In no value of `fields` does an object have two entries with one name.
pub open spec fn values_apart(fields: FieldsView) -> bool
    decreases fields, 0int,
{
    forall|i: int| 0 <= i < fields.len() ==> names_apart((#[trigger] fields[i]).1)
}

/// The integers of an array, where every item is a signed 64-bit integer.
pub open spec fn ints_of(items: Seq<JsonView>) -> Option<Seq<i64>> {
    if forall|i: int| 0 <= i < items.len() ==> (#[trigger] items[i]).as_i64() is Some {
        Some(Seq::new(items.len(), |i: int| items[i].as_i64()->0))
    } else {
        None
    }
}

/// The strings of an array, where every item is a string.
pub open spec fn texts_of(items: Seq<JsonView>) -> Option<Seq<Seq<char>>> {
    if forall|i: int| 0 <= i < items.len() ==> (#[trigger] items[i]).as_text() is Some {
        Some(Seq::new(items.len(), |i: int| items[i].as_text()->0))
    } else {
        None
    }
}

/// The array whose items are the given integers.
pub open spec fn array_of_ints(values: Seq<i64>) -> JsonView {
    JsonView::Array(Seq::new(values.len(), |i: int| JsonView::Int(values[i] as int)))
}

/// Where some entry is named `key`, there is a first one.
pub proof fn named_entry_has_first(fields: FieldsView, key: Seq<char>, i: int)
    requires
        0 <= i < fields.len(),
        fields[i].0 == key,
    ensures
        has_field(fields, key),
    decreases i,
{
    if forall|j: int| 0 <= j < i ==> (#[trigger] fields[j]).0 != key {
        assert(first_at(fields, key, i));
    } else {
        let j = choose|j: int| 0 <= j < i && (#[trigger] fields[j]).0 == key;
        named_entry_has_first(fields, key, j);
    }
}

/// Setting a field keeps the names apart: where no two entries share a name
/// before, none do after.
pub proof fn with_field_keeps_names_apart(fields: FieldsView, key: Seq<char>, value: JsonView)
    requires
        distinct_keys(fields),
    ensures
        distinct_keys(with_field(fields, key, value)),
{
    let after = with_field(fields, key, value);
    if has_field(fields, key) {
        let at = choose|i: int| first_at(fields, key, i);
        assert forall|i: int, j: int| 0 <= i < j < after.len() implies (#[trigger] after[i]).0
            != (#[trigger] after[j]).0 by {
            assert(after[i].0 == fields[i].0);
            assert(after[j].0 == fields[j].0);
        }
    } else {
        assert forall|i: int, j: int| 0 <= i < j < after.len() implies (#[trigger] after[i]).0
            != (#[trigger] after[j]).0 by {
            if j == fields.len() {
                if fields[i].0 == key {
                    named_entry_has_first(fields, key, i);
                }
            } else {
                assert(after[i] == fields[i]);
                assert(after[j] == fields[j]);
            }
        }
    }
}

/// Setting a field to a value whose names are apart keeps the values' names
/// apart.
pub proof fn with_field_keeps_values_apart(fields: FieldsView, key: Seq<char>, value: JsonView)
    requires
        values_apart(fields),
        names_apart(value),
    ensures
        values_apart(with_field(fields, key, value)),
{
    let after = with_field(fields, key, value);
    assert forall|i: int| 0 <= i < after.len() implies names_apart((#[trigger] after[i]).1) by {
        if after[i] != (key, value) {
            assert(after[i] == fields[i]);
        }
    }
}

impl Clone for Json {
    /// A copy of the value.
    fn clone(&self) -> (r: Json)
        ensures
            r@ == self@,
        decreases self,
    {
        match self {
            Json::Null => Json::Null,
            Json::Bool(b) => Json::Bool(*b),
            Json::Int(i) => Json::Int(*i),
            Json::Real(text) => Json::Real(text.clone()),
            Json::Text(text) => Json::Text(text.clone()),
            Json::Array(items) => {
                let mut copies: Vec<Json> = Vec::new();
                let mut i: usize = 0;
                while i < items.len()
                    invariant
                        i <= items.len(),
                        decreases_to!(self => items),
                        copies@.len() == i,
                        forall|j: int| 0 <= j < i ==> (#[trigger] copies@[j])@ == items@[j]@,
                    decreases items.len() - i,
                {
                    proof {
                        vstd::std_specs::vec::axiom_vec_index_decreases(*items, i as int);
                    }
                    copies.push(items[i].clone());
                    i += 1;
                }
                proof {
                    lemma_array_view(*items);
                    lemma_array_view(copies);
                    assert(view_items(copies@) =~= view_items(items@));
                }
                Json::Array(copies)
            },
            Json::Object(fields) => {
                let mut copies: Fields = Vec::new();
                let mut i: usize = 0;
                while i < fields.len()
                    invariant
                        i <= fields.len(),
                        decreases_to!(self => fields),
                        copies@.len() == i,
                        forall|j: int|
                            0 <= j < i ==> (#[trigger] copies@[j]).0@ == fields@[j].0@
                                && copies@[j].1@ == fields@[j].1@,
                    decreases fields.len() - i,
                {
                    proof {
                        vstd::std_specs::vec::axiom_vec_index_decreases(*fields, i as int);
                    }
                    copies.push((fields[i].0.clone(), fields[i].1.clone()));
                    i += 1;
                }
                proof {
                    lemma_object_view(*fields);
                    lemma_object_view(copies);
                    assert(view_fields(copies@) =~= view_fields(fields@));
                }
                Json::Object(copies)
            },
        }
    }
}

impl Json {
    /// The value as a signed 64-bit integer, where it is one.
    pub fn as_i64(&self) -> (r: Option<i64>)
        ensures
            r == self@.as_i64(),
    {
        match self {
            Json::Int(i) => {
                if i64::MIN as i128 <= *i && *i <= i64::MAX as i128 {
                    Some(*i as i64)
                } else {
                    None
                }
            },
            _ => None,
        }
    }

    /// The value as an unsigned 64-bit integer, where it is one.
    pub fn as_u64(&self) -> (r: Option<u64>)
        ensures
            r == self@.as_u64(),
    {
        match self {
            Json::Int(i) => {
                if 0 <= *i && *i <= u64::MAX as i128 {
                    Some(*i as u64)
                } else {
                    None
                }
            },
            _ => None,
        }
    }

    /// The value as a string, where it is one.
    pub fn as_text(&self) -> (r: Option<&String>)
        ensures
            match r {
                Some(text) => self@.as_text() == Some(text@),
                None => self@.as_text() is None,
            },
    {
        match self {
            Json::Text(text) => Some(text),
            _ => None,
        }
    }

    /// The items of the value, where it is an array.
    pub fn as_array(&self) -> (r: Option<&Vec<Json>>)
        ensures
            match r {
                Some(items) => self@.as_array() == Some(view_items(items@)),
                None => self@.as_array() is None,
            },
    {
        match self {
            Json::Array(items) => {
                proof {
                    lemma_array_view(*items);
                }
                Some(items)
            },
            _ => None,
        }
    }

    /// The entries of the value, where it is an object.
    pub fn as_object(&self) -> (r: Option<&Fields>)
        ensures
            match r {
                Some(fields) => self@.as_object() == Some(view_fields(fields@)),
                None => self@.as_object() is None,
            },
    {
        match self {
            Json::Object(fields) => {
                proof {
                    lemma_object_view(*fields);
                }
                Some(fields)
            },
            _ => None,
        }
    }

    /// Whether no object in the value, at any depth, has two entries with one
    /// name.
    pub fn names_apart(&self) -> (r: bool)
        ensures
            r == names_apart(self@),
        decreases self,
    {
        match self {
            Json::Array(items) => {
                proof {
                    lemma_array_view(*items);
                }
                let mut i: usize = 0;
                while i < items.len()
                    invariant
                        i <= items.len(),
                        decreases_to!(self => items),
                        self@ == JsonView::Array(view_items(items@)),
                        forall|j: int| 0 <= j < i ==> names_apart(#[trigger] view_items(items@)[j]),
                    decreases items.len() - i,
                {
                    proof {
                        vstd::std_specs::vec::axiom_vec_index_decreases(*items, i as int);
                    }
                    if !items[i].names_apart() {
                        assert(!names_apart(view_items(items@)[i as int]));
                        return false;
                    }
                    i += 1;
                }
                true
            },
            Json::Object(fields) => {
                proof {
                    lemma_object_view(*fields);
                }
                if !distinct(fields) {
                    return false;
                }
                let mut i: usize = 0;
                while i < fields.len()
                    invariant
                        i <= fields.len(),
                        decreases_to!(self => fields),
                        self@ == JsonView::Object(view_fields(fields@)),
                        forall|j: int|
                            0 <= j < i ==> names_apart((#[trigger] view_fields(fields@)[j]).1),
                    decreases fields.len() - i,
                {
                    proof {
                        vstd::std_specs::vec::axiom_vec_index_decreases(*fields, i as int);
                    }
                    if !fields[i].1.names_apart() {
                        assert(!names_apart(view_fields(fields@)[i as int].1));
                        return false;
                    }
                    i += 1;
                }
                true
            },
            _ => true,
        }
    }

    /// The array whose items are the given integers.
    pub fn from_ints(values: &Vec<i64>) -> (r: Json)
        ensures
            r@ == array_of_ints(values@),
    {
        let mut items: Vec<Json> = Vec::new();
        let mut i: usize = 0;
        while i < values.len()
            invariant
                i <= values.len(),
                items@.len() == i,
                forall|j: int| 0 <= j < i ==> (#[trigger] items@[j])@ == JsonView::Int(values@[j] as int),
            decreases values.len() - i,
        {
            items.push(Json::Int(values[i] as i128));
            i += 1;
        }
        proof {
            lemma_array_view(items);
            assert(view_items(items@) =~= array_of_ints(values@)->Array_0);
        }
        Json::Array(items)
    }

    /// The integers of the value, where it is an array of signed 64-bit integers.
    pub fn as_ints(&self) -> (r: Option<Vec<i64>>)
        ensures
            match self@.as_array() {
                Some(items) => r.deep_view() == ints_of(items),
                None => r is None,
            },
    {
        let items = match self.as_array() {
            Some(items) => items,
            None => {
                return None;
            },
        };
        let ghost models = view_items(items@);
        let mut values: Vec<i64> = Vec::new();
        let mut i: usize = 0;
        while i < items.len()
            invariant
                i <= items.len(),
                models == view_items(items@),
                self@.as_array() == Some(models),
                values@.len() == i,
                forall|j: int| 0 <= j < i ==> (#[trigger] models[j]).as_i64() == Some(values@[j]),
            decreases items.len() - i,
        {
            match items[i].as_i64() {
                Some(value) => {
                    values.push(value);
                },
                None => {
                    assert(models[i as int].as_i64() is None);
                    return None;
                },
            }
            i += 1;
        }
        assert(values@ =~= ints_of(models)->0);
        Some(values)
    }

    /// The strings of the value, where it is an array of strings.
    pub fn as_texts(&self) -> (r: Option<Vec<String>>)
        ensures
            match self@.as_array() {
                Some(items) => r.deep_view() == texts_of(items),
                None => r is None,
            },
    {
        let items = match self.as_array() {
            Some(items) => items,
            None => {
                return None;
            },
        };
        let ghost models = view_items(items@);
        let mut values: Vec<String> = Vec::new();
        let mut i: usize = 0;
        while i < items.len()
            invariant
                i <= items.len(),
                models == view_items(items@),
                self@.as_array() == Some(models),
                values@.len() == i,
                forall|j: int| 0 <= j < i ==> (#[trigger] models[j]).as_text() == Some(values@[j]@),
            decreases items.len() - i,
        {
            match items[i].as_text() {
                Some(text) => {
                    values.push(text.clone());
                },
                None => {
                    assert(models[i as int].as_text() is None);
                    return None;
                },
            }
            i += 1;
        }
        assert(values.deep_view() =~= texts_of(models)->0);
        Some(values)
    }
}

/// Whether no two entries of `fields` share a name.
pub fn distinct(fields: &Fields) -> (r: bool)
    ensures
        r == distinct_keys(view_fields(fields@)),
{
    let mut j: usize = 0;
    while j < fields.len()
        invariant
            j <= fields.len(),
            forall|a: int, b: int|
                0 <= a < b < j ==> (#[trigger] view_fields(fields@)[a]).0 != (
                #[trigger] view_fields(fields@)[b]).0,
        decreases fields.len() - j,
    {
        let mut i: usize = 0;
        while i < j
            invariant
                i <= j < fields.len(),
                forall|a: int| 0 <= a < i ==> (#[trigger] view_fields(fields@)[a]).0 != view_fields(
                    fields@,
                )[j as int].0,
            decreases j - i,
        {
            if fields[i].0 == fields[j].0 {
                assert(view_fields(fields@)[i as int].0 == view_fields(fields@)[j as int].0);
                return false;
            }
            i += 1;
        }
        j += 1;
    }
    true
}

/// A copy of `fields`.
pub fn copy_fields(fields: &Fields) -> (r: Fields)
    ensures
        view_fields(r@) == view_fields(fields@),
{
    let mut copies: Fields = Vec::new();
    let mut i: usize = 0;
    while i < fields.len()
        invariant
            i <= fields.len(),
            copies@.len() == i,
            forall|j: int|
                0 <= j < i ==> (#[trigger] copies@[j]).0@ == fields@[j].0@ && copies@[j].1@
                    == fields@[j].1@,
        decreases fields.len() - i,
    {
        copies.push((fields[i].0.clone(), fields[i].1.clone()));
        i += 1;
    }
    assert(view_fields(copies@) =~= view_fields(fields@));
    copies
}

/// Where the first entry named `key` stands in `fields`.
pub fn position(fields: &Fields, key: &str) -> (r: Option<usize>)
    ensures
        match r {
            Some(i) => first_at(view_fields(fields@), key@, i as int),
            None => !has_field(view_fields(fields@), key@),
        },
{
    let wanted = key.to_owned();
    let mut i: usize = 0;
    while i < fields.len()
        invariant
            i <= fields.len(),
            wanted@ == key@,
            forall|j: int| 0 <= j < i ==> (#[trigger] view_fields(fields@)[j]).0 != key@,
        decreases fields.len() - i,
    {
        if fields[i].0 == wanted {
            return Some(i);
        }
        i += 1;
    }
    None
}

/// The value that `fields` gives to `key`.
pub fn get<'a>(fields: &'a Fields, key: &str) -> (r: Option<&'a Json>)
    ensures
        match r {
            Some(value) => field(view_fields(fields@), key@) == Some(value@),
            None => field(view_fields(fields@), key@) is None,
        },
{
    match position(fields, key) {
        Some(i) => Some(&fields[i].1),
        None => None,
    }
}

/// Sets `key` to `value`: in place where `key` is there, at the end where not.
pub fn put(fields: &mut Fields, key: &str, value: Json)
    ensures
        view_fields(final(fields)@) == with_field(view_fields(old(fields)@), key@, value@),
{
    let ghost before = view_fields(fields@);
    match position(fields, key) {
        Some(i) => {
            fields.set(i, (key.to_owned(), value));
            assert(view_fields(fields@) =~= before.update(i as int, (key@, value@)));
        },
        None => {
            fields.push((key.to_owned(), value));
            assert(view_fields(fields@) =~= before.push((key@, value@)));
        },
    }
}

/// Takes the first entry named `key` out of `fields`.
pub fn take(fields: &mut Fields, key: &str) -> (r: Option<Json>)
    ensures
        r.deep_view() == field(view_fields(old(fields)@), key@),
        view_fields(final(fields)@) == without_field(view_fields(old(fields)@), key@),
{
    let ghost before = view_fields(fields@);
    match position(fields, key) {
        Some(i) => {
            let entry = fields.remove(i);
            assert(view_fields(fields@) =~= before.remove(i as int));
            Some(entry.1)
        },
        None => None,
    }
}

} // verus!
