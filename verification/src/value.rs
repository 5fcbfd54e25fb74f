//! Documents: the trees that JSON and TOML texts stand for.
use serde_json::Value;
use vstd::prelude::*;

use crate::text::{owned, str_eq};

verus! {

/// What a document says, as a mathematical tree. The fields of a table that is built
/// here stand in the order in which they were added; those of a document that was parsed
/// stand in the order in which the parser's map gives them.
pub enum Json {
    Null,
    Bool(bool),
    Num(int),
    Float(Seq<char>),
    Str(Seq<char>),
    List(Seq<Json>),
    Table(Seq<(Seq<char>, Json)>),
}

/// A document. A number that is not whole is held as its decimal text.
#[derive(Debug)]
pub enum Data {
    Null,
    Bool(bool),
    Uint(u64),
    Int(i64),
    Float(String),
    Str(String),
    List(Vec<Data>),
    Table(Vec<(String, Data)>),
}

/// The first field of that name.
pub open spec fn lookup(fields: Seq<(Seq<char>, Json)>, key: Seq<char>) -> Option<Json>
    decreases fields.len(),
{
    if fields.len() == 0 {
        None
    } else if fields[0].0 == key {
        Some(fields[0].1)
    } else {
        lookup(fields.drop_first(), key)
    }
}

/// A field is found behind fields of other names.
pub proof fn lemma_find(fields: Seq<(Seq<char>, Json)>, i: int, key: Seq<char>)
    requires
        0 <= i < fields.len(),
        fields[i].0 == key,
        forall|j: int| 0 <= j < i ==> (#[trigger] fields[j]).0 != key,
    ensures
        lookup(fields, key) == Some(fields[i].1),
    decreases i,
{
    if i > 0 {
        assert(fields[0].0 != key);
        lemma_find(fields.drop_first(), i - 1, key);
    }
}

/// A field that is added is found where no field of its name stands before it, and the
/// other fields are found as before.
pub broadcast proof fn lemma_lookup_push(
    fields: Seq<(Seq<char>, Json)>,
    name: Seq<char>,
    v: Json,
    key: Seq<char>,
)
    ensures
        #[trigger] lookup(fields.push((name, v)), key) == (match lookup(fields, key) {
            Some(found) => Some(found),
            None => if name == key {
                Some(v)
            } else {
                None
            },
        }),
    decreases fields.len(),
{
    let longer = fields.push((name, v));
    if fields.len() == 0 {
        assert(longer.drop_first() =~= fields);
    } else {
        assert(longer.drop_first() =~= fields.drop_first().push((name, v)));
        if fields[0].0 != key {
            lemma_lookup_push(fields.drop_first(), name, v, key);
        }
    }
}

/// No fields, to which fields are added with `push`.
pub open spec fn no_fields() -> Seq<(Seq<char>, Json)> {
    Seq::empty()
}

/// No elements, to which elements are added with `push`.
pub open spec fn no_items() -> Seq<Json> {
    Seq::empty()
}

impl Json {
    /// The field of that name, where this is a table that has it.
    pub open spec fn get(self, key: Seq<char>) -> Option<Json> {
        match self {
            Json::Table(fields) => lookup(fields, key),
            _ => None,
        }
    }

    /// The field of that name, or nothing.
    pub open spec fn at(self, key: Seq<char>) -> Json {
        match self.get(key) {
            Some(v) => v,
            None => Json::Null,
        }
    }

    /// The text, where this is one.
    pub open spec fn text(self) -> Option<Seq<char>> {
        match self {
            Json::Str(s) => Some(s),
            _ => None,
        }
    }

    /// The text, or the empty text.
    pub open spec fn text_or_empty(self) -> Seq<char> {
        match self {
            Json::Str(s) => s,
            _ => seq![],
        }
    }

    /// The number, where this is a whole number that a `u64` holds.
    pub open spec fn uint(self) -> Option<int> {
        match self {
            Json::Num(n) => if 0 <= n <= u64::MAX {
                Some(n)
            } else {
                None
            },
            _ => None,
        }
    }

    /// The number, where this is a whole number that an `i64` holds.
    pub open spec fn whole(self) -> Option<int> {
        match self {
            Json::Num(n) => if i64::MIN <= n <= i64::MAX {
                Some(n)
            } else {
                None
            },
            _ => None,
        }
    }

    /// The truth value, where this is one.
    pub open spec fn truth(self) -> Option<bool> {
        match self {
            Json::Bool(b) => Some(b),
            _ => None,
        }
    }

    /// The elements, where this is a list, or none.
    pub open spec fn elements(self) -> Seq<Json> {
        match self {
            Json::List(items) => items,
            _ => seq![],
        }
    }

    /// The fields, where this is a table, or none.
    pub open spec fn fields(self) -> Seq<(Seq<char>, Json)> {
        match self {
            Json::Table(fields) => fields,
            _ => seq![],
        }
    }
}

/// A field is smaller than the fields it is one of.
pub proof fn lemma_lookup_decreases(fields: Seq<(Seq<char>, Json)>, key: Seq<char>)
    requires
        lookup(fields, key) is Some,
    ensures
        exists|i: int| 0 <= i < fields.len() && #[trigger] fields[i] == (key, lookup(fields, key)->0),
    decreases fields.len(),
{
    if fields[0].0 == key {
        assert(fields[0] == (key, lookup(fields, key)->0));
    } else {
        lemma_lookup_decreases(fields.drop_first(), key);
        let i = choose|i: int|
            0 <= i < fields.drop_first().len() && #[trigger] fields.drop_first()[i] == (
                key,
                lookup(fields.drop_first(), key)->0,
            );
        assert(fields[i + 1] == (key, lookup(fields, key)->0));
    }
}

/// A field of a table is smaller than the table.
pub proof fn lemma_get_decreases(v: Json, key: Seq<char>)
    requires
        v.get(key) is Some,
    ensures
        decreases_to!(v => v.get(key)->0),
{
    let fields = v->Table_0;
    lemma_lookup_decreases(fields, key);
    let i = choose|i: int|
        0 <= i < fields.len() && #[trigger] fields[i] == (key, lookup(fields, key)->0);
    assert(decreases_to!(v => v->Table_0));
    assert(decreases_to!(fields => fields[i]));
    assert(decreases_to!(fields[i] => fields[i].1));
}

/// What a list of documents says.
pub open spec fn trees(items: Seq<Data>) -> Seq<Json> {
    Seq::new(items.len(), |i: int| items[i]@)
}

/// What a list of fields says.
pub open spec fn field_trees(items: Seq<(String, Data)>) -> Seq<(Seq<char>, Json)> {
    Seq::new(items.len(), |i: int| (items[i].0@, items[i].1@))
}

impl Data {
    /// What the document says.
    pub open spec fn tree(self) -> Json
        decreases self,
    {
        match self {
            Data::Null => Json::Null,
            Data::Bool(b) => Json::Bool(b),
            Data::Uint(n) => Json::Num(n as int),
            Data::Int(n) => Json::Num(n as int),
            Data::Float(s) => Json::Float(s@),
            Data::Str(s) => Json::Str(s@),
            Data::List(items) => Json::List(
                Seq::new(
                    items@.len(),
                    |i: int|
                        if 0 <= i < items@.len() {
                            items@[i].tree()
                        } else {
                            Json::Null
                        },
                ),
            ),
            Data::Table(items) => Json::Table(
                Seq::new(
                    items@.len(),
                    |i: int|
                        if 0 <= i < items@.len() {
                            (items@[i].0@, items@[i].1.tree())
                        } else {
                            (Seq::empty(), Json::Null)
                        },
                ),
            ),
        }
    }
}

impl View for Data {
    type V = Json;

    open spec fn view(&self) -> Json {
        self.tree()
    }
}

/// A list says what its elements say.
pub proof fn lemma_list_tree(items: Vec<Data>)
    ensures
        Data::List(items)@ == Json::List(trees(items@)),
{
    assert(Data::List(items)@->List_0 =~= trees(items@));
}

/// A table says what its fields say.
pub proof fn lemma_table_tree(items: Vec<(String, Data)>)
    ensures
        Data::Table(items)@ == Json::Table(field_trees(items@)),
{
    assert(Data::Table(items)@->Table_0 =~= field_trees(items@));
}

impl Clone for Data {
    fn clone(&self) -> (r: Data)
        ensures
            r@ == self@,
        decreases self,
    {
        match self {
            Data::Null => Data::Null,
            Data::Bool(b) => Data::Bool(*b),
            Data::Uint(n) => Data::Uint(*n),
            Data::Int(n) => Data::Int(*n),
            Data::Float(s) => Data::Float(s.clone()),
            Data::Str(s) => Data::Str(s.clone()),
            Data::List(items) => {
                let mut out: Vec<Data> = Vec::new();
                for i in 0..items.len()
                    invariant
                        *self == Data::List(*items),
                        out@.len() == i,
                        forall|j: int| 0 <= j < i ==> out@[j]@ == items@[j]@,
                {
                    proof {
                        assert(decreases_to!(*self => self->List_0));
                        assert(decreases_to!(items@ => items@[i as int]));
                    }
                    out.push(items[i].clone());
                }
                proof {
                    lemma_list_tree(out);
                    lemma_list_tree(*items);
                    assert(trees(out@) =~= trees(items@));
                }
                Data::List(out)
            },
            Data::Table(items) => {
                let mut out: Vec<(String, Data)> = Vec::new();
                for i in 0..items.len()
                    invariant
                        *self == Data::Table(*items),
                        out@.len() == i,
                        forall|j: int|
                            0 <= j < i ==> out@[j].0@ == items@[j].0@ && out@[j].1@ == items@[j].1@,
                {
                    proof {
                        assert(decreases_to!(*self => self->Table_0));
                        assert(decreases_to!(items@ => items@[i as int]));
                        assert(decreases_to!(items@[i as int] => items@[i as int].1));
                    }
                    out.push((items[i].0.clone(), items[i].1.clone()));
                }
                proof {
                    lemma_table_tree(out);
                    lemma_table_tree(*items);
                    assert(field_trees(out@) =~= field_trees(items@));
                }
                Data::Table(out)
            },
        }
    }
}

impl Data {
    /// A text.
    pub fn text(s: &str) -> (r: Data)
        ensures
            r@ == Json::Str(s@),
    {
        Data::Str(owned(s))
    }

    /// A list.
    pub fn list(items: Vec<Data>) -> (r: Data)
        ensures
            r@ == Json::List(trees(items@)),
    {
        proof {
            lemma_list_tree(items);
        }
        Data::List(items)
    }

    /// The field of that name, where this is a table that has it.
    pub fn get(&self, key: &str) -> (r: Option<&Data>)
        ensures
            r is Some == self@.get(key@) is Some,
            r is Some ==> r->0@ == self@.get(key@)->0,
            r is Some ==> decreases_to!(*self => *r->0),
    {
        match self {
            Data::Table(items) => {
                let ghost all = field_trees(items@);
                proof {
                    lemma_table_tree(*items);
                    assert(all.skip(0) =~= all);
                }
                let mut i: usize = 0;
                while i < items.len()
                    invariant
                        i <= items@.len(),
                        all == field_trees(items@),
                        *self == Data::Table(*items),
                        self@ == Json::Table(all),
                        lookup(all, key@) == lookup(all.skip(i as int), key@),
                    decreases items@.len() - i,
                {
                    if str_eq(items[i].0.as_str(), key) {
                        proof {
                            assert(decreases_to!(*self => self->Table_0));
                            assert(decreases_to!(items@ => items@[i as int]));
                            assert(decreases_to!(items@[i as int] => items@[i as int].1));
                        }
                        return Some(&items[i].1);
                    }
                    proof {
                        assert(all.skip(i as int).drop_first() =~= all.skip(i + 1));
                    }
                    i = i + 1;
                }
                proof {
                    assert(all.skip(i as int).len() == 0);
                }
                None
            },
            _ => None,
        }
    }

    /// The text, where this is one.
    pub fn as_str(&self) -> (r: Option<&str>)
        ensures
            r is Some == self@.text() is Some,
            r is Some ==> r->0@ == self@.text()->0,
    {
        match self {
            Data::Str(s) => Some(s.as_str()),
            _ => None,
        }
    }

    /// The number, where this is a whole number that a `u64` holds.
    pub fn as_u64(&self) -> (r: Option<u64>)
        ensures
            r is Some == self@.uint() is Some,
            r is Some ==> r->0 == self@.uint()->0,
    {
        match self {
            Data::Uint(n) => Some(*n),
            Data::Int(n) => if *n >= 0 {
                Some(*n as u64)
            } else {
                None
            },
            _ => None,
        }
    }

    /// The number, where this is a whole number that an `i64` holds.
    pub fn as_i64(&self) -> (r: Option<i64>)
        ensures
            r is Some == self@.whole() is Some,
            r is Some ==> r->0 == self@.whole()->0,
    {
        match self {
            Data::Uint(n) => if *n <= 9223372036854775807 {
                Some(*n as i64)
            } else {
                None
            },
            Data::Int(n) => Some(*n),
            _ => None,
        }
    }

    /// The truth value, where this is one.
    pub fn as_bool(&self) -> (r: Option<bool>)
        ensures
            r == self@.truth(),
    {
        match self {
            Data::Bool(b) => Some(*b),
            _ => None,
        }
    }

    /// The elements, where this is a list.
    pub fn as_list(&self) -> (r: Option<&Vec<Data>>)
        ensures
            r is Some == self@ is List,
            r is Some ==> trees(r->0@) == self@.elements(),
    {
        match self {
            Data::List(items) => {
                proof {
                    lemma_list_tree(*items);
                }
                Some(items)
            },
            _ => None,
        }
    }

    /// The fields, where this is a table.
    pub fn as_table(&self) -> (r: Option<&Vec<(String, Data)>>)
        ensures
            r is Some == self@ is Table,
            r is Some ==> field_trees(r->0@) == self@.fields(),
    {
        match self {
            Data::Table(items) => {
                proof {
                    lemma_table_tree(*items);
                }
                Some(items)
            },
            _ => None,
        }
    }

    /// The elements of the list in the field of that name, where there is one.
    pub fn list_at(&self, key: &str) -> (r: Option<&Vec<Data>>)
        ensures
            r is Some == self@.at(key@) is List,
            r is Some ==> trees(r->0@) == self@.at(key@).elements(),
    {
        match self.get(key) {
            Some(v) => v.as_list(),
            None => None,
        }
    }

    /// The fields of the table in the field of that name, where there is one.
    pub fn table_at(&self, key: &str) -> (r: Option<&Vec<(String, Data)>>)
        ensures
            r is Some == self@.at(key@) is Table,
            r is Some ==> field_trees(r->0@) == self@.at(key@).fields(),
    {
        match self.get(key) {
            Some(v) => v.as_table(),
            None => None,
        }
    }

    /// The text in the field of that name, where there is one.
    pub fn str_at(&self, key: &str) -> (r: Option<&str>)
        ensures
            r is Some == self@.at(key@).text() is Some,
            r is Some ==> r->0@ == self@.at(key@).text()->0,
    {
        match self.get(key) {
            Some(v) => v.as_str(),
            None => None,
        }
    }

    /// A copy of the text in the field of that name, or the empty text.
    pub fn text_at(&self, key: &str) -> (r: String)
        ensures
            r@ == self@.at(key@).text_or_empty(),
    {
        match self.str_at(key) {
            Some(s) => owned(s),
            None => String::new(),
        }
    }

    /// The whole number in the field of that name, where there is one.
    pub fn u64_at(&self, key: &str) -> (r: Option<u64>)
        ensures
            r is Some == self@.at(key@).uint() is Some,
            r is Some ==> r->0 == self@.at(key@).uint()->0,
    {
        match self.get(key) {
            Some(v) => v.as_u64(),
            None => None,
        }
    }

    /// The signed whole number in the field of that name, where there is one.
    pub fn i64_at(&self, key: &str) -> (r: Option<i64>)
        ensures
            r is Some == self@.at(key@).whole() is Some,
            r is Some ==> r->0 == self@.at(key@).whole()->0,
    {
        match self.get(key) {
            Some(v) => v.as_i64(),
            None => None,
        }
    }

    /// The truth value in the field of that name, where there is one.
    pub fn bool_at(&self, key: &str) -> (r: Option<bool>)
        ensures
            r == self@.at(key@).truth(),
    {
        match self.get(key) {
            Some(v) => v.as_bool(),
            None => None,
        }
    }
}

/// The fields of a table that is being written.
pub struct Fields {
    items: Vec<(String, Data)>,
}

impl View for Fields {
    type V = Seq<(Seq<char>, Json)>;

    closed spec fn view(&self) -> Seq<(Seq<char>, Json)> {
        field_trees(self.items@)
    }
}

impl Fields {
    /// No fields.
    pub fn new() -> (r: Fields)
        ensures
            r@ == no_fields(),
    {
        let r = Fields { items: Vec::new() };
        proof {
            assert(r@ =~= no_fields());
        }
        r
    }

    /// Writes one more field.
    pub fn put(&mut self, key: &str, value: Data)
        ensures
            final(self)@ == old(self)@.push((key@, value@)),
    {
        self.items.push((owned(key), value));
        proof {
            assert(self@ =~= old(self)@.push((key@, value@)));
        }
    }

    /// Writes one more field that holds a text.
    pub fn put_str(&mut self, key: &str, value: &str)
        ensures
            final(self)@ == old(self)@.push((key@, Json::Str(value@))),
    {
        self.put(key, Data::text(value));
    }

    /// Writes one more field that holds a whole number.
    pub fn put_uint(&mut self, key: &str, value: u64)
        ensures
            final(self)@ == old(self)@.push((key@, Json::Num(value as int))),
    {
        self.put(key, Data::Uint(value));
    }

    /// Writes one more field that holds a truth value.
    pub fn put_bool(&mut self, key: &str, value: bool)
        ensures
            final(self)@ == old(self)@.push((key@, Json::Bool(value))),
    {
        self.put(key, Data::Bool(value));
    }

    /// The table.
    pub fn done(self) -> (r: Data)
        ensures
            r@ == Json::Table(self@),
    {
        proof {
            lemma_table_tree(self.items);
        }
        Data::Table(self.items)
    }
}

/// A JSON document as `serde_json` holds it.
#[verifier::external_type_specification]
#[verifier::external_body]
pub struct ExJsonValue(serde_json::Value);

/// Why a text is no JSON document.
#[verifier::external_type_specification]
#[verifier::external_body]
pub struct ExJsonError(serde_json::Error);

/// A TOML document as `toml` holds it.
#[verifier::external_type_specification]
#[verifier::external_body]
pub struct ExTomlValue(toml::Value);

/// Why a text is no TOML document.
#[verifier::external_type_specification]
#[verifier::external_body]
pub struct ExTomlError(toml::de::Error);

/// The JSON document that a text stands for, where it is one
/// (`serde_json::from_str`).
pub uninterp spec fn json_document(text: Seq<char>) -> Option<Json>;

/// What a `serde_json::Value` holds.
pub uninterp spec fn json_contents(value: serde_json::Value) -> Json;

/// The compact text of a JSON document (`Display` of `serde_json::Value`).
pub uninterp spec fn json_text(value: Json) -> Seq<char>;

/// The TOML document that a text stands for, where it is one
/// (`FromStr` of `toml::Value`).
pub uninterp spec fn toml_document(text: Seq<char>) -> Option<Json>;

/// What a `toml::Value` holds.
pub uninterp spec fn toml_contents(value: toml::Value) -> Json;

/// `serde_json::from_str` to a `serde_json::Value`: the document that the text
/// stands for, or an error where it is none.
#[verifier::external_body]
pub(crate) fn json_from_str(text: &str) -> (r: Result<serde_json::Value, serde_json::Error>)
    ensures
        match r {
            Ok(v) => json_document(text@) == Some(json_contents(v)),
            Err(_) => json_document(text@) is None,
        },
{
    serde_json::from_str::<serde_json::Value>(text)
}

/// The variants of `serde_json::Value` one for one: null, a truth value, a
/// number (`Number::as_u64`, else `Number::as_i64`, else its text), a text, a
/// list, a table with its fields in the order of the map.
#[verifier::external_body]
pub(crate) fn json_tree(value: &serde_json::Value) -> (r: Data)
    ensures
        r@ == json_contents(*value),
{
    match value {
        Value::Null => Data::Null,
        Value::Bool(b) => Data::Bool(*b),
        Value::Number(n) => match (n.as_u64(), n.as_i64()) {
            (Some(u), _) => Data::Uint(u),
            (None, Some(i)) => Data::Int(i),
            (None, None) => Data::Float(n.to_string()),
        },
        Value::String(s) => Data::Str(s.clone()),
        Value::Array(a) => Data::List(a.iter().map(json_tree).collect()),
        Value::Object(o) => Data::Table(o.iter().map(|(k, v)| (k.clone(), json_tree(v))).collect()),
    }
}

/// `serde_json::Value::String`: the document that is just that text.
#[verifier::external_body]
pub(crate) fn json_string(text: &str) -> (r: serde_json::Value)
    ensures
        json_contents(r) == Json::Str(text@),
{
    serde_json::Value::String(text.to_owned())
}

/// `serde_json::Value::to_string`: the compact text of the document.
#[verifier::external_body]
pub(crate) fn json_to_string(value: &serde_json::Value) -> (r: String)
    ensures
        r@ == json_text(json_contents(*value)),
{
    value.to_string()
}

/// `str::parse` to a `toml::Value`: the document that the text stands for, or
/// an error where it is none.
#[verifier::external_body]
pub(crate) fn toml_from_str(text: &str) -> (r: Result<toml::Value, toml::de::Error>)
    ensures
        match r {
            Ok(v) => toml_document(text@) == Some(toml_contents(v)),
            Err(_) => toml_document(text@) is None,
        },
{
    text.parse::<toml::Value>()
}

/// The variants of `toml::Value` one for one; a number that is not whole and a
/// date are held as their text.
#[verifier::external_body]
pub(crate) fn toml_tree(value: &toml::Value) -> (r: Data)
    ensures
        r@ == toml_contents(*value),
{
    match value {
        toml::Value::String(s) => Data::Str(s.clone()),
        toml::Value::Integer(i) => Data::Int(*i),
        toml::Value::Float(x) => Data::Float(x.to_string()),
        toml::Value::Boolean(b) => Data::Bool(*b),
        toml::Value::Datetime(d) => Data::Float(d.to_string()),
        toml::Value::Array(a) => Data::List(a.iter().map(toml_tree).collect()),
        toml::Value::Table(t) => Data::Table(t.iter().map(|(k, v)| (k.clone(), toml_tree(v))).collect()),
    }
}

/// The JSON document that a text stands for, where it is one.
pub fn parse_json(text: &str) -> (r: Option<Data>)
    ensures
        match json_document(text@) {
            Some(tree) => r is Some && r->0@ == tree,
            None => r is None,
        },
{
    match json_from_str(text) {
        Ok(v) => Some(json_tree(&v)),
        Err(_) => None,
    }
}

/// The TOML document that a text stands for, where it is one.
pub fn parse_toml(text: &str) -> (r: Option<Data>)
    ensures
        match toml_document(text@) {
            Some(tree) => r is Some && r->0@ == tree,
            None => r is None,
        },
{
    match toml_from_str(text) {
        Ok(v) => Some(toml_tree(&v)),
        Err(_) => None,
    }
}

/// The first field of a name is the one that counts, and where there is none of that name
/// there is nothing.
pub proof fn first_field_of_a_name_counts(
    fields: Seq<(Seq<char>, Json)>,
    i: int,
    key: Seq<char>,
)
    requires
        0 <= i <= fields.len(),
        forall|j: int| 0 <= j < i ==> (#[trigger] fields[j]).0 != key,
        i < fields.len() ==> fields[i].0 == key,
    ensures
        i < fields.len() ==> Json::Table(fields).get(key) == Some(fields[i].1) && Json::Table(
            fields,
        ).at(key) == fields[i].1,
        i == fields.len() ==> Json::Table(fields).get(key) is None && Json::Table(fields).at(key)
            == Json::Null,
    decreases i,
{
    if i > 0 {
        assert(fields[0].0 != key);
        let rest = fields.drop_first();
        assert forall|j: int| 0 <= j < i - 1 implies (#[trigger] rest[j]).0 != key by {
            assert(rest[j] == fields[j + 1]);
        }
        first_field_of_a_name_counts(rest, i - 1, key);
    }
}

/// A text, a truth value, a list and a table are given as they are, and a whole number
/// where it is not too large.
pub proof fn values_are_given_as_they_are(
    n: int,
    s: Seq<char>,
    b: bool,
    items: Seq<Json>,
    fields: Seq<(Seq<char>, Json)>,
)
    ensures
        Json::Str(s).text() == Some(s),
        Json::Str(s).text_or_empty() == s,
        Json::Bool(b).truth() == Some(b),
        Json::List(items).elements() == items,
        Json::Table(fields).fields() == fields,
        0 <= n <= 18446744073709551615 ==> Json::Num(n).uint() == Some(n),
        !(0 <= n <= 18446744073709551615) ==> Json::Num(n).uint() is None,
        -9223372036854775808 <= n <= 9223372036854775807 ==> Json::Num(n).whole() == Some(n),
        !(-9223372036854775808 <= n <= 9223372036854775807) ==> Json::Num(n).whole() is None,
{
}

/// What is asked for as something that it is not gives nothing.
pub proof fn values_are_of_one_kind(v: Json, key: Seq<char>)
    ensures
        !(v is Str) ==> v.text() is None && v.text_or_empty().len() == 0,
        !(v is Bool) ==> v.truth() is None,
        !(v is Num) ==> v.uint() is None && v.whole() is None,
        !(v is List) ==> v.elements().len() == 0,
        !(v is Table) ==> v.fields().len() == 0 && v.get(key) is None && v.at(key) == Json::Null,
{
}

/// A document says what it holds.
pub proof fn documents_say_what_they_hold(
    unsigned: u64,
    signed: i64,
    s: String,
    b: bool,
    items: Vec<Data>,
    fields: Vec<(String, Data)>,
    i: int,
)
    ensures
        Data::Uint(unsigned)@ == Json::Num(unsigned as int),
        Data::Int(signed)@ == Json::Num(signed as int),
        Data::Str(s)@ == Json::Str(s@),
        Data::Float(s)@ == Json::Float(s@),
        Data::Bool(b)@ == Json::Bool(b),
        Data::Null@ == Json::Null,
        Data::List(items)@.elements().len() == items@.len(),
        Data::Table(fields)@.fields().len() == fields@.len(),
        0 <= i < items@.len() ==> Data::List(items)@.elements()[i] == items@[i]@,
        0 <= i < fields@.len() ==> Data::Table(fields)@.fields()[i] == (
            fields@[i].0@,
            fields@[i].1@,
        ),
{
    lemma_list_tree(items);
    lemma_table_tree(fields);
}

} // verus!
