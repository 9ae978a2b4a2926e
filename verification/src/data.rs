//! Structured documents as plain values.
//!
//! JSON and TOML documents are read by `serde_json` and `toml`, and evidence is written by
//! `serde_json`. The rules of the library work on [`Data`], which holds what such a document holds.

use vstd::prelude::*;

use crate::text::{same_text, text_option, texts};

verus! {

/// A value of a document.
///
/// A number or a point in time is kept as a scalar: the text that the reading crate displays.
#[derive(Debug)]
pub enum Data {
    Null,
    Bool(bool),
    Scalar(String),
    Text(String),
    List(Vec<Data>),
    Table(Vec<(String, Data)>),
}

/// The model of a value of a document.
pub enum DataView {
    Null,
    Bool(bool),
    Scalar(Seq<char>),
    Text(Seq<char>),
    List(Seq<DataView>),
    Table(Map<Seq<char>, DataView>),
}

/// The table of a list of fields; of two fields with one name the later one counts.
pub open spec fn fields_map(fields: Seq<(Seq<char>, DataView)>) -> Map<Seq<char>, DataView>
    decreases fields.len(),
{
    if fields.len() == 0 {
        Map::empty()
    } else {
        fields_map(fields.drop_last()).insert(fields.last().0, fields.last().1)
    }
}

/// The model of a value.
pub open spec fn data_view(value: Data) -> DataView
    decreases value, 0nat,
{
    match value {
        Data::Null => DataView::Null,
        Data::Bool(b) => DataView::Bool(b),
        Data::Scalar(s) => DataView::Scalar(s@),
        Data::Text(t) => DataView::Text(t@),
        Data::List(items) => DataView::List(list_view(items@)),
        Data::Table(fields) => DataView::Table(fields_map(table_view(fields@))),
    }
}

/// The model of a list of values.
pub open spec fn list_view(items: Seq<Data>) -> Seq<DataView>
    decreases items, items.len(),
{
    if items.len() == 0 {
        Seq::empty()
    } else {
        list_view(items.drop_last()).push(data_view(items.last()))
    }
}

/// The model of the fields of a table.
pub open spec fn table_view(fields: Seq<(String, Data)>) -> Seq<(Seq<char>, DataView)>
    decreases fields, fields.len(),
{
    if fields.len() == 0 {
        Seq::empty()
    } else {
        table_view(fields.drop_last()).push((fields.last().0@, data_view(fields.last().1)))
    }
}

impl View for Data {
    type V = DataView;

    open spec fn view(&self) -> DataView {
        data_view(*self)
    }
}

/// The field of a table.
pub open spec fn field_of(value: DataView, name: Seq<char>) -> Option<DataView> {
    match value {
        DataView::Table(fields) => if fields.contains_key(name) {
            Some(fields[name])
        } else {
            None
        },
        _ => None,
    }
}

/// The items of a list.
pub open spec fn items_of(value: DataView) -> Option<Seq<DataView>> {
    match value {
        DataView::List(items) => Some(items),
        _ => None,
    }
}

/// The characters of a text.
pub open spec fn text_of_data(value: DataView) -> Option<Seq<char>> {
    match value {
        DataView::Text(text) => Some(text),
        _ => None,
    }
}

/// The text in a field of a table; nothing where there is no such field or it is no text.
pub open spec fn text_field(value: DataView, name: Seq<char>) -> Option<Seq<char>> {
    match field_of(value, name) {
        Some(found) => text_of_data(found),
        None => None,
    }
}

/// The item at a position of a list.
pub open spec fn item_of(value: DataView, index: int) -> Option<DataView> {
    match items_of(value) {
        Some(items) => if 0 <= index < items.len() {
            Some(items[index])
        } else {
            None
        },
        None => None,
    }
}

pub proof fn lemma_list_view(items: Seq<Data>)
    ensures
        list_view(items).len() == items.len(),
        forall|i: int| 0 <= i < items.len() ==> #[trigger] list_view(items)[i] == items[i]@,
    decreases items.len(),
{
    if items.len() > 0 {
        lemma_list_view(items.drop_last());
        assert forall|i: int| 0 <= i < items.len() implies #[trigger] list_view(items)[i]
            == items[i]@ by {
            if i < items.len() - 1 {
                assert(list_view(items)[i] == list_view(items.drop_last())[i]);
                assert(items.drop_last()[i] == items[i]);
            }
        }
    }
}

proof fn lemma_table_view(fields: Seq<(String, Data)>)
    ensures
        table_view(fields).len() == fields.len(),
        forall|i: int|
            0 <= i < fields.len() ==> #[trigger] table_view(fields)[i] == (
                fields[i].0@,
                fields[i].1@,
            ),
    decreases fields.len(),
{
    if fields.len() > 0 {
        lemma_table_view(fields.drop_last());
        assert forall|i: int| 0 <= i < fields.len() implies #[trigger] table_view(fields)[i] == (
            fields[i].0@,
            fields[i].1@,
        ) by {
            if i < fields.len() - 1 {
                assert(table_view(fields)[i] == table_view(fields.drop_last())[i]);
                assert(fields.drop_last()[i] == fields[i]);
            }
        }
    }
}

/// The last field of a name is what the table holds under it.
pub proof fn lemma_fields_map_last(fields: Seq<(Seq<char>, DataView)>, at: int)
    requires
        0 <= at < fields.len(),
        forall|j: int| at < j < fields.len() ==> (#[trigger] fields[j]).0 != fields[at].0,
    ensures
        fields_map(fields).contains_key(fields[at].0),
        fields_map(fields)[fields[at].0] == fields[at].1,
    decreases fields.len(),
{
    if at < fields.len() - 1 {
        assert(fields.drop_last()[at] == fields[at]);
        assert forall|j: int| at < j < fields.drop_last().len() implies (
        #[trigger] fields.drop_last()[j]).0 != fields[at].0 by {
            assert(fields.drop_last()[j] == fields[j]);
        }
        assert(fields[fields.len() - 1].0 != fields[at].0);
        lemma_fields_map_last(fields.drop_last(), at);
    }
}

proof fn lemma_fields_map_absent(fields: Seq<(Seq<char>, DataView)>, name: Seq<char>)
    requires
        forall|j: int| 0 <= j < fields.len() ==> (#[trigger] fields[j]).0 != name,
    ensures
        !fields_map(fields).contains_key(name),
    decreases fields.len(),
{
    if fields.len() > 0 {
        assert(fields[fields.len() - 1].0 != name);
        assert forall|j: int| 0 <= j < fields.drop_last().len() implies (
        #[trigger] fields.drop_last()[j]).0 != name by {
            assert(fields.drop_last()[j] == fields[j]);
        }
        lemma_fields_map_absent(fields.drop_last(), name);
    }
}

/// The view of an optional value.
pub open spec fn data_option(value: Option<&Data>) -> Option<DataView> {
    match value {
        Some(found) => Some((*found)@),
        None => None,
    }
}

impl Data {
    /// The field of a table.
    pub fn field(&self, name: &str) -> (r: Option<&Data>)
        ensures
            data_option(r) == field_of(self@, name@),
    {
        if let Data::Table(fields) = self {
            proof {
                lemma_table_view(fields@);
            }
            let ghost views = table_view(fields@);
            let mut i: usize = fields.len();
            while i > 0
                invariant
                    i <= fields@.len(),
                    views == table_view(fields@),
                    views.len() == fields@.len(),
                    forall|j: int|
                        0 <= j < fields@.len() ==> #[trigger] views[j] == (
                            fields@[j].0@,
                            fields@[j].1@,
                        ),
                    forall|j: int| i <= j < views.len() ==> (#[trigger] views[j]).0 != name@,
                    self@ == DataView::Table(fields_map(views)),
                decreases i,
            {
                assert(views[i - 1] == (fields@[i - 1].0@, fields@[i - 1].1@));
                if same_text(fields[i - 1].0.as_str(), name) {
                    proof {
                        lemma_fields_map_last(views, i - 1);
                    }
                    return Some(&fields[i - 1].1);
                }
                i = i - 1;
            }
            proof {
                lemma_fields_map_absent(views, name@);
            }
        }
        None
    }

    /// The item at a position of a list.
    pub fn item(&self, index: usize) -> (r: Option<&Data>)
        ensures
            data_option(r) == item_of(self@, index as int),
    {
        if let Data::List(items) = self {
            proof {
                lemma_list_view(items@);
            }
            if index < items.len() {
                assert(list_view(items@)[index as int] == items@[index as int]@);
                return Some(&items[index]);
            }
        }
        None
    }

    /// The items of a list.
    pub fn items(&self) -> (r: Option<&Vec<Data>>)
        ensures
            match r {
                Some(items) => items_of(self@) == Some(list_view(items@)),
                None => items_of(self@) is None,
            },
    {
        match self {
            Data::List(items) => Some(items),
            _ => None,
        }
    }

    /// A copy of the characters of a text.
    pub fn text(&self) -> (r: Option<String>)
        ensures
            text_option(r) == text_of_data(self@),
    {
        match self {
            Data::Text(text) => Some(text.clone()),
            _ => None,
        }
    }

    /// The text in a field of a table.
    pub fn text_in(&self, name: &str) -> (r: Option<String>)
        ensures
            text_option(r) == text_field(self@, name@),
    {
        match self.field(name) {
            Some(found) => found.text(),
            None => None,
        }
    }
}

/// A list of texts as a value.
pub open spec fn texts_view(list: Seq<Seq<char>>) -> DataView {
    DataView::List(list.map_values(|t: Seq<char>| DataView::Text(t)))
}

/// An optional text as a value.
pub open spec fn optional_view(text: Option<Seq<char>>) -> DataView {
    match text {
        Some(t) => DataView::Text(t),
        None => DataView::Null,
    }
}

/// One level of an outside document: a scalar, or the values that it holds.
pub enum Node<V> {
    Null,
    Bool(bool),
    Scalar(String),
    Text(String),
    List(Vec<V>),
    Table(Vec<(String, V)>),
}

#[verifier::external_type_specification]
#[verifier::external_body]
pub struct ExJsonValue(serde_json::Value);

#[verifier::external_type_specification]
#[verifier::external_body]
pub struct ExTomlValue(toml::Value);

/// What a `serde_json::Value` holds.
pub uninterp spec fn json_model(value: serde_json::Value) -> DataView;

/// What a `toml::Value` holds.
pub uninterp spec fn toml_model(value: toml::Value) -> DataView;

/// What `serde_json::from_str` makes of a text: what it reads, or the message of its error.
pub uninterp spec fn json_reading(text: Seq<char>) -> Result<DataView, Seq<char>>;

/// What `toml` makes of a text: what it reads, or the message of its error.
pub uninterp spec fn toml_reading(text: Seq<char>) -> Result<DataView, Seq<char>>;

/// What `serde_json::to_string` makes of a value: the text, or the message of its error.
pub uninterp spec fn json_writing(value: DataView) -> Result<Seq<char>, Seq<char>>;

/// The models of the fields of an opened JSON object.
pub open spec fn json_fields(fields: Seq<(String, serde_json::Value)>) -> Seq<
    (Seq<char>, DataView),
> {
    fields.map_values(|f: (String, serde_json::Value)| (f.0@, json_model(f.1)))
}

/// The models of the fields of an opened TOML table.
pub open spec fn toml_fields(fields: Seq<(String, toml::Value)>) -> Seq<(Seq<char>, DataView)> {
    fields.map_values(|f: (String, toml::Value)| (f.0@, toml_model(f.1)))
}

/// No two fields have one name.
pub open spec fn distinct_names(fields: Seq<(Seq<char>, DataView)>) -> bool {
    forall|i: int, j: int|
        0 <= i < j < fields.len() ==> (#[trigger] fields[i]).0 != (#[trigger] fields[j]).0
}

/// The model of an opened JSON value.
pub open spec fn json_node(node: Node<serde_json::Value>) -> DataView {
    match node {
        Node::Null => DataView::Null,
        Node::Bool(b) => DataView::Bool(b),
        Node::Scalar(s) => DataView::Scalar(s@),
        Node::Text(t) => DataView::Text(t@),
        Node::List(items) => DataView::List(
            items@.map_values(|v: serde_json::Value| json_model(v)),
        ),
        Node::Table(fields) => DataView::Table(fields_map(json_fields(fields@))),
    }
}

/// The model of an opened TOML value.
pub open spec fn toml_node(node: Node<toml::Value>) -> DataView {
    match node {
        Node::Null => DataView::Null,
        Node::Bool(b) => DataView::Bool(b),
        Node::Scalar(s) => DataView::Scalar(s@),
        Node::Text(t) => DataView::Text(t@),
        Node::List(items) => DataView::List(items@.map_values(|v: toml::Value| toml_model(v))),
        Node::Table(fields) => DataView::Table(fields_map(toml_fields(fields@))),
    }
}

/// `serde_json::from_str`, read as a `serde_json::Value`: what the document holds, or the message
/// of the error.
#[verifier::external_body]
fn read_json(text: &str) -> (r: Result<serde_json::Value, String>)
    ensures
        match r {
            Ok(value) => json_reading(text@) == Ok::<DataView, Seq<char>>(json_model(value)),
            Err(message) => json_reading(text@) == Err::<DataView, Seq<char>>(message@),
        },
{
    match serde_json::from_str(text) {
        Ok(value) => Ok(value),
        Err(error) => Err(error.to_string()),
    }
}

/// `str::parse` for `toml::Value`: what the document holds, or the message of the error.
#[verifier::external_body]
fn read_toml(text: &str) -> (r: Result<toml::Value, String>)
    ensures
        match r {
            Ok(value) => toml_reading(text@) == Ok::<DataView, Seq<char>>(toml_model(value)),
            Err(message) => toml_reading(text@) == Err::<DataView, Seq<char>>(message@),
        },
{
    match text.parse::<toml::Value>() {
        Ok(value) => Ok(value),
        Err(error) => Err(error.to_string()),
    }
}

/// The variants of a `serde_json::Value`, told apart: what the value holds, one level deep. The
/// names in an object are distinct.
#[verifier::external_body]
fn open_json(value: serde_json::Value) -> (r: Node<serde_json::Value>)
    ensures
        json_node(r) == json_model(value),
        r matches Node::Table(fields) ==> distinct_names(json_fields(fields@)),
{
    match value {
        serde_json::Value::Null => Node::Null,
        serde_json::Value::Bool(b) => Node::Bool(b),
        serde_json::Value::Number(n) => Node::Scalar(n.to_string()),
        serde_json::Value::String(t) => Node::Text(t),
        serde_json::Value::Array(items) => Node::List(items),
        serde_json::Value::Object(fields) => Node::Table(fields.into_iter().collect()),
    }
}

/// The variants of a `toml::Value`, told apart: what the value holds, one level deep. The names in
/// a table are distinct.
#[verifier::external_body]
fn open_toml(value: toml::Value) -> (r: Node<toml::Value>)
    ensures
        toml_node(r) == toml_model(value),
        r matches Node::Table(fields) ==> distinct_names(toml_fields(fields@)),
{
    match value {
        toml::Value::String(t) => Node::Text(t),
        toml::Value::Integer(n) => Node::Scalar(n.to_string()),
        toml::Value::Float(n) => Node::Scalar(n.to_string()),
        toml::Value::Boolean(b) => Node::Bool(b),
        toml::Value::Datetime(d) => Node::Scalar(d.to_string()),
        toml::Value::Array(items) => Node::List(items),
        toml::Value::Table(fields) => Node::Table(fields.into_iter().collect()),
    }
}

/// The `serde_json::Value` constructors: the value that holds what the node holds. A scalar is left
/// out, since a number cannot be made from its text by a constructor.
#[verifier::external_body]
fn close_json(node: Node<serde_json::Value>) -> (r: serde_json::Value)
    requires
        !(node is Scalar),
    ensures
        json_model(r) == json_node(node),
{
    match node {
        Node::Null => serde_json::Value::Null,
        Node::Bool(b) => serde_json::Value::Bool(b),
        Node::Scalar(t) => serde_json::Value::String(t),
        Node::Text(t) => serde_json::Value::String(t),
        Node::List(items) => serde_json::Value::Array(items),
        Node::Table(fields) => serde_json::Value::Object(fields.into_iter().collect()),
    }
}

/// `serde_json::to_string` of a `serde_json::Value`: the compact JSON text of what it holds, or the
/// message of the error.
#[verifier::external_body]
fn write_json(value: &serde_json::Value) -> (r: Result<String, String>)
    ensures
        match r {
            Ok(text) => json_writing(json_model(*value)) == Ok::<Seq<char>, Seq<char>>(text@),
            Err(message) => json_writing(json_model(*value)) == Err::<Seq<char>, Seq<char>>(
                message@,
            ),
        },
{
    match serde_json::to_string(value) {
        Ok(text) => Ok(text),
        Err(error) => Err(error.to_string()),
    }
}

/// A field of a table is smaller than the table.
proof fn lemma_field_is_smaller(fields: Seq<(Seq<char>, DataView)>, at: int)
    requires
        distinct_names(fields),
        0 <= at < fields.len(),
    ensures
        decreases_to!(DataView::Table(fields_map(fields)) => fields[at].1),
{
    lemma_fields_map_last(fields, at);
    lemma_fields_map_finite(fields);
    let table = fields_map(fields);
    let whole = DataView::Table(table);
    assert(decreases_to!(whole => whole->Table_0));
    assert(decreases_to!(table => table[fields[at].0]));
}

proof fn lemma_fields_map_finite(fields: Seq<(Seq<char>, DataView)>)
    ensures
        fields_map(fields).dom().finite(),
    decreases fields.len(),
{
    if fields.len() > 0 {
        lemma_fields_map_finite(fields.drop_last());
    }
}

/// The value that an outside JSON value holds.
fn json_data(value: serde_json::Value) -> (r: Data)
    ensures
        r@ == json_model(value),
    decreases json_model(value),
{
    let ghost model = json_model(value);
    match open_json(value) {
        Node::Null => Data::Null,
        Node::Bool(b) => Data::Bool(b),
        Node::Scalar(s) => Data::Scalar(s),
        Node::Text(t) => Data::Text(t),
        Node::List(items) => {
            let ghost all = items@;
            let ghost views = all.map_values(|v: serde_json::Value| json_model(v));
            let mut rest = items;
            let mut out: Vec<Data> = Vec::new();
            while rest.len() > 0
                invariant
                    model == json_model(value),
                    views == all.map_values(|v: serde_json::Value| json_model(v)),
                    model == DataView::List(views),
                    out@.len() + rest@.len() == all.len(),
                    rest@ == all.skip(out@.len() as int),
                    forall|j: int| 0 <= j < out@.len() ==> (#[trigger] out@[j])@ == views[j],
                decreases rest@.len(),
            {
                let ghost k = out@.len() as int;
                let next = rest.remove(0);
                assert(next == all[k]);
                assert(views[k] == json_model(next));
                assert(decreases_to!(model => model->List_0));
                assert(decreases_to!(views => views[k]));
                assert(rest@ =~= all.skip(k + 1));
                let converted = json_data(next);
                out.push(converted);
            }
            proof {
                lemma_list_view(out@);
                assert(list_view(out@) =~= views);
            }
            Data::List(out)
        },
        Node::Table(fields) => {
            let ghost all = fields@;
            let ghost views = json_fields(all);
            let mut rest = fields;
            let mut out: Vec<(String, Data)> = Vec::new();
            while rest.len() > 0
                invariant
                    model == json_model(value),
                    views == json_fields(all),
                    distinct_names(views),
                    model == DataView::Table(fields_map(views)),
                    out@.len() + rest@.len() == all.len(),
                    rest@ == all.skip(out@.len() as int),
                    forall|j: int|
                        0 <= j < out@.len() ==> (#[trigger] out@[j]).0@ == views[j].0
                            && out@[j].1@ == views[j].1,
                decreases rest@.len(),
            {
                let ghost k = out@.len() as int;
                let (name, next) = rest.remove(0);
                assert((name, next) == all[k]);
                assert(views[k] == (name@, json_model(next)));
                assert(rest@ =~= all.skip(k + 1));
                proof {
                    lemma_fields_map_last(views, k);
                    lemma_field_is_smaller(views, k);
                }
                let converted = json_data(next);
                out.push((name, converted));
            }
            proof {
                lemma_table_view(out@);
                assert(table_view(out@) =~= views);
            }
            Data::Table(out)
        },
    }
}

/// The value that an outside TOML value holds.
fn toml_data(value: toml::Value) -> (r: Data)
    ensures
        r@ == toml_model(value),
    decreases toml_model(value),
{
    let ghost model = toml_model(value);
    match open_toml(value) {
        Node::Null => Data::Null,
        Node::Bool(b) => Data::Bool(b),
        Node::Scalar(s) => Data::Scalar(s),
        Node::Text(t) => Data::Text(t),
        Node::List(items) => {
            let ghost all = items@;
            let ghost views = all.map_values(|v: toml::Value| toml_model(v));
            let mut rest = items;
            let mut out: Vec<Data> = Vec::new();
            while rest.len() > 0
                invariant
                    model == toml_model(value),
                    views == all.map_values(|v: toml::Value| toml_model(v)),
                    model == DataView::List(views),
                    out@.len() + rest@.len() == all.len(),
                    rest@ == all.skip(out@.len() as int),
                    forall|j: int| 0 <= j < out@.len() ==> (#[trigger] out@[j])@ == views[j],
                decreases rest@.len(),
            {
                let ghost k = out@.len() as int;
                let next = rest.remove(0);
                assert(next == all[k]);
                assert(views[k] == toml_model(next));
                assert(decreases_to!(model => model->List_0));
                assert(decreases_to!(views => views[k]));
                assert(rest@ =~= all.skip(k + 1));
                let converted = toml_data(next);
                out.push(converted);
            }
            proof {
                lemma_list_view(out@);
                assert(list_view(out@) =~= views);
            }
            Data::List(out)
        },
        Node::Table(fields) => {
            let ghost all = fields@;
            let ghost views = toml_fields(all);
            let mut rest = fields;
            let mut out: Vec<(String, Data)> = Vec::new();
            while rest.len() > 0
                invariant
                    model == toml_model(value),
                    views == toml_fields(all),
                    distinct_names(views),
                    model == DataView::Table(fields_map(views)),
                    out@.len() + rest@.len() == all.len(),
                    rest@ == all.skip(out@.len() as int),
                    forall|j: int|
                        0 <= j < out@.len() ==> (#[trigger] out@[j]).0@ == views[j].0
                            && out@[j].1@ == views[j].1,
                decreases rest@.len(),
            {
                let ghost k = out@.len() as int;
                let (name, next) = rest.remove(0);
                assert((name, next) == all[k]);
                assert(views[k] == (name@, toml_model(next)));
                assert(rest@ =~= all.skip(k + 1));
                proof {
                    lemma_fields_map_last(views, k);
                    lemma_field_is_smaller(views, k);
                }
                let converted = toml_data(next);
                out.push((name, converted));
            }
            proof {
                lemma_table_view(out@);
                assert(table_view(out@) =~= views);
            }
            Data::Table(out)
        },
    }
}

/// Reads a JSON document; an error carries the message of the reading crate.
pub fn parse_json(text: &str) -> (r: Result<Data, String>)
    ensures
        match json_reading(text@) {
            Ok(document) => r matches Ok(data) && data@ == document,
            Err(message) => r matches Err(found) && found@ == message,
        },
{
    match read_json(text) {
        Ok(value) => Ok(json_data(value)),
        Err(message) => Err(message),
    }
}

/// Reads a TOML document; an error carries the message of the reading crate.
pub fn parse_toml(text: &str) -> (r: Result<Data, String>)
    ensures
        match toml_reading(text@) {
            Ok(document) => r matches Ok(data) && data@ == document,
            Err(message) => r matches Err(found) && found@ == message,
        },
{
    match read_toml(text) {
        Ok(value) => Ok(toml_data(value)),
        Err(message) => Err(message),
    }
}

/// A JSON value under construction.
pub struct Evidence {
    value: serde_json::Value,
}

impl View for Evidence {
    type V = DataView;

    closed spec fn view(&self) -> DataView {
        json_model(self.value)
    }
}

/// The models of a list of values under construction.
pub open spec fn evidence_views(items: Seq<Evidence>) -> Seq<DataView> {
    items.map_values(|e: Evidence| e@)
}

impl Evidence {
    /// A text.
    pub fn text(text: &str) -> (r: Evidence)
        ensures
            r@ == DataView::Text(text@),
    {
        Evidence { value: close_json(Node::Text(text.to_owned())) }
    }

    /// Nothing.
    pub fn null() -> (r: Evidence)
        ensures
            r@ == DataView::Null,
    {
        Evidence { value: close_json(Node::Null) }
    }

    /// A text, or nothing.
    pub fn optional(text: &Option<String>) -> (r: Evidence)
        ensures
            r@ == optional_view(text_option(*text)),
    {
        match text {
            Some(t) => Evidence::text(t.as_str()),
            None => Evidence::null(),
        }
    }

    /// A list of values.
    pub fn list(items: Vec<Evidence>) -> (r: Evidence)
        ensures
            r@ == DataView::List(evidence_views(items@)),
    {
        let ghost all = items@;
        let mut rest = items;
        let mut values: Vec<serde_json::Value> = Vec::new();
        while rest.len() > 0
            invariant
                values@.len() + rest@.len() == all.len(),
                rest@ == all.skip(values@.len() as int),
                forall|j: int|
                    0 <= j < values@.len() ==> json_model(#[trigger] values@[j]) == all[j]@,
            decreases rest@.len(),
        {
            let ghost k = values@.len() as int;
            let next = rest.remove(0);
            assert(next == all[k]);
            assert(rest@ =~= all.skip(k + 1));
            values.push(next.value);
        }
        assert(values@.map_values(|v: serde_json::Value| json_model(v)) =~= evidence_views(all));
        Evidence { value: close_json(Node::List(values)) }
    }

    /// A list of texts.
    pub fn texts(list: &Vec<String>) -> (r: Evidence)
        ensures
            r@ == texts_view(texts(list@)),
    {
        let mut items: Vec<Evidence> = Vec::new();
        let mut i: usize = 0;
        while i < list.len()
            invariant
                i <= list@.len(),
                items@.len() == i,
                forall|j: int| 0 <= j < i ==> (#[trigger] items@[j])@ == DataView::Text(list@[j]@),
            decreases list@.len() - i,
        {
            items.push(Evidence::text(list[i].as_str()));
            i = i + 1;
        }
        assert(evidence_views(items@) =~= texts(list@).map_values(
            |t: Seq<char>| DataView::Text(t),
        ));
        Evidence::list(items)
    }

    /// The JSON text of the value; an error carries the message of the writing crate.
    pub fn to_json(&self) -> (r: Result<String, String>)
        ensures
            match json_writing(self@) {
                Ok(text) => r matches Ok(found) && found@ == text,
                Err(message) => r matches Err(found) && found@ == message,
            },
    {
        write_json(&self.value)
    }
}

/// A JSON object under construction.
pub struct EvidenceTable {
    fields: Vec<(String, serde_json::Value)>,
}

impl View for EvidenceTable {
    type V = Map<Seq<char>, DataView>;

    closed spec fn view(&self) -> Map<Seq<char>, DataView> {
        fields_map(json_fields(self.fields@))
    }
}

impl EvidenceTable {
    /// An object without fields.
    pub fn new() -> (r: EvidenceTable)
        ensures
            r@ == Map::<Seq<char>, DataView>::empty(),
    {
        let r = EvidenceTable { fields: Vec::new() };
        assert(json_fields(r.fields@) =~= Seq::<(Seq<char>, DataView)>::empty());
        r
    }

    /// Sets a field.
    pub fn set(&mut self, name: &str, value: Evidence)
        ensures
            final(self)@ == old(self)@.insert(name@, value@),
    {
        let ghost before = json_fields(self.fields@);
        self.fields.push((name.to_owned(), value.value));
        proof {
            let after = json_fields(self.fields@);
            assert(after.drop_last() =~= before);
            assert(after.last() == (name@, value@));
        }
    }

    /// The object.
    pub fn build(self) -> (r: Evidence)
        ensures
            r@ == DataView::Table(self@),
    {
        Evidence { value: close_json(Node::Table(self.fields)) }
    }
}

} // verus!
