//! JSON documents as plain values.

use vstd::prelude::*;
use vstd::string::*;
use crate::names::{lemma_less_irreflexive, lemma_less_transitive, less, ordered};
use crate::path::said;
use crate::text::same;

verus! {

/// A JSON document. A number that is no 64-bit signed integer is kept as its text.
#[derive(Debug, PartialEq, Eq)]
pub enum Json {
    Null,
    Bool(bool),
    Integer(i64),
    Decimal(String),
    Text(String),
    Array(Vec<Json>),
    Object(Vec<(String, Json)>),
}

/// What a JSON document says.
pub enum JsonModel {
    Null,
    Bool(bool),
    Integer(int),
    Decimal(Seq<char>),
    Text(Seq<char>),
    Array(Seq<JsonModel>),
    Object(Seq<(Seq<char>, JsonModel)>),
}

impl Json {
    /// What the document says.
    pub open spec fn model(self) -> JsonModel
        decreases self,
    {
        match self {
            Json::Null => JsonModel::Null,
            Json::Bool(b) => JsonModel::Bool(b),
            Json::Integer(n) => JsonModel::Integer(n as int),
            Json::Decimal(t) => JsonModel::Decimal(t@),
            Json::Text(t) => JsonModel::Text(t@),
            Json::Array(items) => JsonModel::Array(
                Seq::new(
                    items@.len(),
                    |i: int|
                        if 0 <= i < items@.len() {
                            items@[i].model()
                        } else {
                            JsonModel::Null
                        },
                ),
            ),
            Json::Object(fields) => JsonModel::Object(
                Seq::new(
                    fields@.len(),
                    |i: int|
                        if 0 <= i < fields@.len() {
                            (fields@[i].0@, fields@[i].1.model())
                        } else {
                            (Seq::empty(), JsonModel::Null)
                        },
                ),
            ),
        }
    }
}

/// What the fields of an object say.
pub open spec fn fields_model(fields: Seq<(String, Json)>) -> Seq<(Seq<char>, JsonModel)> {
    fields.map_values(|f: (String, Json)| (f.0@, f.1.model()))
}

/// What the items of a list say.
pub open spec fn items_model(items: Seq<Json>) -> Seq<JsonModel> {
    items.map_values(|v: Json| v.model())
}

/// Adds a field to those of an object to be.
pub fn put(fields: &mut Vec<(String, Json)>, key: &str, value: Json)
    ensures
        fields_model(final(fields)@) == fields_model(old(fields)@).push((key@, value.model())),
{
    let ghost before = fields@;
    fields.push((key.to_owned(), value));
    assert(fields_model(fields@) =~= fields_model(before).push((key@, value.model())));
}

/// The object with these fields.
pub fn object(fields: Vec<(String, Json)>) -> (r: Json)
    ensures
        r.model() == JsonModel::Object(fields_model(fields@)),
{
    let r = Json::Object(fields);
    assert(r.model()->Object_0 =~= fields_model(fields@));
    r
}

/// The list of these items.
pub fn array(items: Vec<Json>) -> (r: Json)
    ensures
        r.model() == JsonModel::Array(items_model(items@)),
{
    let r = Json::Array(items);
    assert(r.model()->Array_0 =~= items_model(items@));
    r
}

/// The value of the first field called `key` among `fields`.
pub open spec fn field(fields: Seq<(Seq<char>, JsonModel)>, key: Seq<char>) -> Option<JsonModel>
    decreases fields.len(),
{
    if fields.len() == 0 {
        None
    } else if fields[0].0 == key {
        Some(fields[0].1)
    } else {
        field(fields.drop_first(), key)
    }
}

impl JsonModel {
    /// The value of the field called `key`, where this is an object that has it.
    pub open spec fn member(self, key: Seq<char>) -> Option<JsonModel> {
        match self {
            JsonModel::Object(fields) => field(fields, key),
            _ => None,
        }
    }

    /// The string that this is, where it is one.
    pub open spec fn text(self) -> Option<Seq<char>> {
        match self {
            JsonModel::Text(t) => Some(t),
            _ => None,
        }
    }
}

impl Json {
    /// The value of the field called `key`, where this is an object that has it.
    pub fn get(&self, key: &str) -> (r: Option<&Json>)
        ensures
            match r {
                Some(v) => self.model().member(key@) == Some(v.model()),
                None => self.model().member(key@) is None,
            },
    {
        match self {
            Json::Object(fields) => {
                let ghost all = self.model()->Object_0;
                let mut i: usize = 0;
                assert(all.skip(0) =~= all);
                while i < fields.len()
                    invariant
                        i <= fields.len(),
                        *self matches Json::Object(f) && f == fields,
                        self.model() == JsonModel::Object(all),
                        all.len() == fields@.len(),
                        field(all.skip(i as int), key@) == field(all, key@),
                    decreases fields.len() - i,
                {
                    let entry = &fields[i];
                    assert(all[i as int] == (entry.0@, entry.1.model()));
                    assert(all.skip(i as int)[0] == all[i as int]);
                    if same(entry.0.as_str(), key) {
                        return Some(&entry.1);
                    }
                    assert(all.skip(i as int).drop_first() =~= all.skip(i + 1));
                    i += 1;
                }
                None
            },
            _ => None,
        }
    }

    /// The string that this is, where it is one.
    pub fn as_text(&self) -> (r: Option<&str>)
        ensures
            match r {
                Some(t) => self.model() == JsonModel::Text(t@),
                None => self.model().text() is None,
            },
    {
        match self {
            Json::Text(t) => Some(t.as_str()),
            _ => None,
        }
    }

    /// The items of the list that this is, where it is one.
    pub fn as_array(&self) -> (r: Option<&Vec<Json>>)
        ensures
            match r {
                Some(items) => {
                    &&& self.model() matches JsonModel::Array(all)
                    &&& all.len() == items@.len()
                    &&& forall|i: int| 0 <= i < all.len() ==> #[trigger] all[i] == items@[i].model()
                },
                None => !(self.model() is Array),
            },
    {
        match self {
            Json::Array(items) => Some(items),
            _ => None,
        }
    }
}

/// `serde_json::Value`: a document as it is read and written, opened layer by layer.
#[verifier::external_type_specification]
#[verifier::external_body]
pub struct ExValue(serde_json::Value);

/// What a `serde_json::Value` holds.
pub uninterp spec fn held(value: serde_json::Value) -> JsonModel;

/// The document that a text spells, or what is wrong with the text.
pub uninterp spec fn json_in(text: Seq<char>) -> Result<JsonModel, Seq<char>>;

/// `serde_json::from_str` into a `serde_json::Value`: what the value holds, or what the
/// error says, depends on the text alone.
#[verifier::external_body]
fn read_value(text: &str) -> (r: Result<serde_json::Value, String>)
    ensures
        match r {
            Ok(v) => json_in(text@) == Ok::<JsonModel, Seq<char>>(held(v)),
            Err(e) => json_in(text@) == Err::<JsonModel, Seq<char>>(e@),
        },
{
    serde_json::from_str(text).map_err(|e: serde_json::Error| e.to_string())
}

/// The outermost layer of a `serde_json::Value`.
enum Layer {
    Null,
    Bool(bool),
    Integer(i64),
    Decimal(String),
    Text(String),
    Array(Vec<serde_json::Value>),
    Object(Vec<(String, serde_json::Value)>),
}

/// The variants of `serde_json::Value`, with what stands in each. A number is an integer
/// where `serde_json::Number::as_i64` gives one, and is kept as its text otherwise.
#[verifier::external_body]
fn open_value(value: serde_json::Value) -> (r: Layer)
    ensures
        match r {
            Layer::Null => held(value) == JsonModel::Null,
            Layer::Bool(b) => held(value) == JsonModel::Bool(b),
            Layer::Integer(n) => held(value) == JsonModel::Integer(n as int),
            Layer::Decimal(t) => held(value) == JsonModel::Decimal(t@),
            Layer::Text(t) => held(value) == JsonModel::Text(t@),
            Layer::Array(items) => held(value) == JsonModel::Array(
                items@.map_values(|v: serde_json::Value| held(v)),
            ),
            Layer::Object(fields) => held(value) == JsonModel::Object(
                fields@.map_values(|f: (String, serde_json::Value)| (f.0@, held(f.1))),
            ),
        },
{
    match value {
        serde_json::Value::Null => Layer::Null,
        serde_json::Value::Bool(b) => Layer::Bool(b),
        serde_json::Value::Number(n) => n.as_i64().map_or_else(
            || Layer::Decimal(n.to_string()),
            Layer::Integer,
        ),
        serde_json::Value::String(t) => Layer::Text(t),
        serde_json::Value::Array(items) => Layer::Array(items),
        serde_json::Value::Object(fields) => Layer::Object(fields.into_iter().collect()),
    }
}

/// A `serde_json::Value` as a document.
pub fn from_value(value: serde_json::Value) -> (r: Json)
    ensures
        r.model() == held(value),
    decreases held(value),
{
    match open_value(value) {
        Layer::Null => Json::Null,
        Layer::Bool(b) => Json::Bool(b),
        Layer::Integer(n) => Json::Integer(n),
        Layer::Decimal(t) => Json::Decimal(t),
        Layer::Text(t) => Json::Text(t),
        Layer::Array(items) => {
            let ghost all = items@;
            let mut rest = items;
            let mut back: Vec<Json> = Vec::new();
            while rest.len() > 0
                invariant
                    rest.len() + back.len() == all.len(),
                    rest@ == all.take(rest.len() as int),
                    forall|i: int|
                        0 <= i < back.len() ==> #[trigger] back@[i].model() == held(
                            all[all.len() - 1 - i],
                        ),
                    held(value) == JsonModel::Array(
                        all.map_values(|v: serde_json::Value| held(v)),
                    ),
                decreases rest.len(),
            {
                let ghost n = rest.len();
                let item = rest.pop().unwrap();
                assert(item == all[n - 1]);
                assert(held(value)->Array_0[n - 1] == held(item));
                assert(decreases_to!(held(value) => held(value)->Array_0));
                assert(decreases_to!(held(value)->Array_0 => held(value)->Array_0[n - 1]));
                back.push(from_value(item));
                assert(rest@ =~= all.take(rest.len() as int));
            }
            let items = reversed(back);
            assert(items_model(items@) =~= all.map_values(|v: serde_json::Value| held(v)));
            array(items)
        },
        Layer::Object(fields) => {
            let ghost all = fields@;
            let mut rest = fields;
            let mut back: Vec<(String, Json)> = Vec::new();
            while rest.len() > 0
                invariant
                    rest.len() + back.len() == all.len(),
                    rest@ == all.take(rest.len() as int),
                    forall|i: int|
                        0 <= i < back.len() ==> (#[trigger] back@[i]).0@ == all[all.len() - 1
                            - i].0@ && back@[i].1.model() == held(all[all.len() - 1 - i].1),
                    held(value) == JsonModel::Object(
                        all.map_values(|f: (String, serde_json::Value)| (f.0@, held(f.1))),
                    ),
                decreases rest.len(),
            {
                let ghost n = rest.len();
                let (key, item) = rest.pop().unwrap();
                assert((key, item) == all[n - 1]);
                assert(held(value)->Object_0[n - 1] == (key@, held(item)));
                assert(decreases_to!(held(value) => held(value)->Object_0));
                assert(decreases_to!(held(value)->Object_0 => held(value)->Object_0[n - 1]));
                assert(decreases_to!(held(value)->Object_0[n - 1] => held(value)->Object_0[n - 1].1));
                back.push((key, from_value(item)));
                assert(rest@ =~= all.take(rest.len() as int));
            }
            let fields = reversed(back);
            assert(fields_model(fields@) =~= all.map_values(
                |f: (String, serde_json::Value)| (f.0@, held(f.1)),
            ));
            object(fields)
        },
    }
}

/// `v` in the opposite order.
fn reversed<T>(v: Vec<T>) -> (r: Vec<T>)
    ensures
        r@ == v@.reverse(),
{
    let ghost all = v@;
    let mut v = v;
    let mut out: Vec<T> = Vec::new();
    while v.len() > 0
        invariant
            v@ == all.take(v.len() as int),
            v.len() <= all.len(),
            out@ == all.skip(v.len() as int).reverse(),
        decreases v.len(),
    {
        let ghost n = v.len();
        let x = v.pop().unwrap();
        out.push(x);
        assert(v@ =~= all.take(n - 1));
        assert(out@ =~= all.skip(n - 1).reverse());
    }
    assert(all.skip(0) =~= all);
    out
}

/// What a reading of a JSON text says.
pub open spec fn reading(r: Result<Json, String>) -> Result<JsonModel, Seq<char>> {
    match r {
        Ok(v) => Ok(v.model()),
        Err(e) => Err(e@),
    }
}

/// Reads a JSON text.
pub fn parse_json(text: &str) -> (r: Result<Json, String>)
    ensures
        reading(r) == json_in(text@),
{
    match read_value(text) {
        Ok(v) => Ok(from_value(v)),
        Err(e) => Err(e),
    }
}

/// `fields`, whose keys are in alphabetical order, with `value` under `key`.
pub open spec fn placed(
    fields: Seq<(Seq<char>, JsonModel)>,
    key: Seq<char>,
    value: JsonModel,
) -> Seq<(Seq<char>, JsonModel)>
    decreases fields.len(),
{
    if fields.len() == 0 || less(key, fields[0].0) {
        seq![(key, value)] + fields
    } else if fields[0].0 == key {
        seq![(key, value)] + fields.drop_first()
    } else {
        seq![fields[0]] + placed(fields.drop_first(), key, value)
    }
}

/// `fields` with their keys in alphabetical order, each once, with the last value that it has.
pub open spec fn collected(fields: Seq<(Seq<char>, JsonModel)>) -> Seq<(Seq<char>, JsonModel)>
    decreases fields.len(),
{
    if fields.len() == 0 {
        fields
    } else {
        placed(collected(fields.drop_last()), fields.last().0, fields.last().1)
    }
}

/// The `serde_json::Value` with this outermost layer. A `serde_json::Map` keeps its keys in
/// alphabetical order, each once, with the last value that it was given. A number that is no
/// integer is left out.
#[verifier::external_body]
fn close_value(layer: Layer) -> (r: serde_json::Value)
    requires
        !(layer is Decimal),
    ensures
        match layer {
            Layer::Null => held(r) == JsonModel::Null,
            Layer::Bool(b) => held(r) == JsonModel::Bool(b),
            Layer::Integer(n) => held(r) == JsonModel::Integer(n as int),
            Layer::Decimal(_) => true,
            Layer::Text(t) => held(r) == JsonModel::Text(t@),
            Layer::Array(items) => held(r) == JsonModel::Array(
                items@.map_values(|v: serde_json::Value| held(v)),
            ),
            Layer::Object(fields) => held(r) == JsonModel::Object(
                collected(fields@.map_values(|f: (String, serde_json::Value)| (f.0@, held(f.1)))),
            ),
        },
{
    match layer {
        Layer::Null => serde_json::Value::Null,
        Layer::Bool(b) => serde_json::Value::Bool(b),
        Layer::Integer(n) => serde_json::Value::from(n),
        Layer::Decimal(t) | Layer::Text(t) => serde_json::Value::String(t),
        Layer::Array(items) => serde_json::Value::Array(items),
        Layer::Object(fields) => serde_json::Value::Object(fields.into_iter().collect()),
    }
}

impl JsonModel {
    /// The document as it is handed on: fields in alphabetical order, each once, and numbers as
    /// they are read from their text.
    pub open spec fn tidied(self) -> JsonModel
        decreases self,
    {
        match self {
            JsonModel::Decimal(t) => match json_in(t) {
                Ok(v) => v,
                Err(_) => JsonModel::Text(t),
            },
            JsonModel::Array(items) => JsonModel::Array(
                Seq::new(
                    items.len(),
                    |i: int|
                        if 0 <= i < items.len() {
                            items[i].tidied()
                        } else {
                            JsonModel::Null
                        },
                ),
            ),
            JsonModel::Object(fields) => JsonModel::Object(
                collected(Self::tidied_fields(fields)),
            ),
            other => other,
        }
    }

    /// The fields of an object as they are handed on, each by itself.
    pub open spec fn tidied_fields(fields: Seq<(Seq<char>, JsonModel)>) -> Seq<
        (Seq<char>, JsonModel),
    >
        decreases fields,
    {
        Seq::new(
            fields.len(),
            |i: int|
                if 0 <= i < fields.len() {
                    (fields[i].0, fields[i].1.tidied())
                } else {
                    (Seq::empty(), JsonModel::Null)
                },
        )
    }

    /// Whether the document is handed on as it is: in every object the keys are in alphabetical
    /// order, and every number is an integer.
    pub open spec fn tidy(self) -> bool
        decreases self,
    {
        match self {
            JsonModel::Decimal(_) => false,
            JsonModel::Array(items) => forall|i: int|
                0 <= i < items.len() ==> (#[trigger] items[i]).tidy(),
            JsonModel::Object(fields) => {
                &&& ordered(fields.map_values(|f: (Seq<char>, JsonModel)| f.0))
                &&& forall|i: int| 0 <= i < fields.len() ==> (#[trigger] fields[i]).1.tidy()
            },
            _ => true,
        }
    }
}

/// A document as a `serde_json::Value`.
pub fn to_value(v: &Json) -> (r: serde_json::Value)
    ensures
        held(r) == v.model().tidied(),
    decreases *v,
{
    match v {
        Json::Null => close_value(Layer::Null),
        Json::Bool(b) => close_value(Layer::Bool(*b)),
        Json::Integer(n) => close_value(Layer::Integer(*n)),
        Json::Decimal(t) => match read_value(t.as_str()) {
            Ok(number) => number,
            Err(_) => close_value(Layer::Text(t.clone())),
        },
        Json::Text(t) => close_value(Layer::Text(t.clone())),
        Json::Array(items) => {
            let mut out: Vec<serde_json::Value> = Vec::new();
            let mut i: usize = 0;
            while i < items.len()
                invariant
                    i <= items.len(),
                    *v matches Json::Array(all) && all == items,
                    out.len() == i,
                    forall|j: int|
                        0 <= j < i ==> held(#[trigger] out@[j]) == items@[j].model().tidied(),
                decreases items.len() - i,
            {
                out.push(to_value(&items[i]));
                i += 1;
            }
            assert(out@.map_values(|v: serde_json::Value| held(v))
                =~= v.model().tidied()->Array_0);
            close_value(Layer::Array(out))
        },
        Json::Object(fields) => {
            let mut out: Vec<(String, serde_json::Value)> = Vec::new();
            let mut i: usize = 0;
            while i < fields.len()
                invariant
                    i <= fields.len(),
                    *v matches Json::Object(all) && all == fields,
                    out.len() == i,
                    forall|j: int|
                        0 <= j < i ==> (#[trigger] out@[j]).0@ == fields@[j].0@ && held(out@[j].1)
                            == fields@[j].1.model().tidied(),
                decreases fields.len() - i,
            {
                let (key, value) = &fields[i];
                out.push((key.clone(), to_value(value)));
                i += 1;
            }
            assert(out@.map_values(|f: (String, serde_json::Value)| (f.0@, held(f.1)))
                =~= JsonModel::tidied_fields(v.model()->Object_0));
            close_value(Layer::Object(out))
        },
    }
}

/// The text that is written for a document, where one can be written.
pub uninterp spec fn text_for(v: JsonModel) -> Option<Seq<char>>;

/// `serde_json::to_string` of a `serde_json::Value`: the text, if there is one, depends on
/// what the value holds alone.
#[verifier::external_body]
fn write_value(v: &serde_json::Value) -> (r: Option<String>)
    ensures
        said(r) == text_for(held(*v)),
{
    serde_json::to_string(v).ok()
}

/// The text of a document, by what was written for it.
pub open spec fn text_or_none(written: Option<Seq<char>>) -> Seq<char> {
    match written {
        Some(t) => t,
        None => "\"<non-json>\""@,
    }
}

/// The text of a document, by what was written for it.
pub fn settle_text(written: Option<String>) -> (r: String)
    ensures
        r@ == text_or_none(said(written)),
{
    match written {
        Some(t) => t,
        None => "\"<non-json>\"".to_owned(),
    }
}

/// The text of a document.
pub fn json_text(v: &Json) -> (r: String)
    ensures
        r@ == text_or_none(text_for(v.model().tidied())),
{
    settle_text(write_value(&to_value(v)))
}

proof fn lemma_placed_last(fields: Seq<(Seq<char>, JsonModel)>, key: Seq<char>, value: JsonModel)
    requires
        forall|i: int| 0 <= i < fields.len() ==> less((#[trigger] fields[i]).0, key),
    ensures
        placed(fields, key, value) == fields.push((key, value)),
    decreases fields.len(),
{
    if fields.len() == 0 {
        assert(placed(fields, key, value) =~= fields.push((key, value)));
    } else {
        let first = fields[0].0;
        assert(less(first, key));
        lemma_less_irreflexive(key);
        if less(key, first) {
            lemma_less_transitive(key, first, key);
        }
        let rest = fields.drop_first();
        assert forall|i: int| 0 <= i < rest.len() implies less((#[trigger] rest[i]).0, key) by {
            assert(less(fields[i + 1].0, key));
        }
        lemma_placed_last(rest, key, value);
        assert(placed(fields, key, value) =~= fields.push((key, value)));
    }
}

proof fn lemma_collected_in_order(fields: Seq<(Seq<char>, JsonModel)>)
    requires
        ordered(fields.map_values(|f: (Seq<char>, JsonModel)| f.0)),
    ensures
        collected(fields) == fields,
    decreases fields.len(),
{
    if fields.len() > 0 {
        let keys = fields.map_values(|f: (Seq<char>, JsonModel)| f.0);
        let before = fields.drop_last();
        let shorter = before.map_values(|f: (Seq<char>, JsonModel)| f.0);
        let (key, value) = fields.last();
        assert forall|i: int, j: int| 0 <= i < j < shorter.len() implies less(
            #[trigger] shorter[i],
            #[trigger] shorter[j],
        ) by {
            assert(less(keys[i], keys[j]));
        }
        lemma_collected_in_order(before);
        assert forall|i: int| 0 <= i < before.len() implies less((#[trigger] before[i]).0, key) by {
            assert(less(keys[i], keys[fields.len() - 1]));
        }
        lemma_placed_last(before, key, value);
        assert(before.push((key, value)) =~= fields);
    }
}

/// A document whose fields are in order and whose numbers are integers comes back as it is when
/// it is handed on and read again.
pub proof fn law_tidy_documents_come_back(v: JsonModel)
    requires
        v.tidy(),
    ensures
        v.tidied() == v,
    decreases v,
{
    match v {
        JsonModel::Array(items) => {
            assert forall|i: int| 0 <= i < items.len() implies (#[trigger] items[i]).tidied()
                == items[i] by {
                law_tidy_documents_come_back(items[i]);
            }
            assert(v.tidied()->Array_0 =~= items);
        },
        JsonModel::Object(fields) => {
            assert forall|i: int| 0 <= i < fields.len() implies (#[trigger] fields[i]).1.tidied()
                == fields[i].1 by {
                law_tidy_documents_come_back(fields[i].1);
            }
            assert(JsonModel::tidied_fields(fields) =~= fields);
            lemma_collected_in_order(fields);
        },
        _ => {},
    }
}

/// Of the fields with one key the first counts, and a key that no field has leads to nothing.
pub proof fn law_the_first_field_counts(
    fields: Seq<(Seq<char>, JsonModel)>,
    key: Seq<char>,
    k: int,
)
    requires
        0 <= k <= fields.len(),
        forall|i: int| 0 <= i < k ==> (#[trigger] fields[i]).0 != key,
        k < fields.len() ==> fields[k].0 == key,
    ensures
        JsonModel::Object(fields).member(key) == if k < fields.len() {
            Some(fields[k].1)
        } else {
            None
        },
    decreases k,
{
    if k > 0 {
        assert(fields[0].0 != key);
        let rest = fields.drop_first();
        assert forall|i: int| 0 <= i < k - 1 implies (#[trigger] rest[i]).0 != key by {
            assert(fields[i + 1].0 != key);
        }
        law_the_first_field_counts(rest, key, k - 1);
    }
}

proof fn lemma_placed_field(
    fields: Seq<(Seq<char>, JsonModel)>,
    key: Seq<char>,
    value: JsonModel,
    asked: Seq<char>,
)
    ensures
        field(placed(fields, key, value), asked) == if asked == key {
            Some(value)
        } else {
            field(fields, asked)
        },
    decreases fields.len(),
{
    let after = placed(fields, key, value);
    if fields.len() == 0 || less(key, fields[0].0) {
        assert(after.drop_first() =~= fields);
    } else if fields[0].0 == key {
        assert(after.drop_first() =~= fields.drop_first());
    } else {
        lemma_placed_field(fields.drop_first(), key, value, asked);
        assert(after.drop_first() =~= placed(fields.drop_first(), key, value));
    }
}

/// A document that is handed on keeps every field: under each key stands the last value that it
/// was given, and no key is made up.
pub proof fn law_handing_on_keeps_every_field(
    fields: Seq<(Seq<char>, JsonModel)>,
    key: Seq<char>,
    i: int,
)
    requires
        -1 <= i < fields.len(),
        i >= 0 ==> fields[i].0 == key,
        forall|j: int| i < j < fields.len() ==> (#[trigger] fields[j]).0 != key,
    ensures
        JsonModel::Object(fields).tidied().member(key) == if i >= 0 {
            Some(fields[i].1.tidied())
        } else {
            None
        },
{
    let each = JsonModel::tidied_fields(fields);
    assert forall|j: int| i < j < each.len() implies (#[trigger] each[j]).0 != key by {
        assert(fields[j].0 != key);
    }
    lemma_collected_field(each, key, i);
}

proof fn lemma_collected_field(
    fields: Seq<(Seq<char>, JsonModel)>,
    key: Seq<char>,
    i: int,
)
    requires
        -1 <= i < fields.len(),
        i >= 0 ==> fields[i].0 == key,
        forall|j: int| i < j < fields.len() ==> (#[trigger] fields[j]).0 != key,
    ensures
        field(collected(fields), key) == if i >= 0 {
            Some(fields[i].1)
        } else {
            None
        },
    decreases fields.len(),
{
    if fields.len() > 0 {
        let before = fields.drop_last();
        lemma_placed_field(collected(before), fields.last().0, fields.last().1, key);
        if i < fields.len() - 1 {
            assert(fields[fields.len() - 1].0 != key);
            lemma_collected_field(before, key, i);
        }
    }
}

} // verus!
