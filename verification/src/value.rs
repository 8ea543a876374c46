//! The boundary to `serde_json`: its values are taken apart and put together one
//! layer at a time, and it reads and writes JSON text.
use crate::json::{items_view, lemma_items_view, members_view, Json, JsonView, Member};
use vstd::prelude::*;

verus! {

/// `serde_json::Value`, a JSON tree.
#[verifier::external_type_specification]
#[verifier::external_body]
pub struct ExValue(serde_json::Value);

/// `serde_json::Number`, a JSON number.
#[verifier::external_type_specification]
#[verifier::external_body]
pub struct ExNumber(serde_json::Number);

/// A JSON number that is no integer. Only `open_value` makes one, out of a number that
/// is none.
pub struct Fraction {
    number: serde_json::Number,
}

impl Clone for Fraction {
    fn clone(&self) -> (copy: Fraction)
        ensures
            copy == *self,
    {
        Fraction { number: self.number.clone() }
    }
}

/// `serde_json::Error`, the reason why a text is no JSON.
#[verifier::external_type_specification]
#[verifier::external_body]
pub struct ExJsonError(serde_json::Error);

/// `Clone` of `serde_json::Number` hands out the same number.
pub assume_specification[ <serde_json::Number as Clone>::clone ](
    number: &serde_json::Number,
) -> (copy: serde_json::Number)
    ensures
        copy == *number,
;

/// The JSON tree that a `serde_json::Value` holds.
pub uninterp spec fn value_view(value: serde_json::Value) -> JsonView;

/// The compact JSON text of a value.
pub uninterp spec fn json_text(value: JsonView) -> Seq<char>;

/// The value that a JSON text stands for; nothing where the text is no JSON.
pub uninterp spec fn parsed_json(text: Seq<char>) -> Option<JsonView>;

/// The outermost layer of a `serde_json::Value`.
pub enum Layer {
    Null,
    Bool(bool),
    Unsigned(u64),
    Negative(i64),
    Float(Fraction),
    Text(String),
    Array(Vec<serde_json::Value>),
    Object(Vec<(String, serde_json::Value)>),
}

/// The members of an object whose values are not taken apart yet.
pub open spec fn entries_view(entries: Seq<(String, serde_json::Value)>) -> Map<
    Seq<char>,
    JsonView,
>
    decreases entries.len(),
{
    if entries.len() == 0 {
        Map::empty()
    } else {
        entries_view(entries.drop_last()).insert(
            entries.last().0@,
            value_view(entries.last().1),
        )
    }
}

/// No two entries have one name.
pub open spec fn distinct_names(entries: Seq<(String, serde_json::Value)>) -> bool {
    forall|i: int, j: int|
        0 <= i < j < entries.len() ==> #[trigger] entries[i].0@ != #[trigger] entries[j].0@
}

impl Layer {
    /// The JSON tree under this layer.
    pub open spec fn view(&self) -> JsonView {
        match self {
            Layer::Null => JsonView::Null,
            Layer::Bool(b) => JsonView::Bool(*b),
            Layer::Unsigned(n) => JsonView::Integer(*n as int),
            Layer::Negative(n) => JsonView::Integer(*n as int),
            Layer::Float(n) => JsonView::Float(*n),
            Layer::Text(t) => JsonView::Text(t@),
            Layer::Array(items) => JsonView::Array(
                items@.map_values(|item: serde_json::Value| value_view(item)),
            ),
            Layer::Object(entries) => JsonView::Object(entries_view(entries@)),
        }
    }
}

/// The name that `serde_json` gives the only member of an object that stands for a piece
/// of JSON text.
pub open spec fn raw_name() -> Seq<char> {
    "$serde_json::private::RawValue"@
}

/// A tree without fractional numbers that is at most `depth` containers deep, and in
/// which no object has a member of the name that the reader takes for something else.
pub open spec fn plain(value: JsonView, depth: nat) -> bool
    decreases depth,
{
    match value {
        JsonView::Float(_) => false,
        JsonView::Array(items) => depth > 0 && forall|i: int|
            0 <= i < items.len() ==> plain(#[trigger] items[i], (depth - 1) as nat),
        JsonView::Object(members) => depth > 0 && !members.contains_key(raw_name()) && forall|
            name: Seq<char>,
        | #[trigger]
            members.contains_key(name) ==> plain(members[name], (depth - 1) as nat),
        JsonView::Integer(n) => i64::MIN <= n <= u64::MAX,
        _ => true,
    }
}

/// A text that holds no control character, and so no line break.
pub open spec fn one_line(text: Seq<char>) -> bool {
    forall|i: int| 0 <= i < text.len() ==> (#[trigger] text[i]) >= ' '
}

/// Takes a `serde_json::Value` apart by its variant: an integer is told from other
/// numbers by `Number::as_u64` and `Number::as_i64`, and an object gives its members,
/// each name once.
#[verifier::external_body]
fn open_value(value: serde_json::Value) -> (layer: Layer)
    ensures
        layer@ == value_view(value),
        layer matches Layer::Object(entries) ==> distinct_names(entries@),
{
    match value {
        serde_json::Value::Null => Layer::Null,
        serde_json::Value::Bool(b) => Layer::Bool(b),
        serde_json::Value::Number(n) => match (n.as_u64(), n.as_i64()) {
            (Some(unsigned), _) => Layer::Unsigned(unsigned),
            (None, Some(negative)) => Layer::Negative(negative),
            (None, None) => Layer::Float(Fraction { number: n }),
        },
        serde_json::Value::String(text) => Layer::Text(text),
        serde_json::Value::Array(items) => Layer::Array(items),
        serde_json::Value::Object(members) => Layer::Object(members.into_iter().collect()),
    }
}

/// Puts a `serde_json::Value` together from its outermost layer.
#[verifier::external_body]
fn close_value(layer: Layer) -> (value: serde_json::Value)
    requires
        layer matches Layer::Object(entries) ==> distinct_names(entries@),
    ensures
        value_view(value) == layer@,
{
    match layer {
        Layer::Null => serde_json::Value::Null,
        Layer::Bool(b) => serde_json::Value::Bool(b),
        Layer::Unsigned(n) => serde_json::Value::from(n),
        Layer::Negative(n) => serde_json::Value::from(n),
        Layer::Float(fraction) => serde_json::Value::Number(fraction.number),
        Layer::Text(text) => serde_json::Value::String(text),
        Layer::Array(items) => serde_json::Value::Array(items),
        Layer::Object(entries) => serde_json::Value::Object(entries.into_iter().collect()),
    }
}

/// Assignment to an index of a `serde_json::Value` that is an object: the member of
/// that name is added, or replaced where there is one.
#[verifier::external_body]
fn insert_member(object: &mut serde_json::Value, name: &str, value: serde_json::Value)
    requires
        value_view(*old(object)) is Object,
    ensures
        value_view(*final(object)) == value_view(*old(object)).with(name@, value_view(value)),
{
    object[name] = value;
}

/// `serde_json::to_string` on a `Value`, which never fails: the text is the same for
/// equal trees, and reads back as the tree where no fractional number is in it, it is
/// not nested deeper than the reader follows, and no object in it has a member of the
/// name by which the reader knows a piece of JSON text. It holds no control character:
/// those of a string are escaped, and nothing is put between the parts.
#[verifier::external_body]
fn write_value(value: &serde_json::Value) -> (text: String)
    ensures
        text@ == json_text(value_view(*value)),
        plain(value_view(*value), 127) ==> parsed_json(text@) == Some(value_view(*value)),
        one_line(text@),
{
    serde_json::to_string(value).unwrap()
}

/// `serde_json::from_str` into a `Value`.
#[verifier::external_body]
fn read_value(text: &str) -> (value: Result<serde_json::Value, serde_json::Error>)
    ensures
        match value {
            Ok(tree) => parsed_json(text@) == Some(value_view(tree)),
            Err(_) => parsed_json(text@) is None,
        },
{
    serde_json::from_str(text)
}

proof fn lemma_entries_view(entries: Seq<(String, serde_json::Value)>)
    requires
        distinct_names(entries),
    ensures
        forall|i: int|
            0 <= i < entries.len() ==> entries_view(entries).contains_key(
                #[trigger] entries[i].0@,
            ) && entries_view(entries)[entries[i].0@] == value_view(entries[i].1),
        entries_view(entries).dom().finite(),
        forall|name: Seq<char>| #[trigger]
            entries_view(entries).contains_key(name) ==> exists|i: int|
                0 <= i < entries.len() && #[trigger] entries[i].0@ == name,
    decreases entries.len(),
{
    if entries.len() > 0 {
        let rest = entries.drop_last();
        assert(distinct_names(rest)) by {
            assert forall|i: int, j: int| 0 <= i < j < rest.len() implies #[trigger] rest[i].0@
                != #[trigger] rest[j].0@ by {
                assert(entries[i].0@ != entries[j].0@);
            }
        }
        lemma_entries_view(rest);
        let last = entries.len() - 1;
        assert forall|i: int| 0 <= i < entries.len() implies entries_view(entries).contains_key(
            #[trigger] entries[i].0@,
        ) && entries_view(entries)[entries[i].0@] == value_view(entries[i].1) by {
            if i < last {
                assert(entries[i].0@ != entries[last].0@);
                assert(rest[i].0@ == entries[i].0@);
            }
        }
        assert forall|name: Seq<char>| #[trigger]
            entries_view(entries).contains_key(name) implies exists|i: int|
            0 <= i < entries.len() && #[trigger] entries[i].0@ == name by {
            if name == entries[last].0@ {
            } else {
                assert(entries_view(rest).contains_key(name));
                let i = choose|i: int| 0 <= i < rest.len() && #[trigger] rest[i].0@ == name;
                assert(entries[i].0@ == name);
            }
        }
    }
}

impl Json {
    /// The tree of a `serde_json::Value`.
    pub fn from_value(value: serde_json::Value) -> (tree: Json)
        ensures
            tree@ == value_view(value),
        decreases value_view(value),
    {
        let ghost whole = value_view(value);
        match open_value(value) {
            Layer::Null => Json::Null,
            Layer::Bool(b) => Json::Bool(b),
            Layer::Unsigned(n) => Json::Unsigned(n),
            Layer::Negative(n) => Json::Negative(n),
            Layer::Float(n) => Json::Float(n),
            Layer::Text(text) => Json::Text(text),
            Layer::Array(values) => {
                let mut items: Vec<Json> = Vec::new();
                let ghost views = values@.map_values(|item: serde_json::Value| value_view(item));
                for item in iter: values
                    invariant
                        iter.seq() == values@,
                        whole == value_view(value),
                        whole == JsonView::Array(views),
                        views == values@.map_values(|item: serde_json::Value| value_view(item)),
                        items_view(items@) == views.take(iter.index()),
                    decreases views.len() - iter.index(),
                {
                    let ghost before = items@;
                    assert(value_view(item) == views[iter.index()]);
                    assert(decreases_to!(whole => whole->Array_0));
                    assert(decreases_to!(views => views[iter.index()]));
                    items.push(Json::from_value(item));
                    assert(items@.drop_last() == before);
                    assert(views.take(iter.index() + 1) == views.take(iter.index()).push(
                        views[iter.index()],
                    ));
                }
                assert(views.take(views.len() as int) == views);
                Json::Array(items)
            },
            Layer::Object(entries) => {
                let mut members: Vec<Member> = Vec::new();
                let ghost all = entries@;
                proof {
                    lemma_entries_view(all);
                }
                for entry in iter: entries
                    invariant
                        iter.seq() == all,
                        whole == value_view(value),
                        whole == JsonView::Object(entries_view(all)),
                        distinct_names(all),
                        members_view(members@) == entries_view(all.take(iter.index())),
                {
                    let ghost before = members@;
                    proof {
                        lemma_entries_view(all);
                        assert(entry == all[iter.index()]);
                        assert(entries_view(all).contains_key(all[iter.index()].0@));
                    }
                    let (name, inner) = entry;
                    assert(decreases_to!(whole => whole->Object_0));
                    assert(decreases_to!(entries_view(all) => entries_view(all)[name@]));
                    members.push(Member { name, value: Json::from_value(inner) });
                    assert(members@.drop_last() == before);
                    assert(all.take(iter.index() + 1).drop_last() == all.take(iter.index()));
                }
                assert(all.take(all.len() as int) == all);
                Json::Object(members)
            },
        }
    }

    /// The `serde_json::Value` of this tree.
    pub fn to_value(&self) -> (value: serde_json::Value)
        ensures
            value_view(value) == self@,
        decreases self,
    {
        match self {
            Json::Null => close_value(Layer::Null),
            Json::Bool(b) => close_value(Layer::Bool(*b)),
            Json::Unsigned(n) => close_value(Layer::Unsigned(*n)),
            Json::Negative(n) => close_value(Layer::Negative(*n)),
            Json::Float(n) => close_value(Layer::Float(n.clone())),
            Json::Text(text) => close_value(Layer::Text(text.clone())),
            Json::Array(items) => {
                let mut values: Vec<serde_json::Value> = Vec::new();
                let mut i: usize = 0;
                while i < items.len()
                    invariant
                        i <= items.len(),
                        *self == Json::Array(*items),
                        values@.len() == i,
                        forall|j: int| 0 <= j < i ==> value_view(#[trigger] values[j]) == items[j]@,
                    decreases items.len() - i,
                {
                    assert(decreases_to!(*self => self->Array_0));
                    assert(decreases_to!(*items => items[i as int]));
                    values.push(items[i].to_value());
                    i = i + 1;
                }
                proof {
                    lemma_items_view(items@);
                    assert(values@.map_values(|item: serde_json::Value| value_view(item))
                        =~= items_view(items@));
                }
                close_value(Layer::Array(values))
            },
            Json::Object(members) => {
                let mut object = close_value(Layer::Object(Vec::new()));
                let mut i: usize = 0;
                assert(members@.take(0) == Seq::<Member>::empty());
                while i < members.len()
                    invariant
                        i <= members.len(),
                        *self == Json::Object(*members),
                        value_view(object) == JsonView::Object(
                            members_view(members@.take(i as int)),
                        ),
                    decreases members.len() - i,
                {
                    assert(decreases_to!(*self => self->Object_0));
                    assert(decreases_to!(*members => members[i as int]));
                    assert(decreases_to!(members[i as int] => members[i as int].value));
                    let inner = members[i].value.to_value();
                    insert_member(&mut object, members[i].name.as_str(), inner);
                    i = i + 1;
                    assert(members@.take(i as int).drop_last() == members@.take(i - 1));
                }
                assert(members@.take(members.len() as int) == members@);
                object
            },
        }
    }

    /// Reads a JSON text.
    pub fn parse(text: &str) -> (tree: Result<Json, serde_json::Error>)
        ensures
            match tree {
                Ok(value) => parsed_json(text@) == Some(value@),
                Err(_) => parsed_json(text@) is None,
            },
    {
        match read_value(text) {
            Ok(value) => Ok(Json::from_value(value)),
            Err(error) => Err(error),
        }
    }

    /// The compact JSON text of this tree.
    pub fn render(&self) -> (text: String)
        ensures
            text@ == json_text(self@),
            plain(self@, 127) ==> parsed_json(text@) == Some(self@),
            one_line(text@),
    {
        write_value(&self.to_value())
    }
}

} // verus!
