//! JSON values as the gateway reads and writes them.
use crate::text::same_text;
use crate::value::Fraction;
use vstd::prelude::*;

verus! {

/// A JSON value.
pub enum Json {
    Null,
    Bool(bool),
    Unsigned(u64),
    Negative(i64),
    Float(Fraction),
    Text(String),
    Array(Vec<Json>),
    Object(Vec<Member>),
}

/// One member of a JSON object.
pub struct Member {
    pub name: String,
    pub value: Json,
}

/// What a JSON value says, whatever holds it.
#[verifier::ext_equal]
pub enum JsonView {
    Null,
    Bool(bool),
    Integer(int),
    Float(Fraction),
    Text(Seq<char>),
    Array(Seq<JsonView>),
    Object(Map<Seq<char>, JsonView>),
}

/// The values of a list, each by what it says.
pub open spec fn items_view(items: Seq<Json>) -> Seq<JsonView>
    decreases items,
{
    if items.len() == 0 {
        Seq::empty()
    } else {
        items_view(items.drop_last()).push(items.last().view())
    }
}

/// The members of an object: of two with one name, the later one counts.
pub open spec fn members_view(members: Seq<Member>) -> Map<Seq<char>, JsonView>
    decreases members,
{
    if members.len() == 0 {
        Map::empty()
    } else {
        members_view(members.drop_last()).insert(members.last().name@, members.last().value.view())
    }
}

impl Json {
    pub open spec fn view(&self) -> JsonView
        decreases self,
    {
        match self {
            Json::Null => JsonView::Null,
            Json::Bool(b) => JsonView::Bool(*b),
            Json::Unsigned(n) => JsonView::Integer(*n as int),
            Json::Negative(n) => JsonView::Integer(*n as int),
            Json::Float(n) => JsonView::Float(*n),
            Json::Text(t) => JsonView::Text(t@),
            Json::Array(items) => JsonView::Array(items_view(items@)),
            Json::Object(members) => JsonView::Object(members_view(members@)),
        }
    }
}


/// Reading a value.
impl JsonView {
    /// The member `name` of an object; nothing where there is none, or no object.
    pub open spec fn field(self, name: Seq<char>) -> Option<JsonView> {
        match self {
            JsonView::Object(members) if members.contains_key(name) => Some(members[name]),
            _ => None,
        }
    }

    /// The member `name`, with `null` in place of one that is not there.
    pub open spec fn at(self, name: Seq<char>) -> JsonView {
        match self.field(name) {
            Some(value) => value,
            None => JsonView::Null,
        }
    }

    /// The characters of a string value.
    pub open spec fn text(self) -> Option<Seq<char>> {
        match self {
            JsonView::Text(text) => Some(text),
            _ => None,
        }
    }

    /// The same value with `value` as the member `name`; only an object has members.
    pub open spec fn with(self, name: Seq<char>, value: JsonView) -> JsonView {
        match self {
            JsonView::Object(members) => JsonView::Object(members.insert(name, value)),
            _ => self,
        }
    }

    /// The value at this place of an array, with `null` in place of one that is not there.
    pub open spec fn item(self, i: int) -> JsonView {
        match self {
            JsonView::Array(items) if 0 <= i < items.len() => items[i],
            _ => JsonView::Null,
        }
    }

    /// How many values an array holds.
    pub open spec fn count(self) -> nat {
        match self {
            JsonView::Array(items) => items.len(),
            _ => 0,
        }
    }

    /// The object without members.
    pub open spec fn object() -> JsonView {
        JsonView::Object(Map::empty())
    }
}

pub proof fn lemma_items_view(items: Seq<Json>)
    ensures
        items_view(items).len() == items.len(),
        forall|i: int| 0 <= i < items.len() ==> #[trigger] items_view(items)[i] == items[i]@,
    decreases items.len(),
{
    if items.len() > 0 {
        lemma_items_view(items.drop_last());
        assert forall|i: int| 0 <= i < items.len() implies #[trigger] items_view(items)[i]
            == items[i]@ by {
            if i < items.len() - 1 {
                assert(items_view(items.drop_last())[i] == items.drop_last()[i]@);
            }
        }
    }
}

/// A name in an object belongs to one of its members, and a member's value is
/// there under its name unless a later member has that name too.
pub proof fn lemma_members_view(members: Seq<Member>, name: Seq<char>)
    ensures
        members_view(members).contains_key(name) <==> exists|i: int|
            0 <= i < members.len() && #[trigger] members[i].name@ == name,
        forall|i: int|
            0 <= i < members.len() && #[trigger] members[i].name@ == name && (forall|j: int|
                i < j < members.len() ==> #[trigger] members[j].name@ != name)
                ==> members_view(members)[name] == members[i].value@,
        members_view(members).dom().finite(),
    decreases members.len(),
{
    if members.len() > 0 {
        let rest = members.drop_last();
        lemma_members_view(rest, name);
        assert forall|i: int|
            0 <= i < members.len() && #[trigger] members[i].name@ == name && (forall|j: int|
                i < j < members.len() ==> #[trigger] members[j].name@
                    != name) implies members_view(members)[name] == members[i].value@ by {
            if i < members.len() - 1 {
                assert(rest[i].name@ == name);
                assert(members[members.len() - 1].name@ != name);
                assert forall|j: int| i < j < rest.len() implies #[trigger] rest[j].name@
                    != name by {
                    assert(members[j].name@ != name);
                }
            }
        }
        if members_view(members).contains_key(name) {
            if members.last().name@ == name {
                assert(members[members.len() - 1].name@ == name);
            } else {
                let i = choose|i: int| 0 <= i < rest.len() && #[trigger] rest[i].name@ == name;
                assert(members[i].name@ == name);
            }
        }
        if exists|i: int| 0 <= i < members.len() && #[trigger] members[i].name@ == name {
            let i = choose|i: int| 0 <= i < members.len() && #[trigger] members[i].name@ == name;
            if i < members.len() - 1 {
                assert(rest[i].name@ == name);
            }
        }
    }
}

impl Json {
    /// The JSON string with these characters.
    pub fn text(text: &str) -> (value: Json)
        ensures
            value@ == JsonView::Text(text@),
    {
        Json::Text(text.to_owned())
    }

    /// The object without members.
    pub fn object() -> (value: Json)
        ensures
            value@ == JsonView::object(),
    {
        Json::Object(Vec::new())
    }

    /// The object with `value` as its member `name`.
    pub fn with(self, name: &str, value: Json) -> (changed: Json)
        ensures
            changed@ == self@.with(name@, value@),
    {
        match self {
            Json::Object(members) => {
                let mut members = members;
                let ghost before = members@;
                members.push(Member { name: name.to_owned(), value });
                assert(members@.drop_last() == before);
                Json::Object(members)
            },
            other => other,
        }
    }

    /// Whether the value is `null`.
    pub fn is_null(&self) -> (null: bool)
        ensures
            null == (self@ == JsonView::Null),
    {
        match self {
            Json::Null => true,
            _ => false,
        }
    }

    /// The characters of a string value.
    pub fn as_text(&self) -> (text: Option<&str>)
        ensures
            match text {
                Some(t) => self@.text() == Some(t@),
                None => self@.text() is None,
            },
    {
        match self {
            Json::Text(text) => Some(text.as_str()),
            _ => None,
        }
    }

    /// Whether the value is the string `text`.
    pub fn is_text(&self, text: &str) -> (same: bool)
        ensures
            same == (self@ == JsonView::Text(text@)),
    {
        match self {
            Json::Text(own) => same_text(own.as_str(), text),
            _ => false,
        }
    }

    /// The truth value of a boolean.
    pub fn as_bool(&self) -> (truth: Option<bool>)
        ensures
            match truth {
                Some(b) => self@ == JsonView::Bool(b),
                None => !(self@ is Bool),
            },
    {
        match self {
            Json::Bool(b) => Some(*b),
            _ => None,
        }
    }

    /// Whether the value is this whole number.
    pub fn is_number(&self, number: u64) -> (same: bool)
        ensures
            same == (self@ == JsonView::Integer(number as int)),
    {
        match self {
            Json::Unsigned(n) => *n == number,
            Json::Negative(n) => *n >= 0 && *n as u64 == number,
            _ => false,
        }
    }

    /// The member `name` of an object.
    pub fn field(&self, name: &str) -> (value: Option<&Json>)
        ensures
            match value {
                Some(v) => self@.field(name@) == Some(v@),
                None => self@.field(name@) is None,
            },
    {
        match self {
            Json::Object(members) => {
                proof {
                    lemma_members_view(members@, name@);
                }
                let mut i: usize = members.len();
                while i > 0
                    invariant
                        i <= members.len(),
                        self@ == JsonView::Object(members_view(members@)),
                        forall|j: int| i <= j < members.len() ==> #[trigger] members[j].name@ != name@,
                    decreases i,
                {
                    i = i - 1;
                    if same_text(members[i].name.as_str(), name) {
                        proof {
                            lemma_members_view(members@, name@);
                        }
                        return Some(&members[i].value);
                    }
                }
                None
            },
            _ => None,
        }
    }

    /// The member `name`, with `null` in place of one that is not there.
    pub fn at(&self, name: &str) -> (value: &Json)
        ensures
            value@ == self@.at(name@),
    {
        match self.field(name) {
            Some(value) => value,
            None => &Json::Null,
        }
    }
}

/// A member that was set is there as it was given, and no other member changes.
pub proof fn law_member_is_as_it_was_set(
    value: JsonView,
    name: Seq<char>,
    given: JsonView,
    other: Seq<char>,
)
    requires
        value is Object,
    ensures
        value.with(name, given) is Object,
        value.with(name, given).at(name) == given,
        value.with(name, given).field(name) == Some(given),
        other != name ==> value.with(name, given).field(other) == value.field(other),
        JsonView::object().field(name) is None,
{
}

impl Clone for Json {
    fn clone(&self) -> (copy: Json)
        ensures
            copy@ == self@,
        decreases self,
    {
        match self {
            Json::Null => Json::Null,
            Json::Bool(b) => Json::Bool(*b),
            Json::Unsigned(n) => Json::Unsigned(*n),
            Json::Negative(n) => Json::Negative(*n),
            Json::Float(n) => Json::Float(n.clone()),
            Json::Text(text) => Json::Text(text.clone()),
            Json::Array(items) => {
                let mut copies: Vec<Json> = Vec::new();
                let mut i: usize = 0;
                assert(items@.take(0) == Seq::<Json>::empty());
                while i < items.len()
                    invariant
                        i <= items.len(),
                        *self == Json::Array(*items),
                        items_view(copies@) == items_view(items@.take(i as int)),
                    decreases items.len() - i,
                {
                    let ghost before = copies@;
                    assert(decreases_to!(*self => self->Array_0));
                    assert(decreases_to!(*items => items[i as int]));
                    copies.push(items[i].clone());
                    i = i + 1;
                    assert(copies@.drop_last() == before);
                    assert(items@.take(i as int).drop_last() == items@.take(i - 1));
                }
                assert(items@.take(items.len() as int) == items@);
                Json::Array(copies)
            },
            Json::Object(members) => {
                let mut copies: Vec<Member> = Vec::new();
                let mut i: usize = 0;
                assert(members@.take(0) == Seq::<Member>::empty());
                while i < members.len()
                    invariant
                        i <= members.len(),
                        *self == Json::Object(*members),
                        members_view(copies@) == members_view(members@.take(i as int)),
                    decreases members.len() - i,
                {
                    let ghost before = copies@;
                    assert(decreases_to!(*self => self->Object_0));
                    assert(decreases_to!(*members => members[i as int]));
                    assert(decreases_to!(members[i as int] => members[i as int].value));
                    copies.push(
                        Member { name: members[i].name.clone(), value: members[i].value.clone() },
                    );
                    i = i + 1;
                    assert(copies@.drop_last() == before);
                    assert(members@.take(i as int).drop_last() == members@.take(i - 1));
                }
                assert(members@.take(members.len() as int) == members@);
                Json::Object(copies)
            },
        }
    }
}

/// A value stands for what it holds, whatever that is: a text for its characters, a list for its
/// items in their order.
pub proof fn law_value_is_what_it_holds(
    text: String,
    truth: bool,
    unsigned: u64,
    negative: i64,
    items: Vec<Json>,
)
    ensures
        Json::Null@ == JsonView::Null,
        Json::Text(text)@ == JsonView::Text(text@),
        Json::Bool(truth)@ == JsonView::Bool(truth),
        Json::Unsigned(unsigned)@ == JsonView::Integer(unsigned as int),
        Json::Negative(negative)@ == JsonView::Integer(negative as int),
        Json::Array(items)@.count() == items@.len(),
        forall|i: int| 0 <= i < items@.len() ==> #[trigger] Json::Array(items)@.item(i)
            == items@[i]@,
{
    lemma_items_view(items@);
    assert forall|i: int| 0 <= i < items@.len() implies #[trigger] Json::Array(items)@.item(i)
        == items@[i]@ by {
        assert(items_view(items@)[i] == items@[i]@);
    }
}

} // verus!
