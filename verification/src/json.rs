//! JSON values: a plain tree that the rest of the library reads and builds, and its exchange
//! with `serde_json`, which parses and prints.
use vstd::prelude::*;
use vstd::string::*;

use crate::text::same_text;

verus! {

/// `serde_json::Number`: an integer or a floating-point number.
#[verifier::external_type_specification]
#[verifier::external_body]
pub struct ExNumber(serde_json::Number);

/// `serde_json::Value`: a JSON value as `serde_json` holds it.
#[verifier::external_type_specification]
#[verifier::external_body]
pub struct ExValue(serde_json::Value);

/// The integer that a `serde_json::Number` holds, where it holds one and no floating-point
/// number.
pub uninterp spec fn number_integer(n: serde_json::Number) -> Option<int>;

/// What a `serde_json::Value` holds.
pub uninterp spec fn value_tree(value: serde_json::Value) -> JsonTree;

/// What `serde_json::from_slice` makes of bytes: a value, or an error with its message.
pub uninterp spec fn parsed_bytes(bytes: Seq<u8>) -> Result<JsonTree, Seq<char>>;

/// What `serde_json::from_str` makes of text: a value, or an error with its message.
pub uninterp spec fn parsed_text(text: Seq<char>) -> Result<JsonTree, Seq<char>>;

/// The compact text that `serde_json` prints for a value.
pub uninterp spec fn printed(tree: JsonTree) -> Seq<char>;

/// A JSON value as mathematics: objects are maps, arrays are sequences.
pub enum JsonTree {
    Null,
    Bool(bool),
    Int(int),
    /// A number with a fraction or an exponent.
    Float(serde_json::Number),
    Str(Seq<char>),
    Array(Seq<JsonTree>),
    Object(Map<Seq<char>, JsonTree>),
}

impl JsonTree {
    /// The member of an object under `key`.
    pub open spec fn member(self, key: Seq<char>) -> Option<JsonTree> {
        match self {
            JsonTree::Object(members) => if members.contains_key(key) {
                Some(members[key])
            } else {
                None
            },
            _ => None,
        }
    }

    /// What stands under `key`, or null where nothing does.
    pub open spec fn at(self, key: Seq<char>) -> JsonTree {
        match self {
            JsonTree::Object(members) if members.contains_key(key) => members[key],
            _ => JsonTree::Null,
        }
    }

    /// The names under which something stands.
    pub open spec fn names(self) -> Set<Seq<char>> {
        match self {
            JsonTree::Object(members) => members.dom(),
            _ => Set::empty(),
        }
    }

    /// How many items there are.
    pub open spec fn length(self) -> int {
        match self {
            JsonTree::Array(items) => items.len() as int,
            _ => 0,
        }
    }

    /// The item at `i`, or null where there is none.
    pub open spec fn item_at(self, i: int) -> JsonTree {
        match self {
            JsonTree::Array(items) if 0 <= i < items.len() => items[i],
            _ => JsonTree::Null,
        }
    }

    /// The text of a string.
    pub open spec fn as_text(self) -> Option<Seq<char>> {
        match self {
            JsonTree::Str(s) => Some(s),
            _ => None,
        }
    }

    /// The text of the string that stands under `key`.
    pub open spec fn text_member(self, key: Seq<char>) -> Option<Seq<char>> {
        match self.member(key) {
            Some(v) => v.as_text(),
            None => None,
        }
    }

    /// The integer, where `i64` holds it.
    pub open spec fn as_signed(self) -> Option<i64> {
        match self {
            JsonTree::Int(i) if i64::MIN <= i <= i64::MAX => Some(i as i64),
            _ => None,
        }
    }

    /// The integer, where `u64` holds it.
    pub open spec fn as_unsigned(self) -> Option<u64> {
        match self {
            JsonTree::Int(i) if 0 <= i <= u64::MAX => Some(i as u64),
            _ => None,
        }
    }

    /// The integer that stands under `key`, where `i64` holds it.
    pub open spec fn signed_member(self, key: Seq<char>) -> Option<i64> {
        match self.member(key) {
            Some(v) => v.as_signed(),
            None => None,
        }
    }
}

/// A JSON value. In an object a later member hides an earlier one of the same name.
pub enum Json {
    Null,
    Bool(bool),
    Number(serde_json::Number),
    Str(String),
    Array(Vec<Json>),
    Object(Vec<(String, Json)>),
}

/// The topmost level of a JSON value, with what lies below it still as `serde_json` holds it.
pub enum JsonLevel {
    Null,
    Bool(bool),
    Number(serde_json::Number),
    Str(String),
    Array(Vec<serde_json::Value>),
    Object(Vec<(String, serde_json::Value)>),
}

/// The tree of a number.
pub open spec fn number_tree(n: serde_json::Number) -> JsonTree {
    match number_integer(n) {
        Some(i) => JsonTree::Int(i),
        None => JsonTree::Float(n),
    }
}

/// The members that a list of names and values makes, a later one hiding an earlier one.
pub open spec fn members_of(pairs: Seq<(Seq<char>, JsonTree)>) -> Map<Seq<char>, JsonTree>
    decreases pairs.len(),
{
    if pairs.len() == 0 {
        Map::empty()
    } else {
        members_of(pairs.drop_last()).insert(pairs.last().0, pairs.last().1)
    }
}

impl Json {
    /// The value as mathematics.
    pub open spec fn tree(self) -> JsonTree
        decreases self,
    {
        match self {
            Json::Null => JsonTree::Null,
            Json::Bool(b) => JsonTree::Bool(b),
            Json::Number(n) => number_tree(n),
            Json::Str(s) => JsonTree::Str(s@),
            Json::Array(items) => JsonTree::Array(
                Seq::new(
                    items@.len(),
                    |i: int|
                        if 0 <= i < items@.len() {
                            items@[i].tree()
                        } else {
                            JsonTree::Null
                        },
                ),
            ),
            Json::Object(pairs) => JsonTree::Object(member_trees(pairs@)),
        }
    }
}

/// The members that a list of names and values makes, a later one hiding an earlier one.
pub open spec fn member_trees(pairs: Seq<(String, Json)>) -> Map<Seq<char>, JsonTree>
    decreases pairs,
{
    if pairs.len() == 0 {
        Map::empty()
    } else {
        member_trees(pairs.drop_last()).insert(pairs.last().0@, pairs.last().1.tree())
    }
}

/// The trees of a list of values.
pub open spec fn trees(items: Seq<Json>) -> Seq<JsonTree> {
    Seq::new(items.len(), |i: int| items[i].tree())
}

/// The names and trees of a list of members.
pub open spec fn pair_trees(pairs: Seq<(String, Json)>) -> Seq<(Seq<char>, JsonTree)> {
    Seq::new(pairs.len(), |i: int| (pairs[i].0@, pairs[i].1.tree()))
}

/// The trees of a list of `serde_json` values.
pub open spec fn value_trees(items: Seq<serde_json::Value>) -> Seq<JsonTree> {
    Seq::new(items.len(), |i: int| value_tree(items[i]))
}

/// The names and trees of a list of members that `serde_json` holds.
pub open spec fn value_pair_trees(pairs: Seq<(String, serde_json::Value)>) -> Seq<
    (Seq<char>, JsonTree),
> {
    Seq::new(pairs.len(), |i: int| (pairs[i].0@, value_tree(pairs[i].1)))
}

/// No two members have the same name.
pub open spec fn distinct_names(pairs: Seq<(Seq<char>, JsonTree)>) -> bool {
    forall|i: int, j: int|
        0 <= i < j < pairs.len() ==> (#[trigger] pairs[i]).0 != (#[trigger] pairs[j]).0
}

impl JsonLevel {
    /// The value as mathematics.
    pub open spec fn tree(self) -> JsonTree {
        match self {
            JsonLevel::Null => JsonTree::Null,
            JsonLevel::Bool(b) => JsonTree::Bool(b),
            JsonLevel::Number(n) => number_tree(n),
            JsonLevel::Str(s) => JsonTree::Str(s@),
            JsonLevel::Array(items) => JsonTree::Array(value_trees(items@)),
            JsonLevel::Object(pairs) => JsonTree::Object(members_of(value_pair_trees(pairs@))),
        }
    }
}

// ---------------------------------------------------------------------------------------------
// What serde_json does
// ---------------------------------------------------------------------------------------------

/// `serde_json::from_slice`: parses bytes as one JSON value. Value and error message depend on
/// the bytes alone and are named `parsed_bytes`.
#[verifier::external_body]
fn value_from_bytes(bytes: &[u8]) -> (parsed: Result<serde_json::Value, String>)
    ensures
        match parsed {
            Ok(value) => parsed_bytes(bytes@) == Ok::<JsonTree, Seq<char>>(value_tree(value)),
            Err(message) => parsed_bytes(bytes@) == Err::<JsonTree, Seq<char>>(message@),
        },
{
    serde_json::from_slice(bytes).map_err(|e: serde_json::Error| e.to_string())
}

/// `serde_json::from_str`: parses text as one JSON value. Value and error message depend on the
/// text alone and are named `parsed_text`.
#[verifier::external_body]
fn value_from_text(text: &str) -> (parsed: Result<serde_json::Value, String>)
    ensures
        match parsed {
            Ok(value) => parsed_text(text@) == Ok::<JsonTree, Seq<char>>(value_tree(value)),
            Err(message) => parsed_text(text@) == Err::<JsonTree, Seq<char>>(message@),
        },
{
    serde_json::from_str(text).map_err(|e: serde_json::Error| e.to_string())
}

/// The variants of `serde_json::Value`, told apart; an object's members come one by one, and no
/// two of them have the same name.
#[verifier::external_body]
fn open_value(value: serde_json::Value) -> (level: JsonLevel)
    ensures
        level.tree() == value_tree(value),
        level matches JsonLevel::Object(pairs) ==> distinct_names(value_pair_trees(pairs@)),
{
    match value {
        serde_json::Value::Null => JsonLevel::Null,
        serde_json::Value::Bool(b) => JsonLevel::Bool(b),
        serde_json::Value::Number(n) => JsonLevel::Number(n),
        serde_json::Value::String(s) => JsonLevel::Str(s),
        serde_json::Value::Array(items) => JsonLevel::Array(items),
        serde_json::Value::Object(map) => JsonLevel::Object(map.into_iter().collect()),
    }
}

/// The variants of `serde_json::Value`, made; an object is collected into `serde_json::Map` from
/// its members, no two of which have the same name.
#[verifier::external_body]
fn close_value(level: JsonLevel) -> (value: serde_json::Value)
    requires
        level matches JsonLevel::Object(pairs) ==> distinct_names(value_pair_trees(pairs@)),
    ensures
        value_tree(value) == level.tree(),
{
    match level {
        JsonLevel::Null => serde_json::Value::Null,
        JsonLevel::Bool(b) => serde_json::Value::Bool(b),
        JsonLevel::Number(n) => serde_json::Value::Number(n),
        JsonLevel::Str(s) => serde_json::Value::String(s),
        JsonLevel::Array(items) => serde_json::Value::Array(items),
        JsonLevel::Object(pairs) => serde_json::Value::Object(pairs.into_iter().collect()),
    }
}

/// `Display` of `serde_json::Value`: compact JSON text, with the members of an object in the order
/// of their names. It depends on what the value holds alone and is named `printed`.
#[verifier::external_body]
fn value_to_text(value: &serde_json::Value) -> (text: String)
    ensures
        text@ == printed(value_tree(*value)),
{
    value.to_string()
}

/// `serde_json::Number::as_i64`: the integer that the number holds, where `i64` holds it.
#[verifier::external_body]
fn number_signed(n: &serde_json::Number) -> (i: Option<i64>)
    ensures
        i == number_tree(*n).as_signed(),
{
    n.as_i64()
}

/// `serde_json::Number::as_u64`: the integer that the number holds, where `u64` holds it.
#[verifier::external_body]
fn number_unsigned(n: &serde_json::Number) -> (i: Option<u64>)
    ensures
        i == number_tree(*n).as_unsigned(),
{
    n.as_u64()
}

/// Cloning a `serde_json::Number` gives the same number.
pub assume_specification[ <serde_json::Number as Clone>::clone ](n: &serde_json::Number) -> (copy:
    serde_json::Number)
    ensures
        copy == *n,
;

/// `serde_json::Number::from` of an `i64` holds that integer.
#[verifier::external_body]
fn number_from_signed(i: i64) -> (n: serde_json::Number)
    ensures
        number_integer(n) == Some(i as int),
{
    serde_json::Number::from(i)
}

// ---------------------------------------------------------------------------------------------
// Reading and building
// ---------------------------------------------------------------------------------------------

/// An array's tree is the sequence of its items' trees.
pub proof fn lemma_array_tree(items: Vec<Json>)
    ensures
        Json::Array(items).tree() == JsonTree::Array(trees(items@)),
{
    assert(Json::Array(items).tree()->Array_0 =~= trees(items@));
}

/// An object's tree is the map that its members make.
pub proof fn lemma_object_tree(pairs: Seq<(String, Json)>)
    ensures
        member_trees(pairs) == members_of(pair_trees(pairs)),
    decreases pairs.len(),
{
    if pairs.len() > 0 {
        lemma_object_tree(pairs.drop_last());
        assert(pair_trees(pairs).drop_last() =~= pair_trees(pairs.drop_last()));
    }
}

/// A list of members makes a finite map.
proof fn lemma_members_finite(pairs: Seq<(Seq<char>, JsonTree)>)
    ensures
        members_of(pairs).dom().finite(),
    decreases pairs.len(),
{
    if pairs.len() > 0 {
        lemma_members_finite(pairs.drop_last());
    }
}

/// A key is a member exactly where some pair names it, and the last such pair gives its value.
proof fn lemma_members_of(pairs: Seq<(Seq<char>, JsonTree)>, key: Seq<char>, at: int)
    requires
        -1 <= at < pairs.len(),
        at >= 0 ==> pairs[at].0 == key,
        forall|j: int| at < j < pairs.len() ==> (#[trigger] pairs[j]).0 != key,
    ensures
        members_of(pairs).contains_key(key) == (at >= 0),
        at >= 0 ==> members_of(pairs)[key] == pairs[at].1,
    decreases pairs.len(),
{
    if pairs.len() > 0 && at < pairs.len() - 1 {
        let rest = pairs.drop_last();
        assert(pairs[pairs.len() - 1].0 != key);
        assert forall|j: int| at < j < rest.len() implies (#[trigger] rest[j]).0 != key by {
            assert(pairs[j].0 != key);
        }
        lemma_members_of(rest, key, at);
    }
}

/// Giving a member another value does to the map what inserting it does.
proof fn lemma_member_replaced(
    pairs: Seq<(Seq<char>, JsonTree)>,
    at: int,
    value: JsonTree,
)
    requires
        0 <= at < pairs.len(),
        distinct_names(pairs),
    ensures
        members_of(pairs.update(at, (pairs[at].0, value))) == members_of(pairs).insert(
            pairs[at].0,
            value,
        ),
        distinct_names(pairs.update(at, (pairs[at].0, value))),
    decreases pairs.len(),
{
    let key = pairs[at].0;
    let new = pairs.update(at, (key, value));
    let rest = pairs.drop_last();
    if at == pairs.len() - 1 {
        assert(new.drop_last() =~= rest);
    } else {
        assert(rest[at] == pairs[at]);
        lemma_member_replaced(rest, at, value);
        assert(new.drop_last() =~= rest.update(at, (key, value)));
        assert(pairs[at].0 != pairs[pairs.len() - 1].0);
    }
    assert(members_of(new) =~= members_of(pairs).insert(key, value));
}

/// Sets a member in a list that names each member once: in place where it is there, at the end
/// where it is not.
fn set_member(pairs: &mut Vec<(String, serde_json::Value)>, name: &str, value: serde_json::Value)
    requires
        distinct_names(value_pair_trees(old(pairs)@)),
    ensures
        distinct_names(value_pair_trees(final(pairs)@)),
        members_of(value_pair_trees(final(pairs)@)) == members_of(
            value_pair_trees(old(pairs)@),
        ).insert(name@, value_tree(value)),
{
    let ghost before = value_pair_trees(pairs@);
    let mut at: usize = 0;
    while at < pairs.len() && !same_text(pairs[at].0.as_str(), name)
        invariant
            at <= pairs@.len(),
            before == value_pair_trees(pairs@),
            forall|i: int| 0 <= i < at ==> (#[trigger] before[i]).0 != name@,
        decreases pairs@.len() - at,
    {
        assert(before[at as int].0 == pairs@[at as int].0@);
        at = at + 1;
    }
    if at < pairs.len() {
        assert(before[at as int].0 == name@);
        pairs.set(at, (name.to_owned(), value));
        proof {
            lemma_member_replaced(before, at as int, value_tree(value));
            assert(value_pair_trees(pairs@) =~= before.update(
                at as int,
                (name@, value_tree(value)),
            ));
        }
    } else {
        pairs.push((name.to_owned(), value));
        proof {
            let after = value_pair_trees(pairs@);
            assert(after =~= before.push((name@, value_tree(value))));
            assert(after.drop_last() =~= before);
            assert forall|i: int, j: int| 0 <= i < j < after.len() implies (#[trigger] after[i]).0
                != (#[trigger] after[j]).0 by {
                assert(after[i] == before[i]);
                if j < before.len() {
                    assert(after[j] == before[j]);
                }
            }
        }
    }
}

impl Json {
    /// The member of an object under `key`.
    pub fn get(&self, key: &str) -> (found: Option<&Json>)
        ensures
            match found {
                Some(value) => self.tree().member(key@) == Some(value.tree()),
                None => self.tree().member(key@) is None,
            },
    {
        match self {
            Json::Object(pairs) => {
                proof {
                    lemma_object_tree(pairs@);
                }
                let ghost all = pair_trees(pairs@);
                let mut at: usize = pairs.len();
                while at > 0
                    invariant
                        at <= pairs@.len(),
                        all == pair_trees(pairs@),
                        self.tree() == JsonTree::Object(members_of(all)),
                        forall|j: int| at <= j < pairs@.len() ==> (#[trigger] all[j]).0 != key@,
                    decreases at,
                {
                    at = at - 1;
                    if same_text(pairs[at].0.as_str(), key) {
                        proof {
                            lemma_members_of(all, key@, at as int);
                        }
                        return Some(&pairs[at].1);
                    }
                }
                proof {
                    lemma_members_of(all, key@, -1);
                }
                None
            },
            _ => None,
        }
    }

    /// The text of a string.
    pub fn as_str(&self) -> (text: Option<&str>)
        ensures
            match text {
                Some(s) => self.tree().as_text() == Some(s@),
                None => self.tree().as_text() is None,
            },
    {
        match self {
            Json::Str(s) => Some(s.as_str()),
            _ => None,
        }
    }

    /// The text of the string that stands under `key`.
    pub fn get_str(&self, key: &str) -> (text: Option<&str>)
        ensures
            match text {
                Some(s) => self.tree().text_member(key@) == Some(s@),
                None => self.tree().text_member(key@) is None,
            },
    {
        match self.get(key) {
            Some(value) => value.as_str(),
            None => None,
        }
    }

    /// The integer, where `i64` holds it.
    pub fn as_i64(&self) -> (i: Option<i64>)
        ensures
            i == self.tree().as_signed(),
    {
        match self {
            Json::Number(n) => number_signed(n),
            _ => None,
        }
    }

    /// The integer, where `u64` holds it.
    pub fn as_u64(&self) -> (i: Option<u64>)
        ensures
            i == self.tree().as_unsigned(),
    {
        match self {
            Json::Number(n) => number_unsigned(n),
            _ => None,
        }
    }

    /// The integer that stands under `key`, where `i64` holds it.
    pub fn get_i64(&self, key: &str) -> (i: Option<i64>)
        ensures
            i == self.tree().signed_member(key@),
    {
        match self.get(key) {
            Some(value) => value.as_i64(),
            None => None,
        }
    }

    /// The items of an array.
    pub fn as_array(&self) -> (items: Option<&Vec<Json>>)
        ensures
            match items {
                Some(v) => self.tree() == JsonTree::Array(trees(v@)),
                None => !(self.tree() is Array),
            },
    {
        match self {
            Json::Array(items) => {
                proof {
                    lemma_array_tree(*items);
                }
                Some(items)
            },
            _ => None,
        }
    }

    /// A string.
    pub fn text(s: &str) -> (json: Json)
        ensures
            json.tree() == JsonTree::Str(s@),
    {
        Json::Str(s.to_owned())
    }

    /// An integer.
    pub fn integer(i: i64) -> (json: Json)
        ensures
            json.tree() == JsonTree::Int(i as int),
    {
        Json::Number(number_from_signed(i))
    }

    /// The empty array.
    pub fn array() -> (json: Json)
        ensures
            json.tree() == JsonTree::Array(Seq::empty()),
    {
        let items: Vec<Json> = Vec::new();
        proof {
            lemma_array_tree(items);
            assert(trees(items@) =~= Seq::empty());
        }
        Json::Array(items)
    }

    /// An array with one item more at its end; a value that is no array stays as it is.
    pub fn item(self, value: Json) -> (json: Json)
        ensures
            json.tree() == match self.tree() {
                JsonTree::Array(items) => JsonTree::Array(items.push(value.tree())),
                other => other,
            },
    {
        match self {
            Json::Array(items) => {
                let mut items = items;
                proof {
                    lemma_array_tree(items);
                }
                let ghost before = items@;
                items.push(value);
                proof {
                    lemma_array_tree(items);
                    assert(trees(items@) =~= trees(before).push(value.tree()));
                }
                Json::Array(items)
            },
            other => other,
        }
    }

    /// The empty object.
    pub fn object() -> (json: Json)
        ensures
            json.tree() == JsonTree::Object(Map::empty()),
    {
        let pairs: Vec<(String, Json)> = Vec::new();
        proof {
            lemma_object_tree(pairs@);
            assert(pair_trees(pairs@) =~= Seq::empty());
        }
        Json::Object(pairs)
    }

    /// An object with `key` set to `value`; a value that is no object stays as it is.
    pub fn with(self, key: &str, value: Json) -> (json: Json)
        ensures
            json.tree() == match self.tree() {
                JsonTree::Object(members) => JsonTree::Object(members.insert(key@, value.tree())),
                other => other,
            },
    {
        match self {
            Json::Object(pairs) => {
                let mut pairs = pairs;
                proof {
                    lemma_object_tree(pairs@);
                }
                let ghost before = pairs@;
                pairs.push((key.to_owned(), value));
                proof {
                    lemma_object_tree(pairs@);
                    let after = pair_trees(pairs@);
                    assert(after =~= pair_trees(before).push((key@, value.tree())));
                    assert(after.drop_last() =~= pair_trees(before));
                }
                Json::Object(pairs)
            },
            other => other,
        }
    }
}

// ---------------------------------------------------------------------------------------------
// Parsing and printing
// ---------------------------------------------------------------------------------------------

/// The plain form of a value that `serde_json` holds.
fn from_value(value: serde_json::Value) -> (json: Json)
    ensures
        json.tree() == value_tree(value),
    decreases value_tree(value),
{
    match open_value(value) {
        JsonLevel::Null => Json::Null,
        JsonLevel::Bool(b) => Json::Bool(b),
        JsonLevel::Number(n) => Json::Number(n),
        JsonLevel::Str(s) => Json::Str(s),
        JsonLevel::Array(items) => {
            let mut out: Vec<Json> = Vec::new();
            for item in it: items
                invariant
                    value_tree(value) == JsonTree::Array(value_trees(it.seq())),
                    trees(out@) == value_trees(it.seq()).take(it.index() as int),
            {
                let ghost at = it.index() as int;
                let ghost before = out@;
                proof {
                    let all = value_trees(it.seq());
                    assert(all[at] == value_tree(item));
                    assert(decreases_to!(value_tree(value) => value_tree(value)->Array_0));
                    assert(decreases_to!(all => all[at]));
                }
                out.push(from_value(item));
                assert(trees(out@) =~= trees(before).push(value_tree(item)));
            }
            proof {
                lemma_array_tree(out);
                assert(trees(out@) =~= value_trees(items@));
            }
            Json::Array(out)
        },
        JsonLevel::Object(pairs) => {
            let mut out: Vec<(String, Json)> = Vec::new();
            for pair in it: pairs
                invariant
                    value_tree(value) == JsonTree::Object(members_of(value_pair_trees(it.seq()))),
                    distinct_names(value_pair_trees(it.seq())),
                    pair_trees(out@) == value_pair_trees(it.seq()).take(it.index() as int),
            {
                let ghost at = it.index() as int;
                let ghost before = out@;
                proof {
                    let all = value_pair_trees(it.seq());
                    assert(all[at] == (pair.0@, value_tree(pair.1)));
                    lemma_members_of(all, pair.0@, at);
                    lemma_members_finite(all);
                    let members = members_of(all);
                    assert(decreases_to!(value_tree(value) => value_tree(value)->Object_0));
                    assert(decreases_to!(members => members[pair.0@]));
                }
                out.push((pair.0, from_value(pair.1)));
                assert(pair_trees(out@) =~= pair_trees(before).push(
                    (pair.0@, value_tree(pair.1)),
                ));
            }
            proof {
                lemma_object_tree(out@);
                assert(pair_trees(out@) =~= value_pair_trees(pairs@));
            }
            Json::Object(out)
        },
    }
}

/// The value as `serde_json` holds it.
fn to_value(json: &Json) -> (value: serde_json::Value)
    ensures
        value_tree(value) == json.tree(),
    decreases json,
{
    let level = match json {
        Json::Null => JsonLevel::Null,
        Json::Bool(b) => JsonLevel::Bool(*b),
        Json::Number(n) => JsonLevel::Number(n.clone()),
        Json::Str(s) => JsonLevel::Str(s.clone()),
        Json::Array(items) => {
            let mut out: Vec<serde_json::Value> = Vec::new();
            for i in 0..items.len()
                invariant
                    *json == Json::Array(*items),
                    value_trees(out@) == trees(items@).take(i as int),
            {
                let ghost before = out@;
                assert(decreases_to!(*json => json->Array_0));
                out.push(to_value(&items[i]));
                assert(value_trees(out@) =~= value_trees(before).push(items@[i as int].tree()));
            }
            proof {
                lemma_array_tree(*items);
                assert(value_trees(out@) =~= trees(items@));
            }
            JsonLevel::Array(out)
        },
        Json::Object(pairs) => {
            let mut out: Vec<(String, serde_json::Value)> = Vec::new();
            let ghost all = pair_trees(pairs@);
            assert(value_pair_trees(out@) =~= Seq::empty());
            assert(all.take(0) =~= Seq::empty());
            for i in 0..pairs.len()
                invariant
                    *json == Json::Object(*pairs),
                    all == pair_trees(pairs@),
                    distinct_names(value_pair_trees(out@)),
                    members_of(value_pair_trees(out@)) == members_of(all.take(i as int)),
            {
                assert(decreases_to!(*json => json->Object_0));
                assert(all.take(i + 1).drop_last() =~= all.take(i as int));
                assert(all.take(i + 1).last() == (
                    pairs@[i as int].0@,
                    pairs@[i as int].1.tree(),
                ));
                set_member(&mut out, pairs[i].0.as_str(), to_value(&pairs[i].1));
            }
            proof {
                lemma_object_tree(pairs@);
                assert(all.take(all.len() as int) =~= all);
            }
            JsonLevel::Object(out)
        },
    };
    close_value(level)
}

/// The JSON value that `bytes` spell, or the parser's message.
pub fn parse_json_bytes(bytes: &[u8]) -> (parsed: Result<Json, String>)
    ensures
        match parsed {
            Ok(json) => parsed_bytes(bytes@) == Ok::<JsonTree, Seq<char>>(json.tree()),
            Err(message) => parsed_bytes(bytes@) == Err::<JsonTree, Seq<char>>(message@),
        },
{
    match value_from_bytes(bytes) {
        Ok(value) => Ok(from_value(value)),
        Err(message) => Err(message),
    }
}

/// The JSON value that `text` spells, or the parser's message.
pub fn parse_json(text: &str) -> (parsed: Result<Json, String>)
    ensures
        match parsed {
            Ok(json) => parsed_text(text@) == Ok::<JsonTree, Seq<char>>(json.tree()),
            Err(message) => parsed_text(text@) == Err::<JsonTree, Seq<char>>(message@),
        },
{
    match value_from_text(text) {
        Ok(value) => Ok(from_value(value)),
        Err(message) => Err(message),
    }
}

/// The compact text of a JSON value.
pub fn print_json(json: &Json) -> (text: String)
    ensures
        text@ == printed(json.tree()),
{
    value_to_text(&to_value(json))
}

} // verus!
