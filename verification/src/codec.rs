//! Between [`Json`] and JSON text, by way of `serde_json`.
//!
//! `serde_json` reads and writes the text. What it reads comes back as a
//! `serde_json::Value`; [`from_serde`] turns that into a [`Json`] level by
//! level, and [`to_serde`] goes the other way. Both are proved to keep the
//! value: the tree that the `serde_json::Value` holds is the view of the
//! [`Json`].

use crate::json::{lemma_members_of_push, lemma_models_of, members_of, models_of, reversed, tree,
    Json, JsonModel, JsonNumber, Real};
use vstd::prelude::*;

verus! {

/// What `serde_json::from_str` reads `text` as: the tree of the value, or
/// the message of the error that it reports.
pub uninterp spec fn parsed(text: Seq<char>) -> Result<JsonModel, Seq<char>>;

/// What `serde_json::to_string` gives for a value that holds `value`: the
/// text that it writes, or the message of the error that it reports.
pub uninterp spec fn rendered(value: JsonModel) -> Result<Seq<char>, Seq<char>>;

/// One level of a `serde_json::Value`: its own kind and payload, with the
/// values below it left as they are.
enum Node {
    Null,
    Bool(bool),
    Number(JsonNumber),
    String(String),
    Array(Vec<serde_json::Value>),
    Object(Vec<(String, serde_json::Value)>),
}

spec fn trees(items: Seq<serde_json::Value>) -> Seq<JsonModel> {
    items.map_values(|x: serde_json::Value| tree(x))
}

spec fn entries(members: Seq<(String, serde_json::Value)>) -> Map<Seq<char>, JsonModel>
    decreases members.len(),
{
    if members.len() == 0 {
        Map::empty()
    } else {
        entries(members.drop_last()).insert(members.last().0@, tree(members.last().1))
    }
}

spec fn distinct_names(members: Seq<(String, serde_json::Value)>) -> bool {
    forall|i: int, j: int|
        0 <= i < members.len() && 0 <= j < members.len() && i != j ==> members[i].0@
            != members[j].0@
}

spec fn node_model(node: Node) -> JsonModel {
    match node {
        Node::Null => JsonModel::Null,
        Node::Bool(b) => JsonModel::Bool(b),
        Node::Number(n) => JsonModel::Number(n@),
        Node::String(s) => JsonModel::String(s@),
        Node::Array(items) => JsonModel::Array(trees(items@)),
        Node::Object(members) => JsonModel::Object(entries(members@)),
    }
}

/// Takes a `serde_json::Value` apart by its variant. A number comes out as
/// the `u64` or `i64` that `Number::as_u64` or `Number::as_i64` gives, else
/// as the value itself, whose number then holds a float. The members of an
/// object come out in the order of `Map::into_iter`; the map has each name
/// once.
#[verifier::external_body]
fn unpack(v: serde_json::Value) -> (r: Node)
    ensures
        node_model(r) == tree(v),
        r matches Node::Object(members) ==> distinct_names(members@),
{
    match v {
        serde_json::Value::Null => Node::Null,
        serde_json::Value::Bool(b) => Node::Bool(b),
        serde_json::Value::Number(n) => Node::Number(match (n.as_u64(), n.as_i64()) {
            (Some(u), _) => JsonNumber::PosInt(u),
            (_, Some(i)) => JsonNumber::NegInt(i),
            _ => JsonNumber::Real(Real { repr: serde_json::Value::Number(n) }),
        }),
        serde_json::Value::String(s) => Node::String(s),
        serde_json::Value::Array(a) => Node::Array(a),
        serde_json::Value::Object(m) => Node::Object(m.into_iter().collect()),
    }
}

/// Builds the `serde_json::Value` of one variant from its payload, with
/// `Number::from` for an integer and `Map::from_iter` for the members of an
/// object, whose names differ from one another. A real is the value that it
/// was kept as.
#[verifier::external_body]
fn pack(node: Node) -> (r: serde_json::Value)
    requires
        node matches Node::Object(members) ==> distinct_names(members@),
    ensures
        tree(r) == node_model(node),
{
    match node {
        Node::Null => serde_json::Value::Null,
        Node::Bool(b) => serde_json::Value::Bool(b),
        Node::Number(JsonNumber::PosInt(u)) => serde_json::Value::Number(u.into()),
        Node::Number(JsonNumber::NegInt(i)) => serde_json::Value::Number(i.into()),
        Node::Number(JsonNumber::Real(x)) => x.repr,
        Node::String(s) => serde_json::Value::String(s),
        Node::Array(a) => serde_json::Value::Array(a),
        Node::Object(m) => serde_json::Value::Object(m.into_iter().collect()),
    }
}

/// `serde_json::from_str` for a `serde_json::Value`. An error comes back as
/// its message, as its `Display` writes it: what went wrong and at which line
/// and column of the text.
#[verifier::external_body]
fn serde_parse(text: &str) -> (r: Result<serde_json::Value, String>)
    ensures
        match r {
            Ok(v) => parsed(text@) == Ok::<JsonModel, Seq<char>>(tree(v)),
            Err(reason) => parsed(text@) == Err::<JsonModel, Seq<char>>(reason@),
        },
{
    serde_json::from_str::<serde_json::Value>(text).map_err(|e| e.to_string())
}

/// `serde_json::to_string` of a `serde_json::Value`. An error comes back as
/// its message, as its `Display` writes it. Whether there is one, and which,
/// depends on what the value holds and on nothing else; on which values
/// there is one is not said.
#[verifier::external_body]
fn serde_render(v: &serde_json::Value) -> (r: Result<String, String>)
    ensures
        match r {
            Ok(s) => rendered(tree(*v)) == Ok::<Seq<char>, Seq<char>>(s@),
            Err(reason) => rendered(tree(*v)) == Err::<Seq<char>, Seq<char>>(reason@),
        },
{
    serde_json::to_string(v).map_err(|e| e.to_string())
}

proof fn lemma_entries_push(members: Seq<(String, serde_json::Value)>, member: (
    String,
    serde_json::Value,
))
    ensures
        entries(members.push(member)) == entries(members).insert(member.0@, tree(member.1)),
{
    assert(members.push(member).drop_last() =~= members);
}

proof fn lemma_entries_finite(members: Seq<(String, serde_json::Value)>)
    ensures
        entries(members).dom().finite(),
    decreases members.len(),
{
    if members.len() > 0 {
        lemma_entries_finite(members.drop_last());
    }
}

/// Where the names differ, each member is what the map has under its name.
proof fn lemma_entries_at(members: Seq<(String, serde_json::Value)>, i: int)
    requires
        distinct_names(members),
        0 <= i < members.len(),
    ensures
        entries(members).contains_key(members[i].0@),
        entries(members)[members[i].0@] == tree(members[i].1),
    decreases members.len(),
{
    let front = members.drop_last();
    if i < members.len() - 1 {
        assert(distinct_names(front));
        lemma_entries_at(front, i);
    }
}

/// Replacing the value of one member, where the names differ, writes the
/// new value under that name.
proof fn lemma_entries_update(
    members: Seq<(String, serde_json::Value)>,
    i: int,
    member: (String, serde_json::Value),
)
    requires
        distinct_names(members),
        0 <= i < members.len(),
        member.0@ == members[i].0@,
    ensures
        distinct_names(members.update(i, member)),
        entries(members.update(i, member)) == entries(members).insert(
            member.0@,
            tree(member.1),
        ),
    decreases members.len(),
{
    let after = members.update(i, member);
    assert(distinct_names(after));
    let front = members.drop_last();
    if i == members.len() - 1 {
        assert(after.drop_last() =~= front);
    } else {
        assert(distinct_names(front));
        lemma_entries_update(front, i, member);
        assert(after.drop_last() =~= front.update(i, member));
    }
}

/// The [`Json`] that holds what `v` holds.
pub fn from_serde(v: serde_json::Value) -> (r: Json)
    ensures
        r@ == tree(v),
    decreases tree(v),
{
    let ghost whole = tree(v);
    match unpack(v) {
        Node::Null => Json::Null,
        Node::Bool(b) => Json::Bool(b),
        Node::Number(n) => Json::Number(n),
        Node::String(s) => Json::String(s),
        Node::Array(items) => {
            let ghost given = items@;
            let mut rest = reversed(items);
            let mut out: Vec<Json> = Vec::new();
            while rest.len() > 0
                invariant
                    whole == tree(v),
                    whole == JsonModel::Array(trees(given)),
                    rest@.len() + out@.len() == given.len(),
                    forall|j: int|
                        0 <= j < rest@.len() ==> rest@[j] == given[given.len() - 1 - j],
                    forall|j: int| 0 <= j < out@.len() ==> #[trigger] out@[j]@ == tree(given[j]),
                decreases rest.len(),
            {
                let x = rest.pop().unwrap();
                proof {
                    assert(decreases_to!(whole => whole->Array_0[out@.len() as int]));
                }
                let y = from_serde(x);
                out.push(y);
            }
            proof {
                lemma_models_of(out@);
                assert(models_of(out@) =~= trees(given));
            }
            Json::Array(out)
        },
        Node::Object(members) => {
            let ghost given = members@;
            let mut rest = reversed(members);
            let mut out: Vec<(String, Json)> = Vec::new();
            while rest.len() > 0
                invariant
                    whole == tree(v),
                    whole == JsonModel::Object(entries(given)),
                    distinct_names(given),
                    rest@.len() + out@.len() == given.len(),
                    forall|j: int|
                        0 <= j < rest@.len() ==> rest@[j] == given[given.len() - 1 - j],
                    members_of(out@) == entries(given.take(out@.len() as int)),
                decreases rest.len(),
            {
                let pair = rest.pop().unwrap();
                let ghost done = out@.len() as int;
                proof {
                    lemma_entries_at(given, done);
                    lemma_entries_finite(given);
                    lemma_entries_push(given.take(done), pair);
                    assert(given.take(done + 1) =~= given.take(done).push(pair));
                    assert(decreases_to!(whole => whole->Object_0[pair.0@]));
                }
                let y = from_serde(pair.1);
                proof {
                    lemma_members_of_push(out@, (pair.0, y));
                }
                out.push((pair.0, y));
            }
            proof {
                assert(given.take(given.len() as int) =~= given);
            }
            Json::Object(out)
        },
    }
}

/// The position in `members` of the member named `name`, if there is one.
fn position_of(members: &Vec<(String, serde_json::Value)>, name: &String) -> (r: Option<usize>)
    ensures
        match r {
            Some(i) => i < members.len() && members@[i as int].0@ == name@,
            None => forall|j: int| 0 <= j < members.len() ==> members@[j].0@ != name@,
        },
{
    let mut i: usize = 0;
    while i < members.len()
        invariant
            i <= members.len(),
            forall|j: int| 0 <= j < i ==> members@[j].0@ != name@,
        decreases members.len() - i,
    {
        if members[i].0 == *name {
            return Some(i);
        }
        i += 1;
    }
    None
}

/// Whether `a` and `b` agree before position `at`, where `a` ends or has the
/// smaller byte.
spec fn parts_at(a: Seq<u8>, b: Seq<u8>, at: int) -> bool {
    &&& 0 <= at <= a.len()
    &&& at < b.len()
    &&& forall|j: int| 0 <= j < at ==> a[j] == b[j]
    &&& (at == a.len() || a[at] < b[at])
}

/// Whether `a` comes before `b` in the order of the dictionary.
spec fn bytes_before(a: Seq<u8>, b: Seq<u8>) -> bool {
    exists|at: int| parts_at(a, b, at)
}

/// Whether the name `a` comes before the name `b`, by their bytes.
spec fn name_before(a: Seq<char>, b: Seq<char>) -> bool {
    bytes_before(vstd::utf8::encode_utf8(a), vstd::utf8::encode_utf8(b))
}

/// Nothing comes before itself.
proof fn lemma_before_differs(a: Seq<u8>, b: Seq<u8>)
    requires
        bytes_before(a, b),
    ensures
        a != b,
{
}

/// What comes before something that comes before a third comes before the
/// third.
proof fn lemma_before_chains(a: Seq<u8>, b: Seq<u8>, c: Seq<u8>)
    requires
        bytes_before(a, b),
        bytes_before(b, c),
    ensures
        bytes_before(a, c),
{
    let i = choose|at: int| parts_at(a, b, at);
    let j = choose|at: int| parts_at(b, c, at);
    if i <= j {
        assert(parts_at(a, c, i));
    } else {
        assert(parts_at(a, c, j));
    }
}

/// Whether the name `a` comes before the name `b`.
fn comes_before(a: &str, b: &str) -> (r: bool)
    ensures
        r == name_before(a@, b@),
{
    let x = a.as_bytes();
    let y = b.as_bytes();
    let mut i: usize = 0;
    while i < x.len() && i < y.len()
        invariant
            i <= x.len(),
            i <= y.len(),
            x@ == vstd::utf8::encode_utf8(a@),
            y@ == vstd::utf8::encode_utf8(b@),
            forall|j: int| 0 <= j < i ==> x@[j] == y@[j],
        decreases x.len() - i,
    {
        if x[i] != y[i] {
            proof {
                if x[i as int] < y[i as int] {
                    assert(parts_at(x@, y@, i as int));
                } else {
                    assert forall|at: int| !parts_at(x@, y@, at) by {}
                }
            }
            return x[i] < y[i];
        }
        i += 1;
    }
    proof {
        if x.len() < y.len() {
            assert(parts_at(x@, y@, i as int));
        } else {
            assert forall|at: int| !parts_at(x@, y@, at) by {}
        }
    }
    x.len() < y.len()
}

/// Whether each name of `members` comes before the names after it.
spec fn ascending_names(members: Seq<(String, serde_json::Value)>) -> bool {
    forall|i: int, j: int|
        0 <= i < j < members.len() ==> name_before(
            (#[trigger] members[i]).0@,
            (#[trigger] members[j]).0@,
        )
}

/// Ascending names differ from one another.
proof fn lemma_ascending_differ(members: Seq<(String, serde_json::Value)>)
    requires
        ascending_names(members),
    ensures
        distinct_names(members),
{
    assert forall|a: int, b: int|
        0 <= a < members.len() && 0 <= b < members.len() && a != b implies members[a].0@
        != members[b].0@ by {
        if a < b {
            lemma_before_differs(
                vstd::utf8::encode_utf8(members[a].0@),
                vstd::utf8::encode_utf8(members[b].0@),
            );
        } else {
            lemma_before_differs(
                vstd::utf8::encode_utf8(members[b].0@),
                vstd::utf8::encode_utf8(members[a].0@),
            );
        }
    }
}

/// A member whose name comes after the last name keeps the names ascending.
proof fn lemma_ascending_push(members: Seq<(String, serde_json::Value)>, member: (
    String,
    serde_json::Value,
))
    requires
        ascending_names(members),
        members.len() > 0 ==> name_before(members.last().0@, member.0@),
    ensures
        ascending_names(members.push(member)),
{
    let grown = members.push(member);
    assert forall|a: int, b: int| 0 <= a < b < grown.len() implies name_before(
        (#[trigger] grown[a]).0@,
        (#[trigger] grown[b]).0@,
    ) by {
        if b == members.len() && a < members.len() - 1 {
            lemma_before_chains(
                vstd::utf8::encode_utf8(members[a].0@),
                vstd::utf8::encode_utf8(members.last().0@),
                vstd::utf8::encode_utf8(member.0@),
            );
        }
    }
}

/// A member put in the place of one with its name keeps the names ascending.
proof fn lemma_ascending_update(
    members: Seq<(String, serde_json::Value)>,
    i: int,
    member: (String, serde_json::Value),
)
    requires
        ascending_names(members),
        0 <= i < members.len(),
        member.0@ == members[i].0@,
    ensures
        ascending_names(members.update(i, member)),
{
    let changed = members.update(i, member);
    assert forall|a: int, b: int| 0 <= a < b < changed.len() implies name_before(
        (#[trigger] changed[a]).0@,
        (#[trigger] changed[b]).0@,
    ) by {
        assert(name_before(members[a].0@, members[b].0@));
    }
}

/// The `serde_json::Value` that holds what `v` holds.
pub fn to_serde(v: &Json) -> (r: serde_json::Value)
    ensures
        tree(r) == v@,
    decreases v,
{
    match v {
        Json::Null => pack(Node::Null),
        Json::Bool(b) => pack(Node::Bool(*b)),
        Json::Number(n) => pack(Node::Number(n.clone())),
        Json::String(s) => pack(Node::String(s.clone())),
        Json::Array(items) => {
            let mut out: Vec<serde_json::Value> = Vec::new();
            let mut i: usize = 0;
            while i < items.len()
                invariant
                    i <= items.len(),
                    out.len() == i,
                    forall|j: int| 0 <= j < i ==> tree(#[trigger] out@[j]) == items@[j]@,
                    decreases_to!(v => items),
                decreases items.len() - i,
            {
                let x = to_serde(&items[i]);
                out.push(x);
                i += 1;
            }
            proof {
                lemma_models_of(items@);
                assert(trees(out@) =~= models_of(items@));
            }
            pack(Node::Array(out))
        },
        Json::Object(members) => {
            // Each member is written under its name, over an earlier one of
            // that name if there is one. While the names come in ascending
            // order, as they do in what was read from text, a name that comes
            // after the last one is new and no search is needed.
            let mut out: Vec<(String, serde_json::Value)> = Vec::new();
            let mut ascending = true;
            let mut i: usize = 0;
            while i < members.len()
                invariant
                    i <= members.len(),
                    distinct_names(out@),
                    ascending ==> ascending_names(out@),
                    entries(out@) == members_of(members@.take(i as int)),
                    decreases_to!(v => members),
                decreases members.len() - i,
            {
                let name = members[i].0.clone();
                let x = to_serde(&members[i].1);
                proof {
                    lemma_members_of_push(members@.take(i as int), members@[i as int]);
                    assert(members@.take(i + 1) =~= members@.take(i as int).push(
                        members@[i as int],
                    ));
                }
                let after_all = ascending && (out.len() == 0 || comes_before(
                    out[out.len() - 1].0.as_str(),
                    name.as_str(),
                ));
                if after_all {
                    proof {
                        lemma_ascending_push(out@, (name, x));
                        lemma_ascending_differ(out@.push((name, x)));
                        lemma_entries_push(out@, (name, x));
                    }
                    out.push((name, x));
                } else {
                    match position_of(&out, &name) {
                        Some(at) => {
                            proof {
                                lemma_entries_update(out@, at as int, (name, x));
                                if ascending {
                                    lemma_ascending_update(out@, at as int, (name, x));
                                }
                            }
                            out.set(at, (name, x));
                        },
                        None => {
                            proof {
                                lemma_entries_push(out@, (name, x));
                            }
                            out.push((name, x));
                            ascending = false;
                        },
                    }
                }
                i += 1;
            }
            proof {
                assert(members@.take(members.len() as int) =~= members@);
            }
            pack(Node::Object(out))
        },
    }
}

/// Reads JSON text. Fails, with `serde_json`'s message, exactly where
/// `serde_json` does.
pub fn parse(text: &str) -> (r: Result<Json, String>)
    ensures
        match r {
            Ok(v) => parsed(text@) == Ok::<JsonModel, Seq<char>>(v@),
            Err(reason) => parsed(text@) == Err::<JsonModel, Seq<char>>(reason@),
        },
{
    match serde_parse(text) {
        Ok(v) => Ok(from_serde(v)),
        Err(reason) => Err(reason),
    }
}

/// Writes `v` as JSON text. Fails, with `serde_json`'s message, exactly where
/// `serde_json` does.
pub fn render(v: &Json) -> (r: Result<String, String>)
    ensures
        match r {
            Ok(s) => rendered(v@) == Ok::<Seq<char>, Seq<char>>(s@),
            Err(reason) => rendered(v@) == Err::<Seq<char>, Seq<char>>(reason@),
        },
{
    let raw = to_serde(v);
    serde_render(&raw)
}

} // verus!
