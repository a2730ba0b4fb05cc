//! JSON values as the library holds them, with their mathematical model.
//!
//! A [`Json`] is an owned tree. Its view, a [`JsonModel`], is what every
//! contract in this crate speaks of: strings are sequences of characters,
//! arrays are sequences, and an object is a finite map from member names to
//! values, so the order in which members were written plays no role.

use vstd::prelude::*;

verus! {

/// What a number is, mathematically: an integer, or a floating-point number
/// identified by its IEEE-754 bit pattern.
pub ghost enum NumberModel {
    Int(int),
    Real(u64),
}

/// The mathematical model of a JSON value.
pub ghost enum JsonModel {
    Null,
    Bool(bool),
    Number(NumberModel),
    String(Seq<char>),
    Array(Seq<JsonModel>),
    Object(Map<Seq<char>, JsonModel>),
}

/// `serde_json::Value`, taken as it is. What one holds is known only through
/// [`tree`].
#[verifier::external_type_specification]
#[verifier::external_body]
pub struct ExSerdeValue(serde_json::Value);

/// What a `serde_json::Value` holds, as a tree. A number is the integer that
/// it stores, or the bits of the finite float that it stores. An object is a
/// map: the crate is built with `serde_json`'s sorted map, which keeps one
/// value for each name.
pub uninterp spec fn tree(v: serde_json::Value) -> JsonModel;

/// `Clone::clone` of `serde_json::Value`: the copy holds what the value
/// holds.
#[verifier::external_body]
fn clone_value(v: &serde_json::Value) -> (r: serde_json::Value)
    ensures
        tree(r) == tree(*v),
{
    v.clone()
}

/// A number that is not an integer, kept as the `serde_json` value that the
/// parser made of it, so that it is written back digit for digit.
#[derive(Debug, PartialEq)]
pub struct Real {
    pub(crate) repr: serde_json::Value,
}

impl Real {
    #[verifier::type_invariant]
    pub closed spec fn holds_real(self) -> bool {
        tree(self.repr) matches JsonModel::Number(NumberModel::Real(_))
    }

    /// The bits of the float.
    pub closed spec fn bits(self) -> u64 {
        tree(self.repr)->Number_0->Real_0
    }
}

impl Clone for Real {
    fn clone(&self) -> (r: Self)
        ensures
            r.bits() == self.bits(),
    {
        proof {
            use_type_invariant(self);
        }
        Real { repr: clone_value(&self.repr) }
    }
}

/// A JSON number: a non-negative integer, a negative integer, or a real.
///
/// `NegInt` may hold a non-negative value; it then stands for the same number
/// as the `PosInt` of that value.
#[derive(Debug, PartialEq)]
pub enum JsonNumber {
    PosInt(u64),
    NegInt(i64),
    Real(Real),
}

impl View for JsonNumber {
    type V = NumberModel;

    open spec fn view(&self) -> NumberModel {
        match *self {
            JsonNumber::PosInt(u) => NumberModel::Int(u as int),
            JsonNumber::NegInt(i) => NumberModel::Int(i as int),
            JsonNumber::Real(x) => NumberModel::Real(x.bits()),
        }
    }
}

impl Clone for JsonNumber {
    fn clone(&self) -> (r: Self)
        ensures
            r@ == self@,
    {
        match self {
            JsonNumber::PosInt(u) => JsonNumber::PosInt(*u),
            JsonNumber::NegInt(i) => JsonNumber::NegInt(*i),
            JsonNumber::Real(x) => JsonNumber::Real(x.clone()),
        }
    }
}

/// A JSON value.
///
/// An object is a list of members. Where a name occurs more than once, the
/// last member of that name is the one the object has.
#[derive(Debug, PartialEq)]
pub enum Json {
    Null,
    Bool(bool),
    Number(JsonNumber),
    String(String),
    Array(Vec<Json>),
    Object(Vec<(String, Json)>),
}

/// The model of one value.
pub open spec fn model_of(v: Json) -> JsonModel
    decreases v,
{
    match v {
        Json::Null => JsonModel::Null,
        Json::Bool(b) => JsonModel::Bool(b),
        Json::Number(n) => JsonModel::Number(n@),
        Json::String(s) => JsonModel::String(s@),
        Json::Array(items) => JsonModel::Array(models_of(items@)),
        Json::Object(members) => JsonModel::Object(members_of(members@)),
    }
}

/// The models of a sequence of values, element by element.
pub open spec fn models_of(items: Seq<Json>) -> Seq<JsonModel>
    decreases items,
{
    if items.len() == 0 {
        Seq::empty()
    } else {
        models_of(items.drop_last()).push(model_of(items.last()))
    }
}

/// The map that a list of members stands for: each member in turn is
/// written into the map, so a later member replaces an earlier one of the
/// same name.
pub open spec fn members_of(members: Seq<(String, Json)>) -> Map<Seq<char>, JsonModel>
    decreases members,
{
    if members.len() == 0 {
        Map::empty()
    } else {
        members_of(members.drop_last()).insert(members.last().0@, model_of(members.last().1))
    }
}

impl View for Json {
    type V = JsonModel;

    open spec fn view(&self) -> JsonModel {
        model_of(*self)
    }
}

/// `models_of` keeps the length and maps each element to its model.
pub proof fn lemma_models_of(items: Seq<Json>)
    ensures
        models_of(items).len() == items.len(),
        forall|i: int| 0 <= i < items.len() ==> #[trigger] models_of(items)[i] == items[i]@,
    decreases items.len(),
{
    if items.len() > 0 {
        lemma_models_of(items.drop_last());
    }
}

/// Two sequences of values whose elements have the same models have the same
/// models as sequences.
pub proof fn lemma_models_of_pointwise(a: Seq<Json>, b: Seq<Json>)
    requires
        a.len() == b.len(),
        forall|i: int| 0 <= i < a.len() ==> #[trigger] a[i]@ == b[i]@,
    ensures
        models_of(a) == models_of(b),
{
    lemma_models_of(a);
    lemma_models_of(b);
}

/// Writing one more member at the end writes it into the map.
pub proof fn lemma_members_of_push(members: Seq<(String, Json)>, member: (String, Json))
    ensures
        members_of(members.push(member)) == members_of(members).insert(member.0@, member.1@),
{
    assert(members.push(member).drop_last() =~= members);
}

/// Shorthand for `Json::Null`.
pub fn null() -> (r: Json)
    ensures
        r == Json::Null,
{
    Json::Null
}

/// Shorthand for an empty array.
pub fn empty_arr() -> (r: Json)
    ensures
        r@ == JsonModel::Array(Seq::empty()),
{
    Json::Array(Vec::new())
}

/// Shorthand for an empty object.
pub fn empty_obj() -> (r: Json)
    ensures
        r@ == JsonModel::Object(Map::empty()),
{
    Json::Object(Vec::new())
}

/// Shorthand for turning an optional value into a value: `null` where there
/// is none.
pub fn opt_into_json(opt: Option<Json>) -> (r: Json)
    ensures
        r == (match opt {
            Some(val) => val,
            None => Json::Null,
        }),
{
    match opt {
        Some(val) => val,
        None => Json::Null,
    }
}

/// Convert a possible-null result into an Option.
pub fn opt_result(result: Json) -> (r: Option<Json>)
    ensures
        r == (if result@ is Null {
            None
        } else {
            Some(result)
        }),
{
    if result.is_null() {
        None
    } else {
        Some(result)
    }
}

/// The elements of `v` in the opposite order.
pub(crate) fn reversed<T>(v: Vec<T>) -> (r: Vec<T>)
    ensures
        r@ == v@.reverse(),
{
    let mut rest = v;
    let mut out: Vec<T> = Vec::new();
    let ghost whole = rest@;
    while rest.len() > 0
        invariant
            rest@.len() + out@.len() == whole.len(),
            rest@ == whole.take(rest@.len() as int),
            forall|j: int| 0 <= j < out@.len() ==> out@[j] == whole[whole.len() - 1 - j],
        decreases rest.len(),
    {
        let x = rest.pop().unwrap();
        out.push(x);
    }
    out
}

impl Json {
    /// Whether the value is `null`.
    pub fn is_null(&self) -> (r: bool)
        ensures
            r == (self@ is Null),
    {
        match self {
            Json::Null => true,
            _ => false,
        }
    }

    /// The boolean, if the value is one.
    pub fn as_bool(&self) -> (r: Option<bool>)
        ensures
            r == (match self@ {
                JsonModel::Bool(b) => Some(b),
                _ => None,
            }),
    {
        match self {
            Json::Bool(b) => Some(*b),
            _ => None,
        }
    }

    /// The value as a `u64`, if it is an integer in that range.
    pub fn as_u64(&self) -> (r: Option<u64>)
        ensures
            r == (match self@ {
                JsonModel::Number(NumberModel::Int(k)) if 0 <= k <= u64::MAX => Some(k as u64),
                _ => None,
            }),
    {
        match self {
            Json::Number(JsonNumber::PosInt(u)) => Some(*u),
            Json::Number(JsonNumber::NegInt(i)) => if *i >= 0 {
                Some(*i as u64)
            } else {
                None
            },
            _ => None,
        }
    }

    /// The value as an `i64`, if it is an integer in that range.
    pub fn as_i64(&self) -> (r: Option<i64>)
        ensures
            r == (match self@ {
                JsonModel::Number(NumberModel::Int(k)) if i64::MIN <= k <= i64::MAX => Some(
                    k as i64,
                ),
                _ => None,
            }),
    {
        match self {
            Json::Number(JsonNumber::PosInt(u)) => if *u <= i64::MAX as u64 {
                Some(*u as i64)
            } else {
                None
            },
            Json::Number(JsonNumber::NegInt(i)) => Some(*i),
            _ => None,
        }
    }

    /// The string, if the value is one.
    pub fn as_str(&self) -> (r: Option<&str>)
        ensures
            match r {
                Some(s) => self@ == JsonModel::String(s@),
                None => !(self@ is String),
            },
    {
        match self {
            Json::String(s) => Some(s.as_str()),
            _ => None,
        }
    }

    /// The elements, if the value is an array.
    pub fn as_array(&self) -> (r: Option<&Vec<Json>>)
        ensures
            match r {
                Some(items) => *self == Json::Array(*items),
                None => !(self@ is Array),
            },
    {
        match self {
            Json::Array(items) => Some(items),
            _ => None,
        }
    }

    /// The members, if the value is an object.
    pub fn as_object(&self) -> (r: Option<&Vec<(String, Json)>>)
        ensures
            match r {
                Some(members) => *self == Json::Object(*members),
                None => !(self@ is Object),
            },
    {
        match self {
            Json::Object(members) => Some(members),
            _ => None,
        }
    }
}

impl Clone for Json {
    fn clone(&self) -> (r: Self)
        ensures
            r@ == self@,
        decreases self,
    {
        match self {
            Json::Null => Json::Null,
            Json::Bool(b) => Json::Bool(*b),
            Json::Number(n) => Json::Number(n.clone()),
            Json::String(s) => Json::String(s.clone()),
            Json::Array(items) => {
                let mut out: Vec<Json> = Vec::new();
                let mut i: usize = 0;
                while i < items.len()
                    invariant
                        i <= items.len(),
                        out.len() == i,
                        forall|j: int| 0 <= j < i ==> #[trigger] out@[j]@ == items@[j]@,
                        decreases_to!(self => items),
                    decreases items.len() - i,
                {
                    let c = items[i].clone();
                    out.push(c);
                    i += 1;
                }
                proof {
                    lemma_models_of_pointwise(out@, items@);
                }
                Json::Array(out)
            },
            Json::Object(members) => {
                let mut out: Vec<(String, Json)> = Vec::new();
                let mut i: usize = 0;
                while i < members.len()
                    invariant
                        i <= members.len(),
                        out.len() == i,
                        members_of(out@) == members_of(members@.take(i as int)),
                        decreases_to!(self => members),
                    decreases members.len() - i,
                {
                    let k = members[i].0.clone();
                    let c = members[i].1.clone();
                    proof {
                        lemma_members_of_push(out@, (k, c));
                        lemma_members_of_push(members@.take(i as int), members@[i as int]);
                        assert(members@.take(i + 1) =~= members@.take(i as int).push(
                            members@[i as int],
                        ));
                    }
                    out.push((k, c));
                    i += 1;
                }
                proof {
                    assert(members@.take(members.len() as int) =~= members@);
                }
                Json::Object(out)
            },
        }
    }
}

/// The member of `members` named `key`: the last one of that name.
pub fn member<'a>(members: &'a Vec<(String, Json)>, key: &str) -> (r: Option<&'a Json>)
    ensures
        match r {
            Some(v) => members_of(members@).contains_key(key@) && members_of(members@)[key@]
                == v@,
            None => !members_of(members@).contains_key(key@),
        },
{
    let name = key.to_owned();
    let mut found: Option<&'a Json> = None;
    let mut i: usize = 0;
    while i < members.len()
        invariant
            i <= members.len(),
            name@ == key@,
            match found {
                Some(v) => members_of(members@.take(i as int)).contains_key(key@) && members_of(
                    members@.take(i as int),
                )[key@] == v@,
                None => !members_of(members@.take(i as int)).contains_key(key@),
            },
        decreases members.len() - i,
    {
        proof {
            lemma_members_of_push(members@.take(i as int), members@[i as int]);
            assert(members@.take(i + 1) =~= members@.take(i as int).push(members@[i as int]));
        }
        if members[i].0 == name {
            found = Some(&members[i].1);
        }
        i += 1;
    }
    proof {
        assert(members@.take(members.len() as int) =~= members@);
    }
    found
}

/// Whether a member has another name than `key`.
pub open spec fn named_otherwise(key: Seq<char>) -> spec_fn((String, Json)) -> bool {
    |m: (String, Json)| m.0@ != key
}

/// Takes the members named `key` out of `members`. Returns what is left, in
/// the order it had, and the value that `key` had, if it had one.
pub fn without_member(members: Vec<(String, Json)>, key: &str) -> (r: (
    Vec<(String, Json)>,
    Option<Json>,
))
    ensures
        r.0@ == members@.filter(named_otherwise(key@)),
        members_of(r.0@) == members_of(members@).remove(key@),
        match r.1 {
            Some(v) => members_of(members@).contains_key(key@) && members_of(members@)[key@]
                == v@,
            None => !members_of(members@).contains_key(key@),
        },
{
    let name = key.to_owned();
    let ghost whole = members@;
    let mut rest = reversed(members);
    let mut kept: Vec<(String, Json)> = Vec::new();
    let mut found: Option<Json> = None;
    let ghost mut done: int = 0;
    proof {
        reveal(Seq::filter);
    }
    while rest.len() > 0
        invariant
            0 <= done <= whole.len(),
            rest@.len() == whole.len() - done,
            forall|j: int| 0 <= j < rest@.len() ==> rest@[j] == whole[whole.len() - 1 - j],
            name@ == key@,
            kept@ == whole.take(done).filter(named_otherwise(key@)),
            members_of(kept@) == members_of(whole.take(done)).remove(key@),
            match found {
                Some(v) => members_of(whole.take(done)).contains_key(key@) && members_of(
                    whole.take(done),
                )[key@] == v@,
                None => !members_of(whole.take(done)).contains_key(key@),
            },
        decreases rest.len(),
    {
        let pair = rest.pop().unwrap();
        proof {
            lemma_members_of_push(whole.take(done), pair);
            assert(whole.take(done + 1) =~= whole.take(done).push(pair));
            lemma_members_of_push(kept@, pair);
            whole.take(done).lemma_filter_push(pair, named_otherwise(key@));
        }
        if pair.0 == name {
            proof {
                assert(members_of(whole.take(done + 1)).remove(key@) =~= members_of(
                    whole.take(done),
                ).remove(key@));
            }
            found = Some(pair.1);
        } else {
            proof {
                assert(members_of(whole.take(done + 1)).remove(key@) =~= members_of(
                    whole.take(done),
                ).remove(key@).insert(pair.0@, pair.1@));
            }
            kept.push(pair);
        }
        proof {
            done = done + 1;
        }
    }
    proof {
        assert(whole.take(whole.len() as int) =~= whole);
    }
    (kept, found)
}

/// The member `name` of an object, where a missing member counts as `null`.
pub open spec fn field(members: Map<Seq<char>, JsonModel>, name: Seq<char>) -> JsonModel {
    if members.contains_key(name) {
        members[name]
    } else {
        JsonModel::Null
    }
}

/// The `u64` that `v` is, if it is an integer in that range.
pub open spec fn u64_of(v: JsonModel) -> Option<u64> {
    match v {
        JsonModel::Number(NumberModel::Int(k)) if 0 <= k <= u64::MAX => Some(k as u64),
        _ => None,
    }
}

/// The `i64` that `v` is, if it is an integer in that range.
pub open spec fn i64_of(v: JsonModel) -> Option<i64> {
    match v {
        JsonModel::Number(NumberModel::Int(k)) if i64::MIN <= k <= i64::MAX => Some(k as i64),
        _ => None,
    }
}

/// The `u32` that `v` is, if it is an integer in that range.
pub open spec fn u32_of(v: JsonModel) -> Option<u32> {
    match v {
        JsonModel::Number(NumberModel::Int(k)) if 0 <= k <= u32::MAX => Some(k as u32),
        _ => None,
    }
}

/// The `u8` that `v` is, if it is an integer in that range.
pub open spec fn u8_of(v: JsonModel) -> Option<u8> {
    match v {
        JsonModel::Number(NumberModel::Int(k)) if 0 <= k <= u8::MAX => Some(k as u8),
        _ => None,
    }
}

/// The member `name` of `members`, or `None` if it is missing or `null`.
pub fn present<'a>(members: &'a Vec<(String, Json)>, name: &str) -> (r: Option<&'a Json>)
    ensures
        match r {
            Some(v) => v@ == field(members_of(members@), name@) && !(v@ is Null),
            None => field(members_of(members@), name@) is Null,
        },
{
    match member(members, name) {
        Some(v) => if v.is_null() {
            None
        } else {
            Some(v)
        },
        None => None,
    }
}

/// Whether a later member has the name of the member at `at`, so that the
/// object has the later one's value under that name.
pub open spec fn is_shadowed(members: Seq<(String, Json)>, at: int) -> bool {
    exists|j: int| at < j < members.len() && #[trigger] members[j].0@ == members[at].0@
}

/// A member that no later one shadows is what the object has under its
/// name.
pub proof fn lemma_unshadowed_member(members: Seq<(String, Json)>, at: int)
    requires
        0 <= at < members.len(),
        !is_shadowed(members, at),
    ensures
        members_of(members).contains_key(members[at].0@),
        members_of(members)[members[at].0@] == members[at].1@,
    decreases members.len(),
{
    if at < members.len() - 1 {
        let front = members.drop_last();
        assert(!is_shadowed(front, at)) by {
            if is_shadowed(front, at) {
                let j = choose|j: int| at < j < front.len() && #[trigger] front[j].0@ == front[at].0@;
                assert(members[j].0@ == members[at].0@);
            }
        }
        assert(members[members.len() - 1].0@ != members[at].0@);
        lemma_unshadowed_member(front, at);
    }
}

/// Each name that the object has is the name of a member that no later one
/// shadows.
pub proof fn lemma_member_of_name(members: Seq<(String, Json)>, name: Seq<char>) -> (at: int)
    requires
        members_of(members).contains_key(name),
    ensures
        0 <= at < members.len(),
        members[at].0@ == name,
        !is_shadowed(members, at),
    decreases members.len(),
{
    if members.last().0@ == name {
        members.len() - 1
    } else {
        let front = members.drop_last();
        let at = lemma_member_of_name(front, name);
        assert(!is_shadowed(members, at)) by {
            if is_shadowed(members, at) {
                let j = choose|j: int|
                    at < j < members.len() && #[trigger] members[j].0@ == members[at].0@;
                if j < front.len() {
                    assert(front[j].0@ == front[at].0@);
                }
            }
        }
        at
    }
}

/// Whether a later member has the name of the member at `at`.
pub fn shadowed(members: &Vec<(String, Json)>, at: usize) -> (r: bool)
    requires
        at < members.len(),
    ensures
        r == is_shadowed(members@, at as int),
{
    let mut j: usize = at + 1;
    while j < members.len()
        invariant
            at < j <= members.len(),
            forall|i: int| at < i < j ==> members@[i].0@ != members@[at as int].0@,
        decreases members.len() - j,
    {
        if members[j].0 == members[at].0 {
            return true;
        }
        j += 1;
    }
    false
}

} // verus!
