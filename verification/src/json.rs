//! JSON values as the export carries them, and their mathematical content.

use vstd::prelude::*;
use vstd::std_specs::cmp::PartialEqSpecImpl;

verus! {

/// What a JSON value means, apart from how it is stored.
///
/// Two stored values are the same JSON value exactly when their models are
/// equal: the order of an object's members and the sign of a floating-point
/// zero do not count.
pub enum JsonModel {
    Null,
    Bool(bool),
    Integer(int),
    Float(u64),
    Text(Seq<char>),
    List(Seq<JsonModel>),
    Object(Map<Seq<char>, JsonModel>),
}

/// A JSON value.
///
/// A floating-point number is held as the bit pattern of a finite `f64`. An
/// object is held as a list of members; where a key occurs twice the first
/// member counts.
///
/// `==` holds between two values exactly when their models are equal.
#[derive(Debug)]
pub enum JsonValue {
    Null,
    Bool(bool),
    PosInt(u64),
    NegInt(i64),
    Float(u64),
    String(String),
    Array(Vec<JsonValue>),
    Object(Vec<(String, JsonValue)>),
}

/// The bit pattern of negative zero.
pub const NEGATIVE_ZERO_BITS: u64 = 0x8000_0000_0000_0000;

/// The bit pattern that stands for both zeros.
pub open spec fn normal_bits(bits: u64) -> u64 {
    if bits == NEGATIVE_ZERO_BITS {
        0
    } else {
        bits
    }
}

/// The models of a list of values, in order.
pub open spec fn list_model(items: Seq<JsonValue>) -> Seq<JsonModel>
    decreases items,
{
    if items.len() == 0 {
        Seq::empty()
    } else {
        list_model(items.drop_last()).push(items.last().model())
    }
}

/// The map that a list of members stands for: the first member with a key
/// gives the key's value.
pub open spec fn object_model(members: Seq<(String, JsonValue)>) -> Map<Seq<char>, JsonModel>
    decreases members,
{
    if members.len() == 0 {
        Map::empty()
    } else {
        object_model(members.drop_first()).insert(members[0].0@, members[0].1.model())
    }
}

impl JsonValue {
    /// The value's mathematical content.
    pub open spec fn model(self) -> JsonModel
        decreases self,
    {
        match self {
            JsonValue::Null => JsonModel::Null,
            JsonValue::Bool(b) => JsonModel::Bool(b),
            JsonValue::PosInt(u) => JsonModel::Integer(u as int),
            JsonValue::NegInt(i) => JsonModel::Integer(i as int),
            JsonValue::Float(bits) => JsonModel::Float(normal_bits(bits)),
            JsonValue::String(s) => JsonModel::Text(s@),
            JsonValue::Array(items) => JsonModel::List(list_model(items@)),
            JsonValue::Object(members) => JsonModel::Object(object_model(members@)),
        }
    }
}


/// The place of the first member with the given key, if there is one.
pub open spec fn index_of_key(members: Seq<(String, JsonValue)>, key: Seq<char>) -> Option<int>
    decreases members,
{
    if members.len() == 0 {
        None
    } else if members[0].0@ == key {
        Some(0)
    } else {
        match index_of_key(members.drop_first(), key) {
            Some(i) => Some(i + 1),
            None => None,
        }
    }
}

/// `list_model` keeps the length and maps each item to its model.
pub proof fn lemma_list_model(items: Seq<JsonValue>)
    ensures
        list_model(items).len() == items.len(),
        forall|i: int| 0 <= i < items.len() ==> (#[trigger] list_model(items)[i]) == items[i].model(),
    decreases items.len(),
{
    if items.len() > 0 {
        lemma_list_model(items.drop_last());
        assert forall|i: int| 0 <= i < items.len() implies (#[trigger] list_model(items)[i])
            == items[i].model() by {
            if i < items.len() - 1 {
                assert(items.drop_last()[i] == items[i]);
            }
        }
    }
}

/// `index_of_key` finds the first member with the key, and that member gives
/// the key's value in `object_model`.
pub proof fn lemma_index_of_key(members: Seq<(String, JsonValue)>, key: Seq<char>)
    ensures
        index_of_key(members, key) matches Some(i) ==> 0 <= i < members.len() && members[i].0@
            == key && object_model(members).dom().contains(key) && object_model(members)[key]
            == members[i].1.model(),
        index_of_key(members, key) matches Some(i) ==> forall|j: int|
            0 <= j < i ==> (#[trigger] members[j]).0@ != key,
        index_of_key(members, key) is None ==> !object_model(members).dom().contains(key),
        index_of_key(members, key) is None ==> forall|j: int|
            0 <= j < members.len() ==> (#[trigger] members[j]).0@ != key,
    decreases members.len(),
{
    if members.len() > 0 {
        let rest = members.drop_first();
        lemma_index_of_key(rest, key);
        if members[0].0@ != key {
            assert forall|j: int| 1 <= j < members.len() implies (#[trigger] members[j]) == rest[j
                - 1] by {}
            match index_of_key(rest, key) {
                Some(i) => {
                    assert forall|j: int| 0 <= j < i + 1 implies (#[trigger] members[j]).0@
                        != key by {
                        if j > 0 {
                            assert(members[j] == rest[j - 1]);
                        }
                    }
                },
                None => {
                    assert forall|j: int| 0 <= j < members.len() implies (#[trigger] members[j]).0@
                        != key by {
                        if j > 0 {
                            assert(members[j] == rest[j - 1]);
                        }
                    }
                },
            }
        }
    }
}

/// A key is in the object exactly when some member has it.
pub proof fn lemma_object_model_dom(members: Seq<(String, JsonValue)>, key: Seq<char>)
    ensures
        object_model(members).dom().contains(key) <==> exists|i: int|
            0 <= i < members.len() && (#[trigger] members[i]).0@ == key,
{
    lemma_index_of_key(members, key);
    if let Some(i) = index_of_key(members, key) {
        assert(members[i].0@ == key);
    }
}

/// Member lists with the same keys and the same values, place by place,
/// stand for the same object.
pub proof fn lemma_object_model_pointwise(
    a: Seq<(String, JsonValue)>,
    b: Seq<(String, JsonValue)>,
)
    requires
        a.len() == b.len(),
        forall|i: int|
            0 <= i < a.len() ==> (#[trigger] a[i]).0@ == b[i].0@ && a[i].1.model()
                == b[i].1.model(),
    ensures
        object_model(a) == object_model(b),
    decreases a.len(),
{
    if a.len() > 0 {
        let ra = a.drop_first();
        let rb = b.drop_first();
        assert forall|i: int| 0 <= i < ra.len() implies (#[trigger] ra[i]).0@ == rb[i].0@
            && ra[i].1.model() == rb[i].1.model() by {
            assert(ra[i] == a[i + 1]);
            assert(rb[i] == b[i + 1]);
        }
        lemma_object_model_pointwise(ra, rb);
        assert(a[0].0@ == b[0].0@);
    }
}

/// The place of the first member of `members` with the key `key`.
pub fn find_key(members: &Vec<(String, JsonValue)>, key: &String) -> (found: Option<usize>)
    ensures
        found matches Some(i) ==> index_of_key(members@, key@) == Some(i as int),
        found is None ==> index_of_key(members@, key@) is None,
{
    let mut i: usize = 0;
    while i < members.len()
        invariant
            i <= members.len(),
            forall|j: int| 0 <= j < i ==> (#[trigger] members@[j]).0@ != key@,
        decreases members.len() - i,
    {
        if members[i].0 == *key {
            proof {
                lemma_index_of_key(members@, key@);
            }
            return Some(i);
        }
        i += 1;
    }
    proof {
        lemma_index_of_key(members@, key@);
    }
    None
}

/// Whether two lists of values hold the same JSON values in the same order.
pub fn list_eq(x: &Vec<JsonValue>, y: &Vec<JsonValue>) -> (same: bool)
    ensures
        same == (list_model(x@) == list_model(y@)),
    decreases x,
{
    proof {
        lemma_list_model(x@);
        lemma_list_model(y@);
    }
    if x.len() != y.len() {
        return false;
    }
    let mut i: usize = 0;
    while i < x.len()
        invariant
            i <= x.len(),
            x.len() == y.len(),
            forall|j: int| 0 <= j < i ==> (#[trigger] x@[j]).model() == y@[j].model(),
            list_model(x@).len() == x.len(),
            list_model(y@).len() == y.len(),
            forall|j: int| 0 <= j < x.len() ==> (#[trigger] list_model(x@)[j]) == x@[j].model(),
            forall|j: int| 0 <= j < y.len() ==> (#[trigger] list_model(y@)[j]) == y@[j].model(),
        decreases x.len() - i,
    {
        if !json_eq(&x[i], &y[i]) {
            assert(list_model(x@)[i as int] != list_model(y@)[i as int]);
            return false;
        }
        i += 1;
    }
    assert(list_model(x@) =~= list_model(y@));
    true
}

/// Whether two lists of members stand for the same object.
pub fn object_eq(x: &Vec<(String, JsonValue)>, y: &Vec<(String, JsonValue)>) -> (same: bool)
    ensures
        same == (object_model(x@) == object_model(y@)),
    decreases x,
{
    let ghost mx = object_model(x@);
    let ghost my = object_model(y@);
    let mut i: usize = 0;
    while i < x.len()
        invariant
            i <= x.len(),
            mx == object_model(x@),
            my == object_model(y@),
            forall|k: int|
                0 <= k < i ==> my.dom().contains((#[trigger] x@[k]).0@) && mx[x@[k].0@]
                    == my[x@[k].0@],
        decreases x.len() - i,
    {
        proof {
            lemma_index_of_key(x@, x@[i as int].0@);
            lemma_index_of_key(y@, x@[i as int].0@);
        }
        let first = find_key(x, &x[i].0);
        let other = find_key(y, &x[i].0);
        match (first, other) {
            (Some(p), Some(q)) => {
                if !json_eq(&x[p].1, &y[q].1) {
                    assert(mx[x@[i as int].0@] != my[x@[i as int].0@]);
                    return false;
                }
            },
            _ => {
                assert(mx.dom().contains(x@[i as int].0@));
                assert(!my.dom().contains(x@[i as int].0@));
                return false;
            },
        }
        i += 1;
    }
    let mut j: usize = 0;
    while j < y.len()
        invariant
            j <= y.len(),
            mx == object_model(x@),
            my == object_model(y@),
            forall|k: int| 0 <= k < j ==> mx.dom().contains((#[trigger] y@[k]).0@),
        decreases y.len() - j,
    {
        proof {
            lemma_index_of_key(x@, y@[j as int].0@);
            lemma_index_of_key(y@, y@[j as int].0@);
        }
        if find_key(x, &y[j].0).is_none() {
            assert(my.dom().contains(y@[j as int].0@));
            assert(!mx.dom().contains(y@[j as int].0@));
            return false;
        }
        j += 1;
    }
    proof {
        assert forall|key: Seq<char>| mx.dom().contains(key) == my.dom().contains(key) by {
            lemma_index_of_key(x@, key);
            lemma_index_of_key(y@, key);
        }
        assert forall|key: Seq<char>| #[trigger] mx.dom().contains(key) implies mx[key]
            == my[key] by {
            lemma_index_of_key(x@, key);
        }
        assert(mx =~= my);
    }
    true
}

/// Whether two values are the same JSON value.
pub fn json_eq(a: &JsonValue, b: &JsonValue) -> (same: bool)
    ensures
        same == (a.model() == b.model()),
    decreases a,
{
    match a {
        JsonValue::Null => match b {
            JsonValue::Null => true,
            _ => false,
        },
        JsonValue::Bool(x) => match b {
            JsonValue::Bool(y) => *x == *y,
            _ => false,
        },
        JsonValue::PosInt(x) => match b {
            JsonValue::PosInt(y) => *x == *y,
            JsonValue::NegInt(y) => *y >= 0 && *x == *y as u64,
            _ => false,
        },
        JsonValue::NegInt(x) => match b {
            JsonValue::PosInt(y) => *x >= 0 && *x as u64 == *y,
            JsonValue::NegInt(y) => *x == *y,
            _ => false,
        },
        JsonValue::Float(x) => match b {
            JsonValue::Float(y) => normalize_bits(*x) == normalize_bits(*y),
            _ => false,
        },
        JsonValue::String(x) => match b {
            JsonValue::String(y) => *x == *y,
            _ => false,
        },
        JsonValue::Array(x) => match b {
            JsonValue::Array(y) => list_eq(x, y),
            _ => false,
        },
        JsonValue::Object(x) => match b {
            JsonValue::Object(y) => object_eq(x, y),
            _ => false,
        },
    }
}

/// The bit pattern that stands for both zeros, computed.
pub fn normalize_bits(bits: u64) -> (normal: u64)
    ensures
        normal == normal_bits(bits),
{
    if bits == NEGATIVE_ZERO_BITS {
        0
    } else {
        bits
    }
}

/// A copy of a list of values.
pub fn copy_list(x: &Vec<JsonValue>) -> (copy: Vec<JsonValue>)
    ensures
        list_model(copy@) == list_model(x@),
        copy@.len() == x@.len(),
    decreases x,
{
    let mut out: Vec<JsonValue> = Vec::new();
    let mut i: usize = 0;
    while i < x.len()
        invariant
            i <= x.len(),
            out@.len() == i,
            forall|j: int| 0 <= j < i ==> (#[trigger] out@[j]).model() == x@[j].model(),
        decreases x.len() - i,
    {
        let item = copy_json(&x[i]);
        out.push(item);
        i += 1;
    }
    proof {
        lemma_list_model(x@);
        lemma_list_model(out@);
        assert(list_model(out@) =~= list_model(x@));
    }
    out
}

/// A copy of a list of members: the same keys with the same values, in the
/// same order.
pub fn copy_members(x: &Vec<(String, JsonValue)>) -> (copy: Vec<(String, JsonValue)>)
    ensures
        object_model(copy@) == object_model(x@),
        copy@.len() == x@.len(),
        forall|i: int|
            0 <= i < x@.len() ==> (#[trigger] copy@[i]).0@ == x@[i].0@ && copy@[i].1.model()
                == x@[i].1.model(),
    decreases x,
{
    let mut out: Vec<(String, JsonValue)> = Vec::new();
    let mut i: usize = 0;
    while i < x.len()
        invariant
            i <= x.len(),
            out@.len() == i,
            forall|j: int|
                0 <= j < i ==> (#[trigger] out@[j]).0@ == x@[j].0@ && out@[j].1.model()
                    == x@[j].1.model(),
        decreases x.len() - i,
    {
        let key = x[i].0.clone();
        let value = copy_json(&x[i].1);
        out.push((key, value));
        i += 1;
    }
    proof {
        lemma_object_model_pointwise(out@, x@);
    }
    out
}

/// A copy of a value.
pub fn copy_json(a: &JsonValue) -> (copy: JsonValue)
    ensures
        copy.model() == a.model(),
    decreases a,
{
    match a {
        JsonValue::Null => JsonValue::Null,
        JsonValue::Bool(x) => JsonValue::Bool(*x),
        JsonValue::PosInt(x) => JsonValue::PosInt(*x),
        JsonValue::NegInt(x) => JsonValue::NegInt(*x),
        JsonValue::Float(x) => JsonValue::Float(*x),
        JsonValue::String(x) => JsonValue::String(x.clone()),
        JsonValue::Array(x) => JsonValue::Array(copy_list(x)),
        JsonValue::Object(x) => JsonValue::Object(copy_members(x)),
    }
}

impl Clone for JsonValue {
    fn clone(&self) -> (copy: Self)
        ensures
            copy.model() == self.model(),
    {
        copy_json(self)
    }
}

impl PartialEq for JsonValue {
    fn eq(&self, other: &Self) -> (same: bool) {
        json_eq(self, other)
    }
}

impl PartialEqSpecImpl for JsonValue {
    open spec fn obeys_eq_spec() -> bool {
        true
    }

    open spec fn eq_spec(&self, other: &Self) -> bool {
        self.model() == other.model()
    }
}

} // verus!
