//! JSON documents as plain trees.
use crate::text::eq_str;
use vstd::prelude::*;

verus! {

// ---------------------------------------------------------------------------
// The tree
// ---------------------------------------------------------------------------

/// A JSON number: its text, and its value where it is an integer that fits in 64 bits.
#[derive(Debug)]
pub struct JsonNumber {
    pub text: String,
    pub whole: Option<i64>,
}

/// A JSON document. Of two members of an object with one name, the later one counts.
#[derive(Debug)]
pub enum Json {
    Null,
    Bool(bool),
    Number(JsonNumber),
    Str(String),
    Array(Vec<Json>),
    Object(Vec<(String, Json)>),
}

/// What a JSON document says.
pub enum JsonView {
    Null,
    Bool(bool),
    Number(Seq<char>, Option<i64>),
    Str(Seq<char>),
    Array(Seq<JsonView>),
    Object(Map<Seq<char>, JsonView>),
}

/// What the members of an object say, the later ones over the earlier ones.
pub open spec fn members(list: Seq<(String, Json)>) -> Map<Seq<char>, JsonView>
    decreases list,
{
    if list.len() == 0 {
        Map::empty()
    } else {
        members(list.drop_last()).insert(list.last().0@, meaning(list.last().1))
    }
}

/// What the elements of an array say.
pub open spec fn elements(list: Seq<Json>) -> Seq<JsonView>
    decreases list,
{
    if list.len() == 0 {
        Seq::empty()
    } else {
        elements(list.drop_last()).push(meaning(list.last()))
    }
}

/// What `json` says.
pub open spec fn meaning(json: Json) -> JsonView
    decreases json,
{
    match json {
        Json::Null => JsonView::Null,
        Json::Bool(b) => JsonView::Bool(b),
        Json::Number(n) => JsonView::Number(n.text@, n.whole),
        Json::Str(s) => JsonView::Str(s@),
        Json::Array(list) => JsonView::Array(elements(list@)),
        Json::Object(list) => JsonView::Object(members(list@)),
    }
}

/// The text by which a number is compared: zero with a sign is zero.
pub open spec fn compared_text(text: Seq<char>) -> Seq<char> {
    if text == "-0.0"@ {
        "0.0"@
    } else {
        text
    }
}

/// The members of an object as they are compared.
pub open spec fn compared_members(list: Seq<(String, Json)>) -> Map<Seq<char>, JsonView>
    decreases list,
{
    if list.len() == 0 {
        Map::empty()
    } else {
        compared_members(list.drop_last()).insert(list.last().0@, compared(list.last().1))
    }
}

/// The elements of an array as they are compared.
pub open spec fn compared_elements(list: Seq<Json>) -> Seq<JsonView>
    decreases list,
{
    if list.len() == 0 {
        Seq::empty()
    } else {
        compared_elements(list.drop_last()).push(compared(list.last()))
    }
}

/// What `json` says, as it is compared with another document: numbers go by their values.
pub open spec fn compared(json: Json) -> JsonView
    decreases json,
{
    match json {
        Json::Null => JsonView::Null,
        Json::Bool(b) => JsonView::Bool(b),
        Json::Number(n) => JsonView::Number(compared_text(n.text@), n.whole),
        Json::Str(s) => JsonView::Str(s@),
        Json::Array(list) => JsonView::Array(compared_elements(list@)),
        Json::Object(list) => JsonView::Object(compared_members(list@)),
    }
}

impl View for Json {
    type V = JsonView;

    open spec fn view(&self) -> JsonView {
        meaning(*self)
    }
}

// ---------------------------------------------------------------------------
// Reading
// ---------------------------------------------------------------------------

/// The member `key` of an object; nothing else has members.
pub open spec fn field(json: JsonView, key: Seq<char>) -> Option<JsonView> {
    match json {
        JsonView::Object(m) => if m.contains_key(key) {
            Some(m[key])
        } else {
            None
        },
        _ => None,
    }
}

/// The member `key` of what is there.
pub open spec fn field_of(json: Option<JsonView>, key: Seq<char>) -> Option<JsonView> {
    match json {
        Some(j) => field(j, key),
        None => None,
    }
}

/// The text of a string.
pub open spec fn text_of(json: Option<JsonView>) -> Option<Seq<char>> {
    match json {
        Some(JsonView::Str(s)) => Some(s),
        _ => None,
    }
}

/// The value of an integer that fits in 64 bits.
pub open spec fn whole_of(json: Option<JsonView>) -> Option<i64> {
    match json {
        Some(JsonView::Number(_, w)) => w,
        _ => None,
    }
}

/// The value of a truth value.
pub open spec fn bool_of(json: Option<JsonView>) -> Option<bool> {
    match json {
        Some(JsonView::Bool(b)) => Some(b),
        _ => None,
    }
}

/// What a reference into a document says, where there is one.
pub open spec fn seen(json: Option<&Json>) -> Option<JsonView> {
    match json {
        Some(j) => Some(j@),
        None => None,
    }
}

/// The content of an optional string.
pub open spec fn opt_text(s: Option<String>) -> Option<Seq<char>> {
    match s {
        Some(t) => Some(t@),
        None => None,
    }
}

/// The content of an optional string slice.
pub open spec fn opt_str(s: Option<&str>) -> Option<Seq<char>> {
    match s {
        Some(t) => Some(t@),
        None => None,
    }
}

/// The position of the member of `list` that counts for `key`.
fn find_member(list: &Vec<(String, Json)>, key: &str) -> (at: Option<usize>)
    ensures
        match at {
            Some(i) => i < list@.len() && members(list@).contains_key(key@) && members(
                list@,
            )[key@] == meaning(list@[i as int].1) && compared_members(list@).contains_key(key@)
                && compared_members(list@)[key@] == compared(list@[i as int].1),
            None => !members(list@).contains_key(key@) && !compared_members(list@).contains_key(
                key@,
            ),
        },
{
    let mut n: usize = list.len();
    while n > 0
        invariant
            n <= list@.len(),
            forall|i: int| n <= i < list@.len() ==> #[trigger] list@[i].0@ != key@,
        decreases n,
    {
        if eq_str(list[n - 1].0.as_str(), key) {
            proof {
                lemma_last_member(list@, n - 1);
            }
            return Some(n - 1);
        }
        n -= 1;
    }
    proof {
        lemma_no_member(list@, key@);
    }
    None
}

proof fn lemma_last_member(list: Seq<(String, Json)>, at: int)
    requires
        0 <= at < list.len(),
        forall|i: int| at < i < list.len() ==> #[trigger] list[i].0@ != list[at].0@,
    ensures
        members(list).contains_key(list[at].0@),
        members(list)[list[at].0@] == meaning(list[at].1),
        compared_members(list).contains_key(list[at].0@),
        compared_members(list)[list[at].0@] == compared(list[at].1),
    decreases list.len(),
{
    if at < list.len() - 1 {
        let rest = list.drop_last();
        assert forall|i: int| at < i < rest.len() implies #[trigger] rest[i].0@ != rest[at].0@ by {
            assert(list[i].0@ != list[at].0@);
        }
        lemma_last_member(rest, at);
        assert(list[list.len() - 1].0@ != list[at].0@);
    }
}

proof fn lemma_no_member(list: Seq<(String, Json)>, key: Seq<char>)
    requires
        forall|i: int| 0 <= i < list.len() ==> #[trigger] list[i].0@ != key,
    ensures
        !members(list).contains_key(key),
        !compared_members(list).contains_key(key),
    decreases list.len(),
{
    if list.len() > 0 {
        let rest = list.drop_last();
        assert forall|i: int| 0 <= i < rest.len() implies #[trigger] rest[i].0@ != key by {
            assert(list[i].0@ != key);
        }
        lemma_no_member(rest, key);
        assert(list[list.len() - 1].0@ != key);
    }
}

proof fn lemma_compared_keys(list: Seq<(String, Json)>, key: Seq<char>)
    ensures
        compared_members(list).contains_key(key) ==> exists|i: int|
            0 <= i < list.len() && #[trigger] list[i].0@ == key,
    decreases list.len(),
{
    if list.len() > 0 && compared_members(list).contains_key(key) {
        if list.last().0@ == key {
            assert(list[list.len() - 1].0@ == key);
        } else {
            lemma_compared_keys(list.drop_last(), key);
            let i = choose|i: int|
                0 <= i < list.drop_last().len() && #[trigger] list.drop_last()[i].0@ == key;
            assert(list[i].0@ == key);
        }
    }
}

proof fn lemma_compared_elements(list: Seq<Json>)
    ensures
        compared_elements(list).len() == list.len(),
        forall|i: int| 0 <= i < list.len() ==> compared_elements(list)[i] == compared(#[trigger] list[i]),
    decreases list.len(),
{
    if list.len() > 0 {
        lemma_compared_elements(list.drop_last());
        assert forall|i: int| 0 <= i < list.len() implies compared_elements(list)[i] == compared(
            #[trigger] list[i],
        ) by {
            if i < list.len() - 1 {
                assert(list.drop_last()[i] == list[i]);
            }
        }
    }
}

impl Json {
    /// The member `key`, where this is an object that has one.
    pub fn get(&self, key: &str) -> (value: Option<&Json>)
        ensures
            seen(value) == field(self@, key@),
    {
        match self {
            Json::Object(list) => match find_member(list, key) {
                Some(i) => Some(&list[i].1),
                None => None,
            },
            _ => None,
        }
    }

    /// The text, where this is a string.
    pub fn as_str(&self) -> (text: Option<&str>)
        ensures
            opt_str(text) == text_of(Some(self@)),
    {
        match self {
            Json::Str(s) => Some(s.as_str()),
            _ => None,
        }
    }

    /// The value, where this is an integer that fits in 64 bits.
    pub fn as_i64(&self) -> (n: Option<i64>)
        ensures
            n == whole_of(Some(self@)),
    {
        match self {
            Json::Number(n) => n.whole,
            _ => None,
        }
    }

    /// The value, where this is a truth value.
    pub fn as_bool(&self) -> (b: Option<bool>)
        ensures
            b == bool_of(Some(self@)),
    {
        match self {
            Json::Bool(b) => Some(*b),
            _ => None,
        }
    }
}

/// The member `key` of what is there.
pub fn get_of<'a>(json: Option<&'a Json>, key: &str) -> (value: Option<&'a Json>)
    ensures
        seen(value) == field_of(seen(json), key@),
{
    match json {
        Some(j) => j.get(key),
        None => None,
    }
}

/// A copy of the text of what is there, where it is a string.
pub fn string_of(json: Option<&Json>) -> (text: Option<String>)
    ensures
        opt_text(text) == text_of(seen(json)),
{
    match json {
        Some(j) => match j.as_str() {
            Some(s) => Some(s.to_owned()),
            None => None,
        },
        None => None,
    }
}

/// The value of what is there, where it is an integer that fits in 64 bits.
pub fn i64_of(json: Option<&Json>) -> (n: Option<i64>)
    ensures
        n == whole_of(seen(json)),
{
    match json {
        Some(j) => j.as_i64(),
        None => None,
    }
}

/// The value of what is there, where it is a truth value.
pub fn truth_of(json: Option<&Json>) -> (b: Option<bool>)
    ensures
        b == bool_of(seen(json)),
{
    match json {
        Some(j) => j.as_bool(),
        None => None,
    }
}

// ---------------------------------------------------------------------------
// Building and changing
// ---------------------------------------------------------------------------

/// An object with the member `key` set; nothing else changes.
pub open spec fn with_field(json: JsonView, key: Seq<char>, value: JsonView) -> JsonView {
    match json {
        JsonView::Object(m) => JsonView::Object(m.insert(key, value)),
        _ => json,
    }
}

impl Json {
    /// Sets the member `key` where this is an object, and leaves anything else as it is.
    pub fn insert(&mut self, key: &str, value: Json)
        ensures
            final(self)@ == with_field(old(self)@, key@, value@),
    {
        match self {
            Json::Object(list) => {
                let ghost before = list@;
                list.push((key.to_owned(), value));
                assert(list@.drop_last() =~= before);
            },
            _ => {},
        }
    }

    /// A copy of the document.
    pub fn copy(&self) -> (same: Json)
        ensures
            same@ == self@,
        decreases self,
    {
        match self {
            Json::Null => Json::Null,
            Json::Bool(b) => Json::Bool(*b),
            Json::Number(n) => Json::Number(JsonNumber { text: n.text.clone(), whole: n.whole }),
            Json::Str(s) => Json::Str(s.clone()),
            Json::Array(list) => {
                let mut out: Vec<Json> = Vec::new();
                let mut i: usize = 0;
                while i < list.len()
                    invariant
                        i <= list@.len(),
                        *self == Json::Array(*list),
                        elements(out@) == elements(list@.take(i as int)),
                    decreases list@.len() - i,
                {
                    let ghost before = out@;
                    assert(decreases_to!(*self => (*self)->Array_0));
                    assert(decreases_to!((*self)->Array_0 => (*self)->Array_0[i as int]));
                    out.push(list[i].copy());
                    assert(out@.drop_last() =~= before);
                    assert(list@.take(i + 1).drop_last() =~= list@.take(i as int));
                    i += 1;
                }
                assert(list@.take(list@.len() as int) =~= list@);
                Json::Array(out)
            },
            Json::Object(list) => {
                let mut out: Vec<(String, Json)> = Vec::new();
                let mut i: usize = 0;
                while i < list.len()
                    invariant
                        i <= list@.len(),
                        *self == Json::Object(*list),
                        members(out@) == members(list@.take(i as int)),
                    decreases list@.len() - i,
                {
                    let ghost before = out@;
                    assert(decreases_to!(*self => (*self)->Object_0));
                    assert(decreases_to!((*self)->Object_0 => (*self)->Object_0[i as int]));
                    assert(decreases_to!((*self)->Object_0[i as int] => (*self)->Object_0[i as int].1));
                    out.push((list[i].0.clone(), list[i].1.copy()));
                    assert(out@.drop_last() =~= before);
                    assert(list@.take(i + 1).drop_last() =~= list@.take(i as int));
                    i += 1;
                }
                assert(list@.take(list@.len() as int) =~= list@);
                Json::Object(out)
            },
        }
    }

    /// Whether the two documents are the same, their numbers by value.
    pub fn same(&self, other: &Json) -> (b: bool)
        ensures
            b == (compared(*self) == compared(*other)),
        decreases self,
    {
        match (self, other) {
            (Json::Null, Json::Null) => true,
            (Json::Bool(x), Json::Bool(y)) => *x == *y,
            (Json::Number(x), Json::Number(y)) => {
                same_number_text(x.text.as_str(), y.text.as_str()) && same_whole(x.whole, y.whole)
            },
            (Json::Str(x), Json::Str(y)) => *x == *y,
            (Json::Array(x), Json::Array(y)) => {
                proof {
                    lemma_compared_elements(x@);
                    lemma_compared_elements(y@);
                }
                if x.len() != y.len() {
                    return false;
                }
                let mut i: usize = 0;
                while i < x.len()
                    invariant
                        i <= x@.len(),
                        x@.len() == y@.len(),
                        compared_elements(x@).len() == x@.len(),
                        compared_elements(y@).len() == y@.len(),
                        *self == Json::Array(*x),
                        forall|k: int|
                            0 <= k < i ==> #[trigger] compared(x@[k]) == compared(y@[k]),
                        compared(*self) == JsonView::Array(compared_elements(x@)),
                        compared(*other) == JsonView::Array(compared_elements(y@)),
                        forall|k: int|
                            0 <= k < x@.len() ==> compared_elements(x@)[k] == compared(#[trigger] x@[k]),
                        forall|k: int|
                            0 <= k < y@.len() ==> compared_elements(y@)[k] == compared(#[trigger] y@[k]),
                    decreases x@.len() - i,
                {
                    assert(decreases_to!(*self => (*self)->Array_0));
                    assert(decreases_to!((*self)->Array_0 => (*self)->Array_0[i as int]));
                    if !x[i].same(&y[i]) {
                        assert(compared_elements(x@)[i as int] != compared_elements(y@)[i as int]);
                        return false;
                    }
                    i += 1;
                }
                assert forall|k: int| 0 <= k < x@.len() implies compared_elements(x@)[k] == compared_elements(
                    y@,
                )[k] by {
                    assert(compared(x@[k]) == compared(y@[k]));
                }
                assert(compared_elements(x@) =~= compared_elements(y@));
                true
            },
            (Json::Object(x), Json::Object(y)) => {
                let ghost xm = compared_members(x@);
                let ghost ym = compared_members(y@);
                let mut i: usize = 0;
                while i < x.len()
                    invariant
                        i <= x@.len(),
                        *self == Json::Object(*x),
                        compared(*self) == JsonView::Object(xm),
                        compared(*other) == JsonView::Object(ym),
                        xm == compared_members(x@),
                        ym == compared_members(y@),
                        forall|k: int|
                            0 <= k < i ==> ym.contains_key(#[trigger] x@[k].0@) && ym[x@[k].0@]
                                == xm[x@[k].0@],
                    decreases x@.len() - i,
                {
                    let at: Option<usize> = find_member(x, x[i].0.as_str());
                    let there: Option<usize> = find_member(y, x[i].0.as_str());
                    match (at, there) {
                        (Some(a), Some(b)) => {
                            assert(decreases_to!(*self => (*self)->Object_0));
                            assert(decreases_to!((*self)->Object_0 => (*self)->Object_0[a as int]));
                            assert(decreases_to!((*self)->Object_0[a as int]
                                => (*self)->Object_0[a as int].1));
                            if !x[a].1.same(&y[b].1) {
                                return false;
                            }
                        },
                        _ => {
                            proof {
                                lemma_has_member(x@, i as int);
                            }
                            return false;
                        },
                    }
                    i += 1;
                }
                let mut j: usize = 0;
                while j < y.len()
                    invariant
                        j <= y@.len(),
                        compared(*self) == JsonView::Object(xm),
                        compared(*other) == JsonView::Object(ym),
                        xm == compared_members(x@),
                        ym == compared_members(y@),
                        forall|k: int| 0 <= k < j ==> xm.contains_key(#[trigger] y@[k].0@),
                    decreases y@.len() - j,
                {
                    let at: Option<usize> = find_member(x, y[j].0.as_str());
                    if at.is_none() {
                        proof {
                            lemma_has_member(y@, j as int);
                        }
                        return false;
                    }
                    j += 1;
                }
                assert forall|k: Seq<char>| xm.dom().contains(k) <==> ym.dom().contains(k) by {
                    lemma_compared_keys(x@, k);
                    lemma_compared_keys(y@, k);
                }
                assert(xm.dom() =~= ym.dom());
                assert forall|k: Seq<char>| xm.dom().contains(k) implies xm[k] == ym[k] by {
                    lemma_compared_keys(x@, k);
                }
                assert(xm =~= ym);
                true
            },
            _ => false,
        }
    }
}

proof fn lemma_has_member(list: Seq<(String, Json)>, i: int)
    requires
        0 <= i < list.len(),
    ensures
        compared_members(list).contains_key(list[i].0@),
    decreases list.len(),
{
    if i < list.len() - 1 {
        lemma_has_member(list.drop_last(), i);
        assert(list.drop_last()[i] == list[i]);
    }
}

proof fn lemma_elements(list: Seq<Json>)
    ensures
        elements(list).len() == list.len(),
        forall|i: int| 0 <= i < list.len() ==> elements(list)[i] == meaning(#[trigger] list[i]),
    decreases list.len(),
{
    if list.len() > 0 {
        let rest = list.drop_last();
        lemma_elements(rest);
        assert forall|i: int| 0 <= i < list.len() implies elements(list)[i] == meaning(
            #[trigger] list[i],
        ) by {
            if i < list.len() - 1 {
                assert(rest[i] == list[i]);
            }
        }
    }
}

/// The position of the last member named `key` among the first `n`.
spec fn last_member(list: Seq<(String, Json)>, key: Seq<char>, n: int) -> Option<int>
    decreases n,
{
    if n <= 0 {
        None
    } else if list[n - 1].0@ == key {
        Some(n - 1)
    } else {
        last_member(list, key, n - 1)
    }
}

proof fn lemma_member_at(list: Seq<(String, Json)>, key: Seq<char>, n: int)
    requires
        0 <= n <= list.len(),
        forall|i: int| n <= i < list.len() ==> #[trigger] list[i].0@ != key,
    ensures
        match last_member(list, key, n) {
            Some(i) => {
                &&& 0 <= i < list.len()
                &&& members(list).contains_key(key) && members(list)[key] == meaning(list[i].1)
                &&& compared_members(list).contains_key(key)
                &&& compared_members(list)[key] == compared(list[i].1)
            },
            None => !members(list).contains_key(key) && !compared_members(list).contains_key(key),
        },
    decreases n,
{
    if n == 0 {
        lemma_no_member(list, key);
    } else if list[n - 1].0@ == key {
        lemma_last_member(list, n - 1);
    } else {
        lemma_member_at(list, key, n - 1);
    }
}

/// Documents that say the same are the same.
pub proof fn equal_documents_are_the_same(a: Json, b: Json)
    requires
        a@ == b@,
    ensures
        compared(a) == compared(b),
    decreases a,
{
    match (a, b) {
        (Json::Array(x), Json::Array(y)) => {
            lemma_elements(x@);
            lemma_elements(y@);
            lemma_compared_elements(x@);
            lemma_compared_elements(y@);
            assert forall|i: int| 0 <= i < x@.len() implies compared_elements(x@)[i]
                == compared_elements(y@)[i] by {
                assert(elements(x@)[i] == elements(y@)[i]);
                assert(decreases_to!(a => a->Array_0));
                assert(decreases_to!(a->Array_0 => a->Array_0[i]));
                equal_documents_are_the_same(x@[i], y@[i]);
            }
            assert(compared_elements(x@) =~= compared_elements(y@));
        },
        (Json::Object(x), Json::Object(y)) => {
            let left = compared_members(x@);
            let right = compared_members(y@);
            assert forall|k: Seq<char>|
                #![trigger left.contains_key(k)]
                #![trigger right.contains_key(k)]
                left.contains_key(k) == right.contains_key(k) && (left.contains_key(k)
                ==> left[k] == right[k]) by {
                lemma_member_at(x@, k, x@.len() as int);
                lemma_member_at(y@, k, y@.len() as int);
                let i = last_member(x@, k, x@.len() as int);
                let j = last_member(y@, k, y@.len() as int);
                if i is Some {
                    assert(members(y@).contains_key(k));
                    assert(decreases_to!(a => a->Object_0));
                    assert(decreases_to!(a->Object_0 => a->Object_0[i->0]));
                    assert(decreases_to!(a->Object_0[i->0] => a->Object_0[i->0].1));
                    equal_documents_are_the_same(x@[i->0].1, y@[j->0].1);
                }
            }
            assert(left =~= right);
        },
        _ => {},
    }
}

/// Whether the two numbers have one text, but for the sign of zero.
fn same_number_text(a: &str, b: &str) -> (same: bool)
    ensures
        same == (compared_text(a@) == compared_text(b@)),
{
    let left: &str = if eq_str(a, "-0.0") {
        "0.0"
    } else {
        a
    };
    let right: &str = if eq_str(b, "-0.0") {
        "0.0"
    } else {
        b
    };
    eq_str(left, right)
}

/// Whether the two optional integers are the same.
fn same_whole(a: Option<i64>, b: Option<i64>) -> (same: bool)
    ensures
        same == (a == b),
{
    match (a, b) {
        (Some(x), Some(y)) => x == y,
        (None, None) => true,
        _ => false,
    }
}

// ---------------------------------------------------------------------------
// Text
// ---------------------------------------------------------------------------

/// A parsed document, as `serde_json` holds it.
#[verifier::external_type_specification]
#[verifier::external_body]
pub struct ExValue(serde_json::Value);

/// What a parsed document says.
pub uninterp spec fn tree(value: serde_json::Value) -> JsonView;

/// What `serde_json::from_str` makes of a text: the document, or the text of its error.
pub uninterp spec fn json_read(text: Seq<char>) -> Result<JsonView, Seq<char>>;

/// `serde_json::from_str` into a `serde_json::Value`. Whether the text is accepted, the document
/// that is read and the text of the error depend on the text alone.
#[verifier::external_body]
fn read_value(text: &str) -> (value: Result<serde_json::Value, String>)
    ensures
        match value {
            Ok(v) => json_read(text@) == Ok::<JsonView, Seq<char>>(tree(v)),
            Err(e) => json_read(text@) == Err::<JsonView, Seq<char>>(e@),
        },
{
    serde_json::from_str(text).map_err(|e: serde_json::Error| e.to_string())
}

/// The outermost layer of a parsed document.
enum Layer {
    Null,
    Bool(bool),
    Number(JsonNumber),
    Str(String),
    Array(Vec<serde_json::Value>),
    Object(Vec<(String, serde_json::Value)>),
}

/// What the parsed elements of an array say.
spec fn trees(list: Seq<serde_json::Value>) -> Seq<JsonView> {
    list.map_values(|v: serde_json::Value| tree(v))
}

/// What the parsed members of an object say, the later ones over the earlier ones.
spec fn member_trees(list: Seq<(String, serde_json::Value)>) -> Map<Seq<char>, JsonView>
    decreases list.len(),
{
    if list.len() == 0 {
        Map::empty()
    } else {
        member_trees(list.drop_last()).insert(list.last().0@, tree(list.last().1))
    }
}

/// The variants of `serde_json::Value`: the same variant with the same content, a number by its
/// text and by `serde_json::Number::as_i64`, an object by its members, each name once.
#[verifier::external_body]
fn layer(value: serde_json::Value) -> (layer: Layer)
    ensures
        match layer {
            Layer::Null => tree(value) == JsonView::Null,
            Layer::Bool(b) => tree(value) == JsonView::Bool(b),
            Layer::Number(n) => tree(value) == JsonView::Number(n.text@, n.whole),
            Layer::Str(s) => tree(value) == JsonView::Str(s@),
            Layer::Array(list) => tree(value) == JsonView::Array(trees(list@)),
            Layer::Object(list) => {
                &&& tree(value) == JsonView::Object(member_trees(list@))
                &&& forall|i: int, j: int|
                    0 <= i < j < list@.len() ==> #[trigger] list@[i].0@ != #[trigger] list@[j].0@
            },
        },
{
    match value {
        serde_json::Value::Null => Layer::Null,
        serde_json::Value::Bool(b) => Layer::Bool(b),
        serde_json::Value::Number(n) => Layer::Number(
            JsonNumber { text: n.to_string(), whole: n.as_i64() },
        ),
        serde_json::Value::String(s) => Layer::Str(s),
        serde_json::Value::Array(list) => Layer::Array(list),
        serde_json::Value::Object(map) => Layer::Object(map.into_iter().collect()),
    }
}

proof fn lemma_member_tree(list: Seq<(String, serde_json::Value)>, i: int)
    requires
        0 <= i < list.len(),
        forall|a: int, b: int|
            0 <= a < b < list.len() ==> #[trigger] list[a].0@ != #[trigger] list[b].0@,
    ensures
        member_trees(list).contains_key(list[i].0@),
        member_trees(list)[list[i].0@] == tree(list[i].1),
    decreases list.len(),
{
    if i < list.len() - 1 {
        let rest = list.drop_last();
        assert forall|a: int, b: int| 0 <= a < b < rest.len() implies #[trigger] rest[a].0@
            != #[trigger] rest[b].0@ by {
            assert(list[a].0@ != list[b].0@);
        }
        lemma_member_tree(rest, i);
        assert(list[i].0@ != list[list.len() - 1].0@);
    }
}

proof fn lemma_member_trees_finite(list: Seq<(String, serde_json::Value)>)
    ensures
        member_trees(list).dom().finite(),
    decreases list.len(),
{
    if list.len() > 0 {
        lemma_member_trees_finite(list.drop_last());
    }
}

/// The plain tree of a parsed document.
fn plain(value: serde_json::Value) -> (json: Json)
    ensures
        json@ == tree(value),
    decreases tree(value),
{
    let ghost whole = tree(value);
    match layer(value) {
        Layer::Null => Json::Null,
        Layer::Bool(b) => Json::Bool(b),
        Layer::Number(n) => Json::Number(n),
        Layer::Str(s) => Json::Str(s),
        Layer::Array(list) => {
            let ghost all = list@;
            let mut out: Vec<Json> = Vec::new();
            for v in iter: list
                invariant
                    iter.seq() == all,
                    whole == JsonView::Array(trees(all)),
                    whole == tree(value),
                    out@.len() == iter.index(),
                    elements(out@) =~= trees(all).take(iter.index()),
            {
                let ghost before = out@;
                assert(decreases_to!(whole => whole->Array_0));
                assert(decreases_to!(trees(all) => trees(all)[iter.index()]));
                out.push(plain(v));
                assert(out@.drop_last() =~= before);
            }
            assert(trees(all).take(all.len() as int) =~= trees(all));
            Json::Array(out)
        },
        Layer::Object(list) => {
            let ghost all = list@;
            let mut out: Vec<(String, Json)> = Vec::new();
            for m in iter: list
                invariant
                    iter.seq() == all,
                    forall|a: int, b: int|
                        0 <= a < b < all.len() ==> #[trigger] all[a].0@ != #[trigger] all[b].0@,
                    whole == JsonView::Object(member_trees(all)),
                    whole == tree(value),
                    out@.len() == iter.index(),
                    members(out@) =~= member_trees(all.take(iter.index())),
            {
                let ghost before = out@;
                let ghost i = iter.index();
                proof {
                    lemma_member_tree(all, i);
                    lemma_member_trees_finite(all);
                }
                assert(decreases_to!(whole => whole->Object_0));
                assert(decreases_to!(member_trees(all) => member_trees(all)[all[i].0@]));
                out.push((m.0, plain(m.1)));
                assert(out@.drop_last() =~= before);
                assert(all.take(i + 1).drop_last() =~= all.take(i));
            }
            assert(all.take(all.len() as int) =~= all);
            Json::Object(out)
        },
    }
}

/// Reads a document from its text.
pub fn parse(text: &str) -> (json: Result<Json, String>)
    ensures
        match json {
            Ok(j) => json_read(text@) == Ok::<JsonView, Seq<char>>(j@),
            Err(e) => json_read(text@) == Err::<JsonView, Seq<char>>(e@),
        },
{
    match read_value(text) {
        Ok(value) => Ok(plain(value)),
        Err(e) => Err(e),
    }
}

/// The JSON string that stands for a text.
pub uninterp spec fn json_quoted(text: Seq<char>) -> Seq<char>;

/// A character that stands for itself in a JSON string.
pub open spec fn unescaped(c: char) -> bool {
    c >= '\u{20}' && c != '"' && c != '\\'
}

/// The `Display` of `serde_json::Value::String`: the text between double quotes, with control
/// characters, double quotes and backslashes escaped and every other character as it is.
#[verifier::external_body]
pub(crate) fn quote(text: &str) -> (quoted: String)
    ensures
        quoted@ == json_quoted(text@),
        (forall|i: int| 0 <= i < text@.len() ==> unescaped(#[trigger] text@[i])) ==> quoted@
            == seq!['"'] + text@ + seq!['"'],
{
    serde_json::Value::from(text).to_string()
}


/// A member that is set is read back, the others stay as they were, and what is no object neither
/// takes a member nor has one.
pub proof fn members_are_read_as_set(
    json: JsonView,
    key: Seq<char>,
    value: JsonView,
    other: Seq<char>,
)
    ensures
        json is Object ==> field(with_field(json, key, value), key) == Some(value),
        other != key ==> field(with_field(json, key, value), other) == field(json, other),
        json !is Object ==> with_field(json, key, value) == json && field(json, key) is None,
        field(JsonView::Object(Map::empty()), key) is None,
{
}

/// A text is read from a string only, an integer from a number that is one only, and a truth value
/// from true and false only.
pub proof fn values_are_read_by_their_kind(s: Seq<char>, n: Seq<char>, i: Option<i64>, b: bool)
    ensures
        text_of(Some(JsonView::Str(s))) == Some(s),
        text_of(Some(JsonView::Number(n, i))) is None,
        text_of(Some(JsonView::Bool(b))) is None,
        text_of(Some(JsonView::Null)) is None,
        text_of(None) is None,
        whole_of(Some(JsonView::Number(n, i))) == i,
        whole_of(Some(JsonView::Str(s))) is None,
        whole_of(Some(JsonView::Bool(b))) is None,
        whole_of(Some(JsonView::Null)) is None,
        whole_of(None) is None,
        bool_of(Some(JsonView::Bool(b))) == Some(b),
        bool_of(Some(JsonView::Str(s))) is None,
        bool_of(Some(JsonView::Number(n, i))) is None,
        bool_of(Some(JsonView::Null)) is None,
        bool_of(None) is None,
{
}

/// Of the members of an object with one name the last one counts, and no name is there that no
/// member has.
pub proof fn the_last_member_counts(json: Json, list: Seq<(String, Json)>, i: int, key: Seq<char>)
    requires
        json matches Json::Object(v) && v@ == list,
        0 <= i < list.len(),
        forall|k: int| i < k < list.len() ==> #[trigger] list[k].0@ != list[i].0@,
    ensures
        field(json@, list[i].0@) == Some(list[i].1@),
        (forall|k: int| 0 <= k < list.len() ==> #[trigger] list[k].0@ != key) ==> field(
            json@,
            key,
        ) is None,
{
    lemma_last_member(list, i);
    if forall|k: int| 0 <= k < list.len() ==> #[trigger] list[k].0@ != key {
        lemma_no_member(list, key);
    }
}

/// Two documents count as the same where they are of one kind and their contents are the same:
/// strings by their text, numbers by their value, for which zero has no sign, and arrays element by
/// element.
pub proof fn what_makes_documents_the_same(a: Json, b: Json)
    ensures
        a is Null && b is Null ==> compared(a) == compared(b),
        (a is Null) != (b is Null) || (a is Bool) != (b is Bool) || (a is Number) != (b is Number)
            || (a is Str) != (b is Str) || (a is Array) != (b is Array) || (a is Object)
            != (b is Object) ==> compared(a) != compared(b),
        a is Bool && b is Bool ==> (compared(a) == compared(b) <==> a->Bool_0 == b->Bool_0),
        a is Str && b is Str ==> (compared(a) == compared(b) <==> a->Str_0@ == b->Str_0@),
        a is Number && b is Number ==> (compared(a) == compared(b) <==> {
            let s = a->Number_0.text@;
            let t = b->Number_0.text@;
            &&& a->Number_0.whole == b->Number_0.whole
            &&& s == t || (s == "-0.0"@ && t == "0.0"@) || (s == "0.0"@ && t == "-0.0"@)
        }),
        a is Array && b is Array ==> (compared(a) == compared(b) <==> {
            let x = a->Array_0@;
            let y = b->Array_0@;
            &&& x.len() == y.len()
            &&& forall|i: int| 0 <= i < x.len() ==> compared(#[trigger] x[i]) == compared(y[i])
        }),
{
    reveal_strlit("-0.0");
    reveal_strlit("0.0");
    assert("-0.0"@.len() == 4 && "0.0"@.len() == 3);
    if a is Array && b is Array {
        let x = a->Array_0@;
        let y = b->Array_0@;
        lemma_compared_elements(x);
        lemma_compared_elements(y);
        let u = compared_elements(x);
        let v = compared_elements(y);
        if compared(a) == compared(b) {
            assert forall|i: int| 0 <= i < x.len() implies compared(#[trigger] x[i])
                == compared(y[i]) by {
                assert(u[i] == v[i]);
                assert(u[i] == compared(x[i]));
                assert(v[i] == compared(y[i]));
            }
        }
        if x.len() == y.len() && forall|i: int|
            0 <= i < x.len() ==> compared(#[trigger] x[i]) == compared(y[i]) {
            assert forall|i: int| 0 <= i < u.len() implies u[i] == v[i] by {
                assert(u[i] == compared(x[i]));
                assert(v[i] == compared(y[i]));
            }
            assert(u =~= v);
        }
    }
}

/// Two objects that count as the same have the same names, and under each of them the last members
/// count as the same.
pub proof fn objects_are_the_same_by_name(
    a: Json,
    b: Json,
    x: Seq<(String, Json)>,
    y: Seq<(String, Json)>,
    i: int,
    k: int,
)
    requires
        a matches Json::Object(v) && v@ == x,
        b matches Json::Object(v) && v@ == y,
        compared(a) == compared(b),
        0 <= i < x.len(),
        0 <= k < y.len(),
        forall|n: int| i < n < x.len() ==> #[trigger] x[n].0@ != x[i].0@,
        forall|n: int| k < n < y.len() ==> #[trigger] y[n].0@ != y[k].0@,
    ensures
        x[i].0@ == y[k].0@ ==> compared(x[i].1) == compared(y[k].1),
        exists|n: int| 0 <= n < y.len() && #[trigger] y[n].0@ == x[i].0@,
        exists|n: int| 0 <= n < x.len() && #[trigger] x[n].0@ == y[k].0@,
{
    lemma_last_member(x, i);
    lemma_last_member(y, k);
    lemma_compared_keys(y, x[i].0@);
    lemma_compared_keys(x, y[k].0@);
}

} // verus!
