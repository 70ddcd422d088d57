//! A JSON document model for package manifests and `npm` output, with the
//! parsing and pretty-printing done by `serde_json`.
use vstd::prelude::*;

verus! {

#[verifier::external_type_specification]
#[verifier::external_body]
pub struct ExJsonNumber(serde_json::Number);

#[verifier::external_type_specification]
#[verifier::external_body]
pub struct ExJsonValue(serde_json::Value);

/// A JSON value. Objects keep their members as a list of (key, value).
#[derive(Debug)]
pub enum Json {
    Null,
    Bool(bool),
    Number(serde_json::Number),
    Str(String),
    Array(Vec<Json>),
    Object(Vec<(String, Json)>),
}

/// Mathematical form of [`Json`].
pub enum JsonV {
    Null,
    Bool(bool),
    Number(serde_json::Number),
    Str(Seq<char>),
    Array(Seq<JsonV>),
    Object(Seq<(Seq<char>, JsonV)>),
}

impl Json {
    /// The mathematical form of this value.
    pub open spec fn jv(&self) -> JsonV
        decreases self,
    {
        match self {
            Json::Null => JsonV::Null,
            Json::Bool(b) => JsonV::Bool(*b),
            Json::Number(n) => JsonV::Number(*n),
            Json::Str(s) => JsonV::Str(s@),
            Json::Array(v) => JsonV::Array(Seq::new(v@.len(), |i: int|
                if 0 <= i < v@.len() {
                    proof { assert(decreases_to!(v => v@)); assert(decreases_to!(v@ => v@[i])); }
                    v@[i].jv()
                } else {
                    JsonV::Null
                }
            )),
            Json::Object(m) => JsonV::Object(Seq::new(m@.len(), |i: int|
                if 0 <= i < m@.len() {
                    proof { assert(decreases_to!(m => m@)); assert(decreases_to!(m@ => m@[i])); assert(decreases_to!(m@[i] => m@[i].1)); }
                    (m@[i].0@, m@[i].1.jv())
                } else {
                    (Seq::empty(), JsonV::Null)
                }
            )),
        }
    }
}

} // verus!

verus! {

/// Mathematical forms of a list of values.
pub open spec fn jvs(v: Seq<Json>) -> Seq<JsonV> {
    Seq::new(v.len(), |i: int| v[i].jv())
}

/// Mathematical forms of a list of object members.
pub open spec fn members_v(m: Seq<(String, Json)>) -> Seq<(Seq<char>, JsonV)> {
    Seq::new(m.len(), |i: int| (m[i].0@, m[i].1.jv()))
}

/// The view of arrays and objects, member by member.
pub proof fn lemma_jv_unfold(j: Json)
    ensures
        j matches Json::Array(v) ==> j.jv() == JsonV::Array(jvs(v@)),
        j matches Json::Object(m) ==> j.jv() == JsonV::Object(members_v(m@)),
{
    match j {
        Json::Array(v) => {
            assert(JsonV::Array(jvs(v@)) == j.jv()) by {
                if let JsonV::Array(s) = j.jv() {
                    assert(s =~= jvs(v@));
                }
            }
        },
        Json::Object(m) => {
            assert(JsonV::Object(members_v(m@)) == j.jv()) by {
                if let JsonV::Object(s) = j.jv() {
                    assert(s =~= members_v(m@));
                }
            }
        },
        _ => {},
    }
}

/// `a` sorts before `b` (`String` order: lexicographic by character).
pub open spec fn str_lt(a: Seq<char>, b: Seq<char>) -> bool
    decreases a.len(),
{
    if b.len() == 0 {
        false
    } else if a.len() == 0 {
        true
    } else if a[0] != b[0] {
        a[0] < b[0]
    } else {
        str_lt(a.drop_first(), b.drop_first())
    }
}

/// Member keys listed in strictly increasing order.
pub open spec fn keys_increasing(m: Seq<(Seq<char>, JsonV)>) -> bool {
    forall|i: int, j: int| 0 <= i < j < m.len() ==> str_lt(m[i].0, m[j].0)
}

/// Every object inside `j` lists its members by strictly increasing key
/// (as a `BTreeMap`-backed `serde_json::Map` yields them).
pub open spec fn sorted_objects(j: JsonV) -> bool
    decreases j,
{
    match j {
        JsonV::Object(m) => keys_increasing(m) && forall|i: int| 0 <= i < m.len() ==> {
            proof { assert(decreases_to!(m => m[i])); assert(decreases_to!(m[i] => m[i].1)); }
            sorted_objects(#[trigger] m[i].1)
        },
        JsonV::Array(a) => forall|i: int| 0 <= i < a.len() ==> {
            proof { assert(decreases_to!(a => a[i])); }
            sorted_objects(#[trigger] a[i])
        },
        _ => true,
    }
}

/// No two members share a key.
pub open spec fn unique_member_keys(m: Seq<(Seq<char>, JsonV)>) -> bool {
    forall|i: int, j: int| 0 <= i < j < m.len() ==> m[i].0 != m[j].0
}

/// A document `serde_json` writes and reads back unchanged: no numbers
/// (whose text form may not read back to the same float), no object with a
/// repeated key, and arrays and objects nested at most `depth` deep.
pub open spec fn plain_doc(j: JsonV, depth: nat) -> bool
    decreases j,
{
    match j {
        JsonV::Number(_) => false,
        JsonV::Object(m) => depth > 0 && unique_member_keys(m) && forall|i: int| 0 <= i < m.len() ==> {
            proof { assert(decreases_to!(m => m[i])); assert(decreases_to!(m[i] => m[i].1)); }
            plain_doc(#[trigger] m[i].1, (depth - 1) as nat)
        },
        JsonV::Array(a) => depth > 0 && forall|i: int| 0 <= i < a.len() ==> {
            proof { assert(decreases_to!(a => a[i])); }
            plain_doc(#[trigger] a[i], (depth - 1) as nat)
        },
        _ => true,
    }
}

/// The same document: equal scalars, arrays equal item by item, objects
/// with the same keys and the same value under each, in any order.
pub open spec fn same_doc(a: JsonV, b: JsonV) -> bool
    decreases a,
{
    match a {
        JsonV::Array(x) => match b {
            JsonV::Array(y) => x.len() == y.len() && forall|i: int| 0 <= i < x.len() ==> {
                proof { assert(decreases_to!(x => x[i])); }
                same_doc(#[trigger] x[i], y[i])
            },
            _ => false,
        },
        JsonV::Object(x) => match b {
            JsonV::Object(y) => x.len() == y.len()
                && (forall|j: int| 0 <= j < y.len() ==> exists|i: int| 0 <= i < x.len() && #[trigger] x[i].0 == #[trigger] y[j].0)
                && forall|i: int| 0 <= i < x.len() ==> exists|j: int| 0 <= j < y.len() && y[j].0 == x[i].0 && {
                    proof { assert(decreases_to!(x => x[i])); assert(decreases_to!(x[i] => x[i].1)); }
                    same_doc(#[trigger] x[i].1, #[trigger] y[j].1)
                },
            _ => false,
        },
        _ => b == a,
    }
}

/// The pretty-printed value for the largest nesting the crate writes.
pub const PLAIN_DEPTH: u64 = 100;

/// What `serde_json` makes of `text`: the document, or its error message.
pub uninterp spec fn json_parse(text: Seq<char>) -> Result<JsonV, Seq<char>>;

/// The text `serde_json::to_string_pretty` writes for a document, or its
/// error message.
pub uninterp spec fn json_render_pretty(value: JsonV) -> Result<Seq<char>, Seq<char>>;

/// Conversion of a parsed `serde_json` value, member by member.
#[verifier::external_body]
fn from_value(v: serde_json::Value) -> Json {
    match v {
        serde_json::Value::Null => Json::Null,
        serde_json::Value::Bool(b) => Json::Bool(b),
        serde_json::Value::Number(n) => Json::Number(n),
        serde_json::Value::String(s) => Json::Str(s),
        serde_json::Value::Array(a) => Json::Array(a.into_iter().map(from_value).collect()),
        serde_json::Value::Object(m) => Json::Object(m.into_iter().map(|(k, x)| (k, from_value(x))).collect()),
    }
}

/// Conversion to a `serde_json` value, member by member.
#[verifier::external_body]
fn to_value(j: &Json) -> serde_json::Value {
    match j {
        Json::Null => serde_json::Value::Null,
        Json::Bool(b) => serde_json::Value::Bool(*b),
        Json::Number(n) => serde_json::Value::Number(n.clone()),
        Json::Str(s) => serde_json::Value::String(s.clone()),
        Json::Array(a) => serde_json::Value::Array(a.iter().map(to_value).collect()),
        Json::Object(m) => serde_json::Value::Object(m.iter().map(|(k, x)| (k.clone(), to_value(x))).collect()),
    }
}

/// `serde_json::from_str::<serde_json::Value>`: the parsed document, or the
/// text of the parse error. The contract names the outcome and states that
/// object members come out in increasing key order (the default
/// `serde_json::Map` is a `BTreeMap`); nothing else about parsing is stated.
#[verifier::external_body]
pub(crate) fn parse_json(text: &str) -> (r: Result<Json, String>)
    ensures
        match r {
            Ok(j) => json_parse(text@) == Ok::<JsonV, Seq<char>>(j.jv()) && sorted_objects(j.jv()),
            Err(e) => json_parse(text@) == Err::<JsonV, Seq<char>>(e@),
        },
{
    match serde_json::from_str::<serde_json::Value>(text) {
        Ok(v) => Ok(from_value(v)),
        Err(e) => Err(e.to_string()),
    }
}

/// `serde_json::to_string_pretty` of a document. The contract names the
/// outcome and states one fact of serde_json's writer and reader: a
/// document without numbers, without repeated keys and not nested too deep
/// for the reader's recursion limit of 128 is written without error, and
/// reading the text gives the same document back (members possibly in
/// another order). Nothing is stated of documents holding numbers.
#[verifier::external_body]
pub(crate) fn render_json_pretty(j: &Json) -> (r: Result<String, String>)
    ensures
        match r {
            Ok(s) => json_render_pretty(j.jv()) == Ok::<Seq<char>, Seq<char>>(s@),
            Err(e) => json_render_pretty(j.jv()) == Err::<Seq<char>, Seq<char>>(e@),
        },
        match r {
            Ok(s) => plain_doc(j.jv(), PLAIN_DEPTH as nat) ==> (json_parse(s@) matches Ok(w) && sorted_objects(w) && same_doc(j.jv(), w)),
            Err(_) => !plain_doc(j.jv(), PLAIN_DEPTH as nat),
        },
{
    serde_json::to_string_pretty(&to_value(j)).map_err(|e| e.to_string())
}

/// First member of `m` named `key`.
pub open spec fn member(m: Seq<(Seq<char>, JsonV)>, key: Seq<char>) -> Option<JsonV>
    decreases m.len(),
{
    if m.len() == 0 {
        None
    } else if m[0].0 == key {
        Some(m[0].1)
    } else {
        member(m.drop_first(), key)
    }
}

/// Member `key` of an object (`None` for other values).
pub open spec fn get(j: JsonV, key: Seq<char>) -> Option<JsonV> {
    match j {
        JsonV::Object(m) => member(m, key),
        _ => None,
    }
}

/// Member `key` of an optional value.
pub open spec fn get_opt(j: Option<JsonV>, key: Seq<char>) -> Option<JsonV> {
    match j {
        Some(v) => get(v, key),
        None => None,
    }
}

/// The string held by a value.
pub open spec fn as_str(j: JsonV) -> Option<Seq<char>> {
    match j {
        JsonV::Str(s) => Some(s),
        _ => None,
    }
}

/// The string items of a list, in order (others skipped).
pub open spec fn strings_of(items: Seq<JsonV>) -> Seq<Seq<char>>
    decreases items.len(),
{
    if items.len() == 0 {
        Seq::empty()
    } else {
        match as_str(items.last()) {
            Some(s) => strings_of(items.drop_last()).push(s),
            None => strings_of(items.drop_last()),
        }
    }
}

/// Index of the first member named `key`.
pub fn find_member(m: &Vec<(String, Json)>, key: &String) -> (r: Option<usize>)
    ensures
        match r {
            Some(i) => i < m@.len() && m@[i as int].0@ == key@ && member(members_v(m@), key@) == Some(m@[i as int].1.jv())
                && member_index(members_v(m@), key@) == Some(i as int),
            None => member(members_v(m@), key@) is None && member_index(members_v(m@), key@) is None,
        },
{
    let mut i: usize = 0;
    while i < m.len()
        invariant
            i <= m@.len(),
            forall|k: int| 0 <= k < i ==> (#[trigger] members_v(m@)[k]).0 != key@,
        decreases m.len() - i,
    {
        if m[i].0 == *key {
            proof {
                lemma_member_index_first(members_v(m@), key@, i as int);
                lemma_member_index(members_v(m@), key@);
            }
            return Some(i);
        }
        i = i + 1;
    }
    proof {
        lemma_member_index_absent(members_v(m@), key@);
        lemma_member_index(members_v(m@), key@);
    }
    None
}

/// The first member whose key matches is at `i` when none before it matches.
pub proof fn lemma_member_index_first(m: Seq<(Seq<char>, JsonV)>, key: Seq<char>, i: int)
    requires
        0 <= i < m.len(),
        m[i].0 == key,
        forall|k: int| 0 <= k < i ==> (#[trigger] m[k]).0 != key,
    ensures
        member_index(m, key) == Some(i),
    decreases i,
{
    if i > 0 {
        let t = m.drop_first();
        assert forall|k: int| 0 <= k < i - 1 implies (#[trigger] t[k]).0 != key by {
            assert(t[k] == m[k + 1]);
        }
        lemma_member_index_first(t, key, i - 1);
    }
}

/// No member matches: no index.
pub proof fn lemma_member_index_absent(m: Seq<(Seq<char>, JsonV)>, key: Seq<char>)
    requires
        forall|k: int| 0 <= k < m.len() ==> (#[trigger] m[k]).0 != key,
    ensures
        member_index(m, key) is None,
    decreases m.len(),
{
    if m.len() > 0 {
        let t = m.drop_first();
        assert forall|k: int| 0 <= k < t.len() implies (#[trigger] t[k]).0 != key by {
            assert(t[k] == m[k + 1]);
        }
        lemma_member_index_absent(t, key);
    }
}

/// Member `key` of `j`, when `j` is an object that has one.
pub fn get_member<'a>(j: &'a Json, key: &String) -> (r: Option<&'a Json>)
    ensures
        match r {
            Some(v) => get(j.jv(), key@) == Some(v.jv()),
            None => get(j.jv(), key@) is None,
        },
{
    proof { lemma_jv_unfold(*j); }
    match j {
        Json::Object(m) => match find_member(m, key) {
            Some(i) => Some(&m[i].1),
            None => None,
        },
        _ => None,
    }
}

/// The string held by `j`, if it is one.
pub fn get_str(j: &Json) -> (r: Option<&String>)
    ensures
        match r {
            Some(s) => as_str(j.jv()) == Some(s@),
            None => as_str(j.jv()) is None,
        },
{
    match j {
        Json::Str(s) => Some(s),
        _ => None,
    }
}

/// The string items of an array value, in order.
pub fn string_items(items: &Vec<Json>) -> (r: Vec<String>)
    ensures
        views_of(r@) == strings_of(jvs(items@)),
{
    let mut r: Vec<String> = Vec::new();
    let mut i: usize = 0;
    let ghost all = jvs(items@);
    assert(all.take(0) =~= Seq::<JsonV>::empty());
    while i < items.len()
        invariant
            i <= items@.len(),
            all == jvs(items@),
            views_of(r@) == strings_of(all.take(i as int)),
        decreases items.len() - i,
    {
        assert(all.take(i + 1).drop_last() =~= all.take(i as int));
        assert(all.take(i + 1).last() == items@[i as int].jv());
        match get_str(&items[i]) {
            Some(s) => {
                let ghost before = r@;
                r.push(s.clone());
                assert(views_of(r@) =~= views_of(before).push(s@));
            },
            None => {},
        }
        i = i + 1;
    }
    assert(all.take(items@.len() as int) =~= all);
    r
}

/// The views of a list of strings.
pub open spec fn views_of(v: Seq<String>) -> Seq<Seq<char>> {
    Seq::new(v.len(), |i: int| v[i]@)
}

} // verus!

verus! {

/// Position of the first member named `key`.
pub open spec fn member_index(m: Seq<(Seq<char>, JsonV)>, key: Seq<char>) -> Option<int>
    decreases m.len(),
{
    if m.len() == 0 {
        None
    } else if m[0].0 == key {
        Some(0)
    } else {
        match member_index(m.drop_first(), key) {
            Some(i) => Some(i + 1),
            None => None,
        }
    }
}

/// `member` is the value at `member_index`.
pub proof fn lemma_member_index(m: Seq<(Seq<char>, JsonV)>, key: Seq<char>)
    ensures
        match member_index(m, key) {
            Some(i) => 0 <= i < m.len() && m[i].0 == key && member(m, key) == Some(m[i].1),
            None => member(m, key) is None,
        },
    decreases m.len(),
{
    if m.len() > 0 && m[0].0 != key {
        lemma_member_index(m.drop_first(), key);
    }
}

/// `j[key] = v` on an object (replacing the first member named `key` in
/// place, or appending one) or on `null` (which becomes `{key: v}`).
pub open spec fn index_set(j: JsonV, key: Seq<char>, v: JsonV) -> JsonV {
    match j {
        JsonV::Object(m) => JsonV::Object(match member_index(m, key) {
            Some(i) => m.update(i, (key, v)),
            None => m.push((key, v)),
        }),
        JsonV::Null => JsonV::Object(seq![(key, v)]),
        _ => j,
    }
}

/// `j[key]` read for writing: the member's value, `null` when absent.
pub open spec fn index_get(j: JsonV, key: Seq<char>) -> JsonV {
    match get(j, key) {
        Some(v) => v,
        None => JsonV::Null,
    }
}

/// `j` is an object or `null`: `j[key] = …` is defined on it.
pub open spec fn indexable(j: JsonV) -> bool {
    j is Object || j is Null
}

/// `rest` and `idx` are what [`detach`] left of `orig` for `key`.
pub open spec fn detached_from(rest: Json, key: Seq<char>, idx: Option<usize>, orig: Json) -> bool {
    match orig {
        Json::Null => rest is Null && idx is None,
        Json::Object(m) => rest matches Json::Object(m2) && match idx {
            Some(i) => i < m@.len() && m2@ == m@.remove(i as int) && m@[i as int].0@ == key
                && member_index(members_v(m@), key) == Some(i as int),
            None => m2@ == m@ && member_index(members_v(m@), key) is None,
        },
        _ => false,
    }
}

/// Take the value of member `key` out of an object or `null` (`null` when
/// absent); [`attach`] puts a value back in its place.
pub fn detach(j: Json, key: &String) -> (r: (Json, Json, Option<usize>))
    requires
        indexable(j.jv()),
    ensures
        r.1.jv() == index_get(j.jv(), key@),
        detached_from(r.0, key@, r.2, j),
        r.2 is Some <==> get(j.jv(), key@) is Some,
{
    let ghost orig = j;
    proof { lemma_jv_unfold(j); }
    match j {
        Json::Object(mut m) => {
            proof { lemma_member_index(members_v(m@), key@); }
            match find_member(&m, key) {
                Some(i) => {
                    let (_k, x) = m.remove(i);
                    (Json::Object(m), x, Some(i))
                },
                None => (Json::Object(m), Json::Null, None),
            }
        },
        _ => (Json::Null, Json::Null, None),
    }
}

} // verus!

verus! {

/// Put `v` back as member `key` of what [`detach`] left of `orig`: the
/// result is `orig` with `orig[key] = v`.
pub fn attach(rest: Json, key: &String, idx: Option<usize>, v: Json, Ghost(orig): Ghost<Json>) -> (r: Json)
    requires
        detached_from(rest, key@, idx, orig),
    ensures
        r.jv() == index_set(orig.jv(), key@, v.jv()),
{
    proof {
        lemma_jv_unfold(orig);
        lemma_jv_unfold(rest);
    }
    let k = key.clone();
    match rest {
        Json::Object(mut m2) => {
            let ghost m = match orig { Json::Object(m) => m@, _ => Seq::empty() };
            match idx {
                Some(i) => {
                    m2.insert(i, (k, v));
                    assert(m2@ =~= m.update(i as int, (k, v)));
                },
                None => {
                    m2.push((k, v));
                },
            }
            let r = Json::Object(m2);
            proof {
                lemma_jv_unfold(r);
                let mv = members_v(m);
                match idx {
                    Some(i) => assert(members_v(m2@) =~= mv.update(i as int, (key@, v.jv()))),
                    None => assert(members_v(m2@) =~= mv.push((key@, v.jv()))),
                }
            }
            r
        },
        _ => {
            let mut m2: Vec<(String, Json)> = Vec::new();
            m2.push((k, v));
            let r = Json::Object(m2);
            proof {
                lemma_jv_unfold(r);
                assert(members_v(m2@) =~= seq![(key@, v.jv())]);
            }
            r
        },
    }
}

} // verus!

verus! {

/// No member before the first match has the key.
pub proof fn lemma_member_index_is_first(m: Seq<(Seq<char>, JsonV)>, key: Seq<char>)
    ensures
        member_index(m, key) matches Some(i) ==> forall|k: int| 0 <= k < i ==> (#[trigger] m[k]).0 != key,
    decreases m.len(),
{
    if m.len() > 0 && m[0].0 != key {
        let t = m.drop_first();
        lemma_member_index_is_first(t, key);
        lemma_member_index(t, key);
        if let Some(i) = member_index(m, key) {
            assert forall|k: int| 0 <= k < i implies (#[trigger] m[k]).0 != key by {
                if k > 0 {
                    assert(m[k] == t[k - 1]);
                }
            }
        }
    }
}

/// After `j[key] = v`, member `key` of `j` is `v`.
pub proof fn lemma_get_after_set(j: JsonV, key: Seq<char>, v: JsonV)
    requires
        indexable(j),
    ensures
        get(index_set(j, key, v), key) == Some(v),
{
    match j {
        JsonV::Object(m) => {
            lemma_member_index(m, key);
            lemma_member_index_is_first(m, key);
            match member_index(m, key) {
                Some(i) => {
                    let m2 = m.update(i, (key, v));
                    assert forall|k: int| 0 <= k < i implies (#[trigger] m2[k]).0 != key by {
                        assert(m2[k] == m[k]);
                    }
                    lemma_member_index_first(m2, key, i);
                    lemma_member_index(m2, key);
                },
                None => {
                    let m2 = m.push((key, v));
                    assert forall|k: int| 0 <= k < m.len() implies (#[trigger] m2[k]).0 != key by {
                        assert(m2[k] == m[k]);
                        if m[k].0 == key {
                            lemma_member_index_first_exists(m, key, k);
                        }
                    }
                    lemma_member_index_first(m2, key, m.len() as int);
                    lemma_member_index(m2, key);
                },
            }
        },
        _ => {
            let m2 = seq![(key, v)];
            lemma_member_index_first(m2, key, 0);
            lemma_member_index(m2, key);
        },
    }
}

/// A matching member means `member_index` finds one.
pub proof fn lemma_member_index_first_exists(m: Seq<(Seq<char>, JsonV)>, key: Seq<char>, k: int)
    requires
        0 <= k < m.len(),
        m[k].0 == key,
    ensures
        member_index(m, key) is Some,
    decreases m.len(),
{
    if m[0].0 != key {
        let t = m.drop_first();
        assert(t[k - 1] == m[k]);
        lemma_member_index_first_exists(t, key, k - 1);
    }
}

/// Increasing keys are distinct.
pub proof fn lemma_increasing_keys_unique(m: Seq<(Seq<char>, JsonV)>)
    requires
        keys_increasing(m),
    ensures
        unique_member_keys(m),
{
    assert forall|i: int, j: int| 0 <= i < j < m.len() implies m[i].0 != m[j].0 by {
        if m[i].0 == m[j].0 {
            crate::order::lemma_str_lt_irreflexive(m[i].0);
        }
    }
}

/// With distinct keys, the member named like the one at `i` is that one.
pub proof fn lemma_member_at(m: Seq<(Seq<char>, JsonV)>, i: int)
    requires
        unique_member_keys(m),
        0 <= i < m.len(),
    ensures
        member(m, m[i].0) == Some(m[i].1),
{
    assert forall|k: int| 0 <= k < i implies (#[trigger] m[k]).0 != m[i].0 by {}
    lemma_member_index_first(m, m[i].0, i);
    lemma_member_index(m, m[i].0);
}

/// Member `key` of two same documents, the first plain and the second read
/// by `serde_json`: both absent, or both present and the same.
pub proof fn lemma_same_doc_get(a: JsonV, b: JsonV, key: Seq<char>, depth: nat)
    requires
        same_doc(a, b),
        plain_doc(a, depth),
        sorted_objects(b),
    ensures
        match get(a, key) {
            Some(x) => get(b, key) matches Some(y) && same_doc(x, y) && plain_doc(x, (depth - 1) as nat) && sorted_objects(y),
            None => get(b, key) is None,
        },
{
    match a {
        JsonV::Object(x) => {
            let y = b->Object_0;
            lemma_increasing_keys_unique(y);
            lemma_member_index(x, key);
            lemma_member_index(y, key);
            match member_index(x, key) {
                Some(i) => {
                    let j = choose|j: int| 0 <= j < y.len() && y[j].0 == x[i].0 && same_doc(x[i].1, y[j].1);
                    lemma_member_at(y, j);
                    assert(plain_doc(x[i].1, (depth - 1) as nat));
                    assert(sorted_objects(y[j].1));
                },
                None => {
                    if let Some(j) = member_index(y, key) {
                        let i = choose|i: int| 0 <= i < x.len() && #[trigger] x[i].0 == y[j].0;
                        lemma_member_index_first_exists(x, key, i);
                    }
                },
            }
        },
        _ => {},
    }
}

/// The same lists hold the same strings.
pub proof fn lemma_same_doc_strings(x: Seq<JsonV>, y: Seq<JsonV>)
    requires
        x.len() == y.len(),
        forall|i: int| 0 <= i < x.len() ==> same_doc(#[trigger] x[i], y[i]),
    ensures
        strings_of(x) == strings_of(y),
    decreases x.len(),
{
    if x.len() > 0 {
        let (xs, ys) = (x.drop_last(), y.drop_last());
        assert forall|i: int| 0 <= i < xs.len() implies same_doc(#[trigger] xs[i], ys[i]) by {
            assert(xs[i] == x[i] && ys[i] == y[i]);
        }
        lemma_same_doc_strings(xs, ys);
        assert(same_doc(x.last(), y.last()));
        assert(as_str(x.last()) == as_str(y.last()));
    }
}

/// Appending a member named otherwise leaves member `k` as it was.
pub proof fn lemma_member_push_other(m: Seq<(Seq<char>, JsonV)>, e: (Seq<char>, JsonV), k: Seq<char>)
    requires
        e.0 != k,
    ensures
        member(m.push(e), k) == member(m, k),
    decreases m.len(),
{
    if m.len() > 0 {
        assert(m.push(e).drop_first() =~= m.drop_first().push(e));
        assert(m.push(e)[0] == m[0]);
        lemma_member_push_other(m.drop_first(), e, k);
    } else {
        assert(m.push(e).drop_first() =~= Seq::<(Seq<char>, JsonV)>::empty());
        assert(m.push(e)[0] == e);
        assert(member(Seq::<(Seq<char>, JsonV)>::empty(), k) is None);
    }
}

/// Replacing a member named otherwise leaves member `k` as it was.
pub proof fn lemma_member_update_other(m: Seq<(Seq<char>, JsonV)>, i: int, e: (Seq<char>, JsonV), k: Seq<char>)
    requires
        0 <= i < m.len(),
        e.0 != k,
        m[i].0 != k,
    ensures
        member(m.update(i, e), k) == member(m, k),
    decreases m.len(),
{
    if i > 0 {
        assert(m.update(i, e).drop_first() =~= m.drop_first().update(i - 1, e));
        lemma_member_update_other(m.drop_first(), i - 1, e, k);
    } else {
        assert(m.update(i, e).drop_first() =~= m.drop_first());
    }
}

/// Setting `key` leaves the other members as they were.
pub proof fn lemma_get_other_after_set(j: JsonV, key: Seq<char>, v: JsonV, k: Seq<char>)
    requires
        indexable(j),
        k != key,
    ensures
        get(index_set(j, key, v), k) == get(j, k),
{
    match j {
        JsonV::Object(m) => {
            lemma_member_index(m, key);
            match member_index(m, key) {
                Some(i) => lemma_member_update_other(m, i, (key, v), k),
                None => lemma_member_push_other(m, (key, v), k),
            }
        },
        _ => {
            let m1 = seq![(key, v)];
            assert(m1.drop_first() =~= Seq::<(Seq<char>, JsonV)>::empty());
            assert(member(Seq::<(Seq<char>, JsonV)>::empty(), k) is None);
            assert(m1[0].0 != k);
        },
    }
}

} // verus!
