use vstd::prelude::*;

verus! {

/// A JSON value as the settings files hold it. A number keeps its textual form;
/// an object keeps its members in order, and a lookup finds the first member of a
/// given name.
#[derive(Debug, PartialEq, Eq)]
pub enum Json {
    Null,
    Bool(bool),
    Number(String),
    Str(String),
    Array(Vec<Json>),
    Object(Vec<(String, Json)>),
}

/// Why the permission list could not be written into a document.
#[derive(Clone, Copy, Debug, PartialEq, Eq, Structural)]
pub enum MergeError {
    /// The document itself is not an object.
    DocumentNotObject,
    /// The document has a `permissions` member that is not an object.
    PermissionsNotObject,
}

/// The text of each string, in order.
pub open spec fn texts(v: Seq<String>) -> Seq<Seq<char>> {
    v.map_values(|s: String| s@)
}

/// The value of the first member named `key` at position `i` or later.
pub open spec fn member_from(fields: Seq<(String, Json)>, key: Seq<char>, i: int) -> Option<Json>
    decreases fields.len() - i,
{
    if i < 0 || i >= fields.len() {
        None
    } else if fields[i].0@ == key {
        Some(fields[i].1)
    } else {
        member_from(fields, key, i + 1)
    }
}

/// The value of the first member named `key`.
pub open spec fn member(fields: Seq<(String, Json)>, key: Seq<char>) -> Option<Json> {
    member_from(fields, key, 0)
}

/// The member `key` of an object; nothing for any other value.
pub open spec fn get(doc: Json, key: Seq<char>) -> Option<Json> {
    match doc {
        Json::Object(fields) => member(fields@, key),
        _ => None,
    }
}

/// The strings among `items`, in order; other values are skipped.
pub open spec fn strings_of(items: Seq<Json>) -> Seq<Seq<char>>
    decreases items.len(),
{
    if items.len() == 0 {
        Seq::empty()
    } else {
        let init = strings_of(items.drop_last());
        match items.last() {
            Json::Str(s) => init.push(s@),
            _ => init,
        }
    }
}

pub open spec fn permissions_key() -> Seq<char> {
    "permissions"@
}

pub open spec fn allow_key() -> Seq<char> {
    "allow"@
}

/// The permission list of a document: the strings of the array at
/// `permissions.allow`, or nothing where any step of that path is missing or of
/// another shape.
pub open spec fn allow_list(doc: Json) -> Seq<Seq<char>> {
    match get(doc, permissions_key()) {
        Some(p) => match get(p, allow_key()) {
            Some(Json::Array(items)) => strings_of(items@),
            _ => Seq::empty(),
        },
        None => Seq::empty(),
    }
}

/// Why a permission list cannot be written into `doc`, if it can't: it can where
/// `doc` is an object whose `permissions` member is absent or an object.
pub open spec fn merge_error(doc: Json) -> Option<MergeError> {
    match doc {
        Json::Object(fields) => match member(fields@, permissions_key()) {
            None => None,
            Some(Json::Object(_)) => None,
            Some(_) => Some(MergeError::PermissionsNotObject),
        },
        _ => Some(MergeError::DocumentNotObject),
    }
}

/// `items` is `list` with each entry as a JSON string.
pub open spec fn is_string_array(items: Seq<Json>, list: Seq<Seq<char>>) -> bool {
    &&& items.len() == list.len()
    &&& forall|i: int|
        0 <= i < items.len() ==> (#[trigger] items[i]) is Str && items[i]->Str_0@ == list[i]
}

/// `new_doc` is `doc` with `permissions.allow` set to `list`: every other member of
/// the document, and every other member of its `permissions` object, is kept.
pub open spec fn written(doc: Json, new_doc: Json, list: Seq<Seq<char>>) -> bool {
    &&& new_doc is Object
    &&& forall|k: Seq<char>| k != permissions_key() ==> #[trigger] get(new_doc, k) == get(doc, k)
    &&& match get(new_doc, permissions_key()) {
        Some(p) => {
            &&& p is Object
            &&& match get(p, allow_key()) {
                Some(Json::Array(items)) => is_string_array(items@, list),
                _ => false,
            }
            &&& forall|k: Seq<char>|
                k != allow_key() ==> #[trigger] get(p, k) == match get(doc, permissions_key()) {
                    Some(old_p) => get(old_p, k),
                    None => None,
                }
        },
        None => false,
    }
}

proof fn lemma_strings_of_string_array(items: Seq<Json>, list: Seq<Seq<char>>)
    requires
        is_string_array(items, list),
    ensures
        strings_of(items) == list,
    decreases items.len(),
{
    if items.len() > 0 {
        let n = items.len() - 1;
        assert(items.last() == items[n as int]);
        lemma_strings_of_string_array(items.drop_last(), list.drop_last());
        assert(list =~= list.drop_last().push(list[n as int]));
    } else {
        assert(list =~= Seq::empty());
    }
}

/// Writing a list into a document and reading the document's list back gives that
/// list, and the other members of the document are those it had before.
pub proof fn lemma_written_list_reads_back(doc: Json, new_doc: Json, list: Seq<Seq<char>>)
    requires
        written(doc, new_doc, list),
    ensures
        allow_list(new_doc) == list,
        forall|k: Seq<char>| k != permissions_key() ==> #[trigger] get(new_doc, k) == get(doc, k),
{
    let p = get(new_doc, permissions_key())->Some_0;
    let items = get(p, allow_key())->Some_0->Array_0;
    lemma_strings_of_string_array(items@, list);
}

proof fn lemma_member_from_first(fields: Seq<(String, Json)>, key: Seq<char>, i: int, j: int)
    requires
        0 <= i <= j < fields.len(),
        fields[j].0@ == key,
        forall|m: int| i <= m < j ==> (#[trigger] fields[m]).0@ != key,
    ensures
        member_from(fields, key, i) == Some(fields[j].1),
    decreases j - i,
{
    if i < j {
        lemma_member_from_first(fields, key, i + 1, j);
    }
}

proof fn lemma_member_from_absent(fields: Seq<(String, Json)>, key: Seq<char>, i: int)
    requires
        0 <= i <= fields.len(),
        forall|m: int| i <= m < fields.len() ==> (#[trigger] fields[m]).0@ != key,
    ensures
        member_from(fields, key, i) == None::<Json>,
    decreases fields.len() - i,
{
    if i < fields.len() {
        lemma_member_from_absent(fields, key, i + 1);
    }
}

proof fn lemma_update_other(
    fields: Seq<(String, Json)>,
    p: int,
    x: (String, Json),
    key: Seq<char>,
    i: int,
)
    requires
        0 <= p < fields.len(),
        0 <= i,
        fields[p].0@ == x.0@,
        key != x.0@,
    ensures
        member_from(fields.update(p, x), key, i) == member_from(fields, key, i),
    decreases fields.len() - i,
{
    if i < fields.len() {
        lemma_update_other(fields, p, x, key, i + 1);
    }
}

proof fn lemma_push_other(fields: Seq<(String, Json)>, x: (String, Json), key: Seq<char>, i: int)
    requires
        0 <= i,
        key != x.0@,
    ensures
        member_from(fields.push(x), key, i) == member_from(fields, key, i),
    decreases fields.len() - i,
{
    if i < fields.len() {
        lemma_push_other(fields, x, key, i + 1);
        assert(fields.push(x)[i] == fields[i]);
    } else if i == fields.len() {
        assert(member_from(fields.push(x), key, i + 1) == None::<Json>);
    }
}

/// The position of the first member named `key`, if there is one.
fn find_member(fields: &Vec<(String, Json)>, key: &String) -> (r: Option<usize>)
    ensures
        match r {
            Some(i) => {
                &&& i < fields@.len()
                &&& fields@[i as int].0@ == key@
                &&& forall|m: int| 0 <= m < i ==> (#[trigger] fields@[m]).0@ != key@
                &&& member(fields@, key@) == Some(fields@[i as int].1)
            },
            None => {
                &&& forall|m: int| 0 <= m < fields@.len() ==> (#[trigger] fields@[m]).0@ != key@
                &&& member(fields@, key@) == None::<Json>
            },
        },
{
    let mut i: usize = 0;
    while i < fields.len()
        invariant
            i <= fields@.len(),
            forall|m: int| 0 <= m < i ==> (#[trigger] fields@[m]).0@ != key@,
        decreases fields@.len() - i,
    {
        if fields[i].0 == *key {
            proof {
                lemma_member_from_first(fields@, key@, 0, i as int);
            }
            return Some(i);
        }
        i = i + 1;
    }
    proof {
        lemma_member_from_absent(fields@, key@, 0);
    }
    None
}

/// Sets the member `key` to `v`: the first member of that name takes the new value
/// in its place, or, where there is none, the member is added at the end.
fn set_member(fields: Vec<(String, Json)>, key: String, v: Json) -> (r: Vec<(String, Json)>)
    ensures
        member(r@, key@) == Some(v),
        forall|k: Seq<char>| k != key@ ==> #[trigger] member(r@, k) == member(fields@, k),
{
    let mut fields = fields;
    let ghost before = fields@;
    match find_member(&fields, &key) {
        Some(i) => {
            let (name, _) = fields.remove(i);
            let ghost x = (name, v);
            fields.insert(i, (name, v));
            proof {
                assert(fields@ =~= before.update(i as int, x));
                lemma_member_from_first(fields@, key@, 0, i as int);
                assert forall|k: Seq<char>| k != key@ implies #[trigger] member(fields@, k) == member(
                    before,
                    k,
                ) by {
                    lemma_update_other(before, i as int, x, k, 0);
                }
            }
            fields
        },
        None => {
            let ghost x = (key, v);
            fields.push((key, v));
            proof {
                lemma_member_from_first(fields@, key@, 0, before.len() as int);
                assert forall|k: Seq<char>| k != key@ implies #[trigger] member(fields@, k) == member(
                    before,
                    k,
                ) by {
                    lemma_push_other(before, x, k, 0);
                }
            }
            fields
        },
    }
}

/// The list as an array of JSON strings.
fn string_array(list: &Vec<String>) -> (r: Vec<Json>)
    ensures
        is_string_array(r@, texts(list@)),
{
    let mut r: Vec<Json> = Vec::new();
    let mut i: usize = 0;
    while i < list.len()
        invariant
            i <= list@.len(),
            r@.len() == i,
            forall|m: int| 0 <= m < i ==> (#[trigger] r@[m]) == Json::Str(list@[m]),
        decreases list@.len() - i,
    {
        r.push(Json::Str(list[i].clone()));
        i = i + 1;
    }
    r
}

/// The strings of an array, in order; other values are skipped.
fn strings_in(items: &Vec<Json>) -> (r: Vec<String>)
    ensures
        texts(r@) == strings_of(items@),
{
    let mut r: Vec<String> = Vec::new();
    let mut i: usize = 0;
    while i < items.len()
        invariant
            i <= items@.len(),
            texts(r@) == strings_of(items@.subrange(0, i as int)),
        decreases items@.len() - i,
    {
        let ghost before = r@;
        assert(items@.subrange(0, i + 1).drop_last() =~= items@.subrange(0, i as int));
        match &items[i] {
            Json::Str(s) => {
                r.push(s.clone());
                assert(texts(r@) =~= texts(before).push(s@));
            },
            _ => {},
        }
        i = i + 1;
    }
    assert(items@.subrange(0, i as int) =~= items@);
    r
}

/// The permission list of a document (see `allow_list`).
pub fn read_allow_from_value(value: &Json) -> (r: Vec<String>)
    ensures
        texts(r@) == allow_list(*value),
{
    let pk = "permissions".to_owned();
    let ak = "allow".to_owned();
    if let Json::Object(fields) = value {
        if let Some(i) = find_member(fields, &pk) {
            if let Json::Object(inner) = &fields[i].1 {
                if let Some(j) = find_member(inner, &ak) {
                    if let Json::Array(items) = &inner[j].1 {
                        return strings_in(items);
                    }
                }
            }
        }
    }
    let r: Vec<String> = Vec::new();
    assert(texts(r@) =~= Seq::empty());
    r
}

/// Whether a permission list can be written into the document (see `merge_error`).
pub fn check_mergeable(value: &Json) -> (r: Result<(), MergeError>)
    ensures
        match merge_error(*value) {
            None => r is Ok,
            Some(e) => r == Err::<(), MergeError>(e),
        },
{
    let pk = "permissions".to_owned();
    match value {
        Json::Object(fields) => match find_member(fields, &pk) {
            Some(i) => match &fields[i].1 {
                Json::Object(_) => Ok(()),
                _ => Err(MergeError::PermissionsNotObject),
            },
            None => Ok(()),
        },
        _ => Err(MergeError::DocumentNotObject),
    }
}

/// Writes `permissions` as the array at `permissions.allow` of the document,
/// creating the `permissions` object where it is missing and keeping every other
/// member. Where the document is not of a shape that allows this, it is left as it
/// was.
pub fn write_allow_to_value(value: &mut Json, permissions: &Vec<String>) -> (r: Result<
    (),
    MergeError,
>)
    ensures
        match merge_error(*old(value)) {
            None => r is Ok && written(*old(value), *final(value), texts(permissions@)),
            Some(e) => r == Err::<(), MergeError>(e) && *final(value) == *old(value),
        },
{
    let pk = "permissions".to_owned();
    let ak = "allow".to_owned();
    let mut doc = Json::Null;
    std::mem::swap(value, &mut doc);
    let ghost d0 = doc;
    match doc {
        Json::Object(fields) => {
            let mut fields = fields;
            let ghost before = fields@;
            let arr = Json::Array(string_array(permissions));
            match find_member(&fields, &pk) {
                Some(i) => {
                    if !matches!(fields[i].1, Json::Object(_)) {
                        *value = Json::Object(fields);
                        return Err(MergeError::PermissionsNotObject);
                    }
                    let (name, p) = fields.remove(i);
                    let inner = match p {
                        Json::Object(inner) => inner,
                        _ => Vec::new(),
                    };
                    let ghost old_p = p;
                    let inner = set_member(inner, ak, arr);
                    let ghost x = (name, Json::Object(inner));
                    fields.insert(i, (name, Json::Object(inner)));
                    proof {
                        assert(fields@ =~= before.update(i as int, x));
                        lemma_member_from_first(fields@, pk@, 0, i as int);
                        assert forall|k: Seq<char>| k != permissions_key() implies #[trigger] get(
                            Json::Object(fields),
                            k,
                        ) == get(d0, k) by {
                            lemma_update_other(before, i as int, x, k, 0);
                        }
                        assert(get(d0, permissions_key()) == Some(old_p));
                    }
                    *value = Json::Object(fields);
                    Ok(())
                },
                None => {
                    let inner = set_member(Vec::new(), ak, arr);
                    let ghost x = (pk, Json::Object(inner));
                    fields.push((pk, Json::Object(inner)));
                    proof {
                        lemma_member_from_first(fields@, permissions_key(), 0, before.len() as int);
                        assert forall|k: Seq<char>| k != permissions_key() implies #[trigger] get(
                            Json::Object(fields),
                            k,
                        ) == get(d0, k) by {
                            lemma_push_other(before, x, k, 0);
                        }
                        assert forall|k: Seq<char>| k != allow_key() implies #[trigger] get(
                            Json::Object(inner),
                            k,
                        ) == None::<Json> by {
                            assert(member(Seq::<(String, Json)>::empty(), k) == None::<Json>);
                        }
                    }
                    *value = Json::Object(fields);
                    Ok(())
                },
            }
        },
        _ => {
            *value = doc;
            Err(MergeError::DocumentNotObject)
        },
    }
}

} // verus!
