//! The JSON document that the search API answers with, and the lookups that
//! are made in it.
use vstd::prelude::*;

use crate::text::same_text;

verus! {

/// A JSON value. The members of an object are kept in the order in which the
/// decoded document lists them (for a decoded map: ascending by key, each key
/// once); numbers are kept as their decimal text.
pub enum JsonValue {
    Null,
    Bool(bool),
    Number(String),
    Str(String),
    Array(Vec<JsonValue>),
    Object(Vec<(String, JsonValue)>),
}

/// `serde_json::Value`, the document that serde_json decodes text into.
#[verifier::external_type_specification]
#[verifier::external_body]
pub struct ExDecodedJson(serde_json::Value);

/// The document that `serde_json::from_str::<serde_json::Value>` decodes from
/// `text`, each object's members in the order of serde_json's map (ascending
/// by key, each key once), numbers as serde_json writes them; `None` where
/// serde_json rejects the text.
pub uninterp spec fn parsed_json(text: Seq<char>) -> Option<JsonValue>;

/// Calls `serde_json::from_str::<serde_json::Value>` on `text` and returns the
/// decoded document in the library's own type; `None` where serde_json
/// returns an error. The contract claims only that the result is a function
/// of the text alone (serde_json is built without `preserve_order`, so its
/// objects are sorted maps).
#[verifier::external_body]
pub fn parse_json(text: &str) -> (doc: Option<JsonValue>)
    ensures
        doc == parsed_json(text@),
{
    match serde_json::from_str::<serde_json::Value>(text) {
        Ok(v) => Some(from_decoded(&v)),
        Err(_) => None,
    }
}

/// Carries a decoded serde_json value over into `JsonValue`, variant by
/// variant, keeping the order of arrays and of each object's map.
#[verifier::external_body]
fn from_decoded(v: &serde_json::Value) -> JsonValue {
    match v {
        serde_json::Value::Null => JsonValue::Null,
        serde_json::Value::Bool(b) => JsonValue::Bool(*b),
        serde_json::Value::Number(n) => JsonValue::Number(n.to_string()),
        serde_json::Value::String(s) => JsonValue::Str(s.clone()),
        serde_json::Value::Array(a) => JsonValue::Array(a.iter().map(from_decoded).collect()),
        serde_json::Value::Object(m) => JsonValue::Object(
            m.iter().map(|(k, x)| (k.clone(), from_decoded(x))).collect(),
        ),
    }
}

/// The value of the first member of `members` named `key`.
pub open spec fn lookup(members: Seq<(String, JsonValue)>, key: Seq<char>) -> Option<JsonValue>
    decreases members.len(),
{
    if members.len() == 0 {
        None
    } else if members[0].0@ == key {
        Some(members[0].1)
    } else {
        lookup(members.drop_first(), key)
    }
}

/// The member `key` of `v` if `v` is an object that has one; `None` for every
/// other value.
pub open spec fn member(v: JsonValue, key: Seq<char>) -> Option<JsonValue> {
    match v {
        JsonValue::Object(members) => lookup(members@, key),
        _ => None,
    }
}

/// The text of `v` if `v` is a string.
pub open spec fn string_of(v: JsonValue) -> Option<Seq<char>> {
    match v {
        JsonValue::Str(s) => Some(s@),
        _ => None,
    }
}

/// The first page of a search answer: the first member of the object
/// `query.pages`.
pub open spec fn first_page(doc: JsonValue) -> Option<JsonValue> {
    match member(doc, "query"@) {
        Some(query) => match member(query, "pages"@) {
            Some(JsonValue::Object(pages)) => if pages@.len() > 0 {
                Some(pages@[0].1)
            } else {
                None
            },
            _ => None,
        },
        None => None,
    }
}

/// The title of a page, or `Unknown` where it has no string `title`.
pub open spec fn title_of(page: JsonValue) -> Seq<char> {
    match member(page, "title"@) {
        Some(t) => match string_of(t) {
            Some(s) => s,
            None => "Unknown"@,
        },
        None => "Unknown"@,
    }
}

/// The introduction of a page, or the empty text where it has no string
/// `extract`.
pub open spec fn extract_of(page: JsonValue) -> Seq<char> {
    match member(page, "extract"@) {
        Some(e) => match string_of(e) {
            Some(s) => s,
            None => Seq::empty(),
        },
        None => Seq::empty(),
    }
}

/// A page is a disambiguation page when its `pageprops` has a member
/// `disambiguation`, whatever its value.
pub open spec fn disambiguation(page: JsonValue) -> bool {
    match member(page, "pageprops"@) {
        Some(props) => member(props, "disambiguation"@) is Some,
        None => false,
    }
}

/// A member list has a member named `key` exactly when some member bears that
/// name; the value found is that of such a member.
pub proof fn lemma_lookup_finds(members: Seq<(String, JsonValue)>, key: Seq<char>)
    ensures
        lookup(members, key) is Some <==> exists|i: int| 0 <= i < members.len() && (#[trigger] members[i]).0@ == key,
    decreases members.len(),
{
    if members.len() > 0 {
        lemma_lookup_finds(members.drop_first(), key);
        if exists|i: int| 0 <= i < members.len() && (#[trigger] members[i]).0@ == key {
            let i = choose|i: int| 0 <= i < members.len() && (#[trigger] members[i]).0@ == key;
            if i > 0 {
                assert(members.drop_first()[i - 1] == members[i]);
            }
        }
        if exists|i: int| 0 <= i < members.drop_first().len() && (#[trigger] members.drop_first()[i]).0@ == key {
            let i = choose|i: int| 0 <= i < members.drop_first().len() && (#[trigger] members.drop_first()[i]).0@ == key;
            assert(members[i + 1] == members.drop_first()[i]);
        }
    }
}

/// A page whose `pageprops` object has no member named `disambiguation` is
/// not a disambiguation page, whatever other members it has (such as
/// `wikibase_item`).
pub proof fn law_other_pageprops_do_not_disambiguate(
    page: JsonValue,
    props: Vec<(String, JsonValue)>,
)
    requires
        member(page, "pageprops"@) == Some(JsonValue::Object(props)),
        forall|i: int| 0 <= i < props@.len() ==> (#[trigger] props@[i]).0@ != "disambiguation"@,
    ensures
        !disambiguation(page),
{
    lemma_lookup_finds(props@, "disambiguation"@);
}

/// A page whose `pageprops` object has a member named `disambiguation`, with
/// any value, is a disambiguation page.
pub proof fn law_disambiguation_member_disambiguates(
    page: JsonValue,
    props: Vec<(String, JsonValue)>,
    i: int,
)
    requires
        member(page, "pageprops"@) == Some(JsonValue::Object(props)),
        0 <= i < props@.len(),
        props@[i].0@ == "disambiguation"@,
    ensures
        disambiguation(page),
{
    lemma_lookup_finds(props@, "disambiguation"@);
}

/// A page without `pageprops`, or whose `pageprops` is not an object, is not a
/// disambiguation page.
pub proof fn law_no_pageprops_no_disambiguation(page: JsonValue)
    requires
        !(member(page, "pageprops"@) matches Some(JsonValue::Object(_))),
    ensures
        !disambiguation(page),
{
}

impl JsonValue {
    /// The member `key` of this value if it is an object that has one.
    pub fn get(&self, key: &str) -> (r: Option<&JsonValue>)
        ensures
            match r {
                Some(v) => member(*self, key@) == Some(*v),
                None => member(*self, key@) is None,
            },
    {
        match self {
            JsonValue::Object(members) => {
                let mut i: usize = 0;
                assert(members@.skip(0) =~= members@);
                while i < members.len()
                    invariant
                        i <= members@.len(),
                        member(*self, key@) == lookup(members@, key@),
                        lookup(members@, key@) == lookup(members@.skip(i as int), key@),
                    decreases members@.len() - i,
                {
                    assert(members@.skip(i as int).drop_first() =~= members@.skip(i + 1));
                    assert(members@.skip(i as int)[0] == members@[i as int]);
                    if same_text(members[i].0.as_str(), key) {
                        return Some(&members[i].1);
                    }
                    i = i + 1;
                }
                None
            },
            _ => None,
        }
    }

    /// The text of this value if it is a string.
    pub fn as_str(&self) -> (r: Option<&str>)
        ensures
            match r {
                Some(s) => string_of(*self) == Some(s@),
                None => string_of(*self) is None,
            },
    {
        match self {
            JsonValue::Str(s) => Some(s.as_str()),
            _ => None,
        }
    }
}

/// The first page of a search answer: the first member of `query.pages`, if
/// the answer has such an object and it is not empty.
pub fn get_first_page(json: &JsonValue) -> (page: Option<&JsonValue>)
    ensures
        match page {
            Some(p) => first_page(*json) == Some(*p),
            None => first_page(*json) is None,
        },
{
    let query = json.get("query")?;
    let pages = query.get("pages")?;
    match pages {
        JsonValue::Object(members) => {
            if members.len() > 0 {
                Some(&members[0].1)
            } else {
                None
            }
        },
        _ => None,
    }
}

/// The title of a page, `Unknown` where it has none.
pub fn page_title(page: &JsonValue) -> (title: &str)
    ensures
        title@ == title_of(*page),
{
    match page.get("title") {
        Some(t) => match t.as_str() {
            Some(s) => s,
            None => "Unknown",
        },
        None => "Unknown",
    }
}

/// The introduction of a page, empty where it has none.
pub fn page_extract(page: &JsonValue) -> (extract: &str)
    ensures
        extract@ == extract_of(*page),
{
    proof {
        reveal_strlit("");
    }
    match page.get("extract") {
        Some(e) => match e.as_str() {
            Some(s) => s,
            None => "",
        },
        None => "",
    }
}

/// Whether a page is a disambiguation page.
pub fn is_disambiguation(page: &JsonValue) -> (b: bool)
    ensures
        b == disambiguation(*page),
{
    match page.get("pageprops") {
        Some(props) => props.get("disambiguation").is_some(),
        None => false,
    }
}

} // verus!
