//! JSON documents.

use serde_json::Value;
use vstd::prelude::*;

verus! {

/// A JSON value.
pub enum Json {
    Null,
    Bool(bool),
    Uint(u64),
    /// A number, written as JSON writes it.
    Number(String),
    Text(String),
    List(Vec<Json>),
    Object(Vec<(String, Json)>),
}

/// What a `Json` holds.
#[verifier::ext_equal]
pub enum JsonView {
    Null,
    Bool(bool),
    Uint(u64),
    Number(Seq<char>),
    Text(Seq<char>),
    List(Seq<JsonView>),
    Object(Seq<(Seq<char>, JsonView)>),
}

/// What the first `n` items of a list hold.
pub open spec fn items_view(items: Seq<Json>, n: nat) -> Seq<JsonView>
    decreases items, n,
{
    if n == 0 || n > items.len() {
        Seq::empty()
    } else {
        items_view(items, (n - 1) as nat).push(json_view(items[n - 1]))
    }
}

/// What the first `n` members of an object hold.
pub open spec fn members_view(members: Seq<(String, Json)>, n: nat) -> Seq<(Seq<char>, JsonView)>
    decreases members, n,
{
    if n == 0 || n > members.len() {
        Seq::empty()
    } else {
        members_view(members, (n - 1) as nat).push(
            (members[n - 1].0@, json_view(members[n - 1].1)),
        )
    }
}

/// What a JSON value holds.
pub open spec fn json_view(json: Json) -> JsonView
    decreases json, 0nat,
{
    match json {
        Json::Null => JsonView::Null,
        Json::Bool(b) => JsonView::Bool(b),
        Json::Uint(n) => JsonView::Uint(n),
        Json::Number(t) => JsonView::Number(t@),
        Json::Text(t) => JsonView::Text(t@),
        Json::List(items) => JsonView::List(items_view(items@, items@.len())),
        Json::Object(members) => JsonView::Object(members_view(members@, members@.len())),
    }
}

impl View for Json {
    type V = JsonView;

    open spec fn view(&self) -> JsonView {
        json_view(*self)
    }
}

proof fn lemma_members_prefix(members: Seq<(String, Json)>, more: (String, Json), n: nat)
    requires
        n <= members.len(),
    ensures
        members_view(members.push(more), n) == members_view(members, n),
    decreases n,
{
    if n > 0 {
        lemma_members_prefix(members, more, (n - 1) as nat);
    }
}

proof fn lemma_items_prefix(items: Seq<Json>, more: Json, n: nat)
    requires
        n <= items.len(),
    ensures
        items_view(items.push(more), n) == items_view(items, n),
    decreases n,
{
    if n > 0 {
        lemma_items_prefix(items, more, (n - 1) as nat);
    }
}

/// The members of an object under construction.
pub struct Members {
    members: Vec<(String, Json)>,
}

impl View for Members {
    type V = Seq<(Seq<char>, JsonView)>;

    closed spec fn view(&self) -> Seq<(Seq<char>, JsonView)> {
        members_view(self.members@, self.members@.len())
    }
}

impl Members {
    /// An object without members.
    pub fn new() -> (res: Members)
        ensures
            res@ == Seq::<(Seq<char>, JsonView)>::empty(),
    {
        Members { members: Vec::new() }
    }

    /// Add a member.
    pub fn put(&mut self, name: &str, value: Json)
        ensures
            final(self)@ == old(self)@.push((name@, value@)),
    {
        let member = (String::from_str(name), value);
        proof {
            lemma_members_prefix(self.members@, member, self.members@.len());
        }
        self.members.push(member);
    }

    /// The finished object.
    pub fn object(self) -> (json: Json)
        ensures
            json@ == JsonView::Object(self@),
    {
        Json::Object(self.members)
    }
}

/// What a list of strings holds as JSON.
pub open spec fn text_items(texts: Seq<String>) -> Seq<JsonView> {
    texts.map_values(|t: String| JsonView::Text(t@))
}

/// A list of strings.
pub fn text_list(texts: &Vec<String>) -> (json: Json)
    ensures
        json@ == JsonView::List(text_items(texts@)),
{
    let mut items: Vec<Json> = Vec::new();
    let mut i: usize = 0;
    while i < texts.len()
        invariant
            i <= texts.len(),
            items.len() == i,
            items_view(items@, i as nat) == text_items(texts@.take(i as int)),
        decreases texts.len() - i,
    {
        let item = Json::Text(texts[i].clone());
        proof {
            lemma_items_prefix(items@, item, i as nat);
            assert(items_view(items@.push(item), (i + 1) as nat) == items_view(
                items@,
                i as nat,
            ).push(item@));
            assert(text_items(texts@.take(i + 1)) =~= text_items(texts@.take(i as int)).push(
                item@,
            ));
        }
        items.push(item);
        i += 1;
    }
    assert(texts@.take(i as int) =~= texts@);
    Json::List(items)
}

/// The indented text of a document.
pub uninterp spec fn pretty_text(json: JsonView) -> Seq<char>;

/// Write a document as indented text.
///
/// Trusted: `serde_json::to_string_pretty`. Its text is a function of the document and is named,
/// not described. A `Number` and the values inside a list or an object are read from their text by
/// `serde_json::from_str`; text that is no JSON reads as `null`.
#[verifier::external_body]
pub(crate) fn pretty(json: &Json) -> (text: String)
    ensures
        text@ == pretty_text(json@),
{
    let read = |t: &str| -> Value { serde_json::from_str(t).unwrap_or_default() };
    let value: Value = match json {
        Json::Null => Value::Null,
        Json::Bool(b) => Value::Bool(*b),
        Json::Uint(n) => Value::from(*n),
        Json::Number(t) => read(t),
        Json::Text(t) => Value::String(t.clone()),
        Json::List(v) => v.iter().map(|j| read(&pretty(j))).collect(),
        Json::Object(m) => m.iter().map(|(k, j)| (k.clone(), read(&pretty(j)))).collect(),
    };
    serde_json::to_string_pretty(&value).unwrap_or_default()
}

/// A list of texts has an item for each of them, in their order.
pub proof fn every_text_is_an_item(texts: Seq<String>, i: int)
    ensures
        text_items(texts).len() == texts.len(),
        0 <= i < texts.len() ==> text_items(texts)[i] == JsonView::Text(texts[i]@),
{
}

} // verus!
