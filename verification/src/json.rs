//! JSON documents, one level at a time. A document is opened into a [`Node`]; the values inside a
//! list or an object are kept as JSON texts, to be opened in turn.
use vstd::prelude::*;
use vstd::string::StringExecFns;

use crate::number::decimal;
use crate::reading::law_joined;
use crate::text::{Text, join, joined, opt_text, plain, quote, quoted, same, texts};

verus! {

/// One level of a JSON document.
pub enum Node {
    Null,
    Bool(bool),
    /// A number, where it is a whole one that fits.
    Number(Option<u64>),
    Str(String),
    /// The JSON texts of the items.
    List(Vec<String>),
    /// The names of the members and the JSON texts of their values.
    Object(Vec<(String, String)>),
}

/// The model of a [`Node`].
#[verifier::ext_equal]
pub enum NodeView {
    Null,
    Bool(bool),
    Number(Option<u64>),
    Str(Text),
    List(Seq<Text>),
    Object(Seq<(Text, Text)>),
}

pub open spec fn pair_texts(v: Seq<(String, String)>) -> Seq<(Text, Text)> {
    v.map_values(|p: (String, String)| (p.0@, p.1@))
}

impl View for Node {
    type V = NodeView;

    open spec fn view(&self) -> NodeView {
        match self {
            Node::Null => NodeView::Null,
            Node::Bool(b) => NodeView::Bool(*b),
            Node::Number(n) => NodeView::Number(*n),
            Node::Str(s) => NodeView::Str(s@),
            Node::List(v) => NodeView::List(texts(v@)),
            Node::Object(v) => NodeView::Object(pair_texts(v@)),
        }
    }
}

pub open spec fn opt_node(o: Option<Node>) -> Option<NodeView> {
    match o {
        Some(n) => Some(n@),
        None => None,
    }
}

/// The JSON texts of a string of plain characters, a whole number and a truth value.
pub open spec fn is_leaf(t: Text) -> bool {
    ||| exists|s: Text| plain(s) && t == #[trigger] quoted(s)
    ||| exists|n: u64| t == #[trigger] decimal(n as nat)
    ||| t == bool_text(true)
    ||| t == bool_text(false)
}

pub open spec fn bool_text(b: bool) -> Text {
    if b {
        "true"@
    } else {
        "false"@
    }
}

/// The text of a member of an object.
pub open spec fn member_text(p: (Text, Text)) -> Text {
    quoted(p.0) + ":"@ + p.1
}

/// The text of an object, without white space.
pub open spec fn object_text(v: Seq<(Text, Text)>) -> Text {
    "{"@ + joined(v.map_values(|p: (Text, Text)| member_text(p)), ","@) + "}"@
}

/// Members of an object that have plain names, none of them twice, and plain values.
pub open spec fn is_flat(v: Seq<(Text, Text)>) -> bool {
    &&& forall|i: int| 0 <= i < v.len() ==> plain((#[trigger] v[i]).0) && is_leaf(v[i].1)
    &&& forall|i: int, j: int|
        0 <= i < j < v.len() ==> (#[trigger] v[i]).0 != (#[trigger] v[j]).0
}

/// What `serde_json` reads a text as: the outermost level of the document, or nothing where the
/// text is not one JSON document.
pub uninterp spec fn json_node(text: Seq<char>) -> Option<NodeView>;

/// Opens a JSON text with `serde_json::from_str`: each kind of `serde_json::Value` becomes the node
/// of that kind, a number what `Number::as_u64` gives of it, and the values inside a list or an
/// object the texts that `Value::to_string` writes of them. The result is a function of the text.
/// A string of plain characters between quotation marks is that string, the decimal form of a
/// number is that number, and an object of such values gives each of them back as it was written.
/// What else is read as what is left unsaid.
#[verifier::external_body]
pub(crate) fn read_node(text: &str) -> (r: Option<Node>)
    ensures
        opt_node(r) == json_node(text@),
        forall|s: Text|
            plain(s) && text@ == #[trigger] quoted(s) ==> opt_node(r) == Some(NodeView::Str(s)),
        forall|n: u64|
            text@ == #[trigger] decimal(n as nat) ==> opt_node(r) == Some(
                NodeView::Number(Some(n)),
            ),
        forall|v: Seq<(Text, Text)>, i: int|
            is_flat(v) && text@ == object_text(v) && 0 <= i < v.len() ==> #[trigger] member_given(
                opt_node(r),
                v,
                i,
            ),
{
    Some(match serde_json::from_str(text).ok()? {
        serde_json::Value::Null => Node::Null,
        serde_json::Value::Bool(b) => Node::Bool(b),
        serde_json::Value::Number(n) => Node::Number(n.as_u64()),
        serde_json::Value::String(s) => Node::Str(s),
        serde_json::Value::Array(a) => Node::List(a.iter().map(|x| x.to_string()).collect()),
        serde_json::Value::Object(o) => {
            Node::Object(o.iter().map(|(k, x)| (k.clone(), x.to_string())).collect())
        },
    })
}

/// The text that `serde_json` writes of an object of a number and a string.
pub uninterp spec fn json_pair(
    number_key: Seq<char>,
    number: u64,
    string_key: Seq<char>,
    string: Seq<char>,
) -> Seq<char>;

/// Writes an object of two members with `serde_json::Value::to_string`: a number and a string. Read
/// again, the object gives both back. The result is a function of the arguments.
#[verifier::external_body]
pub(crate) fn write_pair(
    number_key: &str,
    number: u64,
    string_key: &str,
    string: &str,
) -> (r: String)
    requires
        number_key@ != string_key@,
    ensures
        r@ == json_pair(number_key@, number, string_key@, string@),
        whole_member(json_node(r@), number_key@) == Some(number),
        str_member(json_node(r@), string_key@) == Some(string@),
{
    let mut members = serde_json::Map::new();
    members.insert(number_key.to_string(), serde_json::Value::from(number));
    members.insert(string_key.to_string(), serde_json::Value::from(string));
    serde_json::Value::Object(members).to_string()
}

/// The JSON text of the first member of a name.
pub open spec fn lookup(v: Seq<(Text, Text)>, key: Text) -> Option<Text>
    decreases v.len(),
{
    if v.len() == 0 {
        None
    } else if v[0].0 == key {
        Some(v[0].1)
    } else {
        lookup(v.skip(1), key)
    }
}

/// The JSON text of a member; nothing where the node is no object or has no such member.
pub open spec fn member(n: Option<NodeView>, key: Text) -> Option<Text> {
    match n {
        Some(NodeView::Object(v)) => lookup(v, key),
        _ => None,
    }
}

/// Whether an object gives back the value of a member as it was written.
pub open spec fn member_given(n: Option<NodeView>, v: Seq<(Text, Text)>, i: int) -> bool {
    member(n, v[i].0) == Some(v[i].1)
}

/// A member, opened.
pub open spec fn inner(n: Option<NodeView>, key: Text) -> Option<NodeView> {
    match member(n, key) {
        Some(t) => json_node(t),
        None => None,
    }
}

pub open spec fn as_str(n: Option<NodeView>) -> Option<Text> {
    match n {
        Some(NodeView::Str(s)) => Some(s),
        _ => None,
    }
}

pub open spec fn as_bool(n: Option<NodeView>) -> Option<bool> {
    match n {
        Some(NodeView::Bool(b)) => Some(b),
        _ => None,
    }
}

pub open spec fn as_whole(n: Option<NodeView>) -> Option<u64> {
    match n {
        Some(NodeView::Number(w)) => w,
        _ => None,
    }
}

/// A member that is a string.
pub open spec fn str_member(n: Option<NodeView>, key: Text) -> Option<Text> {
    as_str(inner(n, key))
}

/// A member that is true or false.
pub open spec fn bool_member(n: Option<NodeView>, key: Text) -> Option<bool> {
    as_bool(inner(n, key))
}

/// A member that is a whole number.
pub open spec fn whole_member(n: Option<NodeView>, key: Text) -> Option<u64> {
    as_whole(inner(n, key))
}

/// A text, or another one where there is none.
pub open spec fn or_text(o: Option<Text>, default: Text) -> Text {
    match o {
        Some(t) => t,
        None => default,
    }
}

/// Finds the JSON text of a member.
pub fn find_member(n: &Option<Node>, key: &str) -> (r: Option<String>)
    ensures
        opt_text(r) == member(opt_node(*n), key@),
{
    match n {
        Some(Node::Object(v)) => {
            let mut i: usize = 0;
            let ghost all = pair_texts(v@);
            assert(all.skip(0) =~= all);
            while i < v.len()
                invariant
                    i <= v@.len(),
                    all == pair_texts(v@),
                    lookup(all.skip(i as int), key@) == lookup(all, key@),
                    opt_node(*n) == Some(NodeView::Object(all)),
                decreases v@.len() - i,
            {
                assert(all.skip(i as int)[0] == all[i as int]);
                if same(v[i].0.as_str(), key) {
                    return Some(v[i].1.clone());
                }
                assert(all.skip(i as int).skip(1) =~= all.skip(i + 1));
                i += 1;
            }
            assert(lookup(all.skip(i as int), key@) is None);
            None
        },
        _ => None,
    }
}

/// Opens a member of a node.
pub fn open_member(n: &Option<Node>, key: &str) -> (r: Option<Node>)
    ensures
        opt_node(r) == inner(opt_node(*n), key@),
        forall|s: Text|
            plain(s) && member(opt_node(*n), key@) == Some(#[trigger] quoted(s)) ==> opt_node(r)
                == Some(NodeView::Str(s)),
        forall|k: u64|
            member(opt_node(*n), key@) == Some(#[trigger] decimal(k as nat)) ==> opt_node(r)
                == Some(NodeView::Number(Some(k))),
{
    match find_member(n, key) {
        Some(t) => read_node(t.as_str()),
        None => None,
    }
}

/// The string that a node is.
pub fn read_str(n: Option<Node>) -> (r: Option<String>)
    ensures
        opt_text(r) == as_str(opt_node(n)),
{
    match n {
        Some(Node::Str(s)) => Some(s),
        _ => None,
    }
}

/// The truth value that a node is.
pub fn read_bool(n: Option<Node>) -> (r: Option<bool>)
    ensures
        r == as_bool(opt_node(n)),
{
    match n {
        Some(Node::Bool(b)) => Some(b),
        _ => None,
    }
}

/// The whole number that a node is.
pub fn read_whole(n: Option<Node>) -> (r: Option<u64>)
    ensures
        r == as_whole(opt_node(n)),
{
    match n {
        Some(Node::Number(w)) => w,
        _ => None,
    }
}

/// A text, or `default` where there is none.
pub fn text_or(o: Option<String>, default: &str) -> (r: String)
    ensures
        r@ == or_text(opt_text(o), default@),
{
    match o {
        Some(s) => s,
        None => default.to_owned(),
    }
}

/// A member that is a string. A string of plain characters comes back as it was written.
pub fn get_text(n: &Option<Node>, key: &str) -> (r: Option<String>)
    ensures
        opt_text(r) == str_member(opt_node(*n), key@),
        forall|s: Text|
            plain(s) && member(opt_node(*n), key@) == Some(#[trigger] quoted(s)) ==> opt_text(r)
                == Some(s),
{
    read_str(open_member(n, key))
}

/// A member that is a string, or `default`.
pub fn get_str(n: &Option<Node>, key: &str, default: &str) -> (r: String)
    ensures
        r@ == or_text(str_member(opt_node(*n), key@), default@),
{
    text_or(get_text(n, key), default)
}

/// A member that is true or false.
pub fn get_bool(n: &Option<Node>, key: &str) -> (r: Option<bool>)
    ensures
        r == bool_member(opt_node(*n), key@),
{
    read_bool(open_member(n, key))
}

/// A member that is a whole number. One in decimal form comes back as it was written.
pub fn get_whole(n: &Option<Node>, key: &str) -> (r: Option<u64>)
    ensures
        r == whole_member(opt_node(*n), key@),
        forall|k: u64|
            member(opt_node(*n), key@) == Some(#[trigger] decimal(k as nat)) ==> r == Some(k),
{
    read_whole(open_member(n, key))
}

/// Writes an object out of the names of its members and the JSON texts of their values.
pub fn write_object(members: &Vec<(String, String)>) -> (s: String)
    ensures
        s@ == object_text(pair_texts(members@)),
{
    let ghost all = pair_texts(members@).map_values(|p: (Text, Text)| member_text(p));
    let mut v: Vec<String> = Vec::new();
    let mut i: usize = 0;
    assert(texts(v@) =~= all.take(0));
    while i < members.len()
        invariant
            i <= members@.len(),
            all == pair_texts(members@).map_values(|p: (Text, Text)| member_text(p)),
            texts(v@) == all.take(i as int),
        decreases members@.len() - i,
    {
        let ghost before = v@;
        let m = quote(members[i].0.as_str()).concat(":").concat(members[i].1.as_str());
        assert(all[i as int] == m@);
        v.push(m);
        assert(texts(v@) =~= texts(before).push(m@));
        assert(all.take(i + 1) =~= all.take(i as int).push(m@));
        i += 1;
    }
    assert(all.take(members@.len() as int) =~= all);
    "{".to_owned().concat(join(v.as_slice(), ",").as_str()).concat("}")
}

/// A member is the first of its name: it has the value that stands there, and nothing where the name
/// does not occur.
pub proof fn law_the_first_member_counts(v: Seq<(Text, Text)>, key: Text, i: int)
    ensures
        (forall|j: int| 0 <= j < v.len() ==> (#[trigger] v[j]).0 != key) ==> lookup(v, key) is None,
        0 <= i < v.len() && v[i].0 == key && (forall|j: int|
            0 <= j < i ==> (#[trigger] v[j]).0 != key) ==> lookup(v, key) == Some(v[i].1),
    decreases v.len(),
{
    if v.len() > 0 && v[0].0 != key {
        let w = v.skip(1);
        law_the_first_member_counts(w, key, i - 1);
        if forall|j: int| 0 <= j < v.len() ==> (#[trigger] v[j]).0 != key {
            assert forall|j: int| 0 <= j < w.len() implies (#[trigger] w[j]).0 != key by {
                assert(w[j] == v[j + 1]);
            }
        }
        if 0 <= i < v.len() && v[i].0 == key && (forall|j: int|
            0 <= j < i ==> (#[trigger] v[j]).0 != key) {
            assert(w[i - 1] == v[i]);
            assert forall|j: int| 0 <= j < i - 1 implies (#[trigger] w[j]).0 != key by {
                assert(w[j] == v[j + 1]);
            }
        }
    } else if v.len() > 0 && 0 <= i && (forall|j: int| 0 <= j < i ==> (#[trigger] v[j]).0 != key) {
        assert(i == 0);
    }
}

/// A value is a string, a truth value or a number only where it is one, and is then that one.
pub proof fn law_a_value_is_of_one_kind(n: Option<NodeView>, s: Text, b: bool, w: u64)
    ensures
        as_str(n) == Some(s) <==> n == Some(NodeView::Str(s)),
        as_bool(n) == Some(b) <==> n == Some(NodeView::Bool(b)),
        as_whole(n) == Some(w) <==> n == Some(NodeView::Number(Some(w))),
        !(n matches Some(NodeView::Object(_))) ==> member(n, s) is None,
{
}

/// The text of an object: braces around its members, each the name in quotation marks, a colon and
/// the value, with a comma between two.
pub proof fn law_the_text_of_an_object(p: (Text, Text), v: Seq<(Text, Text)>)
    requires
        v.len() > 0,
    ensures
        object_text(Seq::<(Text, Text)>::empty()) == "{"@ + Seq::<char>::empty() + "}"@,
        object_text(seq![p]) == "{"@ + (quoted(p.0) + ":"@ + p.1) + "}"@,
        object_text(seq![p] + v) == "{"@ + (quoted(p.0) + ":"@ + p.1 + ","@ + joined(
            v.map_values(|q: (Text, Text)| quoted(q.0) + ":"@ + q.1),
            ","@,
        )) + "}"@,
{
    let f = |q: (Text, Text)| member_text(q);
    let g = |q: (Text, Text)| quoted(q.0) + ":"@ + q.1;
    assert(Seq::<(Text, Text)>::empty().map_values(f) =~= Seq::<Text>::empty());
    assert(seq![p].map_values(f) =~= seq![member_text(p)]);
    assert((seq![p] + v).map_values(f) =~= seq![member_text(p)] + v.map_values(f));
    assert(v.map_values(f) =~= v.map_values(g));
    law_joined(member_text(p), v.map_values(f), ","@);
}

/// A member is opened as what it is: a string, a truth value or a whole number, by the text that
/// stands under its name; a name that does not occur gives none of them.
pub proof fn law_members_are_opened(n: Option<NodeView>, key: Text)
    ensures
        member(n, key) matches Some(t) ==> {
            &&& str_member(n, key) == as_str(json_node(t))
            &&& bool_member(n, key) == as_bool(json_node(t))
            &&& whole_member(n, key) == as_whole(json_node(t))
        },
        member(n, key) is None ==> str_member(n, key) is None && bool_member(n, key) is None
            && whole_member(n, key) is None,
        n matches Some(NodeView::Object(v)) ==> member(n, key) == lookup(v, key),
{
}

/// What is missing is filled in, and what is there is kept.
pub proof fn law_or_text(t: Text, default: Text)
    ensures
        or_text(Some(t), default) == t,
        or_text(None, default) == default,
        bool_text(true) == "true"@ && bool_text(false) == "false"@,
{
}

} // verus!
