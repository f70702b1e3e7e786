//! Job specifications written as JSON text. The text is parsed by
//! `serde_json`; what this module adds is the shape that a specification
//! has in a parsed document.

use vstd::prelude::*;
use vstd::string::*;

use crate::job::{texts, Action, ActionView, JobSpec, JobSpecView, Scalar, ScalarView};
use crate::store::{push_char, str_eq};

verus! {

#[verifier::external_type_specification]
#[verifier::external_body]
pub struct ExJsonDocument(serde_json::Value);

/// One node of a JSON document, without what lies below it.
#[derive(Clone, Debug, PartialEq, Eq)]
pub enum Node {
    /// `null`.
    Null,
    /// `true` or `false`.
    Bool(bool),
    /// A non-negative whole number that fits 64 bits.
    Unsigned(u64),
    /// Any other number, in its decimal notation.
    Number(String),
    /// A string.
    Text(String),
    /// An array of so many elements.
    Array(usize),
    /// An object.
    Object,
}

/// The mathematical content of a [`Node`].
pub enum NodeView {
    Null,
    Bool(bool),
    Unsigned(u64),
    Number(Seq<char>),
    Text(Seq<char>),
    Array(nat),
    Object,
}

impl View for Node {
    type V = NodeView;

    open spec fn view(&self) -> NodeView {
        match self {
            Node::Null => NodeView::Null,
            Node::Bool(b) => NodeView::Bool(*b),
            Node::Unsigned(n) => NodeView::Unsigned(*n),
            Node::Number(s) => NodeView::Number(s@),
            Node::Text(s) => NodeView::Text(s@),
            Node::Array(n) => NodeView::Array(*n as nat),
            Node::Object => NodeView::Object,
        }
    }
}

/// What a parsed document holds: the node at every JSON Pointer (RFC 6901)
/// that leads to one, the empty pointer leading to the document itself.
pub uninterp spec fn json_nodes(doc: serde_json::Value) -> Map<Seq<char>, NodeView>;

/// What a JSON text holds once parsed; nothing where it is not JSON.
pub uninterp spec fn json_parsed(text: Seq<char>) -> Option<Map<Seq<char>, NodeView>>;

/// `serde_json::from_str` to a `serde_json::Value`: the parsed document,
/// which depends on the text alone; nothing where the text is not JSON.
#[verifier::external_body]
fn parse_document(text: &str) -> (r: Option<serde_json::Value>)
    ensures
        match r {
            Some(doc) => json_parsed(text@) == Some(json_nodes(doc)),
            None => json_parsed(text@) is None,
        },
{
    serde_json::from_str::<serde_json::Value>(text).ok()
}

/// `serde_json::Value::pointer`: the node that a JSON Pointer addresses,
/// nothing where there is no such node.
#[verifier::external_body]
fn node_at(doc: &serde_json::Value, pointer: &str) -> (r: Option<Node>)
    ensures
        match r {
            Some(n) => json_nodes(*doc).contains_key(pointer@) && json_nodes(*doc)[pointer@]
                == n@,
            None => !json_nodes(*doc).contains_key(pointer@),
        },
{
    doc.pointer(pointer).map(
        |v|
            match v {
                serde_json::Value::Null => Node::Null,
                serde_json::Value::Bool(b) => Node::Bool(*b),
                serde_json::Value::Number(n) => match n.as_u64() {
                    Some(u) => Node::Unsigned(u),
                    None => Node::Number(n.to_string()),
                },
                serde_json::Value::String(s) => Node::Text(s.clone()),
                serde_json::Value::Array(a) => Node::Array(a.len()),
                serde_json::Value::Object(_) => Node::Object,
            },
    )
}

/// The decimal digit of a number below ten.
pub open spec fn digit_of(d: nat) -> char {
    (0x30 + d) as u8 as char
}

/// The decimal notation of a number, without leading zeros.
pub open spec fn decimal_of(n: nat) -> Seq<char>
    decreases n,
{
    if n < 10 {
        seq![digit_of(n)]
    } else {
        decimal_of(n / 10).push(digit_of(n % 10))
    }
}

/// The decimal notation of `n`.
pub fn decimal(n: usize) -> (s: String)
    ensures
        s@ == decimal_of(n as nat),
    decreases n,
{
    if n < 10 {
        let mut s = String::new();
        push_char(&mut s, (0x30u8 + (n as u8)) as char);
        proof {
            assert(s@ =~= decimal_of(n as nat));
        }
        s
    } else {
        let mut s = decimal(n / 10);
        push_char(&mut s, (0x30u8 + ((n % 10) as u8)) as char);
        s
    }
}

/// Whether a pointer leads to an object.
pub open spec fn object_at(nodes: Map<Seq<char>, NodeView>, p: Seq<char>) -> bool {
    nodes.contains_key(p) && nodes[p] is Object
}

/// The string that a pointer leads to.
pub open spec fn text_at(nodes: Map<Seq<char>, NodeView>, p: Seq<char>) -> Option<Seq<char>> {
    if nodes.contains_key(p) {
        match nodes[p] {
            NodeView::Text(s) => Some(s),
            _ => None,
        }
    } else {
        None
    }
}

/// The whole number that a pointer leads to.
pub open spec fn u64_at(nodes: Map<Seq<char>, NodeView>, p: Seq<char>) -> Option<u64> {
    if nodes.contains_key(p) {
        match nodes[p] {
            NodeView::Unsigned(n) => Some(n),
            _ => None,
        }
    } else {
        None
    }
}

/// An optional string field: absent where the pointer leads nowhere or to
/// `null`; a node of another kind is a fault.
pub open spec fn opt_text_at(nodes: Map<Seq<char>, NodeView>, p: Seq<char>) -> Option<
    Option<Seq<char>>,
> {
    if nodes.contains_key(p) {
        match nodes[p] {
            NodeView::Text(s) => Some(Some(s)),
            NodeView::Null => Some(None),
            _ => None,
        }
    } else {
        Some(None)
    }
}

/// An optional number field: absent where the pointer leads nowhere or to
/// `null`; a node of another kind is a fault.
pub open spec fn opt_u64_at(nodes: Map<Seq<char>, NodeView>, p: Seq<char>) -> Option<
    Option<u64>,
> {
    if nodes.contains_key(p) {
        match nodes[p] {
            NodeView::Unsigned(n) => Some(Some(n)),
            NodeView::Null => Some(None),
            _ => None,
        }
    } else {
        Some(None)
    }
}

/// The scalar that a pointer leads to; an array or an object is none.
pub open spec fn scalar_at(nodes: Map<Seq<char>, NodeView>, p: Seq<char>) -> Option<ScalarView> {
    if nodes.contains_key(p) {
        match nodes[p] {
            NodeView::Null => Some(ScalarView::Null),
            NodeView::Bool(b) => Some(ScalarView::Bool(b)),
            NodeView::Unsigned(n) => Some(ScalarView::Unsigned(n)),
            NodeView::Number(s) => Some(ScalarView::Number(s)),
            NodeView::Text(s) => Some(ScalarView::Text(s)),
            _ => None,
        }
    } else {
        None
    }
}

/// The pointer to the `i`-th argument of an `exec` action.
pub open spec fn arg_pointer(i: nat) -> Seq<char> {
    "/action/args/"@ + decimal_of(i)
}

/// The arguments of an `exec` action: none where the field is absent, the
/// strings of the array where it is an array of strings.
pub open spec fn args_in(nodes: Map<Seq<char>, NodeView>) -> Option<Seq<Seq<char>>> {
    if nodes.contains_key("/action/args"@) {
        match nodes["/action/args"@] {
            NodeView::Array(n) => if forall|i: nat|
                i < n ==> (#[trigger] text_at(nodes, arg_pointer(i))) is Some {
                Some(Seq::new(n, |i: int| text_at(nodes, arg_pointer(i as nat)).unwrap()))
            } else {
                None
            },
            _ => None,
        }
    } else {
        Some(Seq::empty())
    }
}

/// The `exec` action of a document.
pub open spec fn exec_in(nodes: Map<Seq<char>, NodeView>) -> Option<ActionView> {
    match (
        text_at(nodes, "/action/cmd"@),
        args_in(nodes),
        opt_u64_at(nodes, "/action/timeout_ms"@),
    ) {
        (Some(cmd), Some(args), Some(timeout_ms)) => Some(
            ActionView::Exec { cmd, args, timeout_ms },
        ),
        _ => None,
    }
}

/// The `http` action of a document.
pub open spec fn http_in(nodes: Map<Seq<char>, NodeView>) -> Option<ActionView> {
    match (
        text_at(nodes, "/action/url"@),
        opt_text_at(nodes, "/action/method"@),
        opt_text_at(nodes, "/action/body"@),
        opt_u64_at(nodes, "/action/timeout_ms"@),
    ) {
        (Some(url), Some(method), Some(body), Some(timeout_ms)) => Some(
            ActionView::Http { url, method, body, timeout_ms },
        ),
        _ => None,
    }
}

/// The `kv_put` action of a document.
pub open spec fn kv_put_in(nodes: Map<Seq<char>, NodeView>) -> Option<ActionView> {
    match (
        text_at(nodes, "/action/key"@),
        text_at(nodes, "/action/decode"@),
        scalar_at(nodes, "/action/value"@),
    ) {
        (Some(key), Some(decode), Some(value)) => Some(ActionView::KvPut { key, decode, value }),
        _ => None,
    }
}

/// The `kv_del` action of a document.
pub open spec fn kv_del_in(nodes: Map<Seq<char>, NodeView>) -> Option<ActionView> {
    match text_at(nodes, "/action/key"@) {
        Some(key) => Some(ActionView::KvDel { key }),
        None => None,
    }
}

/// The action of a document: the object under `action`, whose `type` names
/// the variant (`noop`, `exec`, `http`, `kv_put`, `kv_del`) and whose other
/// fields are the variant's.
pub open spec fn action_in(nodes: Map<Seq<char>, NodeView>) -> Option<ActionView> {
    if !object_at(nodes, "/action"@) {
        None
    } else {
        match text_at(nodes, "/action/type"@) {
            Some(kind) => if kind == "noop"@ {
                Some(ActionView::Noop)
            } else if kind == "exec"@ {
                exec_in(nodes)
            } else if kind == "http"@ {
                http_in(nodes)
            } else if kind == "kv_put"@ {
                kv_put_in(nodes)
            } else if kind == "kv_del"@ {
                kv_del_in(nodes)
            } else {
                None
            },
            None => None,
        }
    }
}

/// The job specification of a document: an object with a whole number
/// under `period_ms` and an action under `action`. Other fields are
/// passed over.
pub open spec fn spec_in(nodes: Map<Seq<char>, NodeView>) -> Option<JobSpecView> {
    if !object_at(nodes, Seq::empty()) {
        None
    } else {
        match (u64_at(nodes, "/period_ms"@), action_in(nodes)) {
            (Some(period_ms), Some(action)) => Some(JobSpecView { period_ms, action }),
            _ => None,
        }
    }
}

/// The job specification that a JSON text holds.
pub open spec fn json_spec(text: Seq<char>) -> Option<JobSpecView> {
    match json_parsed(text) {
        Some(nodes) => spec_in(nodes),
        None => None,
    }
}

fn text_field(doc: &serde_json::Value, p: &str) -> (r: Option<String>)
    ensures
        match r {
            Some(s) => text_at(json_nodes(*doc), p@) == Some(s@),
            None => text_at(json_nodes(*doc), p@) is None,
        },
{
    match node_at(doc, p) {
        Some(Node::Text(s)) => Some(s),
        _ => None,
    }
}

fn u64_field(doc: &serde_json::Value, p: &str) -> (r: Option<u64>)
    ensures
        r == u64_at(json_nodes(*doc), p@),
{
    match node_at(doc, p) {
        Some(Node::Unsigned(n)) => Some(n),
        _ => None,
    }
}

fn opt_text_field(doc: &serde_json::Value, p: &str) -> (r: Option<Option<String>>)
    ensures
        match r {
            Some(Some(s)) => opt_text_at(json_nodes(*doc), p@) == Some(Some(s@)),
            Some(None) => opt_text_at(json_nodes(*doc), p@) == Some(None::<Seq<char>>),
            None => opt_text_at(json_nodes(*doc), p@) is None,
        },
{
    match node_at(doc, p) {
        Some(Node::Text(s)) => Some(Some(s)),
        Some(Node::Null) => Some(None),
        Some(_) => None,
        None => Some(None),
    }
}

fn opt_u64_field(doc: &serde_json::Value, p: &str) -> (r: Option<Option<u64>>)
    ensures
        r == opt_u64_at(json_nodes(*doc), p@),
{
    match node_at(doc, p) {
        Some(Node::Unsigned(n)) => Some(Some(n)),
        Some(Node::Null) => Some(None),
        Some(_) => None,
        None => Some(None),
    }
}

fn scalar_field(doc: &serde_json::Value, p: &str) -> (r: Option<Scalar>)
    ensures
        match r {
            Some(v) => scalar_at(json_nodes(*doc), p@) == Some(v@),
            None => scalar_at(json_nodes(*doc), p@) is None,
        },
{
    match node_at(doc, p) {
        Some(Node::Null) => Some(Scalar::Null),
        Some(Node::Bool(b)) => Some(Scalar::Bool(b)),
        Some(Node::Unsigned(n)) => Some(Scalar::Unsigned(n)),
        Some(Node::Number(s)) => Some(Scalar::Number(s)),
        Some(Node::Text(s)) => Some(Scalar::Text(s)),
        _ => None,
    }
}

fn args_field(doc: &serde_json::Value) -> (r: Option<Vec<String>>)
    ensures
        match r {
            Some(v) => args_in(json_nodes(*doc)) == Some(texts(v@)),
            None => args_in(json_nodes(*doc)) is None,
        },
{
    let ghost nodes = json_nodes(*doc);
    match node_at(doc, "/action/args") {
        None => {
            let v: Vec<String> = Vec::new();
            proof {
                assert(texts(v@) =~= Seq::<Seq<char>>::empty());
            }
            Some(v)
        },
        Some(Node::Array(n)) => {
            let mut done: Vec<String> = Vec::new();
            let mut i: usize = 0;
            while i < n
                invariant
                    i <= n,
                    nodes == json_nodes(*doc),
                    nodes.contains_key("/action/args"@),
                    nodes["/action/args"@] == NodeView::Array(n as nat),
                    done@.len() == i,
                    forall|j: nat|
                        j < i ==> (#[trigger] text_at(nodes, arg_pointer(j))) == Some(
                            done@[j as int]@,
                        ),
                decreases n - i,
            {
                let mut p = String::from_str("/action/args/");
                let index = decimal(i);
                p.append(index.as_str());
                match text_field(doc, p.as_str()) {
                    Some(s) => {
                        done.push(s);
                    },
                    None => {
                        proof {
                            assert(text_at(nodes, arg_pointer(i as nat)) is None);
                        }
                        return None;
                    },
                }
                i = i + 1;
            }
            proof {
                assert(texts(done@) =~= Seq::new(
                    n as nat,
                    |i: int| text_at(nodes, arg_pointer(i as nat)).unwrap(),
                ));
            }
            Some(done)
        },
        Some(_) => None,
    }
}

fn action_from(doc: &serde_json::Value) -> (r: Option<Action>)
    ensures
        match r {
            Some(a) => action_in(json_nodes(*doc)) == Some(a@),
            None => action_in(json_nodes(*doc)) is None,
        },
{
    match node_at(doc, "/action") {
        Some(Node::Object) => {},
        _ => {
            return None;
        },
    }
    let kind = match text_field(doc, "/action/type") {
        Some(k) => k,
        None => return None,
    };
    if str_eq(kind.as_str(), "noop") {
        Some(Action::Noop)
    } else if str_eq(kind.as_str(), "exec") {
        let cmd = text_field(doc, "/action/cmd");
        let args = args_field(doc);
        let timeout_ms = opt_u64_field(doc, "/action/timeout_ms");
        match (cmd, args, timeout_ms) {
            (Some(cmd), Some(args), Some(timeout_ms)) => Some(
                Action::Exec { cmd, args, timeout_ms },
            ),
            _ => None,
        }
    } else if str_eq(kind.as_str(), "http") {
        let url = text_field(doc, "/action/url");
        let method = opt_text_field(doc, "/action/method");
        let body = opt_text_field(doc, "/action/body");
        let timeout_ms = opt_u64_field(doc, "/action/timeout_ms");
        match (url, method, body, timeout_ms) {
            (Some(url), Some(method), Some(body), Some(timeout_ms)) => Some(
                Action::Http { url, method, body, timeout_ms },
            ),
            _ => None,
        }
    } else if str_eq(kind.as_str(), "kv_put") {
        let key = text_field(doc, "/action/key");
        let decode = text_field(doc, "/action/decode");
        let value = scalar_field(doc, "/action/value");
        match (key, decode, value) {
            (Some(key), Some(decode), Some(value)) => Some(Action::KvPut { key, decode, value }),
            _ => None,
        }
    } else if str_eq(kind.as_str(), "kv_del") {
        match text_field(doc, "/action/key") {
            Some(key) => Some(Action::KvDel { key }),
            None => None,
        }
    } else {
        None
    }
}

/// Reads the job specification that a parsed document holds.
pub fn spec_from_document(doc: &serde_json::Value) -> (r: Option<JobSpec>)
    ensures
        match r {
            Some(s) => spec_in(json_nodes(*doc)) == Some(s@),
            None => spec_in(json_nodes(*doc)) is None,
        },
{
    proof {
        reveal_strlit("");
        assert(""@ =~= Seq::<char>::empty());
    }
    match node_at(doc, "") {
        Some(Node::Object) => {},
        _ => {
            return None;
        },
    }
    let period_ms = u64_field(doc, "/period_ms");
    let action = action_from(doc);
    match (period_ms, action) {
        (Some(period_ms), Some(action)) => Some(JobSpec { period_ms, action }),
        _ => None,
    }
}

/// Reads a job specification from JSON text.
pub fn spec_from_json(text: &str) -> (r: Option<JobSpec>)
    ensures
        match r {
            Some(s) => json_spec(text@) == Some(s@),
            None => json_spec(text@) is None,
        },
{
    match parse_document(text) {
        Some(doc) => spec_from_document(&doc),
        None => None,
    }
}

} // verus!
