//! The op list that a walked chain produces, and its JSON text.

use vstd::prelude::*;
use crate::text::{int_decimal, i64_to_decimal};

verus! {

/// A number as it appears among method arguments.
#[derive(Debug, PartialEq)]
pub enum JsonNumber {
    /// A whole number, written without a fraction.
    Int(i64),
    /// Any other finite number: its sign and the JSON text of its magnitude.
    Float { negative: bool, magnitude: String },
}

/// A literal method argument.
#[derive(Debug, PartialEq)]
pub enum JsonValue {
    String(String),
    Number(JsonNumber),
    Bool(bool),
    Null,
}

/// The modifier scope that wraps a nested op list.
#[derive(Debug, PartialEq)]
pub enum Scope {
    /// A pseudo-class or pseudo-element, such as `:hover` or `::before`.
    Pseudo { selector: String },
    /// A media query, such as `(min-width: 640px)`.
    Media { query: String },
}

/// A registry method call with literal arguments: `.color('red')`.
#[derive(Debug, PartialEq)]
pub struct MethodOp {
    pub method: String,
    pub args: Vec<JsonValue>,
}

/// A raw property write: `.set('paddingTop', '10px')`.
#[derive(Debug, PartialEq)]
pub struct RawOp {
    pub property: String,
    pub value: String,
}

/// A modifier scope around the ops of its callback.
#[derive(Debug, PartialEq)]
pub struct ScopedOp {
    pub scope: Scope,
    pub ops: Vec<Op>,
}

#[derive(Debug, PartialEq)]
pub enum Op {
    Method(MethodOp),
    Raw(RawOp),
    Scoped(ScopedOp),
}

/// The mathematical value of a [`JsonValue`].
pub enum SpecJson {
    String(Seq<char>),
    Int(int),
    /// Sign and magnitude text of a non-whole number.
    Float(bool, Seq<char>),
    Bool(bool),
    Null,
}

pub enum SpecScope {
    Pseudo(Seq<char>),
    Media(Seq<char>),
}

/// The mathematical value of an [`Op`].
pub enum SpecOp {
    Method(Seq<char>, Seq<SpecJson>),
    Raw(Seq<char>, Seq<char>),
    Scoped(SpecScope, Seq<SpecOp>),
}

impl View for JsonValue {
    type V = SpecJson;

    open spec fn view(&self) -> SpecJson {
        match self {
            JsonValue::String(s) => SpecJson::String(s@),
            JsonValue::Number(JsonNumber::Int(i)) => SpecJson::Int(*i as int),
            JsonValue::Number(JsonNumber::Float { negative, magnitude }) => SpecJson::Float(
                *negative,
                magnitude@,
            ),
            JsonValue::Bool(b) => SpecJson::Bool(*b),
            JsonValue::Null => SpecJson::Null,
        }
    }
}

impl View for Scope {
    type V = SpecScope;

    open spec fn view(&self) -> SpecScope {
        match self {
            Scope::Pseudo { selector } => SpecScope::Pseudo(selector@),
            Scope::Media { query } => SpecScope::Media(query@),
        }
    }
}

impl JsonValue {
    /// Whether the value is a number that is not whole.
    pub fn is_f64(&self) -> (r: bool)
        ensures
            r == (self@ is Float),
    {
        match self {
            JsonValue::Number(JsonNumber::Float { .. }) => true,
            _ => false,
        }
    }
}

pub open spec fn json_values_view(v: Seq<JsonValue>) -> Seq<SpecJson> {
    v.map_values(|a: JsonValue| a@)
}

/// The value of one op.
pub open spec fn op_view(o: Op) -> SpecOp
    decreases o,
{
    match o {
        Op::Method(m) => SpecOp::Method(m.method@, json_values_view(m.args@)),
        Op::Raw(r) => SpecOp::Raw(r.property@, r.value@),
        Op::Scoped(s) => SpecOp::Scoped(s.scope@, ops_view(s.ops@)),
    }
}

/// The values of a list of ops, in order.
pub open spec fn ops_view(v: Seq<Op>) -> Seq<SpecOp>
    decreases v,
{
    if v.len() == 0 {
        Seq::empty()
    } else {
        ops_view(v.drop_last()).push(op_view(v.last()))
    }
}

impl View for Op {
    type V = SpecOp;

    open spec fn view(&self) -> SpecOp {
        op_view(*self)
    }
}

pub proof fn lemma_ops_view_len(v: Seq<Op>)
    ensures
        ops_view(v).len() == v.len(),
    decreases v.len(),
{
    if v.len() > 0 {
        lemma_ops_view_len(v.drop_last());
    }
}

pub proof fn lemma_ops_view_push(v: Seq<Op>, o: Op)
    ensures
        ops_view(v.push(o)) == ops_view(v).push(op_view(o)),
{
    assert(v.push(o).drop_last() =~= v);
}

/// A hexadecimal digit in lower case, for `0 <= d < 16`.
pub open spec fn hex_digit(d: int) -> char {
    seq!['0', '1', '2', '3', '4', '5', '6', '7', '8', '9', 'a', 'b', 'c', 'd', 'e', 'f'][d]
}

/// How one character is written inside a JSON string: `"` and `\` behind a
/// backslash, the control characters with a short escape (`\b`, `\t`, `\n`,
/// `\f`, `\r`) as such, the other characters below U+0020 as `\u00` and two
/// lowercase hexadecimal digits, and every other character as it is.
pub open spec fn json_escape_char(c: char) -> Seq<char> {
    if c == '"' {
        seq!['\\', '"']
    } else if c == '\\' {
        seq!['\\', '\\']
    } else if c == '\u{8}' {
        seq!['\\', 'b']
    } else if c == '\t' {
        seq!['\\', 't']
    } else if c == '\n' {
        seq!['\\', 'n']
    } else if c == '\u{c}' {
        seq!['\\', 'f']
    } else if c == '\r' {
        seq!['\\', 'r']
    } else if (c as int) < 0x20 {
        seq!['\\', 'u', '0', '0', hex_digit((c as int) / 16), hex_digit((c as int) % 16)]
    } else {
        seq![c]
    }
}

/// The escaped contents of a JSON string.
pub open spec fn json_escape(s: Seq<char>) -> Seq<char>
    decreases s.len(),
{
    if s.len() == 0 {
        Seq::empty()
    } else {
        json_escape(s.drop_last()) + json_escape_char(s.last())
    }
}

/// A JSON string literal holding `s`: quotes around its escaped contents.
pub open spec fn json_quoted(s: Seq<char>) -> Seq<char> {
    seq!['"'] + json_escape(s) + seq!['"']
}

/// Calls `serde_json::to_string` on a string.
///
/// The contract claims that serde_json writes a string as a quote, each
/// character escaped as [`json_escape_char`] says, and a closing quote; and
/// that it never fails on a string (its writer is an in-memory buffer and a
/// string's serialisation has no error case), so `unwrap` does not panic.
#[verifier::external_body]
fn quote_json(s: &str) -> (r: String)
    ensures
        r@ == json_quoted(s@),
{
    serde_json::to_string(s).unwrap()
}

/// The texts joined with `,`.
pub open spec fn join_commas(items: Seq<Seq<char>>) -> Seq<char>
    decreases items.len(),
{
    if items.len() == 0 {
        Seq::empty()
    } else if items.len() == 1 {
        items[0]
    } else {
        join_commas(items.drop_last()) + ","@ + items.last()
    }
}

/// JSON text of one argument.
pub open spec fn json_value_text(v: SpecJson) -> Seq<char> {
    match v {
        SpecJson::String(s) => json_quoted(s),
        SpecJson::Int(i) => int_decimal(i),
        SpecJson::Float(negative, m) => if negative { "-"@ + m } else { m },
        SpecJson::Bool(b) => if b { "true"@ } else { "false"@ },
        SpecJson::Null => "null"@,
    }
}

/// JSON array of the arguments of a method op.
pub open spec fn json_args_text(args: Seq<SpecJson>) -> Seq<char> {
    "["@ + join_commas(args.map_values(|a: SpecJson| json_value_text(a))) + "]"@
}

/// JSON object of a scope: its kind and its selector or query.
pub open spec fn scope_text(sc: SpecScope) -> Seq<char> {
    match sc {
        SpecScope::Pseudo(sel) => "{\"kind\":\"pseudo\",\"selector\":"@ + json_quoted(sel) + "}"@,
        SpecScope::Media(q) => "{\"kind\":\"media\",\"query\":"@ + json_quoted(q) + "}"@,
    }
}

/// JSON object of one op.
pub open spec fn op_text(o: SpecOp) -> Seq<char>
    decreases o, 0nat,
{
    match o {
        SpecOp::Method(m, args) => "{\"method\":"@ + json_quoted(m) + ",\"args\":"@
            + json_args_text(args) + "}"@,
        SpecOp::Raw(p, v) => "{\"property\":"@ + json_quoted(p) + ",\"value\":"@ + json_quoted(v)
            + "}"@,
        SpecOp::Scoped(sc, ops) => "{\"scope\":"@ + scope_text(sc) + ",\"ops\":"@ + ops_text(ops)
            + "}"@,
    }
}

/// The op objects joined with `,`.
pub open spec fn ops_joined(ops: Seq<SpecOp>) -> Seq<char>
    decreases ops, 0nat,
{
    if ops.len() == 0 {
        Seq::empty()
    } else if ops.len() == 1 {
        op_text(ops[0])
    } else {
        ops_joined(ops.drop_last()) + ","@ + op_text(ops.last())
    }
}

/// JSON array of an op list.
pub open spec fn ops_text(ops: Seq<SpecOp>) -> Seq<char>
    decreases ops, 1nat,
{
    "["@ + ops_joined(ops) + "]"@
}

/// Appends the JSON string literal of `s`.
fn push_quoted(out: &mut String, s: &str)
    ensures
        final(out)@ == old(out)@ + json_quoted(s@),
{
    let t = quote_json(s);
    out.append(t.as_str());
}

fn push_json_value(out: &mut String, v: &JsonValue)
    ensures
        final(out)@ == old(out)@ + json_value_text(v@),
{
    match v {
        JsonValue::String(s) => push_quoted(out, s.as_str()),
        JsonValue::Number(JsonNumber::Int(i)) => {
            let t = i64_to_decimal(*i);
            out.append(t.as_str());
        },
        JsonValue::Number(JsonNumber::Float { negative, magnitude }) => {
            if *negative {
                out.append("-");
            }
            out.append(magnitude.as_str());
        },
        JsonValue::Bool(b) => {
            if *b {
                out.append("true");
            } else {
                out.append("false");
            }
        },
        JsonValue::Null => {
            out.append("null");
        },
    }
}

/// Appends the JSON array of the arguments.
fn push_args(out: &mut String, args: &Vec<JsonValue>)
    ensures
        final(out)@ == old(out)@ + json_args_text(json_values_view(args@)),
{
    let ghost items = json_values_view(args@).map_values(|a: SpecJson| json_value_text(a));
    let ghost o0 = out@;
    out.append("[");
    let ghost start = out@;
    let n = args.len();
    let mut i: usize = 0;
    while i < n
        invariant
            n == args@.len(),
            items.len() == n,
            items == json_values_view(args@).map_values(|a: SpecJson| json_value_text(a)),
            start == o0 + "["@,
            i <= n,
            out@ == start + join_commas(items.take(i as int)),
        decreases n - i,
    {
        if i > 0 {
            out.append(",");
        }
        push_json_value(out, &args[i]);
        assert(items[i as int] == json_value_text(args@[i as int]@));
        proof {
            let t = items.take(i as int + 1);
            assert(t.drop_last() =~= items.take(i as int));
            assert(t.last() == items[i as int]);
            if i == 0 {
                assert(t.len() == 1);
                assert(join_commas(t) == items[0]);
            }
        }
        i = i + 1;
    }
    out.append("]");
    proof {
        assert(items.take(n as int) =~= items);
    }
}

fn push_scope(out: &mut String, sc: &Scope)
    ensures
        final(out)@ == old(out)@ + scope_text(sc@),
{
    match sc {
        Scope::Pseudo { selector } => {
            out.append("{\"kind\":\"pseudo\",\"selector\":");
            push_quoted(out, selector.as_str());
        },
        Scope::Media { query } => {
            out.append("{\"kind\":\"media\",\"query\":");
            push_quoted(out, query.as_str());
        },
    }
    out.append("}");
}

/// Appends the JSON object of one op.
fn push_op(out: &mut String, op: &Op)
    ensures
        final(out)@ == old(out)@ + op_text(op@),
    decreases op,
{
    match op {
        Op::Method(m) => {
            out.append("{\"method\":");
            push_quoted(out, m.method.as_str());
            out.append(",\"args\":");
            push_args(out, &m.args);
            out.append("}");
        },
        Op::Raw(r) => {
            out.append("{\"property\":");
            push_quoted(out, r.property.as_str());
            out.append(",\"value\":");
            push_quoted(out, r.value.as_str());
            out.append("}");
        },
        Op::Scoped(sc) => {
            out.append("{\"scope\":");
            push_scope(out, &sc.scope);
            out.append(",\"ops\":");
            push_ops(out, &sc.ops);
            out.append("}");
        },
    }
}

/// Appends the JSON array of an op list.
fn push_ops(out: &mut String, ops: &Vec<Op>)
    ensures
        final(out)@ == old(out)@ + ops_text(ops_view(ops@)),
    decreases ops,
{
    let ghost o0 = out@;
    out.append("[");
    let ghost start = out@;
    let n = ops.len();
    let mut i: usize = 0;
    while i < n
        invariant
            n == ops@.len(),
            start == o0 + "["@,
            i <= n,
            out@ == start + ops_joined(ops_view(ops@.take(i as int))),
        decreases n - i,
    {
        if i > 0 {
            out.append(",");
        }
        push_op(out, &ops[i]);
        proof {
            lemma_ops_view_push(ops@.take(i as int), ops@[i as int]);
            assert(ops@.take(i as int).push(ops@[i as int]) =~= ops@.take(i as int + 1));
            lemma_ops_view_len(ops@.take(i as int));
            let v = ops_view(ops@.take(i as int));
            let t = v.push(op_view(ops@[i as int]));
            assert(t.drop_last() =~= v);
            if i == 0 {
                assert(t.len() == 1);
            }
        }
        i = i + 1;
    }
    out.append("]");
    proof {
        assert(ops@.take(n as int) =~= ops@);
    }
}

/// The JSON text of an op list, as it is written into an IR comment.
pub fn serialize_ops(ops: &Vec<Op>) -> (r: String)
    ensures
        r@ == ops_text(ops_view(ops@)),
{
    let mut out = String::new();
    push_ops(&mut out, ops);
    out
}

} // verus!
