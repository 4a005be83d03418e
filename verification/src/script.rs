//! Building the JavaScript expressions that drive the page helper `window.__DEVTOOLS__`.
use vstd::prelude::*;
use crate::json::{json_quoted, json_string};

verus! {

/// The views of a sequence of texts.
pub open spec fn texts(v: Seq<String>) -> Seq<Seq<char>> {
    v.map_values(|s: String| s@)
}

/// The parts, with `sep` between each two.
pub open spec fn join(parts: Seq<Seq<char>>, sep: Seq<char>) -> Seq<char>
    decreases parts.len(),
{
    if parts.len() == 0 {
        seq![]
    } else if parts.len() == 1 {
        parts[0]
    } else {
        join(parts.drop_last(), sep) + sep + parts.last()
    }
}

/// A call of the page helper's method `name` with the argument texts `args`.
pub open spec fn devtools(name: Seq<char>, args: Seq<Seq<char>>) -> Seq<char> {
    "window.__DEVTOOLS__."@ + name + "("@ + join(args, ","@) + ")"@
}

/// An object literal with the given member texts.
pub open spec fn object(members: Seq<Seq<char>>) -> Seq<char> {
    "{"@ + join(members, ","@) + "}"@
}

/// `true` or `false`, as `format!("{}")` writes a `bool`.
pub open spec fn bool_text(b: bool) -> Seq<char> {
    if b {
        "true"@
    } else {
        "false"@
    }
}

pub fn join_texts(parts: &Vec<String>, sep: &str) -> (r: String)
    ensures
        r@ == join(texts(parts@), sep@),
{
    let ghost ts = texts(parts@);
    let mut out = String::new();
    let mut i: usize = 0;
    assert(ts.take(0) =~= Seq::<Seq<char>>::empty());
    while i < parts.len()
        invariant
            ts == texts(parts@),
            i <= parts@.len(),
            out@ == join(ts.take(i as int), sep@),
        decreases parts@.len() - i,
    {
        assert(ts.take(i + 1).drop_last() =~= ts.take(i as int));
        assert(ts[i as int] == parts@[i as int]@);
        if i > 0 {
            out.append(sep);
        } else {
            assert(out@ + parts@[0]@ =~= parts@[0]@);
        }
        out.append(parts[i].as_str());
        i = i + 1;
    }
    assert(ts.take(ts.len() as int) =~= ts);
    out
}

/// A call of the page helper's method `name` with the argument texts `args`.
pub fn devtools_call(name: &str, args: &Vec<String>) -> (r: String)
    ensures
        r@ == devtools(name@, texts(args@)),
{
    let mut s = String::from_str("window.__DEVTOOLS__.");
    s.append(name);
    s.append("(");
    let joined = join_texts(args, ",");
    s.append(joined.as_str());
    s.append(")");
    s
}

/// An object literal with the given member texts.
pub fn object_literal(members: &Vec<String>) -> (r: String)
    ensures
        r@ == object(texts(members@)),
{
    let mut s = String::from_str("{");
    let joined = join_texts(members, ",");
    s.append(joined.as_str());
    s.append("}");
    s
}

pub fn bool_literal(b: bool) -> (r: String)
    ensures
        r@ == bool_text(b),
{
    if b {
        String::from_str("true")
    } else {
        String::from_str("false")
    }
}

/// `prefix` followed by `rest`.
pub fn concat(prefix: &str, rest: &str) -> (r: String)
    ensures
        r@ == prefix@ + rest@,
{
    let mut s = String::from_str(prefix);
    s.append(rest);
    s
}

/// `prefix` followed by the JSON string literal for `value`.
pub fn labelled_quote(prefix: &str, value: &str) -> (r: String)
    ensures
        r@ == prefix@ + json_quoted(value@),
{
    let q = json_string(value);
    concat(prefix, q.as_str())
}

/// A helper call with no arguments.
pub fn devtools_call0(name: &str) -> (r: String)
    ensures
        r@ == devtools(name@, seq![]),
{
    let args: Vec<String> = Vec::new();
    assert(texts(args@) =~= seq![]);
    devtools_call(name, &args)
}

/// A helper call with one argument text.
pub fn devtools_call1(name: &str, a: String) -> (r: String)
    ensures
        r@ == devtools(name@, seq![a@]),
{
    let mut args: Vec<String> = Vec::new();
    args.push(a);
    assert(texts(args@) =~= seq![a@]);
    devtools_call(name, &args)
}

/// A helper call with two argument texts.
pub fn devtools_call2(name: &str, a: String, b: String) -> (r: String)
    ensures
        r@ == devtools(name@, seq![a@, b@]),
{
    let ghost (av, bv) = (a@, b@);
    let mut args: Vec<String> = Vec::new();
    args.push(a);
    args.push(b);
    assert(texts(args@) =~= seq![av, bv]);
    devtools_call(name, &args)
}

/// A helper call with three argument texts.
pub fn devtools_call3(name: &str, a: String, b: String, c: String) -> (r: String)
    ensures
        r@ == devtools(name@, seq![a@, b@, c@]),
{
    let ghost (av, bv, cv) = (a@, b@, c@);
    let mut args: Vec<String> = Vec::new();
    args.push(a);
    args.push(b);
    args.push(c);
    assert(texts(args@) =~= seq![av, bv, cv]);
    devtools_call(name, &args)
}

} // verus!
