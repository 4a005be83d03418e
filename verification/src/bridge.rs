//! The bridge between HTTP requests and the web view: request identifiers, the script
//! that evaluates an expression and reports back, the table of evaluations awaiting a
//! reply, and how an evaluation ends.
use vstd::prelude::*;
use std::collections::HashMap;
use crate::numbers::{decimal, decimal_text, hex16, hex16_text, parse_hex16, parse_hex16_chars, lemma_hex16_roundtrip};
use crate::json::{reply_error, error_member, error_key, error_member_name};
use crate::text::{chars_of, push_char};

verus! {

broadcast use vstd::std_specs::hash::group_hash_axioms;

/// The identifier of an evaluation made from a random number: its sixteen-digit
/// lowercase hexadecimal numeral.
pub fn request_id(random: u64) -> (r: String)
    ensures
        r@ == hex16(random as nat),
{
    hex16_text(random)
}

/// One character of an expression as it is written inside a JavaScript template literal:
/// a backslash and a backtick get a backslash before them.
pub open spec fn template_char(c: char) -> Seq<char> {
    if c == '\\' {
        seq!['\\', '\\']
    } else if c == '`' {
        seq!['\\', '`']
    } else {
        seq![c]
    }
}

/// An expression written inside a JavaScript template literal.
pub open spec fn template_escaped(s: Seq<char>) -> Seq<char>
    decreases s.len(),
{
    if s.len() == 0 {
        seq![]
    } else {
        template_escaped(s.drop_last()) + template_char(s.last())
    }
}

pub fn escape_for_template(s: &str) -> (r: String)
    ensures
        r@ == template_escaped(s@),
{
    let cs = chars_of(s);
    let mut out = String::new();
    let mut i: usize = 0;
    assert(cs@.take(0) =~= Seq::<char>::empty());
    while i < cs.len()
        invariant
            i <= cs@.len(),
            cs@ == s@,
            out@ == template_escaped(cs@.take(i as int)),
        decreases cs@.len() - i,
    {
        let c = cs[i];
        assert(cs@.take(i + 1).drop_last() =~= cs@.take(i as int));
        if c == '\\' || c == '`' {
            push_char(&mut out, '\\');
        }
        push_char(&mut out, c);
        assert(out@ =~= template_escaped(cs@.take(i + 1)));
        i = i + 1;
    }
    assert(cs@.take(cs@.len() as int) =~= cs@);
    out
}

/// The script that evaluates `expr` in the web view and sends the outcome back under the
/// identifier `id`: the result as JSON (`null` for none), or `{"__error": message}`.
pub open spec fn eval_script(expr: Seq<char>, id: Seq<char>) -> Seq<char> {
    "(async()=>{try{let r=await (eval(`"@ + template_escaped(expr)
        + "`));window.__TAURI_INTERNALS__.invoke('plugin:agent-control|agent_control_respond',{requestId:'"@
        + id
        + "',data:JSON.stringify(r??null)})}catch(e){window.__TAURI_INTERNALS__.invoke('plugin:agent-control|agent_control_respond',{requestId:'"@
        + id + "',data:JSON.stringify({"@ + error_key() + ":e.message??String(e)})})}})()"@
}

pub fn webview_script(expr: &str, id: &str) -> (r: String)
    ensures
        r@ == eval_script(expr@, id@),
{
    let escaped = escape_for_template(expr);
    let mut js = String::from_str("(async()=>{try{let r=await (eval(`");
    js.append(escaped.as_str());
    js.append(
        "`));window.__TAURI_INTERNALS__.invoke('plugin:agent-control|agent_control_respond',{requestId:'",
    );
    js.append(id);
    js.append(
        "',data:JSON.stringify(r??null)})}catch(e){window.__TAURI_INTERNALS__.invoke('plugin:agent-control|agent_control_respond',{requestId:'",
    );
    js.append(id);
    js.append("',data:JSON.stringify({");
    js.append(error_member_name());
    js.append(":e.message??String(e)})})}})()");
    js
}

/// A template literal's text with its backslash escapes undone: a backslash stands for the
/// character after it. (Substitutions and line-ending changes are not modelled.)
pub open spec fn template_cooked(t: Seq<char>) -> Seq<char>
    decreases t.len(),
{
    if t.len() == 0 {
        seq![]
    } else if t[0] == '\\' && t.len() >= 2 {
        seq![t[1]] + template_cooked(t.skip(2))
    } else {
        seq![t[0]] + template_cooked(t.skip(1))
    }
}

/// The text stays inside its template literal: every backslash escapes the next character,
/// and no backtick stands unescaped.
pub open spec fn template_safe(t: Seq<char>) -> bool
    decreases t.len(),
{
    if t.len() == 0 {
        true
    } else if t[0] == '\\' {
        t.len() >= 2 && template_safe(t.skip(2))
    } else {
        t[0] != '`' && template_safe(t.skip(1))
    }
}

proof fn lemma_template_append(a: Seq<char>, b: Seq<char>)
    requires
        template_safe(a),
    ensures
        template_safe(a + b) == template_safe(b),
        template_cooked(a + b) == template_cooked(a) + template_cooked(b),
    decreases a.len(),
{
    if a.len() == 0 {
        assert(a + b =~= b);
    } else if a[0] == '\\' {
        assert((a + b).skip(2) =~= a.skip(2) + b);
        lemma_template_append(a.skip(2), b);
        assert(seq![a[1]] + template_cooked(a.skip(2)) + template_cooked(b) =~= seq![a[1]] + (
        template_cooked(a.skip(2)) + template_cooked(b)));
    } else {
        assert((a + b).skip(1) =~= a.skip(1) + b);
        lemma_template_append(a.skip(1), b);
        assert(seq![a[0]] + template_cooked(a.skip(1)) + template_cooked(b) =~= seq![a[0]] + (
        template_cooked(a.skip(1)) + template_cooked(b)));
    }
}

/// The escaping undoes itself: written into the template literal the expression neither
/// ends the literal early nor leaves a dangling escape, and undoing the backslash escapes
/// (`template_cooked`) gives the expression back. JavaScript does more to a template
/// literal than `template_cooked` models: it substitutes `${…}` and turns CR and CRLF into
/// LF, which this escaping leaves as they are.
pub proof fn lemma_template_roundtrip(s: Seq<char>)
    ensures
        template_safe(template_escaped(s)),
        template_cooked(template_escaped(s)) == s,
    decreases s.len(),
{
    if s.len() > 0 {
        let init = s.drop_last();
        let c = s.last();
        lemma_template_roundtrip(init);
        let t = template_char(c);
        reveal_with_fuel(template_safe, 3);
        reveal_with_fuel(template_cooked, 3);
        if c == '\\' || c == '`' {
            assert(t.skip(2) =~= Seq::<char>::empty());
        } else {
            assert(t.skip(1) =~= Seq::<char>::empty());
        }
        assert(template_safe(t));
        assert(template_cooked(t) =~= seq![c]);
        lemma_template_append(template_escaped(init), t);
        assert(init.push(c) =~= s);
        assert(init + seq![c] =~= s);
    }
}

/// How the wait for an evaluation's reply ended.
pub enum EvalOutcome {
    /// There is no main web view to evaluate in.
    NoWebview,
    /// The web view refused the script; the error as text.
    EvalFailed(String),
    /// The reply arrived.
    Replied(String),
    /// The reply channel closed before a reply came.
    ChannelClosed,
    /// No reply came in time.
    TimedOut,
}

/// The result of an evaluation given how it ended: the reply, unless it carries an
/// `__error` member; otherwise an error message.
pub open spec fn eval_result(outcome: EvalOutcome, timeout_ms: nat) -> Result<Seq<char>, Seq<char>> {
    match outcome {
        EvalOutcome::NoWebview => Err("No main webview found"@),
        EvalOutcome::EvalFailed(e) => Err("eval error: "@ + e@),
        EvalOutcome::Replied(data) => match reply_error(data@) {
            Some(e) => Err("JS error: "@ + e),
            None => Ok(data@),
        },
        EvalOutcome::ChannelClosed => Err("Channel closed"@),
        EvalOutcome::TimedOut => Err("Timeout after "@ + decimal(timeout_ms) + "ms"@),
    }
}

/// The result of an evaluation (see `eval_result`).
pub fn finish_eval(outcome: EvalOutcome, timeout_ms: u64) -> (r: Result<String, String>)
    ensures
        match r {
            Ok(d) => eval_result(outcome, timeout_ms as nat) == Ok::<Seq<char>, Seq<char>>(d@),
            Err(e) => eval_result(outcome, timeout_ms as nat) == Err::<Seq<char>, Seq<char>>(e@),
        },
{
    match outcome {
        EvalOutcome::NoWebview => Err(String::from_str("No main webview found")),
        EvalOutcome::EvalFailed(e) => {
            let mut m = String::from_str("eval error: ");
            m.append(e.as_str());
            Err(m)
        },
        EvalOutcome::Replied(data) => match error_member(data.as_str()) {
            Some(e) => {
                let mut m = String::from_str("JS error: ");
                m.append(e.as_str());
                Err(m)
            },
            None => Ok(data),
        },
        EvalOutcome::ChannelClosed => Err(String::from_str("Channel closed")),
        EvalOutcome::TimedOut => {
            let mut m = String::from_str("Timeout after ");
            let n = decimal_text(timeout_ms as u128);
            m.append(n.as_str());
            m.append("ms");
            Err(m)
        },
    }
}

/// The table after a reply arrives under the identifier `text`, and what it hands out: the
/// waiter registered under the number that `text` spells, which leaves the table; a text
/// that spells no number, or no registered one, changes nothing.
pub open spec fn claim_outcome<V>(m: Map<u64, V>, text: Seq<char>) -> (Map<u64, V>, Option<V>) {
    match parse_hex16(text) {
        Some(n) => if m.contains_key(n as u64) {
            (m.remove(n as u64), Some(m[n as u64]))
        } else {
            (m, None)
        },
        None => (m, None),
    }
}

/// `rand::random::<u64>()`. Trusted for nothing beyond its type: any number may come.
#[verifier::external_body]
fn random_number() -> (r: u64) {
    rand::random::<u64>()
}

/// Evaluations awaiting their reply, by identifier number.
pub struct PendingReplies<V> {
    waiting: HashMap<u64, V>,
}

impl<V> View for PendingReplies<V> {
    type V = Map<u64, V>;

    closed spec fn view(&self) -> Map<u64, V> {
        self.waiting@
    }
}

impl<V> PendingReplies<V> {
    pub fn new() -> (r: Self)
        ensures
            r@ == Map::<u64, V>::empty(),
    {
        PendingReplies { waiting: HashMap::new() }
    }

    /// Registers a waiter under `id`, unless a waiter is already registered there: then
    /// nothing changes and `waiter` comes back, so that identifiers stay unique.
    pub fn register(&mut self, id: u64, waiter: V) -> (r: Result<(), V>)
        ensures
            old(self)@.contains_key(id) ==> final(self)@ == old(self)@ && r == Err::<(), V>(waiter),
            !old(self)@.contains_key(id) ==> final(self)@ == old(self)@.insert(id, waiter)
                && r is Ok,
    {
        if self.waiting.contains_key(&id) {
            Err(waiter)
        } else {
            self.waiting.insert(id, waiter);
            Ok(())
        }
    }

    /// Registers a waiter under a number drawn at random, and hands out that number; when
    /// the number drawn is already pending, nothing changes and `waiter` comes back, for the
    /// caller to try again. With nothing pending, the registration always succeeds.
    pub fn register_new(&mut self, waiter: V) -> (r: Result<u64, V>)
        ensures
            match r {
                Ok(id) => !old(self)@.contains_key(id) && final(self)@ == old(self)@.insert(
                    id,
                    waiter,
                ),
                Err(w) => w == waiter && final(self)@ == old(self)@,
            },
            r is Err ==> exists|k: u64| old(self)@.contains_key(k),
            old(self)@.dom().is_empty() ==> r is Ok,
    {
        let id = random_number();
        match self.register(id, waiter) {
            Ok(()) => Ok(id),
            Err(w) => {
                assert(old(self)@.contains_key(id));
                Err(w)
            },
        }
    }

    /// Removes the waiter under `id`, if any, and hands it out.
    pub fn withdraw(&mut self, id: u64) -> (r: Option<V>)
        ensures
            final(self)@ == old(self)@.remove(id),
            match r {
                Some(v) => old(self)@.contains_key(id) && v == old(self)@[id],
                None => !old(self)@.contains_key(id),
            },
    {
        self.waiting.remove(&id)
    }

    /// Hands out the waiter for a reply that arrived under the identifier `request_id`
    /// (see `claim_outcome`).
    pub fn claim(&mut self, request_id: &str) -> (r: Option<V>)
        ensures
            (final(self)@, r) == claim_outcome(old(self)@, request_id@),
    {
        let cs = chars_of(request_id);
        match parse_hex16_chars(cs.as_slice()) {
            Some(n) => self.withdraw(n),
            None => None,
        }
    }

    pub fn len(&self) -> (r: usize)
        ensures
            r == self@.len(),
    {
        self.waiting.len()
    }
}

/// A reply sent under the identifier made for an evaluation reaches the waiter registered
/// for it, and takes it off the table.
pub proof fn lemma_reply_reaches_waiter<V>(m: Map<u64, V>, id: u64, waiter: V)
    ensures
        claim_outcome(m.insert(id, waiter), hex16(id as nat)) == (m.remove(id), Some(waiter)),
{
    lemma_hex16_roundtrip(id);
    assert(m.insert(id, waiter).remove(id) =~= m.remove(id));
}

/// A second reply under the same identifier finds no waiter and changes nothing.
pub proof fn lemma_reply_claims_once<V>(m: Map<u64, V>, text: Seq<char>)
    ensures
        claim_outcome(claim_outcome(m, text).0, text) == (claim_outcome(m, text).0, None::<V>),
{
}


/// Evaluations made from different random numbers get different identifiers, and every
/// identifier is sixteen lowercase hexadecimal digits.
pub proof fn lemma_request_ids_distinct(a: u64, b: u64)
    ensures
        hex16(a as nat).len() == 16,
        parse_hex16(hex16(a as nat)) is Some,
        a != b ==> hex16(a as nat) != hex16(b as nat),
{
    lemma_hex16_roundtrip(a);
    lemma_hex16_roundtrip(b);
}


proof fn lemma_template_escaped_concat(a: Seq<char>, b: Seq<char>)
    ensures
        template_escaped(a + b) == template_escaped(a) + template_escaped(b),
    decreases b.len(),
{
    if b.len() == 0 {
        assert(a + b =~= a);
        assert(template_escaped(a) + template_escaped(b) =~= template_escaped(a));
    } else {
        let init = b.drop_last();
        lemma_template_escaped_concat(a, init);
        assert((a + b).drop_last() =~= a + init);
        assert((a + b).last() == b.last());
        assert(template_escaped(a) + template_escaped(init) + template_char(b.last()) =~= template_escaped(
            a,
        ) + (template_escaped(init) + template_char(b.last())));
    }
}

/// Escaping for the template literal is done character by character, writes every
/// character other than a backslash or a backtick as it stands, and puts a backslash
/// before each backslash and each backtick: the escaped text of `a` then `b` is the escaped
/// text of `a` then that of `b`; text without backslashes and backticks is unchanged.
pub proof fn lemma_template_escaping_touches_only_backslash_and_backtick(a: Seq<char>, b: Seq<char>)
    ensures
        template_escaped(a + b) == template_escaped(a) + template_escaped(b),
        (forall|i: int| 0 <= i < a.len() ==> #[trigger] a[i] != '\\' && a[i] != '`') ==> template_escaped(a) == a,
        template_escaped(seq!['\\']) == seq!['\\', '\\'],
        template_escaped(seq!['`']) == seq!['\\', '`'],
{
    lemma_template_escaped_concat(a, b);
    if forall|i: int| 0 <= i < a.len() ==> #[trigger] a[i] != '\\' && a[i] != '`' {
        lemma_template_plain(a);
    }
    let x = seq!['\\'];
    assert(x.len() == 1 && x.last() == '\\');
    assert(x.drop_last() =~= Seq::<char>::empty());
    assert(template_escaped(x.drop_last()) =~= Seq::<char>::empty());
    assert(template_char('\\') =~= seq!['\\', '\\']);
    assert(seq!['`'].drop_last() =~= Seq::<char>::empty());
    assert(template_escaped(seq!['\\']) =~= seq!['\\', '\\']);
    assert(template_escaped(seq!['`']) =~= seq!['\\', '`']);
}

proof fn lemma_template_plain(a: Seq<char>)
    requires
        forall|i: int| 0 <= i < a.len() ==> #[trigger] a[i] != '\\' && a[i] != '`',
    ensures
        template_escaped(a) == a,
    decreases a.len(),
{
    if a.len() > 0 {
        let init = a.drop_last();
        assert forall|i: int| 0 <= i < init.len() implies #[trigger] init[i] != '\\' && init[i] != '`' by {
            assert(init[i] == a[i]);
        }
        lemma_template_plain(init);
        assert(a.last() == a[a.len() - 1]);
        assert(init.push(a.last()) =~= a);
        assert(init + seq![a.last()] =~= a);
    }
}
} // verus!
