//! The stored form of the job model. A run state is four numbers, a legacy
//! specification a string and a number, the registry a counted list of
//! strings. A current specification is its period followed by its action:
//! a 32-bit variant number and the variant's fields in order, an optional
//! field as one byte (0 absent, 1 present) before its value.

use vstd::bytes::*;
use vstd::prelude::*;
use vstd::slice::*;

use crate::codec::{
    lemma_take_text, lemma_take_u32, lemma_take_u64, read_text, read_u32, read_u64, take_text,
    take_u32, take_u64, text_fits, text_wire, write_text, write_u32, write_u64, StoreError,
    Stored,
};
use crate::job::{
    opt_text, texts, Action, ActionView, JobSpec, JobSpecView, JobState, LegacySpec,
    LegacySpecView, Scalar, ScalarView,
};

verus! {

/// A parse result put behind strings that were read before it.
pub open spec fn behind(
    front: Seq<Seq<char>>,
    tail: Option<(Seq<Seq<char>>, Seq<u8>)>,
) -> Option<(Seq<Seq<char>>, Seq<u8>)> {
    match tail {
        Some((ss, rest)) => Some((front + ss, rest)),
        None => None,
    }
}

/// The strings of a list one after the other.
pub open spec fn texts_body(v: Seq<Seq<char>>) -> Seq<u8>
    decreases v.len(),
{
    if v.len() == 0 {
        Seq::empty()
    } else {
        text_wire(v[0]) + texts_body(v.drop_first())
    }
}

/// A list of strings on the wire: how many there are, then each of them.
pub open spec fn texts_wire(v: Seq<Seq<char>>) -> Seq<u8> {
    spec_u64_to_le_bytes(v.len() as u64) + texts_body(v)
}

/// The first `n` strings of `b`, and what follows them.
pub open spec fn take_n_texts(b: Seq<u8>, n: nat) -> Option<(Seq<Seq<char>>, Seq<u8>)>
    decreases n,
{
    if n == 0 {
        Some((Seq::empty(), b))
    } else {
        match take_text(b) {
            Some((s, rest)) => behind(seq![s], take_n_texts(rest, (n - 1) as nat)),
            None => None,
        }
    }
}

/// The counted list of strings at the front of `b`, and what follows it.
pub open spec fn take_texts(b: Seq<u8>) -> Option<(Seq<Seq<char>>, Seq<u8>)> {
    match take_u64(b) {
        Some((n, rest)) => take_n_texts(rest, n as nat),
        None => None,
    }
}

/// Whether a list of strings can be written.
pub open spec fn texts_fit(v: Seq<Seq<char>>) -> bool {
    v.len() <= u64::MAX && forall|i: int| 0 <= i < v.len() ==> text_fits(#[trigger] v[i])
}

/// Strings that were read from bytes can be written again: each is as
/// long as the length that stood before it.
pub proof fn lemma_taken_texts_fit(b: Seq<u8>, n: nat)
    requires
        take_n_texts(b, n) is Some,
        n <= u64::MAX,
    ensures
        take_n_texts(b, n) matches Some(taken) && taken.0.len() == n && texts_fit(taken.0),
    decreases n,
{
    if n > 0 {
        let (k, body) = take_u64(b)->0;
        let (s, rest) = take_text(b)->0;
        vstd::utf8::decode_utf8_encode_utf8(body.subrange(0, k as int));
        assert(text_fits(s));
        lemma_taken_texts_fit(rest, (n - 1) as nat);
        let (tail, _) = take_n_texts(rest, (n - 1) as nat)->0;
        let (all, _) = take_n_texts(b, n)->0;
        assert(all == seq![s] + tail);
        assert forall|i: int| 0 <= i < all.len() implies text_fits(#[trigger] all[i]) by {
            if i > 0 {
                assert(all[i] == tail[i - 1]);
            }
        }
    }
}

/// A list of strings that was read from bytes can be written again.
pub proof fn lemma_parsed_texts_fit(bytes: Seq<u8>)
    requires
        take_texts(bytes) is Some,
    ensures
        take_texts(bytes) matches Some(taken) && texts_fit(taken.0),
{
    let (n, rest) = take_u64(bytes)->0;
    lemma_taken_texts_fit(rest, n as nat);
}

/// An optional number on the wire.
pub open spec fn opt_u64_wire(o: Option<u64>) -> Seq<u8> {
    match o {
        None => seq![0u8],
        Some(v) => seq![1u8] + spec_u64_to_le_bytes(v),
    }
}

/// The optional number at the front of `b`, and what follows it.
pub open spec fn take_opt_u64(b: Seq<u8>) -> Option<(Option<u64>, Seq<u8>)> {
    if b.len() == 0 {
        None
    } else if b[0] == 0 {
        Some((None, b.skip(1)))
    } else if b[0] == 1 {
        match take_u64(b.skip(1)) {
            Some((v, rest)) => Some((Some(v), rest)),
            None => None,
        }
    } else {
        None
    }
}

/// An optional string on the wire.
pub open spec fn opt_text_wire(o: Option<Seq<char>>) -> Seq<u8> {
    match o {
        None => seq![0u8],
        Some(s) => seq![1u8] + text_wire(s),
    }
}

/// The optional string at the front of `b`, and what follows it.
pub open spec fn take_opt_text(b: Seq<u8>) -> Option<(Option<Seq<char>>, Seq<u8>)> {
    if b.len() == 0 {
        None
    } else if b[0] == 0 {
        Some((None, b.skip(1)))
    } else if b[0] == 1 {
        match take_text(b.skip(1)) {
            Some((s, rest)) => Some((Some(s), rest)),
            None => None,
        }
    } else {
        None
    }
}

/// Whether an optional string can be written.
pub open spec fn opt_text_fits(o: Option<Seq<char>>) -> bool {
    match o {
        None => true,
        Some(s) => text_fits(s),
    }
}

/// A scalar on the wire: its variant number, then its content.
pub open spec fn value_wire(v: ScalarView) -> Seq<u8> {
    match v {
        ScalarView::Null => spec_u32_to_le_bytes(0),
        ScalarView::Bool(b) => spec_u32_to_le_bytes(1) + seq![if b { 1u8 } else { 0u8 }],
        ScalarView::Unsigned(n) => spec_u32_to_le_bytes(2) + spec_u64_to_le_bytes(n),
        ScalarView::Number(s) => spec_u32_to_le_bytes(3) + text_wire(s),
        ScalarView::Text(s) => spec_u32_to_le_bytes(4) + text_wire(s),
    }
}

/// The scalar at the front of `b`, and what follows it.
pub open spec fn take_value(b: Seq<u8>) -> Option<(ScalarView, Seq<u8>)> {
    match take_u32(b) {
        Some((tag, r)) => if tag == 0 {
            Some((ScalarView::Null, r))
        } else if tag == 1 {
            if r.len() >= 1 && r[0] <= 1 {
                Some((ScalarView::Bool(r[0] == 1), r.skip(1)))
            } else {
                None
            }
        } else if tag == 2 {
            match take_u64(r) {
                Some((n, rest)) => Some((ScalarView::Unsigned(n), rest)),
                None => None,
            }
        } else if tag == 3 {
            match take_text(r) {
                Some((s, rest)) => Some((ScalarView::Number(s), rest)),
                None => None,
            }
        } else if tag == 4 {
            match take_text(r) {
                Some((s, rest)) => Some((ScalarView::Text(s), rest)),
                None => None,
            }
        } else {
            None
        },
        None => None,
    }
}

/// Whether a scalar can be written.
pub open spec fn value_fits(v: ScalarView) -> bool {
    match v {
        ScalarView::Number(s) => text_fits(s),
        ScalarView::Text(s) => text_fits(s),
        _ => true,
    }
}

/// An action on the wire: its variant number, then its fields in order.
pub open spec fn action_wire(a: ActionView) -> Seq<u8> {
    match a {
        ActionView::Noop => spec_u32_to_le_bytes(0),
        ActionView::Exec { cmd, args, timeout_ms } => spec_u32_to_le_bytes(1) + (text_wire(cmd) + (
        texts_wire(args) + opt_u64_wire(timeout_ms))),
        ActionView::Http { url, method, body, timeout_ms } => spec_u32_to_le_bytes(2) + (text_wire(
            url,
        ) + (opt_text_wire(method) + (opt_text_wire(body) + opt_u64_wire(timeout_ms)))),
        ActionView::KvPut { key, decode, value } => spec_u32_to_le_bytes(3) + (text_wire(key) + (
        text_wire(decode) + value_wire(value))),
        ActionView::KvDel { key } => spec_u32_to_le_bytes(4) + text_wire(key),
    }
}

/// The `Exec` fields at the front of `b`, and what follows them.
pub open spec fn take_exec(b: Seq<u8>) -> Option<(ActionView, Seq<u8>)> {
    match take_text(b) {
        Some((cmd, r1)) => match take_texts(r1) {
            Some((args, r2)) => match take_opt_u64(r2) {
                Some((timeout_ms, r3)) => Some((ActionView::Exec { cmd, args, timeout_ms }, r3)),
                None => None,
            },
            None => None,
        },
        None => None,
    }
}

/// The `Http` fields at the front of `b`, and what follows them.
pub open spec fn take_http(b: Seq<u8>) -> Option<(ActionView, Seq<u8>)> {
    match take_text(b) {
        Some((url, r1)) => match take_opt_text(r1) {
            Some((method, r2)) => match take_opt_text(r2) {
                Some((body, r3)) => match take_opt_u64(r3) {
                    Some((timeout_ms, r4)) => Some(
                        (ActionView::Http { url, method, body, timeout_ms }, r4),
                    ),
                    None => None,
                },
                None => None,
            },
            None => None,
        },
        None => None,
    }
}

/// The `KvPut` fields at the front of `b`, and what follows them.
pub open spec fn take_kv_put(b: Seq<u8>) -> Option<(ActionView, Seq<u8>)> {
    match take_text(b) {
        Some((key, r1)) => match take_text(r1) {
            Some((decode, r2)) => match take_value(r2) {
                Some((value, r3)) => Some((ActionView::KvPut { key, decode, value }, r3)),
                None => None,
            },
            None => None,
        },
        None => None,
    }
}

/// The `KvDel` fields at the front of `b`, and what follows them.
pub open spec fn take_kv_del(b: Seq<u8>) -> Option<(ActionView, Seq<u8>)> {
    match take_text(b) {
        Some((key, r1)) => Some((ActionView::KvDel { key }, r1)),
        None => None,
    }
}

/// The action at the front of `b`, and what follows it.
pub open spec fn take_action(b: Seq<u8>) -> Option<(ActionView, Seq<u8>)> {
    match take_u32(b) {
        Some((tag, r)) => if tag == 0 {
            Some((ActionView::Noop, r))
        } else if tag == 1 {
            take_exec(r)
        } else if tag == 2 {
            take_http(r)
        } else if tag == 3 {
            take_kv_put(r)
        } else if tag == 4 {
            take_kv_del(r)
        } else {
            None
        },
        None => None,
    }
}

/// Whether an action can be written.
pub open spec fn action_fits(a: ActionView) -> bool {
    match a {
        ActionView::Noop => true,
        ActionView::Exec { cmd, args, timeout_ms } => text_fits(cmd) && texts_fit(args),
        ActionView::Http { url, method, body, timeout_ms } => text_fits(url) && opt_text_fits(
            method,
        ) && opt_text_fits(body),
        ActionView::KvPut { key, decode, value } => text_fits(key) && text_fits(decode)
            && value_fits(value),
        ActionView::KvDel { key } => text_fits(key),
    }
}

/// A current specification on the wire: its period, then its action.
pub open spec fn spec_wire(s: JobSpecView) -> Seq<u8> {
    spec_u64_to_le_bytes(s.period_ms) + action_wire(s.action)
}

/// The current specification that `b` holds: a period and an action, with
/// nothing left over.
pub open spec fn parse_spec(b: Seq<u8>) -> Option<JobSpecView> {
    match take_u64(b) {
        Some((period_ms, r)) => match take_action(r) {
            Some((action, rest)) => if rest.len() == 0 {
                Some(JobSpecView { period_ms, action })
            } else {
                None
            },
            None => None,
        },
        None => None,
    }
}

/// A legacy specification on the wire: its command, then its period.
pub open spec fn legacy_wire(l: LegacySpecView) -> Seq<u8> {
    text_wire(l.cmd) + spec_u64_to_le_bytes(l.period_ms)
}

/// The legacy specification at the front of `b`.
pub open spec fn parse_legacy(b: Seq<u8>) -> Option<LegacySpecView> {
    match take_text(b) {
        Some((cmd, r)) => match take_u64(r) {
            Some((period_ms, _)) => Some(LegacySpecView { cmd, period_ms }),
            None => None,
        },
        None => None,
    }
}

/// A run state on the wire: last run, runs, failures, backoff.
pub open spec fn state_wire(s: JobState) -> Seq<u8> {
    spec_u64_to_le_bytes(s.last_run_ms) + (spec_u64_to_le_bytes(s.runs) + (spec_u64_to_le_bytes(
        s.failures,
    ) + spec_u64_to_le_bytes(s.backoff_ms)))
}

/// The run state at the front of `b`.
pub open spec fn parse_state(b: Seq<u8>) -> Option<JobState> {
    match take_u64(b) {
        Some((last_run_ms, r1)) => match take_u64(r1) {
            Some((runs, r2)) => match take_u64(r2) {
                Some((failures, r3)) => match take_u64(r3) {
                    Some((backoff_ms, _)) => Some(
                        JobState { last_run_ms, runs, failures, backoff_ms },
                    ),
                    None => None,
                },
                None => None,
            },
            None => None,
        },
        None => None,
    }
}

/// A list of strings reads back as itself whatever follows it.
pub proof fn lemma_take_n_texts(v: Seq<Seq<char>>, rest: Seq<u8>)
    requires
        texts_fit(v),
    ensures
        take_n_texts(texts_body(v) + rest, v.len()) == Some((v, rest)),
    decreases v.len(),
{
    if v.len() == 0 {
        assert(texts_body(v) + rest =~= rest);
        assert(v =~= Seq::<Seq<char>>::empty());
    } else {
        let tail = v.drop_first();
        assert(text_fits(v[0]));
        assert forall|i: int| 0 <= i < tail.len() implies text_fits(#[trigger] tail[i]) by {
            assert(tail[i] == v[i + 1]);
        }
        assert(texts_body(v) + rest =~= text_wire(v[0]) + (texts_body(tail) + rest));
        lemma_take_text(v[0], texts_body(tail) + rest);
        lemma_take_n_texts(tail, rest);
        assert(seq![v[0]] + tail =~= v);
    }
}

/// A counted list of strings reads back as itself whatever follows it.
pub proof fn lemma_take_texts(v: Seq<Seq<char>>, rest: Seq<u8>)
    requires
        texts_fit(v),
    ensures
        take_texts(texts_wire(v) + rest) == Some((v, rest)),
{
    let n = v.len() as u64;
    assert(texts_wire(v) + rest =~= spec_u64_to_le_bytes(n) + (texts_body(v) + rest));
    lemma_take_u64(n, texts_body(v) + rest);
    lemma_take_n_texts(v, rest);
}

/// An optional number reads back as itself whatever follows it.
pub proof fn lemma_take_opt_u64(o: Option<u64>, rest: Seq<u8>)
    ensures
        take_opt_u64(opt_u64_wire(o) + rest) == Some((o, rest)),
{
    let b = opt_u64_wire(o) + rest;
    match o {
        None => {
            assert(b.skip(1) =~= rest);
        },
        Some(v) => {
            assert(b.skip(1) =~= spec_u64_to_le_bytes(v) + rest);
            lemma_take_u64(v, rest);
        },
    }
}

/// An optional string reads back as itself whatever follows it.
pub proof fn lemma_take_opt_text(o: Option<Seq<char>>, rest: Seq<u8>)
    requires
        opt_text_fits(o),
    ensures
        take_opt_text(opt_text_wire(o) + rest) == Some((o, rest)),
{
    let b = opt_text_wire(o) + rest;
    match o {
        None => {
            assert(b.skip(1) =~= rest);
        },
        Some(s) => {
            assert(b.skip(1) =~= text_wire(s) + rest);
            lemma_take_text(s, rest);
        },
    }
}

/// A scalar reads back as itself whatever follows it.
pub proof fn lemma_take_value(v: ScalarView, rest: Seq<u8>)
    requires
        value_fits(v),
    ensures
        take_value(value_wire(v) + rest) == Some((v, rest)),
{
    match v {
        ScalarView::Null => {
            lemma_take_u32(0, rest);
        },
        ScalarView::Bool(b) => {
            let byte = seq![if b { 1u8 } else { 0u8 }];
            assert(value_wire(v) + rest =~= spec_u32_to_le_bytes(1) + (byte + rest));
            lemma_take_u32(1, byte + rest);
            assert((byte + rest).skip(1) =~= rest);
        },
        ScalarView::Unsigned(n) => {
            assert(value_wire(v) + rest =~= spec_u32_to_le_bytes(2) + (spec_u64_to_le_bytes(n)
                + rest));
            lemma_take_u32(2, spec_u64_to_le_bytes(n) + rest);
            lemma_take_u64(n, rest);
        },
        ScalarView::Number(s) => {
            assert(value_wire(v) + rest =~= spec_u32_to_le_bytes(3) + (text_wire(s) + rest));
            lemma_take_u32(3, text_wire(s) + rest);
            lemma_take_text(s, rest);
        },
        ScalarView::Text(s) => {
            assert(value_wire(v) + rest =~= spec_u32_to_le_bytes(4) + (text_wire(s) + rest));
            lemma_take_u32(4, text_wire(s) + rest);
            lemma_take_text(s, rest);
        },
    }
}

/// The fields of an `Exec` read back as themselves.
proof fn lemma_take_exec(
    cmd: Seq<char>,
    args: Seq<Seq<char>>,
    timeout_ms: Option<u64>,
    rest: Seq<u8>,
)
    requires
        text_fits(cmd),
        texts_fit(args),
    ensures
        take_exec(text_wire(cmd) + (texts_wire(args) + (opt_u64_wire(timeout_ms) + rest)))
            == Some((ActionView::Exec { cmd, args, timeout_ms }, rest)),
{
    let r2 = opt_u64_wire(timeout_ms) + rest;
    let r1 = texts_wire(args) + r2;
    lemma_take_text(cmd, r1);
    lemma_take_texts(args, r2);
    lemma_take_opt_u64(timeout_ms, rest);
}

/// The fields of an `Http` read back as themselves.
proof fn lemma_take_http(
    url: Seq<char>,
    method: Option<Seq<char>>,
    body: Option<Seq<char>>,
    timeout_ms: Option<u64>,
    rest: Seq<u8>,
)
    requires
        text_fits(url),
        opt_text_fits(method),
        opt_text_fits(body),
    ensures
        take_http(
            text_wire(url) + (opt_text_wire(method) + (opt_text_wire(body) + (opt_u64_wire(
                timeout_ms,
            ) + rest))),
        ) == Some((ActionView::Http { url, method, body, timeout_ms }, rest)),
{
    let r3 = opt_u64_wire(timeout_ms) + rest;
    let r2 = opt_text_wire(body) + r3;
    let r1 = opt_text_wire(method) + r2;
    lemma_take_text(url, r1);
    lemma_take_opt_text(method, r2);
    lemma_take_opt_text(body, r3);
    lemma_take_opt_u64(timeout_ms, rest);
}

/// The fields of a `KvPut` read back as themselves.
proof fn lemma_take_kv_put(key: Seq<char>, decode: Seq<char>, value: ScalarView, rest: Seq<u8>)
    requires
        text_fits(key),
        text_fits(decode),
        value_fits(value),
    ensures
        take_kv_put(text_wire(key) + (text_wire(decode) + (value_wire(value) + rest))) == Some(
            (ActionView::KvPut { key, decode, value }, rest),
        ),
{
    let r2 = value_wire(value) + rest;
    let r1 = text_wire(decode) + r2;
    lemma_take_text(key, r1);
    lemma_take_text(decode, r2);
    lemma_take_value(value, rest);
}

/// Joining is associative: one part in front of another.
proof fn lemma_join2(t: Seq<u8>, a: Seq<u8>, rest: Seq<u8>)
    ensures
        (t + a) + rest == t + (a + rest),
{
    assert((t + a) + rest =~= t + (a + rest));
}

/// Joining is associative: three parts behind a first.
proof fn lemma_join4(t: Seq<u8>, a: Seq<u8>, b: Seq<u8>, c: Seq<u8>, rest: Seq<u8>)
    ensures
        (t + (a + (b + c))) + rest == t + (a + (b + (c + rest))),
{
    assert((t + (a + (b + c))) + rest =~= t + (a + (b + (c + rest))));
}

/// Joining is associative: four parts behind a first.
proof fn lemma_join5(
    t: Seq<u8>,
    a: Seq<u8>,
    b: Seq<u8>,
    c: Seq<u8>,
    d: Seq<u8>,
    rest: Seq<u8>,
)
    ensures
        (t + (a + (b + (c + d)))) + rest == t + (a + (b + (c + (d + rest)))),
{
    assert((t + (a + (b + (c + d)))) + rest =~= t + (a + (b + (c + (d + rest)))));
}

/// An `Exec` reads back as itself whatever follows it.
proof fn lemma_take_exec_action(a: ActionView, rest: Seq<u8>)
    requires
        a is Exec,
        action_fits(a),
    ensures
        take_action(action_wire(a) + rest) == Some((a, rest)),
{
    let cmd = a->Exec_cmd;
    let args = a->Exec_args;
    let timeout_ms = a->Exec_timeout_ms;
    let r0 = text_wire(cmd) + (texts_wire(args) + (opt_u64_wire(timeout_ms) + rest));
    lemma_join4(
        spec_u32_to_le_bytes(1),
        text_wire(cmd),
        texts_wire(args),
        opt_u64_wire(timeout_ms),
        rest,
    );
    lemma_take_u32(1, r0);
    lemma_take_exec(cmd, args, timeout_ms, rest);
}

/// An `Http` reads back as itself whatever follows it.
proof fn lemma_take_http_action(a: ActionView, rest: Seq<u8>)
    requires
        a is Http,
        action_fits(a),
    ensures
        take_action(action_wire(a) + rest) == Some((a, rest)),
{
    let url = a->Http_url;
    let method = a->Http_method;
    let body = a->Http_body;
    let timeout_ms = a->Http_timeout_ms;
    let r0 = text_wire(url) + (opt_text_wire(method) + (opt_text_wire(body) + (opt_u64_wire(
        timeout_ms,
    ) + rest)));
    lemma_join5(
        spec_u32_to_le_bytes(2),
        text_wire(url),
        opt_text_wire(method),
        opt_text_wire(body),
        opt_u64_wire(timeout_ms),
        rest,
    );
    lemma_take_u32(2, r0);
    lemma_take_http(url, method, body, timeout_ms, rest);
}

/// A `KvPut` reads back as itself whatever follows it.
proof fn lemma_take_kv_put_action(a: ActionView, rest: Seq<u8>)
    requires
        a is KvPut,
        action_fits(a),
    ensures
        take_action(action_wire(a) + rest) == Some((a, rest)),
{
    let key = a->KvPut_key;
    let decode = a->KvPut_decode;
    let value = a->KvPut_value;
    let r0 = text_wire(key) + (text_wire(decode) + (value_wire(value) + rest));
    lemma_join4(
        spec_u32_to_le_bytes(3),
        text_wire(key),
        text_wire(decode),
        value_wire(value),
        rest,
    );
    lemma_take_u32(3, r0);
    lemma_take_kv_put(key, decode, value, rest);
}

/// A `KvDel` reads back as itself whatever follows it.
proof fn lemma_take_kv_del_action(a: ActionView, rest: Seq<u8>)
    requires
        a is KvDel,
        action_fits(a),
    ensures
        take_action(action_wire(a) + rest) == Some((a, rest)),
{
    let key = a->KvDel_key;
    let r0 = text_wire(key) + rest;
    lemma_join2(spec_u32_to_le_bytes(4), text_wire(key), rest);
    lemma_take_u32(4, r0);
    lemma_take_text(key, rest);
}

/// An action reads back as itself whatever follows it.
pub proof fn lemma_take_action(a: ActionView, rest: Seq<u8>)
    requires
        action_fits(a),
    ensures
        take_action(action_wire(a) + rest) == Some((a, rest)),
{
    match a {
        ActionView::Noop => {
            lemma_take_u32(0, rest);
        },
        ActionView::Exec { .. } => {
            lemma_take_exec_action(a, rest);
        },
        ActionView::Http { .. } => {
            lemma_take_http_action(a, rest);
        },
        ActionView::KvPut { .. } => {
            lemma_take_kv_put_action(a, rest);
        },
        ActionView::KvDel { .. } => {
            lemma_take_kv_del_action(a, rest);
        },
    }
}

/// Appends a counted list of strings to `out`.
pub fn write_texts(out: &mut Vec<u8>, v: &Vec<String>)
    ensures
        texts_fit(texts(v@)),
        final(out)@ == old(out)@ + texts_wire(texts(v@)),
{
    let ghost start = out@;
    let ghost all = texts(v@);
    let n = v.len();
    write_u64(out, n as u64);
    let mut i: usize = 0;
    proof {
        assert(all.skip(0) =~= all);
        assert(out@ + texts_body(all) =~= start + texts_wire(all));
    }
    while i < n
        invariant
            i <= n,
            n == v@.len(),
            all == texts(v@),
            out@ + texts_body(all.skip(i as int)) == start + texts_wire(all),
            forall|j: int| 0 <= j < i ==> text_fits(#[trigger] all[j]),
        decreases n - i,
    {
        let ghost before = out@;
        write_text(out, v[i].as_str());
        proof {
            let here = all.skip(i as int);
            assert(here[0] == v@[i as int]@);
            assert(here.drop_first() =~= all.skip(i + 1));
            assert(out@ + texts_body(all.skip(i + 1)) =~= before + texts_body(here));
        }
        i = i + 1;
    }
    proof {
        assert(all.skip(n as int) =~= Seq::<Seq<char>>::empty());
        assert(out@ =~= out@ + texts_body(all.skip(n as int)));
    }
}

/// Reads a counted list of strings from the front of `b`.
pub fn read_texts(b: &[u8]) -> (r: Option<(Vec<String>, &[u8])>)
    ensures
        match r {
            Some((v, rest)) => take_texts(b@) == Some((texts(v@), rest@)),
            None => take_texts(b@) is None,
        },
{
    let (n, first) = match read_u64(b) {
        Some(x) => x,
        None => return None,
    };
    let ghost start = first@;
    let mut cur: &[u8] = first;
    let mut done: Vec<String> = Vec::new();
    let mut left: u64 = n;
    proof {
        let t = take_n_texts(cur@, left as nat);
        assert(texts(done@) =~= Seq::<Seq<char>>::empty());
        match t {
            Some((ss, rest)) => {
                assert(texts(done@) + ss =~= ss);
            },
            None => {},
        }
    }
    while left > 0
        invariant
            take_texts(b@) == take_n_texts(start, n as nat),
            take_n_texts(start, n as nat) == behind(
                texts(done@),
                take_n_texts(cur@, left as nat),
            ),
        decreases left,
    {
        match read_text(cur) {
            Some((s, rest)) => {
                let ghost front = texts(done@);
                let ghost word = s@;
                done.push(s);
                proof {
                    assert(texts(done@) =~= front.push(word));
                    match take_n_texts(rest@, (left - 1) as nat) {
                        Some((ss, r2)) => {
                            assert(front.push(word) + ss =~= front + (seq![word] + ss));
                        },
                        None => {},
                    }
                }
                cur = rest;
                left = left - 1;
            },
            None => {
                return None;
            },
        }
    }
    proof {
        assert(texts(done@) + Seq::<Seq<char>>::empty() =~= texts(done@));
    }
    Some((done, cur))
}

/// Appends an optional number to `out`.
pub fn write_opt_u64(out: &mut Vec<u8>, o: &Option<u64>)
    ensures
        final(out)@ == old(out)@ + opt_u64_wire(*o),
{
    let ghost start = out@;
    match o {
        None => {
            out.push(0u8);
            proof {
                assert(out@ =~= start + opt_u64_wire(*o));
            }
        },
        Some(v) => {
            out.push(1u8);
            write_u64(out, *v);
            proof {
                assert(out@ =~= start + opt_u64_wire(*o));
            }
        },
    }
}

/// Reads an optional number from the front of `b`.
pub fn read_opt_u64(b: &[u8]) -> (r: Option<(Option<u64>, &[u8])>)
    ensures
        match r {
            Some((o, rest)) => take_opt_u64(b@) == Some((o, rest@)),
            None => take_opt_u64(b@) is None,
        },
{
    if b.len() == 0 {
        return None;
    }
    let rest = slice_subrange(b, 1, b.len());
    if b[0] == 0 {
        Some((None, rest))
    } else if b[0] == 1 {
        match read_u64(rest) {
            Some((v, after)) => Some((Some(v), after)),
            None => None,
        }
    } else {
        None
    }
}

/// Appends an optional string to `out`.
pub fn write_opt_text(out: &mut Vec<u8>, o: &Option<String>)
    ensures
        opt_text_fits(opt_text(*o)),
        final(out)@ == old(out)@ + opt_text_wire( opt_text(*o), ),
{
    let ghost start = out@;
    match o {
        None => {
            out.push(0u8);
            proof {
                assert(out@ =~= start + opt_text_wire(opt_text(*o)));
            }
        },
        Some(s) => {
            out.push(1u8);
            write_text(out, s.as_str());
            proof {
                assert(out@ =~= start + opt_text_wire(opt_text(*o)));
            }
        },
    }
}

/// Reads an optional string from the front of `b`.
pub fn read_opt_text(b: &[u8]) -> (r: Option<(Option<String>, &[u8])>)
    ensures
        match r {
            Some((o, rest)) => take_opt_text(b@) == Some((opt_text(o), rest@)),
            None => take_opt_text(b@) is None,
        },
{
    if b.len() == 0 {
        return None;
    }
    let rest = slice_subrange(b, 1, b.len());
    if b[0] == 0 {
        Some((None, rest))
    } else if b[0] == 1 {
        match read_text(rest) {
            Some((s, after)) => Some((Some(s), after)),
            None => None,
        }
    } else {
        None
    }
}

/// Appends a scalar to `out`.
pub fn write_value(out: &mut Vec<u8>, v: &Scalar)
    ensures
        value_fits(v@),
        final(out)@ == old(out)@ + value_wire(v@),
{
    let ghost start = out@;
    match v {
        Scalar::Null => {
            write_u32(out, 0)
        },
        Scalar::Bool(b) => {
            write_u32(out, 1);
            out.push(if *b { 1u8 } else { 0u8 });
            proof {
                assert(out@ =~= start + value_wire(v@));
            }
        },
        Scalar::Unsigned(n) => {
            write_u32(out, 2);
            write_u64(out, *n);
            proof {
                assert(out@ =~= start + value_wire(v@));
            }
        },
        Scalar::Number(s) => {
            write_u32(out, 3);
            write_text(out, s.as_str());
            proof {
                assert(out@ =~= start + value_wire(v@));
            }
        },
        Scalar::Text(s) => {
            write_u32(out, 4);
            write_text(out, s.as_str());
            proof {
                assert(out@ =~= start + value_wire(v@));
            }
        },
    }
}

/// Reads a scalar from the front of `b`.
pub fn read_value(b: &[u8]) -> (r: Option<(Scalar, &[u8])>)
    ensures
        match r {
            Some((v, rest)) => take_value(b@) == Some((v@, rest@)),
            None => take_value(b@) is None,
        },
{
    let (tag, r) = match read_u32(b) {
        Some(x) => x,
        None => return None,
    };
    if tag == 0 {
        Some((Scalar::Null, r))
    } else if tag == 1 {
        if r.len() >= 1 && r[0] <= 1 {
            Some((Scalar::Bool(r[0] == 1), slice_subrange(r, 1, r.len())))
        } else {
            None
        }
    } else if tag == 2 {
        match read_u64(r) {
            Some((n, rest)) => Some((Scalar::Unsigned(n), rest)),
            None => None,
        }
    } else if tag == 3 {
        match read_text(r) {
            Some((s, rest)) => Some((Scalar::Number(s), rest)),
            None => None,
        }
    } else if tag == 4 {
        match read_text(r) {
            Some((s, rest)) => Some((Scalar::Text(s), rest)),
            None => None,
        }
    } else {
        None
    }
}

/// Appends an action to `out`.
pub fn write_action(out: &mut Vec<u8>, a: &Action)
    ensures
        action_fits(a@),
        final(out)@ == old(out)@ + action_wire(a@),
{
    let ghost start = out@;
    match a {
        Action::Noop => {
            write_u32(out, 0)
        },
        Action::Exec { cmd, args, timeout_ms } => {
            write_u32(out, 1);
            write_text(out, cmd.as_str());
            write_texts(out, args);
            write_opt_u64(out, timeout_ms);
            proof {
                assert(out@ =~= start + action_wire(a@));
            }
        },
        Action::Http { url, method, body, timeout_ms } => {
            write_u32(out, 2);
            write_text(out, url.as_str());
            write_opt_text(out, method);
            write_opt_text(out, body);
            write_opt_u64(out, timeout_ms);
            proof {
                assert(out@ =~= start + action_wire(a@));
            }
        },
        Action::KvPut { key, decode, value } => {
            write_u32(out, 3);
            write_text(out, key.as_str());
            write_text(out, decode.as_str());
            write_value(out, value);
            proof {
                assert(out@ =~= start + action_wire(a@));
            }
        },
        Action::KvDel { key } => {
            write_u32(out, 4);
            write_text(out, key.as_str());
            proof {
                assert(out@ =~= start + action_wire(a@));
            }
        },
    }
}

/// Reads an action from the front of `b`.
pub fn read_action(b: &[u8]) -> (r: Option<(Action, &[u8])>)
    ensures
        match r {
            Some((a, rest)) => take_action(b@) == Some((a@, rest@)),
            None => take_action(b@) is None,
        },
{
    let (tag, r) = match read_u32(b) {
        Some(x) => x,
        None => return None,
    };
    if tag == 0 {
        Some((Action::Noop, r))
    } else if tag == 1 {
        let (cmd, r1) = match read_text(r) {
            Some(x) => x,
            None => return None,
        };
        let (args, r2) = match read_texts(r1) {
            Some(x) => x,
            None => return None,
        };
        let (timeout_ms, r3) = match read_opt_u64(r2) {
            Some(x) => x,
            None => return None,
        };
        Some((Action::Exec { cmd, args, timeout_ms }, r3))
    } else if tag == 2 {
        let (url, r1) = match read_text(r) {
            Some(x) => x,
            None => return None,
        };
        let (method, r2) = match read_opt_text(r1) {
            Some(x) => x,
            None => return None,
        };
        let (body, r3) = match read_opt_text(r2) {
            Some(x) => x,
            None => return None,
        };
        let (timeout_ms, r4) = match read_opt_u64(r3) {
            Some(x) => x,
            None => return None,
        };
        Some((Action::Http { url, method, body, timeout_ms }, r4))
    } else if tag == 3 {
        let (key, r1) = match read_text(r) {
            Some(x) => x,
            None => return None,
        };
        let (decode, r2) = match read_text(r1) {
            Some(x) => x,
            None => return None,
        };
        let (value, r3) = match read_value(r2) {
            Some(x) => x,
            None => return None,
        };
        Some((Action::KvPut { key, decode, value }, r3))
    } else if tag == 4 {
        let (key, r1) = match read_text(r) {
            Some(x) => x,
            None => return None,
        };
        Some((Action::KvDel { key }, r1))
    } else {
        None
    }
}

impl Stored for JobSpec {
    type Model = JobSpecView;

    open spec fn model(&self) -> JobSpecView {
        self@
    }

    open spec fn fits(m: JobSpecView) -> bool {
        action_fits(m.action)
    }

    open spec fn wire(m: JobSpecView) -> Seq<u8> {
        spec_wire(m)
    }

    open spec fn parse(bytes: Seq<u8>) -> Option<JobSpecView> {
        parse_spec(bytes)
    }

    proof fn round_trip(m: JobSpecView) {
        let empty = Seq::<u8>::empty();
        lemma_take_u64(m.period_ms, action_wire(m.action));
        lemma_take_action(m.action, empty);
        assert(action_wire(m.action) + empty =~= action_wire(m.action));
    }

    fn encode(&self) -> (b: Vec<u8>) {
        let mut out: Vec<u8> = Vec::new();
        write_u64(&mut out, self.period_ms);
        write_action(&mut out, &self.action);
        proof {
            assert(out@ =~= spec_wire(self@));
        }
        out
    }

    fn decode(bytes: &[u8]) -> (r: Result<JobSpec, StoreError>) {
        let (period_ms, r) = match read_u64(bytes) {
            Some(x) => x,
            None => return Err(StoreError::Decode),
        };
        match read_action(r) {
            Some((action, rest)) => {
                if rest.len() == 0 {
                    Ok(JobSpec { period_ms, action })
                } else {
                    Err(StoreError::Decode)
                }
            },
            None => Err(StoreError::Decode),
        }
    }
}

impl Stored for LegacySpec {
    type Model = LegacySpecView;

    open spec fn model(&self) -> LegacySpecView {
        self@
    }

    open spec fn fits(m: LegacySpecView) -> bool {
        text_fits(m.cmd)
    }

    open spec fn wire(m: LegacySpecView) -> Seq<u8> {
        legacy_wire(m)
    }

    open spec fn parse(bytes: Seq<u8>) -> Option<LegacySpecView> {
        parse_legacy(bytes)
    }

    proof fn round_trip(m: LegacySpecView) {
        let empty = Seq::<u8>::empty();
        lemma_take_text(m.cmd, spec_u64_to_le_bytes(m.period_ms));
        lemma_take_u64(m.period_ms, empty);
        assert(spec_u64_to_le_bytes(m.period_ms) + empty =~= spec_u64_to_le_bytes(m.period_ms));
    }

    fn encode(&self) -> (b: Vec<u8>) {
        let mut out: Vec<u8> = Vec::new();
        write_text(&mut out, self.cmd.as_str());
        write_u64(&mut out, self.period_ms);
        proof {
            assert(out@ =~= legacy_wire(self@));
        }
        out
    }

    fn decode(bytes: &[u8]) -> (r: Result<LegacySpec, StoreError>) {
        let (cmd, r) = match read_text(bytes) {
            Some(x) => x,
            None => return Err(StoreError::Decode),
        };
        match read_u64(r) {
            Some((period_ms, _)) => Ok(LegacySpec { cmd, period_ms }),
            None => Err(StoreError::Decode),
        }
    }
}

impl Stored for JobState {
    type Model = JobState;

    open spec fn model(&self) -> JobState {
        *self
    }

    open spec fn fits(m: JobState) -> bool {
        true
    }

    open spec fn wire(m: JobState) -> Seq<u8> {
        state_wire(m)
    }

    open spec fn parse(bytes: Seq<u8>) -> Option<JobState> {
        parse_state(bytes)
    }

    proof fn round_trip(m: JobState) {
        let empty = Seq::<u8>::empty();
        let w3 = spec_u64_to_le_bytes(m.backoff_ms);
        let w2 = spec_u64_to_le_bytes(m.failures) + w3;
        let w1 = spec_u64_to_le_bytes(m.runs) + w2;
        lemma_take_u64(m.last_run_ms, w1);
        lemma_take_u64(m.runs, w2);
        lemma_take_u64(m.failures, w3);
        lemma_take_u64(m.backoff_ms, empty);
        assert(w3 + empty =~= w3);
    }

    fn encode(&self) -> (b: Vec<u8>) {
        let mut out: Vec<u8> = Vec::new();
        write_u64(&mut out, self.last_run_ms);
        write_u64(&mut out, self.runs);
        write_u64(&mut out, self.failures);
        write_u64(&mut out, self.backoff_ms);
        proof {
            assert(out@ =~= state_wire(*self));
        }
        out
    }

    fn decode(bytes: &[u8]) -> (r: Result<JobState, StoreError>) {
        let (last_run_ms, r1) = match read_u64(bytes) {
            Some(x) => x,
            None => return Err(StoreError::Decode),
        };
        let (runs, r2) = match read_u64(r1) {
            Some(x) => x,
            None => return Err(StoreError::Decode),
        };
        let (failures, r3) = match read_u64(r2) {
            Some(x) => x,
            None => return Err(StoreError::Decode),
        };
        match read_u64(r3) {
            Some((backoff_ms, _)) => Ok(JobState { last_run_ms, runs, failures, backoff_ms }),
            None => Err(StoreError::Decode),
        }
    }
}

impl Stored for Vec<String> {
    type Model = Seq<Seq<char>>;

    open spec fn model(&self) -> Seq<Seq<char>> {
        texts(self@)
    }

    open spec fn fits(m: Seq<Seq<char>>) -> bool {
        texts_fit(m)
    }

    open spec fn wire(m: Seq<Seq<char>>) -> Seq<u8> {
        texts_wire(m)
    }

    open spec fn parse(bytes: Seq<u8>) -> Option<Seq<Seq<char>>> {
        match take_texts(bytes) {
            Some((v, _)) => Some(v),
            None => None,
        }
    }

    proof fn round_trip(m: Seq<Seq<char>>) {
        lemma_take_texts(m, Seq::empty());
        assert(texts_wire(m) + Seq::<u8>::empty() =~= texts_wire(m));
    }

    fn encode(&self) -> (b: Vec<u8>) {
        let mut out: Vec<u8> = Vec::new();
        write_texts(&mut out, self);
        proof {
            assert(out@ =~= texts_wire(texts(self@)));
        }
        out
    }

    fn decode(bytes: &[u8]) -> (r: Result<Vec<String>, StoreError>) {
        match read_texts(bytes) {
            Some((v, _)) => Ok(v),
            None => Err(StoreError::Decode),
        }
    }
}

} // verus!
