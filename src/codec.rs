use vstd::prelude::*;
use crate::formatter::{digit_char, int_decimal, nat_decimal, push_decimal};
use crate::text::{chars_of, push_char, views};
use crate::timeline::{digit_value, digits_value, is_digit};
use crate::clock::rfc3339_nanos;
use crate::formatter::timestamp_to_nanos;
use crate::queue::enqueued;
use crate::types::LineProtocolBatch;

verus! {

pub open spec fn hex_char(d: nat) -> char {
    if d < 10 { digit_char(d) } else if d == 10 { 'a' } else if d == 11 { 'b' } else if d == 12 { 'c' }
    else if d == 13 { 'd' } else if d == 14 { 'e' } else { 'f' }
}

pub open spec fn hex_value(c: char) -> Option<nat> {
    if c == '0' { Some(0) } else if c == '1' { Some(1) } else if c == '2' { Some(2) } else if c == '3' { Some(3) }
    else if c == '4' { Some(4) } else if c == '5' { Some(5) } else if c == '6' { Some(6) } else if c == '7' { Some(7) }
    else if c == '8' { Some(8) } else if c == '9' { Some(9) } else if c == 'a' { Some(10) } else if c == 'b' { Some(11) }
    else if c == 'c' { Some(12) } else if c == 'd' { Some(13) } else if c == 'e' { Some(14) } else if c == 'f' { Some(15) }
    else { None }
}

pub open spec fn is_control(c: char) -> bool {
    (c as u32) < 0x20
}

/// What one character of a string becomes inside JSON quotes.
pub open spec fn json_char(c: char) -> Seq<char> {
    if c == '"' {
        seq!['\\', '"']
    } else if c == '\\' {
        seq!['\\', '\\']
    } else if is_control(c) {
        seq!['\\', 'u', '0', '0', hex_char((c as u32 / 16) as nat), hex_char((c as u32 % 16) as nat)]
    } else {
        seq![c]
    }
}

pub open spec fn json_body(s: Seq<char>) -> Seq<char>
    decreases s.len(),
{
    if s.len() == 0 {
        seq![]
    } else {
        json_char(s[0]) + json_body(s.drop_first())
    }
}

/// A string as a JSON string literal.
pub open spec fn json_string(s: Seq<char>) -> Seq<char> {
    seq!['"'] + json_body(s) + seq!['"']
}

/// Read a string literal's body up to and including its closing quote:
/// the characters it stands for, and how many characters it took.
pub open spec fn parse_body(t: Seq<char>) -> Option<(Seq<char>, nat)>
    decreases t.len(),
{
    if t.len() == 0 {
        None
    } else if t[0] == '"' {
        Some((seq![], 1))
    } else if t[0] == '\\' {
        if t.len() >= 2 && (t[1] == '"' || t[1] == '\\') {
            match parse_body(t.skip(2)) {
                Some((d, n)) => Some((seq![t[1]] + d, n + 2)),
                None => None,
            }
        } else if t.len() >= 6 && t[1] == 'u' && t[2] == '0' && t[3] == '0' && hex_value(t[4]) is Some
            && hex_value(t[5]) is Some && hex_value(t[4])->Some_0 * 16 + hex_value(t[5])->Some_0 < 0x20 {
            let v = hex_value(t[4])->Some_0 * 16 + hex_value(t[5])->Some_0;
            match parse_body(t.skip(6)) {
                Some((d, n)) => Some((seq![(v as u32) as char] + d, n + 6)),
                None => None,
            }
        } else {
            None
        }
    } else if is_control(t[0]) {
        None
    } else {
        match parse_body(t.drop_first()) {
            Some((d, n)) => Some((seq![t[0]] + d, n + 1)),
            None => None,
        }
    }
}

proof fn lemma_hex(d: nat)
    requires
        d < 16,
    ensures
        hex_value(hex_char(d)) == Some(d),
{
}

/// Reading back an escaped body stops at its closing quote and gives the
/// characters that were escaped.
pub proof fn lemma_parse_body(s: Seq<char>, rest: Seq<char>)
    ensures
        parse_body(json_body(s) + seq!['"'] + rest) == Some((s, json_body(s).len() + 1)),
    decreases s.len(),
{
    let t = json_body(s) + seq!['"'] + rest;
    if s.len() == 0 {
        assert(t[0] == '"');
    } else {
        let c = s[0];
        let tail = json_body(s.drop_first()) + seq!['"'] + rest;
        lemma_parse_body(s.drop_first(), rest);
        assert(t == json_char(c) + tail);
        if c == '"' || c == '\\' {
            assert(t.skip(2) == tail);
            assert(seq![c] + s.drop_first() == s);
        } else if is_control(c) {
            let hi = (c as u32 / 16) as nat;
            let lo = (c as u32 % 16) as nat;
            lemma_hex(hi);
            lemma_hex(lo);
            assert(t.skip(6) == tail);
            assert(hi * 16 + lo == c as u32);
            assert(((hi * 16 + lo) as u32) as char == c) by {
                vstd::utf8::char_u32_cast(c, (hi * 16 + lo) as u32);
            }
            assert(seq![c] + s.drop_first() == s);
        } else {
            assert(t.drop_first() == tail);
            assert(seq![c] + s.drop_first() == s);
        }
    }
}

pub open spec fn events_text(ev: Seq<Seq<char>>) -> Seq<char>
    decreases ev.len(),
{
    if ev.len() == 0 {
        seq![]
    } else if ev.len() == 1 {
        json_string(ev[0])
    } else {
        json_string(ev[0]) + seq![','] + events_text(ev.drop_first())
    }
}

pub open spec fn key_id() -> Seq<char> {
    seq!['{', '"', 'b', 'a', 't', 'c', 'h', '_', 'i', 'd', '"', ':']
}

pub open spec fn key_created() -> Seq<char> {
    seq![',', '"', 'c', 'r', 'e', 'a', 't', 'e', 'd', '_', 'a', 't', '_', 'm', 's', '"', ':']
}

pub open spec fn key_events() -> Seq<char> {
    seq![',', '"', 'e', 'v', 'e', 'n', 't', 's', '"', ':', '[']
}

/// The text of a batch file: `{"batch_id":…,"created_at_ms":…,"events":[…]}`.
pub open spec fn batch_text(id: Seq<char>, created: int, ev: Seq<Seq<char>>) -> Seq<char> {
    key_id() + (seq!['"'] + (json_body(id) + (seq!['"'] + created_part(created, ev))))
}

/// The text after the id: the creation instant and the events.
pub open spec fn created_part(created: int, ev: Seq<Seq<char>>) -> Seq<char> {
    key_created() + (int_decimal(created) + events_part(ev))
}

/// The text after the creation instant.
pub open spec fn events_part(ev: Seq<Seq<char>>) -> Seq<char> {
    key_events() + (events_text(ev) + seq![']', '}'])
}

proof fn lemma_split(a: Seq<char>, b: Seq<char>)
    ensures
        (a + b).take(a.len() as int) == a,
        (a + b).skip(a.len() as int) == b,
{
    assert((a + b).take(a.len() as int) =~= a);
    assert((a + b).skip(a.len() as int) =~= b);
}

/// The length of the run of decimal digits that `t` starts with.
pub open spec fn digit_run(t: Seq<char>) -> nat
    decreases t.len(),
{
    if t.len() > 0 && is_digit(t[0]) { 1 + digit_run(t.drop_first()) } else { 0 }
}

/// An optionally negative decimal integer at the start of `t`, and how many
/// characters it took.
pub open spec fn parse_int(t: Seq<char>) -> Option<(int, nat)> {
    if t.len() > 0 && t[0] == '-' {
        let k = digit_run(t.drop_first());
        if k == 0 { None } else { Some((-(digits_value(t.drop_first().take(k as int)) as int), k + 1)) }
    } else {
        let k = digit_run(t);
        if k == 0 { None } else { Some((digits_value(t.take(k as int)) as int, k)) }
    }
}

/// The string literals of an event list after its `[`, through its `]`.
pub open spec fn parse_items(t: Seq<char>) -> Option<(Seq<Seq<char>>, nat)>
    decreases t.len(),
{
    if t.len() == 0 || t[0] != '"' {
        None
    } else {
        match parse_body(t.drop_first()) {
            None => None,
            Some((s, n)) => {
                if n + 2 <= t.len() && t[n + 1 as int] == ']' {
                    Some((seq![s], n + 2))
                } else if n + 2 <= t.len() && t[n + 1 as int] == ',' {
                    match parse_items(t.skip((n + 2) as int)) {
                        Some((ss, m)) => Some((seq![s] + ss, n + 2 + m)),
                        None => None,
                    }
                } else {
                    None
                }
            },
        }
    }
}

pub open spec fn parse_events(t: Seq<char>) -> Option<(Seq<Seq<char>>, nat)> {
    if t.len() > 0 && t[0] == ']' { Some((seq![], 1)) } else { parse_items(t) }
}

pub open spec fn begins(t: Seq<char>, p: Seq<char>) -> bool {
    p.len() <= t.len() && t.take(p.len() as int) == p
}

/// The part after the creation instant: the event list and the closing brace.
pub open spec fn decode_events_part(d: Seq<char>) -> Option<Seq<Seq<char>>> {
    if !begins(d, key_events()) {
        None
    } else {
        match parse_events(d.skip(11)) {
            None => None,
            Some((ev, m)) => if d.skip((11 + m) as int) == seq!['}'] { Some(ev) } else { None },
        }
    }
}

/// The part after the id: the creation instant, then the events.
pub open spec fn decode_created_part(b: Seq<char>) -> Option<(int, Seq<Seq<char>>)> {
    if !begins(b, key_created()) {
        None
    } else {
        match parse_int(b.skip(17)) {
            None => None,
            Some((v, k)) => if !(i64::MIN <= v <= i64::MAX) {
                None
            } else {
                match decode_events_part(b.skip((17 + k) as int)) {
                    Some(ev) => Some((v, ev)),
                    None => None,
                }
            },
        }
    }
}

/// What a batch file's text holds: id, creation instant and events; `None`
/// for any text that is not exactly a batch file.
pub open spec fn decode_text(t: Seq<char>) -> Option<(Seq<char>, int, Seq<Seq<char>>)> {
    if !begins(t, key_id()) || t.len() < 13 || t[12] != '"' {
        None
    } else {
        match parse_body(t.skip(13)) {
            None => None,
            Some((id, n)) => match decode_created_part(t.skip((13 + n) as int)) {
                Some((v, ev)) => Some((id, v, ev)),
                None => None,
            },
        }
    }
}

proof fn lemma_json_body_len(s: Seq<char>)
    ensures
        json_body(s).len() >= s.len(),
    decreases s.len(),
{
    if s.len() > 0 {
        lemma_json_body_len(s.drop_first());
    }
}

#[verifier::rlimit(40)]
proof fn lemma_parse_items(ev: Seq<Seq<char>>, rest: Seq<char>)
    requires
        ev.len() > 0,
    ensures
        parse_items(events_text(ev) + seq![']'] + rest) == Some((ev, events_text(ev).len() + 1)),
    decreases ev.len(),
{
    let s = ev[0];
    let t = events_text(ev) + seq![']'] + rest;
    let body = json_body(s);
    if ev.len() == 1 {
        assert(t == seq!['"'] + body + seq!['"'] + (seq![']'] + rest));
        assert(t.drop_first() == body + seq!['"'] + (seq![']'] + rest));
        lemma_parse_body(s, seq![']'] + rest);
        assert(t[body.len() + 1 as int] == '"');
        assert(t[body.len() + 2 as int] == ']');
        assert(seq![s] == ev);
    } else {
        let tail = events_text(ev.drop_first()) + seq![']'] + rest;
        assert(t == seq!['"'] + body + seq!['"'] + (seq![','] + tail));
        assert(t.drop_first() == body + seq!['"'] + (seq![','] + tail));
        lemma_parse_body(s, seq![','] + tail);
        assert(t[body.len() + 2 as int] == ',');
        assert(t.skip((body.len() + 3) as int) == tail);
        lemma_parse_items(ev.drop_first(), rest);
        assert(seq![s] + ev.drop_first() == ev);
    }
}

proof fn lemma_digit_char(d: nat)
    requires
        d < 10,
    ensures
        is_digit(digit_char(d)),
        digit_value(digit_char(d)) == d,
{
}

proof fn lemma_nat_decimal(n: nat)
    ensures
        nat_decimal(n).len() > 0,
        forall|i: int| 0 <= i < nat_decimal(n).len() ==> is_digit(#[trigger] nat_decimal(n)[i]),
        digits_value(nat_decimal(n)) == n,
    decreases n,
{
    lemma_digit_char(n % 10);
    if n >= 10 {
        lemma_nat_decimal(n / 10);
        let s = nat_decimal(n / 10);
        assert(nat_decimal(n).drop_last() == s);
        assert(nat_decimal(n).last() == digit_char(n % 10));
        assert(digits_value(nat_decimal(n)) == digits_value(s) * 10 + n % 10);
        assert(n == (n / 10) * 10 + n % 10);
    } else {
        assert(nat_decimal(n).drop_last() == Seq::<char>::empty());
        assert(nat_decimal(n).last() == digit_char(n));
        assert(digits_value(nat_decimal(n)) == digits_value(Seq::<char>::empty()) * 10 + n);
    }
}

proof fn lemma_digit_run(a: Seq<char>, b: Seq<char>)
    requires
        forall|i: int| 0 <= i < a.len() ==> is_digit(#[trigger] a[i]),
        b.len() == 0 || !is_digit(b[0]),
    ensures
        digit_run(a + b) == a.len(),
    decreases a.len(),
{
    if a.len() > 0 {
        assert((a + b).drop_first() == a.drop_first() + b);
        lemma_digit_run(a.drop_first(), b);
    } else {
        assert(a + b == b);
    }
}

proof fn lemma_parse_int(i: int, rest: Seq<char>)
    requires
        rest.len() > 0,
        rest[0] == ',',
    ensures
        parse_int(int_decimal(i) + rest) == Some((i, int_decimal(i).len())),
{
    let n: nat = if i < 0 { (-i) as nat } else { i as nat };
    let digits = nat_decimal(n);
    lemma_nat_decimal(n);
    lemma_digit_run(digits, rest);
    if i < 0 {
        let t = int_decimal(i) + rest;
        assert(t.drop_first() == digits + rest);
        assert((digits + rest).take(digits.len() as int) == digits);
    } else {
        assert((digits + rest).take(digits.len() as int) == digits);
    }
}

proof fn lemma_events_part(ev: Seq<Seq<char>>)
    ensures
        decode_events_part(events_part(ev)) == Some(ev),
{
    let d = events_part(ev);
    let list = events_text(ev) + seq![']', '}'];
    lemma_split(key_events(), list);
    if ev.len() == 0 {
        assert(list == seq![']', '}']);
        assert(list.skip(1) == seq!['}']);
        assert(d.skip(12) == seq!['}']);
    } else {
        assert(list == events_text(ev) + seq![']'] + seq!['}']);
        lemma_parse_items(ev, seq!['}']);
        assert(list.skip((events_text(ev).len() + 1) as int) == seq!['}']);
        assert(d.skip((11 + events_text(ev).len() + 1) as int) == seq!['}']);
    }
}

proof fn lemma_created_part(created: i64, ev: Seq<Seq<char>>)
    ensures
        decode_created_part(created_part(created as int, ev)) == Some((created as int, ev)),
{
    let num = int_decimal(created as int);
    let after_num = events_part(ev);
    let b = created_part(created as int, ev);
    lemma_split(key_created(), num + after_num);
    assert(after_num[0] == ',');
    lemma_parse_int(created as int, after_num);
    lemma_split(num, after_num);
    assert(b.skip((17 + num.len()) as int) == after_num);
    lemma_events_part(ev);
}

/// Decoding the text of a batch gives back its id, its instant and its
/// events, in order.
pub proof fn lemma_batch_round_trip(id: Seq<char>, created: i64, ev: Seq<Seq<char>>)
    ensures
        decode_text(batch_text(id, created as int, ev)) == Some((id, created as int, ev)),
{
    let t = batch_text(id, created as int, ev);
    let body = json_body(id);
    let after_id = created_part(created as int, ev);
    let quoted = seq!['"'] + (body + (seq!['"'] + after_id));
    lemma_split(key_id(), quoted);
    assert(t[12] == quoted[0]);
    assert(t.skip(13) == quoted.drop_first());
    assert(quoted.drop_first() == body + seq!['"'] + after_id);
    lemma_parse_body(id, after_id);
    assert(t.skip((13 + body.len() + 1) as int) == after_id);
    lemma_created_part(created, ev);
}

proof fn lemma_json_body_push(a: Seq<char>, c: char)
    ensures
        json_body(a.push(c)) == json_body(a) + json_char(c),
    decreases a.len(),
{
    if a.len() == 0 {
        assert(a.push(c).drop_first() == Seq::<char>::empty());
        assert(json_body(Seq::<char>::empty()) == Seq::<char>::empty());
    } else {
        assert(a.push(c).drop_first() == a.drop_first().push(c));
        lemma_json_body_push(a.drop_first(), c);
    }
}

proof fn lemma_events_text_push(ev: Seq<Seq<char>>, e: Seq<char>)
    ensures
        events_text(ev.push(e)) == if ev.len() == 0 {
            json_string(e)
        } else {
            events_text(ev) + seq![','] + json_string(e)
        },
    decreases ev.len(),
{
    if ev.len() == 0 {
        assert(ev.push(e) == seq![e]);
        assert(events_text(seq![e]) == json_string(e));
    } else if ev.len() == 1 {
        assert(ev.push(e).drop_first() == seq![e]);
        assert(events_text(seq![e]) == json_string(e));
        assert(ev.push(e)[0] == ev[0]);
    } else {
        assert(ev.push(e).drop_first() == ev.drop_first().push(e));
        lemma_events_text_push(ev.drop_first(), e);
        assert(ev.push(e)[0] == ev[0]);
        let a = json_string(ev[0]);
        let b = events_text(ev.drop_first());
        let c = json_string(e);
        assert(a + seq![','] + (b + seq![','] + c) =~= a + seq![','] + b + seq![','] + c);
    }
}

fn hex_digit(d: u32) -> (c: char)
    requires
        d < 16,
    ensures
        c == hex_char(d as nat),
{
    if d == 0 { '0' } else if d == 1 { '1' } else if d == 2 { '2' } else if d == 3 { '3' }
    else if d == 4 { '4' } else if d == 5 { '5' } else if d == 6 { '6' } else if d == 7 { '7' }
    else if d == 8 { '8' } else if d == 9 { '9' } else if d == 10 { 'a' } else if d == 11 { 'b' }
    else if d == 12 { 'c' } else if d == 13 { 'd' } else if d == 14 { 'e' } else { 'f' }
}

fn push_json_string(out: &mut String, s: &str)
    ensures
        final(out)@ == old(out)@ + json_string(s@),
{
    let ghost start = out@;
    push_char(out, '"');
    for c in it: s.chars()
        invariant
            it.seq() == s@,
            out@ == start + seq!['"'] + json_body(s@.take(it.index() as int)),
    {
        proof {
            assert(s@.take(it.index() + 1) == s@.take(it.index() as int).push(c));
            lemma_json_body_push(s@.take(it.index() as int), c);
        }
        if c == '"' {
            push_char(out, '\\');
            push_char(out, '"');
        } else if c == '\\' {
            push_char(out, '\\');
            push_char(out, '\\');
        } else if (c as u32) < 0x20 {
            push_char(out, '\\');
            push_char(out, 'u');
            push_char(out, '0');
            push_char(out, '0');
            push_char(out, hex_digit(c as u32 / 16));
            push_char(out, hex_digit(c as u32 % 16));
        } else {
            push_char(out, c);
        }
        proof {
            assert(out@ == start + seq!['"'] + json_body(s@.take(it.index() + 1)));
        }
    }
    proof {
        assert(s@.take(s@.len() as int) == s@);
    }
    push_char(out, '"');
    proof {
        assert(out@ == start + json_string(s@));
    }
}

fn push_chars(out: &mut String, cs: &Vec<char>)
    ensures
        final(out)@ == old(out)@ + cs@,
{
    let ghost start = out@;
    let mut i: usize = 0;
    while i < cs.len()
        invariant
            i <= cs.len(),
            out@ == start + cs@.take(i as int),
        decreases cs.len() - i,
    {
        push_char(out, cs[i]);
        i = i + 1;
        proof {
            assert(cs@.take(i as int) == cs@.take(i - 1).push(cs@[i - 1]));
        }
    }
    proof {
        assert(cs@.take(cs@.len() as int) == cs@);
    }
}

fn key_id_chars() -> (r: Vec<char>)
    ensures
        r@ == key_id(),
{
    let r = vec!['{', '"', 'b', 'a', 't', 'c', 'h', '_', 'i', 'd', '"', ':'];
    assert(r@ == key_id());
    r
}

fn key_created_chars() -> (r: Vec<char>)
    ensures
        r@ == key_created(),
{
    let r = vec![',', '"', 'c', 'r', 'e', 'a', 't', 'e', 'd', '_', 'a', 't', '_', 'm', 's', '"', ':'];
    assert(r@ == key_created());
    r
}

fn key_events_chars() -> (r: Vec<char>)
    ensures
        r@ == key_events(),
{
    let r = vec![',', '"', 'e', 'v', 'e', 'n', 't', 's', '"', ':', '['];
    assert(r@ == key_events());
    r
}

/// The text of a batch file for `batch`.
pub fn encode_batch(batch: &LineProtocolBatch) -> (r: String)
    ensures
        r@ == batch_text(batch.batch_id@, batch.created_at_ms as int, views(batch.events@)),
{
    let mut out = String::new();
    push_chars(&mut out, &key_id_chars());
    push_json_string(&mut out, batch.batch_id.as_str());
    let ghost after_id = out@;
    push_chars(&mut out, &key_created_chars());
    push_decimal(&mut out, batch.created_at_ms);
    let ghost after_num = out@;
    push_chars(&mut out, &key_events_chars());
    let ghost list_start = out@;
    let ghost ev = views(batch.events@);
    let mut i: usize = 0;
    while i < batch.events.len()
        invariant
            i <= batch.events.len(),
            ev == views(batch.events@),
            out@ == list_start + events_text(ev.take(i as int)),
        decreases batch.events.len() - i,
    {
        proof {
            assert(ev.take(i + 1) == ev.take(i as int).push(ev[i as int]));
            lemma_events_text_push(ev.take(i as int), ev[i as int]);
        }
        if i > 0 {
            push_char(&mut out, ',');
        }
        push_json_string(&mut out, batch.events[i].as_str());
        i = i + 1;
    }
    proof {
        assert(ev.take(ev.len() as int) == ev);
    }
    push_char(&mut out, ']');
    push_char(&mut out, '}');
    proof {
        let id = batch.batch_id@;
        let created = batch.created_at_ms as int;
        assert(out@ == key_id() + json_string(id) + key_created() + int_decimal(created) + key_events()
            + events_text(ev) + seq![']', '}']);
        assert(out@ =~= batch_text(id, created, ev));
    }
    out
}

pub open spec fn shifted(r: Option<(Seq<char>, nat)>, pre: Seq<char>, k: int) -> Option<(Seq<char>, int)> {
    match r {
        Some((d, n)) => Some((pre + d, n + k)),
        None => None,
    }
}

fn hex_val(c: char) -> (r: Option<u32>)
    ensures
        match hex_value(c) {
            Some(d) => r == Some(d as u32),
            None => r is None,
        },
{
    if c == '0' { Some(0) } else if c == '1' { Some(1) } else if c == '2' { Some(2) } else if c == '3' { Some(3) }
    else if c == '4' { Some(4) } else if c == '5' { Some(5) } else if c == '6' { Some(6) } else if c == '7' { Some(7) }
    else if c == '8' { Some(8) } else if c == '9' { Some(9) } else if c == 'a' { Some(10) } else if c == 'b' { Some(11) }
    else if c == 'c' { Some(12) } else if c == 'd' { Some(13) } else if c == 'e' { Some(14) } else if c == 'f' { Some(15) }
    else { None }
}

/// Read a string literal's body starting at `p`, through its closing quote.
fn parse_body_at(v: &Vec<char>, p: usize) -> (r: Option<(String, usize)>)
    requires
        p <= v.len(),
    ensures
        match parse_body(v@.skip(p as int)) {
            Some((d, n)) => r is Some && r->Some_0.0@ == d && r->Some_0.1 == n,
            None => r is None,
        },
{
    let mut out = String::new();
    let mut i = p;
    while i < v.len()
        invariant
            p <= i <= v.len(),
            shifted(parse_body(v@.skip(p as int)), seq![], 0) == shifted(parse_body(v@.skip(i as int)), out@, i - p),
        decreases v.len() - i,
    {
        let ghost t = v@.skip(i as int);
        let c = v[i];
        assert(t[0] == c);
        if c == '"' {
            return Some((out, i + 1 - p));
        } else if c == '\\' {
            if i + 1 < v.len() && (v[i + 1] == '"' || v[i + 1] == '\\') {
                proof {
                    assert(t[1] == v@[i + 1]);
                    assert(t.skip(2) == v@.skip(i + 2));
                }
                push_char(&mut out, v[i + 1]);
                i = i + 2;
            } else if v.len() - i > 5 && v[i + 1] == 'u' && v[i + 2] == '0' && v[i + 3] == '0' {
                let hi = hex_val(v[i + 4]);
                let lo = hex_val(v[i + 5]);
                proof {
                    assert(t[1] == v@[i + 1] && t[2] == v@[i + 2] && t[3] == v@[i + 3]);
                    assert(t[4] == v@[i + 4] && t[5] == v@[i + 5]);
                    assert(t.skip(6) == v@.skip(i + 6));
                }
                match (hi, lo) {
                    (Some(h), Some(l)) => {
                        if h * 16 + l < 0x20 {
                            let value: u8 = (h * 16 + l) as u8;
                            let ch = value as char;
                            assert(ch == ((h * 16 + l) as u32) as char);
                            push_char(&mut out, ch);
                            i = i + 6;
                        } else {
                            return None;
                        }
                    },
                    _ => {
                        return None;
                    },
                }
            } else {
                proof {
                    if i + 1 < v.len() {
                        assert(t[1] == v@[i + 1]);
                    }
                    if i + 5 < v.len() {
                        assert(t[1] == v@[i + 1] && t[2] == v@[i + 2] && t[3] == v@[i + 3]);
                    }
                }
                return None;
            }
        } else if (c as u32) < 0x20 {
            return None;
        } else {
            proof {
                assert(t.drop_first() == v@.skip(i + 1));
            }
            push_char(&mut out, c);
            i = i + 1;
        }
    }
    proof {
        assert(v@.skip(i as int).len() == 0);
    }
    None
}

/// The integer of `parse_int` at `p`, when it fits in an `i64`.
pub open spec fn int_in_range(r: Option<(int, nat)>) -> Option<(i64, nat)> {
    match r {
        Some((x, k)) => if i64::MIN <= x <= i64::MAX { Some((x as i64, k)) } else { None },
        None => None,
    }
}

/// Read a run of digits starting at `start`: where it ends, and its value
/// (or `limit` where the value reaches it).
fn digit_run_at(v: &Vec<char>, start: usize) -> (r: (usize, u128))
    requires
        start <= v.len(),
    ensures
        start <= r.0 <= v.len(),
        r.0 - start == digit_run(v@.skip(start as int)),
        r.1 == if digits_value(v@.subrange(start as int, r.0 as int)) < 0x1_0000_0000_0000_0000 {
            digits_value(v@.subrange(start as int, r.0 as int))
        } else {
            0x1_0000_0000_0000_0000
        },
{
    let limit: u128 = 0x1_0000_0000_0000_0000;
    let mut acc: u128 = 0;
    let mut i = start;
    while i < v.len() && '0' <= v[i] && v[i] <= '9'
        invariant
            start <= i <= v.len(),
            limit == 0x1_0000_0000_0000_0000,
            digit_run(v@.skip(start as int)) == (i - start) + digit_run(v@.skip(i as int)),
            acc == if digits_value(v@.subrange(start as int, i as int)) < limit {
                digits_value(v@.subrange(start as int, i as int))
            } else {
                limit as nat
            },
        decreases v.len() - i,
    {
        let c = v[i];
        let ghost prev = v@.subrange(start as int, i as int);
        proof {
            assert(v@.skip(i as int)[0] == c);
            assert(v@.skip(i as int).drop_first() == v@.skip(i + 1));
            assert(v@.subrange(start as int, i + 1).drop_last() == prev);
            assert(v@.subrange(start as int, i + 1).last() == c);
        }
        let d: u128 = (c as u32 - '0' as u32) as u128;
        assert(d <= 9);
        if acc < limit {
            let next = acc * 10 + d;
            acc = if next < limit { next } else { limit };
        }
        i = i + 1;
    }
    proof {
        if i < v.len() {
            assert(v@.skip(i as int)[0] == v@[i as int]);
        }
    }
    (i, acc)
}

/// Read an optionally negative integer at `p`.
fn parse_int_at(v: &Vec<char>, p: usize) -> (r: Option<(i64, usize)>)
    requires
        p <= v.len(),
    ensures
        match int_in_range(parse_int(v@.skip(p as int))) {
            Some((x, k)) => r == Some((x, k as usize)),
            None => r is None,
        },
{
    let ghost t = v@.skip(p as int);
    if p < v.len() && v[p] == '-' {
        proof {
            assert(t[0] == '-');
            assert(t.drop_first() == v@.skip(p + 1));
        }
        let (end, val) = digit_run_at(v, p + 1);
        proof {
            assert(t.drop_first().take((end - p - 1) as int) == v@.subrange(p + 1, end as int));
        }
        if end == p + 1 || val > 0x8000_0000_0000_0000 {
            return None;
        }
        let x: i64 = if val == 0x8000_0000_0000_0000 { i64::MIN } else { -(val as i64) };
        Some((x, end - p))
    } else {
        proof {
            if p < v.len() {
                assert(t[0] == v@[p as int]);
            }
        }
        let (end, val) = digit_run_at(v, p);
        proof {
            assert(t.take((end - p) as int) == v@.subrange(p as int, end as int));
        }
        if end == p || val > 0x7fff_ffff_ffff_ffff {
            return None;
        }
        Some((val as i64, end - p))
    }
}

pub open spec fn shifted_list(r: Option<(Seq<Seq<char>>, nat)>, pre: Seq<Seq<char>>, k: int) -> Option<(Seq<Seq<char>>, int)> {
    match r {
        Some((ss, m)) => Some((pre + ss, m + k)),
        None => None,
    }
}

/// Read the string literals of an event list starting at `p`, through its `]`.
fn parse_items_at(v: &Vec<char>, p: usize) -> (r: Option<(Vec<String>, usize)>)
    requires
        p <= v.len(),
    ensures
        match parse_items(v@.skip(p as int)) {
            Some((ss, m)) => r is Some && views(r->Some_0.0@) == ss && r->Some_0.1 == m,
            None => r is None,
        },
{
    let mut items: Vec<String> = Vec::new();
    let mut i = p;
    loop
        invariant
            p <= i <= v.len(),
            shifted_list(parse_items(v@.skip(p as int)), seq![], 0) == shifted_list(parse_items(v@.skip(i as int)),
                views(items@), i - p),
        decreases v.len() - i,
    {
        let ghost t = v@.skip(i as int);
        if i >= v.len() || v[i] != '"' {
            proof {
                if i < v.len() {
                    assert(t[0] == v@[i as int]);
                }
            }
            return None;
        }
        proof {
            assert(t[0] == '"');
            assert(t.drop_first() == v@.skip(i + 1));
        }
        let body = parse_body_at(v, i + 1);
        match body {
            None => {
                return None;
            },
            Some((s, n)) => {
                if v.len() - i < 2 || n > v.len() - i - 2 {
                    return None;
                }
                let c = v[i + n + 1];
                proof {
                    assert(t[n + 1 as int] == c);
                }
                if c == ']' {
                    let ghost before = views(items@);
                    items.push(s);
                    proof {
                        assert(views(items@) =~= before.push(s@));
                        assert(before + seq![s@] =~= before.push(s@));
                    }
                    return Some((items, i + n + 2 - p));
                } else if c == ',' {
                    let ghost before = views(items@);
                    items.push(s);
                    proof {
                        assert(views(items@) =~= before.push(s@));
                        assert(t.skip((n + 2) as int) == v@.skip((i + n + 2) as int));
                        assert(before + (seq![s@] + Seq::<Seq<char>>::empty()) =~= before.push(s@));
                    }
                    i = i + n + 2;
                    proof {
                        match parse_items(v@.skip(i as int)) {
                            Some((ss, m)) => {
                                assert(before + (seq![s@] + ss) =~= before.push(s@) + ss);
                            },
                            None => {},
                        }
                    }
                } else {
                    return None;
                }
            },
        }
    }
}

proof fn lemma_parse_body_len(t: Seq<char>)
    ensures
        parse_body(t) is Some ==> parse_body(t)->Some_0.1 <= t.len(),
    decreases t.len(),
{
    if t.len() > 0 && t[0] != '"' {
        if t[0] == '\\' {
            if t.len() >= 2 {
                lemma_parse_body_len(t.skip(2));
            }
            if t.len() >= 6 {
                lemma_parse_body_len(t.skip(6));
            }
        } else {
            lemma_parse_body_len(t.drop_first());
        }
    }
}

proof fn lemma_digit_run_len(t: Seq<char>)
    ensures
        digit_run(t) <= t.len(),
    decreases t.len(),
{
    if t.len() > 0 {
        lemma_digit_run_len(t.drop_first());
    }
}

proof fn lemma_parse_items_len(t: Seq<char>)
    ensures
        parse_items(t) is Some ==> parse_items(t)->Some_0.1 <= t.len(),
    decreases t.len(),
{
    if t.len() > 0 && t[0] == '"' {
        match parse_body(t.drop_first()) {
            Some((s, n)) => {
                if n + 2 <= t.len() {
                    lemma_parse_items_len(t.skip((n + 2) as int));
                }
            },
            None => {},
        }
    }
}

fn matches_at(v: &Vec<char>, at: usize, key: &Vec<char>) -> (r: bool)
    requires
        at <= v.len(),
    ensures
        r == begins(v@.skip(at as int), key@),
{
    let ghost t = v@.skip(at as int);
    if key.len() > v.len() - at {
        return false;
    }
    let mut k: usize = 0;
    while k < key.len()
        invariant
            k <= key.len() <= v.len() - at,
            t == v@.skip(at as int),
            t.take(k as int) == key@.take(k as int),
        decreases key.len() - k,
    {
        if v[at + k] != key[k] {
            proof {
                assert(t[k as int] == v@[at + k]);
                assert(t.take(key@.len() as int)[k as int] == t[k as int]);
            }
            return false;
        }
        proof {
            assert(t[k as int] == v@[at + k]);
        }
        k = k + 1;
        proof {
            assert(t.take(k as int) =~= key@.take(k as int));
        }
    }
    proof {
        assert(key@.take(key@.len() as int) == key@);
    }
    true
}

fn events_part_at(v: &Vec<char>, d: usize) -> (r: Option<Vec<String>>)
    requires
        d <= v.len(),
    ensures
        match decode_events_part(v@.skip(d as int)) {
            Some(ev) => r is Some && views(r->Some_0@) == ev,
            None => r is None,
        },
{
    let ghost dt = v@.skip(d as int);
    if !matches_at(v, d, &key_events_chars()) {
        return None;
    }
    proof {
        assert(dt.take(11) == key_events());
    }
    let e = d + 11;
    let ghost et = dt.skip(11);
    proof {
        assert(v@.skip(e as int) == et);
    }
    let (events, m) = if e < v.len() && v[e] == ']' {
        proof {
            assert(et[0] == ']');
        }
        (Vec::new(), 1)
    } else {
        proof {
            if e < v.len() {
                assert(et[0] == v@[e as int]);
            }
        }
        match parse_items_at(v, e) {
            Some(x) => x,
            None => {
                return None;
            },
        }
    };
    proof {
        lemma_parse_items_len(v@.skip(e as int));
    }
    let f = e + m;
    proof {
        assert(dt.skip((11 + m) as int) == v@.skip(f as int));
    }
    if f < v.len() && v.len() - f == 1 && v[f] == '}' {
        proof {
            assert(v@.skip(f as int) =~= seq!['}']);
        }
        Some(events)
    } else {
        proof {
            if v@.skip(f as int) == seq!['}'] {
                assert(v@.skip(f as int).len() == 1);
                assert(f < v.len());
                assert(v@.skip(f as int)[0] == v@[f as int]);
            }
        }
        None
    }
}

fn created_part_at(v: &Vec<char>, b: usize) -> (r: Option<(i64, Vec<String>)>)
    requires
        b <= v.len(),
    ensures
        match decode_created_part(v@.skip(b as int)) {
            Some((x, ev)) => r is Some && r->Some_0.0 == x && views(r->Some_0.1@) == ev,
            None => r is None,
        },
{
    let ghost bt = v@.skip(b as int);
    if !matches_at(v, b, &key_created_chars()) {
        return None;
    }
    proof {
        assert(bt.take(17) == key_created());
        assert(v@.skip((b + 17) as int) == bt.skip(17));
    }
    let (created, k) = match parse_int_at(v, b + 17) {
        Some(x) => x,
        None => {
            return None;
        },
    };
    proof {
        lemma_digit_run_len(v@.skip((b + 17) as int));
        lemma_digit_run_len(v@.skip((b + 17) as int).drop_first());
    }
    let d = b + 17 + k;
    proof {
        assert(v@.skip(d as int) == bt.skip((17 + k) as int));
    }
    match events_part_at(v, d) {
        Some(events) => Some((created, events)),
        None => None,
    }
}

/// Read a batch file's text. Exactly the texts `encode_batch` writes are
/// read; any other text gives `None`.
pub fn decode_batch(text: &str) -> (r: Option<LineProtocolBatch>)
    ensures
        match decode_text(text@) {
            Some((id, created, ev)) => r is Some && r->Some_0.batch_id@ == id
                && r->Some_0.created_at_ms == created && views(r->Some_0.events@) == ev,
            None => r is None,
        },
{
    let v = chars_of(text);
    let ghost t = text@;
    assert(v@.skip(0) == t);
    if !matches_at(&v, 0, &key_id_chars()) || v.len() < 13 || v[12] != '"' {
        return None;
    }
    proof {
        assert(v@.skip(13) == t.skip(13));
    }
    let (id, n) = match parse_body_at(&v, 13) {
        Some(x) => x,
        None => {
            return None;
        },
    };
    proof {
        lemma_parse_body_len(v@.skip(13));
        assert(v@.skip((13 + n) as int) == t.skip((13 + n) as int));
    }
    match created_part_at(&v, 13 + n) {
        Some((created, events)) => Some(LineProtocolBatch { events, created_at_ms: created, batch_id: id }),
        None => None,
    }
}

/// A batch put into an empty queue is the first taken out, and its file
/// reads back as the same id, instant and events, in order.
pub proof fn lemma_enqueue_dequeue_round_trip(max_batches: nat, id: Seq<char>, created: i64, ev: Seq<Seq<char>>)
    requires
        max_batches >= 1,
    ensures
        enqueued(seq![], max_batches, id).len() == 1,
        enqueued(seq![], max_batches, id)[0] == id,
        decode_text(batch_text(id, created as int, ev)) == Some((id, created as int, ev)),
{
    assert(Seq::<Seq<char>>::empty().skip(0) == Seq::<Seq<char>>::empty());
    lemma_batch_round_trip(id, created, ev);
}

/// A batch kept in the layout whose creation instant is RFC 3339
/// text: the instant becomes milliseconds since the Unix epoch, rounded
/// down. A text that does not parse gives `None`.
pub fn legacy_batch(batch_id: String, created_at: &str, events: Vec<String>) -> (r: Option<LineProtocolBatch>)
    ensures
        match rfc3339_nanos(created_at@) {
            Some(n) => r is Some && r->Some_0.batch_id == batch_id && r->Some_0.events == events
                && r->Some_0.created_at_ms as int == (n as int) / 1000000,
            None => r is None,
        },
{
    match timestamp_to_nanos(created_at) {
        Ok(n) => {
            let ms: i64 = if n >= 0 { n / 1000000 } else { -((-(n as i128) + 999999) / 1000000) as i64 };
            proof {
                let q = (n as int) / 1000000;
                assert(ms as int == q) by (nonlinear_arith)
                    requires
                        n >= 0 ==> ms as int == n / 1000000,
                        n < 0 ==> ms as int == -((-(n as int) + 999999) / 1000000),
                        q == (n as int) / 1000000;
            }
            Some(LineProtocolBatch { events, created_at_ms: ms, batch_id })
        },
        Err(_) => None,
    }
}

} // verus!
