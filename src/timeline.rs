use vstd::prelude::*;
use crate::text::{chars_of, string_of_range};

verus! {

pub open spec fn is_digit(c: char) -> bool {
    '0' <= c && c <= '9'
}

pub open spec fn digit_value(c: char) -> nat {
    (c as u32 - '0' as u32) as nat
}

/// The number a run of decimal digits denotes.
pub open spec fn digits_value(s: Seq<char>) -> nat
    decreases s.len(),
{
    if s.len() == 0 {
        0
    } else {
        digits_value(s.drop_last()) * 10 + digit_value(s.last())
    }
}

pub open spec fn all_digits(s: Seq<char>) -> bool {
    forall|i: int| 0 <= i < s.len() ==> is_digit(s[i])
}

/// An unsigned decimal number: an optional `+`, then at least one digit,
/// with a value that fits in a `u32`.
pub open spec fn parse_u32_text(s: Seq<char>) -> Option<u32> {
    let body = if s.len() > 0 && s[0] == '+' { s.drop_first() } else { s };
    if body.len() > 0 && all_digits(body) && digits_value(body) <= u32::MAX {
        Some(digits_value(body) as u32)
    } else {
        None
    }
}

/// `MM:SS`: exactly one colon with a number on each side.
pub open spec fn mm_ss(s: Seq<char>) -> Option<(u32, u32)> {
    if exists|k: int| 0 <= k < s.len() && s[k] == ':' && (forall|j: int| 0 <= j < s.len() && j != k ==> s[j] != ':') {
        let k = choose|k: int| 0 <= k < s.len() && s[k] == ':' && (forall|j: int| 0 <= j < s.len() && j != k ==> s[j] != ':');
        match (parse_u32_text(s.take(k)), parse_u32_text(s.skip(k + 1))) {
            (Some(m), Some(sec)) => Some((m, sec)),
            _ => None,
        }
    } else {
        None
    }
}

proof fn lemma_digits_grow(s: Seq<char>, c: char)
    requires
        is_digit(c),
    ensures
        digits_value(s.push(c)) == digits_value(s) * 10 + digit_value(c),
        digits_value(s.push(c)) >= digits_value(s),
{
    assert(s.push(c).drop_last() == s);
}

/// Parse an unsigned decimal number of `v[from..to]`.
fn parse_u32_range(v: &Vec<char>, from: usize, to: usize) -> (r: Option<u32>)
    requires
        from <= to <= v.len(),
    ensures
        r == parse_u32_text(v@.subrange(from as int, to as int)),
{
    let ghost s = v@.subrange(from as int, to as int);
    let mut start = from;
    if from < to && v[from] == '+' {
        start = from + 1;
    }
    let ghost body = v@.subrange(start as int, to as int);
    proof {
        if from < to && v@[from as int] == '+' {
            assert(body == s.drop_first());
        } else {
            assert(body == s);
        }
    }
    if start == to {
        return None;
    }
    let limit: u64 = 4294967296;
    let mut acc: u64 = 0;
    let mut i = start;
    while i < to
        invariant
            start <= i <= to <= v.len(),
            limit == 4294967296,
            s == v@.subrange(from as int, to as int),
            body == v@.subrange(start as int, to as int),
            body == if s.len() > 0 && s[0] == '+' { s.drop_first() } else { s },
            body.len() > 0,
            all_digits(v@.subrange(start as int, i as int)),
            acc == if digits_value(v@.subrange(start as int, i as int)) < limit {
                digits_value(v@.subrange(start as int, i as int))
            } else {
                limit as nat
            },
        decreases to - i,
    {
        let c = v[i];
        if !('0' <= c && c <= '9') {
            proof {
                assert(body[i - start] == c);
                assert(!is_digit(body[i - start]));
                assert(!all_digits(body));
            }
            return None;
        }
        let ghost prev = v@.subrange(start as int, i as int);
        proof {
            assert(v@.subrange(start as int, i + 1) == prev.push(c));
            lemma_digits_grow(prev, c);
        }
        let d: u64 = (c as u32 - '0' as u32) as u64;
        assert(d <= 9);
        assert(d == digit_value(c));
        if acc < limit {
            let next = acc * 10 + d;
            acc = if next < limit { next } else { limit };
        }
        i = i + 1;
    }
    proof {
        assert(v@.subrange(start as int, to as int) == body);
    }
    if acc < limit {
        Some(acc as u32)
    } else {
        None
    }
}

/// Parse `MM:SS` into minutes and seconds.
pub fn parse_mm_ss(time_str: &str) -> (r: Result<(u32, u32), String>)
    ensures
        match mm_ss(time_str@) {
            Some(p) => r == Ok::<(u32, u32), String>(p),
            None => r is Err,
        },
{
    let v = chars_of(time_str);
    let ghost s = time_str@;
    let mut colon: usize = v.len();
    let mut count: usize = 0;
    let mut i: usize = 0;
    while i < v.len()
        invariant
            i <= v.len(),
            v@ == s,
            count <= i,
            count == 0 ==> colon == v.len() && forall|j: int| 0 <= j < i ==> s[j] != ':',
            count == 1 ==> colon < i && s[colon as int] == ':'
                && forall|j: int| 0 <= j < i && j != colon ==> s[j] != ':',
            count >= 2 ==> exists|a: int, b: int| 0 <= a < b < i && s[a] == ':' && s[b] == ':',
        decreases v.len() - i,
    {
        if v[i] == ':' {
            if count == 0 {
                colon = i;
                count = 1;
            } else if count == 1 {
                assert(s[colon as int] == ':' && s[i as int] == ':');
                count = 2;
            }
        }
        i = i + 1;
    }
    if count != 1 {
        proof {
            if count >= 2 {
                let (a, b) = choose|a: int, b: int| 0 <= a < b < v.len() && s[a] == ':' && s[b] == ':';
                if exists|k: int| 0 <= k < s.len() && s[k] == ':' && (forall|j: int| 0 <= j < s.len() && j != k ==> s[j] != ':') {
                    let k = choose|k: int| 0 <= k < s.len() && s[k] == ':' && (forall|j: int| 0 <= j < s.len() && j != k ==> s[j] != ':');
                    if k == a {
                        assert(s[b] != ':');
                    } else {
                        assert(s[a] != ':');
                    }
                }
            }
        }
        return Err(invalid_time(time_str));
    }
    proof {
        let k = choose|k: int| 0 <= k < s.len() && s[k] == ':' && (forall|j: int| 0 <= j < s.len() && j != k ==> s[j] != ':');
        if k != colon {
            assert(s[k] != ':');
        }
        assert(v@.subrange(0, colon as int) == s.take(colon as int));
        assert(v@.subrange(colon + 1, v.len() as int) == s.skip(colon + 1));
    }
    let minutes = parse_u32_range(&v, 0, colon);
    let seconds = parse_u32_range(&v, colon + 1, v.len());
    match (minutes, seconds) {
        (Some(m), Some(sec)) => Ok((m, sec)),
        _ => Err(invalid_time(time_str)),
    }
}

fn invalid_time(time_str: &str) -> String {
    let mut msg = String::from_str("Invalid time format '");
    msg.append(time_str);
    msg.append("', expected MM:SS");
    msg
}

/// The offset of `MM:SS` in seconds.
pub open spec fn offset_seconds(p: (u32, u32)) -> int {
    p.0 * 60 + p.1
}

/// The seconds from `start_time` to `end_time`, both `MM:SS`; negative
/// when the end comes first.
pub fn calculate_duration_seconds(start_time: &str, end_time: &str) -> (r: Result<i64, String>)
    ensures
        match (mm_ss(start_time@), mm_ss(end_time@)) {
            (Some(a), Some(b)) => r == Ok::<i64, String>((offset_seconds(b) - offset_seconds(a)) as i64),
            _ => r is Err,
        },
{
    let (start_min, start_sec) = parse_mm_ss(start_time)?;
    let (end_min, end_sec) = parse_mm_ss(end_time)?;
    let start_total: i64 = start_min as i64 * 60 + start_sec as i64;
    let end_total: i64 = end_min as i64 * 60 + end_sec as i64;
    Ok(end_total - start_total)
}

/// Unicode White_Space, the set `char::is_whitespace` documents.
pub open spec fn is_white(c: char) -> bool {
    let u = c as u32;
    (0x9 <= u && u <= 0xd) || u == 0x20 || u == 0x85 || u == 0xa0 || u == 0x1680
        || (0x2000 <= u && u <= 0x200a) || u == 0x2028 || u == 0x2029 || u == 0x202f || u == 0x205f
        || u == 0x3000
}

fn white(c: char) -> (r: bool)
    ensures
        r == is_white(c),
{
    let u = c as u32;
    (0x9 <= u && u <= 0xd) || u == 0x20 || u == 0x85 || u == 0xa0 || u == 0x1680
        || (0x2000 <= u && u <= 0x200a) || u == 0x2028 || u == 0x2029 || u == 0x202f || u == 0x205f
        || u == 0x3000
}

/// `s` without its leading white space.
pub open spec fn trim_start(s: Seq<char>) -> Seq<char>
    decreases s.len(),
{
    if s.len() > 0 && is_white(s[0]) {
        trim_start(s.drop_first())
    } else {
        s
    }
}

/// `s` without its trailing white space.
pub open spec fn trim_end(s: Seq<char>) -> Seq<char>
    decreases s.len(),
{
    if s.len() > 0 && is_white(s.last()) {
        trim_end(s.drop_last())
    } else {
        s
    }
}

pub open spec fn fence() -> Seq<char> {
    seq!['`', '`', '`']
}

pub open spec fn fence_json() -> Seq<char> {
    seq!['`', '`', '`', 'j', 's', 'o', 'n']
}

pub open spec fn begins_with(s: Seq<char>, p: Seq<char>) -> bool {
    p.len() <= s.len() && s.take(p.len() as int) == p
}

pub open spec fn ends_with(s: Seq<char>, p: Seq<char>) -> bool {
    p.len() <= s.len() && s.skip(s.len() - p.len()) == p
}

/// The JSON inside a model reply: trimmed, with a leading ```` ```json ````
/// or ```` ``` ```` fence and a trailing ```` ``` ```` fence taken off.
pub open spec fn json_body(s: Seq<char>) -> Seq<char> {
    let t = trim_end(trim_start(s));
    let u = if begins_with(t, fence_json()) {
        trim_start(t.skip(7))
    } else if begins_with(t, fence()) {
        trim_start(t.skip(3))
    } else {
        t
    };
    if ends_with(u, fence()) {
        trim_end(u.take(u.len() - 3))
    } else {
        u
    }
}

fn skip_white(v: &Vec<char>, lo: usize, hi: usize) -> (r: usize)
    requires
        lo <= hi <= v.len(),
    ensures
        lo <= r <= hi,
        v@.subrange(r as int, hi as int) == trim_start(v@.subrange(lo as int, hi as int)),
{
    let mut i = lo;
    while i < hi && white(v[i])
        invariant
            lo <= i <= hi <= v.len(),
            trim_start(v@.subrange(i as int, hi as int)) == trim_start(v@.subrange(lo as int, hi as int)),
        decreases hi - i,
    {
        proof {
            assert(v@.subrange(i as int, hi as int).drop_first() == v@.subrange(i + 1, hi as int));
        }
        i = i + 1;
    }
    i
}

fn drop_white(v: &Vec<char>, lo: usize, hi: usize) -> (r: usize)
    requires
        lo <= hi <= v.len(),
    ensures
        lo <= r <= hi,
        v@.subrange(lo as int, r as int) == trim_end(v@.subrange(lo as int, hi as int)),
{
    let mut j = hi;
    while j > lo && white(v[j - 1])
        invariant
            lo <= j <= hi <= v.len(),
            trim_end(v@.subrange(lo as int, j as int)) == trim_end(v@.subrange(lo as int, hi as int)),
        decreases j - lo,
    {
        proof {
            assert(v@.subrange(lo as int, j as int).drop_last() == v@.subrange(lo as int, j - 1));
        }
        j = j - 1;
    }
    j
}

fn has_at(v: &Vec<char>, at: usize, hi: usize, p: &Vec<char>) -> (r: bool)
    requires
        at <= hi <= v.len(),
    ensures
        r == (p@.len() <= hi - at && v@.subrange(at as int, at + p@.len()) == p@),
{
    if p.len() > hi - at {
        return false;
    }
    let mut k: usize = 0;
    while k < p.len()
        invariant
            k <= p.len() <= hi - at,
            hi <= v.len(),
            v@.subrange(at as int, at + k) == p@.take(k as int),
        decreases p.len() - k,
    {
        if v[at + k] != p[k] {
            proof {
                assert(v@.subrange(at as int, at + p@.len())[k as int] == v@[at + k]);
            }
            return false;
        }
        k = k + 1;
        proof {
            assert(v@.subrange(at as int, at + k) =~= p@.take(k as int));
        }
    }
    proof {
        assert(p@.take(p@.len() as int) == p@);
    }
    true
}

/// The JSON text of a model reply, with surrounding white space and
/// Markdown code fences removed.
pub fn extract_json_from_text(text: &str) -> (r: String)
    ensures
        r@ == json_body(text@),
{
    let v = chars_of(text);
    let ghost s = text@;
    let lo0 = skip_white(&v, 0, v.len());
    let hi0 = drop_white(&v, lo0, v.len());
    proof {
        assert(v@.subrange(0, v.len() as int) == s);
        assert(v@.subrange(lo0 as int, hi0 as int) == trim_end(trim_start(s)));
    }
    let ghost t = v@.subrange(lo0 as int, hi0 as int);
    let fj = vec!['`', '`', '`', 'j', 's', 'o', 'n'];
    let f = vec!['`', '`', '`'];
    proof {
        assert(fj@ == fence_json());
        assert(f@ == fence());
    }
    let mut lo = lo0;
    if has_at(&v, lo0, hi0, &fj) {
        proof {
            assert(t.take(7) == v@.subrange(lo0 as int, lo0 + 7));
            assert(t.skip(7) == v@.subrange(lo0 + 7, hi0 as int));
        }
        lo = skip_white(&v, lo0 + 7, hi0);
    } else if has_at(&v, lo0, hi0, &f) {
        proof {
            assert(t.take(7) == v@.subrange(lo0 as int, lo0 + 7) || t.len() < 7);
            assert(t.take(3) == v@.subrange(lo0 as int, lo0 + 3));
            assert(t.skip(3) == v@.subrange(lo0 + 3, hi0 as int));
        }
        lo = skip_white(&v, lo0 + 3, hi0);
    } else {
        proof {
            if t.len() >= 7 {
                assert(t.take(7) == v@.subrange(lo0 as int, lo0 + 7));
            }
            if t.len() >= 3 {
                assert(t.take(3) == v@.subrange(lo0 as int, lo0 + 3));
            }
        }
    }
    let ghost u = v@.subrange(lo as int, hi0 as int);
    let mut hi = hi0;
    if hi0 - lo >= 3 && has_at(&v, hi0 - 3, hi0, &f) {
        proof {
            assert(u.skip(u.len() - 3) == v@.subrange(hi0 - 3, hi0 as int));
            assert(u.take(u.len() - 3) == v@.subrange(lo as int, hi0 - 3));
        }
        hi = drop_white(&v, lo, hi0 - 3);
    } else {
        proof {
            if u.len() >= 3 {
                assert(u.skip(u.len() - 3) == v@.subrange(hi0 - 3, hi0 as int));
            }
        }
    }
    string_of_range(&v, lo, hi)
}

} // verus!
