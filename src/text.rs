use vstd::prelude::*;

verus! {

/// Relies on `String::push`: appends one character at the end.
#[verifier::external_body]
pub(crate) fn push_char(s: &mut String, c: char)
    ensures
        final(s)@ == old(s)@.push(c),
{
    s.push(c);
}

/// The characters of `s`, in order.
pub fn chars_of(s: &str) -> (r: Vec<char>)
    ensures
        r@ == s@,
{
    let mut v: Vec<char> = Vec::new();
    for c in it: s.chars()
        invariant
            it.seq() == s@,
            v@ == s@.take(it.index() as int),
    {
        v.push(c);
        proof {
            assert(v@ == s@.take(it.index() + 1));
        }
    }
    proof {
        assert(s@.take(s@.len() as int) == s@);
    }
    v
}

/// Characters `from..to` of `v` as a string.
pub fn string_of_range(v: &Vec<char>, from: usize, to: usize) -> (r: String)
    requires
        from <= to <= v.len(),
    ensures
        r@ == v@.subrange(from as int, to as int),
{
    let mut out = String::new();
    let mut i = from;
    while i < to
        invariant
            from <= i <= to,
            to <= v.len(),
            out@ == v@.subrange(from as int, i as int),
        decreases to - i,
    {
        push_char(&mut out, v[i]);
        i = i + 1;
        proof {
            assert(out@ == v@.subrange(from as int, i as int));
        }
    }
    out
}

/// Strings view as their characters.
pub open spec fn views(v: Seq<String>) -> Seq<Seq<char>> {
    v.map_values(|s: String| s@)
}

/// `a` comes before `b`, or equals it, comparing characters by code point
/// from the first on; a prefix comes first.
pub open spec fn lex_le(a: Seq<char>, b: Seq<char>) -> bool
    decreases a.len(),
{
    if a.len() == 0 {
        true
    } else if b.len() == 0 {
        false
    } else if (a[0] as u32) < (b[0] as u32) {
        true
    } else if (a[0] as u32) > (b[0] as u32) {
        false
    } else {
        lex_le(a.drop_first(), b.drop_first())
    }
}

pub open spec fn sorted_lex(s: Seq<Seq<char>>) -> bool {
    forall|i: int, j: int| 0 <= i < j < s.len() ==> lex_le(s[i], s[j])
}

/// Relies on `slice::sort` over `String`'s order: the same strings, in
/// ascending order. Strings order lexicographically by their UTF-8 bytes,
/// which is the order of their characters by code point.
#[verifier::external_body]
pub(crate) fn sort_strings(v: &mut Vec<String>)
    ensures
        views(final(v)@).to_multiset() == views(old(v)@).to_multiset(),
        sorted_lex(views(final(v)@)),
{
    v.sort();
}

/// Whether `s` begins with `p`.
pub fn starts_with(s: &str, p: &str) -> (r: bool)
    ensures
        r == (p@.len() <= s@.len() && s@.take(p@.len() as int) == p@),
{
    let sc = chars_of(s);
    let pc = chars_of(p);
    if pc.len() > sc.len() {
        return false;
    }
    let mut i: usize = 0;
    while i < pc.len()
        invariant
            i <= pc.len() <= sc.len(),
            sc@ == s@,
            pc@ == p@,
            sc@.take(i as int) == pc@.take(i as int),
        decreases pc.len() - i,
    {
        if sc[i] != pc[i] {
            proof {
                if s@.take(p@.len() as int) == p@ {
                    assert(s@.take(p@.len() as int)[i as int] == sc@[i as int]);
                }
            }
            return false;
        }
        i = i + 1;
        proof {
            assert(sc@.take(i as int) =~= pc@.take(i as int));
        }
    }
    proof {
        assert(pc@.take(pc@.len() as int) == pc@);
    }
    true
}

/// Whether two optional strings are equal.
pub fn same_opt_string(a: &Option<String>, b: &Option<String>) -> (r: bool)
    ensures
        r == (opt_string_view(*a) == opt_string_view(*b)),
{
    match (a, b) {
        (Some(x), Some(y)) => str_eq(x, y),
        (None, None) => true,
        _ => false,
    }
}

pub open spec fn opt_string_view(o: Option<String>) -> Option<Seq<char>> {
    match o {
        Some(s) => Some(s@),
        None => None,
    }
}

/// Whether two strings hold the same characters.
pub fn str_eq(a: &String, b: &String) -> (r: bool)
    ensures
        r == (a@ == b@),
{
    a.eq(b)
}

/// Whether two texts hold the same characters.
pub fn same_text(a: &str, b: &str) -> (r: bool)
    ensures
        r == (a@ == b@),
{
    let n = chars_of(a).len();
    let m = chars_of(b).len();
    if n != m {
        return false;
    }
    let r = starts_with(a, b);
    proof {
        assert(a@.take(a@.len() as int) == a@);
    }
    r
}

} // verus!
