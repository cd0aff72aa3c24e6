//! Character-level text utilities: whitespace trimming, token extraction
//! from raw text fragments, and joining fragments with a separator.
//!
//! All executable code here works on `Vec<char>`, whose view is the same
//! `Seq<char>` that the specification functions speak of.
use vstd::prelude::*;

verus! {

/// The characters that count as whitespace for trimming: the Unicode
/// `White_Space` set, which is what `str::trim` removes.
pub open spec fn is_space_char(c: char) -> bool {
    c == '\u{0009}' || c == '\u{000A}' || c == '\u{000B}' || c == '\u{000C}'
        || c == '\u{000D}' || c == '\u{0020}' || c == '\u{0085}' || c == '\u{00A0}'
        || c == '\u{1680}' || c == '\u{2000}' || c == '\u{2001}' || c == '\u{2002}'
        || c == '\u{2003}' || c == '\u{2004}' || c == '\u{2005}' || c == '\u{2006}'
        || c == '\u{2007}' || c == '\u{2008}' || c == '\u{2009}' || c == '\u{200A}'
        || c == '\u{2028}' || c == '\u{2029}' || c == '\u{202F}' || c == '\u{205F}'
        || c == '\u{3000}'
}

/// Decides whether `c` is a whitespace character.
pub fn is_space(c: char) -> (b: bool)
    ensures
        b == is_space_char(c),
{
    c == '\u{0009}' || c == '\u{000A}' || c == '\u{000B}' || c == '\u{000C}'
        || c == '\u{000D}' || c == '\u{0020}' || c == '\u{0085}' || c == '\u{00A0}'
        || c == '\u{1680}' || c == '\u{2000}' || c == '\u{2001}' || c == '\u{2002}'
        || c == '\u{2003}' || c == '\u{2004}' || c == '\u{2005}' || c == '\u{2006}'
        || c == '\u{2007}' || c == '\u{2008}' || c == '\u{2009}' || c == '\u{200A}'
        || c == '\u{2028}' || c == '\u{2029}' || c == '\u{202F}' || c == '\u{205F}'
        || c == '\u{3000}'
}

/// `s` with its leading whitespace removed.
pub open spec fn trim_front(s: Seq<char>) -> Seq<char>
    decreases s.len(),
{
    if s.len() == 0 {
        s
    } else if is_space_char(s.first()) {
        trim_front(s.drop_first())
    } else {
        s
    }
}

/// `s` with its trailing whitespace removed.
pub open spec fn trim_back(s: Seq<char>) -> Seq<char>
    decreases s.len(),
{
    if s.len() == 0 {
        s
    } else if is_space_char(s.last()) {
        trim_back(s.drop_last())
    } else {
        s
    }
}

/// `s` with leading and trailing whitespace removed.
pub open spec fn trimmed(s: Seq<char>) -> Seq<char> {
    trim_back(trim_front(s))
}

proof fn lemma_trim_front_skip(s: Seq<char>, k: int)
    requires
        0 <= k <= s.len(),
        forall|j: int| 0 <= j < k ==> is_space_char(s[j]),
    ensures
        trim_front(s) == trim_front(s.subrange(k, s.len() as int)),
    decreases k,
{
    if k == 0 {
        assert(s.subrange(0, s.len() as int) =~= s);
    } else {
        assert(is_space_char(s.first()));
        assert(s.drop_first() =~= s.subrange(1, s.len() as int));
        let t = s.drop_first();
        assert(forall|j: int| 0 <= j < k - 1 ==> is_space_char(t[j]));
        lemma_trim_front_skip(t, k - 1);
        assert(t.subrange(k - 1, t.len() as int) =~= s.subrange(k, s.len() as int));
    }
}

proof fn lemma_trim_back_skip(s: Seq<char>, k: int)
    requires
        0 <= k <= s.len(),
        forall|j: int| k <= j < s.len() ==> is_space_char(s[j]),
    ensures
        trim_back(s) == trim_back(s.subrange(0, k)),
    decreases s.len() - k,
{
    if k == s.len() {
        assert(s.subrange(0, s.len() as int) =~= s);
    } else {
        assert(is_space_char(s.last()));
        assert(s.drop_last() =~= s.subrange(0, s.len() - 1));
        let t = s.drop_last();
        assert(forall|j: int| k <= j < t.len() ==> is_space_char(t[j]));
        lemma_trim_back_skip(t, k);
        assert(t.subrange(0, k) =~= s.subrange(0, k));
    }
}

/// Removes leading and trailing whitespace from `v`.
pub fn trim_chars(v: &Vec<char>) -> (r: Vec<char>)
    ensures
        r@ == trimmed(v@),
{
    let n = v.len();
    let mut start: usize = 0;
    while start < n && is_space(v[start])
        invariant
            start <= n,
            forall|j: int| 0 <= j < start ==> is_space_char(v@[j]),
        decreases n - start,
    {
        start += 1;
    }
    proof {
        lemma_trim_front_skip(v@, start as int);
    }
    let ghost tail = v@.subrange(start as int, n as int);
    if start == n {
        proof {
            assert(tail =~= Seq::<char>::empty());
            assert(trim_front(v@) == tail);
            assert(trim_back(tail) == tail);
        }
        return Vec::new();
    }
    assert(trim_front(v@) == tail);
    assert(!is_space_char(tail.first()));

    let mut end: usize = n;
    while end > start + 1 && is_space(v[end - 1])
        invariant
            start < end <= n,
            forall|j: int| end <= j < n ==> is_space_char(v@[j]),
        decreases end,
    {
        end -= 1;
    }
    proof {
        lemma_trim_back_skip(tail, end - start);
        assert(tail.subrange(0, end - start) =~= v@.subrange(start as int, end as int));
    }
    let ghost mid = v@.subrange(start as int, end as int);
    if is_space(v[end - 1]) {
        // Only possible when end == start + 1 and the single remaining
        // character is whitespace: everything was whitespace.
        proof {
            assert(end == start + 1);
            assert(mid.len() == 1 && is_space_char(mid.last()));
            assert(trim_back(mid) == trim_back(mid.drop_last()));
            assert(mid.drop_last() =~= Seq::<char>::empty());
            assert(trimmed(v@) =~= Seq::<char>::empty());
        }
        return Vec::new();
    }
    proof {
        assert(mid.len() > 0 && !is_space_char(mid.last()));
        assert(trim_back(mid) == mid);
        assert(trimmed(v@) == mid);
    }
    let mut r: Vec<char> = Vec::new();
    let mut i: usize = start;
    while i < end
        invariant
            start <= i <= end <= n,
            r@ =~= v@.subrange(start as int, i as int),
        decreases end - i,
    {
        r.push(v[i]);
        i += 1;
    }
    assert(r@ =~= mid);
    r
}

/// The trimmed, non-empty tokens of a sequence of raw text fragments,
/// in their original order.
pub open spec fn tokens_of(texts: Seq<Seq<char>>) -> Seq<Seq<char>>
    decreases texts.len(),
{
    if texts.len() == 0 {
        Seq::empty()
    } else {
        let t = trimmed(texts.last());
        tokens_of(texts.drop_last()) + (if t.len() > 0 {
            seq![t]
        } else {
            Seq::empty()
        })
    }
}

/// Trims every fragment of `texts` and keeps the non-empty results,
/// in order.
pub fn tokenize(texts: &Vec<Vec<char>>) -> (r: Vec<Vec<char>>)
    ensures
        r.deep_view() == tokens_of(texts.deep_view()),
{
    let mut r: Vec<Vec<char>> = Vec::new();
    let mut i: usize = 0;
    while i < texts.len()
        invariant
            i <= texts.len(),
            r.deep_view() == tokens_of(texts.deep_view().subrange(0, i as int)),
        decreases texts.len() - i,
    {
        let t = trim_chars(&texts[i]);
        let ghost prefix = texts.deep_view().subrange(0, i as int);
        let ghost next = texts.deep_view().subrange(0, i + 1);
        let ghost tv = t@;
        proof {
            assert(next.drop_last() =~= prefix);
            assert(next.last() == texts.deep_view()[i as int]);
            assert(texts.deep_view()[i as int] =~= texts@[i as int]@);
            assert(tv == trimmed(next.last()));
            assert(t.deep_view() =~= tv);
        }
        if t.len() > 0 {
            r.push(t);
            proof {
                assert(r.deep_view() =~= tokens_of(prefix).push(tv));
                assert(tokens_of(prefix).push(tv) =~= tokens_of(prefix) + seq![trimmed(
                    next.last(),
                )]);
            }
        } else {
            proof {
                assert(tokens_of(next) =~= tokens_of(prefix));
            }
        }
        i += 1;
    }
    proof {
        assert(texts.deep_view().subrange(0, texts.deep_view().len() as int) =~= texts.deep_view());
    }
    r
}

/// The fragments of `parts` joined with the single character `sep`
/// between consecutive fragments.
pub open spec fn join_with(parts: Seq<Seq<char>>, sep: char) -> Seq<char>
    decreases parts.len(),
{
    if parts.len() == 0 {
        Seq::empty()
    } else if parts.len() == 1 {
        parts.last()
    } else {
        join_with(parts.drop_last(), sep) + seq![sep] + parts.last()
    }
}

/// Joins the fragments of `parts` with `sep` between consecutive fragments.
pub fn join_chars(parts: &Vec<Vec<char>>, sep: char) -> (r: Vec<char>)
    ensures
        r@ == join_with(parts.deep_view(), sep),
{
    let mut r: Vec<char> = Vec::new();
    let mut i: usize = 0;
    while i < parts.len()
        invariant
            i <= parts.len(),
            r@ == join_with(parts.deep_view().subrange(0, i as int), sep),
        decreases parts.len() - i,
    {
        let ghost prefix = parts.deep_view().subrange(0, i as int);
        let ghost next = parts.deep_view().subrange(0, i + 1);
        proof {
            assert(next.drop_last() =~= prefix);
            assert(next.last() == parts.deep_view()[i as int]);
            assert(parts.deep_view()[i as int] =~= parts@[i as int]@);
        }
        if i > 0 {
            r.push(sep);
        }
        let part = &parts[i];
        let mut j: usize = 0;
        let ghost r0 = r@;
        while j < part.len()
            invariant
                j <= part.len(),
                r@ =~= r0 + part@.subrange(0, j as int),
            decreases part.len() - j,
        {
            r.push(part[j]);
            j += 1;
        }
        proof {
            assert(part@.subrange(0, part@.len() as int) =~= part@);
            if i == 0 {
                assert(r@ =~= next.last());
                assert(join_with(next, sep) == next.last());
            } else {
                assert(r@ =~= join_with(prefix, sep) + seq![sep] + next.last());
            }
        }
        i += 1;
    }
    proof {
        assert(parts.deep_view().subrange(0, parts.deep_view().len() as int) =~= parts.deep_view());
    }
    r
}

/// Decides whether two character vectors hold the same characters.
pub fn chars_eq(a: &Vec<char>, b: &Vec<char>) -> (r: bool)
    ensures
        r == (a@ == b@),
{
    if a.len() != b.len() {
        return false;
    }
    let mut i: usize = 0;
    while i < a.len()
        invariant
            i <= a.len(),
            a.len() == b.len(),
            forall|j: int| 0 <= j < i ==> a@[j] == b@[j],
        decreases a.len() - i,
    {
        if a[i] != b[i] {
            return false;
        }
        i += 1;
    }
    proof {
        assert(a@ =~= b@);
    }
    true
}

/// The character for a single decimal digit value.
pub open spec fn digit_char(d: int) -> char {
    if d == 0 {
        '0'
    } else if d == 1 {
        '1'
    } else if d == 2 {
        '2'
    } else if d == 3 {
        '3'
    } else if d == 4 {
        '4'
    } else if d == 5 {
        '5'
    } else if d == 6 {
        '6'
    } else if d == 7 {
        '7'
    } else if d == 8 {
        '8'
    } else {
        '9'
    }
}

/// The decimal representation of a non-negative integer, most
/// significant digit first, with no leading zeros (a single `'0'` for 0).
pub open spec fn dec_chars(n: int) -> Seq<char>
    recommends
        n >= 0,
    decreases n,
{
    if n < 10 {
        seq![digit_char(n)]
    } else {
        dec_chars(n / 10).push(digit_char(n % 10))
    }
}

fn digit_to_char(d: u64) -> (c: char)
    requires
        d < 10,
    ensures
        c == digit_char(d as int),
{
    if d == 0 {
        '0'
    } else if d == 1 {
        '1'
    } else if d == 2 {
        '2'
    } else if d == 3 {
        '3'
    } else if d == 4 {
        '4'
    } else if d == 5 {
        '5'
    } else if d == 6 {
        '6'
    } else if d == 7 {
        '7'
    } else if d == 8 {
        '8'
    } else {
        '9'
    }
}

fn push_dec_chars(n: u64, out: &mut Vec<char>)
    ensures
        final(out)@ == old(out)@ + dec_chars(n as int),
    decreases n,
{
    if n >= 10 {
        push_dec_chars(n / 10, out);
    }
    out.push(digit_to_char(n % 10));
    proof {
        if n < 10 {
            assert(n as int % 10 == n as int);
            assert(out@ =~= old(out)@ + dec_chars(n as int));
        } else {
            assert(out@ =~= old(out)@ + dec_chars(n as int));
        }
    }
}

/// The decimal digits of `n`, most significant first.
pub fn dec_chars_vec(n: u64) -> (r: Vec<char>)
    ensures
        r@ == dec_chars(n as int),
{
    let mut r: Vec<char> = Vec::new();
    push_dec_chars(n, &mut r);
    proof {
        assert(r@ =~= dec_chars(n as int));
    }
    r
}

/// Relies on std's `str::chars`: yields the characters of `s`, in order.
#[verifier::external_body]
pub(crate) fn chars_vec(s: &str) -> (r: Vec<char>)
    ensures
        r@ == s@,
{
    s.chars().collect()
}

/// Relies on std's `FromIterator<char> for String`: builds the string
/// holding exactly the characters of `v`, in order.
#[verifier::external_body]
pub(crate) fn string_of_chars(v: Vec<char>) -> (r: String)
    ensures
        r@ == v@,
{
    v.into_iter().collect()
}

} // verus!
