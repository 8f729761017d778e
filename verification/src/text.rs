//! Character-level helpers shared by the header grammar and the feed writer.

use vstd::prelude::*;
use vstd::string::*;

verus! {

/// The characters of `s`, in order.
pub fn chars_of(s: &str) -> (v: Vec<char>)
    ensures
        v@ == s@,
{
    let mut v: Vec<char> = Vec::new();
    for c in it: s.chars()
        invariant
            it.seq() == s@,
            v@ == s@.take(it.index() as int),
    {
        v.push(c);
    }
    v
}

/// Blank characters are the ones that may pad a header line: space, tab
/// and carriage return.
pub open spec fn is_blank(c: char) -> bool {
    c == ' ' || c == '\t' || c == '\r'
}

/// Whether `c` is a blank.
pub fn blank(c: char) -> (b: bool)
    ensures
        b == is_blank(c),
{
    c == ' ' || c == '\t' || c == '\r'
}

/// `s` without its leading blanks.
pub open spec fn trim_front(s: Seq<char>) -> Seq<char>
    decreases s.len(),
{
    if s.len() > 0 && is_blank(s[0]) {
        trim_front(s.skip(1))
    } else {
        s
    }
}

/// `s` without its trailing blanks.
pub open spec fn trim_back(s: Seq<char>) -> Seq<char>
    decreases s.len(),
{
    if s.len() > 0 && is_blank(s.last()) {
        trim_back(s.drop_last())
    } else {
        s
    }
}

/// `s` without leading and trailing blanks.
pub open spec fn trim(s: Seq<char>) -> Seq<char> {
    trim_back(trim_front(s))
}

/// Bounds of the trimmed part of `v[from..to]`.
pub fn trim_range(v: &Vec<char>, from: usize, to: usize) -> (r: (usize, usize))
    requires
        from <= to <= v.len(),
    ensures
        from <= r.0 <= r.1 <= to,
        v@.subrange(r.0 as int, r.1 as int) == trim(v@.subrange(from as int, to as int)),
{
    let mut a: usize = from;
    while a < to && blank(v[a])
        invariant
            from <= a <= to <= v.len(),
            trim_front(v@.subrange(from as int, to as int)) == trim_front(
                v@.subrange(a as int, to as int),
            ),
        decreases to - a,
    {
        proof {
            assert(v@.subrange(a as int, to as int).skip(1) =~= v@.subrange(a + 1, to as int));
        }
        a += 1;
    }
    let mut b: usize = to;
    while a < b && blank(v[b - 1])
        invariant
            a <= b <= to <= v.len(),
            trim_back(v@.subrange(a as int, to as int)) == trim_back(
                v@.subrange(a as int, b as int),
            ),
        decreases b - a,
    {
        proof {
            assert(v@.subrange(a as int, b as int).drop_last() =~= v@.subrange(
                a as int,
                b - 1,
            ));
        }
        b -= 1;
    }
    (a, b)
}

/// The first index in `from..to` at which `s` holds `c`, or `to` when it
/// holds none there.
pub open spec fn position(s: Seq<char>, c: char, from: int, to: int) -> int
    decreases to - from,
{
    if from >= to {
        to
    } else if s[from] == c {
        from
    } else {
        position(s, c, from + 1, to)
    }
}

/// What `position` finds: nothing before it matches, and it matches
/// itself unless it is the end of the range.
pub proof fn lemma_position(s: Seq<char>, c: char, from: int, to: int)
    requires
        from <= to,
    ensures
        from <= position(s, c, from, to) <= to,
        position(s, c, from, to) < to ==> s[position(s, c, from, to)] == c,
        forall|i: int| from <= i < position(s, c, from, to) ==> s[i] != c,
    decreases to - from,
{
    if from < to && s[from] != c {
        lemma_position(s, c, from + 1, to);
    }
}

/// Finds `c` in `v[from..to]`.
pub fn find_char(v: &Vec<char>, c: char, from: usize, to: usize) -> (i: usize)
    requires
        from <= to <= v.len(),
    ensures
        from <= i <= to,
        i == position(v@, c, from as int, to as int),
{
    let mut i: usize = from;
    while i < to && v[i] != c
        invariant
            from <= i <= to <= v.len(),
            position(v@, c, from as int, to as int) == position(v@, c, i as int, to as int),
        decreases to - i,
    {
        i += 1;
    }
    i
}

/// Whether `p` stands at the start of `s`.
pub open spec fn has_prefix(s: Seq<char>, p: Seq<char>) -> bool {
    p.len() <= s.len() && s.take(p.len() as int) == p
}

/// Whether `p` stands in `t` at index `at`.
pub fn matches_at(t: &Vec<char>, at: usize, p: &Vec<char>) -> (m: bool)
    requires
        at <= t.len(),
    ensures
        m == has_prefix(t@.skip(at as int), p@),
{
    if p.len() > t.len() - at {
        return false;
    }
    let mut k: usize = 0;
    while k < p.len()
        invariant
            at <= t.len(),
            p.len() <= t.len() - at,
            k <= p.len(),
            forall|j: int| 0 <= j < k ==> t@[at + j] == p@[j],
        decreases p.len() - k,
    {
        if t[at + k] != p[k] {
            proof {
                assert(t@.skip(at as int).take(p.len() as int)[k as int] == t@[at + k]);
            }
            return false;
        }
        k += 1;
    }
    proof {
        assert(t@.skip(at as int).take(p.len() as int) =~= p@);
    }
    true
}

/// `s` with every occurrence of `pattern` replaced, scanning from the
/// left and resuming after each replacement. An empty pattern occurs
/// nowhere.
pub open spec fn replace_all(s: Seq<char>, pattern: Seq<char>, with: Seq<char>) -> Seq<char>
    decreases s.len(),
{
    if pattern.len() == 0 || s.len() == 0 {
        s
    } else if has_prefix(s, pattern) {
        with + replace_all(s.skip(pattern.len() as int), pattern, with)
    } else {
        seq![s[0]] + replace_all(s.skip(1), pattern, with)
    }
}

/// Replaces every occurrence of `pattern` in `text`.
pub fn replace_every(text: &str, pattern: &str, with: &str) -> (out: String)
    ensures
        out@ == replace_all(text@, pattern@, with@),
{
    let t = chars_of(text);
    let p = chars_of(pattern);
    if p.len() == 0 {
        return text.to_owned();
    }
    let mut out = String::new();
    let mut start: usize = 0;
    let mut i: usize = 0;
    proof {
        assert(text@.skip(0) =~= text@);
        assert(out@ + text@.subrange(0, 0) =~= Seq::<char>::empty());
        assert(Seq::<char>::empty() + text@ =~= text@);
    }
    while i < t.len()
        invariant
            t@ == text@,
            p@ == pattern@,
            p.len() > 0,
            start <= i <= t.len(),
            replace_all(text@, pattern@, with@) == out@ + text@.subrange(start as int, i as int)
                + replace_all(text@.skip(i as int), pattern@, with@),
        decreases t.len() - i,
    {
        let ghost rest = text@.skip(i as int);
        if matches_at(&t, i, &p) {
            out.append(text.substring_char(start, i));
            out.append(with);
            proof {
                assert(rest.skip(p.len() as int) =~= text@.skip(i + p.len()));
                assert(text@.subrange(i + p.len(), i + p.len()) =~= Seq::<char>::empty());
                assert(out@ + text@.subrange(i + p.len(), i + p.len()) =~= out@);
            }
            i += p.len();
            start = i;
        } else {
            proof {
                assert(rest.skip(1) =~= text@.skip(i + 1));
                assert(text@.subrange(start as int, i as int) + seq![rest[0]]
                    =~= text@.subrange(start as int, i + 1));
            }
            i += 1;
        }
    }
    proof {
        assert(text@.skip(i as int).len() == 0);
    }
    out.append(text.substring_char(start, i));
    out
}

/// Strict lexicographic order on character sequences, characters
/// compared by code point. A proper prefix comes before what it
/// prefixes.
pub open spec fn lex_lt(a: Seq<char>, b: Seq<char>) -> bool
    decreases a.len(),
{
    if b.len() == 0 {
        false
    } else if a.len() == 0 {
        true
    } else if a[0] != b[0] {
        a[0] < b[0]
    } else {
        lex_lt(a.skip(1), b.skip(1))
    }
}

/// No sequence comes before itself, and of two sequences at most one
/// comes before the other.
pub proof fn lemma_lex_asymmetric(a: Seq<char>, b: Seq<char>)
    ensures
        !(lex_lt(a, b) && lex_lt(b, a)),
    decreases a.len(),
{
    if a.len() > 0 && b.len() > 0 && a[0] == b[0] {
        lemma_lex_asymmetric(a.skip(1), b.skip(1));
    }
}

/// Two sequences neither of which comes before the other are equal.
pub proof fn lemma_lex_total(a: Seq<char>, b: Seq<char>)
    ensures
        lex_lt(a, b) || lex_lt(b, a) || a == b,
    decreases a.len(),
{
    if a.len() == 0 || b.len() == 0 {
        if a.len() == 0 && b.len() == 0 {
            assert(a =~= b);
        }
    } else if a[0] == b[0] {
        lemma_lex_total(a.skip(1), b.skip(1));
        if a.skip(1) == b.skip(1) {
            assert(a =~= seq![a[0]] + a.skip(1));
            assert(b =~= seq![b[0]] + b.skip(1));
            assert(a =~= b);
        }
    }
}

/// The order is transitive.
pub proof fn lemma_lex_transitive(a: Seq<char>, b: Seq<char>, c: Seq<char>)
    requires
        lex_lt(a, b),
        lex_lt(b, c),
    ensures
        lex_lt(a, c),
    decreases a.len(),
{
    if a.len() > 0 && a[0] == b[0] && b[0] == c[0] {
        lemma_lex_transitive(a.skip(1), b.skip(1), c.skip(1));
    }
}

/// Whether `a` comes before `b`.
pub fn lex_before(a: &Vec<char>, b: &Vec<char>) -> (r: bool)
    ensures
        r == lex_lt(a@, b@),
{
    let mut i: usize = 0;
    proof {
        assert(a@.skip(0) =~= a@);
        assert(b@.skip(0) =~= b@);
    }
    while i < a.len() && i < b.len() && a[i] == b[i]
        invariant
            i <= a.len(),
            i <= b.len(),
            lex_lt(a@, b@) == lex_lt(a@.skip(i as int), b@.skip(i as int)),
        decreases a.len() - i,
    {
        proof {
            assert(a@.skip(i as int).skip(1) =~= a@.skip(i + 1));
            assert(b@.skip(i as int).skip(1) =~= b@.skip(i + 1));
        }
        i += 1;
    }
    if i >= b.len() {
        false
    } else if i >= a.len() {
        true
    } else {
        a[i] < b[i]
    }
}

/// A position found in a part of `s` is the position found in `s`,
/// counted from where the part starts.
pub proof fn lemma_position_in_part(s: Seq<char>, c: char, a: int, b: int, from: int)
    requires
        0 <= a <= from <= b <= s.len(),
    ensures
        position(s.subrange(a, b), c, from - a, b - a) == position(s, c, from, b) - a,
    decreases b - from,
{
    if from < b {
        assert(s.subrange(a, b)[from - a] == s[from]);
        lemma_position_in_part(s, c, a, b, from + 1);
    }
}

/// The decimal digit for `d`.
pub open spec fn digit_char(d: nat) -> char {
    if d == 0 {
        '0'
    } else if d == 1 {
        '1'
    } else if d == 2 {
        '2'
    } else if d == 3 {
        '3'
    } else if d == 4 {
        '4'
    } else if d == 5 {
        '5'
    } else if d == 6 {
        '6'
    } else if d == 7 {
        '7'
    } else if d == 8 {
        '8'
    } else {
        '9'
    }
}

/// `n` in decimal digits, without leading zeros.
pub open spec fn decimal_text(n: nat) -> Seq<char>
    decreases n,
{
    if n < 10 {
        seq![digit_char(n)]
    } else {
        decimal_text(n / 10).push(digit_char(n % 10))
    }
}

fn digit(d: usize) -> (text: &'static str)
    requires
        d < 10,
    ensures
        text@ == seq![digit_char(d as nat)],
{
    proof {
        reveal_strlit("0");
        reveal_strlit("1");
        reveal_strlit("2");
        reveal_strlit("3");
        reveal_strlit("4");
        reveal_strlit("5");
        reveal_strlit("6");
        reveal_strlit("7");
        reveal_strlit("8");
        reveal_strlit("9");
    }
    let text = if d == 0 {
        "0"
    } else if d == 1 {
        "1"
    } else if d == 2 {
        "2"
    } else if d == 3 {
        "3"
    } else if d == 4 {
        "4"
    } else if d == 5 {
        "5"
    } else if d == 6 {
        "6"
    } else if d == 7 {
        "7"
    } else if d == 8 {
        "8"
    } else {
        "9"
    };
    proof {
        assert(text@ =~= seq![digit_char(d as nat)]);
    }
    text
}

/// Writes `n` in decimal digits.
pub fn decimal(n: usize) -> (text: String)
    ensures
        text@ == decimal_text(n as nat),
    decreases n,
{
    if n < 10 {
        String::from_str(digit(n))
    } else {
        let mut text = decimal(n / 10);
        text.append(digit(n % 10));
        proof {
            assert(text@ =~= decimal_text((n / 10) as nat).push(digit_char((n % 10) as nat)));
        }
        text
    }
}

} // verus!
