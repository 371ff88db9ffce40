//! Operations on text that the renderers and the configuration reader share.

use vstd::prelude::*;
use vstd::string::StringExecFns;
use vstd::string::StrSliceExecFns;

verus! {

/// The index of the first `c` in `s`, or the length of `s` where there is none.
pub open spec fn position(s: Seq<char>, c: char) -> int
    decreases s.len(),
{
    if s.len() == 0 {
        0
    } else if s[0] == c {
        0
    } else {
        1 + position(s.drop_first(), c)
    }
}

/// `position` is in range, names a `c`, and no `c` stands before it.
pub proof fn lemma_position(s: Seq<char>, c: char)
    ensures
        0 <= position(s, c) <= s.len(),
        position(s, c) < s.len() ==> s[position(s, c)] == c,
        forall|i: int| 0 <= i < position(s, c) ==> s[i] != c,
    decreases s.len(),
{
    if s.len() > 0 && s[0] != c {
        let rest = s.drop_first();
        lemma_position(rest, c);
        assert forall|i: int| 0 <= i < position(s, c) implies s[i] != c by {
            if i > 0 {
                assert(s[i] == rest[i - 1]);
            }
        }
    }
}

/// An index that names a `c` after a stretch without `c` is the `position`.
pub proof fn lemma_position_is(s: Seq<char>, c: char, p: int)
    requires
        0 <= p <= s.len(),
        p < s.len() ==> s[p] == c,
        forall|i: int| 0 <= i < p ==> s[i] != c,
    ensures
        position(s, c) == p,
{
    lemma_position(s, c);
    let q = position(s, c);
    if q < p {
        assert(s[q] == c);
    } else if p < q {
        assert(s[p] == c);
    }
}

/// Whether two pieces of text hold the same characters.
pub fn str_eq(a: &str, b: &str) -> (same: bool)
    ensures
        same == (a@ == b@),
{
    let n = a.unicode_len();
    if n != b.unicode_len() {
        return false;
    }
    let mut i: usize = 0;
    while i < n
        invariant
            n == a@.len(),
            n == b@.len(),
            i <= n,
            forall|k: int| 0 <= k < i ==> a@[k] == b@[k],
        decreases n - i,
    {
        if a.get_char(i) != b.get_char(i) {
            return false;
        }
        i += 1;
    }
    assert(a@ =~= b@);
    true
}

/// The index of the first `c` in `s`, or the number of characters of `s`.
pub fn find_char(s: &str, c: char) -> (at: usize)
    ensures
        at == position(s@, c),
{
    let n = s.unicode_len();
    let mut i: usize = 0;
    while i < n
        invariant
            n == s@.len(),
            i <= n,
            forall|k: int| 0 <= k < i ==> s@[k] != c,
        decreases n - i,
    {
        if s.get_char(i) == c {
            proof {
                lemma_position_is(s@, c, i as int);
            }
            return i;
        }
        i += 1;
    }
    proof {
        lemma_position_is(s@, c, n as int);
    }
    n
}

/// The text before the first `c` and the text after it, where `s` holds a `c`.
pub open spec fn split_once(s: Seq<char>, c: char) -> Option<(Seq<char>, Seq<char>)> {
    let p = position(s, c);
    if p < s.len() {
        Some((s.subrange(0, p), s.subrange(p + 1, s.len() as int)))
    } else {
        None
    }
}

/// Splits `s` at its first `c`; `None` where it holds none.
pub fn split_at_first(s: &str, c: char) -> (parts: Option<(String, String)>)
    ensures
        match parts {
            Some((head, tail)) => split_once(s@, c) == Some((head@, tail@)),
            None => split_once(s@, c) is None,
        },
{
    let n = s.unicode_len();
    let p = find_char(s, c);
    proof {
        lemma_position(s@, c);
    }
    if p < n {
        let head = String::from_str(s.substring_char(0, p));
        let tail = String::from_str(s.substring_char(p + 1, n));
        Some((head, tail))
    } else {
        None
    }
}

/// What follows the last `c` of `s`; all of `s` where it holds none.
pub open spec fn after_last(s: Seq<char>, c: char) -> Seq<char>
    decreases s.len(),
{
    let p = position(s, c);
    if 0 <= p < s.len() {
        after_last(s.subrange(p + 1, s.len() as int), c)
    } else {
        s
    }
}

/// The last of the parts that `c` divides `s` into.
pub fn last_component(s: &str, c: char) -> (part: String)
    ensures
        part@ == after_last(s@, c),
{
    let n = s.unicode_len();
    let mut start: usize = 0;
    let mut i: usize = 0;
    assert(s@.subrange(0, n as int) =~= s@);
    while i < n
        invariant
            n == s@.len(),
            start <= i <= n,
            forall|k: int| start <= k < i ==> s@[k] != c,
            after_last(s@, c) == after_last(s@.subrange(start as int, n as int), c),
        decreases n - i,
    {
        if s.get_char(i) == c {
            proof {
                let cur = s@.subrange(start as int, n as int);
                lemma_position_is(cur, c, i - start);
                assert(cur.subrange(i - start + 1, cur.len() as int) =~= s@.subrange(
                    i + 1,
                    n as int,
                ));
            }
            start = i + 1;
        }
        i += 1;
    }
    proof {
        let cur = s@.subrange(start as int, n as int);
        lemma_position_is(cur, c, cur.len() as int);
    }
    String::from_str(s.substring_char(start, n))
}

/// The first `n` characters of `s`, where `s` is longer than that.
pub open spec fn shortened(s: Seq<char>, n: int) -> Seq<char> {
    if s.len() > n && n >= 0 {
        s.subrange(0, n)
    } else {
        s
    }
}

/// Cuts `s` down to its first `n` characters; a shorter `s` stays whole.
pub fn shorten(s: &str, n: usize) -> (short: String)
    ensures
        short@ == shortened(s@, n as int),
{
    if s.unicode_len() > n {
        String::from_str(s.substring_char(0, n))
    } else {
        String::from_str(s)
    }
}

/// The character that stands for the digit `d`.
pub open spec fn digit(d: nat) -> char {
    if d == 0 {
        '0'
    } else if d == 1 {
        '1'
    } else if d == 2 {
        '2'
    } else if d == 3 {
        '3'
    } else if d == 4 {
        '4'
    } else if d == 5 {
        '5'
    } else if d == 6 {
        '6'
    } else if d == 7 {
        '7'
    } else if d == 8 {
        '8'
    } else {
        '9'
    }
}

/// `n` written in base ten, without a sign or leading zeros.
pub open spec fn decimal(n: nat) -> Seq<char>
    decreases n,
{
    if n < 10 {
        seq![digit(n)]
    } else {
        decimal(n / 10).push(digit(n % 10))
    }
}

fn digit_text(d: usize) -> (t: &'static str)
    requires
        d < 10,
    ensures
        t@ == seq![digit(d as nat)],
{
    proof {
        reveal_strlit("0");
        reveal_strlit("1");
        reveal_strlit("2");
        reveal_strlit("3");
        reveal_strlit("4");
        reveal_strlit("5");
        reveal_strlit("6");
        reveal_strlit("7");
        reveal_strlit("8");
        reveal_strlit("9");
    }
    let t = if d == 0 {
        "0"
    } else if d == 1 {
        "1"
    } else if d == 2 {
        "2"
    } else if d == 3 {
        "3"
    } else if d == 4 {
        "4"
    } else if d == 5 {
        "5"
    } else if d == 6 {
        "6"
    } else if d == 7 {
        "7"
    } else if d == 8 {
        "8"
    } else {
        "9"
    };
    assert(t@ =~= seq![digit(d as nat)]);
    t
}

/// Writes `n` in base ten.
pub fn number_text(n: usize) -> (out: String)
    ensures
        out@ == decimal(n as nat),
{
    let mut acc = String::from_str(digit_text(n % 10));
    let mut m: usize = n / 10;
    while m > 0
        invariant
            decimal(n as nat) == (if m > 0 {
                decimal(m as nat) + acc@
            } else {
                acc@
            }),
        decreases m,
    {
        let mut next = String::from_str(digit_text(m % 10));
        next.append(acc.as_str());
        proof {
            let d = seq![digit((m % 10) as nat)];
            if m >= 10 {
                assert(decimal(m as nat) + acc@ =~= decimal((m / 10) as nat) + (d + acc@));
            } else {
                assert(decimal(m as nat) + acc@ =~= d + acc@);
            }
        }
        acc = next;
        m = m / 10;
    }
    acc
}

/// Whether `s` begins with `pattern`.
pub open spec fn starts_with(s: Seq<char>, pattern: Seq<char>) -> bool {
    pattern.len() <= s.len() && s.subrange(0, pattern.len() as int) == pattern
}

/// `s` with every occurrence of `from` replaced by `to`. Occurrences are
/// found from the left and do not overlap. An empty `from` occurs before
/// every character and at the end.
pub open spec fn replaced(s: Seq<char>, from: Seq<char>, to: Seq<char>) -> Seq<char>
    decreases s.len(),
{
    if s.len() == 0 {
        if from.len() == 0 {
            to
        } else {
            s
        }
    } else if from.len() == 0 {
        to + seq![s[0]] + replaced(s.drop_first(), from, to)
    } else if starts_with(s, from) {
        to + replaced(s.subrange(from.len() as int, s.len() as int), from, to)
    } else {
        seq![s[0]] + replaced(s.drop_first(), from, to)
    }
}

/// Whether `pattern` stands in `s` at index `at`.
fn occurs_at(s: &str, at: usize, pattern: &str) -> (found: bool)
    requires
        at <= s@.len(),
    ensures
        found == starts_with(s@.subrange(at as int, s@.len() as int), pattern@),
{
    let n = s.unicode_len();
    let m = pattern.unicode_len();
    let ghost rest = s@.subrange(at as int, n as int);
    if m > n - at {
        return false;
    }
    let mut k: usize = 0;
    while k < m
        invariant
            n == s@.len(),
            m == pattern@.len(),
            at + m <= n,
            k <= m,
            rest == s@.subrange(at as int, n as int),
            forall|j: int| 0 <= j < k ==> rest[j] == pattern@[j],
        decreases m - k,
    {
        if s.get_char(at + k) != pattern.get_char(k) {
            assert(rest.subrange(0, m as int)[k as int] == rest[k as int]);
            return false;
        }
        k += 1;
    }
    assert(rest.subrange(0, m as int) =~= pattern@);
    true
}

/// Replaces every occurrence of `from` in `s` by `to`.
pub fn replace_all(s: &str, from: &str, to: &str) -> (out: String)
    ensures
        out@ == replaced(s@, from@, to@),
{
    let n = s.unicode_len();
    let m = from.unicode_len();
    let mut out = String::new();
    let mut i: usize = 0;
    assert(s@.subrange(0, n as int) =~= s@);
    while i < n
        invariant
            n == s@.len(),
            m == from@.len(),
            i <= n,
            replaced(s@, from@, to@) == out@ + replaced(s@.subrange(i as int, n as int), from@, to@),
        decreases n - i,
    {
        let ghost rest = s@.subrange(i as int, n as int);
        let ghost before = out@;
        if m == 0 {
            out.append(to);
            out.append(s.substring_char(i, i + 1));
            proof {
                assert(s@.subrange(i as int, i + 1) =~= seq![rest[0]]);
                assert(rest.drop_first() =~= s@.subrange(i + 1, n as int));
                assert(before + (to@ + seq![rest[0]] + replaced(rest.drop_first(), from@, to@))
                    =~= before + to@ + seq![rest[0]] + replaced(rest.drop_first(), from@, to@));
            }
            i += 1;
        } else if occurs_at(s, i, from) {
            out.append(to);
            proof {
                assert(rest.subrange(m as int, rest.len() as int) =~= s@.subrange(
                    i + m,
                    n as int,
                ));
                assert(before + (to@ + replaced(
                    rest.subrange(m as int, rest.len() as int),
                    from@,
                    to@,
                )) =~= before + to@ + replaced(
                    rest.subrange(m as int, rest.len() as int),
                    from@,
                    to@,
                ));
            }
            i += m;
        } else {
            out.append(s.substring_char(i, i + 1));
            proof {
                assert(s@.subrange(i as int, i + 1) =~= seq![rest[0]]);
                assert(rest.drop_first() =~= s@.subrange(i + 1, n as int));
                assert(before + (seq![rest[0]] + replaced(rest.drop_first(), from@, to@))
                    =~= before + seq![rest[0]] + replaced(rest.drop_first(), from@, to@));
            }
            i += 1;
        }
    }
    if m == 0 {
        out.append(to);
    }
    out
}

} // verus!
