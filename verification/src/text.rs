//! Character-level helpers shared by the formatters and parsers.

use vstd::prelude::*;

verus! {

broadcast use vstd::string::group_string_axioms;

/// The characters of `s`, in order.
pub fn chars_of(s: &str) -> (out: Vec<char>)
    ensures
        out@ == s@,
{
    let mut out: Vec<char> = Vec::new();
    for c in it: s.chars()
        invariant
            out@ == it.seq().take(it.index() as int),
            it.seq() == s@,
    {
        out.push(c);
    }
    out
}

/// The decimal digit character for `d` (meaningful for `d < 10`).
pub open spec fn digit_char(d: nat) -> char {
    (48 + d) as char
}

/// How `Display` writes a non-negative integer: its decimal digits, without
/// leading zeros ("0" for zero).
pub open spec fn decimal(n: nat) -> Seq<char>
    decreases n,
{
    if n < 10 {
        seq![digit_char(n)]
    } else {
        decimal(n / 10).push(digit_char(n % 10))
    }
}

/// The number a string of decimal digits reads as, most significant first.
pub open spec fn digits_value(d: Seq<char>) -> int
    decreases d.len(),
{
    if d.len() == 0 {
        0
    } else {
        digits_value(d.drop_last()) * 10 + (d.last() as int - 48)
    }
}

/// `d` is how `Display` writes `n`: a non-empty string of decimal digits,
/// without a leading zero unless it is the single digit `0`, that reads as `n`.
pub open spec fn is_decimal_of(d: Seq<char>, n: nat) -> bool {
    &&& d.len() >= 1
    &&& forall|k: int| 0 <= k < d.len() ==> '0' <= #[trigger] d[k] <= '9'
    &&& (d.len() == 1 || d[0] != '0')
    &&& digits_value(d) == n
}

/// The decimal text of a number is its canonical decimal form: digits only, no
/// leading zero, reading back as the number.
pub proof fn lemma_decimal_reads_back(n: nat)
    ensures
        is_decimal_of(decimal(n), n),
    decreases n,
{
    if n >= 10 {
        lemma_decimal_reads_back(n / 10);
        let p = decimal(n / 10);
        let d = decimal(n);
        assert(d == p.push(digit_char(n % 10)));
        assert(d.drop_last() =~= p);
        assert(d[0] == p[0]);
        if p.len() == 1 {
            assert(p.drop_last() =~= Seq::<char>::empty());
            assert(digits_value(p.drop_last()) == 0);
            assert(p.last() == p[0]);
            assert(p[0] != '0');
        }
        assert forall|k: int| 0 <= k < d.len() implies '0' <= #[trigger] d[k] <= '9' by {
            if k < p.len() {
                assert(d[k] == p[k]);
            }
        }
        assert(digits_value(d) == (n / 10) * 10 + n % 10);
        assert((n / 10) * 10 + n % 10 == n);
        assert(d[d.len() - 1] == digit_char(n % 10));
    } else {
        let d = decimal(n);
        assert(d =~= seq![digit_char(n)]);
        assert(d.drop_last() =~= Seq::<char>::empty());
        assert(digits_value(d.drop_last()) == 0);
        assert(d.last() == digit_char(n));
        assert(digit_char(n) as int == 48 + n);
        assert(digits_value(d) == n);
    }
}

/// Only one text is the decimal form of a number.
pub proof fn lemma_decimal_unique(d: Seq<char>, n: nat)
    requires
        is_decimal_of(d, n),
    ensures
        d == decimal(n),
    decreases d.len(),
{
    lemma_decimal_reads_back(n);
    let t = d.drop_last();
    let last = d.last() as int - 48;
    assert(0 <= last <= 9);
    if d.len() == 1 {
        assert(digits_value(t) == 0);
        assert(n == last);
        assert(d =~= seq![digit_char(n)]);
    } else {
        assert forall|k: int| 0 <= k < t.len() implies '0' <= #[trigger] t[k] <= '9' by {
            assert(t[k] == d[k]);
        }
        lemma_digits_value_bound(t);
        let m = digits_value(t);
        assert(t[0] == d[0]);
        lemma_leading_digit_positive(t);
        assert(m >= 1);
        assert(n == m * 10 + last);
        assert(n / 10 == m && n % 10 == last) by (nonlinear_arith)
            requires
                n == m * 10 + last,
                0 <= last <= 9,
                m >= 1,
        ;
        assert(is_decimal_of(t, m as nat));
        lemma_decimal_unique(t, m as nat);
        assert(d =~= t.push(d.last()));
        assert(d.last() == digit_char(n % 10));
    }
}

proof fn lemma_digits_value_bound(d: Seq<char>)
    requires
        forall|k: int| 0 <= k < d.len() ==> '0' <= #[trigger] d[k] <= '9',
    ensures
        digits_value(d) >= 0,
    decreases d.len(),
{
    if d.len() > 0 {
        let t = d.drop_last();
        assert forall|k: int| 0 <= k < t.len() implies '0' <= #[trigger] t[k] <= '9' by {
            assert(t[k] == d[k]);
        }
        lemma_digits_value_bound(t);
        assert(d[d.len() - 1] == d.last());
    }
}

proof fn lemma_leading_digit_positive(d: Seq<char>)
    requires
        d.len() >= 1,
        forall|k: int| 0 <= k < d.len() ==> '0' <= #[trigger] d[k] <= '9',
        d[0] != '0',
    ensures
        digits_value(d) >= 1,
    decreases d.len(),
{
    let t = d.drop_last();
    if d.len() == 1 {
        assert(d.last() == d[0]);
    } else {
        assert forall|k: int| 0 <= k < t.len() implies '0' <= #[trigger] t[k] <= '9' by {
            assert(t[k] == d[k]);
        }
        assert(t[0] == d[0]);
        lemma_leading_digit_positive(t);
        assert(d[d.len() - 1] == d.last());
    }
}

fn digit_str(d: u64) -> (s: &'static str)
    requires
        d < 10,
    ensures
        s@ == seq![digit_char(d as nat)],
{
    proof {
        reveal_strlit("0");
        reveal_strlit("1");
        reveal_strlit("2");
        reveal_strlit("3");
        reveal_strlit("4");
        reveal_strlit("5");
        reveal_strlit("6");
        reveal_strlit("7");
        reveal_strlit("8");
        reveal_strlit("9");
    }
    match d {
        0 => "0",
        1 => "1",
        2 => "2",
        3 => "3",
        4 => "4",
        5 => "5",
        6 => "6",
        7 => "7",
        8 => "8",
        _ => "9",
    }
}

/// Appends the decimal form of `n` to `out`.
pub fn push_decimal(out: &mut String, n: u64)
    ensures
        final(out)@ == old(out)@ + decimal(n as nat),
    decreases n,
{
    if n >= 10 {
        push_decimal(out, n / 10);
    }
    out.append(digit_str(n % 10));
}


/// `Display` of a `bool`.
pub open spec fn bool_text(b: bool) -> Seq<char> {
    if b {
        "true"@
    } else {
        "false"@
    }
}

/// Appends the `Display` form of `b` to `out`.
pub fn push_bool(out: &mut String, b: bool)
    ensures
        final(out)@ == old(out)@ + bool_text(b),
{
    if b {
        out.append("true");
    } else {
        out.append("false");
    }
}

/// Whether `m` occurs in `t` starting at position `i`.
pub open spec fn occurs_at<A>(t: Seq<A>, m: Seq<A>, i: int) -> bool {
    0 <= i && i + m.len() <= t.len() && t.subrange(i, i + m.len()) == m
}

/// The leftmost position at or after `i` where `m` occurs in `t`, or -1.
pub open spec fn find_from<A>(t: Seq<A>, m: Seq<A>, i: nat) -> int
    decreases t.len() + 1 - i,
{
    if i + m.len() > t.len() {
        -1
    } else if t.subrange(i as int, (i + m.len()) as int) == m {
        i as int
    } else {
        find_from(t, m, i + 1)
    }
}

/// Whether `m` occurs anywhere in `t`.
pub open spec fn contains_seq<A>(t: Seq<A>, m: Seq<A>) -> bool {
    find_from(t, m, 0) >= 0
}

/// What `find_from` returns is either -1 or the first occurrence.
pub proof fn lemma_find_from<A>(t: Seq<A>, m: Seq<A>, i: nat)
    ensures
        find_from(t, m, i) == -1 || (i <= find_from(t, m, i) && occurs_at(
            t,
            m,
            find_from(t, m, i),
        )),
        find_from(t, m, i) == -1 ==> forall|j: int| i <= j ==> !#[trigger] occurs_at(t, m, j),
        find_from(t, m, i) >= 0 ==> forall|j: int|
            i <= j < find_from(t, m, i) ==> !#[trigger] occurs_at(t, m, j),
    decreases t.len() + 1 - i,
{
    if i + m.len() > t.len() {
    } else if t.subrange(i as int, (i + m.len()) as int) == m {
    } else {
        lemma_find_from(t, m, i + 1);
    }
}

fn chars_match_at(t: &Vec<char>, m: &Vec<char>, i: usize) -> (r: bool)
    requires
        i + m.len() <= t.len(),
    ensures
        r == (t@.subrange(i as int, i + m.len()) == m@),
{
    let mut k: usize = 0;
    while k < m.len()
        invariant
            k <= m.len(),
            i + m.len() <= t.len(),
            forall|j: int| 0 <= j < k ==> t@[i + j] == m@[j],
        decreases m.len() - k,
    {
        if t[i + k] != m[k] {
            assert(t@.subrange(i as int, i + m.len())[k as int] != m@[k as int]);
            return false;
        }
        k = k + 1;
    }
    assert(t@.subrange(i as int, i + m.len()) =~= m@);
    true
}

/// Leftmost occurrence of `m` in `t` at or after `start`.
pub fn find_chars(t: &Vec<char>, m: &Vec<char>, start: usize) -> (r: Option<usize>)
    ensures
        match r {
            Some(i) => i as int == find_from(t@, m@, start as nat),
            None => find_from(t@, m@, start as nat) == -1,
        },
{
    let mut i = start;
    loop
        invariant
            start <= i,
            find_from(t@, m@, start as nat) == find_from(t@, m@, i as nat),
        decreases t.len() + 1 - i,
    {
        if i > t.len() || m.len() > t.len() - i {
            return None;
        }
        if chars_match_at(t, m, i) {
            return Some(i);
        }
        assert(m@.len() > 0) by {
            if m@.len() == 0 {
                assert(t@.subrange(i as int, i as int) =~= m@);
            }
        }
        i = i + 1;
    }
}

fn bytes_match_at(t: &[u8], m: &[u8], i: usize) -> (r: bool)
    requires
        i + m@.len() <= t@.len(),
    ensures
        r == (t@.subrange(i as int, i + m@.len()) == m@),
{
    let tlen = t.len();
    let mut k: usize = 0;
    while k < m.len()
        invariant
            tlen == t@.len(),
            k <= m@.len(),
            i + m@.len() <= t@.len(),
            forall|j: int| 0 <= j < k ==> t@[i + j] == m@[j],
        decreases m@.len() - k,
    {
        if t[i + k] != m[k] {
            assert(t@.subrange(i as int, i + m@.len())[k as int] != m@[k as int]);
            return false;
        }
        k = k + 1;
    }
    assert(t@.subrange(i as int, i + m@.len()) =~= m@);
    true
}

/// Whether the byte string `m` occurs anywhere in `t`.
pub fn contains_bytes(t: &[u8], m: &[u8]) -> (r: bool)
    ensures
        r == contains_seq(t@, m@),
{
    let mut i: usize = 0;
    loop
        invariant
            find_from(t@, m@, 0) == find_from(t@, m@, i as nat),
        decreases t@.len() + 1 - i,
    {
        if i > t.len() || m.len() > t.len() - i {
            return false;
        }
        if bytes_match_at(t, m, i) {
            return true;
        }
        assert(m@.len() > 0) by {
            if m@.len() == 0 {
                assert(t@.subrange(i as int, i as int) =~= m@);
            }
        }
        i = i + 1;
    }
}

/// Whether `m` occurs anywhere in `t`.
pub fn contains_str(t: &str, m: &str) -> (r: bool)
    ensures
        r == contains_seq(t@, m@),
{
    let tc = chars_of(t);
    let mc = chars_of(m);
    find_chars(&tc, &mc, 0).is_some()
}

/// Whether two strings hold the same characters.
pub fn same_text(a: &str, b: &str) -> (r: bool)
    ensures
        r == (a@ == b@),
{
    let ac = chars_of(a);
    let bc = chars_of(b);
    if ac.len() != bc.len() {
        return false;
    }
    let r = chars_match_at(&ac, &bc, 0);
    assert(ac@.subrange(0, bc@.len() as int) =~= ac@);
    r
}

/// Whether `s` holds no NUL character, so that it can become a C string.
pub open spec fn nul_free(s: Seq<char>) -> bool {
    forall|i: int| 0 <= i < s.len() ==> s[i] != '\0'
}

/// Whether `s` can be handed to C: it holds no NUL character.
pub fn is_nul_free(s: &str) -> (r: bool)
    ensures
        r == nul_free(s@),
{
    let cs = chars_of(s);
    let mut i: usize = 0;
    while i < cs.len()
        invariant
            cs@ == s@,
            i <= cs@.len(),
            forall|j: int| 0 <= j < i ==> cs@[j] != '\0',
        decreases cs@.len() - i,
    {
        if cs[i] == '\0' {
            return false;
        }
        i = i + 1;
    }
    true
}


/// The position of the first line feed at or after `i`, or `t.len()`.
pub open spec fn next_newline(t: Seq<char>, i: nat) -> nat
    decreases t.len() - i,
{
    if i >= t.len() {
        t.len()
    } else if t[i as int] == '\n' {
        i
    } else {
        next_newline(t, i + 1)
    }
}

/// Where `next_newline` lands: at a line feed or at the end, with none skipped.
pub proof fn lemma_next_newline(t: Seq<char>, i: nat)
    ensures
        i >= t.len() ==> next_newline(t, i) == t.len(),
        i < t.len() ==> i <= next_newline(t, i) <= t.len(),
        next_newline(t, i) < t.len() ==> t[next_newline(t, i) as int] == '\n',
        forall|k: int| i <= k < next_newline(t, i) ==> t[k] != '\n',
    decreases t.len() - i,
{
    if i < t.len() && t[i as int] != '\n' {
        lemma_next_newline(t, i + 1);
    }
}

/// A line ended by a line feed loses one carriage return before it.
pub open spec fn strip_cr(line: Seq<char>) -> Seq<char> {
    if line.len() > 0 && line.last() == '\r' {
        line.drop_last()
    } else {
        line
    }
}

/// The lines of `t` from position `pos` on, as `str::lines` yields them: split at
/// line feeds, a `\r` before a line feed dropped, no empty line after a final
/// line feed.
pub open spec fn lines_from(t: Seq<char>, pos: nat) -> Seq<Seq<char>>
    decreases t.len() - pos,
{
    if pos >= t.len() {
        seq![]
    } else {
        let j = next_newline(t, pos);
        proof {
            lemma_next_newline(t, pos);
        }
        if j >= t.len() {
            seq![t.subrange(pos as int, t.len() as int)]
        } else {
            seq![strip_cr(t.subrange(pos as int, j as int))] + lines_from(t, j + 1)
        }
    }
}

/// No line holds a line feed.
pub proof fn lemma_lines_have_no_newline(t: Seq<char>, pos: nat)
    ensures
        forall|i: int, k: int|
            0 <= i < lines_from(t, pos).len() && 0 <= k < lines_from(t, pos)[i].len() ==> #[trigger] lines_from(t, pos)[i][k] != '\n',
    decreases t.len() - pos,
{
    if pos < t.len() {
        let j = next_newline(t, pos);
        lemma_next_newline(t, pos);
        if j < t.len() {
            lemma_lines_have_no_newline(t, j + 1);
            let first = strip_cr(t.subrange(pos as int, j as int));
            let rest = lines_from(t, j + 1);
            assert(lines_from(t, pos) == seq![first] + rest);
            assert forall|i: int, k: int|
                0 <= i < lines_from(t, pos).len() && 0 <= k < lines_from(t, pos)[i].len() implies #[trigger] lines_from(t, pos)[i][k] != '\n' by {
                if i == 0 {
                    assert(lines_from(t, pos)[0] == first);
                    assert(first[k] == t[pos + k]);
                } else {
                    assert(lines_from(t, pos)[i] == rest[i - 1]);
                }
            }
        } else {
            let only = t.subrange(pos as int, t.len() as int);
            assert forall|i: int, k: int|
                0 <= i < lines_from(t, pos).len() && 0 <= k < lines_from(t, pos)[i].len() implies #[trigger] lines_from(t, pos)[i][k] != '\n' by {
                assert(lines_from(t, pos)[i] == only);
                assert(only[k] == t[pos + k]);
            }
        }
    }
}

/// The lines of `t`, as `str::lines` yields them.
pub open spec fn text_lines(t: Seq<char>) -> Seq<Seq<char>> {
    lines_from(t, 0)
}

/// The text of each string in `v`.
pub open spec fn texts(v: Seq<String>) -> Seq<Seq<char>> {
    v.map_values(|s: String| s@)
}

/// Splits `text` into its lines, each an owned string.
pub fn split_lines(text: &str) -> (out: Vec<String>)
    ensures
        texts(out@) == text_lines(text@),
{
    let cs = chars_of(text);
    let n = cs.len();
    let mut out: Vec<String> = Vec::new();
    let mut pos: usize = 0;
    while pos < n
        invariant
            cs@ == text@,
            n == cs@.len(),
            pos <= n,
            texts(out@) + lines_from(cs@, pos as nat) == text_lines(cs@),
        decreases n - pos,
    {
        let ghost before = out@;
        proof {
            lemma_next_newline(cs@, pos as nat);
        }
        let mut j = pos;
        while j < n && cs[j] != '\n'
            invariant
                n == cs@.len(),
                pos <= j <= n,
                forall|k: int| pos <= k < j ==> cs@[k] != '\n',
            decreases n - j,
        {
            j = j + 1;
        }
        assert(j == next_newline(cs@, pos as nat)) by {
            if j < next_newline(cs@, pos as nat) {
                assert(cs@[j as int] == '\n');
            }
            if j > next_newline(cs@, pos as nat) {
                assert(cs@[next_newline(cs@, pos as nat) as int] == '\n');
            }
        }
        if j >= n {
            let line = text.substring_char(pos, n);
            out.push(String::from_str(line));
            assert(texts(out@) =~= texts(before).push(cs@.subrange(pos as int, n as int)));
            assert(lines_from(cs@, n as nat) =~= Seq::<Seq<char>>::empty());
            pos = n;
        } else {
            let end = if j > pos && cs[j - 1] == '\r' {
                j - 1
            } else {
                j
            };
            let line = text.substring_char(pos, end);
            out.push(String::from_str(line));
            assert(cs@.subrange(pos as int, end as int) =~= strip_cr(
                cs@.subrange(pos as int, j as int),
            ));
            assert(texts(out@) =~= texts(before).push(
                strip_cr(cs@.subrange(pos as int, j as int)),
            ));
            assert(lines_from(cs@, pos as nat) =~= seq![
                strip_cr(cs@.subrange(pos as int, j as int)),
            ] + lines_from(cs@, (j + 1) as nat));
            assert(texts(out@) + lines_from(cs@, (j + 1) as nat) =~= texts(before) + lines_from(
                cs@,
                pos as nat,
            ));
            pos = j + 1;
        }
    }
    assert(lines_from(cs@, pos as nat) =~= Seq::<Seq<char>>::empty());
    assert(texts(out@) + Seq::<Seq<char>>::empty() =~= texts(out@));
    out
}

} // verus!
