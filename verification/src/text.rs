//! Plain text helpers: decimal rendering of integers, Unicode whitespace,
//! trimming and joining.

use vstd::prelude::*;

verus! {

/// The ASCII digit character for `d` (`0 <= d < 10`).
pub open spec fn digit_char(d: nat) -> char {
    ((d + 48) as u32) as char
}

/// Decimal rendering of a natural number, as `Display` prints integers:
/// most significant digit first, no leading zeros, no sign.
pub open spec fn decimal(n: nat) -> Seq<char>
    decreases n,
{
    if n < 10 {
        seq![digit_char(n)]
    } else {
        decimal(n / 10).push(digit_char(n % 10))
    }
}

/// A concatenation starts with its left part and ends with its right part.
pub proof fn lemma_concat_ends<T>(a: Seq<T>, b: Seq<T>)
    ensures
        a.is_prefix_of(a + b),
        b.is_suffix_of(a + b),
{
    assert(a =~= (a + b).subrange(0, a.len() as int));
    assert(b =~= (a + b).subrange(a.len() as int, (a + b).len() as int));
}

/// The number a string of decimal digits spells, most significant first.
pub open spec fn digits_value(s: Seq<char>) -> int
    decreases s.len(),
{
    if s.len() == 0 {
        0
    } else {
        digits_value(s.drop_last()) * 10 + ((s.last() as u32) - 48)
    }
}

/// The decimal rendering of `n` is a non-empty string of ASCII digits,
/// without a leading zero unless it is `0` itself, that reads back as `n`.
pub proof fn lemma_decimal_reads_back(n: nat)
    ensures
        decimal(n).len() > 0,
        forall|i: int| 0 <= i < decimal(n).len() ==> '0' <= #[trigger] decimal(n)[i] <= '9',
        n > 0 ==> decimal(n)[0] != '0',
        digits_value(decimal(n)) == n,
    decreases n,
{
    if n < 10 {
        assert(decimal(n) == seq![digit_char(n)]);
        assert(decimal(n).drop_last() =~= Seq::<char>::empty());
        assert(digit_char(n) as u32 == n + 48);
        assert(decimal(n).last() == digit_char(n));
        assert(digits_value(decimal(n)) == digits_value(Seq::<char>::empty()) * 10 + n);
    } else {
        lemma_decimal_reads_back(n / 10);
        let d = decimal(n / 10);
        assert(decimal(n) == d.push(digit_char(n % 10)));
        assert(decimal(n).drop_last() =~= d);
        assert(digit_char(n % 10) as u32 == n % 10 + 48);
        assert(decimal(n).last() == digit_char(n % 10));
        assert(digits_value(decimal(n)) == digits_value(d) * 10 + n % 10);
        assert(decimal(n)[0] == d[0]);
        assert(n == (n / 10) * 10 + n % 10) by (nonlinear_arith);
    }
}

proof fn lemma_digit_text(d: usize)
    requires
        d < 10,
    ensures
        "0123456789"@.subrange(d as int, d + 1) == seq![digit_char(d as nat)],
{
    reveal_strlit("0123456789");
    assert("0123456789"@.subrange(d as int, d + 1) =~= seq!["0123456789"@[d as int]]);
    assert("0123456789"@ =~= seq!['0', '1', '2', '3', '4', '5', '6', '7', '8', '9']);
    assert('0' as u32 == 48);
    assert("0123456789"@[d as int] == digit_char(d as nat));
}

/// Renders `n` in decimal.
pub fn fmt_u64(n: u64) -> (s: String)
    ensures
        s@ == decimal(n as nat),
    decreases n,
{
    let d = (n % 10) as usize;
    proof {
        reveal_strlit("0123456789");
    }
    let digit = "0123456789".substring_char(d, d + 1);
    proof {
        lemma_digit_text(d);
    }
    if n < 10 {
        digit.to_owned()
    } else {
        let mut s = fmt_u64(n / 10);
        s.append(digit);
        s
    }
}

/// `c` has the Unicode `White_Space` property, the test behind
/// `char::is_whitespace` and `str::trim`.
pub open spec fn is_ws(c: char) -> bool {
    let u = c as u32;
    ||| 0x09 <= u <= 0x0d
    ||| u == 0x20
    ||| u == 0x85
    ||| u == 0xa0
    ||| u == 0x1680
    ||| 0x2000 <= u <= 0x200a
    ||| u == 0x2028
    ||| u == 0x2029
    ||| u == 0x202f
    ||| u == 0x205f
    ||| u == 0x3000
}

/// `s` without its leading whitespace.
pub open spec fn trim_start(s: Seq<char>) -> Seq<char>
    decreases s.len(),
{
    if s.len() > 0 && is_ws(s[0]) {
        trim_start(s.drop_first())
    } else {
        s
    }
}

/// `s` without its trailing whitespace.
pub open spec fn trim_end(s: Seq<char>) -> Seq<char>
    decreases s.len(),
{
    if s.len() > 0 && is_ws(s.last()) {
        trim_end(s.drop_last())
    } else {
        s
    }
}

/// `s` without leading and trailing whitespace, as `str::trim` gives it.
pub open spec fn trim(s: Seq<char>) -> Seq<char> {
    trim_end(trim_start(s))
}

/// The parts joined with `sep` between neighbours, as `[String]::join` gives it.
pub open spec fn join(parts: Seq<Seq<char>>, sep: Seq<char>) -> Seq<char>
    decreases parts.len(),
{
    if parts.len() == 0 {
        Seq::empty()
    } else if parts.len() == 1 {
        parts[0]
    } else {
        join(parts.drop_last(), sep) + sep + parts.last()
    }
}

/// Where the line starting at `i` ends: the next `\n`, or the end of `s`.
pub open spec fn line_end(s: Seq<char>, i: int) -> int
    decreases s.len() - i,
{
    if i < 0 || i >= s.len() {
        s.len() as int
    } else if s[i] == '\n' {
        i
    } else {
        line_end(s, i + 1)
    }
}

/// The lines of `s` from position `start` on, as `str::lines` gives them:
/// split at `\n`, a `\r` before the `\n` dropped, no empty line after a
/// final `\n`.
pub open spec fn lines_from(s: Seq<char>, start: int) -> Seq<Seq<char>>
    decreases s.len() - start,
{
    if start < 0 || start >= s.len() {
        Seq::empty()
    } else {
        proof {
            lemma_line_end_bounds(s, start);
        }
        let e = line_end(s, start);
        let raw = s.subrange(start, e);
        let line = if e < s.len() && raw.len() > 0 && raw.last() == '\r' {
            raw.drop_last()
        } else {
            raw
        };
        if e < s.len() {
            seq![line] + lines_from(s, e + 1)
        } else {
            seq![line]
        }
    }
}

/// The lines of `s`.
pub open spec fn lines(s: Seq<char>) -> Seq<Seq<char>> {
    lines_from(s, 0)
}

/// The line starting at `i` ends within `s`, at a `\n` unless at the end.
pub proof fn lemma_line_end_bounds(s: Seq<char>, i: int)
    requires
        0 <= i <= s.len(),
    ensures
        i <= line_end(s, i) <= s.len(),
        line_end(s, i) < s.len() ==> s[line_end(s, i)] == '\n',
    decreases s.len() - i,
{
    if i < s.len() && s[i] != '\n' {
        lemma_line_end_bounds(s, i + 1);
    }
}

proof fn lemma_line_end_of_plain_prefix(a: Seq<char>, rest: Seq<char>, i: int)
    requires
        0 <= i <= a.len(),
        forall|j: int| 0 <= j < a.len() ==> a[j] != '\n',
    ensures
        line_end(a + rest, i) == a.len() + line_end_offset(rest),
    decreases a.len() - i,
{
    if i < a.len() {
        assert((a + rest)[i] == a[i]);
        lemma_line_end_of_plain_prefix(a, rest, i + 1);
    } else {
        lemma_line_end_shift(a, rest, 0);
    }
}

/// Where the first line of `s` ends.
pub open spec fn line_end_offset(s: Seq<char>) -> int {
    line_end(s, 0)
}

proof fn lemma_line_end_shift(a: Seq<char>, rest: Seq<char>, k: int)
    requires
        0 <= k <= rest.len(),
    ensures
        line_end(a + rest, a.len() + k) == a.len() + line_end(rest, k),
    decreases rest.len() - k,
{
    if k < rest.len() {
        assert((a + rest)[a.len() + k] == rest[k]);
        if rest[k] != '\n' {
            lemma_line_end_shift(a, rest, k + 1);
        }
    }
}

/// Lines are what lies between newlines: a text without a newline is one
/// line, and a line without a newline or a final carriage return, followed
/// by a newline, comes first and the rest follows as it would alone.
pub proof fn lemma_lines_split_at_newline(a: Seq<char>, rest: Seq<char>)
    requires
        forall|j: int| 0 <= j < a.len() ==> a[j] != '\n',
    ensures
        a.len() > 0 ==> lines(a) == seq![a],
        a.len() == 0 || a.last() != '\r' ==> lines(a + seq!['\n'] + rest) == seq![a] + lines(rest),
{
    if a.len() > 0 {
        lemma_line_end_of_plain_prefix(a, Seq::<char>::empty(), 0);
        assert(a + Seq::<char>::empty() =~= a);
        assert(a.subrange(0, a.len() as int) =~= a);
    }
    let s = a + seq!['\n'] + rest;
    assert(s =~= a + (seq!['\n'] + rest));
    lemma_line_end_of_plain_prefix(a, seq!['\n'] + rest, 0);
    assert(s.subrange(0, a.len() as int) =~= a);
    assert(line_end(s, 0) == a.len());
    if a.len() == 0 || a.last() != '\r' {
        lemma_lines_from_shift(s, rest, a.len() + 1int, 0);
        assert(lines(s) == seq![a] + lines_from(s, a.len() + 1int));
    }
}

proof fn lemma_lines_from_shift(s: Seq<char>, rest: Seq<char>, off: int, k: int)
    requires
        0 <= off,
        s.len() == off + rest.len(),
        forall|j: int| 0 <= j < rest.len() ==> s[off + j] == rest[j],
        0 <= k <= rest.len(),
    ensures
        lines_from(s, off + k) == lines_from(rest, k),
    decreases rest.len() - k,
{
    if k < rest.len() {
        lemma_line_end_shift_gen(s, rest, off, k);
        lemma_line_end_bounds(rest, k);
        let e = line_end(rest, k);
        assert(s.subrange(off + k, off + e) =~= rest.subrange(k, e));
        if e < rest.len() {
            lemma_lines_from_shift(s, rest, off, e + 1);
        }
    }
}

proof fn lemma_line_end_shift_gen(s: Seq<char>, rest: Seq<char>, off: int, k: int)
    requires
        0 <= off,
        s.len() == off + rest.len(),
        forall|j: int| 0 <= j < rest.len() ==> s[off + j] == rest[j],
        0 <= k <= rest.len(),
    ensures
        line_end(s, off + k) == off + line_end(rest, k),
    decreases rest.len() - k,
{
    if k < rest.len() {
        assert(s[off + k] == rest[k]);
        if rest[k] != '\n' {
            lemma_line_end_shift_gen(s, rest, off, k + 1);
        }
    }
}

/// The first `max` lines of `text`.
pub fn first_lines(text: &str, max: usize) -> (r: Vec<String>)
    ensures
        r@.map_values(|l: String| l@) == lines(text@).take(
            if max < lines(text@).len() {
                max as int
            } else {
                lines(text@).len() as int
            },
        ),
{
    let v = chars_of(text);
    let n = v.len();
    let ghost s = text@;
    let mut out: Vec<String> = Vec::new();
    let mut start: usize = 0;
    assert(out@.map_values(|l: String| l@) =~= Seq::<Seq<char>>::empty());
    assert(lines(s) =~= Seq::<Seq<char>>::empty() + lines_from(s, 0));
    while start < n && out.len() < max
        invariant
            v@ == s,
            s == text@,
            n == s.len(),
            start <= n,
            out@.len() <= max,
            lines(s) == out@.map_values(|l: String| l@) + lines_from(s, start as int),
        decreases n - start,
    {
        let mut e: usize = start;
        while e < n && v[e] != '\n'
            invariant
                v@ == s,
                n == s.len(),
                start <= e <= n,
                line_end(s, start as int) == line_end(s, e as int),
            decreases n - e,
        {
            e = e + 1;
        }
        proof {
            lemma_line_end_bounds(s, start as int);
        }
        let stop = if e < n && e > start && v[e - 1] == '\r' {
            e - 1
        } else {
            e
        };
        let line = text.substring_char(start, stop);
        let ghost before = out@.map_values(|l: String| l@);
        out.push(line.to_owned());
        proof {
            let raw = s.subrange(start as int, e as int);
            if e < n && e > start && v@[e - 1] == '\r' {
                assert(raw.drop_last() =~= s.subrange(start as int, stop as int));
            }
            assert(out@.map_values(|l: String| l@) =~= before.push(line@));
            let next: int = if e < n { e + 1 } else { n as int };
            assert(lines_from(s, start as int) =~= seq![line@] + lines_from(s, next));
            assert(before + lines_from(s, start as int) =~= before.push(line@) + lines_from(s, next));
        }
        start = if e < n {
            e + 1
        } else {
            n
        };
    }
    proof {
        let got = out@.map_values(|l: String| l@);
        if start >= n {
            assert(lines_from(s, start as int) =~= Seq::<Seq<char>>::empty());
        }
        assert(lines(s).take(got.len() as int) =~= got);
    }
    out
}

/// The text of an optional string.
pub open spec fn opt_text(o: Option<String>) -> Option<Seq<char>> {
    match o {
        Some(s) => Some(s@),
        None => None,
    }
}

/// Whether two texts are equal.
pub fn same_text(a: &str, b: &str) -> (r: bool)
    ensures
        r == (a@ == b@),
{
    a.to_owned() == b.to_owned()
}

proof fn lemma_trim_start_empty(s: Seq<char>)
    ensures
        trim_start(s).len() == 0 <==> forall|i: int| 0 <= i < s.len() ==> is_ws(#[trigger] s[i]),
        trim_start(s).len() > 0 ==> !is_ws(trim_start(s)[0]),
    decreases s.len(),
{
    if s.len() > 0 && is_ws(s[0]) {
        lemma_trim_start_empty(s.drop_first());
        assert forall|i: int| 0 <= i < s.len() && (forall|j: int| 0 <= j < s.drop_first().len() ==> is_ws(#[trigger] s.drop_first()[j])) implies is_ws(#[trigger] s[i]) by {
            if i > 0 {
                assert(s[i] == s.drop_first()[i - 1]);
            }
        }
    }
}

proof fn lemma_trim_end_keeps_first(x: Seq<char>)
    requires
        x.len() > 0,
        !is_ws(x[0]),
    ensures
        trim_end(x).len() > 0,
    decreases x.len(),
{
    if is_ws(x.last()) {
        if x.len() > 1 {
            lemma_trim_end_keeps_first(x.drop_last());
        }
    }
}

/// A text trims to nothing exactly when every character of it is
/// whitespace (so a table name of spaces counts as missing).
pub proof fn lemma_trim_empty_iff_all_whitespace(s: Seq<char>)
    ensures
        trim(s).len() == 0 <==> forall|i: int| 0 <= i < s.len() ==> is_ws(#[trigger] s[i]),
{
    lemma_trim_start_empty(s);
    if trim_start(s).len() > 0 {
        lemma_trim_end_keeps_first(trim_start(s));
    }
}

/// Whether `c` is Unicode whitespace.
pub fn is_whitespace(c: char) -> (r: bool)
    ensures
        r == is_ws(c),
{
    let u = c as u32;
    (0x09 <= u && u <= 0x0d) || u == 0x20 || u == 0x85 || u == 0xa0 || u == 0x1680 || (0x2000 <= u
        && u <= 0x200a) || u == 0x2028 || u == 0x2029 || u == 0x202f || u == 0x205f || u == 0x3000
}

/// The characters of `s`, in order.
pub fn chars_of(s: &str) -> (v: Vec<char>)
    ensures
        v@ == s@,
{
    let mut v: Vec<char> = Vec::new();
    for c in it: s.chars()
        invariant
            it.seq() == s@,
            v@ == it.seq().take(it.index() as int),
    {
        v.push(c);
    }
    v
}

proof fn lemma_trim_start_step(s: Seq<char>, i: int)
    requires
        0 <= i < s.len(),
        is_ws(s[i]),
    ensures
        trim_start(s.subrange(i, s.len() as int)) == trim_start(s.subrange(i + 1, s.len() as int)),
{
    let t = s.subrange(i, s.len() as int);
    assert(t.drop_first() =~= s.subrange(i + 1, s.len() as int));
}

proof fn lemma_trim_end_step(s: Seq<char>, j: int)
    requires
        0 < j <= s.len(),
        is_ws(s[j - 1]),
    ensures
        trim_end(s.subrange(0, j)) == trim_end(s.subrange(0, j - 1)),
{
    let t = s.subrange(0, j);
    assert(t.drop_last() =~= s.subrange(0, j - 1));
}

/// `s` without leading and trailing whitespace.
pub fn trim_str(s: &str) -> (r: String)
    ensures
        r@ == trim(s@),
{
    let v = chars_of(s);
    let n = v.len();
    let mut i: usize = 0;
    assert(s@.subrange(0, n as int) =~= s@);
    while i < n && is_whitespace(v[i])
        invariant
            n == v@.len(),
            v@ == s@,
            i <= n,
            trim_start(s@) == trim_start(s@.subrange(i as int, n as int)),
        decreases n - i,
    {
        proof {
            lemma_trim_start_step(s@, i as int);
        }
        i = i + 1;
    }
    let ghost rest = s@.subrange(i as int, n as int);
    assert(trim_start(s@) == rest);
    let mut j: usize = n;
    while j > i && is_whitespace(v[j - 1])
        invariant
            n == v@.len(),
            v@ == s@,
            i <= j <= n,
            rest == s@.subrange(i as int, n as int),
            trim_end(rest) == trim_end(s@.subrange(i as int, j as int)),
        decreases j,
    {
        proof {
            let w = s@.subrange(i as int, j as int);
            assert(w.subrange(0, (j - i) as int) =~= w);
            lemma_trim_end_step(w, (j - i) as int);
            assert(w.subrange(0, (j - i - 1) as int) =~= s@.subrange(i as int, j - 1));
        }
        j = j - 1;
    }
    s.substring_char(i, j).to_owned()
}

/// Joins `parts` with `sep` between neighbours.
pub fn join_strings(parts: &Vec<String>, sep: &str) -> (r: String)
    ensures
        r@ == join(parts@.map_values(|p: String| p@), sep@),
{
    let ghost views = parts@.map_values(|p: String| p@);
    let mut r = String::new();
    let mut k: usize = 0;
    while k < parts.len()
        invariant
            views == parts@.map_values(|p: String| p@),
            k <= parts.len(),
            r@ == join(views.take(k as int), sep@),
        decreases parts.len() - k,
    {
        assert(views.take(k + 1).drop_last() =~= views.take(k as int));
        if k > 0 {
            r.append(sep);
        }
        r.append(parts[k].as_str());
        k = k + 1;
    }
    assert(views.take(parts.len() as int) =~= views);
    r
}

} // verus!
