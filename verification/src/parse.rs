//! Reading text: characters, lines, fields, trimming and integers, with the
//! meaning that Rust's `str` methods give them.

use vstd::prelude::*;

verus! {

broadcast use vstd::seq::group_seq_axioms;

/// Whether `c` is white space in Unicode's sense (`char::is_whitespace`).
pub open spec fn is_ws(c: char) -> bool {
    ||| '\t' <= c <= '\r'
    ||| c == ' '
    ||| c == '\u{85}'
    ||| c == '\u{A0}'
    ||| c == '\u{1680}'
    ||| '\u{2000}' <= c <= '\u{200A}'
    ||| c == '\u{2028}'
    ||| c == '\u{2029}'
    ||| c == '\u{202F}'
    ||| c == '\u{205F}'
    ||| c == '\u{3000}'
}

/// The number of white-space characters that `s` starts with.
pub open spec fn leading_ws(s: Seq<char>) -> nat
    decreases s.len(),
{
    if s.len() > 0 && is_ws(s[0]) {
        1 + leading_ws(s.drop_first())
    } else {
        0
    }
}

/// The number of white-space characters that `s` ends with.
pub open spec fn trailing_ws(s: Seq<char>) -> nat
    decreases s.len(),
{
    if s.len() > 0 && is_ws(s.last()) {
        1 + trailing_ws(s.drop_last())
    } else {
        0
    }
}

/// `s` without its leading and trailing white space (`str::trim`).
pub open spec fn trim(s: Seq<char>) -> Seq<char> {
    let t = s.skip(leading_ws(s) as int);
    t.take(t.len() - trailing_ws(t))
}

/// The number of '"' characters that `s` starts with.
pub open spec fn leading_quotes(s: Seq<char>) -> nat
    decreases s.len(),
{
    if s.len() > 0 && s[0] == '"' {
        1 + leading_quotes(s.drop_first())
    } else {
        0
    }
}

/// The number of '"' characters that `s` ends with.
pub open spec fn trailing_quotes(s: Seq<char>) -> nat
    decreases s.len(),
{
    if s.len() > 0 && s.last() == '"' {
        1 + trailing_quotes(s.drop_last())
    } else {
        0
    }
}

/// `s` without its leading and trailing '"' characters (`str::trim_matches('"')`).
pub open spec fn trim_quotes(s: Seq<char>) -> Seq<char> {
    let t = s.skip(leading_quotes(s) as int);
    t.take(t.len() - trailing_quotes(t))
}

/// A line that ended in '\n', without a carriage return before it.
pub open spec fn strip_cr(line: Seq<char>) -> Seq<char> {
    if line.len() > 0 && line.last() == '\r' {
        line.drop_last()
    } else {
        line
    }
}

/// The lines of `s` where `cur` holds the start of the current line.
pub open spec fn lines_from(s: Seq<char>, cur: Seq<char>) -> Seq<Seq<char>>
    decreases s.len(),
{
    if s.len() == 0 {
        if cur.len() == 0 {
            Seq::empty()
        } else {
            seq![cur]
        }
    } else if s[0] == '\n' {
        seq![strip_cr(cur)] + lines_from(s.drop_first(), Seq::empty())
    } else {
        lines_from(s.drop_first(), cur.push(s[0]))
    }
}

/// The lines of `s` (`str::lines`): split at '\n', a '\r' before the '\n'
/// dropped, and no empty line after a final '\n'.
pub open spec fn lines(s: Seq<char>) -> Seq<Seq<char>> {
    lines_from(s, Seq::empty())
}

/// The fields of `s` after `cur`, split at `sep`.
pub open spec fn split_from(s: Seq<char>, cur: Seq<char>, sep: char) -> Seq<Seq<char>>
    decreases s.len(),
{
    if s.len() == 0 {
        seq![cur]
    } else if s[0] == sep {
        seq![cur] + split_from(s.drop_first(), Seq::empty(), sep)
    } else {
        split_from(s.drop_first(), cur.push(s[0]), sep)
    }
}

/// The fields of `s` separated by `sep` (`str::split`): one more than there
/// are separators, empty fields included.
pub open spec fn split(s: Seq<char>, sep: char) -> Seq<Seq<char>> {
    split_from(s, Seq::empty(), sep)
}

/// The words of `s` after `cur`, split at white space.
pub open spec fn words_from(s: Seq<char>, cur: Seq<char>) -> Seq<Seq<char>>
    decreases s.len(),
{
    if s.len() == 0 {
        if cur.len() == 0 {
            Seq::empty()
        } else {
            seq![cur]
        }
    } else if is_ws(s[0]) {
        (if cur.len() == 0 {
            Seq::empty()
        } else {
            seq![cur]
        }) + words_from(s.drop_first(), Seq::empty())
    } else {
        words_from(s.drop_first(), cur.push(s[0]))
    }
}

/// The words of `s` (`str::split_whitespace`): the nonempty runs of
/// characters between white space.
pub open spec fn words(s: Seq<char>) -> Seq<Seq<char>> {
    words_from(s, Seq::empty())
}

/// Whether `pat` occurs in `s` (`str::contains`).
pub open spec fn contains(s: Seq<char>, pat: Seq<char>) -> bool {
    exists|i: int| 0 <= i <= s.len() - pat.len() && #[trigger] s.subrange(i, i + pat.len()) == pat
}

/// Whether `c` is an ASCII decimal digit.
pub open spec fn is_digit(c: char) -> bool {
    '0' <= c <= '9'
}

/// The value of the decimal digits `s`.
pub open spec fn digits_value(s: Seq<char>) -> nat
    decreases s.len(),
{
    if s.len() == 0 {
        0
    } else {
        digits_value(s.drop_last()) * 10 + ((s.last() as int) - ('0' as int)) as nat
    }
}

/// `s` is nonempty and made of decimal digits.
pub open spec fn all_digits(s: Seq<char>) -> bool {
    s.len() > 0 && forall|i: int| 0 <= i < s.len() ==> is_digit(#[trigger] s[i])
}

/// The digits of an unsigned numeral: `s` without one leading '+'.
pub open spec fn unsigned_digits(s: Seq<char>) -> Seq<char> {
    if s.len() > 0 && s[0] == '+' {
        s.drop_first()
    } else {
        s
    }
}

/// What `s.parse::<u64>()` gives: an optional '+' and then only digits,
/// with a value that fits; `None` otherwise.
pub open spec fn parse_u64_spec(s: Seq<char>) -> Option<u64> {
    let d = unsigned_digits(s);
    if all_digits(d) && digits_value(d) <= u64::MAX {
        Some(digits_value(d) as u64)
    } else {
        None
    }
}

/// What `s.parse::<i32>()` gives: an optional sign and then only digits,
/// with a value that fits; `None` otherwise.
pub open spec fn parse_i32_spec(s: Seq<char>) -> Option<i32> {
    if s.len() > 0 && s[0] == '-' {
        let d = s.drop_first();
        if all_digits(d) && digits_value(d) <= 0x8000_0000 {
            Some((-(digits_value(d) as int)) as i32)
        } else {
            None
        }
    } else {
        let d = unsigned_digits(s);
        if all_digits(d) && digits_value(d) <= i32::MAX {
            Some(digits_value(d) as i32)
        } else {
            None
        }
    }
}

/// The characters of each element.
pub open spec fn views(v: Seq<Vec<char>>) -> Seq<Seq<char>> {
    v.map_values(|x: Vec<char>| x@)
}

/// The characters of `s`.
pub fn chars_of(s: &str) -> (cs: Vec<char>)
    ensures
        cs@ == s@,
{
    broadcast use vstd::string::group_string_axioms;

    let mut out: Vec<char> = Vec::new();
    for c in it: s.chars()
        invariant
            out@ == it.history(),
            it.seq() == s@,
    {
        out.push(c);
    }
    assert(out@ =~= s@);
    out
}

/// Whether `c` is white space (`char::is_whitespace`).
pub fn is_whitespace(c: char) -> (b: bool)
    ensures
        b == is_ws(c),
{
    ('\t' <= c && c <= '\r') || c == ' ' || c == '\u{85}' || c == '\u{A0}' || c == '\u{1680}' || (
    '\u{2000}' <= c && c <= '\u{200A}') || c == '\u{2028}' || c == '\u{2029}' || c == '\u{202F}'
        || c == '\u{205F}' || c == '\u{3000}'
}

/// A copy of `s[lo..hi]`.
pub fn slice_chars(s: &Vec<char>, lo: usize, hi: usize) -> (out: Vec<char>)
    requires
        lo <= hi <= s@.len(),
    ensures
        out@ == s@.subrange(lo as int, hi as int),
{
    let mut out: Vec<char> = Vec::new();
    let mut i = lo;
    while i < hi
        invariant
            lo <= i <= hi,
            hi <= s@.len(),
            out@ == s@.subrange(lo as int, i as int),
        decreases hi - i,
    {
        out.push(s[i]);
        i = i + 1;
    }
    out
}

proof fn lemma_leading_ws_step(s: Seq<char>, i: int)
    requires
        0 <= i < s.len(),
        is_ws(s[i]),
    ensures
        leading_ws(s.skip(i)) == 1 + leading_ws(s.skip(i + 1)),
{
    assert(s.skip(i).drop_first() =~= s.skip(i + 1));
}

proof fn lemma_trailing_ws_step(s: Seq<char>, j: int)
    requires
        0 < j <= s.len(),
        is_ws(s[j - 1]),
    ensures
        trailing_ws(s.take(j)) == 1 + trailing_ws(s.take(j - 1)),
{
    assert(s.take(j).drop_last() =~= s.take(j - 1));
}

/// `s` without leading and trailing white space.
pub fn trim_chars(s: &Vec<char>) -> (out: Vec<char>)
    ensures
        out@ == trim(s@),
{
    let n = s.len();
    let mut i: usize = 0;
    assert(s@.skip(0) =~= s@);
    while i < n && is_whitespace(s[i])
        invariant
            i <= n,
            n == s@.len(),
            leading_ws(s@) == i + leading_ws(s@.skip(i as int)),
        decreases n - i,
    {
        proof {
            lemma_leading_ws_step(s@, i as int);
        }
        i = i + 1;
    }
    let ghost t = s@.skip(i as int);
    assert(leading_ws(t) == 0);
    let mut j: usize = n;
    assert(t.take(t.len() as int) =~= t);
    while j > i && is_whitespace(s[j - 1])
        invariant
            i <= j <= n,
            n == s@.len(),
            t == s@.skip(i as int),
            trailing_ws(t) == (n - j) + trailing_ws(t.take(j - i)),
        decreases j,
    {
        proof {
            lemma_trailing_ws_step(t, j - i);
        }
        j = j - 1;
    }
    assert(trailing_ws(t.take(j - i)) == 0);
    let out = slice_chars(s, i, j);
    assert(out@ =~= trim(s@));
    out
}

proof fn lemma_leading_quotes_step(s: Seq<char>, i: int)
    requires
        0 <= i < s.len(),
        s[i] == '"',
    ensures
        leading_quotes(s.skip(i)) == 1 + leading_quotes(s.skip(i + 1)),
{
    assert(s.skip(i).drop_first() =~= s.skip(i + 1));
}

proof fn lemma_trailing_quotes_step(s: Seq<char>, j: int)
    requires
        0 < j <= s.len(),
        s[j - 1] == '"',
    ensures
        trailing_quotes(s.take(j)) == 1 + trailing_quotes(s.take(j - 1)),
{
    assert(s.take(j).drop_last() =~= s.take(j - 1));
}

/// `s` without leading and trailing '"' characters.
pub fn trim_quote_chars(s: &Vec<char>) -> (out: Vec<char>)
    ensures
        out@ == trim_quotes(s@),
{
    let n = s.len();
    let mut i: usize = 0;
    assert(s@.skip(0) =~= s@);
    while i < n && s[i] == '"'
        invariant
            i <= n,
            n == s@.len(),
            leading_quotes(s@) == i + leading_quotes(s@.skip(i as int)),
        decreases n - i,
    {
        proof {
            lemma_leading_quotes_step(s@, i as int);
        }
        i = i + 1;
    }
    let ghost t = s@.skip(i as int);
    assert(leading_quotes(t) == 0);
    let mut j: usize = n;
    assert(t.take(t.len() as int) =~= t);
    while j > i && s[j - 1] == '"'
        invariant
            i <= j <= n,
            n == s@.len(),
            t == s@.skip(i as int),
            trailing_quotes(t) == (n - j) + trailing_quotes(t.take(j - i)),
        decreases j,
    {
        proof {
            lemma_trailing_quotes_step(t, j - i);
        }
        j = j - 1;
    }
    assert(trailing_quotes(t.take(j - i)) == 0);
    let out = slice_chars(s, i, j);
    assert(out@ =~= trim_quotes(s@));
    out
}

proof fn lemma_skip_step<T>(s: Seq<T>, i: int)
    requires
        0 <= i < s.len(),
    ensures
        s.skip(i).len() > 0,
        s.skip(i)[0] == s[i],
        s.skip(i).drop_first() == s.skip(i + 1),
{
    assert(s.skip(i).drop_first() =~= s.skip(i + 1));
}

proof fn lemma_views_push(v: Seq<Vec<char>>, x: Vec<char>)
    ensures
        views(v.push(x)) == views(v).push(x@),
{
    assert(views(v.push(x)) =~= views(v).push(x@));
}

/// `line` without a final '\r'.
fn strip_cr_chars(line: Vec<char>) -> (out: Vec<char>)
    ensures
        out@ == strip_cr(line@),
{
    let mut line = line;
    let n = line.len();
    if n > 0 && line[n - 1] == '\r' {
        line.pop();
    }
    line
}

/// The lines of `s` (see `lines`).
pub fn lines_of(s: &Vec<char>) -> (out: Vec<Vec<char>>)
    ensures
        views(out@) == lines(s@),
{
    let mut out: Vec<Vec<char>> = Vec::new();
    let mut cur: Vec<char> = Vec::new();
    let n = s.len();
    let mut i: usize = 0;
    assert(s@.skip(0) =~= s@);
    assert(views(out@) =~= Seq::<Seq<char>>::empty());
    while i < n
        invariant
            i <= n,
            n == s@.len(),
            lines(s@) == views(out@) + lines_from(s@.skip(i as int), cur@),
        decreases n - i,
    {
        proof {
            lemma_skip_step(s@, i as int);
        }
        let ghost rest = s@.skip(i as int);
        let ghost old_out = out@;
        let ghost old_cur = cur@;
        if s[i] == '\n' {
            let mut fresh: Vec<char> = Vec::new();
            std::mem::swap(&mut fresh, &mut cur);
            let line = strip_cr_chars(fresh);
            out.push(line);
            proof {
                lemma_views_push(old_out, line);
                assert(lines_from(rest, old_cur) == seq![strip_cr(old_cur)] + lines_from(
                    s@.skip(i + 1),
                    Seq::empty(),
                ));
                assert(views(out@) + lines_from(s@.skip(i + 1), cur@) =~= views(old_out) + (seq![
                    strip_cr(old_cur),
                ] + lines_from(s@.skip(i + 1), Seq::empty())));
            }
        } else {
            cur.push(s[i]);
        }
        i = i + 1;
    }
    assert(s@.skip(n as int) =~= Seq::<char>::empty());
    if cur.len() > 0 {
        let ghost old_out = out@;
        out.push(cur);
        proof {
            lemma_views_push(old_out, cur);
        }
    }
    assert(views(out@) =~= lines(s@));
    out
}

/// The fields of `s` separated by `sep` (see `split`).
pub fn split_chars(s: &Vec<char>, sep: char) -> (out: Vec<Vec<char>>)
    ensures
        views(out@) == split(s@, sep),
        out@.len() >= 1,
{
    let mut out: Vec<Vec<char>> = Vec::new();
    let mut cur: Vec<char> = Vec::new();
    let n = s.len();
    let mut i: usize = 0;
    assert(s@.skip(0) =~= s@);
    assert(views(out@) =~= Seq::<Seq<char>>::empty());
    while i < n
        invariant
            i <= n,
            n == s@.len(),
            split(s@, sep) == views(out@) + split_from(s@.skip(i as int), cur@, sep),
        decreases n - i,
    {
        proof {
            lemma_skip_step(s@, i as int);
        }
        let ghost rest = s@.skip(i as int);
        let ghost old_out = out@;
        let ghost old_cur = cur@;
        if s[i] == sep {
            let mut fresh: Vec<char> = Vec::new();
            std::mem::swap(&mut fresh, &mut cur);
            out.push(fresh);
            proof {
                lemma_views_push(old_out, fresh);
                assert(views(out@) + split_from(s@.skip(i + 1), cur@, sep) =~= views(old_out) + (
                seq![old_cur] + split_from(s@.skip(i + 1), Seq::empty(), sep)));
            }
        } else {
            cur.push(s[i]);
        }
        i = i + 1;
    }
    assert(s@.skip(n as int) =~= Seq::<char>::empty());
    let ghost old_out = out@;
    out.push(cur);
    proof {
        lemma_views_push(old_out, cur);
    }
    assert(views(out@) =~= split(s@, sep));
    out
}

/// The words of `s` (see `words`).
pub fn words_of(s: &Vec<char>) -> (out: Vec<Vec<char>>)
    ensures
        views(out@) == words(s@),
{
    let mut out: Vec<Vec<char>> = Vec::new();
    let mut cur: Vec<char> = Vec::new();
    let n = s.len();
    let mut i: usize = 0;
    assert(s@.skip(0) =~= s@);
    assert(views(out@) =~= Seq::<Seq<char>>::empty());
    while i < n
        invariant
            i <= n,
            n == s@.len(),
            words(s@) == views(out@) + words_from(s@.skip(i as int), cur@),
        decreases n - i,
    {
        proof {
            lemma_skip_step(s@, i as int);
        }
        let ghost old_out = out@;
        let ghost old_cur = cur@;
        if is_whitespace(s[i]) {
            if cur.len() > 0 {
                let mut fresh: Vec<char> = Vec::new();
                std::mem::swap(&mut fresh, &mut cur);
                out.push(fresh);
                proof {
                    lemma_views_push(old_out, fresh);
                    assert(views(out@) + words_from(s@.skip(i + 1), cur@) =~= views(old_out) + (
                    seq![old_cur] + words_from(s@.skip(i + 1), Seq::empty())));
                }
            } else {
                proof {
                    assert(cur@ =~= Seq::<char>::empty());
                    assert(views(out@) + words_from(s@.skip(i + 1), cur@) =~= views(old_out) + (
                    Seq::<Seq<char>>::empty() + words_from(s@.skip(i + 1), Seq::empty())));
                }
            }
        } else {
            cur.push(s[i]);
        }
        i = i + 1;
    }
    assert(s@.skip(n as int) =~= Seq::<char>::empty());
    if cur.len() > 0 {
        let ghost old_out = out@;
        out.push(cur);
        proof {
            lemma_views_push(old_out, cur);
        }
    }
    assert(views(out@) =~= words(s@));
    out
}

/// Whether `pat` occurs in `s` (see `contains`).
pub fn contains_chars(s: &Vec<char>, pat: &Vec<char>) -> (b: bool)
    ensures
        b == contains(s@, pat@),
{
    let n = s.len();
    let m = pat.len();
    if m > n {
        return false;
    }
    let mut i: usize = 0;
    while i <= n - m
        invariant
            m <= n,
            n == s@.len(),
            m == pat@.len(),
            i <= n - m + 1,
            forall|k: int| 0 <= k < i ==> #[trigger] s@.subrange(k, k + m) != pat@,
        decreases n - m + 1 - i,
    {
        let mut j: usize = 0;
        let mut same = true;
        while j < m
            invariant
                j <= m,
                i + m <= n,
                n == s@.len(),
                m == pat@.len(),
                same == (forall|k: int| 0 <= k < j ==> s@[i + k] == pat@[k]),
            decreases m - j,
        {
            if s[i + j] != pat[j] {
                same = false;
            }
            j = j + 1;
        }
        if same {
            assert(s@.subrange(i as int, i + m) =~= pat@);
            return true;
        }
        proof {
            if s@.subrange(i as int, i + m) == pat@ {
                assert forall|k: int| 0 <= k < m implies s@[i + k] == pat@[k] by {
                    assert(s@.subrange(i as int, i + m)[k] == s@[i + k]);
                }
            }
        }
        i = i + 1;
    }
    false
}

/// Whether `a` and `b` hold the same characters.
pub fn same_chars(a: &Vec<char>, b: &Vec<char>) -> (r: bool)
    ensures
        r == (a@ == b@),
{
    if a.len() != b.len() {
        return false;
    }
    let n = a.len();
    let mut i: usize = 0;
    while i < n
        invariant
            i <= n,
            n == a@.len(),
            n == b@.len(),
            forall|j: int| 0 <= j < i ==> a@[j] == b@[j],
        decreases n - i,
    {
        if a[i] != b[i] {
            return false;
        }
        i = i + 1;
    }
    assert(a@ =~= b@);
    true
}

proof fn lemma_digits_value_prefix(d: Seq<char>, k: int)
    requires
        0 <= k <= d.len(),
        forall|i: int| 0 <= i < d.len() ==> is_digit(#[trigger] d[i]),
    ensures
        digits_value(d.take(k)) <= digits_value(d),
    decreases d.len() - k,
{
    if k < d.len() {
        lemma_digits_value_prefix(d, k + 1);
        assert(d.take(k + 1).drop_last() =~= d.take(k));
        assert(is_digit(d[k]));
    } else {
        assert(d.take(k) =~= d);
    }
}

/// The value of the digits `s[lo..]` when they are all digits and the value
/// is at most `bound`.
fn digits_at_most(s: &Vec<char>, lo: usize, bound: u64) -> (r: Option<u64>)
    requires
        lo <= s@.len(),
        bound >= 9,
    ensures
        ({
            let d = s@.skip(lo as int);
            r == (if all_digits(d) && digits_value(d) <= bound {
                Some(digits_value(d) as u64)
            } else {
                None
            })
        }),
{
    let ghost d = s@.skip(lo as int);
    let n = s.len();
    if lo == n {
        return None;
    }
    let mut v: u64 = 0;
    let mut i = lo;
    assert(d.take(0) =~= Seq::<char>::empty());
    while i < n
        invariant
            lo <= i <= n,
            n == s@.len(),
            d == s@.skip(lo as int),
            lo < n,
            bound >= 9,
            v <= bound,
            v == digits_value(d.take(i - lo)),
            forall|k: int| 0 <= k < i - lo ==> is_digit(#[trigger] d[k]),
        decreases n - i,
    {
        let c = s[i];
        assert(c == d[i - lo]);
        if !('0' <= c && c <= '9') {
            return None;
        }
        let dv = (c as u32 - '0' as u32) as u64;
        assert(dv <= 9);
        assert(d.take(i - lo + 1).drop_last() =~= d.take(i - lo));
        if v > (bound - dv) / 10 {
            proof {
                assert(v * 10 + dv > bound) by (nonlinear_arith)
                    requires
                        v > (bound - dv) / 10,
                        dv <= bound || dv <= 9,
                        dv <= 9,
                ;
                if all_digits(d) {
                    lemma_digits_value_prefix(d, i - lo + 1);
                }
            }
            return None;
        }
        proof {
            assert(v * 10 + dv <= bound) by (nonlinear_arith)
                requires
                    v <= (bound - dv) / 10,
                    dv <= bound,
            ;
        }
        v = v * 10 + dv;
        i = i + 1;
    }
    assert(d.take(n - lo) =~= d);
    Some(v)
}

/// What `s.parse::<u64>()` gives for the characters `s`.
pub fn parse_u64_chars(s: &Vec<char>) -> (r: Option<u64>)
    ensures
        r == parse_u64_spec(s@),
{
    let lo: usize = if s.len() > 0 && s[0] == '+' {
        1
    } else {
        0
    };
    assert(unsigned_digits(s@) =~= s@.skip(lo as int));
    digits_at_most(s, lo, u64::MAX)
}

/// What `s.parse::<i32>()` gives for the characters `s`.
pub fn parse_i32_chars(s: &Vec<char>) -> (r: Option<i32>)
    ensures
        r == parse_i32_spec(s@),
{
    if s.len() > 0 && s[0] == '-' {
        assert(s@.drop_first() =~= s@.skip(1));
        match digits_at_most(s, 1, 0x8000_0000) {
            Some(v) => {
                if v == 0x8000_0000 {
                    Some(i32::MIN)
                } else {
                    Some(-(v as i32))
                }
            },
            None => None,
        }
    } else {
        let lo: usize = if s.len() > 0 && s[0] == '+' {
            1
        } else {
            0
        };
        assert(unsigned_digits(s@) =~= s@.skip(lo as int));
        match digits_at_most(s, lo, 0x7fff_ffff) {
            Some(v) => Some(v as i32),
            None => None,
        }
    }
}

/// What `s.parse::<u64>()` gives.
pub fn parse_u64(s: &str) -> (r: Option<u64>)
    ensures
        r == parse_u64_spec(s@),
{
    parse_u64_chars(&chars_of(s))
}

/// What `s.trim().parse::<u64>()` gives.
pub fn parse_u64_trimmed(s: &str) -> (r: Option<u64>)
    ensures
        r == parse_u64_spec(trim(s@)),
{
    parse_u64_chars(&trim_chars(&chars_of(s)))
}

/// What `s.trim().parse::<i32>()` gives.
pub fn parse_i32_trimmed(s: &str) -> (r: Option<i32>)
    ensures
        r == parse_i32_spec(trim(s@)),
{
    parse_i32_chars(&trim_chars(&chars_of(s)))
}

} // verus!
