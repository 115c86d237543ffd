//! Human-readable sizes, rates and durations, and the text of bars and sparklines.

use crate::text::{decimal, digit, digit_char, push_char, push_chars, push_decimal};
use vstd::prelude::*;

verus! {

pub const KB: u64 = 1024;

pub const MB: u64 = 1048576;

pub const GB: u64 = 1073741824;

pub const TB: u64 = 1099511627776;

/// Integers below this bound are exactly representable as `f64`.
pub const F64_EXACT: u64 = 0x20_0000_0000_0000;

/// `n / d` rounded to the nearest integer, ties to the even one.
pub open spec fn round_half_even(n: nat, d: nat) -> nat {
    let q = n / d;
    let r = n % d;
    if 2 * r > d || (2 * r == d && q % 2 == 1) {
        q + 1
    } else {
        q
    }
}

/// The power of two by which `b` must be divided to fit the 53-bit significand of an `f64`.
pub open spec fn f64_scale(b: nat) -> nat
    decreases b,
{
    if b < F64_EXACT {
        1
    } else {
        2 * f64_scale(b / 2)
    }
}

/// The value of `b as f64`: `b` rounded to 53 significant bits, ties to even.
pub open spec fn f64_value(b: nat) -> nat {
    let s = f64_scale(b);
    round_half_even(b, s) * s
}

/// `v / unit` written with one decimal, rounded half to even.
pub open spec fn one_decimal(v: nat, unit: nat) -> Seq<char> {
    let t = round_half_even(10 * v, unit);
    decimal(t / 10) + seq!['.', digit_char((t % 10) as int)]
}

/// The text of `format_bytes(b)`: whole bytes below 1 KiB, else the size in
/// the largest binary unit (KB, MB, GB, TB) that `b` reaches, with one decimal.
pub open spec fn bytes_text(b: u64) -> Seq<char> {
    let v = f64_value(b as nat);
    if b >= TB {
        one_decimal(v, TB as nat) + seq![' ', 'T', 'B']
    } else if b >= GB {
        one_decimal(v, GB as nat) + seq![' ', 'G', 'B']
    } else if b >= MB {
        one_decimal(v, MB as nat) + seq![' ', 'M', 'B']
    } else if b >= KB {
        one_decimal(v, KB as nat) + seq![' ', 'K', 'B']
    } else {
        decimal(b as nat) + seq![' ', 'B']
    }
}

/// The text of sizes in the GPU panel: like `bytes_text`, with GB as the
/// largest unit.
pub open spec fn vram_bytes_text(b: u64) -> Seq<char> {
    let v = f64_value(b as nat);
    if b >= GB {
        one_decimal(v, GB as nat) + seq![' ', 'G', 'B']
    } else {
        bytes_text(b)
    }
}

/// The text of `format_uptime(s)`: days, hours and minutes, leading zero units left out.
pub open spec fn uptime_text(s: u64) -> Seq<char> {
    let days = s / 86400;
    let hours = (s % 86400) / 3600;
    let minutes = (s % 3600) / 60;
    if days > 0 {
        decimal(days as nat) + seq!['d', ' '] + decimal(hours as nat) + seq!['h', ' '] + decimal(
            minutes as nat,
        ) + seq!['m']
    } else if hours > 0 {
        decimal(hours as nat) + seq!['h', ' '] + decimal(minutes as nat) + seq!['m']
    } else {
        decimal(minutes as nat) + seq!['m']
    }
}

/// `n / d` rounded half to even, for a positive `d`.
fn round_half_even_u128(n: u128, d: u128) -> (q: u128)
    requires
        d > 0,
        n < 0x1_0000_0000_0000_0000_0000,
    ensures
        q == round_half_even(n as nat, d as nat),
        q <= n / d + 1,
{
    let q = n / d;
    let r = n % d;
    if r > d - r || (r == d - r && q % 2 == 1) {
        q + 1
    } else {
        q
    }
}

/// The value of `b as f64`, computed without floating point.
fn f64_value_of(b: u64) -> (v: u128)
    ensures
        v == f64_value(b as nat),
        v <= b + 4096,
{
    let mut m: u64 = b;
    let mut p: u64 = 1;
    proof {
        assert(b as nat / 1 == b);
    }
    while m >= F64_EXACT
        invariant
            p >= 1,
            m == b as nat / p as nat,
            p * f64_scale(m as nat) == f64_scale(b as nat),
            p * m <= b,
            p == 1 || p * 0x10_0000_0000_0000 <= b,
        decreases m,
    {
        proof {
            vstd::arithmetic::div_mod::lemma_div_denominator(b as int, p as int, 2);
        }
        let ghost m0 = m;
        let ghost p0 = p;
        assert(f64_scale(m as nat) == 2 * f64_scale((m / 2) as nat));
        m = m / 2;
        p = p * 2;
        proof {
            assert(p * f64_scale(m as nat) == p0 * f64_scale(m0 as nat)) by (nonlinear_arith)
                requires
                    p == 2 * p0,
                    f64_scale(m0 as nat) == 2 * f64_scale(m as nat),
            ;
            vstd::arithmetic::div_mod::lemma_fundamental_div_mod(b as int, p as int);
            assert(p * m <= b) by (nonlinear_arith)
                requires
                    b == p * (b / p) + b % p,
                    m == b / p,
                    b % p >= 0,
            ;
            assert(p * 0x10_0000_0000_0000 <= b) by (nonlinear_arith)
                requires
                    p * m <= b,
                    m >= 0x10_0000_0000_0000,
            ;
        }
    }
    assert(f64_scale(m as nat) == 1);
    assert(p == f64_scale(b as nat)) by (nonlinear_arith)
        requires
            p * f64_scale(m as nat) == f64_scale(b as nat),
            f64_scale(m as nat) == 1,
    ;
    assert(p <= 4096) by (nonlinear_arith)
        requires
            p == 1 || p * 0x10_0000_0000_0000 <= b,
            b < 0x1_0000_0000_0000_0000,
    ;
    let q = round_half_even_u128(b as u128, p as u128);
    proof {
        vstd::arithmetic::div_mod::lemma_fundamental_div_mod(b as int, p as int);
        assert(q * p <= b + p) by (nonlinear_arith)
            requires
                q <= b / p + 1,
                b == p * (b / p) + b % p,
                b % p >= 0,
                p > 0,
        ;
    }
    q * (p as u128)
}

/// Appends `v / unit` with one decimal, rounded half to even.
fn push_one_decimal(s: &mut String, v: u128, unit: u128)
    requires
        v <= 0x2_0000_0000_0000_0000,
        unit >= 1024,
    ensures
        final(s)@ == old(s)@ + one_decimal(v as nat, unit as nat),
{
    let t = round_half_even_u128(v * 10, unit);
    proof {
        assert(((v * 10) as int) / (unit as int) <= ((v * 10) as int) / 1024) by {
            vstd::arithmetic::div_mod::lemma_div_is_ordered_by_denominator(
                (v * 10) as int,
                1024,
                unit as int,
            );
        }
    }
    let whole = (t / 10) as u64;
    let frac = (t % 10) as u64;
    push_decimal(s, whole);
    push_char(s, '.');
    push_char(s, digit(frac));
    assert(final(s)@ =~= old(s)@ + one_decimal(v as nat, unit as nat));
}

/// Formats a byte count: whole bytes below 1 KiB, else the size in the
/// largest binary unit it reaches with one decimal ("1.5 KB", "1.0 TB").
pub fn format_bytes(bytes: u64) -> (text: String)
    ensures
        text@ == bytes_text(bytes),
{
    let v = f64_value_of(bytes);
    let mut s = String::new();
    if bytes >= TB {
        push_one_decimal(&mut s, v, TB as u128);
        push_chars(&mut s, &[' ', 'T', 'B']);
    } else if bytes >= GB {
        push_one_decimal(&mut s, v, GB as u128);
        push_chars(&mut s, &[' ', 'G', 'B']);
    } else if bytes >= MB {
        push_one_decimal(&mut s, v, MB as u128);
        push_chars(&mut s, &[' ', 'M', 'B']);
    } else if bytes >= KB {
        push_one_decimal(&mut s, v, KB as u128);
        push_chars(&mut s, &[' ', 'K', 'B']);
    } else {
        push_decimal(&mut s, bytes);
        push_chars(&mut s, &[' ', 'B']);
    }
    assert(s@ =~= bytes_text(bytes));
    s
}

/// Formats a size for the GPU panel: as `format_bytes`, but a terabyte or
/// more is still shown in GB ("1024.0 GB").
pub fn format_vram_bytes(bytes: u64) -> (text: String)
    ensures
        text@ == vram_bytes_text(bytes),
{
    if bytes >= GB {
        let v = f64_value_of(bytes);
        let mut s = String::new();
        push_one_decimal(&mut s, v, GB as u128);
        push_chars(&mut s, &[' ', 'G', 'B']);
        assert(s@ =~= vram_bytes_text(bytes));
        s
    } else {
        format_bytes(bytes)
    }
}

/// The parts of an uptime: the days, hours and minutes shown add up to the
/// uptime less its last incomplete minute, with hours under 24 and minutes under 60.
pub proof fn lemma_uptime_parts(s: u64)
    ensures
        ({
            let days = s / 86400;
            let hours = (s % 86400) / 3600;
            let minutes = (s % 3600) / 60;
            &&& hours < 24
            &&& minutes < 60
            &&& days * 86400 + hours * 3600 + minutes * 60 <= s
            &&& s < days * 86400 + hours * 3600 + minutes * 60 + 60
        }),
{
    let days = s / 86400;
    let r = s % 86400;
    let hours = r / 3600;
    let minutes = (s % 3600) / 60;
    assert(s % 3600 == r % 3600) by {
        vstd::arithmetic::div_mod::lemma_mod_mod(s as int, 3600, 24);
    }
    assert(r == hours * 3600 + r % 3600);
    assert(s == days * 86400 + r);
}

/// Formats a rate of whole bytes per second: the size text followed by "/s".
pub fn format_bytes_per_sec(bytes: u64) -> (text: String)
    ensures
        text@ == bytes_text(bytes) + seq!['/', 's'],
{
    let mut s = format_bytes(bytes);
    push_chars(&mut s, &['/', 's']);
    s
}

/// Formats an uptime in seconds as days, hours and minutes ("1d 1h 1m",
/// "1h 0m", "0m"); units above the largest nonzero one are left out.
pub fn format_uptime(seconds: u64) -> (text: String)
    ensures
        text@ == uptime_text(seconds),
{
    let days = seconds / 86400;
    let hours = (seconds % 86400) / 3600;
    let minutes = (seconds % 3600) / 60;
    let mut s = String::new();
    if days > 0 {
        push_decimal(&mut s, days);
        push_chars(&mut s, &['d', ' ']);
        push_decimal(&mut s, hours);
        push_chars(&mut s, &['h', ' ']);
        push_decimal(&mut s, minutes);
        push_char(&mut s, 'm');
    } else if hours > 0 {
        push_decimal(&mut s, hours);
        push_chars(&mut s, &['h', ' ']);
        push_decimal(&mut s, minutes);
        push_char(&mut s, 'm');
    } else {
        push_decimal(&mut s, minutes);
        push_char(&mut s, 'm');
    }
    assert(s@ =~= uptime_text(seconds));
    s
}

/// The text of a bar `width` cells wide whose first `filled` cells (at most
/// `width`) are full blocks and the rest light shade.
pub open spec fn bar_text(filled: nat, width: nat) -> Seq<char> {
    Seq::new(width, |i: int| if i < filled { '█' } else { '░' })
}

/// A bar `width` cells wide with `min(filled, width)` full cells, then light shade.
pub fn bar_cells(filled: usize, width: usize) -> (bar: String)
    ensures
        bar@ == bar_text(filled as nat, width as nat),
        bar@.len() == width,
{
    let full = if filled < width {
        filled
    } else {
        width
    };
    let mut s = String::new();
    let mut i: usize = 0;
    while i < width
        invariant
            i <= width,
            full <= width,
            full == (if filled < width { filled } else { width }),
            s@ == bar_text(filled as nat, width as nat).subrange(0, i as int),
        decreases width - i,
    {
        if i < full {
            push_char(&mut s, '█');
        } else {
            push_char(&mut s, '░');
        }
        i = i + 1;
        assert(s@ =~= bar_text(filled as nat, width as nat).subrange(0, i as int));
    }
    assert(s@ =~= bar_text(filled as nat, width as nat));
    s
}

/// The sparkline glyph of level `l` (0 to 8; higher levels show as 8).
pub open spec fn spark_glyph(l: int) -> char {
    if l <= 0 {
        '░'
    } else if l == 1 {
        '▁'
    } else if l == 2 {
        '▂'
    } else if l == 3 {
        '▃'
    } else if l == 4 {
        '▄'
    } else if l == 5 {
        '▅'
    } else if l == 6 {
        '▆'
    } else if l == 7 {
        '▇'
    } else {
        '█'
    }
}

/// The distance between the samples that a sparkline `width` wide shows
/// out of `len` values: every value while they fit, else every `len / width`-th.
pub open spec fn sample_step(len: nat, width: nat) -> nat {
    if len > width {
        len / width
    } else {
        1
    }
}

/// The index of the value shown in column `i`.
pub open spec fn sample_index(len: nat, width: nat, i: int) -> int {
    let j = i * sample_step(len, width);
    if j < len - 1 {
        j
    } else {
        len - 1
    }
}

/// The text of a sparkline `width` columns wide over the quantised values
/// `levels`: light shade throughout when there is nothing to show.
pub open spec fn sparkline_text(levels: Seq<u8>, width: nat) -> Seq<char> {
    if levels.len() == 0 || width == 0 {
        Seq::new(width, |i: int| '░')
    } else {
        Seq::new(
            width,
            |i: int| spark_glyph(levels[sample_index(levels.len(), width, i)] as int),
        )
    }
}

/// Column `i` of a sparkline `width` wide: light shade when there are no
/// values; else the glyph, out of the nine heights from light shade to a
/// full block, of the level (capped at 8) of the value it samples, which is
/// every value in turn while they fit and every `len / width`-th when the
/// history is longer than the line, never past the last value.
pub proof fn lemma_sparkline_columns(levels: Seq<u8>, width: nat, i: int)
    requires
        0 <= i < width,
    ensures
        sparkline_text(levels, width).len() == width,
        levels.len() == 0 ==> sparkline_text(levels, width)[i] == '░',
        levels.len() > 0 ==> {
            let n = levels.len() as int;
            let step: int = if n > width { n / (width as int) } else { 1 };
            let k: int = if i * step < n - 1 { i * step } else { n - 1 };
            let l: int = if levels[k] < 8 { levels[k] as int } else { 8 };
            sparkline_text(levels, width)[i] == seq!['░', '▁', '▂', '▃', '▄', '▅', '▆', '▇', '█'][l]
        },
{
}

/// A higher level never shows a lower glyph: the glyphs of levels 0 to 8
/// rise in that order, and every level from 8 up shows the full block.
pub proof fn lemma_spark_glyph_rises(a: int, b: int)
    requires
        0 <= a <= b,
    ensures
        ({
            let heights = seq!['░', '▁', '▂', '▃', '▄', '▅', '▆', '▇', '█'];
            let ia: int = if a < 8 { a } else { 8 };
            let ib: int = if b < 8 { b } else { 8 };
            &&& spark_glyph(a) == heights[ia]
            &&& spark_glyph(b) == heights[ib]
            &&& ia <= ib
        }),
{
}

fn spark_glyph_of(l: u8) -> (c: char)
    ensures
        c == spark_glyph(l as int),
{
    if l == 0 {
        '░'
    } else if l == 1 {
        '▁'
    } else if l == 2 {
        '▂'
    } else if l == 3 {
        '▃'
    } else if l == 4 {
        '▄'
    } else if l == 5 {
        '▅'
    } else if l == 6 {
        '▆'
    } else if l == 7 {
        '▇'
    } else {
        '█'
    }
}

/// A sparkline `width` columns wide. `levels[k]` is value `k` quantised to
/// the nine glyph heights (0 to 8); column `i` shows the value at
/// `min(i * step, len - 1)`, where `step` thins out a history longer than the line.
pub fn sparkline_from_levels(levels: &Vec<u8>, width: usize) -> (line: String)
    ensures
        line@ == sparkline_text(levels@, width as nat),
        line@.len() == width,
{
    let len = levels.len();
    let mut s = String::new();
    if len == 0 || width == 0 {
        let mut i: usize = 0;
        while i < width
            invariant
                i <= width,
                s@ == Seq::new(i as nat, |k: int| '░'),
            decreases width - i,
        {
            push_char(&mut s, '░');
            i = i + 1;
            assert(s@ =~= Seq::new(i as nat, |k: int| '░'));
        }
        assert(s@ =~= sparkline_text(levels@, width as nat));
        return s;
    }
    let step = if len > width {
        len / width
    } else {
        1
    };
    let mut i: usize = 0;
    while i < width
        invariant
            i <= width,
            len == levels@.len(),
            len > 0,
            width > 0,
            step == sample_step(len as nat, width as nat),
            s@ == sparkline_text(levels@, width as nat).subrange(0, i as int),
        decreases width - i,
    {
        proof {
            if len > width {
                vstd::arithmetic::div_mod::lemma_fundamental_div_mod(len as int, width as int);
                assert(i * step <= len) by (nonlinear_arith)
                    requires
                        i < width,
                        step == len / width,
                        len == width * (len / width) + len % width,
                        len % width >= 0,
                ;
            } else {
                assert(i * step == i);
            }
        }
        let j = i * step;
        let idx = if j < len - 1 {
            j
        } else {
            len - 1
        };
        push_char(&mut s, spark_glyph_of(levels[idx]));
        i = i + 1;
        assert(s@ =~= sparkline_text(levels@, width as nat).subrange(0, i as int));
    }
    assert(s@ =~= sparkline_text(levels@, width as nat));
    s
}

} // verus!
