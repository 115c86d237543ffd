//! Commit-charge figures from the text that WMIC or PowerShell prints.

use crate::parse::{
    chars_of, lines, lines_of, parse_u64_chars, parse_u64_spec, same_chars, split, split_chars,
    trim, trim_chars, trim_quote_chars, trim_quotes, views,
};
use vstd::prelude::*;

verus! {

/// An integer operation left the range of `u64` (which Rust reports by
/// panicking in a debug build).
#[derive(Debug, Clone, Copy, PartialEq, Eq, Structural)]
pub struct ArithmeticOverflow;

/// The header of WMIC's column with the total virtual memory.
pub open spec fn wmic_total_key() -> Seq<char> {
    "TotalVirtualMemorySize"@
}

/// The header of WMIC's column with the free virtual memory.
pub open spec fn wmic_free_key() -> Seq<char> {
    "FreeVirtualMemory"@
}

/// The position of the first field that, trimmed, is `name`.
pub open spec fn column_of(fields: Seq<Seq<char>>, name: Seq<char>) -> Option<nat>
    decreases fields.len(),
{
    if fields.len() == 0 {
        None
    } else if trim(fields[0]) == name {
        Some(0nat)
    } else {
        match column_of(fields.drop_first(), name) {
            Some(k) => Some(k + 1),
            None => None,
        }
    }
}

/// The column found is the first field that, trimmed, is `name`: that
/// field matches and none before it does; no column is found exactly when
/// no field matches.
pub proof fn lemma_column_is_first_match(fields: Seq<Seq<char>>, name: Seq<char>)
    ensures
        column_of(fields, name) is None <==> (forall|j: int|
            0 <= j < fields.len() ==> trim(#[trigger] fields[j]) != name),
        column_of(fields, name) is Some ==> {
            let k = column_of(fields, name).unwrap() as int;
            &&& 0 <= k < fields.len()
            &&& trim(fields[k]) == name
            &&& forall|j: int| 0 <= j < k ==> trim(#[trigger] fields[j]) != name
        },
    decreases fields.len(),
{
    if fields.len() > 0 {
        let t = fields.drop_first();
        lemma_column_is_first_match(t, name);
        assert forall|j: int| 0 < j < fields.len() implies #[trigger] fields[j] == t[j - 1] by {}
        if trim(fields[0]) != name {
            if column_of(t, name) is None {
                assert forall|j: int| 0 <= j < fields.len() implies trim(#[trigger] fields[j]) != name by {
                    if j > 0 {
                        assert(fields[j] == t[j - 1]);
                    }
                }
            } else {
                let k = column_of(t, name).unwrap() as int;
                assert(fields[k + 1] == t[k]);
                assert forall|j: int| 0 <= j < k + 1 implies trim(#[trigger] fields[j]) != name by {
                    if j > 0 {
                        assert(fields[j] == t[j - 1]);
                    }
                }
            }
        }
    }
}

/// The columns of the total and the free figure, where `line` is a CSV
/// header that names both.
pub open spec fn wmic_header(line: Seq<char>) -> Option<(nat, nat)> {
    let parts = split(line, ',');
    match (column_of(parts, wmic_total_key()), column_of(parts, wmic_free_key())) {
        (Some(t), Some(f)) => Some((t, f)),
        _ => None,
    }
}

/// The total and free figures of a CSV data line, read in the header's
/// columns `cols`, where both are numbers.
pub open spec fn wmic_row(line: Seq<char>, cols: (nat, nat)) -> Option<(u64, u64)> {
    let parts = split(line, ',');
    if cols.0 < parts.len() && cols.1 < parts.len() {
        match (
            parse_u64_spec(trim(parts[cols.0 as int])),
            parse_u64_spec(trim(parts[cols.1 as int])),
        ) {
            (Some(t), Some(f)) => Some((t, f)),
            _ => None,
        }
    } else {
        None
    }
}

/// The figures of the first line of `ls` that has them in the columns `cols`.
pub open spec fn wmic_rows(ls: Seq<Seq<char>>, cols: (nat, nat)) -> Option<(u64, u64)>
    decreases ls.len(),
{
    if ls.len() == 0 {
        None
    } else {
        match wmic_row(ls[0], cols) {
            Some(p) => Some(p),
            None => wmic_rows(ls.drop_first(), cols),
        }
    }
}

/// The total and free figures of WMIC's CSV answer: the first header line
/// fixes the columns, and the first data line after it that has numbers in
/// both gives them.
pub open spec fn wmic_fields(ls: Seq<Seq<char>>) -> Option<(u64, u64)>
    decreases ls.len(),
{
    if ls.len() == 0 {
        None
    } else {
        match wmic_header(ls[0]) {
            Some(cols) => wmic_rows(ls.drop_first(), cols),
            None => wmic_fields(ls.drop_first()),
        }
    }
}

/// The two kilobyte figures of PowerShell's CSV output: the first two
/// comma-separated fields of the second line, without their quotes.
pub open spec fn powershell_fields(out: Seq<char>) -> Option<(u64, u64)> {
    let ls = lines(out);
    if ls.len() >= 2 {
        let parts = split(ls[1], ',');
        if parts.len() >= 2 {
            match (parse_u64_spec(trim_quotes(parts[0])), parse_u64_spec(trim_quotes(parts[1]))) {
                (Some(t), Some(f)) => Some((t, f)),
                _ => None,
            }
        } else {
            None
        }
    } else {
        None
    }
}

/// The commit figures in bytes from the total and free virtual memory in
/// kilobytes: total, used (total less free) and the cached estimate (a
/// tenth of the total).
pub open spec fn commit_figures(total_kb: u64, free_kb: u64) -> Result<(u64, u64, u64), ArithmeticOverflow> {
    if total_kb * 1024 <= u64::MAX && free_kb <= total_kb {
        Ok(
            (
                (total_kb * 1024) as u64,
                ((total_kb - free_kb) * 1024) as u64,
                ((total_kb * 1024) / 10) as u64,
            ),
        )
    } else {
        Err(ArithmeticOverflow)
    }
}

/// The commit figures of a pair of kilobyte figures, if any.
pub open spec fn commit_of(fields: Option<(u64, u64)>) -> Result<Option<(u64, u64, u64)>, ArithmeticOverflow> {
    match fields {
        None => Ok(None),
        Some((t, f)) => match commit_figures(t, f) {
            Ok(c) => Ok(Some(c)),
            Err(e) => Err(e),
        },
    }
}

/// The commit figures in bytes from kilobytes; `Err` where the bytes do not
/// fit in `u64` or the free figure exceeds the total.
pub fn commit_from_kb(total_kb: u64, free_kb: u64) -> (r: Result<(u64, u64, u64), ArithmeticOverflow>)
    ensures
        r == commit_figures(total_kb, free_kb),
{
    if total_kb > u64::MAX / 1024 || free_kb > total_kb {
        return Err(ArithmeticOverflow);
    }
    let commit_total = total_kb * 1024;
    let commit_used = (total_kb - free_kb) * 1024;
    let cached = commit_total / 10;
    Ok((commit_total, commit_used, cached))
}

/// The position of the first of `parts` that, trimmed, is `name`.
fn column_index(parts: &Vec<Vec<char>>, name: &Vec<char>) -> (r: Option<usize>)
    ensures
        column_of(views(parts@), name@) == (match r {
            Some(k) => Some(k as nat),
            None => None,
        }),
{
    let ghost all = views(parts@);
    let n = parts.len();
    let mut i: usize = 0;
    assert(all.skip(0) =~= all);
    while i < n
        invariant
            n == parts@.len(),
            all == views(parts@),
            i <= n,
            column_of(all, name@) == (match column_of(all.skip(i as int), name@) {
                Some(k) => Some((k + i) as nat),
                None => None,
            }),
        decreases n - i,
    {
        assert(all.skip(i as int)[0] == parts@[i as int]@);
        assert(all.skip(i as int).drop_first() =~= all.skip(i + 1));
        if same_chars(&trim_chars(&parts[i]), name) {
            return Some(i);
        }
        i = i + 1;
    }
    assert(all.skip(n as int).len() == 0);
    None
}

/// The columns of the total and free figures in a WMIC header line.
fn header_columns(line: &Vec<char>, total_key: &Vec<char>, free_key: &Vec<char>) -> (r: Option<(usize, usize)>)
    requires
        total_key@ == wmic_total_key(),
        free_key@ == wmic_free_key(),
    ensures
        wmic_header(line@) == (match r {
            Some((t, f)) => Some((t as nat, f as nat)),
            None => None,
        }),
{
    let parts = split_chars(line, ',');
    match (column_index(&parts, total_key), column_index(&parts, free_key)) {
        (Some(t), Some(f)) => Some((t, f)),
        _ => None,
    }
}

/// The total and free figures of a WMIC data line, read in columns `t`
/// and `f`.
fn row_fields(line: &Vec<char>, t: usize, f: usize) -> (r: Option<(u64, u64)>)
    ensures
        r == wmic_row(line@, (t as nat, f as nat)),
{
    let parts = split_chars(line, ',');
    proof {
        assert(views(parts@).len() == parts@.len());
    }
    if t < parts.len() && f < parts.len() {
        proof {
            assert(views(parts@)[t as int] == parts@[t as int]@);
            assert(views(parts@)[f as int] == parts@[f as int]@);
        }
        let total = parse_u64_chars(&trim_chars(&parts[t]));
        let free = parse_u64_chars(&trim_chars(&parts[f]));
        match (total, free) {
            (Some(a), Some(b)) => Some((a, b)),
            _ => None,
        }
    } else {
        None
    }
}

/// The commit figures of a pair of kilobyte figures, if any.
fn commit_of_fields(fields: Option<(u64, u64)>) -> (r: Result<Option<(u64, u64, u64)>, ArithmeticOverflow>)
    ensures
        r == commit_of(fields),
{
    match fields {
        None => Ok(None),
        Some((t, f)) => match commit_from_kb(t, f) {
            Ok(c) => Ok(Some(c)),
            Err(e) => Err(e),
        },
    }
}

/// The total and free figures of the lines `ls` from `from` on, read in
/// the columns `cols` (see `wmic_rows`).
fn rows_fields(ls: &Vec<Vec<char>>, from: usize, t: usize, f: usize) -> (r: Option<(u64, u64)>)
    requires
        from <= ls@.len(),
    ensures
        r == wmic_rows(views(ls@).skip(from as int), (t as nat, f as nat)),
{
    let ghost all = views(ls@);
    let ghost cols = (t as nat, f as nat);
    let n = ls.len();
    let mut i: usize = from;
    while i < n
        invariant
            n == ls@.len(),
            all == views(ls@),
            from <= i <= n,
            cols == (t as nat, f as nat),
            wmic_rows(all.skip(from as int), cols) == wmic_rows(all.skip(i as int), cols),
        decreases n - i,
    {
        assert(all.skip(i as int)[0] == ls@[i as int]@);
        assert(all.skip(i as int).drop_first() =~= all.skip(i + 1));
        let row = row_fields(&ls[i], t, f);
        assert(wmic_rows(all.skip(i as int), cols) == match wmic_row(all.skip(i as int)[0], cols) {
            Some(p) => Some(p),
            None => wmic_rows(all.skip(i as int).drop_first(), cols),
        });
        if row.is_some() {
            return row;
        }
        i = i + 1;
    }
    assert(all.skip(n as int).len() == 0);
    None
}

/// The commit figures from the CSV output of
/// `wmic OS get TotalVirtualMemorySize,FreeVirtualMemory /format:csv`:
/// the header names the columns and the data line under it gives the
/// figures; `Ok(None)` when there is no such pair of lines.
pub fn try_wmic_memory(output: &str) -> (r: Result<Option<(u64, u64, u64)>, ArithmeticOverflow>)
    ensures
        r == commit_of(wmic_fields(lines(output@))),
{
    let total_key = chars_of("TotalVirtualMemorySize");
    let free_key = chars_of("FreeVirtualMemory");
    let ls = lines_of(&chars_of(output));
    let ghost all = views(ls@);
    let n = ls.len();
    let mut i: usize = 0;
    assert(all.skip(0) =~= all);
    while i < n
        invariant
            n == ls@.len(),
            all == views(ls@),
            all == lines(output@),
            total_key@ == wmic_total_key(),
            free_key@ == wmic_free_key(),
            i <= n,
            wmic_fields(all) == wmic_fields(all.skip(i as int)),
        decreases n - i,
    {
        assert(all.skip(i as int)[0] == ls@[i as int]@);
        assert(all.skip(i as int).drop_first() =~= all.skip(i + 1));
        match header_columns(&ls[i], &total_key, &free_key) {
            Some((t, f)) => {
                return commit_of_fields(rows_fields(&ls, i + 1, t, f));
            },
            None => {},
        }
        i = i + 1;
    }
    assert(all.skip(n as int).len() == 0);
    Ok(None)
}

/// The commit figures from the CSV output of PowerShell's
/// `Get-WmiObject Win32_OperatingSystem` query: the quoted first two fields
/// of the second line, `Ok(None)` when they are not numbers.
pub fn try_powershell_memory(output: &str) -> (r: Result<Option<(u64, u64, u64)>, ArithmeticOverflow>)
    ensures
        r == commit_of(powershell_fields(output@)),
{
    let ls = lines_of(&chars_of(output));
    if ls.len() < 2 {
        return Ok(None);
    }
    assert(views(ls@)[1] == ls@[1]@);
    let parts = split_chars(&ls[1], ',');
    if parts.len() < 2 {
        return Ok(None);
    }
    assert(views(parts@)[0] == parts@[0]@);
    assert(views(parts@)[1] == parts@[1]@);
    let t = parse_u64_chars(&trim_quote_chars(&parts[0]));
    let f = parse_u64_chars(&trim_quote_chars(&parts[1]));
    match (t, f) {
        (Some(t), Some(f)) => match commit_from_kb(t, f) {
            Ok(c) => Ok(Some(c)),
            Err(e) => Err(e),
        },
        _ => Ok(None),
    }
}

/// The extended memory figures (commit total, commit used, cached), or
/// zeros when none could be read.
pub fn collect_extended_memory_info(info: Option<(u64, u64, u64)>) -> (r: (u64, u64, u64))
    ensures
        r == (match info {
            Some(i) => i,
            None => (0u64, 0u64, 0u64),
        }),
{
    match info {
        Some(i) => i,
        None => (0, 0, 0),
    }
}

} // verus!
