//! The arithmetic of one collection: traffic totals and rates, the active
//! adapter, disk activity from `/proc/diskstats` and the disk sector size.

use crate::memory_info::ArithmeticOverflow;
use crate::parse::{
    chars_of, lines, lines_of, parse_u64_chars, parse_u64_spec, split, split_chars, trim,
    trim_chars, views, words, words_of,
};
use vstd::prelude::*;

verus! {

/// One network interface as the system reports it: bytes received and sent
/// since the last refresh.
#[derive(Debug, Clone)]
pub struct NetworkSample {
    pub name: String,
    pub received: u64,
    pub transmitted: u64,
}

/// The total of the transmitted bytes of `s`.
pub open spec fn sum_transmitted(s: Seq<NetworkSample>) -> int
    decreases s.len(),
{
    if s.len() == 0 {
        0
    } else {
        sum_transmitted(s.drop_last()) + s.last().transmitted
    }
}

/// The total of the received bytes of `s`.
pub open spec fn sum_received(s: Seq<NetworkSample>) -> int
    decreases s.len(),
{
    if s.len() == 0 {
        0
    } else {
        sum_received(s.drop_last()) + s.last().received
    }
}

proof fn lemma_sums_grow(s: Seq<NetworkSample>, k: int)
    requires
        0 <= k <= s.len(),
    ensures
        sum_transmitted(s.take(k)) <= sum_transmitted(s),
        sum_received(s.take(k)) <= sum_received(s),
    decreases s.len() - k,
{
    if k < s.len() {
        lemma_sums_grow(s, k + 1);
        assert(s.take(k + 1).drop_last() =~= s.take(k));
    } else {
        assert(s.take(k) =~= s);
    }
}

/// The total bytes (transmitted, received) over all interfaces; `Err`
/// where a total leaves `u64`.
pub fn get_network_totals(samples: &Vec<NetworkSample>) -> (r: Result<(u64, u64), ArithmeticOverflow>)
    ensures
        r == (if sum_transmitted(samples@) <= u64::MAX && sum_received(samples@) <= u64::MAX {
            Ok((sum_transmitted(samples@) as u64, sum_received(samples@) as u64))
        } else {
            Err(ArithmeticOverflow)
        }),
{
    let mut total_tx: u64 = 0;
    let mut total_rx: u64 = 0;
    let n = samples.len();
    let mut i: usize = 0;
    assert(samples@.take(0) =~= Seq::<NetworkSample>::empty());
    while i < n
        invariant
            n == samples@.len(),
            i <= n,
            total_tx == sum_transmitted(samples@.take(i as int)),
            total_rx == sum_received(samples@.take(i as int)),
        decreases n - i,
    {
        assert(samples@.take(i + 1).drop_last() =~= samples@.take(i as int));
        let tx = samples[i].transmitted;
        let rx = samples[i].received;
        if total_tx > u64::MAX - tx || total_rx > u64::MAX - rx {
            proof {
                lemma_sums_grow(samples@, i + 1);
            }
            return Err(ArithmeticOverflow);
        }
        total_tx = total_tx + tx;
        total_rx = total_rx + rx;
        i = i + 1;
    }
    assert(samples@.take(n as int) =~= samples@);
    Ok((total_tx, total_rx))
}

/// The adapter name chosen from `s` starting from `cur`: the first
/// interface that moved data, while no name has been chosen yet.
pub open spec fn adapter_from(s: Seq<NetworkSample>, cur: Seq<char>) -> Seq<char>
    decreases s.len(),
{
    if s.len() == 0 {
        cur
    } else {
        let next = if (s[0].received > 0 || s[0].transmitted > 0) && cur.len() == 0 {
            s[0].name@
        } else {
            cur
        };
        adapter_from(s.drop_first(), next)
    }
}

proof fn lemma_adapter_keeps_choice(s: Seq<NetworkSample>, cur: Seq<char>)
    requires
        cur.len() > 0,
    ensures
        adapter_from(s, cur) == cur,
    decreases s.len(),
{
    if s.len() > 0 {
        lemma_adapter_keeps_choice(s.drop_first(), cur);
    }
}

/// The adapter shown is the first interface with a name that received or
/// sent any bytes, and no name when there is none.
pub proof fn lemma_adapter_is_first_active(s: Seq<NetworkSample>)
    ensures
        (forall|k: int|
            0 <= k < s.len() ==> !((#[trigger] s[k].received > 0 || s[k].transmitted > 0)
                && s[k].name@.len() > 0)) ==> adapter_from(s, Seq::empty()) == Seq::<char>::empty(),
        forall|k: int|
            0 <= k < s.len() && (#[trigger] s[k].received > 0 || s[k].transmitted > 0)
                && s[k].name@.len() > 0 && (forall|j: int|
                0 <= j < k ==> !((#[trigger] s[j].received > 0 || s[j].transmitted > 0)
                    && s[j].name@.len() > 0)) ==> adapter_from(s, Seq::empty()) == s[k].name@,
    decreases s.len(),
{
    if s.len() > 0 {
        let t = s.drop_first();
        lemma_adapter_is_first_active(t);
        if (s[0].received > 0 || s[0].transmitted > 0) && s[0].name@.len() > 0 {
            lemma_adapter_keeps_choice(t, s[0].name@);
        } else {
            let next = if (s[0].received > 0 || s[0].transmitted > 0) {
                s[0].name@
            } else {
                Seq::<char>::empty()
            };
            assert(next =~= Seq::<char>::empty());
            assert(adapter_from(s, Seq::empty()) == adapter_from(t, Seq::empty()));
            assert forall|k: int|
                0 < k < s.len() implies #[trigger] s[k] == t[k - 1] by {}
        }
    }
}

/// The name shown for the network: that of the first interface that moved
/// data (an empty name leaves the choice open), else empty.
pub fn active_adapter_name(samples: &Vec<NetworkSample>) -> (name: String)
    ensures
        name@ == adapter_from(samples@, Seq::empty()),
{
    let mut name = String::new();
    let n = samples.len();
    let mut i: usize = 0;
    assert(samples@.skip(0) =~= samples@);
    while i < n
        invariant
            n == samples@.len(),
            i <= n,
            adapter_from(samples@, Seq::empty()) == adapter_from(samples@.skip(i as int), name@),
        decreases n - i,
    {
        assert(samples@.skip(i as int)[0] == samples@[i as int]);
        assert(samples@.skip(i as int).drop_first() =~= samples@.skip(i + 1));
        let s = &samples[i];
        if (s.received > 0 || s.transmitted > 0) && name.as_str().is_empty() {
            name = s.name.clone();
        }
        i = i + 1;
    }
    name
}

/// The last totals of two cumulative byte counters (received and sent, or
/// read and written), from which each collection derives a rate.
#[derive(Debug, Clone, Copy)]
pub struct CounterPair {
    pub last_first: u64,
    pub last_second: u64,
}

impl CounterPair {
    /// Counters that start from the given totals.
    pub fn new(first: u64, second: u64) -> (c: Self)
        ensures
            c.last_first == first,
            c.last_second == second,
    {
        CounterPair { last_first: first, last_second: second }
    }

    /// Records new totals and returns how far each grew since the last
    /// ones (0 when a total went down).
    pub fn advance(&mut self, first: u64, second: u64) -> (delta: (u64, u64))
        ensures
            (*final(self), delta) == advanced(*old(self), first, second),
    {
        let d1 = first.saturating_sub(self.last_first);
        let d2 = second.saturating_sub(self.last_second);
        self.last_first = first;
        self.last_second = second;
        (d1, d2)
    }
}

/// The counters after recording the totals `first` and `second`, with the
/// growth of each since the last totals (0 when a total went down).
pub open spec fn advanced(c: CounterPair, first: u64, second: u64) -> (CounterPair, (u64, u64)) {
    (
        CounterPair { last_first: first, last_second: second },
        (
            (if first >= c.last_first { first - c.last_first } else { 0 }) as u64,
            (if second >= c.last_second { second - c.last_second } else { 0 }) as u64,
        ),
    )
}

/// Recording the same totals twice reports no growth the second time, and
/// the growth over two steps adds up to the growth over one when the
/// totals only grow.
pub proof fn lemma_advance_laws(c: CounterPair, a1: u64, b1: u64, a2: u64, b2: u64)
    ensures
        advanced(advanced(c, a1, b1).0, a1, b1).1 == (0u64, 0u64),
        c.last_first <= a1 <= a2 && c.last_second <= b1 <= b2 ==> {
            let (c1, d1) = advanced(c, a1, b1);
            let d2 = advanced(c1, a2, b2).1;
            let d = advanced(c, a2, b2).1;
            d1.0 + d2.0 == d.0 && d1.1 + d2.1 == d.1
        },
{
}

/// The rate in bytes per second of `delta` bytes over `elapsed_ms`
/// milliseconds, rounded down and capped at `u64::MAX`; 0 when no time has
/// passed.
pub open spec fn rate_per_second(delta: u64, elapsed_ms: u64) -> u64 {
    if elapsed_ms == 0 {
        0
    } else if delta * 1000 / (elapsed_ms as int) > u64::MAX {
        u64::MAX
    } else {
        (delta * 1000 / (elapsed_ms as int)) as u64
    }
}

/// The rate is the whole number of bytes per second: over `elapsed_ms`
/// milliseconds it accounts for no more than the `delta` bytes seen, and one
/// more byte per second would account for more, unless the rate is capped
/// at `u64::MAX`; no elapsed time gives a rate of 0.
pub proof fn lemma_rate_is_per_second(delta: u64, elapsed_ms: u64)
    ensures
        elapsed_ms == 0 ==> rate_per_second(delta, elapsed_ms) == 0,
        elapsed_ms > 0 ==> rate_per_second(delta, elapsed_ms) * elapsed_ms <= delta * 1000,
        elapsed_ms > 0 && rate_per_second(delta, elapsed_ms) < u64::MAX ==> delta * 1000 < (
        rate_per_second(delta, elapsed_ms) + 1) * elapsed_ms,
{
    if elapsed_ms > 0 {
        let n = delta * 1000;
        let d = elapsed_ms as int;
        vstd::arithmetic::div_mod::lemma_fundamental_div_mod(n, d);
        let q = n / d;
        let r = rate_per_second(delta, elapsed_ms) as int;
        assert(0 <= n % d < d) by {
            vstd::arithmetic::div_mod::lemma_mod_bound(n, d);
        }
        if q > u64::MAX {
            assert(r == u64::MAX);
            assert(r * d <= q * d) by (nonlinear_arith)
                requires
                    r <= q,
                    d > 0,
            ;
        } else {
            assert(r == q);
            assert(q * d == d * q) by (nonlinear_arith);
            assert((q + 1) * d == q * d + d) by (nonlinear_arith);
        }
    }
}

/// The growth `delta` of a counter over `elapsed_ms` milliseconds, as a rate
/// per second (see `rate_per_second`).
pub fn per_second(delta: u64, elapsed_ms: u64) -> (r: u64)
    ensures
        r == rate_per_second(delta, elapsed_ms),
{
    if elapsed_ms == 0 {
        return 0;
    }
    let scaled: u128 = (delta as u128) * 1000;
    let rate: u128 = scaled / (elapsed_ms as u128);
    if rate > u64::MAX as u128 {
        u64::MAX
    } else {
        rate as u64
    }
}

/// The sectors (read, written) that one line of `/proc/diskstats` adds: the
/// sixth and tenth words when the line has at least ten and both are numbers.
pub open spec fn diskstats_line(line: Seq<char>) -> (nat, nat) {
    let w = words(line);
    if w.len() >= 10 {
        match (parse_u64_spec(w[5]), parse_u64_spec(w[9])) {
            (Some(r), Some(wr)) => (r as nat, wr as nat),
            _ => (0, 0),
        }
    } else {
        (0, 0)
    }
}

/// The sectors read over the lines `ls`.
pub open spec fn sectors_read(ls: Seq<Seq<char>>) -> nat
    decreases ls.len(),
{
    if ls.len() == 0 {
        0
    } else {
        sectors_read(ls.drop_last()) + diskstats_line(ls.last()).0
    }
}

/// The sectors written over the lines `ls`.
pub open spec fn sectors_written(ls: Seq<Seq<char>>) -> nat
    decreases ls.len(),
{
    if ls.len() == 0 {
        0
    } else {
        sectors_written(ls.drop_last()) + diskstats_line(ls.last()).1
    }
}

/// Each line of `/proc/diskstats` adds its own share to the totals: a line
/// with at least ten words whose sixth and tenth words are numbers adds
/// those numbers of sectors read and written, however many words follow
/// them; any other line adds nothing.
pub proof fn lemma_diskstats_line_adds(ls: Seq<Seq<char>>, line: Seq<char>)
    ensures
        ({
            let w = words(line);
            let counted = w.len() >= 10 && parse_u64_spec(w[5]) is Some && parse_u64_spec(w[9]) is Some;
            &&& counted ==> sectors_read(ls.push(line)) == sectors_read(ls) + parse_u64_spec(w[5]).unwrap()
            &&& counted ==> sectors_written(ls.push(line)) == sectors_written(ls) + parse_u64_spec(w[9]).unwrap()
            &&& !counted ==> sectors_read(ls.push(line)) == sectors_read(ls)
            &&& !counted ==> sectors_written(ls.push(line)) == sectors_written(ls)
        }),
{
    assert(ls.push(line).drop_last() =~= ls);
    assert(ls.push(line).last() == line);
}

proof fn lemma_sectors_grow(ls: Seq<Seq<char>>, k: int)
    requires
        0 <= k <= ls.len(),
    ensures
        sectors_read(ls.take(k)) <= sectors_read(ls),
        sectors_written(ls.take(k)) <= sectors_written(ls),
    decreases ls.len() - k,
{
    if k < ls.len() {
        lemma_sectors_grow(ls, k + 1);
        assert(ls.take(k + 1).drop_last() =~= ls.take(k));
    } else {
        assert(ls.take(k) =~= ls);
    }
}

fn diskstats_line_of(line: &Vec<char>) -> (r: (u64, u64))
    ensures
        r.0 == diskstats_line(line@).0,
        r.1 == diskstats_line(line@).1,
{
    let w = words_of(line);
    if w.len() >= 10 {
        assert(views(w@)[5] == w@[5]@);
        assert(views(w@)[9] == w@[9]@);
        match (parse_u64_chars(&w[5]), parse_u64_chars(&w[9])) {
            (Some(r), Some(wr)) => (r, wr),
            _ => (0, 0),
        }
    } else {
        (0, 0)
    }
}

/// The bytes read and written by all block devices: the sectors of every
/// line of `/proc/diskstats` times `sector_size`; `Err` where a total leaves `u64`.
pub fn get_disk_totals(content: &str, sector_size: u64) -> (r: Result<(u64, u64), ArithmeticOverflow>)
    ensures
        ({
            let ls = lines(content@);
            let read = sectors_read(ls) * sector_size;
            let written = sectors_written(ls) * sector_size;
            r == (if read <= u64::MAX && written <= u64::MAX {
                Ok((read as u64, written as u64))
            } else {
                Err(ArithmeticOverflow)
            })
        }),
{
    let ls = lines_of(&chars_of(content));
    let ghost all = views(ls@);
    let n = ls.len();
    let mut total_read: u64 = 0;
    let mut total_write: u64 = 0;
    let mut i: usize = 0;
    assert(all.take(0) =~= Seq::<Seq<char>>::empty());
    proof {
        let z1 = sectors_read(all.take(0));
        let z2 = sectors_written(all.take(0));
        assert(z1 == 0 && z2 == 0);
        assert(z1 * sector_size == 0 && z2 * sector_size == 0) by (nonlinear_arith)
            requires
                z1 == 0,
                z2 == 0,
        ;
    }
    while i < n
        invariant
            n == ls@.len(),
            all == views(ls@),
            all == lines(content@),
            i <= n,
            total_read == sectors_read(all.take(i as int)) * sector_size,
            total_write == sectors_written(all.take(i as int)) * sector_size,
        decreases n - i,
    {
        assert(all.take(i + 1).drop_last() =~= all.take(i as int));
        assert(all.take(i + 1).last() == ls@[i as int]@);
        let (r, w) = diskstats_line_of(&ls[i]);
        let ghost pr = sectors_read(all.take(i as int));
        let ghost pw = sectors_written(all.take(i as int));
        proof {
            assert(sectors_read(all.take(i + 1)) * sector_size == pr * sector_size + r
                * sector_size) by (nonlinear_arith)
                requires
                    sectors_read(all.take(i + 1)) == pr + r,
            ;
            assert(sectors_written(all.take(i + 1)) * sector_size == pw * sector_size + w
                * sector_size) by (nonlinear_arith)
                requires
                    sectors_written(all.take(i + 1)) == pw + w,
            ;
        }
        let rb = r.checked_mul(sector_size);
        let wb = w.checked_mul(sector_size);
        match (rb, wb) {
            (Some(rb), Some(wb)) => {
                if total_read > u64::MAX - rb || total_write > u64::MAX - wb {
                    proof {
                        lemma_sectors_grow(all, i + 1);
                        assert(sectors_read(all.take(i + 1)) * sector_size <= sectors_read(all)
                            * sector_size) by (nonlinear_arith)
                            requires
                                sectors_read(all.take(i + 1)) <= sectors_read(all),
                        ;
                        assert(sectors_written(all.take(i + 1)) * sector_size <= sectors_written(
                            all,
                        ) * sector_size) by (nonlinear_arith)
                            requires
                                sectors_written(all.take(i + 1)) <= sectors_written(all),
                        ;
                    }
                    return Err(ArithmeticOverflow);
                }
                total_read = total_read + rb;
                total_write = total_write + wb;
            },
            _ => {
                proof {
                    lemma_sectors_grow(all, i + 1);
                    assert(sectors_read(all.take(i + 1)) * sector_size <= sectors_read(all)
                        * sector_size) by (nonlinear_arith)
                        requires
                            sectors_read(all.take(i + 1)) <= sectors_read(all),
                    ;
                    assert(sectors_written(all.take(i + 1)) * sector_size <= sectors_written(all)
                        * sector_size) by (nonlinear_arith)
                        requires
                            sectors_written(all.take(i + 1)) <= sectors_written(all),
                    ;
                    assert(pr * sector_size >= 0 && pw * sector_size >= 0) by (nonlinear_arith)
                        requires
                            pr >= 0,
                            pw >= 0,
                    ;
                }
                return Err(ArithmeticOverflow);
            },
        }
        i = i + 1;
    }
    assert(all.take(n as int) =~= all);
    Ok((total_read, total_write))
}

/// The sector size: that of the first file content that holds a number
/// (after trimming), else 4096.
pub open spec fn sector_size_from(contents: Seq<Option<Seq<char>>>) -> u64
    decreases contents.len(),
{
    if contents.len() == 0 {
        4096
    } else {
        match contents[0] {
            Some(c) => match parse_u64_spec(trim(c)) {
                Some(v) => v,
                None => sector_size_from(contents.drop_first()),
            },
            None => sector_size_from(contents.drop_first()),
        }
    }
}

/// The sector size is the number in the first file that could be read and
/// whose trimmed text is a number, and 4096 when no file gives one.
pub proof fn lemma_sector_size_first_number(cs: Seq<Option<Seq<char>>>)
    ensures
        (forall|j: int|
            0 <= j < cs.len() ==> !(#[trigger] cs[j] is Some && parse_u64_spec(trim(cs[j].unwrap())) is Some))
            ==> sector_size_from(cs) == 4096,
        forall|k: int|
            0 <= k < cs.len() && #[trigger] cs[k] is Some && parse_u64_spec(trim(cs[k].unwrap())) is Some
                && (forall|j: int|
                0 <= j < k ==> !(#[trigger] cs[j] is Some && parse_u64_spec(trim(cs[j].unwrap())) is Some))
                ==> sector_size_from(cs) == parse_u64_spec(trim(cs[k].unwrap())).unwrap(),
    decreases cs.len(),
{
    if cs.len() > 0 {
        let t = cs.drop_first();
        lemma_sector_size_first_number(t);
        assert forall|k: int| 0 < k < cs.len() implies #[trigger] cs[k] == t[k - 1] by {}
    }
}

/// The text of each file that could be read, `None` for the others.
pub open spec fn contents_view(contents: Seq<Option<String>>) -> Seq<Option<Seq<char>>> {
    contents.map_values(|c: Option<String>| match c {
        Some(s) => Some(s@),
        None => None,
    })
}

/// The disk sector size from the contents of the candidate
/// `/sys/block/<disk>/queue/hw_sector_size` files, in order.
pub fn get_sector_size(contents: &Vec<Option<String>>) -> (size: u64)
    ensures
        size == sector_size_from(contents_view(contents@)),
{
    let ghost all = contents_view(contents@);
    let n = contents.len();
    let mut i: usize = 0;
    assert(all.skip(0) =~= all);
    while i < n
        invariant
            n == contents@.len(),
            all == contents_view(contents@),
            i <= n,
            sector_size_from(all) == sector_size_from(all.skip(i as int)),
        decreases n - i,
    {
        assert(all.skip(i as int).drop_first() =~= all.skip(i + 1));
        assert(all.skip(i as int)[0] == all[i as int]);
        match &contents[i] {
            Some(c) => {
                let v = parse_u64_chars(&trim_chars(&chars_of(c.as_str())));
                match v {
                    Some(v) => {
                        return v;
                    },
                    None => {},
                }
            },
            None => {},
        }
        i = i + 1;
    }
    assert(all.skip(n as int).len() == 0);
    4096
}

/// The fields of one CSV line of `nvidia-smi`: the output trimmed, split
/// at commas, each field trimmed.
pub open spec fn csv_fields(out: Seq<char>) -> Seq<Seq<char>> {
    split(trim(out), ',').map_values(|f: Seq<char>| trim(f))
}

/// The fields of `nvidia-smi --format=csv,noheader,nounits` output.
pub fn nvidia_smi_fields(output: &str) -> (fields: Vec<Vec<char>>)
    ensures
        views(fields@) == csv_fields(output@),
{
    let parts = split_chars(&trim_chars(&chars_of(output)), ',');
    let ghost pv = views(parts@);
    let mut out: Vec<Vec<char>> = Vec::new();
    let n = parts.len();
    let mut i: usize = 0;
    while i < n
        invariant
            n == parts@.len(),
            pv == views(parts@),
            i <= n,
            out@.len() == i,
            views(out@) == pv.take(i as int).map_values(|f: Seq<char>| trim(f)),
        decreases n - i,
    {
        let t = trim_chars(&parts[i]);
        let ghost before = out@;
        out.push(t);
        assert forall|k: int| 0 <= k < i + 1 implies views(out@)[k] == pv.take(i + 1).map_values(
            |f: Seq<char>| trim(f),
        )[k] by {
            if k < i {
                assert(views(before)[k] == pv.take(i as int).map_values(|f: Seq<char>| trim(f))[k]);
                assert(out@[k] == before[k]);
            } else {
                assert(pv[k] == parts@[k]@);
            }
        }
        assert(views(out@) =~= pv.take(i + 1).map_values(|f: Seq<char>| trim(f)));
        i = i + 1;
    }
    assert(pv.take(n as int) =~= pv);
    out
}

/// The bytes of a figure in MiB: the number (0 when the field is not one)
/// times 1024 * 1024; `Err` where the bytes leave `u64`.
pub fn mib_field_bytes(field: &Vec<char>) -> (r: Result<u64, ArithmeticOverflow>)
    ensures
        ({
            let n = match parse_u64_spec(field@) {
                Some(v) => v as int,
                None => 0,
            };
            r == (if n * 1048576 <= u64::MAX {
                Ok((n * 1048576) as u64)
            } else {
                Err(ArithmeticOverflow)
            })
        }),
{
    let n = match parse_u64_chars(field) {
        Some(v) => v,
        None => 0,
    };
    if n > u64::MAX / 1048576 {
        return Err(ArithmeticOverflow);
    }
    Ok(n * 1024 * 1024)
}

/// What is known of the NVIDIA driver: not looked for yet, or found present
/// or absent by the last look.
#[derive(Debug, Clone, Copy, PartialEq, Eq, Structural)]
pub enum DriverCheck {
    Unchecked,
    Present,
    Absent,
}

/// The answer of a driver check and the record it leaves: a recorded answer
/// stands; without one, `files_present` is the answer and is recorded.
pub open spec fn driver_checked(cache: DriverCheck, files_present: bool) -> (bool, DriverCheck) {
    let present = match cache {
        DriverCheck::Present => true,
        DriverCheck::Absent => false,
        DriverCheck::Unchecked => files_present,
    };
    (present, if present { DriverCheck::Present } else { DriverCheck::Absent })
}

/// Whether the NVIDIA driver is present, looking only once: the first call
/// records `files_present` (whether the driver library was found) and
/// later calls answer from the record, whatever they are given.
pub fn check_nvidia_driver_present(cache: &mut DriverCheck, files_present: bool) -> (present: bool)
    ensures
        (present, *final(cache)) == driver_checked(*old(cache), files_present),
{
    match *cache {
        DriverCheck::Present => true,
        DriverCheck::Absent => false,
        DriverCheck::Unchecked => {
            *cache = if files_present {
                DriverCheck::Present
            } else {
                DriverCheck::Absent
            };
            files_present
        },
    }
}

/// Once the driver has been looked for, every later check gives the same
/// answer, whatever the files say then.
pub proof fn lemma_driver_check_cached(cache: DriverCheck, first: bool, later: bool)
    ensures
        ({
            let (answer, record) = driver_checked(cache, first);
            driver_checked(record, later) == (answer, record)
        }),
{
}

} // verus!
