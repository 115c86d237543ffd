//! The plain data that one collection of the machine's state yields.

use crate::text::{push_char, push_chars, push_str};
use crate::format::{uptime_text, format_uptime};
use vstd::prelude::*;

verus! {

/// Physical memory, swap and commit charge, in bytes.
#[derive(Debug, Clone, Copy)]
pub struct MemoryData {
    pub total: u64,
    pub used: u64,
    pub swap_total: u64,
    pub swap_used: u64,
    pub commit_total: u64,
    pub commit_used: u64,
    pub cached: u64,
}

impl Default for MemoryData {
    fn default() -> (m: Self)
        ensures
            m.total == 0,
            m.used == 0,
            m.swap_total == 0,
            m.swap_used == 0,
            m.commit_total == 0,
            m.commit_used == 0,
            m.cached == 0,
    {
        MemoryData {
            total: 0,
            used: 0,
            swap_total: 0,
            swap_used: 0,
            commit_total: 0,
            commit_used: 0,
            cached: 0,
        }
    }
}

/// One mounted disk.
#[derive(Debug, Clone)]
pub struct DiskData {
    pub name: String,
    pub mount_point: String,
    pub total: u64,
    pub used: u64,
    pub filesystem: String,
}

/// The label of a disk: its mount point, followed by the file system in
/// parentheses when the disk has a name.
pub open spec fn disk_label_text(name: Seq<char>, mount_point: Seq<char>, filesystem: Seq<char>) -> Seq<char> {
    if name.len() == 0 {
        mount_point
    } else {
        mount_point + seq![' ', '('] + filesystem + seq![')']
    }
}

impl Default for DiskData {
    fn default() -> (d: Self)
        ensures
            d.name@.len() == 0,
            d.mount_point@.len() == 0,
            d.total == 0,
            d.used == 0,
            d.filesystem@.len() == 0,
    {
        DiskData {
            name: String::new(),
            mount_point: String::new(),
            total: 0,
            used: 0,
            filesystem: String::new(),
        }
    }
}

impl DiskData {
    /// A disk from its space figures: the used space is the total less the
    /// available space, and 0 when more is available than the total.
    pub fn from_space(
        name: String,
        mount_point: String,
        total: u64,
        available: u64,
        filesystem: String,
    ) -> (d: Self)
        ensures
            d.name == name,
            d.mount_point == mount_point,
            d.filesystem == filesystem,
            d.total == total,
            d.used == (if available <= total { total - available } else { 0 }),
    {
        DiskData { name, mount_point, total, used: total.saturating_sub(available), filesystem }
    }

    /// The label shown in the disk panel.
    pub fn label(&self) -> (text: String)
        ensures
            text@ == disk_label_text(self.name@, self.mount_point@, self.filesystem@),
    {
        if self.name.as_str().is_empty() {
            return self.mount_point.clone();
        }
        let mut s = self.mount_point.clone();
        push_chars(&mut s, &[' ', '(']);
        push_str(&mut s, self.filesystem.as_str());
        push_char(&mut s, ')');
        s
    }
}

/// The bytes that `s` takes in UTF-8.
pub open spec fn utf8_len(s: Seq<char>) -> nat {
    vstd::utf8::encode_utf8(s).len()
}

/// The length in bytes of a disk's label (see `disk_label_text`).
pub open spec fn label_bytes(d: DiskData) -> nat {
    if d.name@.len() == 0 {
        utf8_len(d.mount_point@)
    } else {
        utf8_len(d.mount_point@) + utf8_len(d.filesystem@) + 3
    }
}

/// The length in bytes of the longest label among `ds`; 0 for none.
pub open spec fn widest_label(ds: Seq<DiskData>) -> nat
    decreases ds.len(),
{
    if ds.len() == 0 {
        0
    } else if label_bytes(ds.last()) > widest_label(ds.drop_last()) {
        label_bytes(ds.last())
    } else {
        widest_label(ds.drop_last())
    }
}

/// The padding width is that of the longest label: no label of `ds` is
/// longer, and some label is that long (0 when there is none).
pub proof fn lemma_widest_label_is_longest(ds: Seq<DiskData>)
    ensures
        forall|i: int| 0 <= i < ds.len() ==> label_bytes(#[trigger] ds[i]) <= widest_label(ds),
        ds.len() == 0 ==> widest_label(ds) == 0,
        ds.len() > 0 ==> exists|i: int| 0 <= i < ds.len() && label_bytes(#[trigger] ds[i]) == widest_label(ds),
    decreases ds.len(),
{
    if ds.len() > 0 {
        let t = ds.drop_last();
        lemma_widest_label_is_longest(t);
        assert forall|i: int| 0 <= i < t.len() implies #[trigger] ds[i] == t[i] by {}
        if label_bytes(ds.last()) > widest_label(t) {
            assert(label_bytes(ds[ds.len() - 1]) == widest_label(ds));
        } else if t.len() > 0 {
            let i = choose|i: int| 0 <= i < t.len() && label_bytes(#[trigger] t[i]) == widest_label(t);
            assert(ds[i] == t[i]);
        } else {
            assert(label_bytes(ds[0]) == 0);
        }
        assert forall|i: int| 0 <= i < ds.len() implies label_bytes(#[trigger] ds[i]) <= widest_label(ds) by {
            if i < t.len() {
                assert(ds[i] == t[i]);
            }
        }
    }
}

/// The width, in bytes, that the disk panel pads each label of `disks` to:
/// that of the longest.
pub fn label_width(disks: &[DiskData]) -> (w: usize)
    requires
        forall|i: int| 0 <= i < disks@.len() ==> label_bytes(#[trigger] disks@[i]) <= usize::MAX,
    ensures
        w == widest_label(disks@),
{
    let mut w: usize = 0;
    let n = disks.len();
    let mut i: usize = 0;
    while i < n
        invariant
            n == disks@.len(),
            i <= n,
            forall|k: int| 0 <= k < disks@.len() ==> label_bytes(#[trigger] disks@[k]) <= usize::MAX,
            w == widest_label(disks@.subrange(0, i as int)),
        decreases n - i,
    {
        let d = &disks[i];
        let mount: usize = d.mount_point.as_str().len();
        let len: usize = if d.name.as_str().is_empty() {
            mount
        } else {
            let fs: usize = d.filesystem.as_str().len();
            assert(label_bytes(disks@[i as int]) <= usize::MAX);
            mount + fs + 3
        };
        assert(disks@.subrange(0, i + 1).drop_last() =~= disks@.subrange(0, i as int));
        if len > w {
            w = len;
        }
        i = i + 1;
    }
    assert(disks@.subrange(0, n as int) =~= disks@);
    w
}

/// The host and operating system.
#[derive(Debug, Clone)]
pub struct SystemInfoData {
    pub hostname: String,
    pub os_name: String,
    pub os_version: String,
    /// Seconds since boot.
    pub uptime: u64,
}

impl Default for SystemInfoData {
    fn default() -> (s: Self)
        ensures
            s.hostname@.len() == 0,
            s.os_name@.len() == 0,
            s.os_version@.len() == 0,
            s.uptime == 0,
    {
        SystemInfoData {
            hostname: String::new(),
            os_name: String::new(),
            os_version: String::new(),
            uptime: 0,
        }
    }
}

impl SystemInfoData {
    /// The status line: "<os name> <os version>  ·  Uptime: <uptime>".
    pub fn summary(&self) -> (text: String)
        ensures
            text@ == self.os_name@ + seq![' '] + self.os_version@ + seq![
                ' ',
                ' ',
                '·',
                ' ',
                ' ',
                'U',
                'p',
                't',
                'i',
                'm',
                'e',
                ':',
                ' ',
            ] + uptime_text(self.uptime),
    {
        let mut s = self.os_name.clone();
        push_char(&mut s, ' ');
        push_str(&mut s, self.os_version.as_str());
        push_chars(&mut s, &[' ', ' ', '·', ' ', ' ', 'U', 'p', 't', 'i', 'm', 'e', ':', ' ']);
        let up = format_uptime(self.uptime);
        push_str(&mut s, up.as_str());
        s
    }
}

/// The adapter line of the network panel: "<adapter> · <address>", or
/// "No adapter" when no adapter has moved data.
pub open spec fn adapter_info_text(adapter: Seq<char>, ip: Seq<char>) -> Seq<char> {
    if adapter.len() == 0 {
        seq!['N', 'o', ' ', 'a', 'd', 'a', 'p', 't', 'e', 'r']
    } else {
        adapter + seq![' ', '·', ' '] + ip
    }
}

/// The adapter line of the network panel.
pub fn adapter_info(adapter_name: &str, ip_address: &str) -> (text: String)
    ensures
        text@ == adapter_info_text(adapter_name@, ip_address@),
{
    let mut s = String::new();
    if adapter_name.is_empty() {
        push_chars(&mut s, &['N', 'o', ' ', 'a', 'd', 'a', 'p', 't', 'e', 'r']);
    } else {
        push_str(&mut s, adapter_name);
        push_chars(&mut s, &[' ', '·', ' ']);
        push_str(&mut s, ip_address);
    }
    assert(s@ =~= adapter_info_text(adapter_name@, ip_address@));
    s
}

} // verus!
