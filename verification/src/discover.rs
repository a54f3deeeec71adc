//! Discovery of drives and partitions from plain observed values: the text
//! of a kernel size attribute, the names listed under the block-device
//! directories, and filesystem statistics. Reading those pseudo-files is
//! the surrounding binary's task; everything here computes on what it read.

use crate::mounts::{lookup_spec, MountTable};
use crate::text::str_starts_with;
use vstd::math::max;
use vstd::prelude::*;
use vstd::string::{StrSliceExecFns, StringExecFns};

verus! {

/// Whitespace around the numeric value of a size line.
pub open spec fn is_space(c: char) -> bool {
    c == ' ' || c == '\t' || c == '\r' || c == '\n'
}

/// First position at or after `i` holding a non-whitespace character.
pub open spec fn trim_start(s: Seq<char>, i: int) -> int
    recommends
        0 <= i <= s.len(),
    decreases s.len() - i,
{
    if i < 0 || i >= s.len() {
        s.len() as int
    } else if is_space(s[i]) {
        trim_start(s, i + 1)
    } else {
        i
    }
}

/// Position just after the last non-whitespace character before `j`.
pub open spec fn trim_end(s: Seq<char>, j: int) -> int
    recommends
        0 <= j <= s.len(),
    decreases j,
{
    if j <= 0 {
        0
    } else if is_space(s[j - 1]) {
        trim_end(s, j - 1)
    } else {
        j
    }
}

/// `s` with surrounding whitespace removed.
pub open spec fn trimmed(s: Seq<char>) -> Seq<char> {
    let a = trim_start(s, 0);
    let b = trim_end(s, s.len() as int);
    if 0 <= a < b <= s.len() {
        s.subrange(a, b)
    } else {
        Seq::empty()
    }
}

/// A decimal digit.
pub open spec fn is_digit(c: char) -> bool {
    '0' <= c && c <= '9'
}

/// Numeric value of one digit character.
pub open spec fn digit_val(c: char) -> int {
    c as int - '0' as int
}

/// Value of the first `i` characters read as decimal digits.
pub open spec fn digits_val_upto(s: Seq<char>, i: int) -> int
    recommends
        0 <= i <= s.len(),
    decreases i,
{
    if i <= 0 {
        0
    } else {
        digits_val_upto(s, i - 1) * 10 + digit_val(s[i - 1])
    }
}

/// Every character is a decimal digit.
pub open spec fn all_digits(s: Seq<char>) -> bool {
    forall|i: int| 0 <= i < s.len() ==> is_digit(s[i])
}

/// Sector count read from the text of a kernel size attribute: the text
/// trimmed of surrounding whitespace, read as a decimal number. Anything
/// unparsable (empty, a stray character, a value past 64 bits) counts as 0:
/// an unreadable size degrades the display, it is not an error.
pub open spec fn parse_size_spec(s: Seq<char>) -> int {
    let t = trimmed(s);
    if t.len() > 0 && all_digits(t) && digits_val_upto(t, t.len() as int) <= u64::MAX {
        digits_val_upto(t, t.len() as int)
    } else {
        0
    }
}

/// The digit prefix values never shrink as the prefix grows.
proof fn lemma_digits_val_grows(s: Seq<char>, i: int, j: int)
    requires
        0 <= i <= j <= s.len(),
        all_digits(s),
    ensures
        0 <= digits_val_upto(s, i) <= digits_val_upto(s, j),
    decreases j,
{
    if j > 0 {
        if i == j {
            lemma_digits_val_grows(s, i - 1, j - 1);
        } else {
            lemma_digits_val_grows(s, i, j - 1);
        }
    }
}

/// First non-whitespace position in `s`.
fn find_trim_start(s: &str) -> (a: usize)
    ensures
        a == trim_start(s@, 0),
        a <= s@.len(),
{
    let n = s.unicode_len();
    let mut j: usize = 0;
    while j < n
        invariant
            j <= n,
            n == s@.len(),
            trim_start(s@, 0) == trim_start(s@, j as int),
        decreases n - j,
    {
        let c = s.get_char(j);
        if !(c == ' ' || c == '\t' || c == '\r' || c == '\n') {
            proof {
                assert(trim_start(s@, j as int) == j);
            }
            return j;
        }
        proof {
            assert(trim_start(s@, j as int) == trim_start(s@, j as int + 1));
        }
        j = j + 1;
    }
    j
}

/// Position after the last non-whitespace character in `s`.
fn find_trim_end(s: &str) -> (b: usize)
    ensures
        b == trim_end(s@, s@.len() as int),
        b <= s@.len(),
{
    let n = s.unicode_len();
    let mut j: usize = n;
    while j > 0
        invariant
            j <= n,
            n == s@.len(),
            trim_end(s@, n as int) == trim_end(s@, j as int),
        decreases j,
    {
        let c = s.get_char(j - 1);
        if !(c == ' ' || c == '\t' || c == '\r' || c == '\n') {
            proof {
                assert(trim_end(s@, j as int) == j);
            }
            return j;
        }
        proof {
            assert(trim_end(s@, j as int) == trim_end(s@, j as int - 1));
        }
        j = j - 1;
    }
    j
}

/// Sector count from the text of a size attribute; 0 when unparsable.
pub fn parse_size(s: &str) -> (r: u64)
    ensures
        r == parse_size_spec(s@),
{
    let a = find_trim_start(s);
    let b = find_trim_end(s);
    if a >= b {
        proof {
            assert(trimmed(s@).len() == 0);
        }
        return 0;
    }
    let t = s.substring_char(a, b);
    proof {
        assert(t@ == trimmed(s@));
    }
    let len = t.unicode_len();
    let mut v: u64 = 0;
    let mut i: usize = 0;
    while i < len
        invariant
            i <= len,
            len == t@.len(),
            t@ == trimmed(s@),
            t@.len() > 0,
            forall|k: int| 0 <= k < i ==> is_digit(t@[k]),
            v == digits_val_upto(t@, i as int),
        decreases len - i,
    {
        let c = t.get_char(i);
        if !(c >= '0' && c <= '9') {
            return 0;
        }
        let d: u64 = (c as u32 - '0' as u32) as u64;
        let scaled = match v.checked_mul(10) {
            Some(m) => m,
            None => {
                proof {
                    if all_digits(t@) {
                        assert(digits_val_upto(t@, i as int + 1) > u64::MAX);
                        lemma_digits_val_grows(t@, i as int + 1, t@.len() as int);
                    }
                }
                return 0;
            },
        };
        v = match scaled.checked_add(d) {
            Some(nv) => nv,
            None => {
                proof {
                    if all_digits(t@) {
                        assert(digits_val_upto(t@, i as int + 1) > u64::MAX);
                        lemma_digits_val_grows(t@, i as int + 1, t@.len() as int);
                    }
                }
                return 0;
            },
        };
        i = i + 1;
    }
    v
}

/// Index where the final path component of `s` begins: just after the last
/// separator, or 0 when there is none.
pub open spec fn tail_start(s: Seq<char>) -> int
    decreases s.len(),
{
    if s.len() == 0 {
        0
    } else if s.last() == '/' {
        s.len() as int
    } else {
        tail_start(s.drop_last())
    }
}

/// The final path component of `s`.
pub open spec fn last_component(s: Seq<char>) -> Seq<char> {
    s.subrange(tail_start(s), s.len() as int)
}

/// The device path a partition is expected at: "/dev/" followed by the
/// final component of the partition's name.
pub open spec fn dev_path_spec(name: Seq<char>) -> Seq<char> {
    "/dev/"@ + last_component(name)
}

/// Index in `name` where its final path component begins.
fn find_tail_start(name: &str) -> (j: usize)
    ensures
        j == tail_start(name@),
        j <= name@.len(),
{
    let n = name.unicode_len();
    let mut j: usize = n;
    proof {
        assert(name@.take(n as int) =~= name@);
    }
    while j > 0
        invariant
            j <= n,
            n == name@.len(),
            tail_start(name@) == tail_start(name@.take(j as int)),
        decreases j,
    {
        let c = name.get_char(j - 1);
        if c == '/' {
            proof {
                assert(name@.take(j as int).last() == '/');
                assert(tail_start(name@.take(j as int)) == j);
            }
            return j;
        }
        proof {
            assert(name@.take(j as int).drop_last() =~= name@.take(j as int - 1));
            assert(tail_start(name@.take(j as int)) == tail_start(name@.take(j as int - 1)));
        }
        j = j - 1;
    }
    proof {
        assert(name@.take(0).len() == 0);
    }
    0
}

/// Device path of a partition name.
pub fn dev_path(name: &str) -> (r: String)
    ensures
        r@ == dev_path_spec(name@),
{
    let n = name.unicode_len();
    let j = find_tail_start(name);
    let mut r = String::from_str("/dev/");
    r.append(name.substring_char(j, n));
    proof {
        assert(r@ =~= dev_path_spec(name@));
    }
    r
}

/// The mount path a partition's usage should be probed at: the mount-table
/// record for the partition's device path, when there is one. Absent means
/// the partition counts as unmounted.
pub fn partition_mount(table: &MountTable, part_name: &str) -> (r: Option<String>)
    ensures
        r matches Some(m) ==> lookup_spec(table.pairs(), dev_path_spec(part_name@)) == Some(m@),
        r is None ==> lookup_spec(table.pairs(), dev_path_spec(part_name@)) is None,
{
    let dev = dev_path(part_name);
    table.lookup(dev.as_str())
}

/// Bytes used on a filesystem, from its block statistics: used blocks times
/// the block size. `None` when the counters are inconsistent (more free
/// than total) or the product does not fit in 64 bits; a partition whose
/// usage cannot be computed counts as usage unknown.
pub open spec fn used_bytes_spec(blocks: int, blocks_free: int, block_size: int) -> Option<int> {
    if blocks_free <= blocks && (blocks - blocks_free) * block_size <= u64::MAX {
        Some((blocks - blocks_free) * block_size)
    } else {
        None
    }
}

/// Bytes used, from the total block count, free block count, and block size
/// of a filesystem statistics query.
pub fn used_bytes(blocks: u64, blocks_free: u64, block_size: u64) -> (r: Option<u64>)
    ensures
        r matches Some(v) ==> used_bytes_spec(blocks as int, blocks_free as int, block_size as int)
            == Some(v as int),
        r is None ==> used_bytes_spec(blocks as int, blocks_free as int, block_size as int)
            is None,
{
    if blocks_free > blocks {
        return None;
    }
    (blocks - blocks_free).checked_mul(block_size)
}

/// Block-device names kept among the first `i` discovered: device-mapper
/// entries, whose name begins "dm", are excluded so logical volumes are not
/// counted twice over their backing devices.
pub open spec fn kept_drives_upto(names: Seq<Seq<char>>, i: int) -> Seq<Seq<char>>
    recommends
        0 <= i <= names.len(),
    decreases i,
{
    if i <= 0 {
        Seq::empty()
    } else {
        kept_drives_upto(names, i - 1) + if "dm"@.is_prefix_of(names[i - 1]) {
            Seq::empty()
        } else {
            seq![names[i - 1]]
        }
    }
}

/// No kept name is a device-mapper name, and every other name is kept.
pub proof fn lemma_kept_drives_exact(names: Seq<Seq<char>>, i: int)
    requires
        0 <= i <= names.len(),
    ensures
        forall|k: int|
            0 <= k < kept_drives_upto(names, i).len() ==> !"dm"@.is_prefix_of(
                #[trigger] kept_drives_upto(names, i)[k],
            ),
        forall|j: int|
            0 <= j < i && !"dm"@.is_prefix_of(#[trigger] names[j]) ==> kept_drives_upto(
                names,
                i,
            ).contains(names[j]),
    decreases i,
{
    if i > 0 {
        lemma_kept_drives_exact(names, i - 1);
        assert forall|j: int|
            0 <= j < i && !"dm"@.is_prefix_of(#[trigger] names[j]) implies kept_drives_upto(
            names,
            i,
        ).contains(names[j]) by {
            if j < i - 1 {
                let prev = kept_drives_upto(names, i - 1);
                let k = choose|k: int| 0 <= k < prev.len() && prev[k] == names[j];
                assert(kept_drives_upto(names, i)[k] == names[j]);
            } else {
                let whole = kept_drives_upto(names, i);
                assert(whole[whole.len() - 1] == names[i - 1]);
            }
        }
    }
}

/// The drive names to keep, in discovery order: every listed name except
/// the device-mapper ("dm"-prefixed) virtual devices.
pub fn keep_drive_names(names: &Vec<String>) -> (kept: Vec<String>)
    ensures
        kept@.map_values(|s: String| s@) == kept_drives_upto(
            names@.map_values(|s: String| s@),
            names@.len() as int,
        ),
{
    let ghost name_views = names@.map_values(|s: String| s@);
    let mut kept: Vec<String> = Vec::new();
    let mut i: usize = 0;
    proof {
        assert(kept@.map_values(|s: String| s@) =~= kept_drives_upto(name_views, 0));
    }
    while i < names.len()
        invariant
            i <= names.len(),
            name_views == names@.map_values(|s: String| s@),
            kept@.map_values(|s: String| s@) == kept_drives_upto(name_views, i as int),
        decreases names.len() - i,
    {
        let ghost prev = kept@.map_values(|s: String| s@);
        if !str_starts_with(names[i].as_str(), "dm") {
            kept.push(names[i].clone());
            proof {
                assert(kept@.map_values(|s: String| s@) =~= prev + seq![name_views[i as int]]);
            }
        } else {
            proof {
                assert(prev + Seq::<Seq<char>>::empty() =~= prev);
            }
        }
        i = i + 1;
    }
    kept
}

/// Partition names kept among the first `i` entries listed under a drive's
/// directory: those the drive's own name prefixes, the kernel convention
/// for partition naming.
pub open spec fn kept_partitions_upto(drive: Seq<char>, names: Seq<Seq<char>>, i: int) -> Seq<
    Seq<char>,
>
    recommends
        0 <= i <= names.len(),
    decreases i,
{
    if i <= 0 {
        Seq::empty()
    } else {
        kept_partitions_upto(drive, names, i - 1) + if drive.is_prefix_of(names[i - 1]) {
            seq![names[i - 1]]
        } else {
            Seq::empty()
        }
    }
}

/// The partition names of a drive, in discovery order: the listed entries
/// whose name the drive's name prefixes.
pub fn keep_partition_names(drive: &str, names: &Vec<String>) -> (kept: Vec<String>)
    ensures
        kept@.map_values(|s: String| s@) == kept_partitions_upto(
            drive@,
            names@.map_values(|s: String| s@),
            names@.len() as int,
        ),
{
    let ghost name_views = names@.map_values(|s: String| s@);
    let mut kept: Vec<String> = Vec::new();
    let mut i: usize = 0;
    proof {
        assert(kept@.map_values(|s: String| s@) =~= kept_partitions_upto(drive@, name_views, 0));
    }
    while i < names.len()
        invariant
            i <= names.len(),
            name_views == names@.map_values(|s: String| s@),
            kept@.map_values(|s: String| s@) == kept_partitions_upto(
                drive@,
                name_views,
                i as int,
            ),
        decreases names.len() - i,
    {
        let ghost prev = kept@.map_values(|s: String| s@);
        if str_starts_with(names[i].as_str(), drive) {
            kept.push(names[i].clone());
            proof {
                assert(kept@.map_values(|s: String| s@) =~= prev + seq![name_views[i as int]]);
            }
        } else {
            proof {
                assert(prev + Seq::<Seq<char>>::empty() =~= prev);
            }
        }
        i = i + 1;
    }
    kept
}

/// A named sub-range of a drive, as observed at discovery time.
pub struct Partition {
    /// Kernel partition name, e.g. "sda1".
    pub name: String,
    /// Raw size in 512-byte sectors; 0 when the size attribute was
    /// unreadable.
    pub size: u64,
    /// Bytes used on the mounted filesystem; `None` when the partition is
    /// not mounted or its usage could not be read.
    pub used: Option<u64>,
}

impl Partition {
    /// A partition from its observed attributes.
    pub fn new(name: String, size: u64, used: Option<u64>) -> (p: Partition)
        ensures
            p.name == name,
            p.size == size,
            p.used == used,
    {
        Partition { name, size, used }
    }
}

/// A block device and its partitions, as observed at discovery time.
pub struct Drive {
    /// Kernel device name, e.g. "sda".
    pub name: String,
    /// Raw size in 512-byte sectors; 0 when the size attribute was
    /// unreadable.
    pub size: u64,
    /// The drive's partitions, in discovery order.
    pub partitions: Vec<Partition>,
}

impl Drive {
    /// A drive from its observed attributes.
    pub fn new(name: String, size: u64, partitions: Vec<Partition>) -> (d: Drive)
        ensures
            d.name == name,
            d.size == size,
            d.partitions == partitions,
    {
        Drive { name, size, partitions }
    }
}

} // verus!
