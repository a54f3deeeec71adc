//! The mount table: a snapshot mapping device paths to mount paths.
//!
//! The table is parsed once per run from the text of the system mount table
//! (one record per line, blank-separated fields, of which only the device
//! path and the mount path are consumed) and then passed by reference to
//! every consumer. When a device path repeats, the last record wins.

use crate::text::str_eq;
use vstd::prelude::*;
use vstd::string::{StrSliceExecFns, StringExecFns};

verus! {

/// A separator inside a mount record: blank, tab, or a stray carriage
/// return at the end of a line.
pub open spec fn is_sep(c: char) -> bool {
    c == ' ' || c == '\t' || c == '\r'
}

/// First position at or after `i` that leaves the current run: with
/// `in_sep` true the run is of separator characters, otherwise of field
/// characters.
pub open spec fn run_end(s: Seq<char>, i: int, in_sep: bool) -> int
    recommends
        0 <= i <= s.len(),
    decreases s.len() - i,
{
    if i < 0 || i >= s.len() {
        s.len() as int
    } else if is_sep(s[i]) == in_sep {
        run_end(s, i + 1, in_sep)
    } else {
        i
    }
}

/// Position of the first line break at or after `i`, or the end of the
/// text when the rest has none.
pub open spec fn line_end(s: Seq<char>, i: int) -> int
    recommends
        0 <= i <= s.len(),
    decreases s.len() - i,
{
    if i < 0 || i >= s.len() {
        s.len() as int
    } else if s[i] == '\n' {
        i
    } else {
        line_end(s, i + 1)
    }
}

/// `line_end` stays between its start and the end of the text.
pub proof fn lemma_line_end_bounds(s: Seq<char>, i: int)
    requires
        0 <= i <= s.len(),
    ensures
        i <= line_end(s, i) <= s.len(),
    decreases s.len() - i,
{
    if i < s.len() && s[i] != '\n' {
        lemma_line_end_bounds(s, i + 1);
    }
}

/// The first two blank-separated fields of one mount record: the device
/// path and the mount path. `None` when the line has fewer than two fields.
pub open spec fn line_entry(line: Seq<char>) -> Option<(Seq<char>, Seq<char>)> {
    let a1 = run_end(line, 0, true);
    let b1 = run_end(line, a1, false);
    let a2 = run_end(line, b1, true);
    let b2 = run_end(line, a2, false);
    if a1 < line.len() && a2 < line.len() {
        Some((line.subrange(a1, b1), line.subrange(a2, b2)))
    } else {
        None
    }
}

/// The device-to-mount pairs of the text from position `i` on: one pair
/// per line that holds at least two fields, in line order.
pub open spec fn mounts_from(s: Seq<char>, i: int) -> Seq<(Seq<char>, Seq<char>)>
    decreases s.len() + 1 - i,
    via lemma_mounts_from_decreases
{
    if i < 0 || i >= s.len() {
        Seq::empty()
    } else {
        let e = line_end(s, i);
        let head = match line_entry(s.subrange(i, e)) {
            Some(p) => seq![p],
            None => Seq::empty(),
        };
        head + mounts_from(s, e + 1)
    }
}

#[via_fn]
proof fn lemma_mounts_from_decreases(s: Seq<char>, i: int) {
    if 0 <= i < s.len() {
        lemma_line_end_bounds(s, i);
    }
}

/// Mount path of `dev` among the pairs; the last pair wins when a device
/// path repeats.
pub open spec fn lookup_spec(pairs: Seq<(Seq<char>, Seq<char>)>, dev: Seq<char>) -> Option<
    Seq<char>,
>
    decreases pairs.len(),
{
    if pairs.len() == 0 {
        None
    } else if pairs.last().0 == dev {
        Some(pairs.last().1)
    } else {
        lookup_spec(pairs.drop_last(), dev)
    }
}

/// One record of the mount table.
pub struct MountEntry {
    /// Device path, e.g. "/dev/sda1".
    pub device: String,
    /// Mount path, e.g. "/home".
    pub mount: String,
}

/// A point-in-time snapshot of the mount table.
pub struct MountTable {
    /// The records, in the order the table listed them.
    pub entries: Vec<MountEntry>,
}

impl MountTable {
    /// The device-to-mount pairs the table holds, in record order.
    pub open spec fn pairs(&self) -> Seq<(Seq<char>, Seq<char>)> {
        self.entries@.map_values(|e: MountEntry| (e.device@, e.mount@))
    }

    /// A table with no records: every device appears unmounted. This is the
    /// degraded snapshot used when the mount table cannot be read.
    pub fn empty() -> (t: MountTable)
        ensures
            t.pairs() == Seq::<(Seq<char>, Seq<char>)>::empty(),
    {
        let t = MountTable { entries: Vec::new() };
        proof {
            assert(t.pairs() =~= Seq::<(Seq<char>, Seq<char>)>::empty());
        }
        t
    }

    /// Parse the text of the mount table. Each line is one record; the
    /// first two blank-separated fields are the device path and the mount
    /// path; lines with fewer than two fields contribute nothing.
    pub fn parse(content: &str) -> (t: MountTable)
        ensures
            t.pairs() == mounts_from(content@, 0),
    {
        let n = content.unicode_len();
        let mut entries: Vec<MountEntry> = Vec::new();
        let mut pos: usize = 0;
        proof {
            assert(entries@.map_values(|e: MountEntry| (e.device@, e.mount@)) + mounts_from(
                content@,
                0,
            ) =~= mounts_from(content@, 0));
        }
        while pos < n
            invariant
                pos <= n,
                n == content@.len(),
                mounts_from(content@, 0) == entries@.map_values(
                    |e: MountEntry| (e.device@, e.mount@),
                ) + mounts_from(content@, pos as int),
            decreases n - pos,
        {
            let ghost prev = entries@.map_values(|e: MountEntry| (e.device@, e.mount@));
            let e = find_line_end(content, pos);
            let line = content.substring_char(pos, e);
            let llen = line.unicode_len();
            let a1 = find_run_end(line, 0, true);
            let b1 = find_run_end(line, a1, false);
            let a2 = find_run_end(line, b1, true);
            let b2 = find_run_end(line, a2, false);
            if a1 < llen && a2 < llen {
                let device = String::from_str(line.substring_char(a1, b1));
                let mount = String::from_str(line.substring_char(a2, b2));
                entries.push(MountEntry { device, mount });
                proof {
                    assert(entries@.map_values(|en: MountEntry| (en.device@, en.mount@)) =~= prev
                        + seq![line_entry(line@).unwrap()]);
                }
            } else {
                proof {
                    assert(line_entry(line@) is None);
                    assert(prev + Seq::<(Seq<char>, Seq<char>)>::empty() =~= prev);
                }
            }
            proof {
                let head = match line_entry(content@.subrange(pos as int, e as int)) {
                    Some(p) => seq![p],
                    None => Seq::<(Seq<char>, Seq<char>)>::empty(),
                };
                assert(mounts_from(content@, pos as int) == head + mounts_from(
                    content@,
                    e as int + 1,
                ));
                assert((prev + head) + mounts_from(content@, e as int + 1) =~= prev + (head
                    + mounts_from(content@, e as int + 1)));
                if e >= n {
                    assert(mounts_from(content@, e as int + 1) =~= Seq::<
                        (Seq<char>, Seq<char>),
                    >::empty());
                    assert(mounts_from(content@, n as int) =~= Seq::<
                        (Seq<char>, Seq<char>),
                    >::empty());
                }
            }
            if e < n {
                pos = e + 1;
            } else {
                pos = n;
            }
        }
        proof {
            assert(mounts_from(content@, n as int) =~= Seq::<(Seq<char>, Seq<char>)>::empty());
            assert(entries@.map_values(|e: MountEntry| (e.device@, e.mount@)) + Seq::<
                (Seq<char>, Seq<char>),
            >::empty() =~= entries@.map_values(|e: MountEntry| (e.device@, e.mount@)));
        }
        MountTable { entries }
    }

    /// Mount path of the device path `dev`, if the table has a record for
    /// it; the last record wins when a device path repeats.
    pub fn lookup(&self, dev: &str) -> (r: Option<String>)
        ensures
            r matches Some(m) ==> lookup_spec(self.pairs(), dev@) == Some(m@),
            r is None ==> lookup_spec(self.pairs(), dev@) is None,
    {
        let mut i: usize = self.entries.len();
        proof {
            assert(self.pairs().take(i as int) =~= self.pairs());
        }
        while i > 0
            invariant
                i <= self.entries.len(),
                lookup_spec(self.pairs(), dev@) == lookup_spec(
                    self.pairs().take(i as int),
                    dev@,
                ),
            decreases i,
        {
            let j = i - 1;
            let entry = &self.entries[j];
            if str_eq(entry.device.as_str(), dev) {
                proof {
                    assert(self.pairs().take(i as int).last() == (entry.device@, entry.mount@));
                }
                return Some(entry.mount.clone());
            }
            proof {
                assert(self.pairs().take(i as int).drop_last() =~= self.pairs().take(j as int));
            }
            i = j;
        }
        proof {
            assert(self.pairs().take(0).len() == 0);
        }
        None
    }
}

/// Position of the first line break in `s` at or after `from`, or the end.
fn find_line_end(s: &str, from: usize) -> (e: usize)
    requires
        from <= s@.len(),
    ensures
        e == line_end(s@, from as int),
        from <= e <= s@.len(),
{
    let n = s.unicode_len();
    let mut j = from;
    while j < n
        invariant
            from <= j <= n,
            n == s@.len(),
            line_end(s@, from as int) == line_end(s@, j as int),
        decreases n - j,
    {
        if s.get_char(j) == '\n' {
            proof {
                assert(line_end(s@, j as int) == j);
            }
            return j;
        }
        proof {
            assert(line_end(s@, j as int) == line_end(s@, j as int + 1));
        }
        j = j + 1;
    }
    j
}

/// First position in `s` at or after `from` that leaves the current run of
/// separator (`in_sep` true) or field (`in_sep` false) characters.
fn find_run_end(s: &str, from: usize, in_sep: bool) -> (e: usize)
    requires
        from <= s@.len(),
    ensures
        e == run_end(s@, from as int, in_sep),
        from <= e <= s@.len(),
{
    let n = s.unicode_len();
    let mut j = from;
    while j < n
        invariant
            from <= j <= n,
            n == s@.len(),
            run_end(s@, from as int, in_sep) == run_end(s@, j as int, in_sep),
        decreases n - j,
    {
        let c = s.get_char(j);
        let sep = c == ' ' || c == '\t' || c == '\r';
        if sep != in_sep {
            proof {
                assert(run_end(s@, j as int, in_sep) == j);
            }
            return j;
        }
        proof {
            assert(run_end(s@, j as int, in_sep) == run_end(s@, j as int + 1, in_sep));
        }
        j = j + 1;
    }
    j
}

} // verus!
