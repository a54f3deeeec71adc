//! The chart renderer's logic: proportional width allocation for the
//! aggregate bar, the mini usage bar, and the layout of the per-partition
//! detail lines. The result is a render model of plain values — cell
//! counts, palette indices and finished texts — that the surrounding
//! binary prints with its colors and symbols.

use crate::discover::{dev_path, dev_path_spec, Drive, Partition};
use crate::mounts::{lookup_spec, MountTable};
use crate::text::{
    fixed1_seq, fixed2_seq, hundredths_to_string, pad_left, pad_left_spec, pad_right,
    pad_right_spec, tenths_to_string,
};
use crate::units::{
    bytes_gb_tenths, bytes_gb_tenths_spec, lemma_round_div_bound, round_div, round_div_u128,
    sectors_gb_hundredths, sectors_gb_hundredths_spec, sectors_gb_tenths,
    sectors_gb_tenths_spec,
};
use vstd::arithmetic::div_mod::lemma_fundamental_div_mod_converse;
use vstd::arithmetic::mul::{
    lemma_mul_nonnegative, lemma_mul_strict_inequality, lemma_mul_upper_bound,
};
use vstd::math::max;
use vstd::math::min;
use vstd::prelude::*;
use vstd::string::{StrSliceExecFns, StringExecFns};

verus! {

/// Cells of the fixed-width mini usage bar.
pub const BAR_CELLS: usize = 20;

/// Cells the right-aligned "used / total GB" text occupies.
pub const SIZE_TEXT_CELLS: usize = 18;

/// Size of the symbol palette the aggregate bar cycles through.
pub const SYMBOL_KINDS: usize = 4;

/// Size of the color palette both charts cycle through.
pub const COLOR_KINDS: usize = 5;

/// The divisor for the proportional shares: a drive of unreadable size
/// (recorded as 0) divides by 1 instead, so every share degrades to
/// nothing rather than failing.
pub open spec fn ratio_total(drive_size: int) -> int {
    max(drive_size, 1)
}

/// Cells of the aggregate bar used by the partitions before `i`.
pub open spec fn used_cells_before(sizes: Seq<u64>, total: int, width: int, i: int) -> int
    decreases i, 0int,
{
    if i <= 0 {
        0
    } else {
        used_cells_before(sizes, total, width, i - 1) + cells_at(sizes, total, width, i - 1)
    }
}

/// Cells of the aggregate bar allotted to partition `i`: its size's share
/// of `width`, rounded to nearest, clamped first-come to what remains.
pub open spec fn cells_at(sizes: Seq<u64>, total: int, width: int, i: int) -> int
    decreases i, 1int,
{
    min(
        round_div(sizes[i] as int * width, total),
        width - used_cells_before(sizes, total, width, i),
    )
}

/// The cells allotted never overrun the chart: every prefix fits in
/// `width`, and each partition's allotment fits in what its predecessors
/// left.
pub proof fn lemma_bar_cells_bounded(sizes: Seq<u64>, total: int, width: int, i: int)
    requires
        total >= 1,
        width >= 0,
        0 <= i,
    ensures
        0 <= used_cells_before(sizes, total, width, i) <= width,
        0 <= cells_at(sizes, total, width, i) <= width - used_cells_before(
            sizes,
            total,
            width,
            i,
        ),
    decreases i,
{
    if i > 0 {
        lemma_bar_cells_bounded(sizes, total, width, i - 1);
    }
    lemma_mul_nonnegative(sizes[i] as int, width);
    assert(round_div(sizes[i] as int * width, total) >= 0) by {
        vstd::arithmetic::div_mod::lemma_div_pos_is_pos(
            sizes[i] as int * width * 2 + total,
            total * 2,
        );
    }
}

/// One rendered segment of the aggregate bar.
pub struct Segment {
    /// Position of the partition among the drive's partitions.
    pub part_index: usize,
    /// Cells the segment fills; always at least 1.
    pub width: usize,
    /// Index into the symbol palette: position modulo the palette size.
    pub symbol_index: usize,
    /// Index into the color palette: position modulo the palette size.
    pub color_index: usize,
}

/// The segments drawn for the partitions before `i`: one per partition
/// whose allotment is at least one cell, in partition order; allotments of
/// zero cells are skipped entirely, not drawn as empty.
pub open spec fn segs_upto(sizes: Seq<u64>, total: int, width: int, i: int) -> Seq<Segment>
    decreases i, 2int,
{
    if i <= 0 {
        Seq::empty()
    } else {
        let prev = segs_upto(sizes, total, width, i - 1);
        let w = cells_at(sizes, total, width, i - 1);
        if w > 0 {
            prev.push(
                Segment {
                    part_index: (i - 1) as usize,
                    width: w as usize,
                    symbol_index: ((i - 1) % (SYMBOL_KINDS as int)) as usize,
                    color_index: ((i - 1) % (COLOR_KINDS as int)) as usize,
                },
            )
        } else {
            prev
        }
    }
}

/// Total cells of a run of rendered segments.
pub open spec fn seg_width_sum(segs: Seq<Segment>) -> int
    decreases segs.len(),
{
    if segs.len() == 0 {
        0
    } else {
        seg_width_sum(segs.drop_last()) + segs.last().width
    }
}

/// The rendered segments' widths sum to exactly the cells used, so their
/// sum never exceeds the chart width.
pub proof fn lemma_segment_widths_bounded(sizes: Seq<u64>, total: int, width: int, i: int)
    requires
        total >= 1,
        0 <= width <= usize::MAX,
        0 <= i,
    ensures
        seg_width_sum(segs_upto(sizes, total, width, i)) == used_cells_before(
            sizes,
            total,
            width,
            i,
        ),
        seg_width_sum(segs_upto(sizes, total, width, i)) <= width,
    decreases i,
{
    lemma_bar_cells_bounded(sizes, total, width, i);
    if i > 0 {
        lemma_segment_widths_bounded(sizes, total, width, i - 1);
        lemma_bar_cells_bounded(sizes, total, width, i - 1);
        let prev = segs_upto(sizes, total, width, i - 1);
        let w = cells_at(sizes, total, width, i - 1);
        if w > 0 {
            let whole = segs_upto(sizes, total, width, i);
            assert(whole.drop_last() =~= prev);
            assert(whole.last().width == w as usize);
            assert(seg_width_sum(whole) == seg_width_sum(prev) + w);
        }
    }
}

/// A partition whose share rounds to no cells contributes no segment at
/// all: it is skipped, not drawn as empty.
pub proof fn lemma_zero_cells_no_segment(sizes: Seq<u64>, total: int, width: int, i: int)
    requires
        0 <= i,
        cells_at(sizes, total, width, i) == 0,
    ensures
        segs_upto(sizes, total, width, i + 1) == segs_upto(sizes, total, width, i),
{
}

/// A partition of size 0 is allotted no cells and contributes no segment.
pub proof fn lemma_zero_size_no_segment(sizes: Seq<u64>, total: int, width: int, i: int)
    requires
        total >= 1,
        width >= 0,
        0 <= i < sizes.len(),
        sizes[i] == 0,
    ensures
        cells_at(sizes, total, width, i) == 0,
        segs_upto(sizes, total, width, i + 1) == segs_upto(sizes, total, width, i),
{
    assert(round_div(0 * width, total) == 0) by {
        vstd::arithmetic::div_mod::lemma_basic_div(total, total * 2);
    }
    lemma_bar_cells_bounded(sizes, total, width, i);
    lemma_zero_cells_no_segment(sizes, total, width, i);
}

/// The aggregate bar of one drive: the drawn segments and the blank cells
/// that pad the bar to the chart width.
pub struct AggregateBar {
    /// The drawn segments, in partition order.
    pub segments: Vec<Segment>,
    /// Cells the segments fill together.
    pub used_cells: usize,
    /// Blank cells padding the bar to the chart width.
    pub trailing_blanks: usize,
}

/// Allot the aggregate bar's cells to a drive's partitions: each asks for
/// `round(size / total * width)` cells and receives at most what remains,
/// in discovery order; shares that round to zero are skipped.
pub fn aggregate_bar(parts: &Vec<Partition>, drive_size: u64, width: usize) -> (bar: AggregateBar)
    ensures
        ({
            let sizes = parts@.map_values(|p: Partition| p.size);
            let total = ratio_total(drive_size as int);
            &&& bar.segments@ == segs_upto(sizes, total, width as int, parts@.len() as int)
            &&& bar.used_cells == used_cells_before(sizes, total, width as int, parts@.len() as int)
            &&& bar.used_cells <= width
            &&& bar.trailing_blanks == width - bar.used_cells
        }),
{
    let ghost sizes = parts@.map_values(|p: Partition| p.size);
    let total: u64 = if drive_size == 0 {
        1
    } else {
        drive_size
    };
    let n = parts.len();
    let mut segments: Vec<Segment> = Vec::new();
    let mut used: usize = 0;
    let mut i: usize = 0;
    while i < n
        invariant
            i <= n,
            n == parts@.len(),
            sizes == parts@.map_values(|p: Partition| p.size),
            total == ratio_total(drive_size as int),
            used == used_cells_before(sizes, total as int, width as int, i as int),
            used <= width,
            segments@ == segs_upto(sizes, total as int, width as int, i as int),
        decreases n - i,
    {
        let ghost prev = segments@;
        proof {
            lemma_bar_cells_bounded(sizes, total as int, width as int, i as int);
        }
        let psize: u64 = parts[i].size;
        proof {
            lemma_mul_upper_bound(
                psize as int,
                0xFFFF_FFFF_FFFF_FFFFu64 as int,
                width as int,
                0xFFFF_FFFF_FFFF_FFFFu64 as int,
            );
            assert(0xFFFF_FFFF_FFFF_FFFFu64 as int * 0xFFFF_FFFF_FFFF_FFFFu64 as int
                <= u128::MAX - 0xFFFF_FFFF_FFFF_FFFFu64 as int) by (nonlinear_arith);
        }
        let num: u128 = (psize as u128) * (width as u128);
        let share: u128 = round_div_u128(num, total as u128);
        let remaining: usize = width - used;
        let w: usize = if share > remaining as u128 {
            remaining
        } else {
            share as usize
        };
        proof {
            assert(w == cells_at(sizes, total as int, width as int, i as int));
        }
        if w > 0 {
            segments.push(
                Segment {
                    part_index: i,
                    width: w,
                    symbol_index: i % SYMBOL_KINDS,
                    color_index: i % COLOR_KINDS,
                },
            );
        }
        used = used + w;
        i = i + 1;
        proof {
            assert(segments@ =~= segs_upto(sizes, total as int, width as int, i as int));
        }
    }
    AggregateBar { segments, used_cells: used, trailing_blanks: width - used }
}

/// Filled cells of the mini usage bar: the used/total ratio clamped to
/// [0, 1], scaled to the bar's cells and rounded. A total of 0 bytes shows
/// a full bar when anything is used and an empty one otherwise.
pub open spec fn filled_cells_spec(used: int, total_bytes: int) -> int {
    if total_bytes <= 0 {
        if used > 0 {
            BAR_CELLS as int
        } else {
            0
        }
    } else if used >= total_bytes {
        BAR_CELLS as int
    } else {
        round_div(used * (BAR_CELLS as int), total_bytes)
    }
}

/// The mini bar never overflows its cells.
pub proof fn lemma_filled_cells_bounded(used: int, total_bytes: int)
    requires
        used >= 0,
    ensures
        0 <= filled_cells_spec(used, total_bytes) <= BAR_CELLS as int,
{
    if 0 < total_bytes && used < total_bytes {
        lemma_mul_nonnegative(used, BAR_CELLS as int);
        assert(round_div(used * (BAR_CELLS as int), total_bytes) >= 0) by {
            vstd::arithmetic::div_mod::lemma_div_pos_is_pos(
                used * (BAR_CELLS as int) * 2 + total_bytes,
                total_bytes * 2,
            );
        }
        lemma_mul_strict_inequality(used, total_bytes, BAR_CELLS as int);
        lemma_round_div_bound(used * (BAR_CELLS as int), total_bytes, BAR_CELLS as int);
    }
}

/// A partition exactly half used fills exactly half the mini bar.
pub proof fn lemma_half_used_half_filled(used: int)
    requires
        used >= 1,
    ensures
        filled_cells_spec(used, 2 * used) == (BAR_CELLS as int) / 2,
{
    assert(used * (BAR_CELLS as int) * 2 + 2 * used == 10 * ((2 * used) * 2) + 2 * used)
        by (nonlinear_arith);
    lemma_fundamental_div_mod_converse(
        used * (BAR_CELLS as int) * 2 + 2 * used,
        (2 * used) * 2,
        10,
        2 * used,
    );
}

/// Filled cells of the mini usage bar for `used` bytes on a partition of
/// `size_sectors` 512-byte sectors.
pub fn filled_cells(used: u64, size_sectors: u64) -> (c: usize)
    ensures
        c == filled_cells_spec(used as int, size_sectors as int * 512),
        c <= BAR_CELLS,
{
    let tb: u128 = (size_sectors as u128) * 512;
    if tb == 0 {
        if used > 0 {
            BAR_CELLS
        } else {
            0
        }
    } else if (used as u128) >= tb {
        BAR_CELLS
    } else {
        proof {
            lemma_mul_upper_bound(
                used as int,
                0xFFFF_FFFF_FFFF_FFFFu64 as int,
                BAR_CELLS as int,
                BAR_CELLS as int,
            );
        }
        let c = round_div_u128((used as u128) * (BAR_CELLS as u128), tb);
        proof {
            lemma_mul_strict_inequality(used as int, tb as int, BAR_CELLS as int);
            lemma_round_div_bound(used as int * (BAR_CELLS as int), tb as int, BAR_CELLS as int);
            lemma_mul_nonnegative(used as int, BAR_CELLS as int);
            assert(round_div(used as int * (BAR_CELLS as int), tb as int) >= 0) by {
                vstd::arithmetic::div_mod::lemma_div_pos_is_pos(
                    used as int * (BAR_CELLS as int) * 2 + tb as int,
                    tb as int * 2,
                );
            }
        }
        c as usize
    }
}

/// The "used / total GB" text of one partition, before right-alignment:
/// used gigabytes to one decimal place (0.0 when usage is unknown), then
/// " / ", the total, and " GB".
pub open spec fn size_text_spec(used_tenths: int, size_tenths: int) -> Seq<char> {
    fixed1_seq(used_tenths) + " / "@ + fixed1_seq(size_tenths) + " GB"@
}

/// One line of the per-partition detail table.
pub struct DetailLine {
    /// Index into the color palette, matching the aggregate bar's color
    /// for this partition.
    pub color_index: usize,
    /// The partition name, left-aligned to the drive's widest name.
    pub name_text: String,
    /// Filled cells of the mini usage bar; `None` renders the unmounted
    /// indicator instead of a bar.
    pub usage_cells: Option<usize>,
    /// The "used / total GB" text, right-aligned to its column.
    pub size_text: String,
    /// The resolved mount path, or "-" when there is none.
    pub mount_text: String,
}

/// What one detail line must show for partition `p` at position `index`,
/// names padded to `name_width`, mounts resolved in `pairs`.
pub open spec fn detail_line_ok(
    line: DetailLine,
    p: Partition,
    index: int,
    name_width: int,
    pairs: Seq<(Seq<char>, Seq<char>)>,
) -> bool {
    &&& line.color_index == index % (COLOR_KINDS as int)
    &&& line.name_text@ == pad_right_spec(p.name@, name_width)
    &&& (match p.used {
        Some(u) => line.usage_cells == Some(
            filled_cells_spec(u as int, p.size as int * 512) as usize,
        ),
        None => line.usage_cells is None,
    })
    &&& line.size_text@ == pad_left_spec(
        size_text_spec(
            bytes_gb_tenths_spec(
                match p.used {
                    Some(u) => u as int,
                    None => 0,
                },
            ),
            sectors_gb_tenths_spec(p.size as int),
        ),
        SIZE_TEXT_CELLS as int,
    )
    &&& (match lookup_spec(pairs, dev_path_spec(p.name@)) {
        Some(m) => line.mount_text@ == m,
        None => line.mount_text@ == "-"@,
    })
}

/// Lay out one detail line: colored marker index, padded name, mini usage
/// bar (or the unmounted indicator), right-aligned sizes, and the mount
/// path resolved from the snapshot (or "-").
pub fn detail_line(p: &Partition, index: usize, name_width: usize, table: &MountTable) -> (line:
    DetailLine)
    ensures
        detail_line_ok(line, *p, index as int, name_width as int, table.pairs()),
{
    let color_index = index % COLOR_KINDS;
    let name_text = pad_right(p.name.as_str(), name_width);
    let usage_cells = match p.used {
        Some(u) => Some(filled_cells(u, p.size)),
        None => None,
    };
    let used_tenths = match p.used {
        Some(u) => bytes_gb_tenths(u),
        None => bytes_gb_tenths(0),
    };
    let size_tenths = sectors_gb_tenths(p.size);
    let mut sizes = tenths_to_string(used_tenths);
    sizes.append(" / ");
    let total_text = tenths_to_string(size_tenths);
    sizes.append(total_text.as_str());
    sizes.append(" GB");
    proof {
        assert(sizes@ =~= size_text_spec(used_tenths as int, size_tenths as int));
    }
    let size_text = pad_left(sizes.as_str(), SIZE_TEXT_CELLS);
    let dev = dev_path(p.name.as_str());
    let mount_text = match table.lookup(dev.as_str()) {
        Some(m) => m,
        None => String::from_str("-"),
    };
    DetailLine { color_index, name_text, usage_cells, size_text, mount_text }
}

/// The widest partition name among the first `i` partitions.
pub open spec fn max_name_len_upto(parts: Seq<Partition>, i: int) -> int
    decreases i,
{
    if i <= 0 {
        0
    } else {
        max(max_name_len_upto(parts, i - 1), parts[i - 1].name@.len() as int)
    }
}

/// Width of the name column: the longest partition name.
pub fn max_name_len(parts: &Vec<Partition>) -> (w: usize)
    ensures
        w == max_name_len_upto(parts@, parts@.len() as int),
{
    let mut w: usize = 0;
    let mut i: usize = 0;
    while i < parts.len()
        invariant
            i <= parts@.len(),
            w == max_name_len_upto(parts@, i as int),
        decreases parts@.len() - i,
    {
        let l = parts[i].name.as_str().unicode_len();
        if l > w {
            w = l;
        }
        i = i + 1;
    }
    w
}

/// The full render model of one drive.
pub struct DriveChart {
    /// The drive's name, for the header line.
    pub name: String,
    /// The drive's capacity in gigabytes, two decimal places, for the
    /// header line.
    pub size_text: String,
    /// The aggregate proportional bar.
    pub bar: AggregateBar,
    /// One detail line per partition, in discovery order.
    pub details: Vec<DetailLine>,
}

/// Render one drive against a mount-table snapshot: header values, the
/// aggregate bar allotted over `width` cells, and one detail line per
/// partition.
pub fn render_drive(drive: &Drive, table: &MountTable, width: usize) -> (chart: DriveChart)
    ensures
        chart.name@ == drive.name@,
        chart.size_text@ == fixed2_seq(sectors_gb_hundredths_spec(drive.size as int)),
        ({
            let sizes = drive.partitions@.map_values(|p: Partition| p.size);
            let total = ratio_total(drive.size as int);
            &&& chart.bar.segments@ == segs_upto(
                sizes,
                total,
                width as int,
                drive.partitions@.len() as int,
            )
            &&& chart.bar.used_cells == used_cells_before(
                sizes,
                total,
                width as int,
                drive.partitions@.len() as int,
            )
            &&& chart.bar.used_cells <= width
            &&& chart.bar.trailing_blanks == width - chart.bar.used_cells
        }),
        chart.details@.len() == drive.partitions@.len(),
        forall|i: int|
            0 <= i < drive.partitions@.len() ==> detail_line_ok(
                #[trigger] chart.details@[i],
                drive.partitions@[i],
                i,
                max_name_len_upto(drive.partitions@, drive.partitions@.len() as int),
                table.pairs(),
            ),
{
    let name = drive.name.clone();
    let size_text = hundredths_to_string(sectors_gb_hundredths(drive.size));
    let bar = aggregate_bar(&drive.partitions, drive.size, width);
    let name_width = max_name_len(&drive.partitions);
    let mut details: Vec<DetailLine> = Vec::new();
    let mut i: usize = 0;
    while i < drive.partitions.len()
        invariant
            i <= drive.partitions@.len(),
            details@.len() == i,
            name_width == max_name_len_upto(
                drive.partitions@,
                drive.partitions@.len() as int,
            ),
            forall|j: int|
                0 <= j < i ==> detail_line_ok(
                    #[trigger] details@[j],
                    drive.partitions@[j],
                    j,
                    name_width as int,
                    table.pairs(),
                ),
        decreases drive.partitions@.len() - i,
    {
        let line = detail_line(&drive.partitions[i], i, name_width, table);
        details.push(line);
        i = i + 1;
    }
    DriveChart { name, size_text, bar, details }
}

} // verus!
