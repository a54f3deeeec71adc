use diskchart::chart::{aggregate_bar, detail_line, filled_cells, render_drive};
use diskchart::discover::{
    dev_path, keep_drive_names, keep_partition_names, parse_size, partition_mount, used_bytes,
    Drive, Partition,
};
use diskchart::mounts::MountTable;

#[test]
fn parse_size_plain_and_trimmed() {
    assert_eq!(parse_size("20971520"), 20971520);
    assert_eq!(parse_size(" 20971520\n"), 20971520);
    assert_eq!(parse_size("0\n"), 0);
}

#[test]
fn parse_size_unparsable_is_zero() {
    assert_eq!(parse_size(""), 0);
    assert_eq!(parse_size("   \n"), 0);
    assert_eq!(parse_size("abc"), 0);
    assert_eq!(parse_size("12 34"), 0);
    assert_eq!(parse_size("-5"), 0);
    // One digit past what 64 bits hold.
    assert_eq!(parse_size("99999999999999999999999"), 0);
}

#[test]
fn mount_table_parse_and_lookup() {
    let table = MountTable::parse(
        "/dev/sda1 / ext4 rw,relatime 0 0\n/dev/sdb1 /home ext4 rw 0 0\nmalformed\n",
    );
    assert_eq!(table.lookup("/dev/sda1"), Some("/".to_string()));
    assert_eq!(table.lookup("/dev/sdb1"), Some("/home".to_string()));
    assert_eq!(table.lookup("/dev/sdc1"), None);
}

#[test]
fn mount_table_last_record_wins() {
    let table = MountTable::parse("/dev/sda1 /old ext4 rw 0 0\n/dev/sda1 /new ext4 rw 0 0\n");
    assert_eq!(table.lookup("/dev/sda1"), Some("/new".to_string()));
}

#[test]
fn mount_table_unreadable_is_empty() {
    let table = MountTable::empty();
    assert_eq!(table.lookup("/dev/sda1"), None);
}

#[test]
fn device_path_derivation() {
    assert_eq!(dev_path("sda1"), "/dev/sda1");
    assert_eq!(dev_path("sda/sda1"), "/dev/sda1");
    assert_eq!(dev_path(""), "/dev/");
}

#[test]
fn usage_from_statistics() {
    // (100 - 40) blocks of 4096 bytes.
    assert_eq!(used_bytes(100, 40, 4096), Some(245760));
    // More free than total: inconsistent, usage unknown.
    assert_eq!(used_bytes(10, 20, 512), None);
    // Product past 64 bits: usage unknown.
    assert_eq!(used_bytes(u64::MAX, 0, 2), None);
}

#[test]
fn device_mapper_names_excluded() {
    let names = vec!["sda".to_string(), "dm-0".to_string(), "sdb".to_string()];
    let kept = keep_drive_names(&names);
    assert_eq!(kept, vec!["sda".to_string(), "sdb".to_string()]);
}

#[test]
fn partition_names_filtered_by_drive_prefix() {
    let entries = vec![
        "sda1".to_string(),
        "queue".to_string(),
        "sda2".to_string(),
        "size".to_string(),
    ];
    let kept = keep_partition_names("sda", &entries);
    assert_eq!(kept, vec!["sda1".to_string(), "sda2".to_string()]);
}

#[test]
fn half_used_partition_fills_half_the_mini_bar() {
    // used / total == 0.5 with a 20-cell bar: exactly 10 filled cells.
    // 20971520 sectors = 10737418240 bytes; used is half of that.
    assert_eq!(filled_cells(5368709120, 20971520), 10);
    // Small values behave the same.
    assert_eq!(filled_cells(512, 2), 10);
}

#[test]
fn mini_bar_edges() {
    assert_eq!(filled_cells(0, 2097152), 0);
    // Usage at (or past) the total fills the bar.
    assert_eq!(filled_cells(1073741824, 2097152), 20);
    assert_eq!(filled_cells(9999999999, 2097152), 20);
    // A zero-size partition with recorded usage shows a full bar.
    assert_eq!(filled_cells(5, 0), 20);
    assert_eq!(filled_cells(0, 0), 0);
}

#[test]
fn segment_widths_never_exceed_chart_width() {
    // Three equal partitions on a chart of 10 cells: each asks for 7 of
    // them (2/3 of 10 rounds to 7), so first-come clamping gives 7, then
    // 3, then nothing.
    let parts = vec![
        Partition::new("sda1".to_string(), 2, None),
        Partition::new("sda2".to_string(), 2, None),
        Partition::new("sda3".to_string(), 2, None),
    ];
    let bar = aggregate_bar(&parts, 3, 10);
    assert_eq!(bar.used_cells, 10);
    assert_eq!(bar.trailing_blanks, 0);
    assert_eq!(bar.segments.len(), 2);
    assert_eq!(bar.segments[0].part_index, 0);
    assert_eq!(bar.segments[0].width, 7);
    assert_eq!(bar.segments[1].part_index, 1);
    assert_eq!(bar.segments[1].width, 3);
}

#[test]
fn zero_size_partition_draws_no_segment() {
    let parts = vec![
        Partition::new("sda1".to_string(), 0, None),
        Partition::new("sda2".to_string(), 5, None),
    ];
    let bar = aggregate_bar(&parts, 5, 10);
    assert_eq!(bar.segments.len(), 1);
    assert_eq!(bar.segments[0].part_index, 1);
    assert_eq!(bar.segments[0].width, 10);
    assert_eq!(bar.used_cells, 10);
}

#[test]
fn unreadable_drive_size_degrades_to_blank_bar() {
    let parts = vec![Partition::new("sda1".to_string(), 4096, None)];
    let bar = aggregate_bar(&parts, 0, 50);
    // The divisor falls back to 1, so the share is clamped to the width.
    assert_eq!(bar.used_cells, 50);
    let empty_parts = vec![Partition::new("sda1".to_string(), 0, None)];
    let empty_bar = aggregate_bar(&empty_parts, 0, 50);
    assert_eq!(empty_bar.used_cells, 0);
    assert_eq!(empty_bar.trailing_blanks, 50);
}

#[test]
fn unmounted_partition_detail_line() {
    let table = MountTable::empty();
    let p = Partition::new("sdb1".to_string(), 2097152, None);
    let line = detail_line(&p, 0, 4, &table);
    assert_eq!(line.mount_text, "-");
    assert_eq!(line.usage_cells, None);
    // Usage renders as 0.0 even though it is absent, not zero.
    assert_eq!(line.size_text, "      0.0 / 1.0 GB");
}

#[test]
fn mounted_partition_detail_line() {
    let table = MountTable::parse("/dev/sdb1 /home ext4 rw 0 0\n");
    let p = Partition::new("sdb1".to_string(), 2097152, Some(536870912));
    let line = detail_line(&p, 6, 6, &table);
    assert_eq!(line.mount_text, "/home");
    assert_eq!(line.usage_cells, Some(10));
    assert_eq!(line.name_text, "sdb1  ");
    // Position 6 wraps around the 5-color palette.
    assert_eq!(line.color_index, 1);
    assert_eq!(line.size_text, "      0.5 / 1.0 GB");
}

#[test]
fn partition_mount_resolves_through_device_path() {
    let table = MountTable::parse("/dev/sda1 / ext4 rw 0 0\n");
    assert_eq!(partition_mount(&table, "sda1"), Some("/".to_string()));
    assert_eq!(partition_mount(&table, "sda2"), None);
}

#[test]
fn end_to_end_single_drive() {
    // One drive "sda" of 10 GB with one partition mounted at "/", half used.
    let partitions = vec![Partition::new(
        "sda1".to_string(),
        20971520,
        Some(5368709120),
    )];
    let drive = Drive::new("sda".to_string(), 20971520, partitions);
    let table = MountTable::parse("/dev/sda1 / ext4 rw,relatime 0 0\n");
    let chart = render_drive(&drive, &table, 40);

    assert_eq!(chart.name, "sda");
    assert_eq!(chart.size_text, "10.00");

    // The single partition occupies the full aggregate bar.
    assert_eq!(chart.bar.segments.len(), 1);
    assert_eq!(chart.bar.segments[0].part_index, 0);
    assert_eq!(chart.bar.segments[0].width, 40);
    assert_eq!(chart.bar.segments[0].symbol_index, 0);
    assert_eq!(chart.bar.segments[0].color_index, 0);
    assert_eq!(chart.bar.used_cells, 40);
    assert_eq!(chart.bar.trailing_blanks, 0);

    // The detail line: half-filled mini bar, "5.0 / 10.0 GB", mounted at "/".
    assert_eq!(chart.details.len(), 1);
    let line = &chart.details[0];
    assert_eq!(line.color_index, 0);
    assert_eq!(line.name_text, "sda1");
    assert_eq!(line.usage_cells, Some(10));
    assert_eq!(line.size_text, "     5.0 / 10.0 GB");
    assert_eq!(line.mount_text, "/");
}
