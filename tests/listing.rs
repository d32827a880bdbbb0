use zero_shell::color::{colorize, colorize_dir, colorize_symlink, symlink_color, Color};
use zero_shell::entry::{get_detailed_file_info, owner_name, size_field};
use zero_shell::flags::Flag;
use zero_shell::meta::{EntryMeta, FileKind, LinkTarget};
use zero_shell::names::{format_path, is_executable, name_color, quote_if_needed};
use zero_shell::order::{clean_string, greater, sort_order};
use zero_shell::output::{format_detailed_file_info, LsOutput};
use zero_shell::perm::{get_file_type, get_major_minor, get_permissions};
use zero_shell::processor::{add_dot_entries, is_shown, DirEntry, FileTarget, LsProcessor};
use zero_shell::text::{decimal_string, strip_ansi_codes};
use zero_shell::time::{get_modified_at, is_recent, time_pattern, TimeZonePolicy};

fn meta(kind: FileKind, mode: u32) -> EntryMeta {
    EntryMeta {
        kind,
        mode,
        nlink: 1,
        uid: 1000,
        gid: 1000,
        size: 42,
        rdev: 0,
        blocks: 8,
        mtime: Some(0),
        has_acl: false,
        user_name: Some("alice".to_string()),
        group_name: Some("staff".to_string()),
        broken: false,
        link: None,
    }
}

fn flags(l: bool, a: bool, f: bool) -> Flag {
    Flag { l, a, f }
}

fn plain(s: &str) -> String {
    strip_ansi_codes(s)
}

fn entry(name: &str, kind: FileKind) -> DirEntry {
    DirEntry { name: name.to_string(), meta: Some(meta(kind, 0o644)) }
}

fn short_names(rows: &Vec<Vec<String>>) -> Vec<String> {
    rows.iter().map(|r| plain(&r[0])).collect()
}

fn device_number(major: u64, minor: u64) -> u64 {
    (minor & 0xff) | ((major & 0xfff) << 8) | ((minor & 0xfff00) << 12) | ((major & 0xfffff000) << 32)
}

#[test]
fn permission_string_regular_755() {
    assert_eq!(get_permissions(&meta(FileKind::Regular, 0o755)), "-rwxr-xr-x");
}

#[test]
fn permission_string_directory_644() {
    assert_eq!(get_permissions(&meta(FileKind::Directory, 0o644)), "drw-r--r--");
}

#[test]
fn permission_string_setuid_with_and_without_exec() {
    assert_eq!(get_permissions(&meta(FileKind::Regular, 0o4755)), "-rwsr-xr-x");
    assert_eq!(get_permissions(&meta(FileKind::Regular, 0o4644)), "-rwSr--r--");
}

#[test]
fn permission_string_setgid_sticky_and_acl() {
    assert_eq!(get_permissions(&meta(FileKind::Directory, 0o3777)), "drwxrwsrwt");
    assert_eq!(get_permissions(&meta(FileKind::Directory, 0o3666)), "drw-rwSrwT");
    let mut m = meta(FileKind::Regular, 0o600);
    m.has_acl = true;
    assert_eq!(get_permissions(&m), "-rw-------+");
}

#[test]
fn file_type_letters() {
    assert_eq!(get_file_type(FileKind::Directory), 'd');
    assert_eq!(get_file_type(FileKind::Symlink), 'l');
    assert_eq!(get_file_type(FileKind::CharDevice), 'c');
    assert_eq!(get_file_type(FileKind::BlockDevice), 'b');
    assert_eq!(get_file_type(FileKind::Fifo), 'p');
    assert_eq!(get_file_type(FileKind::Socket), 's');
    assert_eq!(get_file_type(FileKind::Regular), '-');
}

#[test]
fn major_minor_round_trip() {
    for &(major, minor) in &[(8u64, 1u64), (0, 0), (4095, 255), (4096, 256), (0xffff_ffff, 0xf_ffff), (259, 65536)] {
        assert_eq!(get_major_minor(device_number(major, minor)), (major, minor));
    }
}

#[test]
fn device_size_field() {
    let mut m = meta(FileKind::BlockDevice, 0o660);
    m.rdev = device_number(8, 1);
    assert_eq!(size_field(&m), "8, 1");
    assert_eq!(size_field(&meta(FileKind::Regular, 0o644)), "42");
}

#[test]
fn decimal_rendering() {
    assert_eq!(decimal_string(0), "0");
    assert_eq!(decimal_string(1234567890), "1234567890");
    assert_eq!(decimal_string(u64::MAX), "18446744073709551615");
}

#[test]
fn owner_falls_back_to_number() {
    assert_eq!(owner_name(1001, &None), "1001");
    assert_eq!(owner_name(0, &Some("root".to_string())), "root");
}

#[test]
fn quoting_of_unsafe_names() {
    let mut a = "plain.txt".to_string();
    quote_if_needed(&mut a);
    assert_eq!(a, "plain.txt");
    let mut b = "my file".to_string();
    quote_if_needed(&mut b);
    assert_eq!(b, "'my file'");
    let mut c = "it's".to_string();
    quote_if_needed(&mut c);
    assert_eq!(c, "\"it's\"");
}

#[test]
fn executable_bits() {
    assert!(is_executable(0o100));
    assert!(is_executable(0o001));
    assert!(!is_executable(0o644));
}

#[test]
fn sort_key_strips_punctuation() {
    assert_eq!(clean_string("a.b-c_1".to_string()), "ABC1");
    assert_eq!(clean_string(".bashrc".to_string()), "BASHRC");
    assert_eq!(clean_string("".to_string()), "");
}

#[test]
fn key_comparison() {
    assert!(greater("B", "A"));
    assert!(!greater("A", "B"));
    assert!(greater("AB", "A"));
    assert!(!greater("A", "A"));
}

#[test]
fn stable_sort_keeps_equal_keys_in_order() {
    let keys: Vec<String> = [".bashrc", "bashrc", "-bashrc"].iter().map(|s| clean_string(s.to_string())).collect();
    assert_eq!(sort_order(&keys), vec![0, 1, 2]);
    let keys: Vec<String> = ["C", "A", "B", "A"].iter().map(|s| s.to_string()).collect();
    assert_eq!(sort_order(&keys), vec![1, 3, 2, 0]);
}

#[test]
fn dotfiles_hidden_without_all() {
    assert!(!is_shown(".hidden", false));
    assert!(is_shown(".hidden", true));
    assert!(is_shown("a", false));
}

#[test]
fn scenario_short_listing_with_and_without_all() {
    let entries = vec![entry("b.txt", FileKind::Regular), entry("A.txt", FileKind::Regular), entry(".hidden", FileKind::Regular)];
    let dot = meta(FileKind::Directory, 0o755);
    let d = LsProcessor::process_directory("dir", &dot, &dot, &entries, &flags(false, false, false), 0, TimeZonePolicy::Utc);
    assert_eq!(d.entries, vec![vec!["A.txt".to_string()], vec!["b.txt".to_string()]]);
    let d = LsProcessor::process_directory("dir", &dot, &dot, &entries, &flags(false, true, false), 0, TimeZonePolicy::Utc);
    // The key of ".hidden" is "HIDDEN", which sorts after "ATXT" and "BTXT".
    assert_eq!(short_names(&d.entries), vec![".", "..", "A.txt", "b.txt", ".hidden"]);
}

#[test]
fn punctuation_insensitive_listing_order() {
    let entries = vec![entry(".bashrc", FileKind::Regular), entry("bashrc", FileKind::Regular), entry("-bashrc", FileKind::Regular), entry("a", FileKind::Regular)];
    let dot = meta(FileKind::Directory, 0o755);
    let d = LsProcessor::process_directory("d", &dot, &dot, &entries, &flags(false, true, false), 0, TimeZonePolicy::Utc);
    assert_eq!(short_names(&d.entries), vec![".", "..", "a", ".bashrc", "bashrc", "-bashrc"]);
}

#[test]
fn empty_directory_with_all_lists_dots() {
    let dot = meta(FileKind::Directory, 0o755);
    let d = LsProcessor::process_directory("empty", &dot, &dot, &vec![], &flags(false, true, false), 0, TimeZonePolicy::Utc);
    assert_eq!(short_names(&d.entries), vec![".", ".."]);
    let d = LsProcessor::process_directory("empty", &dot, &dot, &vec![], &flags(false, false, false), 0, TimeZonePolicy::Utc);
    assert!(d.entries.is_empty());
}

#[test]
fn classify_suffixes() {
    let dot = meta(FileKind::Directory, 0o755);
    let mut link = meta(FileKind::Symlink, 0o777);
    link.link = Some(LinkTarget { text: "b.txt".to_string(), kind: FileKind::Regular, mode: 0o644 });
    let entries = vec![
        DirEntry { name: "sub".to_string(), meta: Some(meta(FileKind::Directory, 0o755)) },
        DirEntry { name: "run".to_string(), meta: Some(meta(FileKind::Regular, 0o755)) },
        DirEntry { name: "ln".to_string(), meta: Some(link) },
        DirEntry { name: "pipe".to_string(), meta: Some(meta(FileKind::Fifo, 0o644)) },
    ];
    let d = LsProcessor::process_directory("d", &dot, &dot, &entries, &flags(false, true, true), 0, TimeZonePolicy::Utc);
    assert_eq!(short_names(&d.entries), vec!["./", "../", "ln@", "pipe", "run*", "sub/"]);
}

#[test]
fn short_and_long_counts_agree() {
    let dot = meta(FileKind::Directory, 0o755);
    let entries = vec![
        entry("x", FileKind::Regular),
        DirEntry { name: "unreadable".to_string(), meta: None },
        entry(".y", FileKind::Regular),
    ];
    for a in [false, true] {
        let s = LsProcessor::process_directory("d", &dot, &dot, &entries, &flags(false, a, false), 0, TimeZonePolicy::Utc);
        let l = LsProcessor::process_directory("d", &dot, &dot, &entries, &flags(true, a, false), 0, TimeZonePolicy::Utc);
        assert_eq!(s.entries.len(), l.entries.len());
    }
}

#[test]
fn block_total_halves_block_counts() {
    let dot = meta(FileKind::Directory, 0o755);
    let entries = vec![entry("x", FileKind::Regular), entry("y", FileKind::Regular), entry(".z", FileKind::Regular)];
    let d = LsProcessor::process_directory("d", &dot, &dot, &entries, &flags(true, false, false), 0, TimeZonePolicy::Utc);
    assert_eq!(d.total_blocks, 8);
    let d = LsProcessor::process_directory("d", &dot, &dot, &entries, &flags(true, true, false), 0, TimeZonePolicy::Utc);
    assert_eq!(d.total_blocks, 20);
    assert_eq!(d.max_len, 2);
    let d = LsProcessor::process_directory("d", &dot, &dot, &entries, &flags(false, true, false), 0, TimeZonePolicy::Utc);
    assert_eq!(d.total_blocks, 0);
}

#[test]
fn broken_link_long_form() {
    let mut link = meta(FileKind::Symlink, 0o777);
    link.broken = true;
    link.link = None;
    let row = get_detailed_file_info("dangling", &link, &flags(true, false, true), 0, TimeZonePolicy::Utc, &mut 0, false, &mut 0);
    assert_eq!(plain(&row[6]), "dangling -> invalid symlink");
    assert_eq!(symlink_color(true), Color::Red);
    assert_eq!(symlink_color(false), Color::SkyBlue);
}

#[test]
fn link_target_is_decorated_once() {
    let mut link = meta(FileKind::Symlink, 0o777);
    link.link = Some(LinkTarget { text: "/usr/lib".to_string(), kind: FileKind::Directory, mode: 0o755 });
    let row = get_detailed_file_info("lib", &link, &flags(true, false, true), 0, TimeZonePolicy::Utc, &mut 0, false, &mut 0);
    assert_eq!(plain(&row[6]), "lib -> /usr/lib/");
    let mut chained = meta(FileKind::Symlink, 0o777);
    chained.link = Some(LinkTarget { text: "other".to_string(), kind: FileKind::Symlink, mode: 0o777 });
    let row = get_detailed_file_info("first", &chained, &flags(true, false, true), 0, TimeZonePolicy::Utc, &mut 0, false, &mut 0);
    assert_eq!(plain(&row[6]), "first -> other");
}

#[test]
fn long_row_fields() {
    let row = get_detailed_file_info("my file", &meta(FileKind::Regular, 0o644), &flags(true, false, false), 0, TimeZonePolicy::Utc, &mut 0, false, &mut 0);
    assert_eq!(row.len(), 7);
    assert_eq!(row[0], "-rw-r--r--");
    assert_eq!(row[1], "1");
    assert_eq!(row[2], "alice");
    assert_eq!(row[3], "staff");
    assert_eq!(row[4], "42");
    assert_eq!(row[5], "Jan  1 00:00");
    assert_eq!(plain(&row[6]), "'my file'");
}

#[test]
fn time_column() {
    assert_eq!(get_modified_at(None, 0, TimeZonePolicy::Utc), "<invalid time>");
    assert_eq!(get_modified_at(Some(0), 100_000_000, TimeZonePolicy::Utc), "Jan  1  1970");
    assert_eq!(get_modified_at(Some(0), 0, TimeZonePolicy::Casablanca), "Jan  1 00:00");
    assert_eq!(get_modified_at(Some(1_700_000_000), 1_700_000_000, TimeZonePolicy::Utc), "Nov 14 22:13");
    assert_eq!(get_modified_at(Some(1_700_000_000), 1_700_000_000, TimeZonePolicy::Casablanca), "Nov 14 23:13");
    assert_eq!(get_modified_at(Some(i64::MAX), 0, TimeZonePolicy::Utc), "<invalid time>");
}

#[test]
fn recency_window() {
    assert!(is_recent(100, 100));
    assert!(is_recent(200, 100));
    assert!(is_recent(0, 15_551_999));
    assert!(!is_recent(0, 15_552_000));
    assert!(is_recent(i64::MIN, i64::MIN));
}

#[test]
fn colorize_keeps_visible_text() {
    colored::control::set_override(true);
    let red = colorize("red", Color::Red, true);
    assert_ne!(red, "red");
    assert_eq!(plain(&red), "red");
    let mut d = "dir".to_string();
    colorize_dir(&mut d, &flags(false, false, true));
    assert_eq!(plain(&d), "dir/");
    let mut s = "ln".to_string();
    colorize_symlink(&mut s, false, &flags(true, false, true));
    assert_eq!(plain(&s), "ln");
}

#[test]
fn strip_removes_escape_sequences() {
    assert_eq!(strip_ansi_codes("\x1b[1;31mred\x1b[0m"), "red");
    assert_eq!(strip_ansi_codes("a\x1b[1b"), "a\x1b[1b");
    assert_eq!(strip_ansi_codes(""), "");
}

#[test]
fn format_path_of_device() {
    colored::control::set_override(true);
    let mut name = "sda".to_string();
    format_path(&meta(FileKind::BlockDevice, 0o660), &mut name, &flags(false, false, true));
    assert_ne!(name, "sda");
    assert_eq!(plain(&name), "sda");
}

#[test]
fn dot_entries_go_first() {
    let dot = meta(FileKind::Directory, 0o755);
    let mut rows = vec![vec!["x".to_string()]];
    let mut total: u64 = 1;
    let mut width: usize = 0;
    add_dot_entries(&dot, &dot, &mut rows, &mut total, &mut width, &flags(false, true, false), 0, TimeZonePolicy::Utc);
    assert_eq!(width, 0);
    assert_eq!(short_names(&rows), vec![".", "..", "x"]);
    assert_eq!(total, 1);
    let mut long_rows: Vec<Vec<String>> = Vec::new();
    add_dot_entries(&dot, &dot, &mut long_rows, &mut total, &mut width, &flags(true, true, true), 0, TimeZonePolicy::Utc);
    assert_eq!(width, 2);
    assert_eq!(long_rows.len(), 2);
    assert_eq!(plain(&long_rows[0][6]), "./");
    assert_eq!(plain(&long_rows[1][6]), "../");
    assert_eq!(total, 9);
}

#[test]
fn files_keep_given_order() {
    let files = vec![
        FileTarget { path: "z/b".to_string(), name: "b".to_string(), meta: meta(FileKind::Regular, 0o644) },
        FileTarget { path: "a".to_string(), name: "a".to_string(), meta: meta(FileKind::Regular, 0o644) },
    ];
    let mut max_len = 0;
    let mut rows = Vec::new();
    LsProcessor::process_files(&files, &flags(false, false, false), 0, TimeZonePolicy::Utc, &mut max_len, &mut rows);
    assert_eq!(rows, vec![vec!["z/b".to_string()], vec!["a".to_string()]]);
    let mut rows = Vec::new();
    LsProcessor::process_files(&files, &flags(true, false, false), 0, TimeZonePolicy::Utc, &mut max_len, &mut rows);
    assert_eq!(max_len, 2);
    assert_eq!(plain(&rows[0][6]), "b");
}

#[test]
fn long_row_alignment() {
    let max_lens = vec![10, 3, 5, 5, 6, 12, 4];
    let row: Vec<String> = ["-rw-r--r--", "1", "alice", "staff", "42", "Jan  1 00:00", "name"].iter().map(|s| s.to_string()).collect();
    assert_eq!(format_detailed_file_info(&max_lens, &row, 2), "-rw-r--r--   1 alice staff     42 Jan  1 00:00 name");
    let dev: Vec<String> = ["brw-rw----", "1", "root", "disk", "8, 1", "Jan  1 00:00", "sda"].iter().map(|s| s.to_string()).collect();
    assert_eq!(format_detailed_file_info(&max_lens, &dev, 6), "brw-rw----   1 root  disk  8,   1 Jan  1 00:00 sda");
}

#[test]
fn long_listing_columns() {
    let rows = vec![
        vec!["a".to_string(), "10".to_string(), "x".to_string()],
        vec!["bb".to_string(), "2".to_string(), "y".to_string()],
    ];
    assert_eq!(LsOutput::format_long(&rows, 0), "a  10 x\nbb  2 y\n");
}

fn grid_rows(names: &[&str]) -> Vec<Vec<String>> {
    names.iter().map(|n| vec![n.to_string()]).collect()
}

#[test]
fn grid_fits_terminal() {
    let rows = grid_rows(&["alpha", "beta", "gamma", "delta", "epsilon"]);
    let out = LsOutput::format_result(&rows, 20);
    assert_eq!(out, "alpha  delta\nbeta   epsilon\ngamma  \n");
    for line in out.lines() {
        assert!(line.len() <= 20);
    }
    assert_eq!(LsOutput::format_result(&rows, 100), "alpha  beta  gamma  delta  epsilon\n");
}

#[test]
fn grid_degrades_to_one_column() {
    let rows = grid_rows(&["averyveryverylongname", "b"]);
    assert_eq!(LsOutput::format_result(&rows, 10), "averyveryverylongname\nb\n");
    assert_eq!(LsOutput::format_result(&rows, 2), "averyveryverylongname\nb\n");
    assert_eq!(LsOutput::format_result(&vec![], 80), "");
    assert_eq!(LsOutput::format_result(&grid_rows(&["one"]), 80), "one\n");
}

#[test]
fn grid_measures_visible_width() {
    let rows = vec![vec!["\x1b[1;34mdir\x1b[0m".to_string()], vec!["f".to_string()]];
    assert_eq!(LsOutput::format_result(&rows, 80), "\x1b[1;34mdir\x1b[0m  f\n");
}

#[test]
fn joined_without_terminal() {
    let rows = grid_rows(&["a", "b", "c"]);
    assert_eq!(LsOutput::format_joined(&rows), "a  b  c\n");
}

#[test]
fn time_pattern_by_age() {
    assert_eq!(time_pattern(10, 10), "%b %e %H:%M");
    assert_eq!(time_pattern(0, 15_552_000), "%b %e  %Y");
}

#[test]
fn name_colours_by_kind() {
    assert_eq!(name_color(&meta(FileKind::Directory, 0o755)), Some(Color::Blue));
    assert_eq!(name_color(&meta(FileKind::Regular, 0o755)), Some(Color::Green));
    assert_eq!(name_color(&meta(FileKind::Regular, 0o644)), None);
    assert_eq!(name_color(&meta(FileKind::CharDevice, 0o666)), Some(Color::Brown));
    assert_eq!(name_color(&meta(FileKind::Fifo, 0o755)), None);
    let mut link = meta(FileKind::Symlink, 0o777);
    assert_eq!(name_color(&link), Some(Color::SkyBlue));
    link.broken = true;
    assert_eq!(name_color(&link), Some(Color::Red));
}

#[test]
fn plain_names_stay_unformatted() {
    colored::control::set_override(true);
    for kind in [FileKind::Regular, FileKind::Fifo, FileKind::Socket] {
        let mut name = "x".to_string();
        format_path(&meta(kind, 0o644), &mut name, &flags(false, false, true));
        assert_eq!(name, "x");
    }
}

#[test]
fn colour_codes_requested() {
    colored::control::set_override(true);
    let mut d = "dir".to_string();
    format_path(&meta(FileKind::Directory, 0o755), &mut d, &flags(false, false, true));
    assert_eq!(d, "\x1b[1;34mdir\x1b[0m/");
    let mut x = "run".to_string();
    format_path(&meta(FileKind::Regular, 0o755), &mut x, &flags(false, false, false));
    assert_eq!(x, "\x1b[1;32mrun\x1b[0m");
}

#[test]
fn long_row_updates_running_total_and_width() {
    let mut total: u64 = 3;
    let mut width: usize = 1;
    let plain_meta = meta(FileKind::Regular, 0o644);
    get_detailed_file_info("f", &plain_meta, &flags(true, false, false), 0, TimeZonePolicy::Utc, &mut total, true, &mut width);
    assert_eq!(total, 7);
    assert_eq!(width, 2);
    get_detailed_file_info("f", &plain_meta, &flags(true, false, false), 0, TimeZonePolicy::Utc, &mut total, false, &mut width);
    assert_eq!(total, 7);
    let mut dev = meta(FileKind::CharDevice, 0o666);
    dev.rdev = device_number(136, 12);
    let row = get_detailed_file_info("tty", &dev, &flags(true, false, false), 0, TimeZonePolicy::Utc, &mut total, true, &mut width);
    assert_eq!(row[4], "136, 12");
    assert_eq!(width, 7);
    assert_eq!(total, 11);
}
