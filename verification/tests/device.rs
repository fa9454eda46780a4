use four_corners::device::{normalize_device_path, parse_devices, regular_file_size};
use four_corners::text::{contains, found_at, is_decimal_text, is_white_space, same_text, trim};

#[test]
fn bare_number_names_a_physical_drive() {
    assert_eq!(normalize_device_path("4"), r"\\.\PhysicalDrive4");
    assert_eq!(normalize_device_path("  12 "), r"\\.\PhysicalDrive12");
    assert_eq!(normalize_device_path("007"), r"\\.\PhysicalDrive007");
    assert_eq!(normalize_device_path("0"), r"\\.\PhysicalDrive0");
    assert_eq!(normalize_device_path("4294967295"), r"\\.\PhysicalDrive4294967295");
    assert_eq!(normalize_device_path("4294967296"), r"\\.\PhysicalDrive4294967296");
    assert_eq!(
        normalize_device_path("123456789012345678901234567890"),
        r"\\.\PhysicalDrive123456789012345678901234567890"
    );
}

#[test]
fn device_namespace_path_is_kept() {
    assert_eq!(normalize_device_path(r"\\.\PhysicalDrive4"), r"\\.\PhysicalDrive4");
    assert_eq!(normalize_device_path("\t\\\\.\\E:\n"), r"\\.\E:");
    assert_eq!(normalize_device_path(r"\\.\"), r"\\.\");
}

#[test]
fn other_text_is_a_file_path() {
    assert_eq!(normalize_device_path(r"C:\bench\test.dat"), r"C:\bench\test.dat");
    assert_eq!(normalize_device_path(" test.dat "), "test.dat");
    assert_eq!(normalize_device_path("+3"), "+3");
    assert_eq!(normalize_device_path("+"), "+");
    assert_eq!(normalize_device_path("-1"), "-1");
    assert_eq!(normalize_device_path("1 2"), "1 2");
    assert_eq!(normalize_device_path("1.5"), "1.5");
    assert_eq!(normalize_device_path("4k"), "4k");
    assert_eq!(normalize_device_path("+"), "+");
    assert_eq!(normalize_device_path(""), "");
    assert_eq!(normalize_device_path("   "), "");
    assert_eq!(normalize_device_path(r"\\.x"), r"\\.x");
    assert_eq!(normalize_device_path("١"), "١");
}

#[test]
fn trim_matches_std() {
    for s in ["", " ", "a", " a b ", "\u{2003}x\u{3000}", "\r\n\tq\u{85}", "\u{a0}\u{1680}", "  é  "] {
        assert_eq!(trim(s), s.trim());
    }
}

#[test]
fn bare_decimal_integers() {
    for s in ["0", "4", "12", "007", "4294967295", "4294967296", "99999999999999999999999"] {
        assert!(is_decimal_text(s), "{s:?}");
    }
    for s in ["", "+", "-", "+0", "-0", "1 ", " 1", "1_0", "0x10", "１", "١", "1.0", "++1", "1+", "a"] {
        assert!(!is_decimal_text(s), "{s:?}");
    }
}

#[test]
fn resolving_twice_changes_nothing() {
    for s in ["4", " 12 ", r"\\.\PhysicalDrive4", "x.dat", "+3", "", "  ", r" \\.\E: ", "4294967296"] {
        let once = normalize_device_path(s);
        assert_eq!(normalize_device_path(&once), once, "{s:?}");
    }
}

#[test]
fn white_space_matches_std_on_every_character() {
    let mut count = 0;
    for u in 0..=0x10ffffu32 {
        if let Some(c) = char::from_u32(u) {
            assert_eq!(is_white_space(c), c.is_whitespace(), "{u:#x}");
            if is_white_space(c) {
                count += 1;
            }
        }
    }
    assert_eq!(count, 25);
}

#[test]
fn search_matches_std() {
    let hays = ["", "a", "read-tp", "read-tp,write-iops", "all", "xread-iopsx", "réad-tp", "aaa"];
    let needles = ["", "a", "aa", "read-tp", "write-iops", "read-iops", "all", "é"];
    for h in hays {
        for n in needles {
            assert_eq!(contains(h, n), h.contains(n), "{h:?} {n:?}");
            assert_eq!(same_text(h, n), h == n, "{h:?} {n:?}");
        }
    }
    assert!(found_at("write-tp", 6, "tp"));
    assert!(!found_at("write-tp", 7, "tp"));
    assert!(found_at("abc", 3, ""));
    assert!(!found_at("abc", 4, ""));
}

fn args(v: &[&str]) -> Vec<String> {
    v.iter().map(|s| s.to_string()).collect()
}

#[test]
fn devices_are_split_at_commas() {
    assert_eq!(
        parse_devices(&args(&["/dev/nvme0n1,/dev/nvme1n1", " /dev/sda "]), false),
        args(&["/dev/nvme0n1", "/dev/nvme1n1", "/dev/sda"])
    );
    assert_eq!(parse_devices(&args(&["a,,b, ,c,"]), false), args(&["a", "b", "c"]));
    assert_eq!(parse_devices(&args(&[",", "", "  "]), false), Vec::<String>::new());
    assert_eq!(parse_devices(&Vec::new(), true), Vec::<String>::new());
}

#[test]
fn devices_are_resolved_on_windows_only() {
    assert_eq!(parse_devices(&args(&["4, 5", "x.dat"]), false), args(&["4", "5", "x.dat"]));
    assert_eq!(
        parse_devices(&args(&["4, 5", "x.dat", r"\\.\D:"]), true),
        args(&[r"\\.\PhysicalDrive4", r"\\.\PhysicalDrive5", "x.dat", r"\\.\D:"])
    );
}

#[test]
fn file_length_settles_the_size_unless_it_is_zero() {
    assert_eq!(regular_file_size(Some(1 << 30)), Some(1 << 30));
    assert_eq!(regular_file_size(Some(1)), Some(1));
    assert_eq!(regular_file_size(Some(0)), None);
    assert_eq!(regular_file_size(None), None);
}
