use onyx::doctor::{is_big_core, is_version_higher, meminfo_totals, parse_mem_line, version_parts};
use onyx::ext::list_help;
use onyx::text::{decimal_string, parse_i32, parse_unsigned};

#[test]
fn big_cores() {
    assert!(is_big_core(1_900_000));
    assert!(is_big_core(2_400_000));
    assert!(!is_big_core(1_800_000));
}

#[test]
fn mem_lines() {
    assert_eq!(parse_mem_line("MemTotal:       16318712 kB"), 16318712);
    assert_eq!(parse_mem_line("MemTotal:"), 0);
    assert_eq!(parse_mem_line("  MemFree:   12 kB"), 12);
    assert_eq!(parse_mem_line("MemFree: x kB"), 0);
}

#[test]
fn meminfo() {
    let lines: Vec<String> = vec![
        "MemTotal:       8000000 kB".to_string(),
        "MemFree:        100 kB".to_string(),
        "MemAvailable:   3000000 kB".to_string(),
    ];
    assert_eq!(meminfo_totals(&lines), (8000000, 3000000));
    assert_eq!(meminfo_totals(&Vec::new()), (0, 0));
}

#[test]
fn versions_compare() {
    assert!(is_version_higher("6.8.0", "4.14"));
    assert!(!is_version_higher("4.14", "4.14"));
    assert!(is_version_higher("4.14.1", "4.14"));
    assert!(!is_version_higher("4.9", "4.14"));
    assert!(!is_version_higher("x", "4.14"));
    assert_eq!(version_parts("6.8.0"), vec![6, 8, 0]);
    assert_eq!(version_parts("1..z"), vec![1, 0, 0]);
    assert_eq!(version_parts(""), vec![0]);
}

#[test]
fn plugin_list() {
    let l = list_help();
    assert_eq!(l.len(), 2);
    assert_eq!(l[0].0, "ext_plugin1324");
    assert_eq!(l[1].1, "User extension plugin 2");
}

#[test]
fn numbers_as_text() {
    assert_eq!(decimal_string(0), "0");
    assert_eq!(decimal_string(1234567890), "1234567890");
    assert_eq!(decimal_string(u64::MAX), "18446744073709551615");
    assert_eq!(parse_unsigned("+17", 100), Some(17));
    assert_eq!(parse_unsigned("101", 100), None);
    assert_eq!(parse_unsigned("", 100), None);
    assert_eq!(parse_unsigned("18446744073709551615", u64::MAX), Some(u64::MAX));
    assert_eq!(parse_unsigned("18446744073709551616", u64::MAX), None);
    assert_eq!(parse_i32("-2147483648"), Some(i32::MIN));
    assert_eq!(parse_i32("2147483648"), None);
    assert_eq!(parse_i32("-"), None);
}
