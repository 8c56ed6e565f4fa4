use asyncos::metric::{format_metric_line, parse_metric_line};
use asyncos::page_text::{extract_body_text, join_text_nodes};
use asyncos::peak::{measure_sync_peak_kb, PeakTracker};
use asyncos::batching::benchmark_concurrency_limit;
use asyncos::process_tree::{
    bounded_descends, checked_process_tree_memory_kb, is_descendant_of, process_tree_memory_kb,
    ProcessTable,
};
use asyncos::targets::parse_targets;
use asyncos::text::is_whitespace;

#[test]
fn targets_take_first_two_words_per_line() {
    let text = "清华大学 https://www.tsinghua.edu.cn\n\n  北京大学\thttps://www.pku.edu.cn extra\r\nlonely\n";
    let schools = parse_targets(text);
    assert_eq!(schools.len(), 2);
    assert_eq!(schools[0].name, "清华大学");
    assert_eq!(schools[0].url, "https://www.tsinghua.edu.cn");
    assert_eq!(schools[1].name, "北京大学");
    assert_eq!(schools[1].url, "https://www.pku.edu.cn");
}

#[test]
fn targets_last_line_without_newline() {
    let schools = parse_targets("a b\nc d");
    assert_eq!(schools.len(), 2);
    assert_eq!(schools[1].name, "c");
    assert_eq!(schools[1].url, "d");
    assert!(parse_targets("").is_empty());
    assert!(parse_targets("\n\n   \n").is_empty());
}

#[test]
fn unicode_white_space() {
    assert!(is_whitespace(' '));
    assert!(is_whitespace('\u{3000}'));
    assert!(is_whitespace('\u{85}'));
    assert!(!is_whitespace('x'));
    assert!(!is_whitespace('\u{200b}'));
    for c in ['\t', '\n', '\r', '\u{a0}', '\u{2009}', '\u{feff}', 'a', '\u{180e}'] {
        assert_eq!(is_whitespace(c), c.is_whitespace());
    }
}

#[test]
fn body_text_is_trimmed_and_line_separated() {
    let html = "<html><head><title>T</title></head><body>\n  <p> Hello </p>\n<div>World<span>!</span></div>\n</body></html>";
    assert_eq!(extract_body_text(html), "Hello\nWorld\n!\n");
}

#[test]
fn page_without_markup_still_has_a_body() {
    assert_eq!(extract_body_text("just text"), "just text\n");
    assert_eq!(extract_body_text(""), "");
}

#[test]
fn joining_skips_blank_pieces() {
    let nodes = vec!["  a b ".to_string(), " \n\t".to_string(), "c".to_string()];
    assert_eq!(join_text_nodes(&nodes), "a b\nc\n");
}

#[test]
fn metric_line_fields() {
    let m = parse_metric_line("  METRIC|清华|1|123.5|2048\n").unwrap();
    assert!(m.success);
    assert_eq!(m.latency_text, "123.5");
    assert_eq!(m.peak_kb, 2048);
    let f = parse_metric_line("METRIC|x|0|1|+7").unwrap();
    assert!(!f.success);
    assert_eq!(f.peak_kb, 7);
}

#[test]
fn metric_line_rejections() {
    assert!(parse_metric_line("METRIC|x|1|2").is_none());
    assert!(parse_metric_line("METRIC|x|1|2|3|4").is_none());
    assert!(parse_metric_line("METRICS|x|1|2|3").is_none());
    assert!(parse_metric_line("METRIC|x|1|2|-3").is_none());
    assert!(parse_metric_line("METRIC|x|1|2|").is_none());
    assert!(parse_metric_line("METRIC|x|1|2|18446744073709551616").is_none());
    let max = parse_metric_line("METRIC|x|1|2|18446744073709551615").unwrap();
    assert_eq!(max.peak_kb, u64::MAX);
}

fn sample_table() -> ProcessTable {
    let mut t = ProcessTable::new();
    t.insert(1, None, 4096 * 1024);
    t.insert(10, Some(1), 3000);
    t.insert(11, Some(10), 2048);
    t.insert(12, Some(10), 1023);
    t.insert(20, Some(1), 10_000);
    t.insert(30, Some(99), 5000);
    t
}

#[test]
fn descendants_follow_parent_links() {
    let t = sample_table();
    assert!(is_descendant_of(10, 10, &t));
    assert!(is_descendant_of(11, 10, &t));
    assert!(is_descendant_of(12, 10, &t));
    assert!(!is_descendant_of(20, 10, &t));
    assert!(!is_descendant_of(1, 10, &t));
    assert!(!is_descendant_of(30, 10, &t));
    assert!(is_descendant_of(30, 99, &t));
}

#[test]
fn tree_memory_sums_kib_of_descendants() {
    let t = sample_table();
    // 3000/1024 = 2, 2048/1024 = 2, 1023/1024 = 0
    assert_eq!(process_tree_memory_kb(&t, 10), 4);
    assert_eq!(process_tree_memory_kb(&t, 1), 4096 + 2 + 2 + 0 + 9);
    assert_eq!(process_tree_memory_kb(&t, 77), 0);
    assert_eq!(t.len(), 6);
}

#[test]
fn peak_tracker_keeps_the_maximum() {
    let mut p = PeakTracker::new();
    assert_eq!(p.peak_kb(), 0);
    p.observe(5);
    p.observe(3);
    p.observe(9);
    assert_eq!(p.peak_kb(), 9);
}

#[test]
fn measured_run_returns_result_and_monitor_peak() {
    let (v, peak) = measure_sync_peak_kb(|m: u64| (6 * 7, m + 1), || 100u64, |held| held + 23);
    assert_eq!(v, 42);
    assert_eq!(peak, 124, "stop gets the monitor the body handed back");
}

#[test]
fn worker_report_round_trip() {
    let line = format_metric_line("北京大学", true, "12.75", 0);
    assert_eq!(line, "METRIC|北京大学|1|12.75|0");
    let back = parse_metric_line(&line).unwrap();
    assert!(back.success);
    assert_eq!(back.latency_text, "12.75");
    assert_eq!(back.peak_kb, 0);
    let failed = format_metric_line("x y", false, "3", u64::MAX);
    assert_eq!(failed, format!("METRIC|x y|0|3|{}", u64::MAX));
    let back = parse_metric_line(&failed).unwrap();
    assert!(!back.success);
    assert_eq!(back.peak_kb, u64::MAX);
    // a name holding the separator does not read back
    assert!(parse_metric_line(&format_metric_line("a|b", true, "1", 1)).is_none());
}

#[test]
fn checked_tree_memory_matches_and_detects_cycles() {
    let t = sample_table();
    assert_eq!(checked_process_tree_memory_kb(&t, 10), Some(4));
    assert_eq!(checked_process_tree_memory_kb(&t, 1), Some(4096 + 2 + 2 + 0 + 9));
    let mut cyc = ProcessTable::new();
    cyc.insert(5, Some(6), 1024);
    cyc.insert(6, Some(5), 1024);
    assert_eq!(checked_process_tree_memory_kb(&cyc, 7), None);
    assert_eq!(bounded_descends(5, 6, &cyc, 10), Some(true));
    assert_eq!(bounded_descends(5, 7, &cyc, 10), None);
    let mut big = ProcessTable::new();
    big.insert(1, None, u64::MAX);
    for pid in 2..1100u32 {
        big.insert(pid, Some(1), u64::MAX);
    }
    // each process counts u64::MAX / 1024 KiB; 1025 of them no longer fit
    assert_eq!(checked_process_tree_memory_kb(&big, 1), None);
}

#[test]
fn concurrency_limit_is_at_least_one() {
    assert_eq!(benchmark_concurrency_limit(0), 1);
    assert_eq!(benchmark_concurrency_limit(7), 7);
}
