use hitgrep::hit_handling::{HitCounter, HitHandler, HitPrinter};
use hitgrep::pattern::Matcher;
use hitgrep::plan::{normalize_sources, select_plan, ConfigError, Mode, Options, Plan};
use hitgrep::search::{run, search_sources, Search, Source};

fn opts() -> Options {
    Options {
        invert_match: false,
        force_print_filename: false,
        force_no_print_filename: false,
        print_line_number: false,
        print_matching_files: false,
        print_non_matching_files: false,
        count_hits_per_file: false,
    }
}

fn source(name: &str, lines: &[&str]) -> Source {
    Source { name: name.to_string(), lines: lines.iter().map(|l| l.to_string()).collect() }
}

fn three_lines(name: &str) -> Source {
    source(name, &["foo bar", "baz", "foobaz"])
}

#[test]
fn normal_mode_single_source() {
    let out = search_sources(&opts(), "foo", &vec![three_lines("-")]).unwrap();
    assert_eq!(out, "foo bar\nfoobaz\n");
}

#[test]
fn normal_mode_two_sources_prefixes_names() {
    let out = search_sources(&opts(), "foo", &vec![three_lines("a.txt"), three_lines("b.txt")]).unwrap();
    assert_eq!(out, "a.txt:foo bar\na.txt:foobaz\nb.txt:foo bar\nb.txt:foobaz\n");
}

#[test]
fn inverted_match_emits_only_baz() {
    let mut o = opts();
    o.invert_match = true;
    let out = search_sources(&o, "foo", &vec![three_lines("-")]).unwrap();
    assert_eq!(out, "baz\n");
}

#[test]
fn count_mode_two_sources_in_given_order() {
    let mut o = opts();
    o.count_hits_per_file = true;
    let a = source("a.txt", &["foo", "bar"]);
    let b = source("b.txt", &["baz", "xfoo"]);
    let out = search_sources(&o, "foo", &vec![a, b]).unwrap();
    assert_eq!(out, "a.txt:1\nb.txt:1\n");
}

#[test]
fn count_mode_order_is_not_sorted() {
    let mut o = opts();
    o.count_hits_per_file = true;
    let z = source("z.txt", &["foo", "foo", "no"]);
    let a = source("a.txt", &[]);
    let out = search_sources(&o, "foo", &vec![z, a]).unwrap();
    assert_eq!(out, "z.txt:2\na.txt:0\n");
}

#[test]
fn count_mode_counts_inverted_hits() {
    let mut o = opts();
    o.count_hits_per_file = true;
    o.invert_match = true;
    let out = search_sources(&o, "foo", &vec![three_lines("a.txt")]).unwrap();
    assert_eq!(out, "a.txt:1\n");
}

#[test]
fn count_mode_multi_digit_count() {
    let mut o = opts();
    o.count_hits_per_file = true;
    let lines: Vec<&str> = (0..12).map(|_| "foo").collect();
    let out = search_sources(&o, "foo", &vec![source("a", &lines)]).unwrap();
    assert_eq!(out, "a:12\n");
}

#[test]
fn files_with_and_without_match_partition_sources() {
    let srcs = || vec![three_lines("a.txt"), source("b.txt", &["nothing", "here"]), source("c.txt", &[])];
    let mut with = opts();
    with.print_matching_files = true;
    let mut without = opts();
    without.print_non_matching_files = true;
    assert_eq!(search_sources(&with, "foo", &srcs()).unwrap(), "a.txt\n");
    assert_eq!(search_sources(&without, "foo", &srcs()).unwrap(), "b.txt\nc.txt\n");
}

#[test]
fn files_with_match_stops_after_first_hit() {
    let plan = Plan { mode: Mode::FilesWithMatch, invert: false, print_file_path: false, print_line: false };
    let mut s = Search::new(plan, Matcher::new("foo").unwrap());
    s.begin_source("a.txt");
    assert!(s.feed_line("one"));
    assert!(!s.feed_line("foo two"));
    assert_eq!(s.finish(), "a.txt\n");
}

#[test]
fn count_mode_reads_every_line() {
    let plan = Plan { mode: Mode::Count, invert: false, print_file_path: false, print_line: false };
    let mut s = Search::new(plan, Matcher::new("foo").unwrap());
    s.begin_source("a.txt");
    assert!(s.feed_line("one"));
    assert!(s.feed_line("foo two"));
    assert!(s.feed_line("three"));
    assert!(s.feed_line("foo five"));
    assert_eq!(s.finish(), "a.txt:2\n");
}

#[test]
fn record_line_uses_given_result() {
    let plan = Plan { mode: Mode::Normal, invert: false, print_file_path: true, print_line: true };
    let mut s = Search::new(plan, Matcher::new("foo").unwrap());
    s.begin_source("f");
    assert!(s.record_line("anything", true));
    assert!(s.record_line("foo", false));
    assert_eq!(s.take_output(), "f:1:anything\n");
    assert_eq!(s.take_output(), "");
}

#[test]
fn line_numbers_in_normal_output() {
    let mut o = opts();
    o.print_line_number = true;
    let out = search_sources(&o, "foo", &vec![three_lines("-")]).unwrap();
    assert_eq!(out, "1:foo bar\n3:foobaz\n");
}

#[test]
fn forced_file_names() {
    let mut o = opts();
    o.force_print_filename = true;
    let out = search_sources(&o, "baz", &vec![three_lines("a.txt")]).unwrap();
    assert_eq!(out, "a.txt:baz\na.txt:foobaz\n");
    let mut o = opts();
    o.force_no_print_filename = true;
    let out = search_sources(&o, "baz", &vec![three_lines("a.txt"), three_lines("b.txt")]).unwrap();
    assert_eq!(out, "baz\nfoobaz\nbaz\nfoobaz\n");
}

#[test]
fn glob_wildcards_match_within_lines() {
    let out = search_sources(&opts(), "f?o*z", &vec![three_lines("-")]).unwrap();
    assert_eq!(out, "foobaz\n");
    let m = Matcher::new("b[aeiou]r").unwrap();
    assert!(m.matches_partially("a bar here"));
    assert!(!m.matches_partially("a brr here"));
    assert!(!Matcher::new("xyz").unwrap().matches_partially("xy z"));
}

#[test]
fn empty_pattern_matches_every_line() {
    let out = search_sources(&opts(), "", &vec![source("-", &["", "x"])]).unwrap();
    assert_eq!(out, "\nx\n");
}

#[test]
fn idempotent_runs() {
    let plan = Plan { mode: Mode::Normal, invert: false, print_file_path: true, print_line: true };
    let srcs = vec![three_lines("a.txt"), three_lines("b.txt")];
    let first = run(plan, Matcher::new("foo").unwrap(), &srcs);
    let second = run(plan, Matcher::new("foo").unwrap(), &srcs);
    assert_eq!(first, second);
}

#[test]
fn bad_pattern_is_rejected() {
    assert!(Matcher::new("abc[def").is_err());
    let r = search_sources(&opts(), "a**b", &vec![three_lines("-")]);
    assert!(matches!(r, Err(ConfigError::PatternCompile(_))));
}

#[test]
fn conflicting_filename_options() {
    let mut o = opts();
    o.force_print_filename = true;
    o.force_no_print_filename = true;
    assert!(matches!(select_plan(&o, 1), Err(ConfigError::ConflictingFilenameOptions)));
    assert!(matches!(search_sources(&o, "foo", &vec![]), Err(ConfigError::ConflictingFilenameOptions)));
}

#[test]
fn conflicting_mode_options() {
    let mut o = opts();
    o.print_matching_files = true;
    o.count_hits_per_file = true;
    assert!(matches!(select_plan(&o, 1), Err(ConfigError::ConflictingModeOptions)));
    let mut o = opts();
    o.print_matching_files = true;
    o.print_non_matching_files = true;
    assert!(matches!(select_plan(&o, 1), Err(ConfigError::ConflictingModeOptions)));
}

#[test]
fn plan_selection() {
    let p = select_plan(&opts(), 2).unwrap();
    assert_eq!(p, Plan { mode: Mode::Normal, invert: false, print_file_path: true, print_line: false });
    let p = select_plan(&opts(), 1).unwrap();
    assert!(!p.print_file_path);
    let mut o = opts();
    o.print_non_matching_files = true;
    o.invert_match = true;
    let p = select_plan(&o, 1).unwrap();
    assert_eq!(p.mode, Mode::FilesWithoutMatch);
    assert!(p.invert);
    assert!(!p.skips_after_first_hit());
}

#[test]
fn no_files_means_standard_input() {
    assert_eq!(normalize_sources(vec![]), vec!["-".to_string()]);
    let files = vec!["a".to_string(), "b".to_string()];
    assert_eq!(normalize_sources(files.clone()), files);
}

#[test]
fn begin_source_once_per_source() {
    let plan = Plan { mode: Mode::Count, invert: false, print_file_path: false, print_line: false };
    let srcs = vec![source("a", &[]), source("b", &["x"]), source("a", &["foo"])];
    let out = run(plan, Matcher::new("foo").unwrap(), &srcs);
    assert_eq!(out, "a:0\nb:0\na:1\n");
}

#[test]
fn printer_field_switches() {
    let mut p = HitPrinter::new(true, true, true);
    p.handle_hit("f.txt", 42, "text");
    assert_eq!(p.take_output(), "f.txt:42:text\n");
    let mut p = HitPrinter::new(false, true, false);
    p.start_new_file("f.txt");
    p.handle_hit("f.txt", 7, "text");
    assert_eq!(p.take_output(), "7\n");
    let mut p = HitPrinter::new(false, false, false);
    p.handle_hit("f.txt", 7, "text");
    assert_eq!(p.take_output(), "\n");
    let mut p = HitPrinter::new(true, false, true);
    p.handle_hit("f", 0, "");
    assert_eq!(p.take_output(), "f:\n");
}

#[test]
fn counter_tallies_in_begun_order() {
    let mut c = HitCounter::new();
    assert_eq!(c.len(), 0);
    c.start_new_file("z");
    c.handle_hit("z", 1, "x");
    c.handle_hit("z", 2, "x");
    c.start_new_file("a");
    c.start_new_file("m");
    c.handle_hit("m", 4, "x");
    assert_eq!(c.len(), 3);
    let mut it = c.iter();
    assert_eq!(it.next(), Some(("z", 2)));
    assert_eq!(it.next(), Some(("a", 0)));
    assert_eq!(it.next(), Some(("m", 1)));
    assert_eq!(it.next(), None);
    assert_eq!(it.next(), None);
}

#[test]
fn files_with_match_tests_no_line_after_first_hit() {
    let plan = Plan { mode: Mode::FilesWithMatch, invert: false, print_file_path: false, print_line: false };
    let mut s = Search::new(plan, Matcher::new("foo").unwrap());
    s.begin_source("a.txt");
    let lines = ["one", "foo", "three", "four", "foo"];
    let mut tested = 0;
    for line in lines.iter() {
        tested += 1;
        if !s.feed_line(line) {
            break;
        }
    }
    assert_eq!(tested, 2);
    assert_eq!(s.finish(), "a.txt\n");
}
