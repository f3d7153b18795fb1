use catr::Config;
use catr::run;

fn lines(texts: &[&str]) -> Vec<String> {
    texts.iter().map(|t| t.to_string()).collect()
}

fn plain_config(range: Option<(usize, usize)>) -> Config {
    Config::new(vec!["-".to_string()], false, false, range)
}

fn number_config(range: Option<(usize, usize)>) -> Config {
    Config::new(vec!["-".to_string()], true, false, range)
}

fn nonblank_config(range: Option<(usize, usize)>) -> Config {
    Config::new(vec!["-".to_string()], false, true, range)
}

#[test]
fn plain_mode_passes_lines_through() {
    let cfg = plain_config(None);
    let input = lines(&["alpha", "", "beta"]);
    let out = cfg.process_flags(&input);
    assert_eq!(out, lines(&["alpha", "", "beta"]));
}

#[test]
fn plain_mode_keeps_line_count() {
    let cfg = plain_config(None);
    let input = lines(&["a", "b", "c", "d", "e"]);
    let out = cfg.process_flags(&input);
    assert_eq!(out.len(), input.len());
}

#[test]
fn number_all_mode_numbers_every_line() {
    let cfg = number_config(None);
    let input = lines(&["one", "", "three"]);
    let out = cfg.process_flags(&input);
    assert_eq!(out, lines(&["     1\tone", "     2\t", "     3\tthree"]));
}

#[test]
fn number_nonblank_example() {
    let cfg = nonblank_config(None);
    let input = lines(&["", "hello", "", "world"]);
    let out = cfg.process_flags(&input);
    assert_eq!(out, lines(&["", "     1\thello", "", "     2\tworld"]));
}

#[test]
fn number_all_with_range_example() {
    let cfg = number_config(Some((2, 3)));
    let input = lines(&["", "hello", "", "world"]);
    let out = cfg.process_flags(&input);
    assert_eq!(out, lines(&["     2\thello", "     3\t"]));
}

#[test]
fn range_keeps_true_positions() {
    let cfg = number_config(Some((3, 10)));
    let input = lines(&["a", "b", "c", "d"]);
    let out = cfg.process_flags(&input);
    assert_eq!(out, lines(&["     3\tc", "     4\td"]));
}

#[test]
fn range_count_formula() {
    let input = lines(&["a", "b", "c", "d", "e"]);
    let l: isize = 5;
    for s in 0..7usize {
        for e in 0..7usize {
            let cfg = plain_config(Some((s, e)));
            let out = cfg.process_flags(&input);
            let lo = (s as isize).max(1);
            let hi = (e as isize).min(l);
            let expected = (hi - lo + 1).max(0) as usize;
            assert_eq!(out.len(), expected);
        }
    }
}

#[test]
fn inverted_range_yields_nothing() {
    let cfg = plain_config(Some((4, 2)));
    let input = lines(&["a", "b", "c", "d", "e"]);
    let out = cfg.process_flags(&input);
    assert!(out.is_empty());
}

#[test]
fn range_beyond_end_is_quietly_short() {
    let cfg = plain_config(Some((4, 9)));
    let input = lines(&["a", "b", "c", "d", "e"]);
    let out = cfg.process_flags(&input);
    assert_eq!(out, lines(&["d", "e"]));
}

#[test]
fn nonblank_counter_skips_filtered_lines() {
    let cfg = nonblank_config(Some((2, 4)));
    let input = lines(&["first", "second", "", "fourth", "fifth"]);
    let out = cfg.process_flags(&input);
    assert_eq!(out, lines(&["     1\tsecond", "", "     2\tfourth"]));
}

#[test]
fn processing_twice_is_identical() {
    let cfg = nonblank_config(Some((1, 3)));
    let input = lines(&["x", "", "y", "z"]);
    let once = cfg.process_flags(&input);
    let twice = cfg.process_flags(&input);
    assert_eq!(once, twice);
}

#[test]
fn failed_source_is_isolated() {
    let cfg = plain_config(None);
    let sources: Vec<Option<Vec<String>>> = vec![None, Some(lines(&["a", "b", "c"]))];
    let out = run(&cfg, &sources);
    assert_eq!(out, lines(&["a", "b", "c"]));
}

#[test]
fn run_concatenates_sources_in_order() {
    let cfg = number_config(None);
    let sources: Vec<Option<Vec<String>>> =
        vec![Some(lines(&["a", "b"])), None, Some(lines(&["c"]))];
    let out = run(&cfg, &sources);
    assert_eq!(out, lines(&["     1\ta", "     2\tb", "     1\tc"]));
}

#[test]
fn nonblank_counter_resets_between_sources() {
    let cfg = nonblank_config(None);
    let sources: Vec<Option<Vec<String>>> =
        vec![Some(lines(&["a", "b"])), Some(lines(&["c"]))];
    let out = run(&cfg, &sources);
    assert_eq!(out, lines(&["     1\ta", "     2\tb", "     1\tc"]));
}

#[test]
fn empty_run_is_empty() {
    let cfg = plain_config(None);
    let sources: Vec<Option<Vec<String>>> = Vec::new();
    let out = run(&cfg, &sources);
    assert!(out.is_empty());
}
