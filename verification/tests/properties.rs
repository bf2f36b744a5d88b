use grep::collect_targets;
use grep::num_to_string;
use grep::process_line;
use grep::scan_file;
use grep::str_eq;
use grep::usage_lines;
use grep::Config;
use grep::ParseError;
use grep::ParseOutcome;
use grep::PathKind;
use grep::TargetProbe;

fn argv(xs: &[&str]) -> Vec<String> {
    xs.iter().map(|s| s.to_string()).collect()
}

fn parse_run(xs: &[&str]) -> Config {
    match Config::parse(argv(xs)) {
        Ok(ParseOutcome::Run(c)) => c,
        _ => panic!("expected a resolved configuration"),
    }
}

#[test]
fn missing_search_pattern_error() {
    match Config::parse(argv(&["-n"])) {
        Err(e) => {
            assert!(matches!(e, ParseError::MissingPattern));
            assert_eq!(e.message(), "Missing search pattern.");
        }
        _ => panic!("expected an error"),
    }
}

#[test]
fn missing_input_files_error() {
    match Config::parse(argv(&["pattern"])) {
        Err(e) => {
            assert!(matches!(e, ParseError::MissingInputs));
            assert_eq!(e.message(), "Missing input files.");
        }
        _ => panic!("expected an error"),
    }
}

#[test]
fn help_short_circuits_mid_sequence() {
    match Config::parse(argv(&["pattern", "file.txt", "--help"])) {
        Ok(ParseOutcome::Help) => {}
        _ => panic!("expected the help outcome"),
    }
}

#[test]
fn usage_text_lists_every_option() {
    let lines = usage_lines();
    assert_eq!(lines.len(), 10);
    assert_eq!(lines[0], "Usage: grep [OPTIONS] <pattern> <files...>");
    assert_eq!(lines[1], "");
    assert_eq!(lines[2], "Options:");
    assert_eq!(lines[3], "-i                Case-insensitive search");
    assert_eq!(lines[4], "-n                Print line numbers");
    assert_eq!(
        lines[5],
        "-v                Invert match (exclude lines that match the pattern)"
    );
    assert_eq!(lines[6], "-r                Recursive directory search");
    assert_eq!(lines[7], "-f                Print filenames");
    assert_eq!(lines[8], "-c                Enable colored output");
    assert_eq!(lines[9], "-h, --help        Show help information");
}

#[test]
fn flags_may_interleave_with_positionals() {
    let config = parse_run(&["-n", "pattern", "-v", "a.txt", "-r", "b.txt", "-f"]);
    assert!(config.show_line_numbers);
    assert!(config.invert_match);
    assert!(config.recursive);
    assert!(config.show_filenames);
    assert!(!config.colored);
    assert_eq!(config.inputs, argv(&["a.txt", "b.txt"]));
}

#[test]
fn double_dash_keeps_later_flags_positional() {
    let config = parse_run(&["--", "-v", "-n", "-r"]);
    assert!(!config.invert_match);
    assert!(!config.show_line_numbers);
    assert!(!config.recursive);
    assert_eq!(config.inputs, argv(&["-n", "-r"]));
    let lines = argv(&["has -v inside", "plain line"]);
    let out = scan_file(&config, false, "-n", &lines);
    assert_eq!(out, argv(&["has -v inside"]));
}

#[test]
fn decimal_rendering_is_exact() {
    assert_eq!(num_to_string(0), "0");
    assert_eq!(num_to_string(7), "7");
    assert_eq!(num_to_string(10), "10");
    assert_eq!(num_to_string(907), "907");
    assert_eq!(num_to_string(123456), "123456");
}

#[test]
fn line_numbers_grow_past_one_digit() {
    let config = parse_run(&["needle", "big.txt", "-n"]);
    let mut lines = argv(&[]);
    for _ in 0..11 {
        lines.push("nothing here".to_string());
    }
    lines.push("a needle at last".to_string());
    let out = scan_file(&config, false, "big.txt", &lines);
    assert_eq!(out, argv(&["12: a needle at last"]));
}

#[test]
fn string_comparison_is_exact() {
    assert!(str_eq("", ""));
    assert!(str_eq("-n", "-n"));
    assert!(!str_eq("-n", "-v"));
    assert!(!str_eq("abc", "ab"));
    assert!(!str_eq("naïve", "naive"));
}

#[test]
fn highlighting_wraps_every_occurrence() {
    let config = parse_run(&["ab", "x.txt", "-c"]);
    let out = process_line(&config, true, "x.txt", 1, "ab then ab again");
    assert_eq!(
        out,
        Some("\u{1b}[31mab\u{1b}[0m then \u{1b}[31mab\u{1b}[0m again".to_string())
    );
}

#[test]
fn highlighting_keeps_matched_case() {
    let config = parse_run(&["utility", "x.txt", "-c", "-i"]);
    let out = process_line(&config, true, "x.txt", 1, "## Search Utility");
    assert_eq!(out, Some("## Search \u{1b}[31mUtility\u{1b}[0m".to_string()));
}

#[test]
fn inverted_matches_are_never_highlighted() {
    let config = parse_run(&["ab", "x.txt", "-c", "-v"]);
    let out = process_line(&config, true, "x.txt", 1, "no match here");
    assert_eq!(out, Some("no match here".to_string()));
}

#[test]
fn empty_pattern_matches_every_line() {
    let config = parse_run(&["", "x.txt"]);
    let lines = argv(&["first", "", "third"]);
    let out = scan_file(&config, false, "x.txt", &lines);
    assert_eq!(out, argv(&["first", "", "third"]));
    let inverted = parse_run(&["-v", "", "x.txt"]);
    assert_eq!(scan_file(&inverted, false, "x.txt", &lines), argv(&[]));
}

#[test]
fn empty_pattern_highlights_every_boundary() {
    let config = parse_run(&["", "x.txt", "-c"]);
    let out = process_line(&config, true, "x.txt", 1, "ab");
    assert_eq!(
        out,
        Some("\u{1b}[31m\u{1b}[0ma\u{1b}[31m\u{1b}[0mb\u{1b}[31m\u{1b}[0m".to_string())
    );
}

#[test]
fn highlighting_counts_characters_not_bytes() {
    let config = parse_run(&["é", "x.txt", "-c"]);
    let out = process_line(&config, true, "x.txt", 1, "caféx");
    assert_eq!(out, Some("caf\u{1b}[31mé\u{1b}[0mx".to_string()));
}

#[test]
fn engine_refusal_surfaces_as_a_pattern_error() {
    let huge = "a".repeat(2_000_000);
    match Config::parse(vec![huge, "x.txt".to_string()]) {
        Err(ParseError::BadPattern(message)) => {
            assert!(!message.is_empty());
        }
        _ => panic!("expected the engine to refuse the pattern"),
    }
}

#[test]
fn case_insensitive_flag_widens_matches() {
    let config = parse_run(&["UNIX", "x.txt", "-i"]);
    let lines = argv(&["unix here", "Unix there", "nothing"]);
    let out = scan_file(&config, false, "x.txt", &lines);
    assert_eq!(out, argv(&["unix here", "Unix there"]));
}

#[test]
fn invert_and_plain_outputs_partition_the_file() {
    let plain = parse_run(&["pattern", "x.txt"]);
    let inverted = parse_run(&["pattern", "x.txt", "-v"]);
    let lines = argv(&["a pattern line", "a plain line", "patterns again", "last"]);
    let kept = scan_file(&plain, false, "x.txt", &lines);
    let dropped = scan_file(&inverted, false, "x.txt", &lines);
    assert_eq!(kept.len() + dropped.len(), lines.len());
    for line in &lines {
        let in_kept = kept.contains(line);
        let in_dropped = dropped.contains(line);
        assert!(in_kept != in_dropped);
    }
}

#[test]
fn identical_runs_give_identical_output() {
    let lines = argv(&["one pattern", "two", "three pattern"]);
    let first = scan_file(
        &parse_run(&["pattern", "x.txt", "-n", "-f"]),
        false,
        "x.txt",
        &lines,
    );
    let second = scan_file(
        &parse_run(&["pattern", "x.txt", "-n", "-f"]),
        false,
        "x.txt",
        &lines,
    );
    assert_eq!(first, second);
}

#[test]
fn missing_paths_pass_through_to_the_reader() {
    let probes = vec![
        TargetProbe {
            path: "real.txt".to_string(),
            kind: PathKind::File,
            dir_files: argv(&[]),
        },
        TargetProbe {
            path: "no-such-file.txt".to_string(),
            kind: PathKind::Missing,
            dir_files: argv(&[]),
        },
    ];
    let targets = collect_targets(&probes, false);
    assert_eq!(targets, argv(&["real.txt", "no-such-file.txt"]));
}

#[test]
fn directories_expand_only_under_recursion() {
    let probes = vec![TargetProbe {
        path: "dir".to_string(),
        kind: PathKind::Directory,
        dir_files: argv(&["dir/a.txt", "dir/sub/b.txt"]),
    }];
    assert_eq!(
        collect_targets(&probes, true),
        argv(&["dir/a.txt", "dir/sub/b.txt"])
    );
    assert_eq!(collect_targets(&probes, false), argv(&[]));
}
