mod config;
mod matcher;
mod scan;
mod targets;
mod text;

pub use config::init_state;
pub use config::is_help_arg;
pub use config::scan_args;
pub use config::spec_parse;
pub use config::step_state;
pub use config::usage_lines;
pub use config::ArgScan;
pub use config::ArgState;
pub use config::Config;
pub use config::ParseError;
pub use config::ParseOutcome;
pub use config::SpecParsed;
pub use matcher::ci_line_matches;
pub use matcher::ci_match_ranges;
pub use matcher::colors_enabled;
pub use matcher::contains_at;
pub use matcher::empty_pattern_ranges;
pub use matcher::literal_contains;
pub use matcher::literal_ranges;
pub use matcher::literal_ranges_from;
pub use matcher::spec_match_ranges;
pub use matcher::spec_matches;
pub use matcher::wf_ranges;
pub use matcher::Matcher;
pub use scan::build_prefix;
pub use scan::highlight_line;
pub use scan::lemma_invert_match_partitions;
pub use scan::lemma_invert_scan_covers_file;
pub use scan::lemma_scan_repeatable;
pub use scan::lemma_single_char_pattern_is_literal;
pub use scan::params_of;
pub use scan::process_line;
pub use scan::red_prefix;
pub use scan::red_suffix;
pub use scan::scan_file;
pub use scan::spec_display_line;
pub use scan::spec_highlight;
pub use scan::spec_highlight_from;
pub use scan::spec_output_line;
pub use scan::spec_prefix;
pub use scan::spec_scan;
pub use scan::spec_should_print;
pub use scan::ScanParams;
pub use targets::collect_targets;
pub use targets::lemma_dirs_without_recursive_yield_nothing;
pub use targets::probe_targets;
pub use targets::spec_collect;
pub use targets::PathKind;
pub use targets::TargetProbe;
pub use text::num_to_string;
pub use text::spec_digits;
pub use text::str_eq;
pub use text::views_of;
