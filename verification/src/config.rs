use crate::matcher::Matcher;
use crate::text::str_eq;
use crate::text::views_of;
use vstd::prelude::*;

verus! {

/// The state of the single left-to-right classification pass over the
/// arguments: the flags seen so far, whether `--` has closed option
/// recognition, the pattern token if one was assigned, and the input paths.
#[verifier::ext_equal]
pub struct ArgState {
    pub options_done: bool,
    pub case_insensitive: bool,
    pub show_line_numbers: bool,
    pub invert_match: bool,
    pub recursive: bool,
    pub show_filenames: bool,
    pub colored: bool,
    pub pattern: Option<Seq<char>>,
    pub inputs: Seq<Seq<char>>,
}

pub open spec fn init_state() -> ArgState {
    ArgState {
        options_done: false,
        case_insensitive: false,
        show_line_numbers: false,
        invert_match: false,
        recursive: false,
        show_filenames: false,
        colored: false,
        pattern: None,
        inputs: Seq::empty(),
    }
}

/// A token that halts parsing and asks for the usage text.
pub open spec fn is_help_arg(arg: Seq<char>) -> bool {
    arg == "-h"@ || arg == "--help"@
}

/// One step of the classification pass, for a token that is not a help
/// request: a recognized flag while options are open, `--` closing them, or a
/// positional token (first the pattern, then an input path).
pub open spec fn step_state(st: ArgState, arg: Seq<char>) -> ArgState {
    if !st.options_done && arg == "-i"@ {
        ArgState { case_insensitive: true, ..st }
    } else if !st.options_done && arg == "-n"@ {
        ArgState { show_line_numbers: true, ..st }
    } else if !st.options_done && arg == "-v"@ {
        ArgState { invert_match: true, ..st }
    } else if !st.options_done && arg == "-r"@ {
        ArgState { recursive: true, ..st }
    } else if !st.options_done && arg == "-f"@ {
        ArgState { show_filenames: true, ..st }
    } else if !st.options_done && arg == "-c"@ {
        ArgState { colored: true, ..st }
    } else if !st.options_done && arg == "--"@ {
        ArgState { options_done: true, ..st }
    } else if st.pattern is None {
        ArgState { pattern: Some(arg), ..st }
    } else {
        ArgState { inputs: st.inputs.push(arg), ..st }
    }
}

pub enum ArgScan {
    Help,
    Finished(ArgState),
}

/// The classification pass from position `i` onward: it short-circuits on a
/// help token while options are open, and otherwise folds `step_state` over
/// the remaining tokens.
pub open spec fn scan_args(args: Seq<Seq<char>>, i: int, st: ArgState) -> ArgScan
    decreases args.len() - i,
{
    if i < 0 || i >= args.len() {
        ArgScan::Finished(st)
    } else if !st.options_done && is_help_arg(args[i]) {
        ArgScan::Help
    } else {
        scan_args(args, i + 1, step_state(st, args[i]))
    }
}

/// What parsing decides for an argument list: one of the three usage errors,
/// the help outcome, or a resolved state with a pattern and at least one
/// input.
pub enum SpecParsed {
    MissingArguments,
    Help,
    MissingPattern,
    MissingInputs,
    Run(ArgState),
}

pub open spec fn spec_parse(args: Seq<Seq<char>>) -> SpecParsed {
    if args.len() == 0 {
        SpecParsed::MissingArguments
    } else {
        match scan_args(args, 0, init_state()) {
            ArgScan::Help => SpecParsed::Help,
            ArgScan::Finished(st) => {
                if st.pattern is None {
                    SpecParsed::MissingPattern
                } else if st.inputs.len() == 0 {
                    SpecParsed::MissingInputs
                } else {
                    SpecParsed::Run(st)
                }
            },
        }
    }
}

/// A validated configuration: the resolved flags, the input paths (at least
/// one), and the matcher compiled from the one pattern token.
pub struct Config {
    pub inputs: Vec<String>,
    pub show_line_numbers: bool,
    pub invert_match: bool,
    pub recursive: bool,
    pub show_filenames: bool,
    pub colored: bool,
    pub matcher: Matcher,
}

impl Config {
    /// The configuration carries exactly what the classification pass
    /// resolved.
    pub open spec fn resolves(&self, st: ArgState) -> bool {
        &&& views_of(self.inputs@) == st.inputs
        &&& self.show_line_numbers == st.show_line_numbers
        &&& self.invert_match == st.invert_match
        &&& self.recursive == st.recursive
        &&& self.show_filenames == st.show_filenames
        &&& self.colored == st.colored
        &&& self.matcher.is_ci() == st.case_insensitive
        &&& st.pattern matches Some(p) && self.matcher.pattern() == p
    }
}

pub enum ParseOutcome {
    Help,
    Run(Config),
}

pub enum ParseError {
    MissingArguments,
    MissingPattern,
    MissingInputs,
    BadPattern(String),
}

impl ParseError {
    /// The user-facing message for this error, exactly as it is written to
    /// standard error.
    pub fn message(&self) -> (r: String)
        ensures
            self is MissingArguments ==> r@ == "Missing arguments. Use -h for help."@,
            self is MissingPattern ==> r@ == "Missing search pattern."@,
            self is MissingInputs ==> r@ == "Missing input files."@,
            self matches ParseError::BadPattern(s) ==> r@ == s@,
    {
        match self {
            ParseError::MissingArguments => "Missing arguments. Use -h for help.".to_owned(),
            ParseError::MissingPattern => "Missing search pattern.".to_owned(),
            ParseError::MissingInputs => "Missing input files.".to_owned(),
            ParseError::BadPattern(s) => s.clone(),
        }
    }
}

/// The mirror of the parser's in-progress state in the spec model.
spec fn mk_state(
    options_done: bool,
    case_insensitive: bool,
    show_line_numbers: bool,
    invert_match: bool,
    recursive: bool,
    show_filenames: bool,
    colored: bool,
    pattern: Option<String>,
    inputs: Seq<String>,
) -> ArgState {
    ArgState {
        options_done,
        case_insensitive,
        show_line_numbers,
        invert_match,
        recursive,
        show_filenames,
        colored,
        pattern: match pattern {
            Some(p) => Some(p@),
            None => None,
        },
        inputs: views_of(inputs),
    }
}

impl Config {
    /// Resolves a raw argument list in one left-to-right pass: recognized
    /// flags may stand before or after the positional tokens, `-h`/`--help`
    /// halts parsing at once, `--` makes every later token positional, the
    /// first positional token is the pattern and the rest are input paths.
    /// Each outcome of the pass maps to exactly one result; only matcher
    /// compilation, which the engine decides, can turn a resolved state into
    /// a `BadPattern` error.
    pub fn parse(args: Vec<String>) -> (r: Result<ParseOutcome, ParseError>)
        ensures
            ({
                let sp = spec_parse(views_of(args@));
                match sp {
                    SpecParsed::MissingArguments => r matches Err(ParseError::MissingArguments),
                    SpecParsed::Help => r matches Ok(ParseOutcome::Help),
                    SpecParsed::MissingPattern => r matches Err(ParseError::MissingPattern),
                    SpecParsed::MissingInputs => r matches Err(ParseError::MissingInputs),
                    SpecParsed::Run(st) => match r {
                        Ok(o) => o matches ParseOutcome::Run(c) && c.resolves(st),
                        Err(e) => e matches ParseError::BadPattern(_),
                    },
                }
            }),
    {
        let ghost gargs = views_of(args@);
        if args.len() == 0 {
            return Err(ParseError::MissingArguments);
        }
        let mut case_insensitive = false;
        let mut show_line_numbers = false;
        let mut invert_match = false;
        let mut recursive = false;
        let mut show_filenames = false;
        let mut colored = false;
        let mut options_done = false;
        let mut pattern_opt: Option<String> = None;
        let mut inputs: Vec<String> = Vec::new();
        let mut i: usize = 0;
        proof {
            assert(mk_state(
                false,
                false,
                false,
                false,
                false,
                false,
                false,
                None,
                Seq::empty(),
            ) =~= init_state());
            assert(views_of(Seq::<String>::empty()) =~= Seq::<Seq<char>>::empty());
        }
        while i < args.len()
            invariant
                0 <= i <= args.len(),
                gargs == views_of(args@),
                gargs.len() == args@.len(),
                scan_args(gargs, 0, init_state()) == scan_args(
                    gargs,
                    i as int,
                    mk_state(
                        options_done,
                        case_insensitive,
                        show_line_numbers,
                        invert_match,
                        recursive,
                        show_filenames,
                        colored,
                        pattern_opt,
                        inputs@,
                    ),
                ),
            decreases args.len() - i,
        {
            let ghost st = mk_state(
                options_done,
                case_insensitive,
                show_line_numbers,
                invert_match,
                recursive,
                show_filenames,
                colored,
                pattern_opt,
                inputs@,
            );
            proof {
                assert(gargs[i as int] == args@[i as int]@);
            }
            let arg = &args[i];
            if !options_done && (str_eq(arg.as_str(), "-h") || str_eq(arg.as_str(), "--help")) {
                proof {
                    assert(scan_args(gargs, i as int, st) == ArgScan::Help);
                }
                return Ok(ParseOutcome::Help);
            } else if !options_done && str_eq(arg.as_str(), "-i") {
                case_insensitive = true;
            } else if !options_done && str_eq(arg.as_str(), "-n") {
                show_line_numbers = true;
            } else if !options_done && str_eq(arg.as_str(), "-v") {
                invert_match = true;
            } else if !options_done && str_eq(arg.as_str(), "-r") {
                recursive = true;
            } else if !options_done && str_eq(arg.as_str(), "-f") {
                show_filenames = true;
            } else if !options_done && str_eq(arg.as_str(), "-c") {
                colored = true;
            } else if !options_done && str_eq(arg.as_str(), "--") {
                options_done = true;
            } else if pattern_opt.is_none() {
                pattern_opt = Some(arg.clone());
            } else {
                let ghost old_inputs = inputs@;
                inputs.push(arg.clone());
                proof {
                    assert(views_of(inputs@) =~= views_of(old_inputs).push(args@[i as int]@));
                }
            }
            proof {
                let stp = step_state(st, gargs[i as int]);
                assert(mk_state(
                    options_done,
                    case_insensitive,
                    show_line_numbers,
                    invert_match,
                    recursive,
                    show_filenames,
                    colored,
                    pattern_opt,
                    inputs@,
                ) =~= stp);
                assert(scan_args(gargs, i as int, st) == scan_args(gargs, i as int + 1, stp));
            }
            i = i + 1;
        }
        let ghost st = mk_state(
            options_done,
            case_insensitive,
            show_line_numbers,
            invert_match,
            recursive,
            show_filenames,
            colored,
            pattern_opt,
            inputs@,
        );
        proof {
            assert(scan_args(gargs, i as int, st) == ArgScan::Finished(st));
        }
        let pattern = match pattern_opt {
            None => {
                return Err(ParseError::MissingPattern);
            },
            Some(p) => p,
        };
        if inputs.len() == 0 {
            return Err(ParseError::MissingInputs);
        }
        match Matcher::new(pattern.as_str(), case_insensitive) {
            Ok(matcher) => {
                let config = Config {
                    inputs,
                    show_line_numbers,
                    invert_match,
                    recursive,
                    show_filenames,
                    colored,
                    matcher,
                };
                Ok(ParseOutcome::Run(config))
            },
            Err(msg) => Err(ParseError::BadPattern(msg)),
        }
    }
}

/// The usage text, one line per entry, exactly as the help outcome prints it.
pub fn usage_lines() -> (r: Vec<String>)
    ensures
        r@.len() == 10,
        r@[0]@ == "Usage: grep [OPTIONS] <pattern> <files...>"@,
        r@[1]@ == ""@,
        r@[2]@ == "Options:"@,
        r@[3]@ == "-i                Case-insensitive search"@,
        r@[4]@ == "-n                Print line numbers"@,
        r@[5]@ == "-v                Invert match (exclude lines that match the pattern)"@,
        r@[6]@ == "-r                Recursive directory search"@,
        r@[7]@ == "-f                Print filenames"@,
        r@[8]@ == "-c                Enable colored output"@,
        r@[9]@ == "-h, --help        Show help information"@,
{
    let mut v: Vec<String> = Vec::new();
    v.push("Usage: grep [OPTIONS] <pattern> <files...>".to_owned());
    v.push("".to_owned());
    v.push("Options:".to_owned());
    v.push("-i                Case-insensitive search".to_owned());
    v.push("-n                Print line numbers".to_owned());
    v.push("-v                Invert match (exclude lines that match the pattern)".to_owned());
    v.push("-r                Recursive directory search".to_owned());
    v.push("-f                Print filenames".to_owned());
    v.push("-c                Enable colored output".to_owned());
    v.push("-h, --help        Show help information".to_owned());
    v
}

} // verus!
