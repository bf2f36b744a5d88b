use crate::config::Config;
use crate::matcher::contains_at;
use crate::matcher::lemma_literal_ranges_wf;
use crate::matcher::literal_contains;
use crate::matcher::spec_match_ranges;
use crate::matcher::spec_matches;
use crate::matcher::wf_ranges;
use crate::text::num_to_string;
use crate::text::spec_digits;
use crate::text::views_of;
use vstd::prelude::*;
use vstd::string::StrSliceExecFns;
use vstd::string::StringExecFns;

verus! {

/// Everything the per-line decision depends on: the matcher's pattern and
/// case mode, the invert and prefix flags, and whether highlighting is active
/// for this run.
pub struct ScanParams {
    pub pattern: Seq<char>,
    pub case_insensitive: bool,
    pub invert: bool,
    pub show_filenames: bool,
    pub show_line_numbers: bool,
    pub use_color: bool,
}

/// The scan parameters a configuration resolves to, once the run has decided
/// whether highlighting is active.
pub open spec fn params_of(c: Config, use_color: bool) -> ScanParams {
    ScanParams {
        pattern: c.matcher.pattern(),
        case_insensitive: c.matcher.is_ci(),
        invert: c.invert_match,
        show_filenames: c.show_filenames,
        show_line_numbers: c.show_line_numbers,
        use_color,
    }
}

/// A line is printed when it matches, or, under inversion, when it does not.
pub open spec fn spec_should_print(is_match: bool, invert: bool) -> bool {
    if invert {
        !is_match
    } else {
        is_match
    }
}

/// The escape code that opens a red highlight.
pub open spec fn red_prefix() -> Seq<char> {
    "\u{1b}[31m"@
}

/// The escape code that closes a highlight.
pub open spec fn red_suffix() -> Seq<char> {
    "\u{1b}[0m"@
}

/// The line with every given match range wrapped in the highlight escape
/// codes and everything between the ranges unchanged, from position `pos` on.
pub open spec fn spec_highlight_from(line: Seq<char>, rs: Seq<(usize, usize)>, pos: int) -> Seq<
    char,
>
    decreases rs.len(),
{
    if rs.len() == 0 {
        line.subrange(pos, line.len() as int)
    } else {
        line.subrange(pos, rs[0].0 as int) + red_prefix() + line.subrange(
            rs[0].0 as int,
            rs[0].1 as int,
        ) + red_suffix() + spec_highlight_from(line, rs.drop_first(), rs[0].1 as int)
    }
}

/// The line with every match range wrapped in the highlight escape codes.
pub open spec fn spec_highlight(line: Seq<char>, rs: Seq<(usize, usize)>) -> Seq<char> {
    spec_highlight_from(line, rs, 0)
}

/// What is shown for a printed line: highlighted only when highlighting is
/// active, the line matches, and the match is not inverted; otherwise the
/// line itself.
pub open spec fn spec_display_line(p: ScanParams, line: Seq<char>) -> Seq<char> {
    if p.use_color && spec_matches(p.pattern, p.case_insensitive, line) && !p.invert {
        spec_highlight(line, spec_match_ranges(p.pattern, p.case_insensitive, line))
    } else {
        line
    }
}

/// The optional prefix: the file path, the 1-based line number, or both
/// joined by a colon.
pub open spec fn spec_prefix(
    show_filenames: bool,
    show_line_numbers: bool,
    path: Seq<char>,
    line_number: nat,
) -> Option<Seq<char>> {
    if show_filenames && show_line_numbers {
        Some(path + ":"@ + spec_digits(line_number))
    } else if show_filenames {
        Some(path)
    } else if show_line_numbers {
        Some(spec_digits(line_number))
    } else {
        None
    }
}

/// The output for one line: nothing when the line is skipped, else the
/// display line behind its prefix, if any.
pub open spec fn spec_output_line(
    p: ScanParams,
    path: Seq<char>,
    line_number: nat,
    line: Seq<char>,
) -> Option<Seq<char>> {
    if spec_should_print(spec_matches(p.pattern, p.case_insensitive, line), p.invert) {
        match spec_prefix(p.show_filenames, p.show_line_numbers, path, line_number) {
            Some(pre) => Some(pre + ": "@ + spec_display_line(p, line)),
            None => Some(spec_display_line(p, line)),
        }
    } else {
        None
    }
}

/// The output lines for one file: each printed line's output, in line order,
/// with lines numbered from one.
pub open spec fn spec_scan(p: ScanParams, path: Seq<char>, lines: Seq<Seq<char>>) -> Seq<
    Seq<char>,
>
    decreases lines.len(),
{
    if lines.len() == 0 {
        Seq::empty()
    } else {
        spec_scan(p, path, lines.drop_last()) + match spec_output_line(
            p,
            path,
            lines.len() as nat,
            lines.last(),
        ) {
            Some(o) => seq![o],
            None => Seq::empty(),
        }
    }
}

/// Wraps each of the given ranges of the line in the highlight escape codes,
/// leaving the rest of the line unchanged.
pub fn highlight_line(line: &str, ranges: &Vec<(usize, usize)>) -> (r: String)
    requires
        wf_ranges(ranges@, line@.len()),
    ensures
        r@ == spec_highlight(line@, ranges@),
{
    let len = line.unicode_len();
    let mut out = String::new();
    let mut pos: usize = 0;
    let mut k: usize = 0;
    proof {
        assert(ranges@.skip(0) =~= ranges@);
        assert(out@ + spec_highlight_from(line@, ranges@, 0) =~= spec_highlight_from(
            line@,
            ranges@,
            0,
        ));
    }
    while k < ranges.len()
        invariant
            0 <= k <= ranges@.len(),
            wf_ranges(ranges@, line@.len()),
            len == line@.len(),
            pos <= len,
            k < ranges@.len() ==> pos <= ranges@[k as int].0,
            out@ + spec_highlight_from(line@, ranges@.skip(k as int), pos as int)
                == spec_highlight(line@, ranges@),
        decreases ranges@.len() - k,
    {
        let (s, e) = ranges[k];
        let ghost tail = ranges@.skip(k as int);
        proof {
            assert(ranges@[k as int].0 <= ranges@[k as int].1 && ranges@[k as int].1
                <= line@.len());
            if k as int + 1 < ranges@.len() {
                assert(ranges@[k as int].1 <= ranges@[k as int + 1].0);
            }
        }
        out.append(line.substring_char(pos, s));
        out.append("\u{1b}[31m");
        out.append(line.substring_char(s, e));
        out.append("\u{1b}[0m");
        proof {
            assert(tail[0] == ranges@[k as int]);
            assert(tail.drop_first() =~= ranges@.skip(k as int + 1));
            assert(spec_highlight_from(line@, tail, pos as int) == line@.subrange(
                pos as int,
                s as int,
            ) + red_prefix() + line@.subrange(s as int, e as int) + red_suffix()
                + spec_highlight_from(line@, ranges@.skip(k as int + 1), e as int));
        }
        pos = e;
        k = k + 1;
    }
    proof {
        assert(ranges@.skip(ranges@.len() as int) =~= Seq::<(usize, usize)>::empty());
    }
    out.append(line.substring_char(pos, len));
    out
}

/// Composes the optional `path`/`line number` prefix for a printed line.
pub fn build_prefix(config: &Config, path: &str, line_number: usize) -> (r: Option<String>)
    ensures
        ({
            let sp = spec_prefix(
                config.show_filenames,
                config.show_line_numbers,
                path@,
                line_number as nat,
            );
            match r {
                Some(s) => sp == Some(s@),
                None => sp is None,
            }
        }),
{
    if config.show_filenames && config.show_line_numbers {
        let mut s = path.to_owned();
        s.append(":");
        let num = num_to_string(line_number);
        s.append(num.as_str());
        Some(s)
    } else if config.show_filenames {
        Some(path.to_owned())
    } else if config.show_line_numbers {
        Some(num_to_string(line_number))
    } else {
        None
    }
}

/// Decides one line: tests it against the matcher, applies inversion, and,
/// when the line is printed, composes the prefixed (and possibly highlighted)
/// output line.
pub fn process_line(
    config: &Config,
    use_color: bool,
    path: &str,
    line_number: usize,
    line: &str,
) -> (r: Option<String>)
    ensures
        ({
            let so = spec_output_line(
                params_of(*config, use_color),
                path@,
                line_number as nat,
                line@,
            );
            match r {
                Some(s) => so == Some(s@),
                None => so is None,
            }
        }),
{
    let is_match = config.matcher.is_match(line);
    let should_print = if config.invert_match {
        !is_match
    } else {
        is_match
    };
    if !should_print {
        return None;
    }
    let display: String = if use_color && is_match && !config.invert_match {
        let ranges = config.matcher.match_ranges(line);
        // The length is taken only to witness that the line fits in a machine
        // word, which the well-formedness proof of the literal ranges needs.
        let _line_len = line.unicode_len();
        proof {
            if !config.matcher.is_ci() {
                lemma_literal_ranges_wf(config.matcher.pattern(), line@);
            }
        }
        highlight_line(line, &ranges)
    } else {
        line.to_owned()
    };
    match build_prefix(config, path, line_number) {
        Some(prefix) => {
            let mut s = prefix;
            s.append(": ");
            s.append(display.as_str());
            Some(s)
        },
        None => Some(display),
    }
}

/// Scans one file's lines in order and returns the printed output lines.
pub fn scan_file(config: &Config, use_color: bool, path: &str, lines: &Vec<String>) -> (r: Vec<
    String,
>)
    requires
        lines@.len() < usize::MAX,
    ensures
        views_of(r@) == spec_scan(params_of(*config, use_color), path@, views_of(lines@)),
{
    let ghost p = params_of(*config, use_color);
    let ghost lv = views_of(lines@);
    let mut out: Vec<String> = Vec::new();
    proof {
        assert(views_of(out@) =~= Seq::<Seq<char>>::empty());
        assert(lv.take(0) =~= Seq::<Seq<char>>::empty());
    }
    let mut i: usize = 0;
    while i < lines.len()
        invariant
            0 <= i <= lines@.len(),
            lines@.len() < usize::MAX,
            lv == views_of(lines@),
            lv.len() == lines@.len(),
            p == params_of(*config, use_color),
            views_of(out@) == spec_scan(p, path@, lv.take(i as int)),
        decreases lines@.len() - i,
    {
        let ghost prev = views_of(out@);
        let result = process_line(config, use_color, path, i + 1, lines[i].as_str());
        proof {
            assert(lv.take(i as int + 1).drop_last() =~= lv.take(i as int));
            assert(lv.take(i as int + 1).last() == lines@[i as int]@);
            assert(lv.take(i as int + 1).len() == i + 1);
        }
        match result {
            Some(s) => {
                out.push(s);
                proof {
                    assert(views_of(out@) =~= prev.push(out@.last()@));
                    assert(views_of(out@) =~= spec_scan(p, path@, lv.take(i as int + 1)));
                }
            },
            None => {
                proof {
                    assert(views_of(out@) =~= spec_scan(p, path@, lv.take(i as int + 1)));
                }
            },
        }
        i = i + 1;
    }
    proof {
        assert(lv.take(lines@.len() as int) =~= lv);
    }
    out
}

/// A pattern is matched as literal text: without case folding, a one-character
/// pattern matches exactly the lines in which that character itself occurs —
/// a `.` stands for a period, never for "any character".
pub proof fn lemma_single_char_pattern_is_literal(line: Seq<char>, c: char)
    ensures
        literal_contains(line, seq![c]) <==> exists|i: int| 0 <= i < line.len() && line[i] == c,
{
    if literal_contains(line, seq![c]) {
        let i = choose|i: int| contains_at(line, seq![c], i);
        assert(line.subrange(i, i + 1)[0] == line[i]);
        assert(0 <= i < line.len() && line[i] == c);
    }
    if exists|i: int| 0 <= i < line.len() && line[i] == c {
        let i = choose|i: int| 0 <= i < line.len() && line[i] == c;
        assert(line.subrange(i, i + 1) =~= seq![c]);
        assert(contains_at(line, seq![c], i));
    }
}

/// Scanning is repeatable: the output of a scan is a function of the
/// configuration, the highlight capability, the path, and the file's lines
/// alone, so two runs with identical arguments over unchanged files produce
/// identical output.
pub proof fn lemma_scan_repeatable(
    p: ScanParams,
    path: Seq<char>,
    lines: Seq<Seq<char>>,
    out1: Seq<Seq<char>>,
    out2: Seq<Seq<char>>,
)
    requires
        out1 == spec_scan(p, path, lines),
        out2 == spec_scan(p, path, lines),
    ensures
        out1 == out2,
{
}

/// An inverted and a non-inverted run with the same pattern partition a
/// file's lines: each line is printed in exactly one of the two runs.
pub proof fn lemma_invert_match_partitions(
    plain: ScanParams,
    inverted: ScanParams,
    path: Seq<char>,
    line_number: nat,
    line: Seq<char>,
)
    requires
        plain.pattern == inverted.pattern,
        plain.case_insensitive == inverted.case_insensitive,
        !plain.invert,
        inverted.invert,
    ensures
        (spec_output_line(plain, path, line_number, line) is Some) <==> !(spec_output_line(
            inverted,
            path,
            line_number,
            line,
        ) is Some),
{
}

/// Over a whole file, the inverted and the non-inverted run together print
/// exactly as many lines as the file has: each line goes to one run or the
/// other, never to both and never to neither.
pub proof fn lemma_invert_scan_covers_file(
    plain: ScanParams,
    inverted: ScanParams,
    path: Seq<char>,
    lines: Seq<Seq<char>>,
)
    requires
        plain.pattern == inverted.pattern,
        plain.case_insensitive == inverted.case_insensitive,
        !plain.invert,
        inverted.invert,
    ensures
        spec_scan(plain, path, lines).len() + spec_scan(inverted, path, lines).len()
            == lines.len(),
    decreases lines.len(),
{
    if lines.len() > 0 {
        lemma_invert_scan_covers_file(plain, inverted, path, lines.drop_last());
        lemma_invert_match_partitions(plain, inverted, path, lines.len() as nat, lines.last());
    }
}

} // verus!
