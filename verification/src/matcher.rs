use vstd::prelude::*;

verus! {

/// The pattern occurs in the line starting at character position `i`.
pub open spec fn contains_at(line: Seq<char>, pattern: Seq<char>, i: int) -> bool {
    &&& 0 <= i
    &&& i + pattern.len() <= line.len()
    &&& line.subrange(i, i + pattern.len() as int) == pattern
}

/// The pattern occurs somewhere in the line, as a literal substring.
pub open spec fn literal_contains(line: Seq<char>, pattern: Seq<char>) -> bool {
    exists|i: int| contains_at(line, pattern, i)
}

/// Whether a case-insensitive matcher built from the literal pattern matches
/// the line. Case-insensitive comparison folds characters by Unicode rules,
/// which this library does not restate; the result depends on the two
/// character sequences alone.
pub uninterp spec fn ci_line_matches(pattern: Seq<char>, line: Seq<char>) -> bool;

/// The successive non-overlapping match ranges, in character positions, that a
/// case-insensitive matcher built from the literal pattern finds in the line.
pub uninterp spec fn ci_match_ranges(pattern: Seq<char>, line: Seq<char>) -> Seq<(usize, usize)>;

/// Whether the matcher for the given pattern and case mode matches the line.
pub open spec fn spec_matches(pattern: Seq<char>, case_insensitive: bool, line: Seq<char>) -> bool {
    if case_insensitive {
        ci_line_matches(pattern, line)
    } else {
        literal_contains(line, pattern)
    }
}

/// The greedy left-to-right decomposition of the line into non-overlapping
/// occurrences of a nonempty pattern: at each position, either the pattern
/// occurs there and the scan resumes after it, or the scan moves on one
/// character.
pub open spec fn literal_ranges_from(pattern: Seq<char>, line: Seq<char>, from: int) -> Seq<
    (usize, usize),
>
    decreases line.len() - from,
    when 0 <= from && pattern.len() > 0
{
    if from + pattern.len() > line.len() {
        Seq::empty()
    } else if contains_at(line, pattern, from) {
        seq![((from as usize), ((from + pattern.len()) as usize))] + literal_ranges_from(
            pattern,
            line,
            from + pattern.len() as int,
        )
    } else {
        literal_ranges_from(pattern, line, from + 1)
    }
}

/// An empty pattern matches the empty string at every character boundary.
pub open spec fn empty_pattern_ranges(len: nat) -> Seq<(usize, usize)> {
    Seq::new(len + 1, |i: int| ((i as usize), (i as usize)))
}

/// The non-overlapping leftmost occurrence ranges of the literal pattern.
pub open spec fn literal_ranges(pattern: Seq<char>, line: Seq<char>) -> Seq<(usize, usize)> {
    if pattern.len() == 0 {
        empty_pattern_ranges(line.len())
    } else {
        literal_ranges_from(pattern, line, 0)
    }
}

/// The match ranges for the given pattern and case mode.
pub open spec fn spec_match_ranges(
    pattern: Seq<char>,
    case_insensitive: bool,
    line: Seq<char>,
) -> Seq<(usize, usize)> {
    if case_insensitive {
        ci_match_ranges(pattern, line)
    } else {
        literal_ranges(pattern, line)
    }
}

/// Ranges are in bounds, ordered left to right, and non-overlapping.
pub open spec fn wf_ranges(rs: Seq<(usize, usize)>, len: nat) -> bool {
    &&& forall|i: int| 0 <= i < rs.len() ==> #[trigger] rs[i].0 <= rs[i].1 && rs[i].1 <= len
    &&& forall|i: int| 0 <= i && i + 1 < rs.len() ==> #[trigger] rs[i].1 <= rs[i + 1].0
}

/// The greedy decomposition places every range after `from`, within the
/// line, of the pattern's length, and in left-to-right non-overlapping order.
proof fn lemma_literal_ranges_from_wf(pattern: Seq<char>, line: Seq<char>, from: int)
    requires
        0 <= from,
        pattern.len() > 0,
        line.len() <= usize::MAX,
    ensures
        wf_ranges(literal_ranges_from(pattern, line, from), line.len()),
        forall|i: int|
            0 <= i < literal_ranges_from(pattern, line, from).len() ==> from <= #[trigger] literal_ranges_from(
                pattern,
                line,
                from,
            )[i].0,
    decreases line.len() - from,
{
    let rs = literal_ranges_from(pattern, line, from);
    if from + pattern.len() > line.len() {
        assert(rs.len() == 0);
    } else if contains_at(line, pattern, from) {
        let next = from + pattern.len() as int;
        lemma_literal_ranges_from_wf(pattern, line, next);
        let tail = literal_ranges_from(pattern, line, next);
        let head = ((from as usize), (next as usize));
        assert(rs == seq![head] + tail);
        assert forall|i: int| 0 <= i < rs.len() implies from <= #[trigger] rs[i].0 && rs[i].0
            <= rs[i].1 && rs[i].1 <= line.len() by {
            if i == 0 {
                assert(rs[0] == head);
            } else {
                assert(rs[i] == tail[i - 1]);
            }
        }
        assert forall|i: int| 0 <= i && i + 1 < rs.len() implies #[trigger] rs[i].1 <= rs[i
            + 1].0 by {
            if i == 0 {
                assert(rs[0] == head);
                assert(rs[1] == tail[0]);
            } else {
                assert(rs[i] == tail[i - 1]);
                assert(rs[i + 1] == tail[i]);
            }
        }
    } else {
        lemma_literal_ranges_from_wf(pattern, line, from + 1);
    }
}

/// The occurrence ranges of a literal pattern are in bounds, ordered left to
/// right, and non-overlapping.
pub proof fn lemma_literal_ranges_wf(pattern: Seq<char>, line: Seq<char>)
    requires
        line.len() <= usize::MAX,
    ensures
        wf_ranges(literal_ranges(pattern, line), line.len()),
{
    if pattern.len() == 0 {
        let rs = empty_pattern_ranges(line.len());
        assert forall|i: int| 0 <= i < rs.len() implies #[trigger] rs[i].0 <= rs[i].1 && rs[i].1
            <= line.len() by {
            assert(rs[i] == ((i as usize), (i as usize)));
        }
        assert forall|i: int| 0 <= i && i + 1 < rs.len() implies #[trigger] rs[i].1 <= rs[i
            + 1].0 by {
            assert(rs[i] == ((i as usize), (i as usize)));
            assert(rs[i + 1] == (((i + 1) as usize), ((i + 1) as usize)));
        }
    } else {
        lemma_literal_ranges_from_wf(pattern, line, 0);
    }
}

/// Declares regex::Regex, the compiled matching engine, as an opaque type.
#[verifier::external_type_specification]
#[verifier::external_body]
pub struct ExRegex(regex::Regex);

/// A matcher for one literal pattern, with case sensitivity fixed when it is
/// built. The compiled engine is opaque; the pattern and the case mode it was
/// built from are kept beside it, and the trusted wrappers speak of them.
pub struct Matcher {
    engine: regex::Regex,
    pattern: String,
    case_insensitive: bool,
}

impl Matcher {
    /// The literal pattern this matcher was built from.
    pub closed spec fn pattern(&self) -> Seq<char> {
        self.pattern@
    }

    /// Whether this matcher ignores case.
    pub closed spec fn is_ci(&self) -> bool {
        self.case_insensitive
    }

    /// Relies on regex::escape and regex::RegexBuilder: every metacharacter of
    /// the pattern is escaped before compiling, so the engine matches the
    /// pattern as a literal substring, with case-insensitivity baked in at
    /// build time. Compilation of an escaped literal fails only when the
    /// engine refuses it (e.g. its compiled-size limit), so success is not
    /// promised here.
    #[verifier::external_body]
    pub(crate) fn new(pattern: &str, case_insensitive: bool) -> (r: Result<Matcher, String>)
        ensures
            r matches Ok(m) ==> m.pattern() == pattern@ && m.is_ci() == case_insensitive,
    {
        match regex::RegexBuilder::new(&regex::escape(pattern)).case_insensitive(
            case_insensitive,
        ).build() {
            Ok(engine) => Ok(
                Matcher { engine, pattern: pattern.to_owned(), case_insensitive },
            ),
            Err(e) => Err(e.to_string()),
        }
    }

    /// Relies on regex::Regex::is_match: true if and only if there is a match
    /// anywhere in the line; an escaped literal matches exactly at its literal
    /// occurrences.
    #[verifier::external_body]
    pub(crate) fn is_match(&self, line: &str) -> (r: bool)
        ensures
            r == spec_matches(self.pattern(), self.is_ci(), line@),
            self.is_ci() ==> r == ci_line_matches(self.pattern(), line@),
    {
        self.engine.is_match(line)
    }

    /// Relies on regex::Regex::find_iter: it yields the successive
    /// non-overlapping leftmost matches of the pattern in the line; the byte
    /// offsets of each match are converted to character positions.
    #[verifier::external_body]
    pub(crate) fn match_ranges(&self, line: &str) -> (r: Vec<(usize, usize)>)
        ensures
            r@ == spec_match_ranges(self.pattern(), self.is_ci(), line@),
            self.is_ci() ==> r@ == ci_match_ranges(self.pattern(), line@),
            self.is_ci() ==> wf_ranges(r@, line@.len()),
    {
        let mut v = Vec::new();
        for m in self.engine.find_iter(line) {
            v.push((line[..m.start()].chars().count(), line[..m.end()].chars().count()));
        }
        v
    }
}

/// Relies on colored's global colorize control: whether highlight escape codes
/// should be emitted at all, from the terminal and the environment. Nothing is
/// promised of the answer.
#[verifier::external_body]
pub fn colors_enabled() -> bool {
    colored::control::SHOULD_COLORIZE.should_colorize()
}

} // verus!
