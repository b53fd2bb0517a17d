//! The configuration-text parser: line-oriented `name = value` directives,
//! `#` comments and blank lines skipped, failing fast at the first
//! malformed or unrecognized line.

use vstd::prelude::*;
use crate::error::ErrorKind;
use crate::error::PWQError;
use crate::options::SCHEMA_VERSION;
use crate::options::apply_option;
use crate::options::spec_apply_option;
use crate::settings::SettingsModel;
use crate::settings::pwquality_settings;
use crate::text::find_char_from;
use crate::text::find_from;
use crate::text::lemma_find_from;
use crate::text::string_of_chars;
use crate::text::subvec;
use crate::text::trim;
use crate::text::trim_chars;

verus! {

/// The lines of `s` from position `i` on, separated by newlines. A final
/// newline ends the last line rather than opening an empty one.
pub open spec fn split_lines_from(s: Seq<char>, i: int) -> Seq<Seq<char>>
    decreases s.len() - i,
        when 0 <= i <= s.len()
        via split_lines_from_decreases
{
    if i >= s.len() {
        Seq::empty()
    } else {
        let e = find_from(s, '\n', i);
        seq![s.subrange(i, e)] + if e < s.len() {
            split_lines_from(s, e + 1)
        } else {
            Seq::empty()
        }
    }
}

#[via_fn]
proof fn split_lines_from_decreases(s: Seq<char>, i: int) {
    if 0 <= i < s.len() {
        lemma_find_from(s, '\n', i);
    }
}

/// What one configuration line means: nothing (blank or comment), a
/// name-value pair, or a malformed line.
pub enum LineForm {
    Skip,
    Pair(Seq<char>, Seq<char>),
    Bad,
}

/// Classifies one line: after trimming, an empty line or a `#` comment is
/// skipped; otherwise the line must hold `=` with a non-empty name before
/// it, both name and value taken trimmed.
pub open spec fn spec_line_form(line: Seq<char>) -> LineForm {
    let t = trim(line);
    if t.len() == 0 {
        LineForm::Skip
    } else if t[0] == '#' {
        LineForm::Skip
    } else {
        let e = find_from(t, '=', 0);
        if e == t.len() {
            LineForm::Bad
        } else {
            let name = trim(t.subrange(0, e));
            let value = trim(t.subrange(e + 1, t.len() as int));
            if name.len() == 0 {
                LineForm::Bad
            } else {
                LineForm::Pair(name, value)
            }
        }
    }
}

/// Processes the lines from index `i` on: skipped lines leave the store
/// alone, pairs are applied in order, and the first malformed or rejected
/// line stops parsing, reported with the store as built so far.
pub open spec fn spec_process_lines(
    s: SettingsModel,
    lines: Seq<Seq<char>>,
    i: int,
    version: u32,
) -> (SettingsModel, Option<Seq<char>>)
    decreases lines.len() - i,
        when 0 <= i <= lines.len()
{
    if i >= lines.len() {
        (s, Option::None)
    } else {
        match spec_line_form(lines[i]) {
            LineForm::Skip => spec_process_lines(s, lines, i + 1, version),
            LineForm::Bad => (s, Option::Some(lines[i])),
            LineForm::Pair(name, value) => {
                let applied = spec_apply_option(s, name, value, version);
                if applied.1 is Some {
                    (s, Option::Some(lines[i]))
                } else {
                    spec_process_lines(applied.0, lines, i + 1, version)
                }
            },
        }
    }
}

/// The outcome of parsing a whole configuration text: the new store
/// contents, and the offending line if parsing stopped early.
pub open spec fn spec_parse_config(s: SettingsModel, text: Seq<char>, version: u32) -> (
    SettingsModel,
    Option<Seq<char>>,
) {
    spec_process_lines(s, split_lines_from(text, 0), 0, version)
}

/// The newline-separated lines of `v`.
pub fn split_lines_vec(v: &Vec<char>) -> (r: Vec<Vec<char>>)
    ensures
        r.deep_view() == split_lines_from(v@, 0),
{
    let n = v.len();
    let mut r: Vec<Vec<char>> = Vec::new();
    let mut i: usize = 0;
    while i < n
        invariant
            i <= n,
            n == v@.len(),
            split_lines_from(v@, 0) == r.deep_view() + split_lines_from(v@, i as int),
        decreases n - i,
    {
        proof {
            lemma_find_from(v@, '\n', i as int);
        }
        let e = find_char_from(v, '\n', i);
        let line = subvec(v, i, e);
        let ghost prev = r.deep_view();
        r.push(line);
        proof {
            assert(r.deep_view() =~~= prev + seq![line@]);
            assert(prev + (seq![line@] + split_lines_from(v@, e + 1)) =~= (prev + seq![line@])
                + split_lines_from(v@, e + 1));
            assert(prev + (seq![line@] + Seq::<Seq<char>>::empty()) =~= prev + seq![line@]);
        }
        if e < n {
            i = e + 1;
        } else {
            i = n;
        }
    }
    proof {
        assert(r.deep_view() + split_lines_from(v@, n as int) =~= r.deep_view());
    }
    r
}

/// The classification of one line, carrying the name and value of a pair.
enum LineParse {
    Skip,
    Pair(Vec<char>, Vec<char>),
    Bad,
}

/// Classifies one configuration line.
fn line_form_vec(line: &Vec<char>) -> (r: LineParse)
    ensures
        (match r {
            LineParse::Skip => spec_line_form(line@) is Skip,
            LineParse::Bad => spec_line_form(line@) is Bad,
            LineParse::Pair(name, value) => spec_line_form(line@) == LineForm::Pair(name@, value@),
        }),
{
    let t = trim_chars(line);
    if t.len() == 0 {
        return LineParse::Skip;
    }
    if t[0] == '#' {
        return LineParse::Skip;
    }
    proof {
        lemma_find_from(t@, '=', 0);
    }
    let e = find_char_from(&t, '=', 0);
    if e == t.len() {
        return LineParse::Bad;
    }
    let name_raw = subvec(&t, 0, e);
    let value_raw = subvec(&t, e + 1, t.len());
    let name = trim_chars(&name_raw);
    let value = trim_chars(&value_raw);
    if name.len() == 0 {
        LineParse::Bad
    } else {
        LineParse::Pair(name, value)
    }
}

/// Parses a whole configuration text into the store: comments and blank
/// lines are skipped, each remaining line must be a recognized
/// `name = value` directive, and the first offending line stops parsing
/// with its text attached, leaving the directives before it applied.
pub fn parse_config_chars(s: &mut pwquality_settings, text: &Vec<char>) -> (r: Result<
    (),
    PWQError,
>)
    ensures
        final(s)@ == spec_parse_config(old(s)@, text@, SCHEMA_VERSION).0,
        (match r {
            Result::Ok(()) => spec_parse_config(old(s)@, text@, SCHEMA_VERSION).1 is None,
            Result::Err(e) => {
                &&& spec_parse_config(old(s)@, text@, SCHEMA_VERSION).1 matches Some(l)
                &&& e.kind == ErrorKind::CfgFileMalformed
                &&& e.aux matches Some(a) && (a@ == l)
            },
        }),
{
    let lines = split_lines_vec(text);
    let ghost all = split_lines_from(text@, 0);
    let n = lines.len();
    let mut i: usize = 0;
    while i < n
        invariant
            i <= n,
            n == lines@.len(),
            lines.deep_view() == all,
            all == split_lines_from(text@, 0),
            spec_process_lines(old(s)@, all, 0, SCHEMA_VERSION) == spec_process_lines(
                s@,
                all,
                i as int,
                SCHEMA_VERSION,
            ),
        decreases n - i,
    {
        let line = &lines[i];
        proof {
            assert(line@ =~= all[i as int]);
        }
        match line_form_vec(line) {
            LineParse::Skip => {},
            LineParse::Bad => {
                return Err(
                    PWQError::with_aux(ErrorKind::CfgFileMalformed, string_of_chars(line)),
                );
            },
            LineParse::Pair(name, value) => {
                match apply_option(s, &name, &value) {
                    Result::Ok(()) => {},
                    Result::Err(_) => {
                        return Err(
                            PWQError::with_aux(ErrorKind::CfgFileMalformed, string_of_chars(line)),
                        );
                    },
                }
            },
        }
        i = i + 1;
    }
    Ok(())
}

/// Parsing a text whose lines are all blank or comments leaves every
/// option exactly as it was.
pub proof fn lemma_comments_only_config(s: SettingsModel, text: Seq<char>, version: u32)
    requires
        forall|i: int|
            0 <= i < split_lines_from(text, 0).len() ==> spec_line_form(
                #[trigger] split_lines_from(text, 0)[i],
            ) is Skip,
    ensures
        spec_parse_config(s, text, version) == (s, Option::<Seq<char>>::None),
{
    lemma_skip_lines_unchanged(s, split_lines_from(text, 0), 0, version);
}

/// Processing lines that are all skipped changes nothing.
proof fn lemma_skip_lines_unchanged(
    s: SettingsModel,
    lines: Seq<Seq<char>>,
    i: int,
    version: u32,
)
    requires
        0 <= i <= lines.len(),
        forall|j: int| i <= j < lines.len() ==> spec_line_form(#[trigger] lines[j]) is Skip,
    ensures
        spec_process_lines(s, lines, i, version) == (s, Option::<Seq<char>>::None),
    decreases lines.len() - i,
{
    if i < lines.len() {
        lemma_skip_lines_unchanged(s, lines, i + 1, version);
    }
}

/// When every line before line `b` is blank or a comment and line `b` is
/// malformed, parsing reports line `b` and leaves every option unchanged.
pub proof fn lemma_config_fails_on_malformed_line(
    s: SettingsModel,
    lines: Seq<Seq<char>>,
    version: u32,
    b: int,
)
    requires
        0 <= b < lines.len(),
        spec_line_form(lines[b]) is Bad,
        forall|j: int| 0 <= j < b ==> spec_line_form(#[trigger] lines[j]) is Skip,
    ensures
        spec_process_lines(s, lines, 0, version) == (s, Option::Some(lines[b])),
{
    lemma_skips_then_bad(s, lines, 0, version, b);
}

/// Helper induction for the malformed-line law.
proof fn lemma_skips_then_bad(
    s: SettingsModel,
    lines: Seq<Seq<char>>,
    i: int,
    version: u32,
    b: int,
)
    requires
        0 <= i <= b < lines.len(),
        spec_line_form(lines[b]) is Bad,
        forall|j: int| i <= j < b ==> spec_line_form(#[trigger] lines[j]) is Skip,
    ensures
        spec_process_lines(s, lines, i, version) == (s, Option::Some(lines[b])),
    decreases b - i,
{
    if i < b {
        lemma_skips_then_bad(s, lines, i + 1, version, b);
    }
}

} // verus!
