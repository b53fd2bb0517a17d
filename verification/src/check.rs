//! The checker: evaluates a candidate password against the settings store
//! through the ordered rule pipeline, producing a quality score or the
//! first violated rule.

use vstd::prelude::*;
use crate::error::ErrorKind;
use crate::error::PWQError;
use crate::settings::SettingsModel;
use crate::settings::pwquality_settings;
use crate::text::CharClass;
use crate::text::char_class;
use crate::text::chars_ci_eq;
use crate::text::chars_eq;
use crate::text::chars_of;
use crate::text::class_of;
use crate::text::contains_ci;
use crate::text::find_ci;
use crate::text::is_palindrome_ci;
use crate::text::palindrome_ci;
use crate::text::rev_seq;
use crate::text::reversed;
use crate::text::seq_ci_eq;
use crate::text::split_words;
use crate::text::split_words_vec;
use crate::text::subvec;

verus! {

/// The outcome of one evaluation: a quality score, or the first violated
/// rule together with its optional auxiliary payload.
pub enum CheckOutcome {
    Score(int),
    Fail(ErrorKind, Option<Seq<char>>),
}

/// How many characters of `s` fall in class `cls`.
pub open spec fn count_class(s: Seq<char>, cls: CharClass) -> int
    decreases s.len(),
{
    if s.len() == 0 {
        0
    } else {
        count_class(s.drop_last(), cls) + if char_class(s.last()) == cls {
            1int
        } else {
            0int
        }
    }
}

/// How many characters of `pw` do not occur anywhere in `old_pw`.
pub open spec fn absent_count(pw: Seq<char>, old_pw: Seq<char>) -> int
    decreases pw.len(),
{
    if pw.len() == 0 {
        0
    } else {
        absent_count(pw.drop_last(), old_pw) + if old_pw.contains(pw.last()) {
            0int
        } else {
            1int
        }
    }
}

/// `pw` is `old_pw` cyclically shifted by `k`, ignoring letter case.
pub open spec fn rotation_matches(pw: Seq<char>, old_pw: Seq<char>, k: int) -> bool {
    &&& 0 <= k < old_pw.len()
    &&& seq_ci_eq(pw, old_pw.subrange(k, old_pw.len() as int) + old_pw.subrange(0, k))
}

/// `pw` is some cyclic rotation of `old_pw`, ignoring letter case.
pub open spec fn is_rotated_ci(pw: Seq<char>, old_pw: Seq<char>) -> bool {
    exists|k: int| rotation_matches(pw, old_pw, k)
}

/// Positions `i..=i+m` of `s` all hold the character `s[i]`: a run of
/// `m + 1` identical characters.
pub open spec fn repeat_run_at(s: Seq<char>, m: int, i: int) -> bool {
    &&& 0 <= i
    &&& i + m < s.len()
    &&& forall|j: int| 0 <= j <= m ==> #[trigger] s[i + j] == s[i]
}

/// Some run of `m + 1` identical consecutive characters occurs in `s`.
pub open spec fn has_repeat_run(s: Seq<char>, m: int) -> bool {
    exists|i: int| repeat_run_at(s, m, i)
}

/// Positions `i..=i+m` of `s` all fall in the class of `s[i]`: a run of
/// `m + 1` consecutive characters of one class.
pub open spec fn class_run_at(s: Seq<char>, m: int, i: int) -> bool {
    &&& 0 <= i
    &&& i + m < s.len()
    &&& forall|j: int| 0 <= j <= m ==> char_class(#[trigger] s[i + j]) == char_class(s[i])
}

/// Some run of `m + 1` consecutive characters of one class occurs in `s`.
pub open spec fn has_class_run(s: Seq<char>, m: int) -> bool {
    exists|i: int| class_run_at(s, m, i)
}

/// Positions `i..=i+m` of `s` are monotonic with adjacent code points
/// differing by one, ascending or descending: a run of `m + 1` characters.
pub open spec fn seq_run_at(s: Seq<char>, m: int, i: int, up: bool) -> bool {
    &&& 0 <= i
    &&& i + m < s.len()
    &&& forall|j: int|
        0 <= j < m ==> (#[trigger] s[i + j + 1] as u32) as int == (s[i + j] as u32) + (if up {
            1int
        } else {
            -1int
        })
}

/// Some monotonic run of `m + 1` characters occurs in `s`.
pub open spec fn has_seq_run(s: Seq<char>, m: int) -> bool {
    exists|i: int, up: bool| seq_run_at(s, m, i, up)
}

/// Whether `c` occurs in `v`.
pub fn vec_has_char(v: &Vec<char>, c: char) -> (r: bool)
    ensures
        r == v@.contains(c),
{
    let n = v.len();
    let mut i: usize = 0;
    while i < n
        invariant
            i <= n,
            n == v@.len(),
            forall|k: int| 0 <= k < i ==> v@[k] != c,
        decreases n - i,
    {
        if v[i] == c {
            return true;
        }
        i = i + 1;
    }
    false
}

/// How many characters of `v` fall in class `cls`.
pub fn count_class_vec(v: &Vec<char>, cls: CharClass) -> (r: usize)
    ensures
        r as int == count_class(v@, cls),
{
    let n = v.len();
    let mut r: usize = 0;
    let mut i: usize = 0;
    while i < n
        invariant
            i <= n,
            n == v@.len(),
            r <= i,
            r as int == count_class(v@.take(i as int), cls),
        decreases n - i,
    {
        proof {
            assert(v@.take(i + 1).drop_last() =~= v@.take(i as int));
            assert(v@.take(i + 1).last() == v@[i as int]);
        }
        if class_of(v[i]) == cls {
            r = r + 1;
        }
        i = i + 1;
    }
    proof {
        assert(v@.take(n as int) =~= v@);
    }
    r
}

/// How many characters of `pw` occur nowhere in `old_pw`.
pub fn absent_count_vec(pw: &Vec<char>, old_pw: &Vec<char>) -> (r: usize)
    ensures
        r as int == absent_count(pw@, old_pw@),
{
    let n = pw.len();
    let mut r: usize = 0;
    let mut i: usize = 0;
    while i < n
        invariant
            i <= n,
            n == pw@.len(),
            r <= i,
            r as int == absent_count(pw@.take(i as int), old_pw@),
        decreases n - i,
    {
        proof {
            assert(pw@.take(i + 1).drop_last() =~= pw@.take(i as int));
            assert(pw@.take(i + 1).last() == pw@[i as int]);
        }
        if !vec_has_char(old_pw, pw[i]) {
            r = r + 1;
        }
        i = i + 1;
    }
    proof {
        assert(pw@.take(n as int) =~= pw@);
    }
    r
}

/// Whether `pw` is a cyclic rotation of `old_pw`, ignoring letter case.
pub fn rotated_ci_vec(pw: &Vec<char>, old_pw: &Vec<char>) -> (r: bool)
    ensures
        r == is_rotated_ci(pw@, old_pw@),
{
    let n = old_pw.len();
    let mut k: usize = 0;
    while k < n
        invariant
            k <= n,
            n == old_pw@.len(),
            forall|k0: int| 0 <= k0 < k ==> !rotation_matches(pw@, old_pw@, k0),
        decreases n - k,
    {
        let mut rotated = subvec(old_pw, k, n);
        let mut tail = subvec(old_pw, 0, k);
        rotated.append(&mut tail);
        if chars_ci_eq(pw, &rotated) {
            proof {
                assert(rotation_matches(pw@, old_pw@, k as int));
            }
            return true;
        }
        k = k + 1;
    }
    false
}

/// Whether positions `i..=i+m` of `v` all hold `v[i]`.
fn repeat_window(v: &Vec<char>, i: usize, m: usize) -> (r: bool)
    requires
        i + m < v@.len(),
    ensures
        r == repeat_run_at(v@, m as int, i as int),
{
    proof {
        assert(v.len() == v@.len());
    }
    let c = v[i];
    let mut j: usize = 1;
    while j <= m
        invariant
            1 <= j <= m + 1,
            i + m < v@.len(),
            v@.len() <= usize::MAX,
            c == v@[i as int],
            forall|j0: int| 0 <= j0 < j ==> #[trigger] v@[i + j0] == v@[i as int],
        decreases m - j + 1,
    {
        if v[i + j] != c {
            proof {
                assert(!repeat_run_at(v@, m as int, i as int)) by {
                    if repeat_run_at(v@, m as int, i as int) {
                        assert(v@[i + j] == v@[i as int]);
                    }
                }
            }
            return false;
        }
        j = j + 1;
    }
    true
}

/// Whether some run of `m + 1` identical consecutive characters occurs.
pub fn has_repeat_run_vec(v: &Vec<char>, m: usize) -> (r: bool)
    ensures
        r == has_repeat_run(v@, m as int),
{
    let n = v.len();
    if m >= n {
        proof {
            assert(forall|i: int| !repeat_run_at(v@, m as int, i));
        }
        return false;
    }
    let mut i: usize = 0;
    while i < n - m
        invariant
            m < n,
            n == v@.len(),
            i <= n - m,
            forall|i0: int| 0 <= i0 < i ==> !repeat_run_at(v@, m as int, i0),
        decreases n - m - i,
    {
        if repeat_window(v, i, m) {
            return true;
        }
        i = i + 1;
    }
    proof {
        assert(forall|i0: int| repeat_run_at(v@, m as int, i0) ==> 0 <= i0 < n - m);
    }
    false
}

/// Whether positions `i..=i+m` of `v` all fall in the class of `v[i]`.
fn class_window(v: &Vec<char>, i: usize, m: usize) -> (r: bool)
    requires
        i + m < v@.len(),
    ensures
        r == class_run_at(v@, m as int, i as int),
{
    proof {
        assert(v.len() == v@.len());
    }
    let cls = class_of(v[i]);
    let mut j: usize = 1;
    while j <= m
        invariant
            1 <= j <= m + 1,
            i + m < v@.len(),
            v@.len() <= usize::MAX,
            cls == char_class(v@[i as int]),
            forall|j0: int| 0 <= j0 < j ==> char_class(#[trigger] v@[i + j0]) == char_class(v@[i as int]),
        decreases m - j + 1,
    {
        if class_of(v[i + j]) != cls {
            proof {
                assert(!class_run_at(v@, m as int, i as int)) by {
                    if class_run_at(v@, m as int, i as int) {
                        assert(char_class(v@[i + j]) == char_class(v@[i as int]));
                    }
                }
            }
            return false;
        }
        j = j + 1;
    }
    true
}

/// Whether some run of `m + 1` consecutive characters of one class occurs.
pub fn has_class_run_vec(v: &Vec<char>, m: usize) -> (r: bool)
    ensures
        r == has_class_run(v@, m as int),
{
    let n = v.len();
    if m >= n {
        proof {
            assert(forall|i: int| !class_run_at(v@, m as int, i));
        }
        return false;
    }
    let mut i: usize = 0;
    while i < n - m
        invariant
            m < n,
            n == v@.len(),
            i <= n - m,
            forall|i0: int| 0 <= i0 < i ==> !class_run_at(v@, m as int, i0),
        decreases n - m - i,
    {
        if class_window(v, i, m) {
            return true;
        }
        i = i + 1;
    }
    proof {
        assert(forall|i0: int| class_run_at(v@, m as int, i0) ==> 0 <= i0 < n - m);
    }
    false
}

/// Whether positions `i..=i+m` of `v` are monotonic in direction `up`.
fn seq_window(v: &Vec<char>, i: usize, m: usize, up: bool) -> (r: bool)
    requires
        i + m < v@.len(),
    ensures
        r == seq_run_at(v@, m as int, i as int, up),
{
    proof {
        assert(v.len() == v@.len());
    }
    let mut j: usize = 0;
    while j < m
        invariant
            j <= m,
            i + m < v@.len(),
            v@.len() <= usize::MAX,
            forall|j0: int|
                0 <= j0 < j ==> (#[trigger] v@[i + j0 + 1] as u32) as int == (v@[i + j0] as u32) + (
                if up {
                    1int
                } else {
                    -1int
                }),
        decreases m - j,
    {
        let a = v[i + j] as u32;
        let b = v[i + j + 1] as u32;
        let step_ok = if up {
            b >= 1 && b - 1 == a
        } else {
            a >= 1 && a - 1 == b
        };
        if !step_ok {
            proof {
                assert(!seq_run_at(v@, m as int, i as int, up)) by {
                    if seq_run_at(v@, m as int, i as int, up) {
                        assert((v@[i + j + 1] as u32) as int == (v@[i + j] as u32) + (if up {
                            1int
                        } else {
                            -1int
                        }));
                    }
                }
            }
            return false;
        }
        j = j + 1;
    }
    true
}

/// Whether some monotonic run of `m + 1` characters occurs.
pub fn has_seq_run_vec(v: &Vec<char>, m: usize) -> (r: bool)
    ensures
        r == has_seq_run(v@, m as int),
{
    let n = v.len();
    if m >= n {
        proof {
            assert(forall|i: int, up: bool| !seq_run_at(v@, m as int, i, up));
        }
        return false;
    }
    let mut i: usize = 0;
    while i < n - m
        invariant
            m < n,
            n == v@.len(),
            i <= n - m,
            forall|i0: int, up: bool| 0 <= i0 < i ==> !seq_run_at(v@, m as int, i0, up),
        decreases n - m - i,
    {
        if seq_window(v, i, m, true) {
            return true;
        }
        if seq_window(v, i, m, false) {
            return true;
        }
        i = i + 1;
    }
    proof {
        assert(forall|i0: int, up: bool| seq_run_at(v@, m as int, i0, up) ==> 0 <= i0 < n - m);
    }
    false
}


/// The score contribution of one class: a positive credit awards one point
/// per character of the class, capped at the credit; other credits award
/// nothing here.
pub open spec fn pos_credit(credit: i32, count: int) -> int {
    if credit > 0 {
        if count < credit {
            count
        } else {
            credit as int
        }
    } else {
        0
    }
}

/// A negative credit demands at least that many characters of the class.
pub open spec fn min_count_violated(credit: i32, count: int) -> bool {
    credit < 0 && count < -(credit as int)
}

/// The total score credit of all four classes.
pub open spec fn total_credits(s: SettingsModel, pw: Seq<char>) -> int {
    pos_credit(s.dig_credit, count_class(pw, CharClass::Digit)) + pos_credit(
        s.up_credit,
        count_class(pw, CharClass::Upper),
    ) + pos_credit(s.low_credit, count_class(pw, CharClass::Lower)) + pos_credit(
        s.oth_credit,
        count_class(pw, CharClass::Other),
    )
}

/// The credit-adjusted length of the password.
pub open spec fn effective_len(s: SettingsModel, pw: Seq<char>) -> int {
    pw.len() + total_credits(s, pw)
}

/// How many distinct character classes occur in `pw`.
pub open spec fn distinct_classes(pw: Seq<char>) -> int {
    (if count_class(pw, CharClass::Digit) > 0 {
        1int
    } else {
        0int
    }) + (if count_class(pw, CharClass::Upper) > 0 {
        1int
    } else {
        0int
    }) + (if count_class(pw, CharClass::Lower) > 0 {
        1int
    } else {
        0int
    }) + (if count_class(pw, CharClass::Other) > 0 {
        1int
    } else {
        0int
    })
}

/// The quality score of a passing password: its credit-adjusted length
/// beyond the minimum-length baseline, confined to `0..=100`.
pub open spec fn spec_score(s: SettingsModel, pw: Seq<char>) -> int {
    let raw = effective_len(s, pw) - s.min_length;
    if raw < 0 {
        0
    } else if raw > 100 {
        100
    } else {
        raw
    }
}

/// The password contains the user name, its reversal, or (when
/// `substr_len > 0`) any user-name substring of that length, ignoring case.
pub open spec fn user_match(pw: Seq<char>, user: Seq<char>, substr_len: int) -> bool {
    ||| contains_ci(pw, user)
    ||| contains_ci(pw, rev_seq(user))
    ||| (substr_len > 0 && exists|k: int|
        0 <= k && k + substr_len <= user.len() && contains_ci(
            pw,
            #[trigger] user.subrange(k, k + substr_len),
        ))
}

/// The password contains some word of more than two characters from the
/// GECOS string, ignoring case.
pub open spec fn gecos_match(pw: Seq<char>, gecos: Seq<char>) -> bool {
    exists|w: int|
        0 <= w < split_words(gecos).len() && (#[trigger] split_words(gecos)[w]).len() > 2
            && contains_ci(pw, split_words(gecos)[w])
}

/// The password contains one of the listed words, ignoring case.
pub open spec fn badword_match(pw: Seq<char>, words: Seq<Seq<char>>) -> bool {
    exists|w: int| 0 <= w < words.len() && contains_ci(pw, #[trigger] words[w])
}

/// The characters behind an optional vector.
pub open spec fn opt_vec_view(o: Option<&Vec<char>>) -> Option<Seq<char>> {
    match o {
        Option::Some(v) => Option::Some(v@),
        Option::None => Option::None,
    }
}

/// The characters behind an optional string slice.
pub open spec fn opt_str_view(o: Option<&str>) -> Option<Seq<char>> {
    match o {
        Option::Some(v) => Option::Some(v@),
        Option::None => Option::None,
    }
}

/// The whole rule pipeline: the outcome of checking `pw` against store `s`,
/// optionally relative to a previous password, a user name, and the word
/// the dictionary collaborator matched. Rules are evaluated in order; the
/// first violated rule decides.
pub open spec fn spec_check(
    s: SettingsModel,
    pw: Seq<char>,
    old_pw: Option<Seq<char>>,
    user: Option<Seq<char>>,
    dict_match: Option<Seq<char>>,
) -> CheckOutcome {
    if pw.len() == 0 {
        CheckOutcome::Fail(ErrorKind::EmptyPassword, Option::None)
    } else if old_pw is Some && pw == old_pw->0 {
        CheckOutcome::Fail(ErrorKind::SamePassword, Option::None)
    } else if old_pw is Some && seq_ci_eq(pw, old_pw->0) {
        CheckOutcome::Fail(ErrorKind::CaseChangesOnly, Option::None)
    } else if is_palindrome_ci(pw) {
        CheckOutcome::Fail(ErrorKind::Palindrome, Option::None)
    } else if old_pw is Some && is_rotated_ci(pw, old_pw->0) {
        CheckOutcome::Fail(ErrorKind::Rotated, Option::None)
    } else if old_pw is Some && s.diff_ok > 0 && absent_count(pw, old_pw->0) < s.diff_ok {
        CheckOutcome::Fail(ErrorKind::TooSimilar, Option::None)
    } else if min_count_violated(s.dig_credit, count_class(pw, CharClass::Digit)) {
        CheckOutcome::Fail(ErrorKind::MinDigits, Option::None)
    } else if min_count_violated(s.up_credit, count_class(pw, CharClass::Upper)) {
        CheckOutcome::Fail(ErrorKind::MinUppers, Option::None)
    } else if min_count_violated(s.low_credit, count_class(pw, CharClass::Lower)) {
        CheckOutcome::Fail(ErrorKind::MinLowers, Option::None)
    } else if min_count_violated(s.oth_credit, count_class(pw, CharClass::Other)) {
        CheckOutcome::Fail(ErrorKind::MinOthers, Option::None)
    } else if effective_len(s, pw) < s.min_length {
        CheckOutcome::Fail(ErrorKind::MinLength, Option::None)
    } else if distinct_classes(pw) < s.min_class {
        CheckOutcome::Fail(ErrorKind::MinClasses, Option::None)
    } else if s.max_repeat > 0 && has_repeat_run(pw, s.max_repeat as int) {
        CheckOutcome::Fail(ErrorKind::MaxConsecutive, Option::None)
    } else if s.max_class_repeat > 0 && has_class_run(pw, s.max_class_repeat as int) {
        CheckOutcome::Fail(ErrorKind::MaxClassRepeat, Option::None)
    } else if s.max_sequence > 0 && has_seq_run(pw, s.max_sequence as int) {
        CheckOutcome::Fail(ErrorKind::MaxSequence, Option::None)
    } else if s.gecos_check != 0 && user is Some && gecos_match(pw, user->0) {
        CheckOutcome::Fail(ErrorKind::GecosCheck, Option::None)
    } else if s.user_check != 0 && user is Some && user->0.len() > 0 && user_match(
        pw,
        user->0,
        s.user_substr as int,
    ) {
        CheckOutcome::Fail(ErrorKind::UserCheck, Option::None)
    } else if badword_match(pw, split_words(s.bad_words)) {
        CheckOutcome::Fail(ErrorKind::BadWords, Option::None)
    } else if s.dict_check != 0 && dict_match is Some {
        CheckOutcome::Fail(ErrorKind::CracklibCheck, Option::Some(dict_match->0))
    } else {
        CheckOutcome::Score(spec_score(s, pw))
    }
}

/// The executable result agrees with the modeled outcome: an `Ok` carries
/// exactly the modeled score, an `Err` carries exactly the modeled kind and
/// auxiliary payload.
pub open spec fn check_result_matches(r: Result<i32, PWQError>, o: CheckOutcome) -> bool {
    match r {
        Result::Ok(score) => o == CheckOutcome::Score(score as int),
        Result::Err(e) => {
            &&& o matches CheckOutcome::Fail(k, a)
            &&& e.kind == k
            &&& match (e.aux, a) {
                (Option::None, Option::None) => true,
                (Option::Some(x), Option::Some(y)) => x@ == y,
                _ => false,
            }
        },
    }
}


/// Whether `credit` demands more characters of its class than `count`.
fn min_violated(credit: i32, count: usize) -> (r: bool)
    ensures
        r == min_count_violated(credit, count as int),
{
    credit < 0 && (count as i128) < -(credit as i128)
}

/// The score contribution of one class.
fn pos_credit_exec(credit: i32, count: usize) -> (r: i64)
    ensures
        r as int == pos_credit(credit, count as int),
        0 <= r <= i32::MAX,
{
    if credit > 0 {
        if (count as u64) < (credit as u64) {
            count as i64
        } else {
            credit as i64
        }
    } else {
        0
    }
}

/// Whether the password contains the user name in some form.
fn user_match_vec(pw: &Vec<char>, user: &Vec<char>, substr_len: i32) -> (r: bool)
    ensures
        r == user_match(pw@, user@, substr_len as int),
{
    let ulen = user.len();
    if find_ci(pw, user, 0, ulen) {
        proof {
            assert(user@.subrange(0, ulen as int) =~= user@);
        }
        return true;
    }
    let rev = reversed(user);
    if find_ci(pw, &rev, 0, rev.len()) {
        proof {
            assert(rev@.subrange(0, rev@.len() as int) =~= rev_seq(user@));
        }
        return true;
    }
    proof {
        assert(user@.subrange(0, ulen as int) =~= user@);
        assert(rev@.subrange(0, rev@.len() as int) =~= rev_seq(user@));
    }
    if substr_len > 0 {
        let n = substr_len as usize;
        if n <= ulen {
            let mut k: usize = 0;
            while k <= ulen - n
                invariant
                    n == substr_len as int,
                    0 < n <= ulen,
                    ulen == user@.len(),
                    ulen <= usize::MAX,
                    k <= ulen - n + 1,
                    forall|k0: int|
                        0 <= k0 < k ==> !contains_ci(
                            pw@,
                            #[trigger] user@.subrange(k0, k0 + n),
                        ),
                decreases ulen - n - k + 1,
            {
                if find_ci(pw, user, k, k + n) {
                    return true;
                }
                k = k + 1;
            }
            proof {
                assert(forall|k0: int|
                    0 <= k0 && k0 + substr_len as int <= user@.len() ==> !contains_ci(
                        pw@,
                        #[trigger] user@.subrange(k0, k0 + substr_len as int),
                    ));
            }
        }
    }
    false
}

/// Whether the password contains a word of more than two characters from
/// the GECOS string.
fn gecos_match_vec(pw: &Vec<char>, gecos: &Vec<char>) -> (r: bool)
    ensures
        r == gecos_match(pw@, gecos@),
{
    let words = split_words_vec(gecos);
    let n = words.len();
    let mut i: usize = 0;
    while i < n
        invariant
            i <= n,
            n == words@.len(),
            words.deep_view() == split_words(gecos@),
            forall|w: int|
                0 <= w < i ==> !((#[trigger] split_words(gecos@)[w]).len() > 2 && contains_ci(
                    pw@,
                    split_words(gecos@)[w],
                )),
        decreases n - i,
    {
        let w = &words[i];
        proof {
            assert(w@ =~= words.deep_view()[i as int]);
        }
        if w.len() > 2 && find_ci(pw, w, 0, w.len()) {
            proof {
                assert(w@.subrange(0, w@.len() as int) =~= w@);
            }
            return true;
        }
        proof {
            assert(w@.subrange(0, w@.len() as int) =~= w@);
        }
        i = i + 1;
    }
    false
}

/// Whether the password contains one of the whitespace-separated forbidden
/// words.
fn badwords_match_vec(pw: &Vec<char>, bad: &Vec<char>) -> (r: bool)
    ensures
        r == badword_match(pw@, split_words(bad@)),
{
    let words = split_words_vec(bad);
    let n = words.len();
    let mut i: usize = 0;
    while i < n
        invariant
            i <= n,
            n == words@.len(),
            words.deep_view() == split_words(bad@),
            forall|w: int|
                0 <= w < i ==> !contains_ci(pw@, #[trigger] split_words(bad@)[w]),
        decreases n - i,
    {
        let w = &words[i];
        proof {
            assert(w@ =~= words.deep_view()[i as int]);
        }
        if find_ci(pw, w, 0, w.len()) {
            proof {
                assert(w@.subrange(0, w@.len() as int) =~= w@);
            }
            return true;
        }
        proof {
            assert(w@.subrange(0, w@.len() as int) =~= w@);
        }
        i = i + 1;
    }
    false
}

/// Evaluates the whole rule pipeline on character vectors. Returns the
/// score exactly when the modeled pipeline passes, and the first modeled
/// violation otherwise.
pub fn check_chars(
    st: &pwquality_settings,
    pw: &Vec<char>,
    old_pw: Option<&Vec<char>>,
    user: Option<&Vec<char>>,
    dict_match: Option<&str>,
) -> (r: Result<i32, PWQError>)
    ensures
        check_result_matches(r, spec_check(st@, pw@, opt_vec_view(old_pw), opt_vec_view(user), opt_str_view(dict_match))),
{
    let n = pw.len();
    if n == 0 {
        return Err(PWQError::new(ErrorKind::EmptyPassword));
    }
    match old_pw {
        Option::Some(o) => {
            if chars_eq(pw, o) {
                return Err(PWQError::new(ErrorKind::SamePassword));
            }
            if chars_ci_eq(pw, o) {
                return Err(PWQError::new(ErrorKind::CaseChangesOnly));
            }
        },
        Option::None => {},
    }
    if palindrome_ci(pw) {
        return Err(PWQError::new(ErrorKind::Palindrome));
    }
    match old_pw {
        Option::Some(o) => {
            if rotated_ci_vec(pw, o) {
                return Err(PWQError::new(ErrorKind::Rotated));
            }
            if st.diff_ok > 0 {
                let absent = absent_count_vec(pw, o);
                if (absent as i128) < (st.diff_ok as i128) {
                    return Err(PWQError::new(ErrorKind::TooSimilar));
                }
            }
        },
        Option::None => {},
    }
    let dig = count_class_vec(pw, CharClass::Digit);
    let up = count_class_vec(pw, CharClass::Upper);
    let low = count_class_vec(pw, CharClass::Lower);
    let oth = count_class_vec(pw, CharClass::Other);
    if min_violated(st.dig_credit, dig) {
        return Err(PWQError::new(ErrorKind::MinDigits));
    }
    if min_violated(st.up_credit, up) {
        return Err(PWQError::new(ErrorKind::MinUppers));
    }
    if min_violated(st.low_credit, low) {
        return Err(PWQError::new(ErrorKind::MinLowers));
    }
    if min_violated(st.oth_credit, oth) {
        return Err(PWQError::new(ErrorKind::MinOthers));
    }
    let credits: i64 = pos_credit_exec(st.dig_credit, dig) + pos_credit_exec(st.up_credit, up)
        + pos_credit_exec(st.low_credit, low) + pos_credit_exec(st.oth_credit, oth);
    let eff: i128 = (n as i128) + (credits as i128);
    if eff < (st.min_length as i128) {
        return Err(PWQError::new(ErrorKind::MinLength));
    }
    let classes: i32 = (if dig > 0 {
        1i32
    } else {
        0i32
    }) + (if up > 0 {
        1i32
    } else {
        0i32
    }) + (if low > 0 {
        1i32
    } else {
        0i32
    }) + (if oth > 0 {
        1i32
    } else {
        0i32
    });
    if classes < st.min_class {
        return Err(PWQError::new(ErrorKind::MinClasses));
    }
    if st.max_repeat > 0 && has_repeat_run_vec(pw, st.max_repeat as usize) {
        return Err(PWQError::new(ErrorKind::MaxConsecutive));
    }
    if st.max_class_repeat > 0 && has_class_run_vec(pw, st.max_class_repeat as usize) {
        return Err(PWQError::new(ErrorKind::MaxClassRepeat));
    }
    if st.max_sequence > 0 && has_seq_run_vec(pw, st.max_sequence as usize) {
        return Err(PWQError::new(ErrorKind::MaxSequence));
    }
    match user {
        Option::Some(u) => {
            if st.gecos_check != 0 && gecos_match_vec(pw, u) {
                return Err(PWQError::new(ErrorKind::GecosCheck));
            }
            if st.user_check != 0 && u.len() > 0 && user_match_vec(pw, u, st.user_substr) {
                return Err(PWQError::new(ErrorKind::UserCheck));
            }
        },
        Option::None => {},
    }
    let bad = chars_of(st.bad_words.as_str());
    if badwords_match_vec(pw, &bad) {
        return Err(PWQError::new(ErrorKind::BadWords));
    }
    match dict_match {
        Option::Some(w) => {
            if st.dict_check != 0 {
                return Err(PWQError::with_aux(ErrorKind::CracklibCheck, String::from_str(w)));
            }
        },
        Option::None => {},
    }
    let raw: i128 = eff - (st.min_length as i128);
    let score: i32 = if raw < 0 {
        0
    } else if raw > 100 {
        100
    } else {
        raw as i32
    };
    Ok(score)
}

/// Checking an empty password reports the empty-password violation, under
/// every settings store and every context.
pub proof fn lemma_empty_password(
    s: SettingsModel,
    old_pw: Option<Seq<char>>,
    user: Option<Seq<char>>,
    dict_match: Option<Seq<char>>,
)
    ensures
        spec_check(s, Seq::<char>::empty(), old_pw, user, dict_match) == CheckOutcome::Fail(
            ErrorKind::EmptyPassword,
            Option::<Seq<char>>::None,
        ),
{
}

/// Checking a non-empty password against itself as the previous password
/// reports the same-password violation, under every settings store.
pub proof fn lemma_same_password(
    s: SettingsModel,
    pw: Seq<char>,
    user: Option<Seq<char>>,
    dict_match: Option<Seq<char>>,
)
    requires
        pw.len() > 0,
    ensures
        spec_check(s, pw, Option::Some(pw), user, dict_match) == CheckOutcome::Fail(
            ErrorKind::SamePassword,
            Option::<Seq<char>>::None,
        ),
{
}

/// A password that passes the pipeline always scores within `0..=100`.
pub proof fn lemma_score_in_range(
    s: SettingsModel,
    pw: Seq<char>,
    old_pw: Option<Seq<char>>,
    user: Option<Seq<char>>,
    dict_match: Option<Seq<char>>,
)
    ensures
        spec_check(s, pw, old_pw, user, dict_match) matches CheckOutcome::Score(score) ==> 0
            <= score <= 100,
{
}

} // verus!
