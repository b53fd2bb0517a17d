//! Character-level utilities shared by the checker and the parsers.
//!
//! All predicates are stated over `Seq<char>`; letter case and character
//! classes follow the ASCII conventions of classic password-policy engines
//! (non-ASCII characters fold to themselves and classify as "other").

use vstd::prelude::*;

verus! {

/// The character classes the policy distinguishes.
#[derive(Clone, Copy, Debug, PartialEq, Eq, Structural)]
pub enum CharClass {
    Digit,
    Upper,
    Lower,
    Other,
}

/// The code point of `c` with an ASCII uppercase letter folded to lowercase.
pub open spec fn lower(c: char) -> int {
    if 'A' <= c && c <= 'Z' {
        (c as u32) + 32
    } else {
        (c as u32) as int
    }
}

/// The class of a character: ASCII digit, uppercase letter, lowercase
/// letter, or anything else.
pub open spec fn char_class(c: char) -> CharClass {
    if '0' <= c && c <= '9' {
        CharClass::Digit
    } else if 'A' <= c && c <= 'Z' {
        CharClass::Upper
    } else if 'a' <= c && c <= 'z' {
        CharClass::Lower
    } else {
        CharClass::Other
    }
}

/// Whitespace, as word separators in option values and user names.
pub open spec fn is_space(c: char) -> bool {
    c == ' ' || c == '\t' || c == '\n' || c == '\r' || c == '\u{b}' || c == '\u{c}'
}

/// `a` and `b` are equal once letter case is folded away.
pub open spec fn seq_ci_eq(a: Seq<char>, b: Seq<char>) -> bool {
    a.len() == b.len() && forall|i: int| 0 <= i < a.len() ==> lower(a[i]) == lower(b[i])
}

/// `s` read backwards.
pub open spec fn rev_seq(s: Seq<char>) -> Seq<char> {
    Seq::new(s.len(), |i: int| s[s.len() - 1 - i])
}

/// `s` reads the same backwards, ignoring letter case.
pub open spec fn is_palindrome_ci(s: Seq<char>) -> bool {
    forall|i: int| 0 <= i < s.len() ==> lower(#[trigger] s[i]) == lower(s[s.len() - 1 - i])
}

/// `needle` occurs in `hay` at position `i`, ignoring letter case.
pub open spec fn matches_at_ci(hay: Seq<char>, needle: Seq<char>, i: int) -> bool {
    &&& 0 <= i
    &&& i + needle.len() <= hay.len()
    &&& forall|j: int| 0 <= j < needle.len() ==> lower(hay[i + j]) == lower(needle[j])
}

/// `needle` occurs somewhere in `hay`, ignoring letter case.
pub open spec fn contains_ci(hay: Seq<char>, needle: Seq<char>) -> bool {
    exists|i: int| matches_at_ci(hay, needle, i)
}

/// The characters of `s`, one per element.
pub fn chars_of(s: &str) -> (r: Vec<char>)
    ensures
        r@ == s@,
{
    let n = s.unicode_len();
    let mut r: Vec<char> = Vec::new();
    let mut i: usize = 0;
    while i < n
        invariant
            n == s@.len(),
            i <= n,
            r@ == s@.take(i as int),
        decreases n - i,
    {
        let c = s.get_char(i);
        r.push(c);
        i = i + 1;
        proof {
            assert(r@ =~= s@.take(i as int));
        }
    }
    proof {
        assert(s@.take(n as int) =~= s@);
    }
    r
}

/// The folded code point of `c`.
pub fn char_lower(c: char) -> (r: u32)
    ensures
        r as int == lower(c),
{
    let u = c as u32;
    if 65 <= u && u <= 90 {
        u + 32
    } else {
        u
    }
}

/// The class of `c`.
pub fn class_of(c: char) -> (r: CharClass)
    ensures
        r == char_class(c),
{
    let u = c as u32;
    if 48 <= u && u <= 57 {
        CharClass::Digit
    } else if 65 <= u && u <= 90 {
        CharClass::Upper
    } else if 97 <= u && u <= 122 {
        CharClass::Lower
    } else {
        CharClass::Other
    }
}

/// Whether `c` is a word separator.
pub fn is_space_char(c: char) -> (r: bool)
    ensures
        r == is_space(c),
{
    c == ' ' || c == '\t' || c == '\n' || c == '\r' || c == '\u{b}' || c == '\u{c}'
}

/// Whether two character vectors hold the same characters.
pub fn chars_eq(a: &Vec<char>, b: &Vec<char>) -> (r: bool)
    ensures
        r == (a@ == b@),
{
    if a.len() != b.len() {
        return false;
    }
    let n = a.len();
    let mut i: usize = 0;
    while i < n
        invariant
            n == a@.len() == b@.len(),
            i <= n,
            forall|k: int| 0 <= k < i ==> a@[k] == b@[k],
        decreases n - i,
    {
        if a[i] != b[i] {
            return false;
        }
        i = i + 1;
    }
    proof {
        assert(a@ =~= b@);
    }
    true
}

/// Whether the characters of `cs` spell exactly `s`.
pub fn chars_eq_str(cs: &Vec<char>, s: &str) -> (r: bool)
    ensures
        r == (cs@ == s@),
{
    let n = s.unicode_len();
    if cs.len() != n {
        return false;
    }
    let mut i: usize = 0;
    while i < n
        invariant
            n == s@.len() == cs@.len(),
            i <= n,
            forall|k: int| 0 <= k < i ==> cs@[k] == s@[k],
        decreases n - i,
    {
        if cs[i] != s.get_char(i) {
            return false;
        }
        i = i + 1;
    }
    proof {
        assert(cs@ =~= s@);
    }
    true
}

/// Whether two character vectors are equal ignoring letter case.
pub fn chars_ci_eq(a: &Vec<char>, b: &Vec<char>) -> (r: bool)
    ensures
        r == seq_ci_eq(a@, b@),
{
    if a.len() != b.len() {
        return false;
    }
    let n = a.len();
    let mut i: usize = 0;
    while i < n
        invariant
            n == a@.len() == b@.len(),
            i <= n,
            forall|k: int| 0 <= k < i ==> lower(a@[k]) == lower(b@[k]),
        decreases n - i,
    {
        if char_lower(a[i]) != char_lower(b[i]) {
            return false;
        }
        i = i + 1;
    }
    true
}

/// The characters of `v`, reversed.
pub fn reversed(v: &Vec<char>) -> (r: Vec<char>)
    ensures
        r@ == rev_seq(v@),
{
    let n = v.len();
    let mut r: Vec<char> = Vec::new();
    let mut i: usize = 0;
    while i < n
        invariant
            n == v@.len(),
            i <= n,
            r@.len() == i,
            forall|k: int| 0 <= k < i ==> r@[k] == v@[n - 1 - k],
        decreases n - i,
    {
        r.push(v[n - 1 - i]);
        i = i + 1;
    }
    proof {
        assert(r@ =~= rev_seq(v@));
    }
    r
}

/// Whether `v` reads the same backwards, ignoring letter case.
pub fn palindrome_ci(v: &Vec<char>) -> (r: bool)
    ensures
        r == is_palindrome_ci(v@),
{
    let n = v.len();
    let mut i: usize = 0;
    while i < n
        invariant
            n == v@.len(),
            i <= n,
            forall|k: int| 0 <= k < i ==> lower(#[trigger] v@[k]) == lower(v@[n - 1 - k]),
        decreases n - i,
    {
        if char_lower(v[i]) != char_lower(v[n - 1 - i]) {
            return false;
        }
        i = i + 1;
    }
    true
}

/// Whether the characters `needle[from..to]` occur in `hay` in order,
/// ignoring letter case.
pub fn find_ci(hay: &Vec<char>, needle: &Vec<char>, from: usize, to: usize) -> (r: bool)
    requires
        from <= to <= needle@.len(),
    ensures
        r == contains_ci(hay@, needle@.subrange(from as int, to as int)),
{
    let n = to - from;
    let ghost ndl = needle@.subrange(from as int, to as int);
    if n == 0 {
        proof {
            assert(matches_at_ci(hay@, ndl, 0));
        }
        return true;
    }
    if n > hay.len() {
        proof {
            assert(forall|i: int| !matches_at_ci(hay@, ndl, i));
        }
        return false;
    }
    let last = hay.len() - n;
    let mut i: usize = 0;
    while i <= last
        invariant
            from <= to <= needle@.len(),
            n == to - from,
            ndl == needle@.subrange(from as int, to as int),
            1 <= n <= hay@.len(),
            hay@.len() <= usize::MAX,
            last == hay@.len() - n,
            last < usize::MAX,
            i <= last + 1,
            forall|i0: int| 0 <= i0 < i ==> !matches_at_ci(hay@, ndl, i0),
        decreases last + 1 - i,
    {
        let mut j: usize = 0;
        let mut hit = true;
        while j < n
            invariant
                from <= to <= needle@.len(),
                n == to - from,
                ndl == needle@.subrange(from as int, to as int),
                i + n <= hay@.len(),
                hay@.len() <= usize::MAX,
                j <= n,
                hit ==> forall|j0: int| 0 <= j0 < j ==> lower(#[trigger] hay@[i + j0]) == lower(
                    ndl[j0],
                ),
                !hit ==> !matches_at_ci(hay@, ndl, i as int),
            decreases n - j,
        {
            let a = char_lower(hay[i + j]);
            let b = char_lower(needle[from + j]);
            if a != b {
                proof {
                    assert(!matches_at_ci(hay@, ndl, i as int)) by {
                        if matches_at_ci(hay@, ndl, i as int) {
                            assert(lower(hay@[i + j]) == lower(ndl[j as int]));
                        }
                    }
                }
                hit = false;
                j = n;
            } else {
                j = j + 1;
            }
        }
        if hit {
            proof {
                assert(matches_at_ci(hay@, ndl, i as int));
            }
            return true;
        }
        i = i + 1;
    }
    proof {
        assert(forall|i0: int| matches_at_ci(hay@, ndl, i0) ==> 0 <= i0 <= last as int);
    }
    false
}


/// The first position at or after `i` that does not hold whitespace.
pub open spec fn skip_spaces(s: Seq<char>, i: int) -> int
    decreases s.len() - i,
        when 0 <= i <= s.len()
{
    if i >= s.len() {
        i
    } else if is_space(s[i]) {
        skip_spaces(s, i + 1)
    } else {
        i
    }
}

/// `skip_spaces` lands between `i` and the end, on the first non-space.
pub proof fn lemma_skip_spaces(s: Seq<char>, i: int)
    requires
        0 <= i <= s.len(),
    ensures
        i <= skip_spaces(s, i) <= s.len(),
        forall|k: int| i <= k < skip_spaces(s, i) ==> is_space(#[trigger] s[k]),
        skip_spaces(s, i) < s.len() ==> !is_space(s[skip_spaces(s, i)]),
    decreases s.len() - i,
{
    if i < s.len() && is_space(s[i]) {
        lemma_skip_spaces(s, i + 1);
    }
}

/// The first position at or after `i` that ends a word: the first
/// whitespace, or the end of `s`.
pub open spec fn word_end(s: Seq<char>, i: int) -> int
    decreases s.len() - i,
        when 0 <= i <= s.len()
{
    if i >= s.len() {
        i
    } else if is_space(s[i]) {
        i
    } else {
        word_end(s, i + 1)
    }
}

/// `word_end` lands between `i` and the end, on the first whitespace.
pub proof fn lemma_word_end(s: Seq<char>, i: int)
    requires
        0 <= i <= s.len(),
    ensures
        i <= word_end(s, i) <= s.len(),
        forall|k: int| i <= k < word_end(s, i) ==> !is_space(#[trigger] s[k]),
        word_end(s, i) < s.len() ==> is_space(s[word_end(s, i)]),
        i < s.len() && !is_space(s[i]) ==> word_end(s, i) > i,
    decreases s.len() - i,
{
    if i < s.len() && !is_space(s[i]) {
        lemma_word_end(s, i + 1);
    }
}

/// The position after the last non-space character of `s`.
pub open spec fn rtrim_end(s: Seq<char>) -> int
    decreases s.len(),
{
    if s.len() == 0 {
        0
    } else if is_space(s.last()) {
        rtrim_end(s.drop_last())
    } else {
        s.len() as int
    }
}

/// `s` without leading and trailing whitespace.
pub open spec fn trim(s: Seq<char>) -> Seq<char> {
    let a = skip_spaces(s, 0);
    let b = rtrim_end(s);
    if a <= b {
        s.subrange(a, b)
    } else {
        Seq::empty()
    }
}

/// The first position at or after `i` holding `c`, or the end of `s`.
pub open spec fn find_from(s: Seq<char>, c: char, i: int) -> int
    decreases s.len() - i,
        when 0 <= i <= s.len()
{
    if i >= s.len() {
        i
    } else if s[i] == c {
        i
    } else {
        find_from(s, c, i + 1)
    }
}

/// `find_from` lands between `i` and the end, on the first occurrence.
pub proof fn lemma_find_from(s: Seq<char>, c: char, i: int)
    requires
        0 <= i <= s.len(),
    ensures
        i <= find_from(s, c, i) <= s.len(),
        forall|k: int| i <= k < find_from(s, c, i) ==> #[trigger] s[k] != c,
        find_from(s, c, i) < s.len() ==> s[find_from(s, c, i)] == c,
    decreases s.len() - i,
{
    if i < s.len() && s[i] != c {
        lemma_find_from(s, c, i + 1);
    }
}

/// The whitespace-separated words of `s`, scanning from position `i`.
pub open spec fn split_from(s: Seq<char>, i: int) -> Seq<Seq<char>>
    decreases s.len() - i,
        when 0 <= i <= s.len()
        via split_from_decreases
{
    if i >= s.len() {
        Seq::empty()
    } else if is_space(s[i]) {
        split_from(s, i + 1)
    } else {
        seq![s.subrange(i, word_end(s, i))] + split_from(s, word_end(s, i))
    }
}

#[via_fn]
proof fn split_from_decreases(s: Seq<char>, i: int) {
    if 0 <= i < s.len() && !is_space(s[i]) {
        lemma_word_end(s, i);
    }
}

/// The whitespace-separated words of `s`.
pub open spec fn split_words(s: Seq<char>) -> Seq<Seq<char>> {
    split_from(s, 0)
}

/// The first position at or after `i` in `v` that does not hold whitespace.
pub fn skip_spaces_from(v: &Vec<char>, i: usize) -> (r: usize)
    requires
        i <= v@.len(),
    ensures
        r as int == skip_spaces(v@, i as int),
{
    let n = v.len();
    let mut j = i;
    while j < n && is_space_char(v[j])
        invariant
            i <= j <= n,
            n == v@.len(),
            skip_spaces(v@, i as int) == skip_spaces(v@, j as int),
        decreases n - j,
    {
        j = j + 1;
    }
    j
}

/// The end of the word starting at `i` in `v`.
pub fn word_end_from(v: &Vec<char>, i: usize) -> (r: usize)
    requires
        i <= v@.len(),
    ensures
        r as int == word_end(v@, i as int),
{
    let n = v.len();
    let mut j = i;
    while j < n && !is_space_char(v[j])
        invariant
            i <= j <= n,
            n == v@.len(),
            word_end(v@, i as int) == word_end(v@, j as int),
        decreases n - j,
    {
        j = j + 1;
    }
    j
}

/// The first position at or after `i` in `v` that holds `c`.
pub fn find_char_from(v: &Vec<char>, c: char, i: usize) -> (r: usize)
    requires
        i <= v@.len(),
    ensures
        r as int == find_from(v@, c, i as int),
{
    let n = v.len();
    let mut j = i;
    while j < n && v[j] != c
        invariant
            i <= j <= n,
            n == v@.len(),
            find_from(v@, c, i as int) == find_from(v@, c, j as int),
        decreases n - j,
    {
        j = j + 1;
    }
    j
}

/// The characters `v[a..b]`, as a new vector.
pub fn subvec(v: &Vec<char>, a: usize, b: usize) -> (r: Vec<char>)
    requires
        a <= b <= v@.len(),
    ensures
        r@ == v@.subrange(a as int, b as int),
{
    let mut r: Vec<char> = Vec::new();
    let mut i = a;
    while i < b
        invariant
            a <= i <= b <= v@.len(),
            r@ == v@.subrange(a as int, i as int),
        decreases b - i,
    {
        r.push(v[i]);
        i = i + 1;
        proof {
            assert(r@ =~= v@.subrange(a as int, i as int));
        }
    }
    r
}

/// `v` without leading and trailing whitespace.
pub fn trim_chars(v: &Vec<char>) -> (r: Vec<char>)
    ensures
        r@ == trim(v@),
{
    let n = v.len();
    let a = skip_spaces_from(v, 0);
    let mut b = n;
    proof {
        assert(v@.take(n as int) =~= v@);
    }
    while b > 0 && is_space_char(v[b - 1])
        invariant
            b <= n,
            n == v@.len(),
            rtrim_end(v@) == rtrim_end(v@.take(b as int)),
        decreases b,
    {
        proof {
            assert(v@.take(b as int).drop_last() =~= v@.take(b - 1));
        }
        b = b - 1;
    }
    proof {
        assert(v@.take(b as int).len() == b as int);
        if b > 0 {
            assert(v@.take(b as int).last() == v@[b - 1]);
        }
        assert(rtrim_end(v@) == b as int);
        lemma_skip_spaces(v@, 0);
    }
    if a <= b {
        subvec(v, a, b)
    } else {
        Vec::new()
    }
}

/// The whitespace-separated words of `v`.
pub fn split_words_vec(v: &Vec<char>) -> (r: Vec<Vec<char>>)
    ensures
        r.deep_view() == split_words(v@),
{
    let n = v.len();
    let mut r: Vec<Vec<char>> = Vec::new();
    let mut i: usize = 0;
    while i < n
        invariant
            i <= n,
            n == v@.len(),
            split_words(v@) == r.deep_view() + split_from(v@, i as int),
        decreases n - i,
    {
        if is_space_char(v[i]) {
            i = i + 1;
        } else {
            proof {
                lemma_word_end(v@, i as int);
            }
            let e = word_end_from(v, i);
            let w = subvec(v, i, e);
            let ghost prev = r.deep_view();
            r.push(w);
            proof {
                assert(r.deep_view() =~~= prev + seq![w@]);
                assert(prev + (seq![w@] + split_from(v@, e as int)) =~= (prev + seq![w@])
                    + split_from(v@, e as int));
            }
            i = e;
        }
    }
    proof {
        assert(r.deep_view() + split_from(v@, n as int) =~= r.deep_view());
    }
    r
}

/// An ASCII decimal digit.
pub open spec fn is_digit(c: char) -> bool {
    48 <= c as u32 && c as u32 <= 57
}

/// The numeric value of a digit.
pub open spec fn digit_val(c: char) -> int {
    (c as u32) - 48
}

/// `s` is one or more digits and nothing else.
pub open spec fn all_digits(s: Seq<char>) -> bool {
    s.len() > 0 && forall|i: int| 0 <= i < s.len() ==> is_digit(#[trigger] s[i])
}

/// The value of a digit string, most significant digit first.
pub open spec fn digits_val(s: Seq<char>) -> int
    decreases s.len(),
{
    if s.len() == 0 {
        0
    } else {
        digits_val(s.drop_last()) * 10 + digit_val(s.last())
    }
}

/// A digit string never has a negative value.
pub proof fn lemma_digits_val_nonneg(s: Seq<char>)
    requires
        forall|i: int| 0 <= i < s.len() ==> is_digit(#[trigger] s[i]),
    ensures
        digits_val(s) >= 0,
    decreases s.len(),
{
    if s.len() > 0 {
        lemma_digits_val_nonneg(s.drop_last());
    }
}

/// The mathematical integer a character string denotes: an optional minus
/// sign followed by one or more decimal digits, or nothing.
pub open spec fn parse_int_spec(s: Seq<char>) -> Option<int> {
    if s.len() > 0 && s[0] == '-' {
        let digits = s.subrange(1, s.len() as int);
        if all_digits(digits) {
            Some(-digits_val(digits))
        } else {
            None
        }
    } else if all_digits(s) {
        Some(digits_val(s))
    } else {
        None
    }
}

/// Parses `v` as a decimal integer. Returns the denoted value exactly when
/// `v` is well-formed and the value fits in an `i32`.
pub fn parse_int_chars(v: &Vec<char>) -> (r: Option<i32>)
    ensures
        r is Some <==> (parse_int_spec(v@) is Some && i32::MIN <= parse_int_spec(v@)->0
            <= i32::MAX),
        r is Some ==> r->0 as int == parse_int_spec(v@)->0,
{
    let n = v.len();
    let neg = n > 0 && v[0] == '-';
    let start: usize = if neg {
        1
    } else {
        0
    };
    if start >= n {
        return None;
    }
    let ghost digits = v@.subrange(start as int, n as int);
    let mut acc: i64 = 0;
    let mut over = false;
    let mut i = start;
    while i < n
        invariant
            start <= i <= n,
            n == v@.len(),
            start < n,
            start == if neg { 1int } else { 0int },
            neg ==> v@[0] == '-',
            !neg ==> v@[0] != '-',
            digits == v@.subrange(start as int, n as int),
            forall|k: int| 0 <= k < i - start ==> is_digit(#[trigger] digits[k]),
            !over ==> acc == digits_val(digits.take(i - start)) && 0 <= acc <= 2147483648,
            over ==> digits_val(digits.take(i - start)) > 2147483648,
        decreases n - i,
    {
        let c = v[i];
        let u = c as u32;
        if u < 48 || u > 57 {
            proof {
                assert(digits[i - start] == v@[i as int]);
                assert(!all_digits(digits));
            }
            return None;
        }
        proof {
            assert(digits[i - start] == v@[i as int]);
            assert(is_digit(digits[i - start]));
            assert(digits.take(i + 1 - start).drop_last() =~= digits.take(i - start));
            assert(digits.take(i + 1 - start).last() == v@[i as int]);
        }
        let d = (u - 48) as i64;
        if over {
            proof {
                lemma_digits_val_nonneg(digits.take(i - start));
            }
        } else {
            let next = acc * 10 + d;
            if next > 2147483648 {
                over = true;
                proof {
                    assert(digits_val(digits.take(i + 1 - start)) == next);
                }
            } else {
                acc = next;
            }
        }
        i = i + 1;
    }
    proof {
        assert(digits.take(n - start) =~= digits);
        assert(all_digits(digits));
        if neg {
            assert(v@.subrange(1, n as int) == digits);
        } else {
            assert(v@ =~= digits);
        }
    }
    if over {
        return None;
    }
    if neg {
        if acc == 2147483648 {
            Some(i32::MIN)
        } else {
            Some(0 - (acc as i32))
        }
    } else {
        if acc == 2147483648 {
            None
        } else {
            Some(acc as i32)
        }
    }
}



/// Relies on `String::push`: appends exactly the given character to the
/// end of the string.
#[verifier::external_body]
fn push_char(s: &mut String, c: char)
    ensures
        final(s)@ == old(s)@.push(c),
{
    s.push(c);
}

/// A string holding exactly the characters of `v`.
pub fn string_of_chars(v: &Vec<char>) -> (r: String)
    ensures
        r@ == v@,
{
    let n = v.len();
    let mut r = String::new();
    let mut i: usize = 0;
    while i < n
        invariant
            i <= n,
            n == v@.len(),
            r@ == v@.take(i as int),
        decreases n - i,
    {
        push_char(&mut r, v[i]);
        i = i + 1;
        proof {
            assert(r@ =~= v@.take(i as int));
        }
    }
    proof {
        assert(v@.take(n as int) =~= v@);
    }
    r
}

} // verus!
