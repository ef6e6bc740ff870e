//! Small operations on text that the rest of the library shares.

use vstd::prelude::*;
use vstd::std_specs::iter::IteratorSpec;
use vstd::string::*;

verus! {

/// The strings of `list`, each as its sequence of characters.
pub open spec fn texts(list: Seq<String>) -> Seq<Seq<char>> {
    list.map_values(|s: String| s@)
}

/// `true` when `name` is one of `list`.
pub fn contains_text(list: &Vec<String>, name: &String) -> (r: bool)
    ensures
        r == texts(list@).contains(name@),
{
    let mut i: usize = 0;
    while i < list.len()
        invariant
            i <= list.len(),
            forall|k: int| 0 <= k < i ==> list@[k]@ != name@,
        decreases list.len() - i,
    {
        if list[i] == *name {
            assert(texts(list@)[i as int] == name@);
            return true;
        }
        i += 1;
    }
    false
}

/// The characters of `s`.
pub fn chars_of(s: &str) -> (r: Vec<char>)
    ensures
        r@ == s@,
{
    let mut out: Vec<char> = Vec::new();
    let mut it = s.chars();
    loop
        invariant
            out@ + it.remaining() == s@,
            it.obeys_prophetic_iter_laws(),
            it.decrease() is Some,
        decreases it.decrease()->0,
    {
        match it.next() {
            Some(c) => {
                out.push(c);
                assert(out@ + it.remaining() =~= s@);
            },
            None => {
                assert(out@ =~= s@);
                return out;
            },
        }
    }
}

/// `true` when `pattern` occurs in `s` from position `at` on.
pub open spec fn occurs_at(s: Seq<char>, pattern: Seq<char>, at: int) -> bool {
    0 <= at && at + pattern.len() <= s.len() && s.subrange(at, at + pattern.len()) == pattern
}

/// `true` when `pattern` occurs somewhere in `s`.
pub open spec fn has_substring(s: Seq<char>, pattern: Seq<char>) -> bool {
    exists|at: int| occurs_at(s, pattern, at)
}

/// `true` when `pattern` stands in `s` at position `at`.
pub fn matches_at(s: &Vec<char>, pattern: &Vec<char>, at: usize) -> (r: bool)
    ensures
        r == occurs_at(s@, pattern@, at as int),
{
    if pattern.len() > s.len() || at > s.len() - pattern.len() {
        return false;
    }
    let mut k: usize = 0;
    while k < pattern.len()
        invariant
            k <= pattern.len(),
            at + pattern.len() <= s.len(),
            forall|j: int| 0 <= j < k ==> s@[at + j] == pattern@[j],
        decreases pattern.len() - k,
    {
        if s[at + k] != pattern[k] {
            assert(s@.subrange(at as int, at + pattern.len())[k as int] != pattern@[k as int]);
            return false;
        }
        k += 1;
    }
    assert(s@.subrange(at as int, at + pattern.len()) =~= pattern@);
    true
}

/// `true` when `s` begins with `prefix`.
pub fn starts_with(s: &str, prefix: &str) -> (r: bool)
    ensures
        r == prefix@.is_prefix_of(s@),
{
    let text = chars_of(s);
    let pattern = chars_of(prefix);
    let r = matches_at(&text, &pattern, 0);
    proof {
        if r {
            assert(prefix@ =~= s@.subrange(0, prefix@.len() as int));
        }
        if prefix@.is_prefix_of(s@) {
            assert(s@.subrange(0, prefix@.len() as int) =~= prefix@);
        }
    }
    r
}

/// `true` when `pattern` occurs somewhere in `s`.
pub fn contains_str(s: &str, pattern: &str) -> (r: bool)
    ensures
        r == has_substring(s@, pattern@),
{
    let text = chars_of(s);
    let wanted = chars_of(pattern);
    if wanted.len() > text.len() {
        return false;
    }
    let last: usize = text.len() - wanted.len();
    let mut at: usize = 0;
    loop
        invariant
            at <= last,
            last == text.len() - wanted.len(),
            text@ == s@,
            wanted@ == pattern@,
            forall|j: int| 0 <= j < at ==> !occurs_at(s@, pattern@, j),
        decreases last - at,
    {
        if matches_at(&text, &wanted, at) {
            return true;
        }
        if at == last {
            return false;
        }
        at += 1;
    }
}

/// `true` when `a` and `b` hold the same characters.
pub fn str_eq(a: &str, b: &str) -> (r: bool)
    ensures
        r == (a@ == b@),
{
    let left = chars_of(a);
    let right = chars_of(b);
    if left.len() != right.len() {
        return false;
    }
    let r = matches_at(&left, &right, 0);
    proof {
        assert(left@.subrange(0, left@.len() as int) =~= left@);
    }
    r
}

/// The decimal digit for `d` (`0 <= d <= 9`).
pub open spec fn digit_char(d: int) -> char {
    if d == 0 {
        '0'
    } else if d == 1 {
        '1'
    } else if d == 2 {
        '2'
    } else if d == 3 {
        '3'
    } else if d == 4 {
        '4'
    } else if d == 5 {
        '5'
    } else if d == 6 {
        '6'
    } else if d == 7 {
        '7'
    } else if d == 8 {
        '8'
    } else {
        '9'
    }
}

/// The value of a decimal digit; `None` for any other character.
pub open spec fn digit_value(c: char) -> Option<int> {
    if c == '0' {
        Some(0)
    } else if c == '1' {
        Some(1)
    } else if c == '2' {
        Some(2)
    } else if c == '3' {
        Some(3)
    } else if c == '4' {
        Some(4)
    } else if c == '5' {
        Some(5)
    } else if c == '6' {
        Some(6)
    } else if c == '7' {
        Some(7)
    } else if c == '8' {
        Some(8)
    } else if c == '9' {
        Some(9)
    } else {
        None
    }
}

/// `n` written in decimal, without leading zeros.
pub open spec fn decimal(n: nat) -> Seq<char>
    decreases n,
{
    if n < 10 {
        seq![digit_char(n as int)]
    } else {
        decimal(n / 10).push(digit_char((n % 10) as int))
    }
}

/// The number that the decimal digits `s` stand for; `None` where `s` is
/// empty or holds anything but digits.
pub open spec fn decimal_value(s: Seq<char>) -> Option<nat>
    decreases s.len(),
{
    if s.len() == 0 {
        None
    } else {
        match digit_value(s.last()) {
            None => None,
            Some(d) => if s.len() == 1 {
                Some(d as nat)
            } else {
                match decimal_value(s.drop_last()) {
                    None => None,
                    Some(v) => Some((v * 10 + d) as nat),
                }
            },
        }
    }
}

/// `s` without the plus sign that may stand before a number.
pub open spec fn unsigned(s: Seq<char>) -> Seq<char> {
    if s.len() > 0 && s[0] == '+' {
        s.subrange(1, s.len() as int)
    } else {
        s
    }
}

/// The `u64` that `s` stands for, where it stands for one: decimal digits,
/// which a plus sign may precede.
pub open spec fn u64_of(s: Seq<char>) -> Option<u64> {
    match decimal_value(unsigned(s)) {
        Some(v) => if v <= u64::MAX {
            Some(v as u64)
        } else {
            None
        },
        None => None,
    }
}

/// Reading a number that was written gives the number back.
pub proof fn lemma_decimal_round_trip(n: nat)
    ensures
        decimal_value(decimal(n)) == Some(n),
        decimal(n).len() >= 1,
        digit_value(decimal(n)[0]).is_some(),
        unsigned(decimal(n)) == decimal(n),
    decreases n,
{
    if n < 10 {
        assert(decimal(n).last() == digit_char(n as int));
    } else {
        lemma_decimal_round_trip(n / 10);
        let s = decimal(n);
        assert(s.last() == digit_char((n % 10) as int));
        assert(s.drop_last() =~= decimal(n / 10));
        assert(s[0] == decimal(n / 10)[0]);
    }
}

fn digit_text(d: u64) -> (r: &'static str)
    requires
        d < 10,
    ensures
        r@ == seq![digit_char(d as int)],
{
    proof {
        reveal_strlit("0");
        reveal_strlit("1");
        reveal_strlit("2");
        reveal_strlit("3");
        reveal_strlit("4");
        reveal_strlit("5");
        reveal_strlit("6");
        reveal_strlit("7");
        reveal_strlit("8");
        reveal_strlit("9");
    }
    let r = if d == 0 {
        "0"
    } else if d == 1 {
        "1"
    } else if d == 2 {
        "2"
    } else if d == 3 {
        "3"
    } else if d == 4 {
        "4"
    } else if d == 5 {
        "5"
    } else if d == 6 {
        "6"
    } else if d == 7 {
        "7"
    } else if d == 8 {
        "8"
    } else {
        "9"
    };
    assert(r@ =~= seq![digit_char(d as int)]);
    r
}

/// `n` written in decimal.
pub fn format_u64(n: u64) -> (r: String)
    ensures
        r@ == decimal(n as nat),
    decreases n,
{
    if n < 10 {
        String::from_str(digit_text(n))
    } else {
        let mut s = format_u64(n / 10);
        s.append(digit_text(n % 10));
        assert(s@ =~= decimal(n as nat));
        s
    }
}

fn digit_of(c: char) -> (r: Option<u64>)
    ensures
        match r {
            Some(d) => digit_value(c) == Some(d as int) && d < 10,
            None => digit_value(c).is_none(),
        },
{
    if c == '0' {
        Some(0)
    } else if c == '1' {
        Some(1)
    } else if c == '2' {
        Some(2)
    } else if c == '3' {
        Some(3)
    } else if c == '4' {
        Some(4)
    } else if c == '5' {
        Some(5)
    } else if c == '6' {
        Some(6)
    } else if c == '7' {
        Some(7)
    } else if c == '8' {
        Some(8)
    } else if c == '9' {
        Some(9)
    } else {
        None
    }
}

proof fn lemma_decimal_value_grows(s: Seq<char>, k: int)
    requires
        0 < k <= s.len(),
        decimal_value(s.subrange(0, k)).is_none(),
    ensures
        decimal_value(s).is_none(),
    decreases s.len() - k,
{
    if k < s.len() {
        assert(s.subrange(0, k + 1).drop_last() =~= s.subrange(0, k));
        lemma_decimal_value_grows(s, k + 1);
    } else {
        assert(s.subrange(0, k) =~= s);
    }
}

proof fn lemma_decimal_value_monotone(s: Seq<char>, k: int)
    requires
        0 < k <= s.len(),
    ensures
        match (decimal_value(s.subrange(0, k)), decimal_value(s)) {
            (Some(a), Some(b)) => a <= b,
            _ => true,
        },
    decreases s.len() - k,
{
    if k < s.len() {
        assert(s.subrange(0, k + 1).drop_last() =~= s.subrange(0, k));
        lemma_decimal_value_monotone(s, k + 1);
        if decimal_value(s.subrange(0, k + 1)).is_none() {
            lemma_decimal_value_grows(s, k + 1);
        }
    } else {
        assert(s.subrange(0, k) =~= s);
    }
}

/// The number `value` as a `u64`, where it is one.
pub open spec fn as_u64(value: Option<nat>) -> Option<u64> {
    match value {
        Some(v) => if v <= u64::MAX {
            Some(v as u64)
        } else {
            None
        },
        None => None,
    }
}

/// Reads `digits` as a `u64`: decimal digits, which a plus sign may
/// precede. `None` where there is no digit, another character, or a number
/// too large.
pub fn parse_digits(digits: &Vec<char>) -> (r: Option<u64>)
    ensures
        r == u64_of(digits@),
{
    if digits.len() > 0 && digits[0] == '+' {
        let rest = text_between(digits, 1, digits.len());
        parse_plain_digits(&rest)
    } else {
        parse_plain_digits(digits)
    }
}

fn parse_plain_digits(digits: &Vec<char>) -> (r: Option<u64>)
    ensures
        r == as_u64(decimal_value(digits@)),
{
    if digits.len() == 0 {
        return None;
    }
    let mut value: u64 = 0;
    let mut i: usize = 0;
    while i < digits.len()
        invariant
            i <= digits@.len(),
            digits@.len() > 0,
            i > 0 ==> decimal_value(digits@.subrange(0, i as int)) == Some(value as nat),
            i == 0 ==> value == 0,
        decreases digits.len() - i,
    {
        let ghost prefix = digits@.subrange(0, i + 1);
        proof {
            assert(prefix.drop_last() =~= digits@.subrange(0, i as int));
            assert(prefix.last() == digits@[i as int]);
        }
        let d = match digit_of(digits[i]) {
            Some(d) => d,
            None => {
                proof {
                    lemma_decimal_value_grows(digits@, i + 1);
                }
                return None;
            },
        };
        if value > (u64::MAX - d) / 10 {
            proof {
                assert(decimal_value(prefix) matches Some(v) && v > u64::MAX);
                lemma_decimal_value_monotone(digits@, i + 1);
            }
            return None;
        }
        value = value * 10 + d;
        i += 1;
    }
    assert(digits@.subrange(0, i as int) =~= digits@);
    Some(value)
}

/// Reads `s` as a `u64` written in decimal digits, which a plus sign may
/// precede.
pub fn parse_u64(s: &str) -> (r: Option<u64>)
    ensures
        r == u64_of(s@),
{
    let digits = chars_of(s);
    parse_digits(&digits)
}

/// `true` when `name` is one of `list`.
pub fn contains_name(list: &Vec<String>, name: &str) -> (r: bool)
    ensures
        r == texts(list@).contains(name@),
{
    let mut i: usize = 0;
    while i < list.len()
        invariant
            i <= list.len(),
            forall|k: int| 0 <= k < i ==> list@[k]@ != name@,
        decreases list.len() - i,
    {
        if str_eq(list[i].as_str(), name) {
            assert(texts(list@)[i as int] == name@);
            return true;
        }
        i += 1;
    }
    false
}

/// `true` for the characters that Unicode calls white space.
pub open spec fn is_space(c: char) -> bool {
    let code = c as u32;
    ||| 0x09 <= code <= 0x0d
    ||| code == 0x20
    ||| code == 0x85
    ||| code == 0xa0
    ||| code == 0x1680
    ||| 0x2000 <= code <= 0x200a
    ||| code == 0x2028
    ||| code == 0x2029
    ||| code == 0x202f
    ||| code == 0x205f
    ||| code == 0x3000
}

/// `true` for the characters that Unicode calls white space.
pub fn is_whitespace(c: char) -> (r: bool)
    ensures
        r == is_space(c),
{
    let code: u32 = c as u32;
    (0x09 <= code && code <= 0x0d) || code == 0x20 || code == 0x85 || code == 0xa0 || code
        == 0x1680 || (0x2000 <= code && code <= 0x200a) || code == 0x2028 || code == 0x2029
        || code == 0x202f || code == 0x205f || code == 0x3000
}

/// The position of the first character at or after `from` that is no
/// white space, or the length of `s`.
pub open spec fn skip_spaces(s: Seq<char>, from: int) -> int
    decreases s.len() - from,
{
    if from < 0 || from >= s.len() || !is_space(s[from]) {
        from
    } else {
        skip_spaces(s, from + 1)
    }
}

/// The position of the first white space at or after `from`, or the length
/// of `s`.
pub open spec fn word_end(s: Seq<char>, from: int) -> int
    decreases s.len() - from,
{
    if from < 0 || from >= s.len() || is_space(s[from]) {
        from
    } else {
        word_end(s, from + 1)
    }
}

/// The position behind the last character before `to` that is no white
/// space, or zero.
pub open spec fn skip_spaces_back(s: Seq<char>, to: int) -> int
    decreases to,
{
    if to <= 0 || to > s.len() || !is_space(s[to - 1]) {
        to
    } else {
        skip_spaces_back(s, to - 1)
    }
}

/// `s` without the white space at its ends.
pub open spec fn trimmed(s: Seq<char>) -> Seq<char> {
    let start = skip_spaces(s, 0);
    if start >= s.len() {
        Seq::empty()
    } else {
        s.subrange(start, skip_spaces_back(s, s.len() as int))
    }
}

/// Skipping white space or a word moves forward and stays inside `s`; a
/// word that starts at `from` holds at least one character.
pub proof fn lemma_skip_spaces_bounds(s: Seq<char>, from: int)
    requires
        0 <= from <= s.len(),
    ensures
        from <= skip_spaces(s, from) <= s.len(),
        from <= word_end(s, from) <= s.len(),
        from < s.len() && !is_space(s[from]) ==> word_end(s, from) > from,
        skip_spaces(s, from) < s.len() ==> !is_space(s[skip_spaces(s, from)]),
    decreases s.len() - from,
{
    if from < s.len() {
        lemma_skip_spaces_bounds(s, from + 1);
    }
}

proof fn lemma_skip_back_bounds(s: Seq<char>, to: int, start: int)
    requires
        0 <= start < to <= s.len(),
        !is_space(s[start]),
    ensures
        start < skip_spaces_back(s, to) <= to,
    decreases to,
{
    if is_space(s[to - 1]) {
        lemma_skip_back_bounds(s, to - 1, start);
    }
}

/// The words of `s` from `from` on: the longest runs of characters that
/// are no white space.
pub open spec fn words_from(s: Seq<char>, from: int) -> Seq<Seq<char>>
    decreases s.len() - from,
{
    if from < 0 || from >= s.len() {
        Seq::empty()
    } else if is_space(s[from]) {
        words_from(s, from + 1)
    } else {
        proof {
            lemma_skip_spaces_bounds(s, from);
        }
        seq![s.subrange(from, word_end(s, from))] + words_from(s, word_end(s, from))
    }
}

/// The words of `s`.
pub open spec fn words(s: Seq<char>) -> Seq<Seq<char>> {
    words_from(s, 0)
}

/// The position of the first character at or after `from` that is no
/// white space.
pub fn find_non_space(chars: &Vec<char>, from: usize) -> (r: usize)
    requires
        from <= chars@.len(),
    ensures
        r == skip_spaces(chars@, from as int),
        from <= r <= chars@.len(),
{
    let mut i: usize = from;
    while i < chars.len() && is_whitespace(chars[i])
        invariant
            from <= i <= chars@.len(),
            skip_spaces(chars@, from as int) == skip_spaces(chars@, i as int),
        decreases chars.len() - i,
    {
        i += 1;
    }
    i
}

fn find_space(chars: &Vec<char>, from: usize) -> (r: usize)
    requires
        from <= chars@.len(),
    ensures
        r == word_end(chars@, from as int),
        from <= r <= chars@.len(),
{
    let mut i: usize = from;
    while i < chars.len() && !is_whitespace(chars[i])
        invariant
            from <= i <= chars@.len(),
            word_end(chars@, from as int) == word_end(chars@, i as int),
        decreases chars.len() - i,
    {
        i += 1;
    }
    i
}

/// `s` without the white space at its ends.
pub fn trim(s: &str) -> (r: String)
    ensures
        r@ == trimmed(s@),
{
    let chars = chars_of(s);
    let start: usize = find_non_space(&chars, 0);
    if start >= chars.len() {
        return String::new();
    }
    let mut end: usize = chars.len();
    while end > 0 && is_whitespace(chars[end - 1])
        invariant
            end <= chars@.len(),
            skip_spaces_back(chars@, chars@.len() as int) == skip_spaces_back(chars@, end as int),
        decreases end,
    {
        end -= 1;
    }
    proof {
        lemma_skip_spaces_bounds(chars@, 0);
        lemma_skip_back_bounds(chars@, chars@.len() as int, start as int);
    }
    String::from_str(s.substring_char(start, end))
}

/// The words of `s`, in order.
pub fn split_whitespace(s: &str) -> (r: Vec<String>)
    ensures
        texts(r@) == words(s@),
{
    let chars = chars_of(s);
    let mut out: Vec<String> = Vec::new();
    let mut at: usize = 0;
    assert(texts(out@) + words_from(s@, 0) =~= words_from(s@, 0));
    while at < chars.len()
        invariant
            at <= chars@.len(),
            chars@ == s@,
            words(s@) == texts(out@) + words_from(s@, at as int),
        decreases chars.len() - at,
    {
        if is_whitespace(chars[at]) {
            at += 1;
        } else {
            let end: usize = find_space(&chars, at);
            proof {
                lemma_skip_spaces_bounds(s@, at as int);
            }
            let word = String::from_str(s.substring_char(at, end));
            let ghost before = texts(out@);
            let ghost rest = words_from(s@, end as int);
            out.push(word);
            proof {
                assert(texts(out@) =~= before + seq![word@]);
                assert(before + (seq![word@] + rest) =~= (before + seq![word@]) + rest);
            }
            at = end;
        }
    }
    assert(texts(out@) + Seq::<Seq<char>>::empty() =~= texts(out@));
    out
}

/// `s` in lower case, as Unicode maps it.
pub uninterp spec fn lowercase(s: Seq<char>) -> Seq<char>;

/// `str::to_lowercase` of the standard library. Believed, not proved: the
/// result is the lower-case mapping of the argument, a function of the
/// characters alone.
#[verifier::external_body]
pub(crate) fn to_lowercase(s: &str) -> (r: String)
    ensures
        r@ == lowercase(s@),
{
    s.to_lowercase()
}

/// `a`, a slash, and `b`.
pub open spec fn joined(a: Seq<char>, b: Seq<char>) -> Seq<char> {
    a + "/"@ + b
}

/// The path of `file` in the directory `directory`.
pub fn join_path(directory: &str, file: &str) -> (r: String)
    ensures
        r@ == joined(directory@, file@),
{
    let mut path = String::from_str(directory);
    path.append("/");
    path.append(file);
    path
}

/// The position of the first line feed at or after `from`, or the length
/// of `s`.
pub open spec fn line_end(s: Seq<char>, from: int) -> int
    decreases s.len() - from,
{
    if from < 0 || from >= s.len() || s[from] == '\n' {
        from
    } else {
        line_end(s, from + 1)
    }
}

/// Where the text of a line ends that starts at `from` and whose line feed
/// stands at `end`: before the carriage return that directly precedes the
/// line feed, if there is one.
pub open spec fn line_text_end(s: Seq<char>, from: int, end: int) -> int {
    if from < end && s[end - 1] == '\r' {
        end - 1
    } else {
        end
    }
}

/// A line feed ends a line, together with a carriage return directly
/// before it; so does the end of `s`, unless nothing follows the last line
/// feed. A carriage return that no line feed follows belongs to its line.
pub open spec fn lines_from(s: Seq<char>, from: int) -> Seq<Seq<char>>
    decreases s.len() - from,
{
    if from < 0 || from >= s.len() {
        Seq::empty()
    } else {
        proof {
            lemma_line_end_bounds(s, from);
            assert(from <= line_end(s, from) <= s.len());
        }
        if line_end(s, from) >= s.len() {
            seq![s.subrange(from, line_end(s, from))]
        } else {
            seq![s.subrange(from, line_text_end(s, from, line_end(s, from)))] + lines_from(
                s,
                line_end(s, from) + 1,
            )
        }
    }
}

/// The lines of `s`, without their line endings.
pub open spec fn lines(s: Seq<char>) -> Seq<Seq<char>> {
    lines_from(s, 0)
}

/// The end of a line lies at or after its start, inside `s`.
pub proof fn lemma_line_end_bounds(s: Seq<char>, from: int)
    requires
        0 <= from <= s.len(),
    ensures
        from <= line_end(s, from) <= s.len(),
    decreases s.len() - from,
{
    if from < s.len() && s[from] != '\n' {
        lemma_line_end_bounds(s, from + 1);
    }
}

/// The lines of `s`, in order, without their line endings.
pub fn split_lines(s: &str) -> (r: Vec<String>)
    ensures
        texts(r@) == lines(s@),
{
    let chars = chars_of(s);
    let mut out: Vec<String> = Vec::new();
    let mut at: usize = 0;
    assert(texts(out@) + lines_from(s@, 0) =~= lines_from(s@, 0));
    while at < chars.len()
        invariant
            at <= chars@.len(),
            chars@ == s@,
            lines(s@) == texts(out@) + lines_from(s@, at as int),
        decreases chars.len() - at,
    {
        let mut end: usize = at;
        while end < chars.len() && chars[end] != '\n'
            invariant
                at <= end <= chars@.len(),
                line_end(chars@, at as int) == line_end(chars@, end as int),
            decreases chars.len() - end,
        {
            end += 1;
        }
        let stop: usize = if end < chars.len() && at < end && chars[end - 1] == '\r' {
            end - 1
        } else {
            end
        };
        let line = String::from_str(s.substring_char(at, stop));
        let ghost before = texts(out@);
        let ghost rest = lines_from(s@, end + 1);
        out.push(line);
        proof {
            assert(texts(out@) =~= before + seq![line@]);
            assert(before + (seq![line@] + rest) =~= (before + seq![line@]) + rest);
        }
        if end == chars.len() {
            return out;
        }
        at = end + 1;
    }
    assert(texts(out@) + Seq::<Seq<char>>::empty() =~= texts(out@));
    out
}

/// The `u32` that `s` stands for, where it stands for one.
pub open spec fn u32_of(s: Seq<char>) -> Option<u32> {
    match u64_of(s) {
        Some(v) => if v <= u32::MAX {
            Some(v as u32)
        } else {
            None
        },
        None => None,
    }
}

/// The `i64` that `s` stands for, where it stands for one: decimal digits,
/// after a minus sign for a negative number; a plus sign may stand in its
/// place.
pub open spec fn i64_of(s: Seq<char>) -> Option<i64> {
    if s.len() > 0 && s[0] == '-' {
        match decimal_value(s.subrange(1, s.len() as int)) {
            Some(v) => if v <= 0x8000_0000_0000_0000 {
                Some((-(v as int)) as i64)
            } else {
                None
            },
            None => None,
        }
    } else {
        match decimal_value(unsigned(s)) {
            Some(v) => if v <= i64::MAX {
                Some(v as i64)
            } else {
                None
            },
            None => None,
        }
    }
}

/// Reads `s` as a `u32` written in decimal digits, which a plus sign may
/// precede.
pub fn parse_u32(s: &str) -> (r: Option<u32>)
    ensures
        r == u32_of(s@),
{
    match parse_u64(s) {
        Some(v) => if v <= u32::MAX as u64 {
            Some(v as u32)
        } else {
            None
        },
        None => None,
    }
}

/// Reads `s` as an `i64` written in decimal digits, which a minus sign,
/// for a negative number, or a plus sign may precede.
pub fn parse_i64(s: &str) -> (r: Option<i64>)
    ensures
        r == i64_of(s@),
{
    let chars = chars_of(s);
    if chars.len() > 0 && chars[0] == '-' {
        let mut digits: Vec<char> = Vec::new();
        let mut i: usize = 1;
        while i < chars.len()
            invariant
                1 <= i <= chars@.len(),
                digits@ == chars@.subrange(1, i as int),
            decreases chars.len() - i,
        {
            digits.push(chars[i]);
            assert(digits@ =~= chars@.subrange(1, i + 1));
            i += 1;
        }
        match parse_plain_digits(&digits) {
            Some(v) => if v <= 0x8000_0000_0000_0000 {
                if v == 0x8000_0000_0000_0000 {
                    Some(i64::MIN)
                } else {
                    Some(-(v as i64))
                }
            } else {
                None
            },
            None => None,
        }
    } else {
        match parse_digits(&chars) {
            Some(v) => if v <= i64::MAX as u64 {
                Some(v as i64)
            } else {
                None
            },
            None => None,
        }
    }
}

/// The position behind every copy of `pattern` that stands, one after the
/// other, at `at`.
pub open spec fn after_prefixes(s: Seq<char>, at: int, pattern: Seq<char>) -> int
    decreases s.len() - at,
{
    if pattern.len() > 0 && occurs_at(s, pattern, at) {
        after_prefixes(s, at + pattern.len(), pattern)
    } else {
        at
    }
}

/// The position behind every copy of `pattern` at `at`.
pub fn skip_prefixes(chars: &Vec<char>, at: usize, pattern: &str) -> (r: usize)
    requires
        at <= chars@.len(),
    ensures
        r == after_prefixes(chars@, at as int, pattern@),
        at <= r <= chars@.len(),
{
    let wanted = chars_of(pattern);
    if wanted.len() == 0 {
        return at;
    }
    let mut i: usize = at;
    while matches_at(chars, &wanted, i)
        invariant
            at <= i <= chars@.len(),
            wanted@ == pattern@,
            wanted@.len() > 0,
            after_prefixes(chars@, at as int, pattern@) == after_prefixes(
                chars@,
                i as int,
                pattern@,
            ),
        decreases chars.len() - i,
    {
        i += wanted.len();
    }
    i
}

/// The characters of `chars` from `from` up to `to`, as a string.
pub fn text_between(chars: &Vec<char>, from: usize, to: usize) -> (r: Vec<char>)
    requires
        from <= to <= chars@.len(),
    ensures
        r@ == chars@.subrange(from as int, to as int),
{
    let mut out: Vec<char> = Vec::new();
    let mut i: usize = from;
    while i < to
        invariant
            from <= i <= to,
            to <= chars@.len(),
            out@ == chars@.subrange(from as int, i as int),
        decreases to - i,
    {
        out.push(chars[i]);
        assert(out@ =~= chars@.subrange(from as int, i + 1));
        i += 1;
    }
    out
}

/// The position behind the last character before `to`, and not before
/// `from`, that is no white space; `from` where there is none.
pub open spec fn word_start_back(s: Seq<char>, from: int, to: int) -> int
    decreases to,
{
    if to <= from || to > s.len() || to <= 0 || !is_space(s[to - 1]) {
        to
    } else {
        word_start_back(s, from, to - 1)
    }
}

/// The position behind the last character before `to`, and not before
/// `from`, that is no white space.
pub fn find_non_space_back(chars: &Vec<char>, from: usize, to: usize) -> (r: usize)
    requires
        from <= to <= chars@.len(),
    ensures
        from <= r <= to,
        r == word_start_back(chars@, from as int, to as int),
{
    let mut end: usize = to;
    while end > from && is_whitespace(chars[end - 1])
        invariant
            from <= end <= to,
            to <= chars@.len(),
            word_start_back(chars@, from as int, to as int) == word_start_back(
                chars@,
                from as int,
                end as int,
            ),
        decreases end,
    {
        end -= 1;
    }
    end
}

/// The position of the first point at or after `from`, or the length of
/// `s`.
pub open spec fn point_position(s: Seq<char>, from: int) -> int
    decreases s.len() - from,
{
    if from < 0 || from >= s.len() || s[from] == '.' {
        from
    } else {
        point_position(s, from + 1)
    }
}

/// The first six digits of `digits` as millionths, digits that are
/// missing counting as zeros; `None` where one of them is no digit.
pub open spec fn fraction_value(digits: Seq<char>, place: nat) -> Option<int>
    decreases 6 - place,
{
    if place >= 6 {
        Some(0)
    } else if place >= digits.len() {
        Some(0)
    } else {
        match (digit_value(digits[place as int]), fraction_value(digits, place + 1)) {
            (Some(d), Some(rest)) => Some(d * place_weight(place) + rest),
            _ => None,
        }
    }
}

/// The millionths that a digit at `place` behind the point counts.
pub open spec fn place_weight(place: nat) -> int {
    if place == 0 {
        100_000
    } else if place == 1 {
        10_000
    } else if place == 2 {
        1_000
    } else if place == 3 {
        100
    } else if place == 4 {
        10
    } else {
        1
    }
}

/// `true` when `s` holds digits only.
pub open spec fn all_digits(s: Seq<char>) -> bool {
    forall|i: int| 0 <= i < s.len() ==> digit_value(#[trigger] s[i]).is_some()
}

/// The digits of `s` behind its first point.
pub open spec fn behind_point(s: Seq<char>) -> Seq<char> {
    if point_position(s, 0) >= s.len() {
        Seq::empty()
    } else {
        s.subrange(point_position(s, 0) + 1, s.len() as int)
    }
}

/// The millionths that the decimal fraction `s`, which has no sign, stands
/// for: digits, a point, and more digits. The digits before the point or
/// those behind it may be missing, not both; the point may be missing where
/// no digit follows it. Digits behind the sixth after the point are cut off.
/// `None` where `s` is anything else or too large.
pub open spec fn plain_millionths_of(s: Seq<char>) -> Option<i64> {
    let whole = s.subrange(0, point_position(s, 0));
    let fraction = behind_point(s);
    if whole.len() == 0 && fraction.len() == 0 {
        None
    } else if !all_digits(fraction) {
        None
    } else {
        let units = if whole.len() == 0 {
            Some(0nat)
        } else {
            decimal_value(whole)
        };
        match (units, fraction_value(fraction, 0)) {
            (Some(u), Some(f)) => if u * 1_000_000 + f <= i64::MAX {
                Some((u * 1_000_000 + f) as i64)
            } else {
                None
            },
            _ => None,
        }
    }
}

/// The millionths that the decimal fraction `s` stands for: a fraction as
/// [`plain_millionths_of`] reads it, which a minus sign, for a negative
/// number, or a plus sign may precede. A number with an exponent, an
/// infinity and what is no number are `None`.
pub open spec fn millionths_of(s: Seq<char>) -> Option<i64> {
    if s.len() > 0 && s[0] == '-' {
        match plain_millionths_of(s.subrange(1, s.len() as int)) {
            Some(v) => Some((-(v as int)) as i64),
            None => None,
        }
    } else {
        plain_millionths_of(unsigned(s))
    }
}

/// The bounds of [`point_position`].
pub proof fn lemma_point_position_bounds(s: Seq<char>, from: int)
    requires
        0 <= from <= s.len(),
    ensures
        from <= point_position(s, from) <= s.len(),
    decreases s.len() - from,
{
    if from < s.len() && s[from] != '.' {
        lemma_point_position_bounds(s, from + 1);
    }
}

proof fn lemma_fraction_bound(digits: Seq<char>, place: nat)
    ensures
        fraction_value(digits, place) matches Some(f) ==> 0 <= f < 10 * place_weight(place)
            || place >= 6 && f == 0,
    decreases 6 - place,
{
    if place < 6 && place < digits.len() {
        lemma_fraction_bound(digits, place + 1);
    }
}

/// Reads a decimal fraction such as `0.52` as millionths.
pub fn parse_millionths(s: &str) -> (r: Option<i64>)
    ensures
        r == millionths_of(s@),
{
    let chars = chars_of(s);
    if chars.len() > 0 && chars[0] == '-' {
        match parse_plain_millionths(s.substring_char(1, chars.len())) {
            Some(v) => Some(-v),
            None => None,
        }
    } else if chars.len() > 0 && chars[0] == '+' {
        parse_plain_millionths(s.substring_char(1, chars.len()))
    } else {
        parse_plain_millionths(s)
    }
}

fn parse_plain_millionths(s: &str) -> (r: Option<i64>)
    ensures
        r == plain_millionths_of(s@),
        r matches Some(v) ==> v >= 0,
{
    let chars = chars_of(s);
    let mut point: usize = 0;
    while point < chars.len() && chars[point] != '.'
        invariant
            point <= chars@.len(),
            point_position(chars@, 0) == point_position(chars@, point as int),
        decreases chars.len() - point,
    {
        point += 1;
    }
    let whole = text_between(&chars, 0, point);
    let digits = if point < chars.len() {
        text_between(&chars, point + 1, chars.len())
    } else {
        Vec::new()
    };
    assert(digits@ =~= behind_point(s@));
    if whole.len() == 0 && digits.len() == 0 {
        return None;
    }
    let mut k: usize = 0;
    while k < digits.len()
        invariant
            k <= digits@.len(),
            digits@ == behind_point(s@),
            whole@ == s@.subrange(0, point_position(s@, 0)),
            whole@.len() > 0 || digits@.len() > 0,
            forall|i: int| 0 <= i < k ==> digit_value(#[trigger] digits@[i]).is_some(),
        decreases digits.len() - k,
    {
        if digit_of(digits[k]).is_none() {
            assert(digit_value(digits@[k as int]).is_none());
            return None;
        }
        k += 1;
    }
    assert(all_digits(digits@));
    proof {
        lemma_fraction_bound(digits@, 0);
    }
    let units: u64 = if whole.len() == 0 {
        0
    } else {
        match parse_plain_digits(&whole) {
            Some(u) => u,
            None => {
                return None;
            },
        }
    };
    let ghost units_spec: Option<nat> = if whole@.len() == 0 {
        Some(0nat)
    } else {
        decimal_value(whole@)
    };
    assert(units_spec == Some(units as nat));
    let mut fraction: u64 = 0;
    let mut place: usize = if digits.len() < 6 {
        digits.len()
    } else {
        6
    };
    while place > 0
        invariant
            place <= 6,
            place <= digits@.len(),
            digits@ == behind_point(s@),
            whole@ == s@.subrange(0, point_position(s@, 0)),
            whole@.len() > 0 || digits@.len() > 0,
            all_digits(digits@),
            units_spec == Some(units as nat),
            units_spec == if whole@.len() == 0 {
                Some(0nat)
            } else {
                decimal_value(whole@)
            },
            fraction_value(digits@, place as nat) == Some(fraction as int),
            fraction < 10 * place_weight(place as nat) || place >= 6,
            fraction <= 1_000_000,
        decreases place,
    {
        place -= 1;
        let weight: u64 = if place == 0 {
            100_000
        } else if place == 1 {
            10_000
        } else if place == 2 {
            1_000
        } else if place == 3 {
            100
        } else if place == 4 {
            10
        } else {
            1
        };
        match digit_of(digits[place]) {
            Some(d) => {
                fraction = d * weight + fraction;
            },
            None => {
                assert(digit_value(digits@[place as int]).is_some());
                return None;
            },
        }
    }
    if units > 9_223_372_036_854 {
        return None;
    }
    let total: u64 = units * 1_000_000 + fraction;
    if total > i64::MAX as u64 {
        None
    } else {
        Some(total as i64)
    }
}

} // verus!
