//! Text primitives: trimming, matching, decimal numbers and ordering, over the
//! characters of a string.
use vstd::prelude::*;
use vstd::string::*;

verus! {

/// `String::push` appends one character to the end of the string.
pub assume_specification[ String::push ](text: &mut String, c: char)
    ensures
        final(text)@ == old(text)@.push(c),
;

/// The characters with the Unicode property White_Space.
pub open spec fn is_white_space(c: char) -> bool {
    ||| '\u{9}' <= c <= '\u{d}'
    ||| c == '\u{20}'
    ||| c == '\u{85}'
    ||| c == '\u{a0}'
    ||| c == '\u{1680}'
    ||| '\u{2000}' <= c <= '\u{200a}'
    ||| c == '\u{2028}'
    ||| c == '\u{2029}'
    ||| c == '\u{202f}'
    ||| c == '\u{205f}'
    ||| c == '\u{3000}'
}

/// `s` without its leading white space.
pub open spec fn trimmed_front(s: Seq<char>) -> Seq<char>
    decreases s.len(),
{
    if s.len() > 0 && is_white_space(s[0]) {
        trimmed_front(s.drop_first())
    } else {
        s
    }
}

/// `s` without its trailing white space.
pub open spec fn trimmed_back(s: Seq<char>) -> Seq<char>
    decreases s.len(),
{
    if s.len() > 0 && is_white_space(s.last()) {
        trimmed_back(s.drop_last())
    } else {
        s
    }
}

/// `s` without white space at either end.
pub open spec fn trimmed(s: Seq<char>) -> Seq<char> {
    trimmed_back(trimmed_front(s))
}

/// `s` holds white space only.
pub open spec fn is_blank(s: Seq<char>) -> bool {
    forall|i: int| 0 <= i < s.len() ==> is_white_space(#[trigger] s[i])
}

/// `s` without the run of `c` at its end.
pub open spec fn without_trailing(s: Seq<char>, c: char) -> Seq<char>
    decreases s.len(),
{
    if s.len() > 0 && s.last() == c {
        without_trailing(s.drop_last(), c)
    } else {
        s
    }
}

/// `s` without the run of `c` at its start.
pub open spec fn without_leading(s: Seq<char>, c: char) -> Seq<char>
    decreases s.len(),
{
    if s.len() > 0 && s[0] == c {
        without_leading(s.drop_first(), c)
    } else {
        s
    }
}

pub open spec fn starts_with(s: Seq<char>, prefix: Seq<char>) -> bool {
    prefix.len() <= s.len() && s.take(prefix.len() as int) == prefix
}

pub open spec fn ends_with(s: Seq<char>, suffix: Seq<char>) -> bool {
    suffix.len() <= s.len() && s.skip(s.len() - suffix.len()) == suffix
}

/// `part` occurs in `s` at position `at`.
pub open spec fn occurs_at(s: Seq<char>, part: Seq<char>, at: int) -> bool {
    0 <= at && at + part.len() <= s.len() && s.subrange(at, at + part.len()) == part
}

pub open spec fn contains(s: Seq<char>, part: Seq<char>) -> bool {
    exists|at: int| occurs_at(s, part, at)
}

/// `s` after `prefix` has been removed from its front as often as it stands there.
pub open spec fn without_prefixes(s: Seq<char>, prefix: Seq<char>) -> Seq<char>
    decreases s.len(),
{
    if prefix.len() > 0 && starts_with(s, prefix) {
        without_prefixes(s.skip(prefix.len() as int), prefix)
    } else {
        s
    }
}

/// `s` after `suffix` has been removed from its end as often as it stands there.
pub open spec fn without_suffixes(s: Seq<char>, suffix: Seq<char>) -> Seq<char>
    decreases s.len(),
{
    if suffix.len() > 0 && ends_with(s, suffix) {
        without_suffixes(s.take(s.len() - suffix.len()), suffix)
    } else {
        s
    }
}

pub open spec fn is_digit(c: char) -> bool {
    '0' <= c <= '9'
}

pub open spec fn digit_char(d: nat) -> char {
    ('0' as nat + d) as char
}

/// The decimal digits of `n`, without leading zeros.
pub open spec fn decimal(n: nat) -> Seq<char>
    decreases n,
{
    if n < 10 {
        seq![digit_char(n)]
    } else {
        decimal(n / 10).push(digit_char(n % 10))
    }
}

/// The decimal digits of `n`, behind a minus sign where it is negative.
pub open spec fn signed_decimal(n: int) -> Seq<char> {
    if n < 0 {
        seq!['-'] + decimal((-n) as nat)
    } else {
        decimal(n as nat)
    }
}

pub open spec fn all_digits(s: Seq<char>) -> bool {
    forall|i: int| 0 <= i < s.len() ==> is_digit(#[trigger] s[i])
}

/// The number that a sequence of digits denotes.
pub open spec fn digits_value(s: Seq<char>) -> nat
    decreases s.len(),
{
    if s.len() == 0 {
        0
    } else {
        digits_value(s.drop_last()) * 10 + (s.last() as nat - '0' as nat) as nat
    }
}

/// The unsigned number that `s` denotes: digits, with one optional plus sign before
/// them, and a value that fits in 64 bits.
pub open spec fn parsed_u64(s: Seq<char>) -> Option<u64> {
    let digits = if s.len() > 0 && s[0] == '+' {
        s.drop_first()
    } else {
        s
    };
    if digits.len() > 0 && all_digits(digits) && digits_value(digits) <= u64::MAX {
        Some(digits_value(digits) as u64)
    } else {
        None
    }
}

pub open spec fn ascii_lower(c: char) -> char {
    if 'A' <= c <= 'Z' {
        (c as nat + 32) as char
    } else {
        c
    }
}

pub open spec fn ascii_lowered(s: Seq<char>) -> Seq<char> {
    s.map_values(|c: char| ascii_lower(c))
}

/// `a` comes strictly before `b` in the order of their code points.
pub open spec fn precedes(a: Seq<char>, b: Seq<char>) -> bool
    decreases a.len(),
{
    if b.len() == 0 {
        false
    } else if a.len() == 0 {
        true
    } else if a[0] == b[0] {
        precedes(a.drop_first(), b.drop_first())
    } else {
        a[0] < b[0]
    }
}

/// The views of the strings in a sequence.
pub open spec fn texts(list: Seq<String>) -> Seq<Seq<char>> {
    list.map_values(|s: String| s@)
}

pub open spec fn text_option(text: Option<String>) -> Option<Seq<char>> {
    match text {
        Some(s) => Some(s@),
        None => None,
    }
}

pub open spec fn str_option(text: Option<&str>) -> Option<Seq<char>> {
    match text {
        Some(s) => Some(s@),
        None => None,
    }
}

/// The last `limit` elements of `s`, or all of them where there are fewer.
pub open spec fn last_of<T>(s: Seq<T>, limit: int) -> Seq<T> {
    if s.len() <= limit {
        s
    } else {
        s.skip(s.len() - limit)
    }
}

pub proof fn lemma_trimmed_front(s: Seq<char>, n: int)
    requires
        0 <= n <= s.len(),
        forall|i: int| 0 <= i < n ==> is_white_space(#[trigger] s[i]),
        n < s.len() ==> !is_white_space(s[n]),
    ensures
        trimmed_front(s) == s.skip(n),
    decreases n,
{
    if n > 0 {
        assert(is_white_space(s[0]));
        let rest = s.drop_first();
        assert forall|i: int| 0 <= i < n - 1 implies is_white_space(#[trigger] rest[i]) by {
            assert(rest[i] == s[i + 1]);
        }
        lemma_trimmed_front(rest, n - 1);
        assert(rest.skip(n - 1) == s.skip(n));
    } else {
        assert(s.skip(0) == s);
    }
}

pub proof fn lemma_trimmed_back(s: Seq<char>, n: int)
    requires
        0 <= n <= s.len(),
        forall|i: int| n <= i < s.len() ==> is_white_space(#[trigger] s[i]),
        n > 0 ==> !is_white_space(s[n - 1]),
    ensures
        trimmed_back(s) == s.take(n),
    decreases s.len(),
{
    if n < s.len() {
        assert(is_white_space(s[s.len() - 1]));
        lemma_trimmed_back(s.drop_last(), n);
        assert(s.drop_last().take(n) == s.take(n));
    } else {
        assert(s.take(n) == s);
    }
}

/// Trimming leaves nothing exactly where there was nothing but white space.
pub proof fn lemma_trimmed_blank(s: Seq<char>)
    ensures
        trimmed(s).len() == 0 <==> is_blank(s),
    decreases s.len(),
{
    if s.len() > 0 && is_white_space(s[0]) {
        let rest = s.drop_first();
        lemma_trimmed_blank(rest);
        if is_blank(s) {
            assert forall|i: int| 0 <= i < rest.len() implies is_white_space(#[trigger] rest[i]) by {
                assert(rest[i] == s[i + 1]);
            }
        }
        if is_blank(rest) {
            assert forall|i: int| 0 <= i < s.len() implies is_white_space(#[trigger] s[i]) by {
                if i > 0 {
                    assert(s[i] == rest[i - 1]);
                }
            }
        }
    } else if s.len() > 0 {
        lemma_trimmed_back_keeps_head(s);
    }
}

proof fn lemma_trimmed_back_keeps_head(s: Seq<char>)
    requires
        s.len() > 0,
        !is_white_space(s[0]),
    ensures
        trimmed_back(s).len() > 0,
        trimmed_back(s)[0] == s[0],
    decreases s.len(),
{
    if is_white_space(s.last()) {
        lemma_trimmed_back_keeps_head(s.drop_last());
    }
}

pub proof fn lemma_without_trailing(s: Seq<char>, c: char, n: int)
    requires
        0 <= n <= s.len(),
        forall|i: int| n <= i < s.len() ==> #[trigger] s[i] == c,
        n > 0 ==> s[n - 1] != c,
    ensures
        without_trailing(s, c) == s.take(n),
    decreases s.len(),
{
    if n < s.len() {
        assert(s[s.len() - 1] == c);
        lemma_without_trailing(s.drop_last(), c, n);
        assert(s.drop_last().take(n) == s.take(n));
    } else {
        assert(s.take(n) == s);
    }
}

pub proof fn lemma_without_leading(s: Seq<char>, c: char, n: int)
    requires
        0 <= n <= s.len(),
        forall|i: int| 0 <= i < n ==> #[trigger] s[i] == c,
        n < s.len() ==> s[n] != c,
    ensures
        without_leading(s, c) == s.skip(n),
    decreases n,
{
    if n > 0 {
        assert(s[0] == c);
        let rest = s.drop_first();
        assert forall|i: int| 0 <= i < n - 1 implies #[trigger] rest[i] == c by {
            assert(rest[i] == s[i + 1]);
        }
        lemma_without_leading(rest, c, n - 1);
        assert(rest.skip(n - 1) == s.skip(n));
    } else {
        assert(s.skip(0) == s);
    }
}

/// What `without_trailing` leaves does not end in `c`, and is a beginning of `s`.
pub proof fn lemma_without_trailing_ends(s: Seq<char>, c: char)
    ensures
        without_trailing(s, c).len() <= s.len(),
        without_trailing(s, c) == s.take(without_trailing(s, c).len() as int),
        without_trailing(s, c).len() > 0 ==> without_trailing(s, c).last() != c,
        forall|i: int| without_trailing(s, c).len() <= i < s.len() ==> #[trigger] s[i] == c,
    decreases s.len(),
{
    if s.len() > 0 && s.last() == c {
        lemma_without_trailing_ends(s.drop_last(), c);
        let n = without_trailing(s, c).len() as int;
        assert(s.drop_last().take(n) == s.take(n));
        assert forall|i: int| n <= i < s.len() implies #[trigger] s[i] == c by {
            if i < s.len() - 1 {
                assert(s.drop_last()[i] == s[i]);
            }
        }
    } else {
        assert(s.take(s.len() as int) == s);
    }
}

/// The characters of `text`, in order.
pub fn chars_of(text: &str) -> (chars: Vec<char>)
    ensures
        chars@ == text@,
{
    let mut chars: Vec<char> = Vec::new();
    for c in iter: text.chars()
        invariant
            chars@ == text@.take(iter.index()),
            iter.seq() == text@,
    {
        chars.push(c);
        assert(text@.take(iter.index() + 1) == text@.take(iter.index()).push(c));
    }
    assert(text@.take(text@.len() as int) == text@);
    chars
}

/// The string with the characters `chars[from..to]`.
pub fn text_of(chars: &Vec<char>, from: usize, to: usize) -> (text: String)
    requires
        from <= to <= chars@.len(),
    ensures
        text@ == chars@.subrange(from as int, to as int),
{
    let mut text = String::new();
    let mut i: usize = from;
    while i < to
        invariant
            from <= i <= to <= chars@.len(),
            text@ == chars@.subrange(from as int, i as int),
        decreases to - i,
    {
        text.push(chars[i]);
        i = i + 1;
        assert(chars@.subrange(from as int, i as int) == chars@.subrange(
            from as int,
            i - 1,
        ).push(chars@[i - 1]));
    }
    text
}

/// Whether the two texts hold the same characters.
pub fn same(a: &str, b: &str) -> (r: bool)
    ensures
        r == (a@ == b@),
{
    a.to_owned() == b.to_owned()
}

pub fn white_space(c: char) -> (r: bool)
    ensures
        r == is_white_space(c),
{
    ('\u{9}' <= c && c <= '\u{d}') || c == '\u{20}' || c == '\u{85}' || c == '\u{a0}' || c
        == '\u{1680}' || ('\u{2000}' <= c && c <= '\u{200a}') || c == '\u{2028}' || c == '\u{2029}'
        || c == '\u{202f}' || c == '\u{205f}' || c == '\u{3000}'
}

/// `text` without white space at either end.
pub fn trim(text: &str) -> (r: &str)
    ensures
        r@ == trimmed(text@),
{
    let chars = chars_of(text);
    let mut start: usize = 0;
    while start < chars.len() && white_space(chars[start])
        invariant
            start <= chars@.len(),
            forall|i: int| 0 <= i < start ==> is_white_space(#[trigger] chars@[i]),
        decreases chars.len() - start,
    {
        start = start + 1;
    }
    proof {
        lemma_trimmed_front(text@, start as int);
    }
    let ghost front = text@.skip(start as int);
    let mut end: usize = chars.len();
    while start < end && white_space(chars[end - 1])
        invariant
            start <= end <= chars@.len(),
            forall|i: int| end <= i < chars@.len() ==> is_white_space(#[trigger] chars@[i]),
        decreases end,
    {
        end = end - 1;
    }
    proof {
        assert forall|i: int| end - start <= i < front.len() implies is_white_space(
            #[trigger] front[i],
        ) by {
            assert(front[i] == chars@[i + start]);
        }
        lemma_trimmed_back(front, end - start);
        assert(front.take(end - start) == text@.subrange(start as int, end as int));
    }
    text.substring_char(start, end)
}

/// Whether `text` holds nothing but white space.
pub fn blank(text: &str) -> (r: bool)
    ensures
        r == is_blank(text@),
{
    proof {
        lemma_trimmed_blank(text@);
    }
    trim(text).is_empty()
}

/// `text` without the run of `c` at its end.
pub fn trim_end_char(text: &str, c: char) -> (r: &str)
    ensures
        r@ == without_trailing(text@, c),
{
    let chars = chars_of(text);
    let mut end: usize = chars.len();
    while end > 0 && chars[end - 1] == c
        invariant
            end <= chars@.len(),
            forall|i: int| end <= i < chars@.len() ==> #[trigger] chars@[i] == c,
        decreases end,
    {
        end = end - 1;
    }
    proof {
        lemma_without_trailing(text@, c, end as int);
        assert(text@.take(end as int) == text@.subrange(0, end as int));
    }
    text.substring_char(0, end)
}

/// `text` without the run of `c` at its start.
pub fn trim_start_char(text: &str, c: char) -> (r: &str)
    ensures
        r@ == without_leading(text@, c),
{
    let chars = chars_of(text);
    let mut start: usize = 0;
    while start < chars.len() && chars[start] == c
        invariant
            start <= chars@.len(),
            forall|i: int| 0 <= i < start ==> #[trigger] chars@[i] == c,
        decreases chars.len() - start,
    {
        start = start + 1;
    }
    proof {
        lemma_without_leading(text@, c, start as int);
        assert(text@.skip(start as int) == text@.subrange(start as int, text@.len() as int));
    }
    text.substring_char(start, chars.len())
}

/// Whether `part` stands in `whole` at position `at`.
fn stands_at(whole: &Vec<char>, part: &Vec<char>, at: usize) -> (r: bool)
    requires
        at + part@.len() <= whole@.len(),
    ensures
        r == occurs_at(whole@, part@, at as int),
{
    let mut i: usize = 0;
    let whole_len: usize = whole.len();
    while i < part.len()
        invariant
            i <= part@.len(),
            whole_len == whole@.len(),
            at + part@.len() <= whole_len,
            forall|j: int| 0 <= j < i ==> whole@[at + j] == #[trigger] part@[j],
        decreases part.len() - i,
    {
        if whole[at + i] != part[i] {
            assert(whole@.subrange(at as int, at + part@.len())[i as int] != part@[i as int]);
            return false;
        }
        i = i + 1;
    }
    assert(whole@.subrange(at as int, at + part@.len()) == part@);
    true
}

/// Whether `text` begins with `prefix`.
pub fn has_prefix(text: &str, prefix: &str) -> (r: bool)
    ensures
        r == starts_with(text@, prefix@),
{
    let whole = chars_of(text);
    let part = chars_of(prefix);
    assert(prefix@.len() <= text@.len() ==> text@.take(prefix@.len() as int) == text@.subrange(
        0,
        prefix@.len() as int,
    ));
    part.len() <= whole.len() && stands_at(&whole, &part, 0)
}

/// Whether `text` ends with `suffix`.
pub fn has_suffix(text: &str, suffix: &str) -> (r: bool)
    ensures
        r == ends_with(text@, suffix@),
{
    let whole = chars_of(text);
    let part = chars_of(suffix);
    assert(suffix@.len() <= text@.len() ==> text@.skip(text@.len() - suffix@.len())
        == text@.subrange(text@.len() - suffix@.len(), text@.len() as int));
    part.len() <= whole.len() && stands_at(&whole, &part, whole.len() - part.len())
}

/// The first position at which `part` occurs in `text`.
pub open spec fn first_occurrence(s: Seq<char>, part: Seq<char>, at: int) -> bool {
    occurs_at(s, part, at) && forall|i: int| 0 <= i < at ==> !#[trigger] occurs_at(s, part, i)
}

/// Where `part` first occurs in `text`, counted in characters.
pub fn find(text: &str, part: &str) -> (r: Option<usize>)
    ensures
        match r {
            Some(at) => first_occurrence(text@, part@, at as int),
            None => !contains(text@, part@),
        },
{
    let whole = chars_of(text);
    let piece = chars_of(part);
    if piece.len() > whole.len() {
        return None;
    }
    let last: usize = whole.len() - piece.len();
    let mut at: usize = 0;
    loop
        invariant
            whole@ == text@,
            piece@ == part@,
            last == whole@.len() - piece@.len(),
            at <= last,
            forall|i: int| 0 <= i < at ==> !#[trigger] occurs_at(text@, part@, i),
        decreases last - at,
    {
        if stands_at(&whole, &piece, at) {
            return Some(at);
        }
        if at == last {
            return None;
        }
        at = at + 1;
    }
}

/// Whether `part` occurs in `text`.
pub fn has_part(text: &str, part: &str) -> (r: bool)
    ensures
        r == contains(text@, part@),
{
    find(text, part).is_some()
}

/// `text` after `prefix` has been removed from its front as often as it stands there.
pub fn strip_prefixes<'a>(text: &'a str, prefix: &str) -> (r: &'a str)
    ensures
        r@ == without_prefixes(text@, prefix@),
    decreases text@.len(),
{
    if !prefix.is_empty() && has_prefix(text, prefix) {
        let cut = prefix.unicode_len();
        let rest = text.substring_char(cut, text.unicode_len());
        assert(rest@ == text@.skip(prefix@.len() as int));
        strip_prefixes(rest, prefix)
    } else {
        text
    }
}

/// `text` after `suffix` has been removed from its end as often as it stands there.
pub fn strip_suffixes<'a>(text: &'a str, suffix: &str) -> (r: &'a str)
    ensures
        r@ == without_suffixes(text@, suffix@),
    decreases text@.len(),
{
    if !suffix.is_empty() && has_suffix(text, suffix) {
        let keep = text.unicode_len() - suffix.unicode_len();
        let rest = text.substring_char(0, keep);
        assert(rest@ == text@.take(text@.len() - suffix@.len()));
        strip_suffixes(rest, suffix)
    } else {
        text
    }
}

/// `text` without `prefix` before it, where it begins with that.
pub fn after_prefix<'a>(text: &'a str, prefix: &str) -> (r: Option<&'a str>)
    ensures
        str_option(r) == (if starts_with(text@, prefix@) {
            Some(text@.skip(prefix@.len() as int))
        } else {
            None
        }),
{
    if has_prefix(text, prefix) {
        let rest = text.substring_char(prefix.unicode_len(), text.unicode_len());
        assert(rest@ == text@.skip(prefix@.len() as int));
        Some(rest)
    } else {
        None
    }
}

fn digit_of(d: u64) -> (c: char)
    requires
        d < 10,
    ensures
        c == digit_char(d as nat),
{
    (48u8 + d as u8) as char
}

/// The decimal digits of `n`.
pub fn decimal_text(n: u64) -> (text: String)
    ensures
        text@ == decimal(n as nat),
    decreases n,
{
    if n < 10 {
        let mut text = String::new();
        text.push(digit_of(n));
        assert(text@ == seq![digit_char(n as nat)]);
        text
    } else {
        let mut text = decimal_text(n / 10);
        text.push(digit_of(n % 10));
        text
    }
}

/// The decimal digits of `n`, behind a minus sign where it is negative.
pub fn signed_decimal_text(n: i32) -> (text: String)
    ensures
        text@ == signed_decimal(n as int),
{
    if n < 0 {
        let magnitude: u64 = (-(n as i64)) as u64;
        let digits = decimal_text(magnitude);
        let mut text = String::new();
        text.push('-');
        text.append(digits.as_str());
        assert(text@ == seq!['-'] + decimal((-n) as nat));
        text
    } else {
        decimal_text(n as u64)
    }
}

proof fn lemma_digits_value_grows(s: Seq<char>, n: int)
    requires
        0 <= n <= s.len(),
        all_digits(s),
    ensures
        digits_value(s.take(n)) <= digits_value(s),
    decreases s.len() - n,
{
    if n < s.len() {
        lemma_digits_value_grows(s, n + 1);
        assert(s.take(n + 1).drop_last() == s.take(n));
    } else {
        assert(s.take(n) == s);
    }
}

/// The unsigned number that `text` denotes.
pub fn parse_u64(text: &str) -> (r: Option<u64>)
    ensures
        r == parsed_u64(text@),
{
    let chars = chars_of(text);
    let start: usize = if chars.len() > 0 && chars[0] == '+' {
        1
    } else {
        0
    };
    let ghost digits = text@.skip(start as int);
    assert(start == 1 ==> digits == text@.drop_first());
    assert(start == 0 ==> digits == text@);
    if start == chars.len() {
        return None;
    }
    let mut value: u64 = 0;
    let mut i: usize = start;
    while i < chars.len()
        invariant
            start <= 1,
            start <= i <= chars@.len(),
            chars@ == text@,
            digits == text@.skip(start as int),
            start == 1 ==> text@[0] == '+' && digits == text@.drop_first(),
            start == 0 ==> digits == text@ && (text@.len() > 0 ==> text@[0] != '+'),
            start < chars@.len(),
            all_digits(digits.take(i - start)),
            value == digits_value(digits.take(i - start)),
        decreases chars.len() - i,
    {
        let c = chars[i];
        assert(digits[i - start] == c);
        if !('0' <= c && c <= '9') {
            assert(!is_digit(digits[i - start]));
            assert(!all_digits(digits));
            return None;
        }
        let ghost shorter = digits.take(i - start);
        let ghost longer = digits.take(i - start + 1);
        assert(longer.drop_last() == shorter);
        assert(longer.last() == c);
        assert(digits_value(longer) == value * 10 + (c as nat - '0' as nat));
        assert(all_digits(longer)) by {
            assert forall|j: int| 0 <= j < longer.len() implies is_digit(#[trigger] longer[j]) by {
                if j < shorter.len() {
                    assert(longer[j] == shorter[j]);
                }
            }
        }
        let d: u64 = (c as u32 - 48) as u64;
        if value > (u64::MAX - d) / 10 {
            assert(digits_value(longer) > u64::MAX);
            proof {
                if all_digits(digits) {
                    lemma_digits_value_grows(digits, i - start + 1);
                }
            }
            assert(!(all_digits(digits) && digits_value(digits) <= u64::MAX));
            return None;
        }
        value = value * 10 + d;
        i = i + 1;
    }
    assert(digits.take(i - start) == digits);
    Some(value)
}

/// Whether the two texts are equal once the ASCII letters of both are lower case.
pub fn same_ignoring_ascii_case(a: &str, b: &str) -> (r: bool)
    ensures
        r == (ascii_lowered(a@) == ascii_lowered(b@)),
{
    let left = chars_of(a);
    let right = chars_of(b);
    if left.len() != right.len() {
        assert(ascii_lowered(a@).len() != ascii_lowered(b@).len());
        return false;
    }
    let mut i: usize = 0;
    while i < left.len()
        invariant
            i <= left@.len(),
            left@ == a@,
            right@ == b@,
            left@.len() == right@.len(),
            forall|j: int| 0 <= j < i ==> ascii_lower(#[trigger] left@[j]) == ascii_lower(right@[j]),
        decreases left.len() - i,
    {
        if lower_ascii(left[i]) != lower_ascii(right[i]) {
            assert(ascii_lowered(left@)[i as int] != ascii_lowered(right@)[i as int]);
            return false;
        }
        i = i + 1;
    }
    assert(ascii_lowered(left@) == ascii_lowered(right@));
    true
}

fn lower_ascii(c: char) -> (r: char)
    ensures
        r == ascii_lower(c),
{
    if 'A' <= c && c <= 'Z' {
        (c as u8 + 32) as char
    } else {
        c
    }
}

/// Whether `a` comes strictly before `b` in the order of their code points.
pub fn comes_before(a: &str, b: &str) -> (r: bool)
    ensures
        r == precedes(a@, b@),
{
    let left = chars_of(a);
    let right = chars_of(b);
    let mut i: usize = 0;
    assert(left@.skip(0) == left@);
    assert(right@.skip(0) == right@);
    while i < left.len() && i < right.len()
        invariant
            i <= left@.len(),
            i <= right@.len(),
            left@ == a@,
            right@ == b@,
            precedes(a@, b@) == precedes(left@.skip(i as int), right@.skip(i as int)),
        decreases left.len() - i,
    {
        if left[i] != right[i] {
            return left[i] < right[i];
        }
        assert(left@.skip(i as int).drop_first() == left@.skip(i + 1));
        assert(right@.skip(i as int).drop_first() == right@.skip(i + 1));
        i = i + 1;
    }
    i < right.len()
}

/// Drops elements from the front of `list` until at most `limit` are left.
pub fn keep_last<T>(list: &mut Vec<T>, limit: usize)
    ensures
        final(list)@ == last_of(old(list)@, limit as int),
{
    if list.len() > limit {
        let extra = list.len() - limit;
        let kept = list.split_off(extra);
        *list = kept;
        assert(list@ == old(list)@.skip(extra as int));
    }
}

pub proof fn lemma_precedes_total(a: Seq<char>, b: Seq<char>)
    ensures
        precedes(a, b) || precedes(b, a) || a == b,
    decreases a.len(),
{
    if a.len() > 0 && b.len() > 0 && a[0] == b[0] {
        lemma_precedes_total(a.drop_first(), b.drop_first());
        if a.drop_first() == b.drop_first() {
            assert(a =~= seq![a[0]] + a.drop_first());
            assert(b =~= seq![b[0]] + b.drop_first());
        }
    } else if a.len() == 0 && b.len() == 0 {
        assert(a =~= b);
    }
}

pub proof fn lemma_precedes_transitive(a: Seq<char>, b: Seq<char>, c: Seq<char>)
    requires
        precedes(a, b),
        precedes(b, c),
    ensures
        precedes(a, c),
    decreases a.len(),
{
    if a.len() > 0 && a[0] == b[0] && b[0] == c[0] {
        lemma_precedes_transitive(a.drop_first(), b.drop_first(), c.drop_first());
    }
}

pub proof fn lemma_precedes_asymmetric(a: Seq<char>, b: Seq<char>)
    requires
        precedes(a, b),
    ensures
        !precedes(b, a),
    decreases a.len(),
{
    if a.len() > 0 && b.len() > 0 && a[0] == b[0] {
        lemma_precedes_asymmetric(a.drop_first(), b.drop_first());
    }
}

proof fn lemma_trimmed_back_ends(s: Seq<char>)
    ensures
        trimmed_back(s).len() > 0 ==> !is_white_space(trimmed_back(s).last()),
    decreases s.len(),
{
    if s.len() > 0 && is_white_space(s.last()) {
        lemma_trimmed_back_ends(s.drop_last());
    }
}

/// Trimming leaves a text that is not blank such.
pub proof fn lemma_trimmed_keeps_content(s: Seq<char>)
    ensures
        is_blank(trimmed(s)) <==> is_blank(s),
{
    lemma_trimmed_blank(s);
    lemma_trimmed_back_ends(trimmed_front(s));
    let t = trimmed(s);
    if t.len() > 0 {
        assert(!is_white_space(t[t.len() - 1]));
    }
}

/// A number that is written in decimal is read back as it was: its digits denote it, and no
/// zero stands before them.
pub proof fn law_decimal_is_read_back(n: u64)
    ensures
        parsed_u64(decimal(n as nat)) == Some(n),
        n >= 10 ==> decimal(n as nat)[0] != '0',
        n < 10 ==> decimal(n as nat) == seq![('0' as nat + n as nat) as char],
{
    lemma_decimal_denotes(n as nat);
}

pub proof fn lemma_decimal_denotes(n: nat)
    ensures
        decimal(n).len() > 0,
        all_digits(decimal(n)),
        digits_value(decimal(n)) == n,
        n > 0 ==> decimal(n)[0] != '0',
        decimal(n)[0] != '+',
    decreases n,
{
    if n >= 10 {
        lemma_decimal_denotes(n / 10);
        let front = decimal(n / 10);
        assert(decimal(n).drop_last() =~= front);
        assert(decimal(n)[0] == front[0]);
        assert forall|i: int| 0 <= i < decimal(n).len() implies is_digit(#[trigger] decimal(n)[i]) by {
            if i < front.len() {
                assert(decimal(n)[i] == front[i]);
            }
        }
    } else {
        assert(decimal(n).drop_last() =~= Seq::empty());
        assert(digits_value(Seq::empty()) == 0);
    }
}

/// Different numbers are written differently.
pub proof fn law_decimals_differ(a: u64, b: u64)
    requires
        a != b,
    ensures
        decimal(a as nat) != decimal(b as nat),
{
    lemma_decimal_denotes(a as nat);
    lemma_decimal_denotes(b as nat);
}

/// One more digit makes a number ten times as large, and adds to it.
pub proof fn law_digit_behind_number(digits: Seq<char>, digit: char)
    requires
        is_digit(digit),
    ensures
        digits_value(digits.push(digit)) == 10 * digits_value(digits) + (digit as int - '0' as int),
        digits_value(Seq::empty()) == 0,
{
    assert(digits.push(digit).drop_last() =~= digits);
}

/// A text denotes a number exactly where it is digits, behind one plus sign at most, and the
/// number is not too large.
pub proof fn law_only_digits_are_a_number(s: Seq<char>)
    ensures
        parsed_u64(s) is Some ==> s.len() > 0 && (is_digit(s[0]) || s[0] == '+') && is_digit(
            s.last(),
        ) && forall|i: int| 1 <= i < s.len() ==> is_digit(#[trigger] s[i]),
        s.len() > 0 && all_digits(s) ==> parsed_u64(s) == parsed_u64(seq!['+'] + s),
{
    if parsed_u64(s) is Some {
        if s[0] == '+' {
            let digits = s.drop_first();
            assert forall|i: int| 1 <= i < s.len() implies is_digit(#[trigger] s[i]) by {
                assert(digits[i - 1] == s[i]);
            }
            assert(digits.last() == s.last());
        }
    }
    if s.len() > 0 && all_digits(s) {
        assert(is_digit(s[0]));
        assert((seq!['+'] + s).drop_first() =~= s);
    }
}

/// A text is what has been trimmed off its front, its trimmed form, and what has been
/// trimmed off its back: white space goes and nothing else, and none is left at the ends.
pub proof fn law_trimming_takes_white_space_only(s: Seq<char>) -> (ends: (int, int))
    ensures
        0 <= ends.0 <= ends.1 <= s.len(),
        trimmed(s) == s.subrange(ends.0, ends.1),
        is_blank(s.take(ends.0)),
        is_blank(s.skip(ends.1)),
        trimmed(s).len() > 0 ==> !is_white_space(trimmed(s)[0]) && !is_white_space(
            trimmed(s).last(),
        ),
        trimmed(trimmed(s)) == trimmed(s),
{
    let n = lemma_front_run(s);
    lemma_trimmed_front(s, n);
    let rest = s.skip(n);
    let m = lemma_back_run(rest);
    lemma_trimmed_back(rest, m);
    let kept = rest.take(m);
    assert(kept =~= s.subrange(n, n + m));
    assert forall|i: int| 0 <= i < s.skip(n + m).len() implies is_white_space(
        #[trigger] s.skip(n + m)[i],
    ) by {
        assert(s.skip(n + m)[i] == rest[m + i]);
    }
    if m > 0 {
        assert(!is_white_space(rest[0])) by {
            assert(rest[0] == s[n]);
        }
        assert(kept[0] == rest[0]);
        assert(kept.last() == rest[m - 1]);
    }
    lemma_trimmed_front(kept, 0);
    assert(kept.skip(0) =~= kept);
    lemma_trimmed_back(kept, m);
    assert(kept.take(m) =~= kept);
    (n, n + m)
}

proof fn lemma_front_run(s: Seq<char>) -> (n: int)
    ensures
        0 <= n <= s.len(),
        forall|i: int| 0 <= i < n ==> is_white_space(#[trigger] s[i]),
        n < s.len() ==> !is_white_space(s[n]),
    decreases s.len(),
{
    if s.len() > 0 && is_white_space(s[0]) {
        let rest = s.drop_first();
        let m = lemma_front_run(rest);
        assert forall|i: int| 0 <= i < m + 1 implies is_white_space(#[trigger] s[i]) by {
            if i > 0 {
                assert(rest[i - 1] == s[i]);
            }
        }
        if m < rest.len() {
            assert(rest[m] == s[m + 1]);
        }
        m + 1
    } else {
        0
    }
}

proof fn lemma_back_run(s: Seq<char>) -> (n: int)
    ensures
        0 <= n <= s.len(),
        forall|i: int| n <= i < s.len() ==> is_white_space(#[trigger] s[i]),
        n > 0 ==> !is_white_space(s[n - 1]),
    decreases s.len(),
{
    if s.len() > 0 && is_white_space(s.last()) {
        let rest = s.drop_last();
        let m = lemma_back_run(rest);
        assert forall|i: int| m <= i < s.len() implies is_white_space(#[trigger] s[i]) by {
            if i < rest.len() {
                assert(rest[i] == s[i]);
            }
        }
        m
    } else {
        s.len() as int
    }
}

/// Among the ASCII characters the space and the characters from the tab to the carriage
/// return are white space, and no others.
pub proof fn law_ascii_white_space(c: char)
    requires
        (c as u32) < 128,
    ensures
        is_white_space(c) <==> c == ' ' || c == '\t' || c == '\n' || c == '\u{b}' || c == '\u{c}'
            || c == '\r',
{
}

/// A text starts with another exactly where it is that text and more, ends with another
/// exactly where it is something and that text, and contains another exactly where that
/// stands between two parts of it.
pub proof fn law_parts_of_texts(s: Seq<char>, part: Seq<char>)
    ensures
        starts_with(s, part) <==> exists|rest: Seq<char>| s == #[trigger] (part + rest),
        ends_with(s, part) <==> exists|front: Seq<char>| s == #[trigger] (front + part),
        contains(s, part) <==> exists|front: Seq<char>, rest: Seq<char>|
            s == #[trigger] (front + part + rest),
{
    let n = part.len() as int;
    if starts_with(s, part) {
        assert(s =~= part + s.skip(n));
    }
    if exists|rest: Seq<char>| s == #[trigger] (part + rest) {
        let rest = choose|rest: Seq<char>| s == #[trigger] (part + rest);
        assert(s.take(n) =~= part);
    }
    if ends_with(s, part) {
        assert(s =~= s.take(s.len() - n) + part);
    }
    if exists|front: Seq<char>| s == #[trigger] (front + part) {
        let front = choose|front: Seq<char>| s == #[trigger] (front + part);
        assert(s.skip(s.len() - n) =~= part);
    }
    if contains(s, part) {
        let at = choose|at: int| occurs_at(s, part, at);
        assert(s =~= s.take(at) + part + s.skip(at + n));
    }
    if exists|front: Seq<char>, rest: Seq<char>| s == #[trigger] (front + part + rest) {
        let (front, rest) = choose|front: Seq<char>, rest: Seq<char>|
            s == #[trigger] (front + part + rest);
        assert(s.subrange(front.len() as int, front.len() + n) =~= part);
        assert(occurs_at(s, part, front.len() as int));
    }
}

/// One more of the character at the end, or at the start, makes no difference to a text
/// that loses all of them there; a text that has none there is kept.
pub proof fn law_runs_at_the_ends_go(s: Seq<char>, c: char)
    ensures
        without_trailing(s.push(c), c) == without_trailing(s, c),
        s.len() == 0 || s.last() != c ==> without_trailing(s, c) == s,
        without_leading(seq![c] + s, c) == without_leading(s, c),
        s.len() == 0 || s[0] != c ==> without_leading(s, c) == s,
{
    assert(s.push(c).drop_last() =~= s);
    assert((seq![c] + s).drop_first() =~= s);
}

/// The part once more in front, or behind, makes no difference to a text that loses it
/// there as often as it stands there; a text without it there is kept.
pub proof fn law_repeated_parts_go(s: Seq<char>, part: Seq<char>)
    requires
        part.len() > 0,
    ensures
        without_prefixes(part + s, part) == without_prefixes(s, part),
        !starts_with(s, part) ==> without_prefixes(s, part) == s,
        without_suffixes(s + part, part) == without_suffixes(s, part),
        !ends_with(s, part) ==> without_suffixes(s, part) == s,
{
    let n = part.len() as int;
    assert((part + s).take(n) =~= part);
    assert((part + s).skip(n) =~= s);
    assert((s + part).skip(s.len() as int) =~= part);
    assert((s + part).take(s.len() as int) =~= s);
}

/// The ASCII lower case of a text is as long as the text and differs from it in capital
/// letters only, each of which has become its small letter.
pub proof fn law_lowering_changes_capitals_only(s: Seq<char>)
    ensures
        ascii_lowered(s).len() == s.len(),
        forall|i: int|
            0 <= i < s.len() ==> (if 'A' <= s[i] <= 'Z' {
                #[trigger] ascii_lowered(s)[i] as int == s[i] as int + 32
            } else {
                ascii_lowered(s)[i] == s[i]
            }),
{
    assert forall|i: int| 0 <= i < s.len() implies (if 'A' <= s[i] <= 'Z' {
        #[trigger] ascii_lowered(s)[i] as int == s[i] as int + 32
    } else {
        ascii_lowered(s)[i] == s[i]
    }) by {
        assert(ascii_lowered(s)[i] == ascii_lower(s[i]));
    }
}

/// The order of texts: behind what two texts have in common, the one that ends there, or has
/// the smaller character there, comes first.
pub proof fn law_order_of_texts(common: Seq<char>, a: Seq<char>, b: Seq<char>)
    ensures
        precedes(common + a, common + b) == precedes(a, b),
        a.len() == 0 ==> precedes(a, b) == (b.len() > 0),
        b.len() == 0 ==> !precedes(a, b),
        a.len() > 0 && b.len() > 0 && a[0] != b[0] ==> precedes(a, b) == ((a[0] as int) < b[0] as int),
    decreases common.len(),
{
    if common.len() == 0 {
        assert(common + a =~= a);
        assert(common + b =~= b);
    } else {
        let rest = common.drop_first();
        law_order_of_texts(rest, a, b);
        assert((common + a).drop_first() =~= rest + a);
        assert((common + b).drop_first() =~= rest + b);
    }
}

/// A number below zero is written as a minus sign and what it takes to zero.
pub proof fn law_signed_decimals(n: nat)
    ensures
        signed_decimal(n as int) == decimal(n),
        n > 0 ==> signed_decimal(-n) == seq!['-'] + decimal(n),
{
}

} // verus!
