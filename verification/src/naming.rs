//! Names: file names, object names, media types, base URLs and the directories of the
//! gcloud tool.
use crate::outside::{
    char_lowercase, lowercase, lowercase_of, lowercase_text, may_be_joined, mime_for_extension,
    mime_from_extension, path_join,
};
use crate::paths::{
    file_name, file_name_on, is_bare_name, is_plain_path, is_separator, is_unread,
    last_segment_start, law_directory_is_no_part_of_file_name, law_plain_path_ends_in_file_name,
    lemma_file_name_ignores_case, lemma_file_name_is_component, lemma_name_is_its_file_name,
    lemma_root_length, lemma_same_but_for_case, lemma_segment_start, lemma_segment_start_before,
    may_be_file_name, root_length, same_but_for_case,
};
use crate::text::{
    ascii_lower, ascii_lowered, blank, chars_of, ends_with, is_blank, lemma_trimmed_keeps_content,
    lemma_without_leading, lemma_without_trailing, lemma_without_trailing_ends, starts_with,
    str_option, text_of, text_option, trim, trim_end_char, trim_start_char, trimmed,
    without_leading, without_trailing,
};
use vstd::prelude::*;
use vstd::string::*;
use vstd::utf8::is_ascii_chars;

verus! {

/// The position of the last `c` in `s`, or -1 where there is none.
pub open spec fn last_position(s: Seq<char>, c: char) -> int
    decreases s.len(),
{
    if s.len() == 0 {
        -1
    } else if s.last() == c {
        s.len() - 1
    } else {
        last_position(s.drop_last(), c)
    }
}

/// Whether a file name has an extension: a dot that is not its first character.
pub open spec fn has_extension(name: Seq<char>) -> bool {
    last_position(name, '.') > 0 && name != seq!['.', '.']
}

/// The part of a file name before its last dot, or all of it where it has no extension.
pub open spec fn stem_of(name: Seq<char>) -> Seq<char> {
    if has_extension(name) {
        name.take(last_position(name, '.'))
    } else {
        name
    }
}

/// The part of a file name behind its last dot, where it has an extension.
pub open spec fn extension_of(name: Seq<char>) -> Option<Seq<char>> {
    if has_extension(name) {
        Some(name.skip(last_position(name, '.') + 1))
    } else {
        None
    }
}

proof fn lemma_last_position(s: Seq<char>, c: char, n: int)
    requires
        -1 <= n < s.len(),
        n >= 0 ==> s[n] == c,
        forall|i: int| n < i < s.len() ==> #[trigger] s[i] != c,
    ensures
        last_position(s, c) == n,
    decreases s.len(),
{
    if s.len() > 0 && n < s.len() - 1 {
        assert(s[s.len() - 1] != c);
        lemma_last_position(s.drop_last(), c, n);
    }
}

/// The position behind the last `c`, or 0.
fn behind_last(chars: &Vec<char>, c: char) -> (position: usize)
    ensures
        position == last_position(chars@, c) + 1,
        position <= chars@.len(),
{
    let mut n: usize = chars.len();
    while n > 0 && chars[n - 1] != c
        invariant
            n <= chars@.len(),
            forall|i: int| n <= i < chars@.len() ==> #[trigger] chars@[i] != c,
        decreases n,
    {
        n = n - 1;
    }
    proof {
        lemma_last_position(chars@, c, n - 1);
    }
    n
}

/// Splits a file name into its stem and its extension.
pub fn split_name(name: &str) -> (parts: (String, Option<String>))
    ensures
        parts.0@ == stem_of(name@),
        text_option(parts.1) == extension_of(name@),
{
    let chars = chars_of(name);
    let dot = behind_last(&chars, '.');
    let dots_only: bool = chars.len() == 2 && chars[0] == '.' && chars[1] == '.';
    assert(dots_only ==> name@ =~= seq!['.', '.']);
    assert(!dots_only ==> name@ != seq!['.', '.']);
    if dot > 1 && !dots_only {
        let stem = text_of(&chars, 0, dot - 1);
        let extension = text_of(&chars, dot, chars.len());
        assert(stem@ == name@.take(dot - 1));
        assert(extension@ == name@.skip(dot as int));
        (stem, Some(extension))
    } else {
        (name.to_owned(), None)
    }
}

/// The characters of a lower-case text that stand unchanged in an object name.
pub open spec fn is_safe(c: char) -> bool {
    ||| 'a' <= c <= 'z'
    ||| '0' <= c <= '9'
    ||| c == '-'
    ||| c == '_'
}

/// The lower case of a character: of an ASCII character its ASCII lower case.
pub open spec fn lower_char(c: char) -> Seq<char> {
    if (c as u32) < 128 {
        seq![ascii_lower(c)]
    } else {
        lowercase_of(c)
    }
}

/// The lower case of a text: of an ASCII text its ASCII lower case.
pub open spec fn lower_case(s: Seq<char>) -> Seq<char> {
    if is_ascii_chars(s) {
        ascii_lowered(s)
    } else {
        lowercase_text(s)
    }
}

/// What can be relied on of the lower case of a text: it is its own lower case, it has no
/// dot and no separator that the text has not, and the case of the ASCII letters in the
/// text does not show in it.
pub open spec fn is_settled_lower(text: Seq<char>, lower: Seq<char>) -> bool {
    &&& lower_case(lower) == lower
    &&& forall|i: int|
        0 <= i < lower.len() && (#[trigger] lower[i] == '.' || is_separator(lower[i], true))
            ==> text.contains(lower[i])
    &&& forall|other: Seq<char>|
        same_but_for_case(other, text) ==> #[trigger] lower_case(other) == lower
}

proof fn lemma_ascii_ignores_case(a: Seq<char>, b: Seq<char>)
    requires
        same_but_for_case(a, b),
    ensures
        is_ascii_chars(a) == is_ascii_chars(b),
{
    lemma_same_but_for_case(a, b);
    if is_ascii_chars(a) {
        assert forall|i: int| 0 <= i < b.len() implies '\0' <= #[trigger] b[i] <= '\u{7f}' by {
            assert(ascii_lower(a[i]) == ascii_lower(b[i]));
        }
    }
    if is_ascii_chars(b) {
        assert forall|i: int| 0 <= i < a.len() implies '\0' <= #[trigger] a[i] <= '\u{7f}' by {
            assert(ascii_lower(a[i]) == ascii_lower(b[i]));
        }
    }
}

proof fn lemma_ascii_lower_is_settled(text: Seq<char>)
    requires
        is_ascii_chars(text),
    ensures
        is_settled_lower(text, lower_case(text)),
{
    let lower = ascii_lowered(text);
    assert(is_ascii_chars(lower));
    assert(ascii_lowered(lower) =~= lower);
    assert forall|i: int|
        0 <= i < lower.len() && (#[trigger] lower[i] == '.' || is_separator(
            lower[i],
            true,
        )) implies text.contains(lower[i]) by {
        assert(lower[i] == ascii_lower(text[i]));
        assert(text[i] == lower[i]);
    }
    assert forall|other: Seq<char>| same_but_for_case(other, text) implies #[trigger] lower_case(
        other,
    ) == lower by {
        lemma_ascii_ignores_case(other, text);
    }
}

/// The lower case of a text.
pub fn lower_case_of(text: &str) -> (lower: String)
    ensures
        lower@ == lower_case(text@),
        is_settled_lower(text@, lower@),
{
    let lower = lowercase(text);
    proof {
        if is_ascii_chars(text@) {
            lemma_ascii_lower_is_settled(text@);
        } else {
            if is_ascii_chars(lower@) {
                assert(ascii_lowered(lower@) =~= lower@);
            }
            assert forall|other: Seq<char>|
                same_but_for_case(other, text@) implies #[trigger] lower_case(other) == lower@ by {
                lemma_ascii_ignores_case(other, text@);
                assert(lowercase_text(other) == lower@);
            }
        }
    }
    lower
}

/// The lower case of every character of `s`, in order.
pub open spec fn lowered(s: Seq<char>) -> Seq<char>
    decreases s.len(),
{
    if s.len() == 0 {
        Seq::empty()
    } else {
        lowered(s.drop_last()) + lower_char(s.last())
    }
}

/// `s` with every run of unsafe characters replaced by one dash.
pub open spec fn dashed(s: Seq<char>) -> Seq<char>
    decreases s.len(),
{
    if s.len() == 0 {
        Seq::empty()
    } else {
        let rest = s.drop_last();
        if is_safe(s.last()) {
            dashed(rest).push(s.last())
        } else if rest.len() > 0 && !is_safe(rest.last()) {
            dashed(rest)
        } else {
            dashed(rest).push('-')
        }
    }
}

/// The object-name form of a stem: lower case, safe characters, no dash at either end,
/// and `video` where nothing is left.
pub open spec fn clean_stem(stem: Seq<char>) -> Seq<char> {
    let bare = without_trailing(without_leading(dashed(lowered(stem)), '-'), '-');
    if bare.len() == 0 {
        "video"@
    } else {
        bare
    }
}

/// The extension that an object name ends in: that of the file name in lower case, or
/// `mp4`.
pub open spec fn clean_extension(extension: Option<Seq<char>>) -> Seq<char> {
    match extension {
        Some(e) => lower_case(e),
        None => "mp4"@,
    }
}

/// The object-name form of a file name, or of a path that has none.
pub open spec fn clean_name(name: Option<Seq<char>>) -> Seq<char> {
    match name {
        Some(n) => clean_stem(stem_of(n)) + "."@ + clean_extension(extension_of(n)),
        None => clean_stem("video"@) + "."@ + clean_extension(None),
    }
}

fn safe(c: char) -> (r: bool)
    ensures
        r == is_safe(c),
{
    ('a' <= c && c <= 'z') || ('0' <= c && c <= '9') || c == '-' || c == '_'
}

fn lower_all(stem: &str) -> (lower: Vec<char>)
    ensures
        lower@ == lowered(stem@),
{
    let chars = chars_of(stem);
    let mut lower: Vec<char> = Vec::new();
    let mut i: usize = 0;
    assert(chars@.take(0) == Seq::<char>::empty());
    while i < chars.len()
        invariant
            i <= chars@.len(),
            lower@ == lowered(chars@.take(i as int)),
        decreases chars.len() - i,
    {
        let mut mapped = char_lowercase(chars[i]);
        assert(chars@.take(i + 1).drop_last() == chars@.take(i as int));
        lower.append(&mut mapped);
        i = i + 1;
    }
    assert(chars@.take(i as int) == stem@);
    lower
}

fn dash_all(chars: &Vec<char>) -> (text: String)
    ensures
        text@ == dashed(chars@),
{
    let mut text = String::new();
    let mut previous_dash: bool = false;
    let mut i: usize = 0;
    while i < chars.len()
        invariant
            i <= chars@.len(),
            text@ == dashed(chars@.take(i as int)),
            previous_dash == (i > 0 && !is_safe(chars@[i - 1])),
        decreases chars.len() - i,
    {
        let c = chars[i];
        assert(chars@.take(i + 1).drop_last() == chars@.take(i as int));
        if safe(c) {
            text.push(c);
            previous_dash = false;
        } else if !previous_dash {
            text.push('-');
            previous_dash = true;
        }
        i = i + 1;
    }
    assert(chars@.take(i as int) == chars@);
    text
}

/// The lower case of the extension of a file name can be relied on.
spec fn has_settled_extension(name: Option<Seq<char>>) -> bool {
    match name {
        Some(n) => match extension_of(n) {
            Some(e) => is_settled_lower(e, lower_case(e)),
            None => true,
        },
        None => true,
    }
}

fn clean_settled(name: Option<&str>) -> (clean: String)
    ensures
        clean@ == clean_name(str_option(name)),
        has_settled_extension(str_option(name)),
{
    let (stem, extension) = match name {
        Some(name) => split_name(name),
        None => ("video".to_owned(), None),
    };
    let lower = lower_all(stem.as_str());
    let dashes = dash_all(&lower);
    let bare = trim_end_char(trim_start_char(dashes.as_str(), '-'), '-');
    let kept = if bare.is_empty() {
        "video"
    } else {
        bare
    };
    let lower_extension = match extension {
        Some(extension) => lower_case_of(extension.as_str()),
        None => "mp4".to_owned(),
    };
    kept.to_owned().concat(".").concat(lower_extension.as_str())
}

/// The object-name form of a file name, or of a path that has none. To take the form once
/// more changes nothing, and the case of ASCII letters does not show in it.
pub fn sanitize_name(name: Option<&str>) -> (clean: String)
    ensures
        clean@ == clean_name(str_option(name)),
        clean_name(Some(clean@)) == clean@,
        name matches Some(n) ==> forall|other: Seq<char>|
            same_but_for_case(other, n@) ==> #[trigger] clean_name(Some(other)) == clean@,
{
    let clean = clean_settled(name);
    proof {
        lemma_clean_twice(str_option(name));
        if let Some(n) = name {
            assert forall|other: Seq<char>|
                same_but_for_case(other, n@) implies #[trigger] clean_name(Some(other))
                == clean@ by {
                lemma_clean_ignores_case(n@, other);
            }
        }
    }
    clean
}

/// What is known of the object-name form of a path on one platform.
pub open spec fn may_be_clean(windows: bool, filename: Seq<char>, clean: Seq<char>) -> bool {
    exists|name: Option<Seq<char>>|
        #[trigger] may_be_file_name(filename, windows, name) && clean == clean_name(name)
}

/// The object-name form of a path under the rules of one platform.
pub open spec fn clean_on(filename: Seq<char>, windows: bool) -> Seq<char> {
    clean_name(file_name_on(filename, windows))
}

/// A safe stem without dashes at its ends, one dot, and an extension without separators.
pub open spec fn has_clean_shape(clean: Seq<char>, windows: bool) -> bool {
    let dot = last_position(clean, '.');
    &&& 0 < dot < clean.len()
    &&& forall|i: int| 0 <= i < dot ==> is_safe(#[trigger] clean[i])
    &&& clean[0] != '-'
    &&& clean[dot - 1] != '-'
    &&& forall|i: int|
        0 <= i < clean.len() ==> (#[trigger] clean[i] == '.' <==> i == dot) && !is_separator(
            clean[i],
            windows,
        )
}

/// `clean` is the object-name form of a path under the rules of one platform. It has the
/// shape of such a form, to take the form once more changes nothing, and the case of
/// ASCII letters does not show in it.
pub open spec fn is_cleaned_on(filename: Seq<char>, clean: Seq<char>, windows: bool) -> bool {
    &&& clean == clean_on(filename, windows)
    &&& has_clean_shape(clean, windows)
    &&& !is_unread(clean, windows)
    &&& clean_on(clean, windows) == clean
    &&& forall|other: Seq<char>|
        same_but_for_case(other, filename) ==> !(#[trigger] is_unread(other, windows))
    &&& forall|other: Seq<char>|
        same_but_for_case(other, filename) ==> #[trigger] clean_on(other, windows) == clean
}

/// The object-name form of a file name.
pub fn sanitize_filename(windows: bool, filename: &str) -> (clean: String)
    ensures
        may_be_clean(windows, filename@, clean@),
        !is_unread(filename@, windows) ==> is_cleaned_on(filename@, clean@, windows),
{
    let name = file_name(filename, windows);
    assert(may_be_file_name(filename@, windows, text_option(name)));
    let clean = match &name {
        Some(name) => clean_settled(Some(name.as_str())),
        None => clean_settled(None),
    };
    proof {
        if !is_unread(filename@, windows) {
            lemma_cleaned_on(filename@, windows);
        }
    }
    clean
}

proof fn lemma_last_position_is(s: Seq<char>, c: char)
    ensures
        -1 <= last_position(s, c) < s.len(),
        last_position(s, c) >= 0 ==> s[last_position(s, c)] == c,
        forall|i: int| last_position(s, c) < i < s.len() ==> #[trigger] s[i] != c,
    decreases s.len(),
{
    if s.len() > 0 && s.last() != c {
        lemma_last_position_is(s.drop_last(), c);
        let p = last_position(s, c);
        assert forall|i: int| p < i < s.len() implies #[trigger] s[i] != c by {
            if i < s.len() - 1 {
                assert(s.drop_last()[i] == s[i]);
            }
        }
        if p >= 0 {
            assert(s.drop_last()[p] == s[p]);
        }
    }
}

proof fn lemma_safe_text_is_kept(s: Seq<char>)
    requires
        forall|i: int| 0 <= i < s.len() ==> is_safe(#[trigger] s[i]),
    ensures
        lowered(s) == s,
        dashed(s) == s,
    decreases s.len(),
{
    if s.len() > 0 {
        let front = s.drop_last();
        assert forall|i: int| 0 <= i < front.len() implies is_safe(#[trigger] front[i]) by {
            assert(front[i] == s[i]);
        }
        lemma_safe_text_is_kept(front);
        assert(is_safe(s[s.len() - 1]));
        assert(lowered(s) =~= s);
        assert(dashed(s) =~= s);
    } else {
        assert(lowered(s) =~= s);
        assert(dashed(s) =~= s);
    }
}

/// The object-name form of a stem that has it is the stem.
proof fn lemma_clean_stem_twice(stem: Seq<char>)
    ensures
        clean_stem(clean_stem(stem)) == clean_stem(stem),
{
    let clean = clean_stem(stem);
    law_clean_stem_is_safe(stem);
    lemma_safe_text_is_kept(clean);
}

/// The parts of an object-name form: a safe stem, a dot, and an extension without dots.
proof fn lemma_clean_parts(name: Option<Seq<char>>)
    requires
        has_settled_extension(name),
    ensures
        has_extension(clean_name(name)),
        clean_stem(stem_of(clean_name(name))) == stem_of(clean_name(name)),
        extension_of(clean_name(name)) matches Some(e) && lower_case(e) == e,
        clean_name(name) == stem_of(clean_name(name)) + "."@ + extension_of(clean_name(name))->0,
        clean_name(name)[0] != '.',
        clean_name(name)[1] != ':',
        forall|i: int|
            0 <= i < stem_of(clean_name(name)).len() ==> is_safe(
                #[trigger] stem_of(clean_name(name))[i],
            ),
{
    reveal_strlit("video");
    reveal_strlit("mp4");
    reveal_strlit(".");
    let raw = match name {
        Some(n) => stem_of(n),
        None => "video"@,
    };
    let extension = match name {
        Some(n) => extension_of(n),
        None => None,
    };
    let clean = clean_name(name);
    let stem = clean_stem(raw);
    let tail = clean_extension(extension);
    law_clean_stem_is_safe(raw);
    lemma_clean_stem_twice(raw);
    assert(clean == stem + "."@ + tail);
    assert forall|i: int| 0 <= i < tail.len() implies #[trigger] tail[i] != '.' by {
        if tail[i] == '.' && extension is Some {
            let n = name->0;
            let e = extension->0;
            lemma_last_position_is(n, '.');
            assert(e.contains(tail[i]));
            let j = e.index_of('.');
            assert(e[j] == n[last_position(n, '.') + 1 + j]);
        }
    }
    let dot = stem.len() as int;
    assert(clean[dot] == '.');
    assert forall|i: int| dot < i < clean.len() implies #[trigger] clean[i] != '.' by {
        assert(clean[i] == tail[i - dot - 1]);
    }
    lemma_last_position(clean, '.', dot);
    assert(clean[0] == stem[0]);
    assert(is_safe(stem[0]));
    assert(clean.take(dot) =~= stem);
    assert(clean.skip(dot + 1) =~= tail);
    if extension is None {
        assert(is_ascii_chars("mp4"@));
        assert(ascii_lowered("mp4"@) =~= "mp4"@);
    }
    if stem.len() > 1 {
        assert(clean[1] == stem[1]);
        assert(is_safe(stem[1]));
    } else {
        assert(clean[1] == '.');
    }
}

proof fn lemma_clean_twice(name: Option<Seq<char>>)
    requires
        has_settled_extension(name),
    ensures
        clean_name(Some(clean_name(name))) == clean_name(name),
{
    lemma_clean_parts(name);
}

proof fn lemma_lowered_ignores_case(a: Seq<char>, b: Seq<char>)
    requires
        same_but_for_case(a, b),
    ensures
        lowered(a) == lowered(b),
    decreases a.len(),
{
    lemma_same_but_for_case(a, b);
    if a.len() > 0 {
        let n = a.len() - 1;
        assert(ascii_lower(a[n]) == ascii_lower(b[n]));
        assert forall|i: int| 0 <= i < n implies ascii_lower(#[trigger] a.drop_last()[i])
            == ascii_lower(b.drop_last()[i]) by {
            assert(ascii_lower(a[i]) == ascii_lower(b[i]));
        }
        lemma_same_but_for_case(a.drop_last(), b.drop_last());
        lemma_lowered_ignores_case(a.drop_last(), b.drop_last());
    }
}

proof fn lemma_part_ignores_case(a: Seq<char>, b: Seq<char>, from: int, to: int)
    requires
        same_but_for_case(a, b),
        0 <= from <= to <= a.len(),
    ensures
        a.len() == b.len(),
        same_but_for_case(a.subrange(from, to), b.subrange(from, to)),
{
    lemma_same_but_for_case(a, b);
    let x = a.subrange(from, to);
    let y = b.subrange(from, to);
    assert forall|i: int| 0 <= i < x.len() implies ascii_lower(#[trigger] x[i]) == ascii_lower(
        y[i],
    ) by {
        assert(ascii_lower(a[from + i]) == ascii_lower(b[from + i]));
    }
    lemma_same_but_for_case(x, y);
}

proof fn lemma_clean_ignores_case(name: Seq<char>, other: Seq<char>)
    requires
        has_settled_extension(Some(name)),
        same_but_for_case(other, name),
    ensures
        clean_name(Some(other)) == clean_name(Some(name)),
{
    lemma_same_but_for_case(other, name);
    lemma_last_position_is(name, '.');
    let dot = last_position(name, '.');
    if dot >= 0 {
        assert(ascii_lower(other[dot]) == ascii_lower(name[dot]));
    }
    assert forall|i: int| dot < i < other.len() implies #[trigger] other[i] != '.' by {
        assert(ascii_lower(other[i]) == ascii_lower(name[i]));
        assert(name[i] != '.');
    }
    lemma_last_position(other, '.', dot);
    if name.len() == 2 {
        assert(ascii_lower(other[0]) == ascii_lower(name[0]));
        assert(ascii_lower(other[1]) == ascii_lower(name[1]));
        assert(name =~= seq![name[0], name[1]]);
        assert(other =~= seq![other[0], other[1]]);
        assert(name == seq!['.', '.'] <==> other == seq!['.', '.']) by {
            assert(seq!['.', '.'][0] == '.' && seq!['.', '.'][1] == '.');
        }
    }
    assert(has_extension(other) == has_extension(name));
    if has_extension(name) {
        let n = name.len() as int;
        lemma_part_ignores_case(other, name, 0, dot);
        lemma_part_ignores_case(other, name, dot + 1, n);
        assert(other.take(dot) =~= other.subrange(0, dot));
        assert(name.take(dot) =~= name.subrange(0, dot));
        assert(other.skip(dot + 1) =~= other.subrange(dot + 1, n));
        assert(name.skip(dot + 1) =~= name.subrange(dot + 1, n));
        lemma_lowered_ignores_case(stem_of(other), stem_of(name));
        let e = extension_of(name)->0;
        let f = extension_of(other)->0;
        assert(same_but_for_case(f, e));
        assert(lower_case(f) == lower_case(e));
    } else {
        lemma_lowered_ignores_case(other, name);
    }
}

proof fn lemma_cleaned_on(filename: Seq<char>, windows: bool)
    requires
        !is_unread(filename, windows),
        has_settled_extension(file_name_on(filename, windows)),
    ensures
        is_cleaned_on(filename, clean_on(filename, windows), windows),
{
    let name = file_name_on(filename, windows);
    let clean = clean_on(filename, windows);
    lemma_clean_parts(name);
    lemma_file_name_is_component(filename, windows);
    reveal_strlit(".");
    reveal_strlit("mp4");
    let stem = stem_of(clean);
    let tail = extension_of(clean)->0;
    assert forall|i: int| 0 <= i < clean.len() implies !is_separator(
        #[trigger] clean[i],
        windows,
    ) by {
        if i < stem.len() {
            assert(clean[i] == stem[i]);
            assert(is_safe(stem[i]));
        } else if i > stem.len() {
            assert(clean[i] == tail[i - stem.len() - 1]);
            lemma_clean_tail(name, windows);
        }
    }
    let dot = last_position(clean, '.');
    lemma_last_position_is(clean, '.');
    law_clean_stem_is_safe(stem);
    assert(stem.len() == dot);
    assert forall|i: int| 0 <= i < clean.len() implies (#[trigger] clean[i] == '.' <==> i
        == dot) by {
        if i < dot {
            assert(clean[i] == stem[i]);
            assert(is_safe(stem[i]));
        }
    }
    assert forall|i: int| 0 <= i < dot implies is_safe(#[trigger] clean[i]) by {
        assert(clean[i] == stem[i]);
    }
    assert(clean[0] == stem[0] && clean[dot - 1] == stem[dot - 1]);
    assert(has_clean_shape(clean, windows));
    assert(seq!['.'][0] == '.' && seq!['.', '.'][0] == '.');
    lemma_name_is_its_file_name(clean, windows);
    lemma_clean_twice(name);
    assert forall|other: Seq<char>| same_but_for_case(other, filename) implies !(
    #[trigger] is_unread(other, windows)) by {
        lemma_file_name_ignores_case(other, filename, windows);
    }
    assert forall|other: Seq<char>| same_but_for_case(other, filename) implies #[trigger] clean_on(
        other,
        windows,
    ) == clean by {
        lemma_file_name_ignores_case(other, filename, windows);
        if let Some(n) = name {
            lemma_clean_ignores_case(n, file_name_on(other, windows)->0);
        }
    }
}

/// The extension of an object-name form has no separators where the name has none.
proof fn lemma_clean_tail(name: Option<Seq<char>>, windows: bool)
    requires
        has_settled_extension(name),
        name matches Some(n) ==> forall|i: int|
            0 <= i < n.len() ==> !is_separator(#[trigger] n[i], windows),
    ensures
        forall|i: int|
            0 <= i < (extension_of(clean_name(name))->0).len() ==> !is_separator(
                #[trigger] (extension_of(clean_name(name))->0)[i],
                windows,
            ),
{
    lemma_clean_parts(name);
    reveal_strlit("video");
    reveal_strlit("mp4");
    reveal_strlit(".");
    let raw = match name {
        Some(n) => stem_of(n),
        None => "video"@,
    };
    let extension = match name {
        Some(n) => extension_of(n),
        None => None,
    };
    let clean = clean_name(name);
    let stem = clean_stem(raw);
    let tail = clean_extension(extension);
    law_clean_stem_is_safe(raw);
    let dot = last_position(clean, '.');
    lemma_last_position_is(clean, '.');
    assert(clean[stem.len() as int] == '.');
    assert(dot >= stem.len());
    let shown = extension_of(clean)->0;
    assert forall|i: int| 0 <= i < shown.len() implies !is_separator(
        #[trigger] shown[i],
        windows,
    ) by {
        assert(shown[i] == clean[dot + 1 + i]);
        let j = dot + 1 + i - stem.len() - 1;
        assert(clean[dot + 1 + i] == tail[j]);
        if is_separator(tail[j], windows) && extension is Some {
            let n = name->0;
            let e = extension->0;
            lemma_last_position_is(n, '.');
            assert(e.contains(tail[j]));
            let k = e.index_of(tail[j]);
            assert(e[k] == n[last_position(n, '.') + 1 + k]);
        }
    }
}

/// An object-name form has a safe stem, which is not empty and has no dash at either end,
/// then its only dot, and an extension without separators.
pub proof fn law_clean_name_has_its_shape(filename: Seq<char>, clean: Seq<char>, windows: bool)
    requires
        is_cleaned_on(filename, clean, windows),
    ensures
        ({
            let stem = stem_of(clean);
            let extension = extension_of(clean);
            &&& stem.len() > 0
            &&& forall|i: int| 0 <= i < stem.len() ==> is_safe(#[trigger] stem[i])
            &&& stem[0] != '-' && stem.last() != '-'
            &&& extension is Some
            &&& !extension->0.contains('.')
            &&& forall|i: int|
                0 <= i < extension->0.len() ==> !is_separator(#[trigger] extension->0[i], windows)
            &&& clean == stem + seq!['.'] + extension->0
        }),
{
    let dot = last_position(clean, '.');
    assert(seq!['.', '.'][0] == '.');
    assert(clean[0] != '.');
    let stem = clean.take(dot);
    let extension = clean.skip(dot + 1);
    assert forall|i: int| 0 <= i < stem.len() implies is_safe(#[trigger] stem[i]) by {
        assert(stem[i] == clean[i]);
    }
    assert forall|i: int| 0 <= i < extension.len() implies !is_separator(
        #[trigger] extension[i],
        windows,
    ) && extension[i] != '.' by {
        assert(extension[i] == clean[dot + 1 + i]);
    }
    assert(clean =~= stem + seq!['.'] + extension);
}

/// A name that is cleaned twice is as after the first time.
pub proof fn law_cleaning_twice_changes_nothing(
    filename: Seq<char>,
    clean: Seq<char>,
    again: Seq<char>,
    windows: bool,
)
    requires
        is_cleaned_on(filename, clean, windows),
        may_be_clean(windows, clean, again),
    ensures
        again == clean,
{
}

/// Names that differ in the case of ASCII letters only are cleaned alike.
pub proof fn law_letter_case_does_not_show(
    filename: Seq<char>,
    clean: Seq<char>,
    other: Seq<char>,
    other_clean: Seq<char>,
    windows: bool,
)
    requires
        is_cleaned_on(filename, clean, windows),
        same_but_for_case(other, filename),
        may_be_clean(windows, other, other_clean),
    ensures
        other_clean == clean,
{
    assert(clean_on(other, windows) == clean);
}

/// A name is cleaned alike with and without a directory in front of it.
pub proof fn law_directories_do_not_show(
    directory: Seq<char>,
    name: Seq<char>,
    clean: Seq<char>,
    bare_clean: Seq<char>,
    windows: bool,
)
    requires
        is_bare_name(name),
        !is_unread(directory + seq!['/'] + name, windows),
        may_be_clean(windows, directory + seq!['/'] + name, clean),
        may_be_clean(windows, name, bare_clean),
    ensures
        clean == bare_clean,
{
    law_directory_is_no_part_of_file_name(directory, name, windows);
}

/// The name of the object for a task: prefix, task and file, between slashes.
pub open spec fn object_name(
    object_prefix: Seq<char>,
    task_id: Seq<char>,
    clean: Seq<char>,
) -> Seq<char> {
    without_trailing(object_prefix, '/') + "/"@ + task_id + "/"@ + clean
}

/// The name of the object for a task, from the object-name form of its file name.
pub fn object_name_of(object_prefix: &str, task_id: &str, clean: &str) -> (name: String)
    ensures
        name@ == object_name(object_prefix@, task_id@, clean@),
{
    trim_end_char(object_prefix, '/').to_owned().concat("/").concat(task_id).concat("/").concat(
        clean,
    )
}

/// What is known of the name of the object for a task.
pub open spec fn may_be_object_name(
    windows: bool,
    object_prefix: Seq<char>,
    task_id: Seq<char>,
    filename: Seq<char>,
    name: Seq<char>,
) -> bool {
    exists|clean: Seq<char>| #[trigger]
        may_be_clean(windows, filename, clean) && name == object_name(
            object_prefix,
            task_id,
            clean,
        ) && (!is_unread(filename, windows) ==> is_cleaned_on(filename, clean, windows))
}

/// The name of the object for a task.
pub fn build_gcloud_object_name(
    windows: bool,
    object_prefix: &str,
    task_id: &str,
    filename: &str,
) -> (name: String)
    ensures
        may_be_object_name(windows, object_prefix@, task_id@, filename@, name@),
{
    let clean = sanitize_filename(windows, filename);
    object_name_of(object_prefix, task_id, clean.as_str())
}

/// The Cloud Storage URI of an object.
pub open spec fn gs_uri(bucket: Seq<char>, object: Seq<char>) -> Seq<char> {
    "gs://"@ + bucket + "/"@ + object
}

pub fn gs_uri_of(bucket: &str, object: &str) -> (uri: String)
    ensures
        uri@ == gs_uri(bucket@, object@),
{
    "gs://".to_owned().concat(bucket).concat("/").concat(object)
}

/// A base URL without slashes at its end.
pub fn sanitize_base_url(base_url: &str) -> (r: String)
    ensures
        r@ == without_trailing(base_url@, '/'),
{
    trim_end_char(base_url, '/').to_owned()
}

/// A guessed media type, or `video/mp4` where there is no guess.
pub open spec fn mime_or_video(guess: Option<Seq<char>>) -> Seq<char> {
    match guess {
        Some(mime) => mime,
        None => "video/mp4"@,
    }
}

pub fn mime_or_default(guess: Option<String>) -> (mime: String)
    ensures
        mime@ == mime_or_video(text_option(guess)),
{
    match guess {
        Some(mime) => mime,
        None => "video/mp4".to_owned(),
    }
}

/// The text behind the last dot of a path.
pub open spec fn behind_last_dot(path: Seq<char>) -> Seq<char> {
    path.skip(last_position(path, '.') + 1)
}

/// A plain path that ends in an extension: an ordinary character stands before its last
/// dot, and no separator behind it.
pub open spec fn has_plain_extension(path: Seq<char>, windows: bool) -> bool {
    let dot = last_position(path, '.');
    &&& is_plain_path(path, windows)
    &&& dot > root_length(path, windows)
    &&& !is_separator(path[dot - 1], windows)
    &&& forall|i: int| dot < i < path.len() ==> !is_separator(#[trigger] path[i], windows)
}

/// The extension of the file name of a plain path is the text behind the last dot, where
/// an ordinary character stands before the dot and no separator behind it; otherwise
/// there is none.
pub proof fn law_extension_of_plain_path(path: Seq<char>, windows: bool)
    requires
        is_plain_path(path, windows),
    ensures
        !is_unread(path, windows),
        file_name_on(path, windows) matches Some(name) && extension_of(name) == (
        if has_plain_extension(path, windows) {
            Some(behind_last_dot(path))
        } else {
            None
        }),
{
    law_plain_path_ends_in_file_name(path, windows);
    let from = root_length(path, windows);
    let n = path.len() as int;
    let start = last_segment_start(path, windows);
    let name = path.skip(start);
    let dot = last_position(path, '.');
    lemma_root_length(path, windows);
    lemma_segment_start(path, windows, from, n);
    lemma_last_position_is(path, '.');
    let inner = if dot >= start {
        dot - start
    } else {
        -1
    };
    assert forall|i: int| inner < i < name.len() implies #[trigger] name[i] != '.' by {
        assert(name[i] == path[start + i]);
    }
    lemma_last_position(name, '.', inner);
    assert(name[name.len() - 1] == path[n - 1]);
    assert(seq!['.', '.'][1] == '.');
    if inner >= 0 {
        assert(name.skip(inner + 1) =~= path.skip(dot + 1));
    }
    if has_plain_extension(path, windows) {
        assert forall|i: int| dot - 1 <= i < n implies !is_separator(
            #[trigger] path[i],
            windows,
        ) by {
            if i == dot {
                assert(path[i] == '.');
            }
        }
        lemma_segment_start_before(path, windows, from, n, dot - 1);
    } else if inner > 0 {
        assert(!is_separator(path[dot - 1], windows));
        assert(false);
    }
}

/// The media type for an extension.
pub open spec fn mime_of_extension(extension: Option<Seq<char>>) -> Seq<char> {
    match extension {
        Some(e) => mime_or_video(mime_for_extension(e)),
        None => mime_or_video(None),
    }
}

/// The media type for the extension of a file name.
pub open spec fn mime_of_name(name: Option<Seq<char>>) -> Seq<char> {
    match name {
        Some(n) => mime_of_extension(extension_of(n)),
        None => mime_of_extension(None),
    }
}

/// What is known of the media type of the file at `path`. Where the path plainly ends in an
/// extension, it is that for the text behind the last dot.
pub open spec fn may_be_mime_type(windows: bool, path: Seq<char>, mime: Seq<char>) -> bool {
    &&& exists|name: Option<Seq<char>>| #[trigger]
        may_be_file_name(path, windows, name) && mime == mime_of_name(name)
    &&& !is_unread(path, windows) ==> mime == mime_of_name(file_name_on(path, windows))
    &&& has_plain_extension(path, windows) ==> mime == mime_of_extension(
        Some(behind_last_dot(path)),
    )
}

/// The media type of the file at `path`, judged by its extension.
pub fn guess_mime_type(windows: bool, path: &str) -> (mime: String)
    ensures
        may_be_mime_type(windows, path@, mime@),
{
    let name = file_name(path, windows);
    assert(may_be_file_name(path@, windows, text_option(name)));
    proof {
        if has_plain_extension(path@, windows) {
            law_extension_of_plain_path(path@, windows);
        }
    }
    match &name {
        Some(name) => match split_name(name.as_str()).1 {
            Some(extension) => mime_or_default(mime_from_extension(extension.as_str())),
            None => mime_or_default(None),
        },
        None => mime_or_default(None),
    }
}

/// `base` with one more component, which is relative: behind a slash, unless the base is
/// empty or ends in one.
pub open spec fn slash_joined(base: Seq<char>, component: Seq<char>) -> Seq<char> {
    if base.len() == 0 || base.last() == '/' {
        base + component
    } else {
        base + "/"@ + component
    }
}

/// `path` is `base` with one more component. Off Windows the two stand behind one slash.
pub open spec fn is_joined(
    windows: bool,
    base: Seq<char>,
    component: Seq<char>,
    path: Seq<char>,
) -> bool {
    if windows {
        may_be_joined(base, component, path)
    } else {
        path == slash_joined(base, component)
    }
}

/// Extends a path by a relative component.
pub(crate) fn join(windows: bool, base: &str, component: &str) -> (path: String)
    ensures
        is_joined(windows, base@, component@, path@),
{
    if windows {
        return path_join(base, component);
    }
    let chars = chars_of(base);
    if chars.len() == 0 || chars[chars.len() - 1] == '/' {
        base.to_owned().concat(component)
    } else {
        base.to_owned().concat("/").concat(component)
    }
}

/// `path` is `base` with all the components behind it, in order.
pub open spec fn may_be_path(
    windows: bool,
    base: Seq<char>,
    components: Seq<Seq<char>>,
    path: Seq<char>,
) -> bool
    decreases components.len(),
{
    if components.len() == 0 {
        path == base
    } else {
        exists|parent: Seq<char>|
            may_be_path(windows, base, components.drop_last(), parent) && #[trigger] is_joined(
                windows,
                parent,
                components.last(),
                path,
            )
    }
}

/// Extends `path` by one component.
pub(crate) fn join_next(
    windows: bool,
    base: Ghost<Seq<char>>,
    done: Ghost<Seq<Seq<char>>>,
    path: &str,
    component: &str,
) -> (r: String)
    requires
        may_be_path(windows, base@, done@, path@),
    ensures
        may_be_path(windows, base@, done@.push(component@), r@),
        is_joined(windows, path@, component@, r@),
{
    let r = join(windows, path, component);
    proof {
        let longer = done@.push(component@);
        assert(longer.drop_last() =~= done@);
        assert(is_joined(windows, path@, longer.last(), r@));
    }
    r
}

/// A setting counts where it holds more than white space, and is then trimmed.
pub open spec fn setting(value: Option<Seq<char>>) -> Option<Seq<char>> {
    match value {
        Some(text) if !is_blank(text) => Some(trimmed(text)),
        _ => None,
    }
}

pub fn setting_of(value: Option<&str>) -> (r: Option<&str>)
    ensures
        str_option(r) == setting(str_option(value)),
{
    match value {
        Some(text) => if blank(text) {
            None
        } else {
            Some(trim(text))
        },
        None => None,
    }
}

/// The configuration directory of the gcloud tool: as configured, else under the
/// application data or home directory, else the current directory.
pub open spec fn may_be_config_dir(
    windows: bool,
    cloudsdk_config: Option<Seq<char>>,
    appdata: Option<Seq<char>>,
    home: Option<Seq<char>>,
    dir: Seq<char>,
) -> bool {
    if !windows {
        dir == unix_config_dir(cloudsdk_config, home)
    } else if setting(cloudsdk_config) is Some {
        dir == setting(cloudsdk_config)->0
    } else if setting(appdata) is Some {
        may_be_path(true, setting(appdata)->0, seq!["gcloud"@], dir)
    } else if setting(home) is Some {
        may_be_path(true, setting(home)->0, seq!["AppData"@, "Roaming"@, "gcloud"@], dir)
    } else {
        dir == "."@
    }
}

/// The configuration directory of the gcloud tool off Windows.
pub open spec fn unix_config_dir(
    cloudsdk_config: Option<Seq<char>>,
    home: Option<Seq<char>>,
) -> Seq<char> {
    match setting(cloudsdk_config) {
        Some(dir) => dir,
        None => match setting(home) {
            Some(base) => slash_joined(base, ".config/gcloud"@),
            None => "."@,
        },
    }
}

/// The configuration directory of the gcloud tool, from the environment variables
/// `CLOUDSDK_CONFIG`, `APPDATA` and `HOME`.
pub fn gcloud_config_dir(
    windows: bool,
    cloudsdk_config: Option<&str>,
    appdata: Option<&str>,
    home: Option<&str>,
) -> (dir: String)
    ensures
        may_be_config_dir(
            windows,
            str_option(cloudsdk_config),
            str_option(appdata),
            str_option(home),
            dir@,
        ),
{
    if let Some(dir) = setting_of(cloudsdk_config) {
        return dir.to_owned();
    }
    let ghost none = Seq::<Seq<char>>::empty();
    if windows {
        if let Some(base) = setting_of(appdata) {
            let dir = join_next(true, Ghost(base@), Ghost(none), base, "gcloud");
            assert(none.push("gcloud"@) == seq!["gcloud"@]);
            return dir;
        }
    }
    if let Some(base) = setting_of(home) {
        if windows {
            let first = join_next(true, Ghost(base@), Ghost(none), base, "AppData");
            let second = join_next(
                true,
                Ghost(base@),
                Ghost(none.push("AppData"@)),
                first.as_str(),
                "Roaming",
            );
            let dir = join_next(
                true,
                Ghost(base@),
                Ghost(none.push("AppData"@).push("Roaming"@)),
                second.as_str(),
                "gcloud",
            );
            assert(none.push("AppData"@).push("Roaming"@).push("gcloud"@)
                == seq!["AppData"@, "Roaming"@, "gcloud"@]);
            return dir;
        } else {
            let first = join(false, base, ".config");
            let dir = join(false, first.as_str(), "gcloud");
            proof {
                reveal_strlit(".config");
                reveal_strlit("gcloud");
                reveal_strlit("/");
                reveal_strlit(".config/gcloud");
                assert(".config/gcloud"@ =~= ".config"@ + "/"@ + "gcloud"@);
                assert(first@.last() == 'g');
                assert(dir@ =~= slash_joined(base@, ".config/gcloud"@));
            }
            return dir;
        }
    }
    ".".to_owned()
}

pub open spec fn tracker_components() -> Seq<Seq<char>> {
    seq!["surface_data"@, "storage"@, "tracker_files"@]
}

/// The directory in which the gcloud tool keeps its upload trackers, under its
/// configuration directory.
pub open spec fn may_be_tracker_dir(windows: bool, config_dir: Seq<char>, dir: Seq<char>) -> bool {
    if windows {
        may_be_path(true, config_dir, tracker_components(), dir)
    } else {
        dir == slash_joined(config_dir, "surface_data/storage/tracker_files"@)
    }
}

pub fn tracker_dir_under(windows: bool, config_dir: &str) -> (dir: String)
    ensures
        may_be_tracker_dir(windows, config_dir@, dir@),
{
    let ghost none = Seq::<Seq<char>>::empty();
    let first = join_next(windows, Ghost(config_dir@), Ghost(none), config_dir, "surface_data");
    let second = join_next(
        windows,
        Ghost(config_dir@),
        Ghost(none.push("surface_data"@)),
        first.as_str(),
        "storage",
    );
    let dir = join_next(
        windows,
        Ghost(config_dir@),
        Ghost(none.push("surface_data"@).push("storage"@)),
        second.as_str(),
        "tracker_files",
    );
    proof {
        assert(none.push("surface_data"@).push("storage"@).push("tracker_files"@)
            == tracker_components());
        if !windows {
            reveal_strlit("surface_data");
            reveal_strlit("storage");
            reveal_strlit("tracker_files");
            reveal_strlit("/");
            reveal_strlit("surface_data/storage/tracker_files");
            assert("surface_data/storage/tracker_files"@ =~= "surface_data"@ + "/"@ + "storage"@
                + "/"@ + "tracker_files"@);
            assert(first@.last() == 'a');
            assert(second@.last() == 'e');
            assert(dir@ =~= slash_joined(config_dir@, "surface_data/storage/tracker_files"@));
        }
    }
    dir
}

/// The directory in which the gcloud tool keeps its upload trackers.
pub fn gcloud_tracker_dir(
    windows: bool,
    cloudsdk_config: Option<&str>,
    appdata: Option<&str>,
    home: Option<&str>,
) -> (dir: String)
    ensures
        exists|config_dir: Seq<char>| #[trigger]
            may_be_config_dir(
                windows,
                str_option(cloudsdk_config),
                str_option(appdata),
                str_option(home),
                config_dir,
            ) && may_be_tracker_dir(windows, config_dir, dir@),
        !windows ==> dir@ == slash_joined(
            unix_config_dir(str_option(cloudsdk_config), str_option(home)),
            "surface_data/storage/tracker_files"@,
        ),
{
    let config_dir = gcloud_config_dir(windows, cloudsdk_config, appdata, home);
    tracker_dir_under(windows, config_dir.as_str())
}

proof fn lemma_dashed_is_safe(s: Seq<char>)
    ensures
        forall|i: int| 0 <= i < dashed(s).len() ==> is_safe(#[trigger] dashed(s)[i]),
    decreases s.len(),
{
    if s.len() > 0 {
        let front = dashed(s.drop_last());
        lemma_dashed_is_safe(s.drop_last());
        assert forall|i: int| 0 <= i < dashed(s).len() implies is_safe(#[trigger] dashed(s)[i]) by {
            if i < front.len() {
                assert(dashed(s)[i] == front[i]);
            }
        }
    }
}

proof fn lemma_without_leading_starts(s: Seq<char>, c: char)
    ensures
        without_leading(s, c).len() <= s.len(),
        without_leading(s, c) == s.skip(s.len() - without_leading(s, c).len()),
        without_leading(s, c).len() > 0 ==> without_leading(s, c)[0] != c,
    decreases s.len(),
{
    if s.len() > 0 && s[0] == c {
        let rest = s.drop_first();
        lemma_without_leading_starts(rest, c);
        let kept = without_leading(rest, c);
        assert(s.skip(s.len() - kept.len()) =~= rest.skip(rest.len() - kept.len()));
    } else {
        assert(s.skip(0) =~= s);
    }
}

/// The object-name form of a stem is never empty, has safe characters only, so no slash
/// and no dot, and has no dash at either end.
pub proof fn law_clean_stem_is_safe(stem: Seq<char>)
    ensures
        clean_stem(stem).len() > 0,
        forall|i: int| 0 <= i < clean_stem(stem).len() ==> is_safe(#[trigger] clean_stem(stem)[i]),
        clean_stem(stem)[0] != '-',
        clean_stem(stem).last() != '-',
{
    reveal_strlit("video");
    let all = dashed(lowered(stem));
    let front = without_leading(all, '-');
    let bare = without_trailing(front, '-');
    lemma_dashed_is_safe(lowered(stem));
    lemma_without_leading_starts(all, '-');
    lemma_without_trailing_ends(front, '-');
    if bare.len() > 0 {
        assert forall|i: int| 0 <= i < bare.len() implies is_safe(#[trigger] bare[i]) by {
            assert(bare[i] == front[i]);
            assert(front[i] == all[all.len() - front.len() + i]);
        }
        assert(bare[0] == front[0]);
    }
}

/// A base URL has no slash at its end, however many it was given with, and is kept as it
/// is when it has none.
pub proof fn law_base_url_ends_without_slash(base_url: Seq<char>)
    ensures
        without_trailing(base_url, '/').len() > 0 ==> without_trailing(base_url, '/').last() != '/',
        without_trailing(without_trailing(base_url, '/'), '/') == without_trailing(base_url, '/'),
        base_url.len() > 0 && base_url.last() != '/' ==> without_trailing(base_url, '/')
            == base_url,
{
    lemma_without_trailing_ends(base_url, '/');
}

/// The name of an object does not change with slashes behind the prefix, ends in the task
/// and the file, and is another for another task.
pub proof fn law_object_name_depends_on_task(
    object_prefix: Seq<char>,
    task_id: Seq<char>,
    other_id: Seq<char>,
    clean: Seq<char>,
)
    ensures
        object_name(object_prefix + "/"@, task_id, clean) == object_name(
            object_prefix,
            task_id,
            clean,
        ),
        ends_with(object_name(object_prefix, task_id, clean), "/"@ + task_id + "/"@ + clean),
        task_id != other_id ==> object_name(object_prefix, task_id, clean) != object_name(
            object_prefix,
            other_id,
            clean,
        ),
{
    reveal_strlit("/");
    let longer = object_prefix + "/"@;
    assert(longer.last() == '/');
    assert(longer.drop_last() =~= object_prefix);
    let front = without_trailing(object_prefix, '/');
    let tail = "/"@ + task_id + "/"@ + clean;
    let name = object_name(object_prefix, task_id, clean);
    assert(name =~= front + tail);
    assert(name.skip(name.len() - tail.len()) =~= tail);
    let other = object_name(object_prefix, other_id, clean);
    if name == other {
        assert(task_id.len() == other_id.len());
        let from = front.len() as int + 1;
        assert(name.subrange(from, from + task_id.len()) =~= task_id);
        assert(other.subrange(from, from + task_id.len()) =~= other_id);
    }
}

/// How the names of objects depend on what they are made from: a slash behind the prefix,
/// and whether the file name has been cleaned before, make no difference; the name ends in
/// the task and the cleaned file name; and it is another for another task.
pub proof fn law_object_names(
    windows: bool,
    object_prefix: Seq<char>,
    task_id: Seq<char>,
    other_id: Seq<char>,
    filename: Seq<char>,
    clean: Seq<char>,
    name: Seq<char>,
)
    requires
        !is_unread(filename, windows),
        is_cleaned_on(filename, clean, windows),
        may_be_object_name(windows, object_prefix, task_id, filename, name),
    ensures
        name == object_name(object_prefix, task_id, clean),
        ends_with(name, "/"@ + task_id + "/"@ + clean),
        forall|n: Seq<char>|
            may_be_object_name(windows, object_prefix + "/"@, task_id, filename, n) ==> n == name,
        forall|n: Seq<char>|
            may_be_object_name(windows, object_prefix, task_id, clean, n) ==> n == name,
        forall|n: Seq<char>|
            may_be_object_name(windows, object_prefix, other_id, filename, n) && other_id
                != task_id ==> n != name,
{
    law_object_name_depends_on_task(object_prefix, task_id, other_id, clean);
}

/// A file name is its stem, the last dot and its extension, where it has a dot that is not
/// its first character; otherwise it is its stem. No dot is left in an extension.
pub proof fn law_name_is_stem_and_extension(name: Seq<char>)
    ensures
        match extension_of(name) {
            Some(extension) => {
                &&& name == stem_of(name) + seq!['.'] + extension
                &&& stem_of(name).len() > 0
                &&& !extension.contains('.')
            },
            None => {
                &&& stem_of(name) == name
                &&& name == seq!['.', '.'] || forall|i: int|
                    1 <= i < name.len() ==> #[trigger] name[i] != '.'
            },
        },
{
    let dot = last_position(name, '.');
    lemma_last_position_is(name, '.');
    if has_extension(name) {
        let extension = name.skip(dot + 1);
        assert(name =~= name.take(dot) + seq!['.'] + extension);
        if extension.contains('.') {
            let i = extension.index_of('.');
            assert(extension[i] == name[dot + 1 + i]);
        }
    }
}

/// A stem of safe characters that has no dash at either end is kept as it is.
pub proof fn law_safe_stem_is_kept(stem: Seq<char>)
    requires
        stem.len() > 0,
        forall|i: int| 0 <= i < stem.len() ==> ('a' <= #[trigger] stem[i] <= 'z') || ('0' <= stem[i]
            <= '9') || stem[i] == '_' || stem[i] == '-',
        stem[0] != '-',
        stem.last() != '-',
    ensures
        clean_stem(stem) == stem,
{
    assert forall|i: int| 0 <= i < stem.len() implies is_safe(#[trigger] stem[i]) by {}
    lemma_safe_text_is_kept(stem);
}

/// The lower case of a stem goes character by character, and that of an ASCII character is
/// its small letter or itself.
pub proof fn law_stem_is_lowered_by_character(a: Seq<char>, b: Seq<char>, c: char)
    ensures
        lowered(a + b) == lowered(a) + lowered(b),
        lowered(Seq::empty()).len() == 0,
        (c as u32) < 128 && !('A' <= c <= 'Z') ==> lowered(seq![c]) == seq![c],
        'A' <= c <= 'Z' ==> lowered(seq![c]).len() == 1 && lowered(seq![c])[0] as int == c as int
            + 32,
        (c as u32) >= 128 ==> lowered(seq![c]) == lowercase_of(c),
    decreases b.len(),
{
    assert(seq![c].drop_last() =~= Seq::empty());
    assert(lowered(Seq::empty()) =~= Seq::empty());
    assert(lowered(seq![c]) =~= lower_char(c));
    if b.len() == 0 {
        assert(a + b =~= a);
        assert(lowered(a) + lowered(b) =~= lowered(a));
    } else {
        law_stem_is_lowered_by_character(a, b.drop_last(), c);
        assert((a + b).drop_last() =~= a + b.drop_last());
        assert((a + b).last() == b.last());
        assert(lowered(a + b) =~= lowered(a) + lowered(b));
    }
}

/// Safe characters are kept where they stand; what else stands between them becomes a dash,
/// one for each run: two texts are taken one by one unless a run goes on from the one to the
/// other, and a run that goes on makes no second dash.
pub proof fn law_unsafe_runs_become_one_dash(a: Seq<char>, b: Seq<char>, c: char)
    ensures
        dashed(seq![c]) == (if is_safe(c) {
            seq![c]
        } else {
            seq!['-']
        }),
        a.len() == 0 || b.len() == 0 || is_safe(a.last()) || is_safe(b[0]) ==> dashed(a + b)
            == dashed(a) + dashed(b),
        a.len() > 0 && !is_safe(a.last()) && !is_safe(c) ==> dashed(a.push(c)) == dashed(a),
        dashed(Seq::empty()).len() == 0,
    decreases b.len(),
{
    assert(dashed(Seq::empty()) =~= Seq::empty());
    assert(seq![c].drop_last() =~= Seq::empty());
    assert(dashed(seq![c]) =~= (if is_safe(c) {
        seq![c]
    } else {
        seq!['-']
    }));
    assert(a.push(c).drop_last() =~= a);
    if b.len() == 0 {
        assert(a + b =~= a);
        assert(dashed(a) + dashed(b) =~= dashed(a));
    } else {
        let front = b.drop_last();
        law_unsafe_runs_become_one_dash(a, front, c);
        assert((a + b).drop_last() =~= a + front);
        assert((a + b).last() == b.last());
        if front.len() > 0 {
            assert((a + front).last() == front.last());
            assert(front[0] == b[0]);
        } else {
            assert(a + front =~= a);
            assert(b =~= seq![b[0]]);
        }
        if a.len() == 0 || is_safe(a.last()) || is_safe(b[0]) {
            assert(dashed(a + b) =~= dashed(a) + dashed(b));
        }
    }
}

/// A character is safe exactly where it is a small ASCII letter, a digit, a dash or an
/// underscore.
pub proof fn law_safe_characters(c: char)
    ensures
        is_safe(c) <==> ('a' <= c <= 'z') || ('0' <= c <= '9') || c == '-' || c == '_',
{
}

/// The object-name form of a stem is what lies between the dashes at the ends of its lower
/// case with dashes for unsafe characters, and `video` where that is dashes only.
pub proof fn law_clean_stem_lies_between_dashes(stem: Seq<char>) -> (ends: (int, int))
    ensures
        ({
            let all = dashed(lowered(stem));
            &&& 0 <= ends.0 <= ends.1 <= all.len()
            &&& forall|i: int| 0 <= i < ends.0 ==> #[trigger] all[i] == '-'
            &&& forall|i: int| ends.1 <= i < all.len() ==> #[trigger] all[i] == '-'
            &&& if ends.0 < ends.1 {
                clean_stem(stem) == all.subrange(ends.0, ends.1) && all[ends.0] != '-' && all[ends.1
                    - 1] != '-'
            } else {
                clean_stem(stem) == "video"@
            }
        }),
{
    let all = dashed(lowered(stem));
    let a = lemma_leading_run(all, '-');
    let rest = all.skip(a);
    let b = lemma_trailing_run(rest, '-');
    lemma_without_leading(all, '-', a);
    lemma_without_trailing(rest, '-', b);
    let bare = rest.take(b);
    assert(bare =~= all.subrange(a, a + b));
    assert forall|i: int| a + b <= i < all.len() implies #[trigger] all[i] == '-' by {
        assert(rest[i - a] == all[i]);
    }
    if b > 0 {
        assert(rest[0] == all[a]);
        assert(rest[b - 1] == all[a + b - 1]);
    }
    (a, a + b)
}

proof fn lemma_leading_run(s: Seq<char>, c: char) -> (n: int)
    ensures
        0 <= n <= s.len(),
        forall|i: int| 0 <= i < n ==> #[trigger] s[i] == c,
        n < s.len() ==> s[n] != c,
    decreases s.len(),
{
    if s.len() > 0 && s[0] == c {
        let rest = s.drop_first();
        let m = lemma_leading_run(rest, c);
        assert forall|i: int| 0 <= i < m + 1 implies #[trigger] s[i] == c by {
            if i > 0 {
                assert(rest[i - 1] == s[i]);
            }
        }
        if m < rest.len() {
            assert(rest[m] == s[m + 1]);
        }
        m + 1
    } else {
        0
    }
}

proof fn lemma_trailing_run(s: Seq<char>, c: char) -> (n: int)
    ensures
        0 <= n <= s.len(),
        forall|i: int| n <= i < s.len() ==> #[trigger] s[i] == c,
        n > 0 ==> s[n - 1] != c,
    decreases s.len(),
{
    if s.len() > 0 && s.last() == c {
        let rest = s.drop_last();
        let m = lemma_trailing_run(rest, c);
        assert forall|i: int| m <= i < s.len() implies #[trigger] s[i] == c by {
            if i < rest.len() {
                assert(rest[i] == s[i]);
            }
        }
        m
    } else {
        s.len() as int
    }
}

/// A clean name is made of the clean stem of the file name and of its extension in lower
/// case, or `mp4` where it has none; a path without a file name has `video.mp4`.
pub proof fn law_clean_name_keeps_stem_and_extension(
    filename: Seq<char>,
    clean: Seq<char>,
    windows: bool,
)
    requires
        is_cleaned_on(filename, clean, windows),
    ensures
        match file_name_on(filename, windows) {
            Some(name) => match extension_of(name) {
                Some(extension) => {
                    &&& clean == clean_stem(stem_of(name)) + seq!['.'] + lower_case(extension)
                    &&& (is_ascii_chars(extension) ==> ends_with(
                        clean,
                        seq!['.'] + ascii_lowered(extension),
                    ))
                },
                None => clean == clean_stem(name) + seq!['.', 'm', 'p', '4'],
            },
            None => clean == seq!['v', 'i', 'd', 'e', 'o', '.', 'm', 'p', '4'],
        },
{
    reveal_strlit(".");
    reveal_strlit("mp4");
    reveal_strlit("video");
    assert("."@ =~= seq!['.']);
    law_safe_stem_is_kept("video"@);
    match file_name_on(filename, windows) {
        Some(name) => {
            match extension_of(name) {
                Some(extension) => {
                    let tail = seq!['.'] + lower_case(extension);
                    assert(clean =~= clean_stem(stem_of(name)) + tail);
                    assert(clean.skip(clean.len() - tail.len()) =~= tail);
                },
                None => {
                    assert(stem_of(name) == name);
                    assert(clean =~= clean_stem(name) + seq!['.', 'm', 'p', '4']);
                },
            }
        },
        None => {
            assert(clean =~= seq!['v', 'i', 'd', 'e', 'o', '.', 'm', 'p', '4']);
        },
    }
}

/// The lower case of an ASCII text is the text with its capitals lowered; any other text has
/// the lower case that the standard library gives it.
pub proof fn law_lower_case(s: Seq<char>)
    ensures
        is_ascii_chars(s) ==> lower_case(s) == ascii_lowered(s),
        !is_ascii_chars(s) ==> lower_case(s) == lowercase_text(s),
{
}

/// The name of an object is the prefix, the task and the clean name, each behind one slash,
/// where the prefix does not end in one.
pub proof fn law_object_stands_below_its_prefix(
    object_prefix: Seq<char>,
    task_id: Seq<char>,
    clean: Seq<char>,
)
    requires
        object_prefix.len() == 0 || object_prefix.last() != '/',
    ensures
        object_name(object_prefix, task_id, clean) == object_prefix + seq!['/'] + task_id
            + seq!['/'] + clean,
{
    reveal_strlit("/");
    assert("/"@ =~= seq!['/']);
}

/// The URI of an object names its bucket and ends in its name, and nothing else stands in it.
pub proof fn law_uri_names_bucket_and_object(bucket: Seq<char>, object: Seq<char>)
    ensures
        starts_with(gs_uri(bucket, object), "gs://"@ + bucket),
        ends_with(gs_uri(bucket, object), "/"@ + object),
        gs_uri(bucket, object).len() == bucket.len() + object.len() + 6,
{
    reveal_strlit("gs://");
    reveal_strlit("/");
    let uri = gs_uri(bucket, object);
    let front = "gs://"@ + bucket;
    assert(uri.take(front.len() as int) =~= front);
    let tail = "/"@ + object;
    assert(uri.skip(uri.len() - tail.len()) =~= tail);
}

/// The media type of a file is that of its extension, and `video/mp4` where it has none or
/// none is known for it.
pub proof fn law_media_type_goes_by_extension(
    windows: bool,
    path: Seq<char>,
    mime: Seq<char>,
)
    requires
        may_be_mime_type(windows, path, mime),
        !is_unread(path, windows),
    ensures
        file_name_on(path, windows) is None ==> mime == "video/mp4"@,
        file_name_on(path, windows) matches Some(name) ==> match extension_of(name) {
            Some(extension) => match mime_for_extension(extension) {
                Some(known) => mime == known,
                None => mime == "video/mp4"@,
            },
            None => mime == "video/mp4"@,
        },
{
}

/// A setting is given exactly where it has a character that is not white space, and it is
/// then what stands between the white space around it.
pub proof fn law_blank_settings_are_none(value: Option<Seq<char>>)
    ensures
        setting(value) is Some <==> (value matches Some(text) && !is_blank(text)),
        setting(value) matches Some(given) ==> given == trimmed(value->0),
{
}

/// Off Windows the configuration directory of the tool is the one that is set for it, or else
/// lies in the home directory, or else is the current one; its trackers lie below it.
pub proof fn law_directories_off_windows(
    cloudsdk_config: Option<Seq<char>>,
    appdata: Option<Seq<char>>,
    home: Option<Seq<char>>,
    dir: Seq<char>,
    trackers: Seq<char>,
)
    requires
        may_be_config_dir(false, cloudsdk_config, appdata, home, dir),
        may_be_tracker_dir(false, dir, trackers),
    ensures
        ({
            let own = cloudsdk_config matches Some(text) && !is_blank(text);
            let at_home = home matches Some(text) && !is_blank(text);
            &&& (own ==> dir == trimmed(cloudsdk_config->0))
            &&& (!own && at_home ==> dir == (if trimmed(home->0).last() == '/' {
                trimmed(home->0) + ".config/gcloud"@
            } else {
                trimmed(home->0) + "/"@ + ".config/gcloud"@
            }))
            &&& (!own && !at_home ==> dir == "."@)
            &&& (dir.len() > 0 && dir.last() != '/' ==> trackers == dir + "/"@
                + "surface_data/storage/tracker_files"@)
            &&& (dir.len() == 0 || dir.last() == '/' ==> trackers == dir
                + "surface_data/storage/tracker_files"@)
        }),
{
    if home matches Some(text) && !is_blank(text) {
        lemma_trimmed_keeps_content(home->0);
    }
}

/// On Windows the configuration directory of the tool is the one that is set for it, or else
/// lies with the data of applications, or else in the home directory, or else is the current
/// one; its trackers lie below it.
pub proof fn law_directories_on_windows(
    cloudsdk_config: Option<Seq<char>>,
    appdata: Option<Seq<char>>,
    home: Option<Seq<char>>,
    dir: Seq<char>,
    trackers: Seq<char>,
)
    requires
        may_be_config_dir(true, cloudsdk_config, appdata, home, dir),
        may_be_tracker_dir(true, dir, trackers),
    ensures
        ({
            let own = cloudsdk_config matches Some(text) && !is_blank(text);
            let data = appdata matches Some(text) && !is_blank(text);
            let at_home = home matches Some(text) && !is_blank(text);
            &&& (own ==> dir == trimmed(cloudsdk_config->0))
            &&& (!own && data ==> may_be_joined(trimmed(appdata->0), "gcloud"@, dir))
            &&& (!own && !data && at_home ==> exists|a: Seq<char>, b: Seq<char>|
                #![trigger may_be_joined(a, "Roaming"@, b)]
                may_be_joined(trimmed(home->0), "AppData"@, a) && may_be_joined(a, "Roaming"@, b)
                    && may_be_joined(b, "gcloud"@, dir))
            &&& (!own && !data && !at_home ==> dir == "."@)
            &&& exists|a: Seq<char>, b: Seq<char>|
                #![trigger may_be_joined(a, "storage"@, b)]
                may_be_joined(dir, "surface_data"@, a) && may_be_joined(a, "storage"@, b)
                    && may_be_joined(b, "tracker_files"@, trackers)
        }),
{
    let own = cloudsdk_config matches Some(text) && !is_blank(text);
    let data = appdata matches Some(text) && !is_blank(text);
    let at_home = home matches Some(text) && !is_blank(text);
    lemma_three_components(dir, "surface_data"@, "storage"@, "tracker_files"@, trackers);
    if !own && data {
        let base = trimmed(appdata->0);
        let one = seq!["gcloud"@];
        assert(one.drop_last() =~= Seq::empty());
        let parent = choose|parent: Seq<char>|
            may_be_path(true, base, one.drop_last(), parent) && #[trigger] is_joined(
                true,
                parent,
                one.last(),
                dir,
            );
        assert(parent == base);
    }
    if !own && !data && at_home {
        lemma_three_components(trimmed(home->0), "AppData"@, "Roaming"@, "gcloud"@, dir);
    }
}

proof fn lemma_three_components(
    base: Seq<char>,
    first: Seq<char>,
    second: Seq<char>,
    third: Seq<char>,
    path: Seq<char>,
)
    requires
        may_be_path(true, base, seq![first, second, third], path),
    ensures
        exists|a: Seq<char>, b: Seq<char>|
            #![trigger may_be_joined(a, second, b)]
            may_be_joined(base, first, a) && may_be_joined(a, second, b) && may_be_joined(
                b,
                third,
                path,
            ),
{
    let all = seq![first, second, third];
    let two = all.drop_last();
    let one = two.drop_last();
    assert(all.last() == third && two.last() == second && one.last() == first);
    assert(one.drop_last() =~= Seq::empty());
    let b = choose|parent: Seq<char>|
        may_be_path(true, base, two, parent) && #[trigger] is_joined(true, parent, third, path);
    let a = choose|parent: Seq<char>|
        may_be_path(true, base, one, parent) && #[trigger] is_joined(true, parent, second, b);
    let start = choose|parent: Seq<char>|
        may_be_path(true, base, one.drop_last(), parent) && #[trigger] is_joined(
            true,
            parent,
            first,
            a,
        );
    assert(start == base);
    assert(may_be_joined(a, second, b));
}

/// Off Windows a component that is joined to a path stands behind one slash.
pub proof fn law_joined_component_stands_behind_a_slash(
    base: Seq<char>,
    component: Seq<char>,
    path: Seq<char>,
)
    requires
        is_joined(false, base, component, path),
    ensures
        base.len() > 0 && base.last() != '/' ==> path == base + seq!['/'] + component,
        base.len() == 0 || base.last() == '/' ==> path == base + component,
{
    reveal_strlit("/");
    assert("/"@ =~= seq!['/']);
}

} // verus!
