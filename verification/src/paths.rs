//! Paths, as the Unix and the Windows rules read them.
use crate::outside::path_file_name;
use crate::text::{ascii_lower, ascii_lowered, chars_of, contains, occurs_at, text_of, text_option};
use vstd::prelude::*;
use vstd::string::*;

verus! {

/// The characters that part the components of a path.
pub open spec fn is_separator(c: char, windows: bool) -> bool {
    c == '/' || (windows && c == '\\')
}

pub open spec fn is_ascii_letter(c: char) -> bool {
    'a' <= c <= 'z' || 'A' <= c <= 'Z'
}

/// A path that begins with two separators, which on Windows may name a server, a device
/// or a path that is taken literally.
pub open spec fn is_double_rooted(path: Seq<char>) -> bool {
    path.len() >= 2 && is_separator(path[0], true) && is_separator(path[1], true)
}

/// Where the first separator from position `i` on stands, or the end.
pub open spec fn next_separator(path: Seq<char>, i: int) -> int
    decreases path.len() - i,
{
    if i >= path.len() || is_separator(path[i], true) {
        i
    } else {
        next_separator(path, i + 1)
    }
}

/// Where the name of the share starts in a path that begins with a server.
pub open spec fn share_start(path: Seq<char>) -> int {
    next_separator(path, 2) + 1
}

/// A path that begins with a server and a share, `\\server\share`, and is neither that of a
/// device nor taken literally.
pub open spec fn has_share(path: Seq<char>) -> bool {
    &&& is_double_rooted(path)
    &&& path.len() > 2
    &&& !is_separator(path[2], true)
    &&& path[2] != '?'
    &&& path[2] != '.'
    &&& share_start(path) < path.len()
    &&& !is_separator(path[share_start(path)], true)
}

/// How long the drive, or the server and the share, in front of a path is, on Windows.
pub open spec fn root_length(path: Seq<char>, windows: bool) -> int {
    if !windows {
        0
    } else if path.len() >= 2 && is_ascii_letter(path[0]) && path[1] == ':' {
        2
    } else if has_share(path) {
        next_separator(path, share_start(path))
    } else {
        0
    }
}

/// How much of the first `n` characters is left, but no less than `from`, without
/// separators at the end and without `.` components there.
pub open spec fn kept_length(path: Seq<char>, windows: bool, from: int, n: int) -> int
    decreases n,
{
    if n <= from || n <= 0 {
        n
    } else if is_separator(path[n - 1], windows) {
        kept_length(path, windows, from, n - 1)
    } else if path[n - 1] == '.' && n - 2 >= from && is_separator(path[n - 2], windows) {
        kept_length(path, windows, from, n - 1)
    } else {
        n
    }
}

/// Where the last component of the first `n` characters starts: behind the last
/// separator, but not before `from`.
pub open spec fn segment_start(path: Seq<char>, windows: bool, from: int, n: int) -> int
    decreases n,
{
    if n <= from || n <= 0 || is_separator(path[n - 1], windows) {
        n
    } else {
        segment_start(path, windows, from, n - 1)
    }
}

/// The file name of a path under the rules of one platform: its last component, where
/// that is neither `.` nor `..`. Separators and `.` components at the end are passed
/// over.
pub open spec fn file_name_on(path: Seq<char>, windows: bool) -> Option<Seq<char>> {
    let from = root_length(path, windows);
    let end = kept_length(path, windows, from, path.len() as int);
    let segment = path.subrange(segment_start(path, windows, from, end), end);
    if segment.len() == 0 || segment == seq!['.'] || segment == seq!['.', '.'] {
        None
    } else {
        Some(segment)
    }
}

/// A path whose file name on Windows is not stated: it begins with two separators, and has
/// no file name behind a server and a share.
pub open spec fn is_unread(path: Seq<char>, windows: bool) -> bool {
    windows && is_double_rooted(path) && !(has_share(path) && file_name_on(path, true) is Some)
}

/// What is known of the file name of a path on one platform: it is a part of the path, and
/// it is the file name under the rules of the platform, where those are stated.
pub open spec fn may_be_file_name(
    path: Seq<char>,
    windows: bool,
    name: Option<Seq<char>>,
) -> bool {
    &&& name matches Some(n) ==> n.len() > 0 && contains(path, n)
    &&& !is_unread(path, windows) ==> name == file_name_on(path, windows)
}

/// A path that plainly ends in a file name: behind what may be a drive, or a server and a
/// share, there is more, and it does not end in a separator or a dot.
pub open spec fn is_plain_path(path: Seq<char>, windows: bool) -> bool {
    &&& path.len() > root_length(path, windows)
    &&& windows && is_double_rooted(path) ==> has_share(path)
    &&& !is_separator(path.last(), windows)
    &&& path.last() != '.'
}

/// Where the last segment of a path starts.
pub open spec fn last_segment_start(path: Seq<char>, windows: bool) -> int {
    segment_start(path, windows, root_length(path, windows), path.len() as int)
}

proof fn lemma_next_separator(path: Seq<char>, i: int)
    requires
        0 <= i <= path.len(),
    ensures
        i <= next_separator(path, i) <= path.len(),
        next_separator(path, i) < path.len() ==> is_separator(path[next_separator(path, i)], true),
        forall|j: int| i <= j < next_separator(path, i) ==> !is_separator(#[trigger] path[j], true),
    decreases path.len() - i,
{
    if i < path.len() && !is_separator(path[i], true) {
        lemma_next_separator(path, i + 1);
    }
}

pub proof fn lemma_root_length(path: Seq<char>, windows: bool)
    ensures
        0 <= root_length(path, windows) <= path.len(),
        windows && has_share(path) && root_length(path, windows) < path.len() ==> is_separator(
            path[root_length(path, windows)],
            true,
        ),
{
    if windows && has_share(path) {
        lemma_next_separator(path, 2);
        lemma_next_separator(path, share_start(path));
    }
}

pub proof fn lemma_segment_start(path: Seq<char>, windows: bool, from: int, n: int)
    requires
        0 <= from <= n <= path.len(),
    ensures
        from <= segment_start(path, windows, from, n) <= n,
        forall|i: int|
            segment_start(path, windows, from, n) <= i < n ==> !is_separator(
                #[trigger] path[i],
                windows,
            ),
        segment_start(path, windows, from, n) > from ==> is_separator(
            path[segment_start(path, windows, from, n) - 1],
            windows,
        ),
    decreases n,
{
    if n > from && !is_separator(path[n - 1], windows) {
        lemma_segment_start(path, windows, from, n - 1);
    }
}

/// Where no separator follows a position, the last segment starts there at the latest.
pub proof fn lemma_segment_start_before(
    path: Seq<char>,
    windows: bool,
    from: int,
    n: int,
    position: int,
)
    requires
        0 <= from <= position <= n <= path.len(),
        forall|i: int| position <= i < n ==> !is_separator(#[trigger] path[i], windows),
    ensures
        segment_start(path, windows, from, n) <= position,
{
    lemma_segment_start(path, windows, from, n);
    let s = segment_start(path, windows, from, n);
    if s > position {
        assert(is_separator(path[s - 1], windows));
    }
}

pub proof fn lemma_kept_length(path: Seq<char>, windows: bool, from: int, n: int)
    requires
        0 <= from <= n <= path.len(),
    ensures
        from <= kept_length(path, windows, from, n) <= n,
    decreases n,
{
    if n > from {
        lemma_kept_length(path, windows, from, n - 1);
    }
}

/// A file name has no separator in it and is neither `.` nor `..`.
pub proof fn lemma_file_name_is_component(path: Seq<char>, windows: bool)
    ensures
        file_name_on(path, windows) matches Some(name) ==> {
            &&& name.len() > 0
            &&& name != seq!['.']
            &&& name != seq!['.', '.']
            &&& forall|i: int| 0 <= i < name.len() ==> !is_separator(#[trigger] name[i], windows)
        },
{
    let from = root_length(path, windows);
    lemma_root_length(path, windows);
    lemma_kept_length(path, windows, from, path.len() as int);
    let end = kept_length(path, windows, from, path.len() as int);
    lemma_segment_start(path, windows, from, end);
    let start = segment_start(path, windows, from, end);
    if let Some(name) = file_name_on(path, windows) {
        assert forall|i: int| 0 <= i < name.len() implies !is_separator(
            #[trigger] name[i],
            windows,
        ) by {
            assert(name[i] == path[start + i]);
        }
    }
}

/// The file name of a plain path is what stands behind its last separator.
pub proof fn law_plain_path_ends_in_file_name(path: Seq<char>, windows: bool)
    requires
        is_plain_path(path, windows),
    ensures
        !is_unread(path, windows),
        file_name_on(path, windows) == Some(path.skip(last_segment_start(path, windows))),
        last_segment_start(path, windows) < path.len(),
{
    let from = root_length(path, windows);
    let n = path.len() as int;
    lemma_root_length(path, windows);
    assert(kept_length(path, windows, from, n) == n);
    lemma_segment_start(path, windows, from, n);
    let start = segment_start(path, windows, from, n);
    let segment = path.subrange(start, n);
    assert(segment =~= path.skip(start));
    assert(start < n);
    assert(segment[segment.len() - 1] == path[n - 1]);
    assert(seq!['.'][0] == '.');
    assert(seq!['.', '.'][1] == '.');
}

/// A text that is a component for itself: not empty, neither `.` nor `..`, and without
/// separators and colons.
pub open spec fn is_bare_name(name: Seq<char>) -> bool {
    &&& name.len() > 0
    &&& name != seq!['.']
    &&& name != seq!['.', '.']
    &&& forall|i: int|
        0 <= i < name.len() ==> !is_separator(#[trigger] name[i], true) && name[i] != ':'
}

/// A component behind a separator, or for itself, is the file name.
proof fn lemma_component_is_file_name(path: Seq<char>, windows: bool, start: int)
    requires
        root_length(path, windows) <= start < path.len(),
        start > root_length(path, windows) ==> is_separator(path[start - 1], windows),
        path.skip(start) != seq!['.'],
        path.skip(start) != seq!['.', '.'],
        forall|i: int| start <= i < path.len() ==> !is_separator(#[trigger] path[i], windows),
    ensures
        file_name_on(path, windows) == Some(path.skip(start)),
{
    let from = root_length(path, windows);
    let n = path.len() as int;
    lemma_root_length(path, windows);
    if n - 1 == start && path[n - 1] == '.' {
        assert(path.skip(start) =~= seq!['.']);
    }
    assert(kept_length(path, windows, from, n) == n);
    lemma_segment_start_before(path, windows, from, n, start);
    lemma_segment_start(path, windows, from, n);
    assert(segment_start(path, windows, from, n) == start);
    assert(path.subrange(start, n) =~= path.skip(start));
}

/// A name without separators, and whose second character is no colon, is its own file
/// name.
pub proof fn lemma_name_is_its_file_name(name: Seq<char>, windows: bool)
    requires
        name.len() > 0,
        name != seq!['.'],
        name != seq!['.', '.'],
        name.len() >= 2 ==> name[1] != ':',
        forall|i: int| 0 <= i < name.len() ==> !is_separator(#[trigger] name[i], windows),
    ensures
        file_name_on(name, windows) == Some(name),
        !is_unread(name, windows),
{
    assert(name.skip(0) =~= name);
    assert(!is_separator(name[0], windows));
    lemma_component_is_file_name(name, windows, 0);
}

/// The directory in front of a file name does not show in it.
pub proof fn law_directory_is_no_part_of_file_name(
    directory: Seq<char>,
    name: Seq<char>,
    windows: bool,
)
    requires
        is_bare_name(name),
        !is_unread(directory + seq!['/'] + name, windows),
    ensures
        file_name_on(directory + seq!['/'] + name, windows) == Some(name),
        file_name_on(name, windows) == Some(name),
        !is_unread(name, windows),
{
    let path = directory + seq!['/'] + name;
    let start = directory.len() as int + 1;
    let root = root_length(path, windows);
    assert(path.skip(start) =~= name);
    assert(path[start - 1] == '/');
    assert forall|i: int| start <= i < path.len() implies !is_separator(
        #[trigger] path[i],
        true,
    ) by {
        assert(path[i] == name[i - start]);
    }
    lemma_root_length(path, windows);
    if windows && has_share(path) && root == path.len() {
        assert(kept_length(path, windows, root, root) == root);
        assert(path.subrange(root, root) =~= Seq::empty());
    }
    if windows && path.len() >= 2 && is_ascii_letter(path[0]) && path[1] == ':' {
        assert(start > 2) by {
            if start == 1 {
                assert(path[0] == '/');
            } else if start == 2 {
                assert(path[1] == '/');
            }
        }
    }
    lemma_component_is_file_name(path, windows, start);
    lemma_name_is_its_file_name(name, windows);
}

/// The two texts differ in the case of ASCII letters at most.
pub open spec fn same_but_for_case(a: Seq<char>, b: Seq<char>) -> bool {
    ascii_lowered(a) == ascii_lowered(b)
}

pub proof fn lemma_same_but_for_case(a: Seq<char>, b: Seq<char>)
    ensures
        same_but_for_case(a, b) <==> a.len() == b.len() && forall|i: int|
            0 <= i < a.len() ==> ascii_lower(#[trigger] a[i]) == ascii_lower(b[i]),
{
    if same_but_for_case(a, b) {
        assert(ascii_lowered(a).len() == a.len());
        assert(ascii_lowered(b).len() == b.len());
        assert forall|i: int| 0 <= i < a.len() implies ascii_lower(#[trigger] a[i]) == ascii_lower(
            b[i],
        ) by {
            assert(ascii_lowered(a)[i] == ascii_lower(a[i]));
            assert(ascii_lowered(b)[i] == ascii_lower(b[i]));
        }
    }
    if a.len() == b.len() && forall|i: int|
        0 <= i < a.len() ==> ascii_lower(#[trigger] a[i]) == ascii_lower(b[i]) {
        assert(ascii_lowered(a) =~= ascii_lowered(b));
    }
}

proof fn lemma_positions_ignore_case(
    a: Seq<char>,
    b: Seq<char>,
    windows: bool,
    from: int,
    n: int,
)
    requires
        same_but_for_case(a, b),
        0 <= from <= n <= a.len(),
    ensures
        kept_length(a, windows, from, n) == kept_length(b, windows, from, n),
        segment_start(a, windows, from, n) == segment_start(b, windows, from, n),
    decreases n,
{
    lemma_same_but_for_case(a, b);
    if n > from {
        assert(ascii_lower(a[n - 1]) == ascii_lower(b[n - 1]));
        if n >= 2 {
            assert(ascii_lower(a[n - 2]) == ascii_lower(b[n - 2]));
        }
        lemma_positions_ignore_case(a, b, windows, from, n - 1);
    }
}

proof fn lemma_next_separator_ignores_case(a: Seq<char>, b: Seq<char>, i: int)
    requires
        same_but_for_case(a, b),
        0 <= i <= a.len(),
    ensures
        next_separator(a, i) == next_separator(b, i),
    decreases a.len() - i,
{
    lemma_same_but_for_case(a, b);
    if i < a.len() {
        assert(ascii_lower(a[i]) == ascii_lower(b[i]));
        lemma_next_separator_ignores_case(a, b, i + 1);
    }
}

proof fn lemma_root_ignores_case(a: Seq<char>, b: Seq<char>, windows: bool)
    requires
        same_but_for_case(a, b),
    ensures
        is_double_rooted(a) == is_double_rooted(b),
        has_share(a) == has_share(b),
        root_length(a, windows) == root_length(b, windows),
{
    lemma_same_but_for_case(a, b);
    if a.len() >= 2 {
        assert(ascii_lower(a[0]) == ascii_lower(b[0]));
        assert(ascii_lower(a[1]) == ascii_lower(b[1]));
    }
    if a.len() > 2 {
        assert(ascii_lower(a[2]) == ascii_lower(b[2]));
        lemma_next_separator(a, 2);
        lemma_next_separator_ignores_case(a, b, 2);
        let start = share_start(a);
        if start < a.len() {
            assert(ascii_lower(a[start]) == ascii_lower(b[start]));
            lemma_next_separator_ignores_case(a, b, start);
        }
    }
}

/// The file names of paths that differ in letter case only differ in letter case only.
pub proof fn lemma_file_name_ignores_case(a: Seq<char>, b: Seq<char>, windows: bool)
    requires
        same_but_for_case(a, b),
    ensures
        is_unread(a, windows) == is_unread(b, windows),
        match (file_name_on(a, windows), file_name_on(b, windows)) {
            (Some(x), Some(y)) => same_but_for_case(x, y),
            (None, None) => true,
            _ => false,
        },
{
    lemma_same_but_for_case(a, b);
    let from = root_length(a, windows);
    lemma_root_ignores_case(a, b, windows);
    lemma_root_length(a, windows);
    let n = a.len() as int;
    lemma_positions_ignore_case(a, b, windows, from, n);
    lemma_kept_length(a, windows, from, n);
    let end = kept_length(a, windows, from, n);
    lemma_positions_ignore_case(a, b, windows, from, end);
    lemma_segment_start(a, windows, from, end);
    let start = segment_start(a, windows, from, end);
    let x = a.subrange(start, end);
    let y = b.subrange(start, end);
    assert forall|i: int| 0 <= i < x.len() implies ascii_lower(#[trigger] x[i]) == ascii_lower(
        y[i],
    ) by {
        assert(ascii_lower(a[start + i]) == ascii_lower(b[start + i]));
    }
    lemma_same_but_for_case(x, y);
    if x.len() == 1 {
        assert(x == seq!['.'] <==> y == seq!['.']) by {
            assert(x =~= seq![x[0]]);
            assert(y =~= seq![y[0]]);
        }
    }
    if x.len() == 2 {
        assert(x == seq!['.', '.'] <==> y == seq!['.', '.']) by {
            assert(x =~= seq![x[0], x[1]]);
            assert(y =~= seq![y[0], y[1]]);
        }
    }
}

fn separator(c: char, windows: bool) -> (r: bool)
    ensures
        r == is_separator(c, windows),
{
    c == '/' || (windows && c == '\\')
}

fn letter(c: char) -> (r: bool)
    ensures
        r == is_ascii_letter(c),
{
    ('a' <= c && c <= 'z') || ('A' <= c && c <= 'Z')
}

fn find_separator(chars: &Vec<char>, from: usize) -> (position: usize)
    requires
        from <= chars@.len(),
    ensures
        position == next_separator(chars@, from as int),
        from <= position <= chars@.len(),
{
    let mut i: usize = from;
    while i < chars.len() && !separator(chars[i], true)
        invariant
            from <= i <= chars@.len(),
            next_separator(chars@, from as int) == next_separator(chars@, i as int),
        decreases chars.len() - i,
    {
        i = i + 1;
    }
    i
}

fn double_rooted(chars: &Vec<char>) -> (r: bool)
    ensures
        r == is_double_rooted(chars@),
{
    chars.len() >= 2 && separator(chars[0], true) && separator(chars[1], true)
}

fn behind_share(chars: &Vec<char>) -> (end: Option<usize>)
    ensures
        match end {
            Some(n) => has_share(chars@) && n == next_separator(chars@, share_start(chars@)),
            None => !has_share(chars@),
        },
{
    if !double_rooted(chars) || chars.len() <= 2 || separator(chars[2], true) || chars[2] == '?'
        || chars[2] == '.' {
        return None;
    }
    let server_end = find_separator(chars, 2);
    if server_end >= chars.len() - 1 || separator(chars[server_end + 1], true) {
        return None;
    }
    Some(find_separator(chars, server_end + 1))
}

/// The file name of a path on one platform. On Windows, how the standard library reads a
/// path that begins with two separators is left to it, unless a server, a share and a file
/// name stand there.
pub fn file_name(path: &str, windows: bool) -> (name: Option<String>)
    ensures
        may_be_file_name(path@, windows, text_option(name)),
{
    let chars = chars_of(path);
    let share = behind_share(&chars);
    let from: usize = if !windows {
        0
    } else if chars.len() >= 2 && letter(chars[0]) && chars[1] == ':' {
        2
    } else {
        match share {
            Some(end) => end,
            None => 0,
        }
    };
    proof {
        lemma_root_length(path@, windows);
    }
    let mut end: usize = chars.len();
    while end > from && (separator(chars[end - 1], windows) || (chars[end - 1] == '.' && end - from
        >= 2 && separator(chars[end - 2], windows)))
        invariant
            from <= end <= chars@.len(),
            kept_length(chars@, windows, from as int, chars@.len() as int) == kept_length(
                chars@,
                windows,
                from as int,
                end as int,
            ),
        decreases end,
    {
        end = end - 1;
    }
    let mut start: usize = end;
    while start > from && !separator(chars[start - 1], windows)
        invariant
            from <= start <= end <= chars@.len(),
            segment_start(chars@, windows, from as int, end as int) == segment_start(
                chars@,
                windows,
                from as int,
                start as int,
            ),
        decreases start,
    {
        start = start - 1;
    }
    let length: usize = end - start;
    let ghost segment = path@.subrange(start as int, end as int);
    let dots: bool = (length == 1 && chars[start] == '.') || (length == 2 && chars[start] == '.'
        && chars[start + 1] == '.');
    proof {
        if length == 1 {
            assert(segment =~= seq![segment[0]]);
        }
        if length == 2 {
            assert(segment =~= seq![segment[0], segment[1]]);
        }
        assert(seq!['.'].len() == 1 && seq!['.'][0] == '.');
        assert(seq!['.', '.'].len() == 2 && seq!['.', '.'][0] == '.' && seq!['.', '.'][1] == '.');
    }
    let ordinary: bool = length > 0 && !dots;
    if windows && double_rooted(&chars) && !(share.is_some() && ordinary) {
        return path_file_name(path);
    }
    if ordinary {
        let name = text_of(&chars, start, end);
        assert(occurs_at(path@, name@, start as int));
        Some(name)
    } else {
        None
    }
}

/// A name for itself: not empty, neither of the two that mean a directory, and without the
/// characters that part a path on either platform.
pub open spec fn is_single_name(name: Seq<char>) -> bool {
    &&& name.len() > 0
    &&& name != seq!['.']
    &&& name != seq!['.', '.']
    &&& !name.contains('/')
    &&& !name.contains('\\')
    &&& !name.contains(':')
}

proof fn lemma_single_name_is_bare(name: Seq<char>)
    requires
        is_single_name(name),
    ensures
        is_bare_name(name),
{
    assert forall|i: int| 0 <= i < name.len() implies !is_separator(#[trigger] name[i], true)
        && name[i] != ':' by {
        assert(name.contains(name[i]));
    }
}

/// The file name of a path is what stands behind its last slash, on Windows also behind its
/// last backslash or a drive; a name for itself is its own file name. Off Windows a
/// backslash is a character like any other.
pub proof fn law_file_name_stands_behind_the_last_separator(directory: Seq<char>, name: Seq<char>)
    requires
        is_single_name(name),
    ensures
        file_name_on(name, false) == Some(name),
        file_name_on(name, true) == Some(name),
        file_name_on(directory + seq!['/'] + name, false) == Some(name),
        !is_unread(directory + seq!['/'] + name, true) ==> file_name_on(
            directory + seq!['/'] + name,
            true,
        ) == Some(name),
        !is_unread(directory + seq!['\\'] + name, true) ==> file_name_on(
            directory + seq!['\\'] + name,
            true,
        ) == Some(name),
        !directory.contains('/') && directory.len() > 0 ==> file_name_on(
            directory + seq!['\\'] + name,
            false,
        ) == Some(directory + seq!['\\'] + name),
{
    lemma_single_name_is_bare(name);
    law_directory_is_no_part_of_file_name(directory, name, false);
    lemma_name_is_its_file_name(name, true);
    let path = directory + seq!['/'] + name;
    if !is_unread(path, true) {
        law_directory_is_no_part_of_file_name(directory, name, true);
    }
    let other = directory + seq!['\\'] + name;
    let start = directory.len() as int + 1;
    assert(other.skip(start) =~= name);
    assert(other[start - 1] == '\\');
    assert forall|i: int| start <= i < other.len() implies !is_separator(
        #[trigger] other[i],
        true,
    ) by {
        assert(other[i] == name[i - start]);
    }
    if !is_unread(other, true) {
        let root = root_length(other, true);
        lemma_root_length(other, true);
        if has_share(other) && root == other.len() {
            assert(kept_length(other, true, root, root) == root);
            assert(other.subrange(root, root) =~= Seq::empty());
        }
        if other.len() >= 2 && is_ascii_letter(other[0]) && other[1] == ':' {
            assert(start > 2) by {
                if start == 1 {
                    assert(other[0] == '\\');
                } else if start == 2 {
                    assert(other[1] == '\\');
                }
            }
        }
        lemma_component_is_file_name(other, true, start);
    }
    if !directory.contains('/') && directory.len() > 0 {
        assert forall|i: int| 0 <= i < other.len() implies !is_separator(
            #[trigger] other[i],
            false,
        ) by {
            if i < directory.len() {
                assert(directory.contains(directory[i]));
            } else if i >= start {
                assert(name.contains(name[i - start]));
            }
        }
        assert(other.skip(0) =~= other);
        assert(seq!['.'].len() == 1 && seq!['.', '.'].len() == 2);
        assert(other.len() >= 3);
        lemma_component_is_file_name(other, false, 0);
    }
}

/// On Windows the file name stands behind a drive, too, and behind a server and a share.
pub proof fn law_file_name_stands_behind_the_root(
    drive: char,
    server: Seq<char>,
    share: Seq<char>,
    name: Seq<char>,
)
    requires
        'a' <= drive <= 'z' || 'A' <= drive <= 'Z',
        is_single_name(server),
        server[0] != '?',
        server[0] != '.',
        is_single_name(share),
        is_single_name(name),
    ensures
        ({
            let path = seq![drive, ':'] + name;
            !is_unread(path, true) && file_name_on(path, true) == Some(name)
        }),
        ({
            let path = seq!['\\', '\\'] + server + seq!['\\'] + share + seq!['\\'] + name;
            !is_unread(path, true) && file_name_on(path, true) == Some(name)
        }),
        file_name_on(seq!['\\', '\\'] + server + seq!['\\'] + share, true) is None,
{
    lemma_single_name_is_bare(server);
    lemma_single_name_is_bare(share);
    lemma_single_name_is_bare(name);
    let local = seq![drive, ':'] + name;
    assert(local[0] == drive && local[1] == ':');
    assert(local.skip(2) =~= name);
    assert forall|i: int| 2 <= i < local.len() implies !is_separator(#[trigger] local[i], true) by {
        assert(local[i] == name[i - 2]);
    }
    lemma_component_is_file_name(local, true, 2);
    let root = seq!['\\', '\\'] + server + seq!['\\'] + share;
    let path = root + seq!['\\'] + name;
    assert(root.take(root.len() as int) =~= root);
    assert(path.take(root.len() as int) =~= root);
    lemma_share_is_read(root, server, share);
    lemma_share_is_read(path, server, share);
    assert(path =~= seq!['\\', '\\'] + server + seq!['\\'] + share + seq!['\\'] + name);
    let start = root.len() as int + 1;
    assert(path.skip(start) =~= name);
    assert forall|i: int| start <= i < path.len() implies !is_separator(#[trigger] path[i], true) by {
        assert(path[i] == name[i - start]);
    }
    lemma_component_is_file_name(path, true, start);
    let n = root.len() as int;
    assert(kept_length(root, true, n, n) == n);
    assert(root.subrange(n, n) =~= Seq::empty());
}

proof fn lemma_share_is_read(path: Seq<char>, server: Seq<char>, share: Seq<char>)
    requires
        is_bare_name(server),
        is_bare_name(share),
        server[0] != '?',
        server[0] != '.',
        ({
            let root = seq!['\\', '\\'] + server + seq!['\\'] + share;
            root.len() <= path.len() && path.take(root.len() as int) == root && (root.len()
                < path.len() ==> path[root.len() as int] == '\\')
        }),
    ensures
        has_share(path),
        root_length(path, true) == server.len() + share.len() + 3,
{
    let root = seq!['\\', '\\'] + server + seq!['\\'] + share;
    assert forall|i: int| 0 <= i < root.len() implies #[trigger] path[i] == root[i] by {
        assert(path.take(root.len() as int)[i] == path[i]);
    }
    let at = server.len() as int + 2;
    assert(path[0] == root[0] && path[1] == root[1] && path[at] == root[at]);
    assert forall|i: int| 2 <= i < at implies !is_separator(#[trigger] path[i], true) by {
        assert(path[i] == root[i]);
        assert(root[i] == server[i - 2]);
    }
    assert forall|i: int| at < i < root.len() implies !is_separator(#[trigger] path[i], true) by {
        assert(path[i] == root[i]);
        assert(root[i] == share[i - at - 1]);
    }
    assert(path[2] == server[0]) by {
        assert(path[2] == root[2]);
    }
    lemma_next_separator_is(path, 2, at);
    lemma_next_separator_is(path, at + 1, root.len() as int);
    assert(!is_separator(path[at + 1], true));
}

proof fn lemma_next_separator_is(path: Seq<char>, i: int, at: int)
    requires
        0 <= i <= at <= path.len(),
        forall|j: int| i <= j < at ==> !is_separator(#[trigger] path[j], true),
        at < path.len() ==> is_separator(path[at], true),
    ensures
        next_separator(path, i) == at,
    decreases at - i,
{
    if i < at {
        lemma_next_separator_is(path, i + 1, at);
    }
}

/// Off Windows the file name of every path is stated, and on Windows that of every path that
/// does not begin with two separators.
pub proof fn law_only_double_rooted_paths_are_left_open(path: Seq<char>)
    ensures
        !is_unread(path, false),
        is_unread(path, true) ==> path.len() >= 2 && (path[0] == '/' || path[0] == '\\') && (
        path[1] == '/' || path[1] == '\\'),
{
}

proof fn lemma_positions_need_the_front_only(
    a: Seq<char>,
    b: Seq<char>,
    windows: bool,
    from: int,
    n: int,
)
    requires
        0 <= from <= n <= a.len(),
        n <= b.len(),
        forall|i: int| 0 <= i < n ==> #[trigger] a[i] == b[i],
    ensures
        kept_length(a, windows, from, n) == kept_length(b, windows, from, n),
        segment_start(a, windows, from, n) == segment_start(b, windows, from, n),
    decreases n,
{
    if n > from {
        lemma_positions_need_the_front_only(a, b, windows, from, n - 1);
        assert(a[n - 1] == b[n - 1]);
        if n >= 2 {
            assert(a[n - 2] == b[n - 2]);
        }
    }
}

/// Slashes at the end of a path, and a dot behind one, do not show in its file name; a path
/// that ends in two dots behind a slash has none.
pub proof fn law_ends_of_directories_do_not_show(path: Seq<char>)
    ensures
        file_name_on(path + seq!['/'], false) == file_name_on(path, false),
        file_name_on(path + seq!['/', '.'], false) == file_name_on(path, false),
        file_name_on(path + seq!['/', '.', '.'], false) is None,
        file_name_on(Seq::empty(), false) is None,
{
    let n = path.len() as int;
    let slashed = path + seq!['/'];
    let dotted = path + seq!['/', '.'];
    let up = path + seq!['/', '.', '.'];
    lemma_kept_length(path, false, 0, n);
    let end = kept_length(path, false, 0, n);
    lemma_positions_need_the_front_only(path, slashed, false, 0, n);
    lemma_positions_need_the_front_only(path, dotted, false, 0, n);
    lemma_positions_need_the_front_only(path, slashed, false, 0, end);
    lemma_positions_need_the_front_only(path, dotted, false, 0, end);
    assert(slashed[n] == '/');
    assert(dotted[n] == '/' && dotted[n + 1] == '.');
    assert(kept_length(slashed, false, 0, n + 1) == end);
    assert(kept_length(dotted, false, 0, n + 1) == end);
    assert(kept_length(dotted, false, 0, n + 2) == end);
    lemma_segment_start(path, false, 0, end);
    let start = segment_start(path, false, 0, end);
    assert(slashed.subrange(start, end) =~= path.subrange(start, end));
    assert(dotted.subrange(start, end) =~= path.subrange(start, end));
    assert(up[n] == '/' && up[n + 1] == '.' && up[n + 2] == '.');
    assert(kept_length(up, false, 0, n + 3) == n + 3);
    reveal_with_fuel(segment_start, 4);
    assert(segment_start(up, false, 0, n + 3) == n + 1);
    assert(up.subrange(n + 1, n + 3) =~= seq!['.', '.']);
}

/// A path that begins with two separators names a server and a share only where the server is
/// no device and the share follows it at once; otherwise how Windows reads it is left open.
pub proof fn law_odd_roots_are_left_open(server: Seq<char>, rest: Seq<char>)
    requires
        is_single_name(server),
    ensures
        is_unread(seq!['\\', '\\'] + server + seq!['\\', '\\'] + rest, true),
        is_unread(seq!['\\', '\\'] + server, true),
        is_unread(seq!['\\', '\\', '?'] + rest, true),
        is_unread(seq!['\\', '\\', '.'] + rest, true),
        is_unread(seq!['\\', '\\', '\\'] + rest, true),
{
    lemma_single_name_is_bare(server);
    let doubled = seq!['\\', '\\'] + server + seq!['\\', '\\'] + rest;
    let alone = seq!['\\', '\\'] + server;
    let at = server.len() as int + 2;
    assert forall|i: int| 2 <= i < at implies !is_separator(#[trigger] doubled[i], true) by {
        assert(doubled[i] == server[i - 2]);
    }
    assert forall|i: int| 2 <= i < at implies !is_separator(#[trigger] alone[i], true) by {
        assert(alone[i] == server[i - 2]);
    }
    assert(doubled[at] == '\\' && doubled[at + 1] == '\\');
    lemma_next_separator_is(doubled, 2, at);
    lemma_next_separator_is(alone, 2, at);
    assert((seq!['\\', '\\', '?'] + rest)[2] == '?');
    assert((seq!['\\', '\\', '.'] + rest)[2] == '.');
    assert((seq!['\\', '\\', '\\'] + rest)[2] == '\\');
}

/// On Windows, too, separators at the end of a path, slash or backslash, and a dot behind
/// one, do not show in its file name.
pub proof fn law_ends_of_windows_directories_do_not_show(path: Seq<char>, separator: char)
    requires
        separator == '/' || separator == '\\',
        path.len() >= 2,
        !is_double_rooted(path),
    ensures
        file_name_on(path + seq![separator], true) == file_name_on(path, true),
        file_name_on(path + seq![separator, '.'], true) == file_name_on(path, true),
        file_name_on(path + seq![separator, '.', '.'], true) is None,
{
    let n = path.len() as int;
    let slashed = path + seq![separator];
    let dotted = path + seq![separator, '.'];
    let up = path + seq![separator, '.', '.'];
    let from = root_length(path, true);
    lemma_root_length(path, true);
    assert(slashed[0] == path[0] && slashed[1] == path[1]);
    assert(dotted[0] == path[0] && dotted[1] == path[1]);
    assert(up[0] == path[0] && up[1] == path[1]);
    assert(root_length(slashed, true) == from);
    assert(root_length(dotted, true) == from);
    assert(root_length(up, true) == from);
    lemma_kept_length(path, true, from, n);
    let end = kept_length(path, true, from, n);
    lemma_positions_need_the_front_only(path, slashed, true, from, n);
    lemma_positions_need_the_front_only(path, dotted, true, from, n);
    lemma_positions_need_the_front_only(path, slashed, true, from, end);
    lemma_positions_need_the_front_only(path, dotted, true, from, end);
    assert(slashed[n] == separator);
    assert(dotted[n] == separator && dotted[n + 1] == '.');
    assert(kept_length(slashed, true, from, n + 1) == end);
    assert(kept_length(dotted, true, from, n + 1) == end);
    assert(kept_length(dotted, true, from, n + 2) == end);
    lemma_segment_start(path, true, from, end);
    let start = segment_start(path, true, from, end);
    assert(slashed.subrange(start, end) =~= path.subrange(start, end));
    assert(dotted.subrange(start, end) =~= path.subrange(start, end));
    assert(up[n] == separator && up[n + 1] == '.' && up[n + 2] == '.');
    assert(kept_length(up, true, from, n + 3) == n + 3);
    reveal_with_fuel(segment_start, 4);
    assert(segment_start(up, true, from, n + 3) == n + 1);
    assert(up.subrange(n + 1, n + 3) =~= seq!['.', '.']);
}

} // verus!
