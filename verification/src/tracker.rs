//! The progress of an upload that the gcloud tool performs, read off the tracker files
//! that the tool keeps.
use crate::naming::{lower_case, lower_case_of, setting, setting_of};
use crate::outside::{json_member, json_text, json_unsigned, parse_json, parsed_json, Json};
use crate::paths::{file_name, file_name_on, is_unread, may_be_file_name};
use crate::requests::{
    law_session_is_asked_for_its_range, tracker_request, tracker_spec, HttpRequest, RequestView,
};
use crate::text::{
    after_prefix, all_digits, ascii_lowered, blank, comes_before, contains, decimal, digits_value,
    ends_with, find, first_occurrence, has_part, has_prefix, has_suffix, is_blank, is_digit,
    is_white_space, lemma_precedes_asymmetric, lemma_precedes_total, lemma_precedes_transitive,
    lemma_trimmed_back, lemma_trimmed_front, occurs_at, parse_u64, parsed_u64, precedes,
    starts_with, str_option, text_option, trimmed,
};
use vstd::prelude::*;
use vstd::string::*;
use vstd::utf8::is_ascii_chars;

verus! {

/// How long before the start of a task a tracker file may have been changed and still
/// count, in nanoseconds.
pub const TRACKER_SLACK: i128 = 60_000_000_000;

/// The status of a resumable upload that is not complete.
pub const RESUME_INCOMPLETE: u16 = 308;

/// The last byte that a range header reports.
pub open spec fn last_byte(range_header: Option<Seq<char>>) -> Option<u64> {
    match setting(range_header) {
        Some(value) if starts_with(value, "bytes=0-"@) => parsed_u64(
            value.skip("bytes=0-"@.len() as int),
        ),
        _ => None,
    }
}

/// How many bytes a range header reports: none where it is missing or blank, and one more
/// than its last byte where it begins at the first.
pub open spec fn reported_bytes(range_header: Option<Seq<char>>) -> Option<int> {
    if setting(range_header) is None {
        Some(0)
    } else {
        match last_byte(range_header) {
            Some(end) => Some(end + 1),
            None => None,
        }
    }
}

/// The last byte that a range header reports.
pub fn range_last_byte(range_header: Option<&str>) -> (end: Option<u64>)
    ensures
        end == last_byte(str_option(range_header)),
{
    match setting_of(range_header) {
        Some(value) => match after_prefix(value, "bytes=0-") {
            Some(digits) => parse_u64(digits),
            None => None,
        },
        None => None,
    }
}

/// How many bytes a range header reports.
pub fn parse_gcloud_uploaded_bytes(range_header: Option<&str>) -> (bytes: Option<u64>)
    requires
        last_byte(str_option(range_header)) != Some(u64::MAX),
    ensures
        match reported_bytes(str_option(range_header)) {
            Some(n) => bytes == Some(n as u64) && n <= u64::MAX,
            None => bytes is None,
        },
{
    match setting_of(range_header) {
        None => Some(0),
        Some(_) => match range_last_byte(range_header) {
            Some(end) => Some(end + 1),
            None => None,
        },
    }
}

/// An upload session to be asked how much it has received.
#[derive(Debug, PartialEq, Eq)]
pub struct TrackerQuery {
    pub total_bytes: u64,
    pub request: HttpRequest,
}

#[verifier::ext_equal]
pub struct TrackerQueryView {
    pub total_bytes: u64,
    pub request: RequestView,
}

impl View for TrackerQuery {
    type V = TrackerQueryView;

    open spec fn view(&self) -> TrackerQueryView {
        TrackerQueryView { total_bytes: self.total_bytes, request: self.request@ }
    }
}

pub open spec fn query_option(query: Option<TrackerQuery>) -> Option<TrackerQueryView> {
    match query {
        Some(q) => Some(q@),
        None => None,
    }
}

/// The session that a tracker file names, where it has a size and an address.
pub open spec fn session_query(
    total_bytes: Option<u64>,
    upload_url: Option<Seq<char>>,
) -> Option<TrackerQueryView> {
    match (total_bytes, upload_url) {
        (Some(total), Some(url)) => if total == 0 || is_blank(url) {
            None
        } else {
            Some(TrackerQueryView { total_bytes: total, request: tracker_spec(url, total) })
        },
        _ => None,
    }
}

pub fn check_session(total_bytes: Option<u64>, upload_url: Option<&str>) -> (query: Option<
    TrackerQuery,
>)
    ensures
        query_option(query) == session_query(total_bytes, str_option(upload_url)),
{
    match (total_bytes, upload_url) {
        (Some(total), Some(url)) => if total == 0 || blank(url) {
            None
        } else {
            Some(TrackerQuery { total_bytes: total, request: tracker_request(url, total) })
        },
        _ => None,
    }
}

/// The session that a tracker file names, from the document in the file.
pub open spec fn document_query(document: Option<Json>) -> Option<TrackerQueryView> {
    match document {
        Some(root) => match root.member("serialization_data"@) {
            Some(data) => session_query(
                match data.member("total_size"@) {
                    Some(size) => size.unsigned(),
                    None => None,
                },
                match data.member("url"@) {
                    Some(url) => url.text(),
                    None => None,
                },
            ),
            None => None,
        },
        None => None,
    }
}

/// The session that a tracker file names, from the text of the file.
pub fn tracker_query(text: &str) -> (query: Option<TrackerQuery>)
    ensures
        query_option(query) == document_query(parsed_json(text@)),
{
    match parse_json(text) {
        Some(document) => match json_member(&document, "serialization_data") {
            Some(data) => {
                let total_bytes = match json_member(data, "total_size") {
                    Some(size) => json_unsigned(size),
                    None => None,
                };
                let upload_url = match json_member(data, "url") {
                    Some(url) => json_text(url),
                    None => None,
                };
                check_session(total_bytes, upload_url)
            },
            None => None,
        },
        None => None,
    }
}

pub open spec fn min_int(a: int, b: int) -> int {
    if a < b {
        a
    } else {
        b
    }
}

/// What the reply to such a question says: how much has been received, and of how much.
pub open spec fn session_progress(
    total_bytes: u64,
    status: u16,
    range_header: Option<Seq<char>>,
) -> Option<(int, int)> {
    if status != RESUME_INCOMPLETE {
        None
    } else {
        match reported_bytes(range_header) {
            Some(n) => Some((min_int(n, total_bytes as int), total_bytes as int)),
            None => None,
        }
    }
}

pub open spec fn int_pair(pair: Option<(u64, u64)>) -> Option<(int, int)> {
    match pair {
        Some((a, b)) => Some((a as int, b as int)),
        None => None,
    }
}

/// What the reply of a session says.
pub fn query_tracker_progress(total_bytes: u64, status: u16, range_header: Option<&str>) -> (r: Option<
    (u64, u64),
>)
    requires
        status == RESUME_INCOMPLETE ==> last_byte(str_option(range_header)) != Some(u64::MAX),
    ensures
        int_pair(r) == session_progress(total_bytes, status, str_option(range_header)),
{
    if status != RESUME_INCOMPLETE {
        return None;
    }
    match parse_gcloud_uploaded_bytes(range_header) {
        Some(uploaded) => Some(
            (
                if uploaded < total_bytes {
                    uploaded
                } else {
                    total_bytes
                },
                total_bytes,
            ),
        ),
        None => None,
    }
}

/// A file in the tracker directory: its name, and when it was last changed, in
/// nanoseconds since the Unix epoch.
#[derive(Debug, PartialEq, Eq)]
pub struct TrackerEntry {
    pub file_name: Option<String>,
    pub modified: Option<i128>,
}

impl TrackerEntry {
    pub open spec fn name(self) -> Seq<char> {
        match self.file_name {
            Some(name) => name@,
            None => Seq::empty(),
        }
    }

    fn name_text(&self) -> (name: &str)
        ensures
            name@ == self.name(),
    {
        match &self.file_name {
            Some(name) => name.as_str(),
            None => {
                proof {
                    reveal_strlit("");
                    assert(""@ =~= Seq::empty());
                }
                ""
            },
        }
    }
}

/// The earliest time of change that counts for a task.
pub open spec fn earliest(started_at: i128) -> i128 {
    if started_at - TRACKER_SLACK >= i128::MIN {
        (started_at - TRACKER_SLACK) as i128
    } else {
        started_at
    }
}

fn earliest_time(started_at: i128) -> (time: i128)
    ensures
        time == earliest(started_at),
{
    match started_at.checked_sub(TRACKER_SLACK) {
        Some(time) => time,
        None => started_at,
    }
}

/// When a file was changed, where that is late enough to count.
pub open spec fn counted_time(modified: Option<i128>, started_at: i128) -> Option<i128> {
    match modified {
        Some(time) if time >= earliest(started_at) => Some(time),
        _ => None,
    }
}

pub fn tracker_file_mtime_ok(modified: Option<i128>, started_at: i128) -> (time: Option<i128>)
    ensures
        time == counted_time(modified, started_at),
{
    match modified {
        Some(time) => if time >= earliest_time(started_at) {
            Some(time)
        } else {
            None
        },
        None => None,
    }
}

/// The text by which the trackers of a file with this name are recognised: the lower case
/// of the name.
pub open spec fn needle_of(name: Option<Seq<char>>) -> Seq<char> {
    match name {
        Some(n) => lower_case(n),
        None => lower_case(Seq::empty()),
    }
}

/// What is known of the text by which the trackers of a file are recognised.
pub open spec fn may_be_needle(
    windows: bool,
    local_file_path: Seq<char>,
    needle: Seq<char>,
) -> bool {
    exists|name: Option<Seq<char>>| #[trigger]
        may_be_file_name(local_file_path, windows, name) && needle == needle_of(name)
}

/// The text by which the trackers of a file are recognised.
pub fn tracker_needle(windows: bool, local_file_path: &str) -> (needle: String)
    ensures
        may_be_needle(windows, local_file_path@, needle@),
        !is_unread(local_file_path@, windows) ==> needle@ == needle_of(
            file_name_on(local_file_path@, windows),
        ),
{
    let name = file_name(local_file_path, windows);
    assert(may_be_file_name(local_file_path@, windows, text_option(name)));
    match &name {
        Some(name) => lower_case_of(name.as_str()),
        None => {
            proof {
                reveal_strlit("");
                assert(""@ =~= Seq::empty());
            }
            lower_case_of("")
        },
    }
}

/// The name of the tracker of a whole upload.
pub open spec fn is_upload_tracker(name: Seq<char>, needle: Seq<char>) -> bool {
    starts_with(name, "upload_TRACKER_"@) && ends_with(name, "__gs.url"@) && contains(
        lower_case(name),
        needle,
    )
}

/// The entry is a tracker of the whole upload that counts.
pub open spec fn is_candidate(entry: TrackerEntry, needle: Seq<char>, started_at: i128) -> bool {
    is_upload_tracker(entry.name(), needle) && counted_time(entry.modified, started_at) is Some
}

/// `choice` is the candidate that was changed last, and the later in the listing among
/// those that were changed at the same time.
pub open spec fn is_latest_tracker(
    entries: Seq<TrackerEntry>,
    needle: Seq<char>,
    started_at: i128,
    choice: Option<usize>,
) -> bool {
    match choice {
        Some(i) => {
            &&& i < entries.len()
            &&& is_candidate(entries[i as int], needle, started_at)
            &&& forall|j: int|
                0 <= j < entries.len() && is_candidate(#[trigger] entries[j], needle, started_at)
                    ==> entries[j].modified->0 <= entries[i as int].modified->0 && (j > i
                    ==> entries[j].modified->0 < entries[i as int].modified->0)
        },
        None => forall|j: int|
            0 <= j < entries.len() ==> !is_candidate(#[trigger] entries[j], needle, started_at),
    }
}

/// Picks the tracker of the whole upload.
pub fn pick_upload_tracker(needle: &str, entries: &Vec<TrackerEntry>, started_at: i128) -> (choice:
    Option<usize>)
    ensures
        is_latest_tracker(entries@, needle@, started_at, choice),
{
    let mut choice: Option<usize> = None;
    let mut i: usize = 0;
    assert(entries@.take(0) =~= Seq::empty());
    while i < entries.len()
        invariant
            i <= entries@.len(),
            is_latest_tracker(entries@.take(i as int), needle@, started_at, choice),
        decreases entries.len() - i,
    {
        let ghost seen = entries@.take(i as int);
        let ghost next = entries@.take(i + 1);
        assert(forall|j: int| 0 <= j < i ==> next[j] == #[trigger] seen[j]);
        let entry = &entries[i];
        assert(next[i as int] == *entry);
        let name = entry.name_text();
        let fits = has_prefix(name, "upload_TRACKER_") && has_suffix(name, "__gs.url") && {
            let lower = lower_case_of(name);
            has_part(lower.as_str(), needle)
        };
        let counted = tracker_file_mtime_ok(entry.modified, started_at);
        let ghost before = choice;
        if fits {
            if let Some(time) = counted {
                let later = match choice {
                    Some(best) => match entries[best].modified {
                        Some(best_time) => time >= best_time,
                        None => true,
                    },
                    None => true,
                };
                if later {
                    choice = Some(i);
                }
            }
        }
        proof {
            if let Some(best) = before {
                assert(seen[best as int] == entries@[best as int]);
                assert(next[best as int] == entries@[best as int]);
            }
            assert forall|j: int|
                0 <= j < next.len() && is_candidate(
                    #[trigger] next[j],
                    needle@,
                    started_at,
                ) implies choice is Some && next[j].modified->0
                <= next[choice->0 as int].modified->0 && (j > choice->0 ==> next[j].modified->0
                < next[choice->0 as int].modified->0) by {
                if j < i {
                    assert(seen[j] == next[j]);
                    assert(is_candidate(seen[j], needle@, started_at));
                }
            }
        }
        i = i + 1;
    }
    assert(entries@.take(i as int) =~= entries@);
    choice
}

/// Finds the tracker of the whole upload of a file in a listing of the tracker directory.
pub fn find_gcloud_tracker_file(
    windows: bool,
    local_file_path: &str,
    entries: Option<&Vec<TrackerEntry>>,
    started_at: i128,
) -> (choice: Option<usize>)
    ensures
        match entries {
            Some(list) => exists|needle: Seq<char>| #[trigger]
                may_be_needle(windows, local_file_path@, needle) && is_latest_tracker(
                    list@,
                    needle,
                    started_at,
                    choice,
                ),
            None => choice is None,
        },
{
    let needle = tracker_needle(windows, local_file_path);
    match entries {
        Some(list) => pick_upload_tracker(needle.as_str(), list, started_at),
        None => None,
    }
}

/// The name of the manifest of an upload in parallel parts.
pub open spec fn is_manifest(name: Seq<char>, needle: Seq<char>) -> bool {
    starts_with(name, "parallel_upload_TRACKER_"@) && ends_with(name, "__gs.url"@) && contains(
        lower_case(name),
        needle,
    )
}

/// When the latest manifest of the file was changed, and the earliest time that counts
/// where there is none.
pub open spec fn anchor_time(entries: Seq<TrackerEntry>, needle: Seq<char>, started_at: i128) -> i128
    decreases entries.len(),
{
    if entries.len() == 0 {
        earliest(started_at)
    } else {
        let before = anchor_time(entries.drop_last(), needle, started_at);
        let entry = entries.last();
        match counted_time(entry.modified, started_at) {
            Some(time) if is_manifest(entry.name(), needle) && time > before => time,
            _ => before,
        }
    }
}

pub fn manifest_anchor_time(needle: &str, entries: &Vec<TrackerEntry>, started_at: i128) -> (time:
    i128)
    ensures
        time == anchor_time(entries@, needle@, started_at),
{
    let mut anchor: i128 = earliest_time(started_at);
    let mut i: usize = 0;
    while i < entries.len()
        invariant
            i <= entries@.len(),
            anchor == anchor_time(entries@.take(i as int), needle@, started_at),
        decreases entries.len() - i,
    {
        assert(entries@.take(i + 1).drop_last() =~= entries@.take(i as int));
        let entry = &entries[i];
        let name = entry.name_text();
        let lower = lower_case_of(name);
        if has_prefix(name, "parallel_upload_TRACKER_") && has_suffix(name, "__gs.url") && has_part(
            lower.as_str(),
            needle,
        ) {
            if let Some(time) = tracker_file_mtime_ok(entry.modified, started_at) {
                if time > anchor {
                    anchor = time;
                }
            }
        }
        i = i + 1;
    }
    assert(entries@.take(i as int) =~= entries@);
    anchor
}

/// The name of the tracker of one part of an upload.
pub open spec fn is_part_tracker(name: Seq<char>) -> bool {
    starts_with(name, "upload_TRACKER_"@) && contains(name, "__gs.url_"@)
}

/// What the trackers of the parts of one upload have in common: their names up to the
/// first place at which the part is numbered.
pub open spec fn group_key(name: Seq<char>) -> Seq<char> {
    name.take(choose|at: int| first_occurrence(name, "__gs.url_"@, at))
}

/// The entry is the tracker of a part, and was changed at the anchor time or later.
pub open spec fn is_part(entry: TrackerEntry, started_at: i128, anchor: i128) -> bool {
    is_part_tracker(entry.name()) && match counted_time(entry.modified, started_at) {
        Some(time) => time >= anchor,
        None => false,
    }
}

proof fn lemma_first_occurrence_unique(s: Seq<char>, part: Seq<char>, a: int, b: int)
    requires
        first_occurrence(s, part, a),
        first_occurrence(s, part, b),
    ensures
        a == b,
{
    if a < b {
        assert(!occurs_at(s, part, a));
    } else if b < a {
        assert(!occurs_at(s, part, b));
    }
}

/// The key of the group of a part tracker.
fn part_key(entry: &TrackerEntry, started_at: i128, anchor: i128) -> (key: Option<String>)
    ensures
        text_option(key) == (if is_part(*entry, started_at, anchor) {
            Some(group_key(entry.name()))
        } else {
            None
        }),
{
    let name = entry.name_text();
    if !has_prefix(name, "upload_TRACKER_") {
        return None;
    }
    match find(name, "__gs.url_") {
        Some(at) => {
            proof {
                assert(occurs_at(name@, "__gs.url_"@, at as int));
                let chosen = choose|i: int| first_occurrence(name@, "__gs.url_"@, i);
                lemma_first_occurrence_unique(name@, "__gs.url_"@, at as int, chosen);
                assert(name@.take(at as int) =~= name@.subrange(0, at as int));
            }
            match tracker_file_mtime_ok(entry.modified, started_at) {
                Some(time) => if time >= anchor {
                    Some(name.substring_char(0, at).to_owned())
                } else {
                    None
                },
                None => None,
            }
        },
        None => None,
    }
}

/// The order of the trackers of a group: by name, and by place in the listing where the
/// names are equal.
pub open spec fn listed_before(entries: Seq<TrackerEntry>, a: usize, b: usize) -> bool {
    let left = entries[a as int].name();
    let right = entries[b as int].name();
    precedes(left, right) || (left == right && a < b)
}

/// `group` lists, in order, exactly the parts whose group is that of the part `latest`,
/// and no part was changed later than that one.
pub open spec fn is_group_of(
    entries: Seq<TrackerEntry>,
    started_at: i128,
    anchor: i128,
    latest: int,
    group: Seq<usize>,
) -> bool {
    &&& 0 <= latest < entries.len()
    &&& is_part(entries[latest], started_at, anchor)
    &&& forall|j: int|
        0 <= j < entries.len() && is_part(#[trigger] entries[j], started_at, anchor)
            ==> entries[j].modified->0 <= entries[latest].modified->0
    &&& forall|k: int|
        0 <= k < group.len() ==> #[trigger] group[k] < entries.len() && in_group(
            entries,
            started_at,
            anchor,
            latest,
            group[k] as int,
        )
    &&& forall|j: int|
        0 <= j < entries.len() && #[trigger] in_group(entries, started_at, anchor, latest, j)
            ==> group.contains(j as usize)
    &&& forall|a: int, b: int|
        0 <= a < b < group.len() ==> listed_before(
            entries,
            #[trigger] group[a],
            #[trigger] group[b],
        )
}

/// The entry is a part of the same upload as the part `latest`.
pub open spec fn in_group(
    entries: Seq<TrackerEntry>,
    started_at: i128,
    anchor: i128,
    latest: int,
    j: int,
) -> bool {
    is_part(entries[j], started_at, anchor) && group_key(entries[j].name()) == group_key(
        entries[latest].name(),
    )
}

/// `group` lists the trackers of the parts of an upload that was changed last.
pub open spec fn is_some_group(
    entries: Seq<TrackerEntry>,
    started_at: i128,
    anchor: i128,
    group: Seq<usize>,
) -> bool {
    exists|latest: int| #[trigger] is_group_of(entries, started_at, anchor, latest, group)
}

/// `group` lists the trackers of the parts of the upload that was changed last. Where the
/// parts of several uploads were changed last at the same time, it is one of them.
pub open spec fn is_latest_group(
    entries: Seq<TrackerEntry>,
    started_at: i128,
    anchor: i128,
    group: Option<Seq<usize>>,
) -> bool {
    match group {
        Some(list) => is_some_group(entries, started_at, anchor, list),
        None => forall|j: int|
            0 <= j < entries.len() ==> !is_part(#[trigger] entries[j], started_at, anchor),
    }
}

/// The place in the ordered `group` before which the entry `new` belongs.
fn place_for(entries: &Vec<TrackerEntry>, group: &Vec<usize>, new: usize) -> (place: usize)
    requires
        new < entries@.len(),
        forall|k: int| 0 <= k < group@.len() ==> #[trigger] group@[k] < new,
        forall|a: int, b: int|
            0 <= a < b < group@.len() ==> listed_before(
                entries@,
                #[trigger] group@[a],
                #[trigger] group@[b],
            ),
    ensures
        place <= group@.len(),
        forall|k: int|
            0 <= k < place ==> listed_before(entries@, #[trigger] group@[k], new),
        forall|k: int|
            place <= k < group@.len() ==> listed_before(entries@, new, #[trigger] group@[k]),
{
    let name = entries[new].name_text();
    let mut place: usize = 0;
    while place < group.len() && !comes_before(name, entries[group[place]].name_text())
        invariant
            new < entries@.len(),
            name@ == entries@[new as int].name(),
            place <= group@.len(),
            forall|k: int| 0 <= k < group@.len() ==> #[trigger] group@[k] < new,
            forall|k: int|
                0 <= k < place ==> !precedes(
                    name@,
                    entries@[#[trigger] group@[k] as int].name(),
                ),
        decreases group.len() - place,
    {
        place = place + 1;
    }
    proof {
        assert forall|k: int| 0 <= k < place implies listed_before(
            entries@,
            #[trigger] group@[k],
            new,
        ) by {
            lemma_precedes_total(name@, entries@[group@[k] as int].name());
        }
        assert forall|k: int| place <= k < group@.len() implies listed_before(
            entries@,
            new,
            #[trigger] group@[k],
        ) by {
            if k > place {
                assert(listed_before(entries@, group@[place as int], group@[k]));
                if precedes(
                    entries@[group@[place as int] as int].name(),
                    entries@[group@[k] as int].name(),
                ) {
                    lemma_precedes_transitive(
                        name@,
                        entries@[group@[place as int] as int].name(),
                        entries@[group@[k] as int].name(),
                    );
                }
            }
        }
    }
    place
}

/// The part that was changed last.
fn latest_part(entries: &Vec<TrackerEntry>, started_at: i128, anchor: i128) -> (latest: Option<
    usize,
>)
    ensures
        match latest {
            Some(i) => i < entries@.len() && is_part(entries@[i as int], started_at, anchor)
                && forall|j: int|
                0 <= j < entries@.len() && is_part(#[trigger] entries@[j], started_at, anchor)
                    ==> entries@[j].modified->0 <= entries@[i as int].modified->0,
            None => forall|j: int|
                0 <= j < entries@.len() ==> !is_part(#[trigger] entries@[j], started_at, anchor),
        },
{
    let mut latest: Option<usize> = None;
    let mut i: usize = 0;
    while i < entries.len()
        invariant
            i <= entries@.len(),
            match latest {
                Some(best) => best < i && is_part(entries@[best as int], started_at, anchor)
                    && forall|j: int|
                    0 <= j < i && is_part(#[trigger] entries@[j], started_at, anchor)
                        ==> entries@[j].modified->0 <= entries@[best as int].modified->0,
                None => forall|j: int|
                    0 <= j < i ==> !is_part(#[trigger] entries@[j], started_at, anchor),
            },
        decreases entries.len() - i,
    {
        if part_key(&entries[i], started_at, anchor).is_some() {
            if let Some(time) = entries[i].modified {
                let later = match latest {
                    Some(best) => match entries[best].modified {
                        Some(best_time) => time > best_time,
                        None => true,
                    },
                    None => true,
                };
                if later {
                    latest = Some(i);
                }
            }
        }
        i = i + 1;
    }
    latest
}

pub open spec fn seq_option(list: Option<Vec<usize>>) -> Option<Seq<usize>> {
    match list {
        Some(v) => Some(v@),
        None => None,
    }
}

/// Picks the trackers of the parts of the upload that was changed last.
pub fn pick_part_trackers(entries: &Vec<TrackerEntry>, started_at: i128, anchor: i128) -> (group:
    Option<Vec<usize>>)
    ensures
        is_latest_group(entries@, started_at, anchor, seq_option(group)),
        group matches Some(list) ==> list@.len() > 0,
{
    let latest = match latest_part(entries, started_at, anchor) {
        Some(latest) => latest,
        None => {
            return None;
        },
    };
    let key = match part_key(&entries[latest], started_at, anchor) {
        Some(key) => key,
        None => {
            return None;
        },
    };
    let mut group: Vec<usize> = Vec::new();
    let mut i: usize = 0;
    while i < entries.len()
        invariant
            i <= entries@.len(),
            latest < entries@.len(),
            key@ == group_key(entries@[latest as int].name()),
            forall|k: int|
                0 <= k < group@.len() ==> #[trigger] group@[k] < i && in_group(
                    entries@,
                    started_at,
                    anchor,
                    latest as int,
                    group@[k] as int,
                ),
            forall|j: int|
                0 <= j < i && #[trigger] in_group(
                    entries@,
                    started_at,
                    anchor,
                    latest as int,
                    j,
                ) ==> group@.contains(j as usize),
            forall|a: int, b: int|
                0 <= a < b < group@.len() ==> listed_before(
                    entries@,
                    #[trigger] group@[a],
                    #[trigger] group@[b],
                ),
        decreases entries.len() - i,
    {
        let ghost before = group@;
        let same_group = match part_key(&entries[i], started_at, anchor) {
            Some(other) => other == key,
            None => false,
        };
        if same_group {
            let place = place_for(entries, &group, i);
            group.insert(place, i);
            proof {
                assert(group@ == before.insert(place as int, i));
                assert(group@[place as int] == i);
                assert forall|j: int|
                    0 <= j < i + 1 && #[trigger] in_group(
                        entries@,
                        started_at,
                        anchor,
                        latest as int,
                        j,
                    ) implies group@.contains(j as usize) by {
                    if j < i {
                        let k = before.index_of(j as usize);
                        assert(before[k] == j as usize);
                        if k < place {
                            assert(group@[k] == j as usize);
                        } else {
                            assert(group@[k + 1] == j as usize);
                        }
                    }
                }
                assert forall|a: int, b: int| 0 <= a < b < group@.len() implies listed_before(
                    entries@,
                    #[trigger] group@[a],
                    #[trigger] group@[b],
                ) by {
                    let a0 = if a < place {
                        a
                    } else {
                        a - 1
                    };
                    let b0 = if b < place {
                        b
                    } else {
                        b - 1
                    };
                    if a != place {
                        assert(group@[a] == before[a0]);
                    }
                    if b != place {
                        assert(group@[b] == before[b0]);
                    }
                }
                assert forall|k: int| 0 <= k < group@.len() implies #[trigger] group@[k] < i + 1
                    && in_group(
                    entries@,
                    started_at,
                    anchor,
                    latest as int,
                    group@[k] as int,
                ) by {
                    if k < place {
                        assert(group@[k] == before[k]);
                    } else if k > place {
                        assert(group@[k] == before[k - 1]);
                    }
                }
            }
        }
        i = i + 1;
    }
    proof {
        assert(in_group(entries@, started_at, anchor, latest as int, latest as int));
        assert(group@.contains(latest));
        assert(is_group_of(entries@, started_at, anchor, latest as int, group@));
        assert(is_some_group(entries@, started_at, anchor, group@));
    }
    Some(group)
}

/// Finds the trackers of the parts of an upload in two listings of the tracker directory,
/// the first of which is searched for manifests.
pub fn find_gcloud_parallel_tracker_files(
    windows: bool,
    local_file_path: &str,
    manifests: Option<&Vec<TrackerEntry>>,
    entries: Option<&Vec<TrackerEntry>>,
    started_at: i128,
) -> (group: Option<Vec<usize>>)
    ensures
        match (manifests, entries) {
            (Some(first), Some(second)) => exists|needle: Seq<char>| #[trigger]
                may_be_needle(windows, local_file_path@, needle) && is_latest_group(
                    second@,
                    started_at,
                    anchor_time(first@, needle, started_at),
                    seq_option(group),
                ),
            _ => group is None,
        },
{
    let needle = tracker_needle(windows, local_file_path);
    match (manifests, entries) {
        (Some(first), Some(second)) => {
            let anchor = manifest_anchor_time(needle.as_str(), first, started_at);
            pick_part_trackers(second, started_at, anchor)
        },
        _ => None,
    }
}

/// The trackers to be asked for the progress of an upload.
#[derive(Debug, PartialEq, Eq)]
pub enum TrackerChoice {
    /// One tracker of the whole upload.
    Whole(usize),
    /// The trackers of its parts.
    Parts(Vec<usize>),
    Nothing,
}

/// `choice` puts the tracker of the whole upload before the trackers of its parts.
pub open spec fn is_choice(
    whole: Option<usize>,
    parts: Option<Vec<usize>>,
    choice: TrackerChoice,
) -> bool {
    match (whole, parts) {
        (Some(i), _) => choice == TrackerChoice::Whole(i),
        (None, Some(list)) => if list@.len() == 0 {
            choice == TrackerChoice::Nothing
        } else {
            choice == TrackerChoice::Parts(list)
        },
        (None, None) => choice == TrackerChoice::Nothing,
    }
}

/// Puts the tracker of the whole upload before the trackers of its parts.
pub fn choose_trackers(whole: Option<usize>, parts: Option<Vec<usize>>) -> (choice: TrackerChoice)
    ensures
        is_choice(whole, parts, choice),
        match (whole, parts) {
            (Some(i), _) => choice == TrackerChoice::Whole(i),
            (None, Some(list)) => if list@.len() == 0 {
                choice == TrackerChoice::Nothing
            } else {
                choice == TrackerChoice::Parts(list)
            },
            (None, None) => choice == TrackerChoice::Nothing,
        },
{
    match whole {
        Some(i) => TrackerChoice::Whole(i),
        None => match parts {
            Some(list) => if list.is_empty() {
                TrackerChoice::Nothing
            } else {
                TrackerChoice::Parts(list)
            },
            None => TrackerChoice::Nothing,
        },
    }
}

/// How many bytes the answers report together.
pub open spec fn bytes_received(replies: Seq<Option<(u64, u64)>>) -> int
    decreases replies.len(),
{
    if replies.len() == 0 {
        0
    } else {
        bytes_received(replies.drop_last()) + match replies.last() {
            Some(reply) => reply.0 as int,
            None => 0,
        }
    }
}

pub open spec fn any_answer(replies: Seq<Option<(u64, u64)>>) -> bool {
    exists|i: int| 0 <= i < replies.len() && (#[trigger] replies[i]) is Some
}

/// The progress that the answers of the chosen trackers add up to: received and total
/// bytes, the received never more than the file.
pub open spec fn resumable_progress(
    choice: TrackerChoice,
    replies: Seq<Option<(u64, u64)>>,
    file_size: u64,
) -> Option<(int, int)> {
    match choice {
        TrackerChoice::Whole(_) => match replies[0] {
            Some((uploaded, total)) => Some(
                (min_int(uploaded as int, file_size as int), total as int),
            ),
            None => None,
        },
        TrackerChoice::Parts(_) => if any_answer(replies) {
            Some((min_int(bytes_received(replies), file_size as int), file_size as int))
        } else {
            None
        },
        TrackerChoice::Nothing => None,
    }
}

proof fn lemma_bytes_received_nonnegative(replies: Seq<Option<(u64, u64)>>)
    ensures
        bytes_received(replies) >= 0,
    decreases replies.len(),
{
    if replies.len() > 0 {
        lemma_bytes_received_nonnegative(replies.drop_last());
    }
}

/// The progress that the answers of the chosen trackers add up to; there is one answer,
/// or none, for each of them.
pub fn get_gcloud_resumable_progress(
    choice: &TrackerChoice,
    replies: &Vec<Option<(u64, u64)>>,
    file_size: u64,
) -> (r: Option<(u64, u64)>)
    requires
        choice is Whole ==> replies@.len() == 1,
    ensures
        int_pair(r) == resumable_progress(*choice, replies@, file_size),
{
    match choice {
        TrackerChoice::Whole(_) => match replies[0] {
            Some((uploaded, total)) => Some(
                (
                    if uploaded < file_size {
                        uploaded
                    } else {
                        file_size
                    },
                    total,
                ),
            ),
            None => None,
        },
        TrackerChoice::Parts(_) => {
            let mut uploaded: u64 = 0;
            let mut found: bool = false;
            let mut i: usize = 0;
            while i < replies.len()
                invariant
                    i <= replies@.len(),
                    uploaded == min_int(
                        bytes_received(replies@.take(i as int)),
                        u64::MAX as int,
                    ),
                    found == any_answer(replies@.take(i as int)),
                decreases replies.len() - i,
            {
                let ghost seen = replies@.take(i as int);
                let ghost next = replies@.take(i + 1);
                assert(next.drop_last() =~= seen);
                assert(next.last() == replies@[i as int]);
                proof {
                    lemma_bytes_received_nonnegative(seen);
                }
                if let Some((part, _)) = replies[i] {
                    uploaded = uploaded.saturating_add(part);
                    found = true;
                    assert(next[i as int] is Some);
                } else {
                    proof {
                        if any_answer(seen) {
                            let j = choose|j: int|
                                0 <= j < seen.len() && (#[trigger] seen[j]) is Some;
                            assert(next[j] is Some);
                        }
                        if any_answer(next) {
                            let j = choose|j: int|
                                0 <= j < next.len() && (#[trigger] next[j]) is Some;
                            assert(seen[j] is Some);
                        }
                    }
                }
                i = i + 1;
            }
            assert(replies@.take(i as int) =~= replies@);
            if found {
                Some(
                    (
                        if uploaded < file_size {
                            uploaded
                        } else {
                            file_size
                        },
                        file_size,
                    ),
                )
            } else {
                None
            }
        },
        TrackerChoice::Nothing => None,
    }
}

/// The received bytes that are reported of an upload are never more than the file.
pub proof fn law_received_is_no_more_than_file(
    choice: TrackerChoice,
    replies: Seq<Option<(u64, u64)>>,
    file_size: u64,
)
    ensures
        resumable_progress(choice, replies, file_size) matches Some((received, total))
            ==> 0 <= received <= file_size,
{
    lemma_bytes_received_nonnegative(replies);
}

proof fn lemma_decimal_is_read_back(n: nat)
    ensures
        decimal(n).len() > 0,
        all_digits(decimal(n)),
        digits_value(decimal(n)) == n,
    decreases n,
{
    if n >= 10 {
        lemma_decimal_is_read_back(n / 10);
        let front = decimal(n / 10);
        assert(decimal(n).drop_last() =~= front);
        assert forall|i: int| 0 <= i < decimal(n).len() implies is_digit(#[trigger] decimal(n)[i]) by {
            if i < front.len() {
                assert(decimal(n)[i] == front[i]);
            }
        }
    } else {
        assert(decimal(n).drop_last() =~= Seq::empty());
        assert(digits_value(Seq::empty()) == 0);
    }
}

/// A range header that ends at a byte, in decimal, reports all bytes up to that one.
pub proof fn law_range_header_is_understood(end: u64)
    ensures
        reported_bytes(Some("bytes=0-"@ + decimal(end as nat))) == Some(end + 1),
{
    reveal_strlit("bytes=0-");
    let prefix = "bytes=0-"@;
    let digits = decimal(end as nat);
    let header = prefix + digits;
    lemma_decimal_is_read_back(end as nat);
    lemma_trimmed_front(header, 0);
    assert(header.skip(0) =~= header);
    assert(is_digit(digits[digits.len() - 1]));
    assert(header[header.len() - 1] == digits[digits.len() - 1]);
    lemma_trimmed_back(header, header.len() as int);
    assert(header.take(header.len() as int) =~= header);
    assert(header.take(prefix.len() as int) =~= prefix);
    assert(header.skip(prefix.len() as int) =~= digits);
    assert(is_digit(digits[0]));
    assert(!is_white_space(header[0]));
}

/// The progress that is read off the tracker of a whole upload is what its session has
/// reported, but for bytes beyond the file; there is none where the session has not answered.
pub proof fn law_whole_upload_shows_what_its_session_reports(
    index: usize,
    answer: Option<(u64, u64)>,
    file_size: u64,
)
    ensures
        ({
            let shown = resumable_progress(TrackerChoice::Whole(index), seq![answer], file_size);
            &&& shown is Some <==> answer is Some
            &&& (answer matches Some((received, total)) ==> {
                &&& (received <= file_size ==> shown == Some((received as int, total as int)))
                &&& (received >= file_size ==> shown == Some((file_size as int, total as int)))
            })
        }),
{
}

/// The progress that is read off the trackers of the parts of an upload is the sum of what
/// their sessions have reported: one more answer adds its bytes, as far as the file goes,
/// and a session that does not answer adds nothing. There is none where none has answered.
pub proof fn law_parts_add_up(
    parts: Vec<usize>,
    replies: Seq<Option<(u64, u64)>>,
    received: u64,
    total: u64,
    file_size: u64,
)
    ensures
        ({
            let choice = TrackerChoice::Parts(parts);
            let none = Seq::<Option<(u64, u64)>>::empty();
            let shown = resumable_progress(choice, replies, file_size);
            let more = resumable_progress(choice, replies.push(Some((received, total))), file_size);
            &&& resumable_progress(choice, none, file_size) is None
            &&& resumable_progress(choice, replies.push(None), file_size) == shown
            &&& more matches Some((bytes, whole)) && {
                &&& whole == file_size
                &&& (shown is None ==> bytes == (if received < file_size {
                    received as int
                } else {
                    file_size as int
                }))
                &&& (shown matches Some((before, _)) ==> bytes == (if before + received < file_size {
                    before + received
                } else {
                    file_size as int
                }))
            }
        }),
{
    let none = Seq::<Option<(u64, u64)>>::empty();
    let longer = replies.push(Some((received, total)));
    let silent = replies.push(None);
    lemma_bytes_received_nonnegative(replies);
    assert(longer.drop_last() =~= replies);
    assert(silent.drop_last() =~= replies);
    assert(!any_answer(none));
    assert(longer[replies.len() as int] is Some);
    if any_answer(replies) {
        let j = choose|j: int| 0 <= j < replies.len() && (#[trigger] replies[j]) is Some;
        assert(silent[j] is Some);
    }
    if any_answer(silent) {
        let j = choose|j: int| 0 <= j < silent.len() && (#[trigger] silent[j]) is Some;
        assert(replies[j] is Some);
    }
    if !any_answer(replies) {
        lemma_silence_adds_nothing(replies);
    }
}

proof fn lemma_silence_adds_nothing(replies: Seq<Option<(u64, u64)>>)
    requires
        !any_answer(replies),
    ensures
        bytes_received(replies) == 0,
    decreases replies.len(),
{
    if replies.len() > 0 {
        let front = replies.drop_last();
        if any_answer(front) {
            let j = choose|j: int| 0 <= j < front.len() && (#[trigger] front[j]) is Some;
            assert(replies[j] is Some);
        }
        lemma_silence_adds_nothing(front);
        assert(!(replies[replies.len() - 1] is Some));
    }
}

/// Without trackers there is no progress to show.
pub proof fn law_no_tracker_shows_nothing(replies: Seq<Option<(u64, u64)>>, file_size: u64)
    ensures
        resumable_progress(TrackerChoice::Nothing, replies, file_size) is None,
{
}

/// A session that has not received everything, and says so, has received the bytes up to the
/// one that its range ends at, or none where it gives no range, and never more than there
/// are. Any other status says nothing.
pub proof fn law_session_says_what_it_has_received(total_bytes: u64, status: u16, end: u64)
    ensures
        status != 308 ==> forall|header: Option<Seq<char>>| #[trigger]
            session_progress(total_bytes, status, header) is None,
        ({
            let header = Some("bytes=0-"@ + decimal(end as nat));
            &&& (end < total_bytes ==> session_progress(total_bytes, 308, header) == Some(
                (end + 1, total_bytes as int),
            ))
            &&& (end >= total_bytes ==> session_progress(total_bytes, 308, header) == Some(
                (total_bytes as int, total_bytes as int),
            ))
        }),
        session_progress(total_bytes, 308, None) == Some((0int, total_bytes as int)),
        forall|header: Seq<char>|
            is_blank(header) ==> #[trigger] session_progress(total_bytes, 308, Some(header))
                == Some((0int, total_bytes as int)),
{
    law_range_header_is_understood(end);
}

/// A range that does not begin at the first byte, or does not end in a number, is not
/// understood.
pub proof fn law_other_ranges_are_not_understood(total_bytes: u64, header: Seq<char>)
    requires
        !is_blank(header),
        !starts_with(trimmed(header), "bytes=0-"@) || parsed_u64(
            trimmed(header).skip("bytes=0-"@.len() as int),
        ) is None,
    ensures
        reported_bytes(Some(header)) is None,
        session_progress(total_bytes, 308, Some(header)) is None,
{
}

/// A session is asked exactly where its tracker gives it a size that is not zero and an
/// address that is not blank, at that address and for that size.
pub proof fn law_session_is_asked_at_its_address(total: Option<u64>, url: Option<Seq<char>>)
    ensures
        session_query(total, url) is Some <==> (total matches Some(n) && n > 0) && (
        url matches Some(address) && !is_blank(address)),
        session_query(total, url) matches Some(query) ==> {
            &&& total == Some(query.total_bytes)
            &&& url == Some(query.request.url)
            &&& query.request.method is Put
            &&& query.request.bearer is None
            &&& query.request.headers.contains(
                ("Content-Range"@, "bytes */"@ + decimal(query.total_bytes as nat)),
            )
        },
{
    if let Some(query) = session_query(total, url) {
        law_session_is_asked_for_its_range(url->0, total->0);
    }
}

/// The session of a tracker stands in its document under the serialised data: its size as
/// `total_size`, a number, and its address as `url`, a text.
pub proof fn law_session_stands_in_the_document(
    members: Map<Seq<char>, Json>,
    data: Map<Seq<char>, Json>,
    size: u64,
    url: Seq<char>,
)
    ensures
        document_query(None) is None,
        !members.contains_key("serialization_data"@) ==> document_query(
            Some(Json::Object(members)),
        ) is None,
        members.contains_key("serialization_data"@) && members["serialization_data"@]
            == Json::Object(data) ==> {
            let query = document_query(Some(Json::Object(members)));
            &&& (data.contains_key("total_size"@) && data["total_size"@] == Json::Number(Some(size))
                && data.contains_key("url"@) && data["url"@] == Json::Text(url) && size > 0
                && !is_blank(url) ==> (query matches Some(q) && q.total_bytes == size
                && q.request.url == url))
            &&& (!data.contains_key("total_size"@) || !data.contains_key("url"@) ==> query is None)
            &&& (data.contains_key("url"@) && !(data["url"@] is Text) ==> query is None)
            &&& (data.contains_key("total_size"@) && !(data["total_size"@] is Number)
                ==> query is None)
        },
{
}

/// A tracker counts where it was changed no earlier than a minute before the task started.
pub proof fn law_trackers_count_from_a_minute_before(modified: i128, started_at: i128)
    requires
        started_at >= 0,
    ensures
        counted_time(Some(modified), started_at) == (if modified >= started_at - 60_000_000_000 {
            Some(modified)
        } else {
            None
        }),
        counted_time(None, started_at) is None,
{
}

/// The tracker that is chosen is one of a whole upload of the file, and counts; no other such
/// tracker was changed later, and one is chosen wherever there is one.
pub proof fn law_chosen_tracker_is_the_latest(
    entries: Seq<TrackerEntry>,
    needle: Seq<char>,
    started_at: i128,
    choice: Option<usize>,
    other: int,
)
    requires
        started_at >= 0,
        is_latest_tracker(entries, needle, started_at, choice),
        0 <= other < entries.len(),
    ensures
        choice matches Some(i) ==> {
            let name = entries[i as int].name();
            &&& i < entries.len()
            &&& starts_with(name, "upload_TRACKER_"@)
            &&& ends_with(name, "__gs.url"@)
            &&& contains(lower_case(name), needle)
            &&& entries[i as int].modified matches Some(time) && time >= started_at - 60_000_000_000
        },
        ({
            let name = entries[other].name();
            &&& starts_with(name, "upload_TRACKER_"@)
            &&& ends_with(name, "__gs.url"@)
            &&& contains(lower_case(name), needle)
            &&& entries[other].modified matches Some(time) && time >= started_at - 60_000_000_000
        }) ==> (choice matches Some(i) && entries[i as int].modified->0
            >= entries[other].modified->0 && (entries[i as int].modified->0
            == entries[other].modified->0 ==> i >= other)),
{
    let counted = counted_time(entries[other].modified, started_at) is Some;
    let named = is_upload_tracker(entries[other].name(), needle);
    assert(is_candidate(entries[other], needle, started_at) == (named && counted));
}

/// The anchor is the time of the latest manifest of the file that counts, and the earliest
/// time that counts where there is none.
pub proof fn law_anchor_is_the_latest_manifest(
    entries: Seq<TrackerEntry>,
    needle: Seq<char>,
    started_at: i128,
)
    requires
        started_at >= 0,
    ensures
        ({
            let anchor = anchor_time(entries, needle, started_at);
            &&& anchor >= started_at - 60_000_000_000
            &&& forall|j: int|
                0 <= j < entries.len() && names_manifest(#[trigger] entries[j], needle) ==> (
                entries[j].modified matches Some(time) ==> anchor >= time)
            &&& anchor == started_at - 60_000_000_000 || exists|j: int|
                0 <= j < entries.len() && names_manifest(#[trigger] entries[j], needle)
                    && entries[j].modified == Some(anchor)
        }),
    decreases entries.len(),
{
    if entries.len() > 0 {
        let front = entries.drop_last();
        law_anchor_is_the_latest_manifest(front, needle, started_at);
        let before = anchor_time(front, needle, started_at);
        let anchor = anchor_time(entries, needle, started_at);
        let last = entries.len() - 1;
        assert(entries[last] == entries.last());
        assert forall|j: int|
            0 <= j < entries.len() && names_manifest(#[trigger] entries[j], needle) implies (
        entries[j].modified matches Some(time) ==> anchor >= time) by {
            if j < last {
                assert(front[j] == entries[j]);
            }
        }
        if anchor != before {
            assert(names_manifest(entries[last], needle));
        } else if before != started_at - 60_000_000_000 {
            let j = choose|j: int|
                0 <= j < front.len() && names_manifest(#[trigger] front[j], needle)
                    && front[j].modified == Some(before);
            assert(entries[j] == front[j]);
        }
    }
}

/// The entry has the name of a manifest of the file.
pub open spec fn names_manifest(entry: TrackerEntry, needle: Seq<char>) -> bool {
    &&& starts_with(entry.name(), "parallel_upload_TRACKER_"@)
    &&& ends_with(entry.name(), "__gs.url"@)
    &&& contains(lower_case(entry.name()), needle)
}

/// What the parts of an upload have in common is what stands in their names before the first
/// place at which the part is numbered.
pub proof fn law_parts_share_what_stands_before_their_number(front: Seq<char>, number: Seq<char>)
    requires
        first_occurrence(front + "__gs.url_"@ + number, "__gs.url_"@, front.len() as int),
    ensures
        group_key(front + "__gs.url_"@ + number) == front,
{
    let name = front + "__gs.url_"@ + number;
    let at = choose|at: int| first_occurrence(name, "__gs.url_"@, at);
    lemma_first_occurrence_unique(name, "__gs.url_"@, at, front.len() as int);
    assert(name.take(front.len() as int) =~= front);
}

/// The trackers of parts that are chosen all belong to one upload and were changed at the
/// anchor or later; no part was changed later than the latest of them, all parts of that
/// upload are among them, and they stand in the order of their names. Some are chosen
/// wherever there are any.
pub proof fn law_chosen_parts_are_those_of_the_latest(
    entries: Seq<TrackerEntry>,
    started_at: i128,
    anchor: i128,
    group: Option<Seq<usize>>,
    other: int,
)
    requires
        started_at >= 0,
        entries.len() <= usize::MAX,
        is_latest_group(entries, started_at, anchor, group),
        0 <= other < entries.len(),
    ensures
        counts_as_part(entries[other], started_at, anchor) ==> group is Some,
        group matches Some(list) ==> {
            &&& forall|k: int|
                0 <= k < list.len() ==> #[trigger] list[k] < entries.len() && counts_as_part(
                    entries[list[k] as int],
                    started_at,
                    anchor,
                )
            &&& forall|k: int, m: int|
                0 <= k < m < list.len() ==> group_key(entries[#[trigger] list[k] as int].name())
                    == group_key(entries[#[trigger] list[m] as int].name()) && !precedes(
                    entries[list[m] as int].name(),
                    entries[list[k] as int].name(),
                )
            &&& (counts_as_part(entries[other], started_at, anchor) ==> exists|k: int|
                0 <= k < list.len() && entries[#[trigger] list[k] as int].modified->0
                    >= entries[other].modified->0)
            &&& forall|k: int|
                0 <= k < list.len() && counts_as_part(entries[other], started_at, anchor)
                    && group_key(entries[#[trigger] list[k] as int].name()) == group_key(
                    entries[other].name(),
                ) ==> list.contains(other as usize)
        },
{
    assert(is_part(entries[other], started_at, anchor) == counts_as_part(
        entries[other],
        started_at,
        anchor,
    ));
    if let Some(list) = group {
        let latest = choose|latest: int| #[trigger]
            is_group_of(entries, started_at, anchor, latest, list);
        assert(in_group(entries, started_at, anchor, latest, latest));
        assert(list.contains(latest as usize));
        let at = list.index_of(latest as usize);
        assert(list[at] == latest as usize);
        assert forall|k: int|
            0 <= k < list.len() && counts_as_part(entries[other], started_at, anchor) && group_key(
                entries[#[trigger] list[k] as int].name(),
            ) == group_key(entries[other].name()) implies list.contains(other as usize) by {
            assert(in_group(entries, started_at, anchor, latest, list[k] as int));
            assert(in_group(entries, started_at, anchor, latest, other));
        }
        assert forall|k: int, m: int| 0 <= k < m < list.len() implies group_key(
            entries[#[trigger] list[k] as int].name(),
        ) == group_key(entries[#[trigger] list[m] as int].name()) && !precedes(
            entries[list[m] as int].name(),
            entries[list[k] as int].name(),
        ) by {
            let left = entries[list[k] as int].name();
            let right = entries[list[m] as int].name();
            assert(listed_before(entries, list[k], list[m]));
            if precedes(left, right) {
                lemma_precedes_asymmetric(left, right);
            } else if precedes(right, left) {
                lemma_precedes_asymmetric(right, left);
            }
        }
    }
}

/// The entry is named as the tracker of a part, counts, and was changed at the anchor or
/// later.
pub open spec fn counts_as_part(entry: TrackerEntry, started_at: i128, anchor: i128) -> bool {
    &&& starts_with(entry.name(), "upload_TRACKER_"@)
    &&& contains(entry.name(), "__gs.url_"@)
    &&& entry.modified matches Some(time) && time >= started_at - 60_000_000_000 && time >= anchor
}

/// The trackers of a file are recognised by its name in lower case, which for an ASCII name
/// is the name with its capitals lowered.
pub proof fn law_trackers_are_recognised_by_the_file_name(
    windows: bool,
    path: Seq<char>,
    needle: Seq<char>,
)
    requires
        may_be_needle(windows, path, needle),
        !is_unread(path, windows),
    ensures
        file_name_on(path, windows) matches Some(name) ==> (is_ascii_chars(name) ==> needle
            == ascii_lowered(name)) && needle == lower_case(name),
        file_name_on(path, windows) is None ==> needle.len() == 0,
{
    assert(is_ascii_chars(Seq::<char>::empty()));
}

/// The tracker of the whole upload is asked wherever there is one, and it alone; otherwise the
/// trackers of the parts are, all of them; and nothing where there are none.
pub proof fn law_whole_upload_is_asked_first(
    whole: Option<usize>,
    parts: Option<Vec<usize>>,
    choice: TrackerChoice,
)
    requires
        is_choice(whole, parts, choice),
    ensures
        choice is Whole <==> whole is Some,
        choice matches TrackerChoice::Whole(index) ==> whole == Some(index),
        choice is Parts <==> whole is None && (parts matches Some(list) && list@.len() > 0),
        choice matches TrackerChoice::Parts(list) ==> parts == Some(list),
{
}

} // verus!
