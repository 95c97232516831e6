//! The default place of the output, derived from the path of the input and a
//! timestamp.
//!
//! A path is read as text in which `/` separates components; runs of
//! separators count as one, separators at the end are ignored, and a `.` that
//! stands alone between separators is no component unless the path begins with
//! it. The output
//! keeps the name of the input with the extension of raw captures taken off and
//! the timestamp put on, and lies two directories above the directory of the
//! input: of `/data/site/day/run.vraw` and the stamp `2024-01-31T09_15_00` it is
//! `/data/run_2024-01-31T09_15_00.mp4`.

use vstd::prelude::*;

verus! {

/// The character that separates the components of a path.
pub const SEPARATOR: char = '/';

/// The character before `end` belongs to no component, where `end` is the end
/// of the path or follows a separator: it is a separator, or a `.` just after
/// one.
pub open spec fn passed_over(path: Seq<char>, end: int) -> bool {
    ||| path[end - 1] == SEPARATOR
    ||| end >= 2 && path[end - 1] == '.' && path[end - 2] == SEPARATOR
}

/// The index just after the last character before `end` that belongs to a
/// component, or 0 where none does.
pub open spec fn last_stop(path: Seq<char>, end: int) -> int
    decreases end,
{
    if end <= 0 {
        0
    } else if !passed_over(path, end) {
        end
    } else {
        last_stop(path, end - 1)
    }
}

/// The index at which the run of characters that ends before `stop`, and holds
/// no separator, begins.
pub open spec fn run_start(path: Seq<char>, stop: int) -> int
    decreases stop,
{
    if stop <= 0 {
        0
    } else if path[stop - 1] == SEPARATOR {
        stop
    } else {
        run_start(path, stop - 1)
    }
}

/// Where the last component that ends at or before `end` begins.
pub open spec fn component_start(path: Seq<char>, end: int) -> int {
    run_start(path, last_stop(path, end))
}

/// The last component of a path; empty where the path has none.
pub open spec fn file_name(path: Seq<char>) -> Seq<char> {
    path.subrange(component_start(path, path.len() as int), last_stop(path, path.len() as int))
}

/// Where the directory of the input begins as a component: the start of the
/// last component but one.
pub open spec fn directory_start(path: Seq<char>) -> int {
    component_start(path, component_start(path, path.len() as int))
}

/// Where the directory above that of the input begins as a component: the
/// start of the last component but two.
pub open spec fn parent_start(path: Seq<char>) -> int {
    component_start(path, directory_start(path))
}

/// The name is `.` or `..`, which name no file.
pub open spec fn is_dots(name: Seq<char>) -> bool {
    ||| name.len() == 1 && name[0] == '.'
    ||| name.len() == 2 && name[0] == '.' && name[1] == '.'
}

/// The name ends in `.vraw`, the extension of raw captures.
pub open spec fn has_raw_extension(name: Seq<char>) -> bool {
    &&& name.len() >= 5
    &&& name[name.len() - 5] == '.'
    &&& name[name.len() - 4] == 'v'
    &&& name[name.len() - 3] == 'r'
    &&& name[name.len() - 2] == 'a'
    &&& name[name.len() - 1] == 'w'
}

/// The name without the extension of raw captures, however often it ends in
/// it.
pub open spec fn stem(name: Seq<char>) -> Seq<char>
    decreases name.len(),
{
    if has_raw_extension(name) {
        stem(name.take(name.len() - 5))
    } else {
        name
    }
}

/// The path has a place two directories above the directory of the input: it
/// has at least three components, and the last of them names a file.
pub open spec fn derivable(path: Seq<char>) -> bool {
    &&& last_stop(path, directory_start(path)) > 0
    &&& !is_dots(file_name(path))
}

/// The default output of an input path and a timestamp: what comes before the
/// last three components of the path, then the stem of the file name, `_`, the
/// timestamp and `.mp4`.
pub open spec fn derived_path(path: Seq<char>, stamp: Seq<char>) -> Option<Seq<char>> {
    if derivable(path) {
        Some(path.take(parent_start(path)) + stem(file_name(path)) + "_"@ + stamp + ".mp4"@)
    } else {
        None
    }
}

/// The view of a path that may be missing.
pub open spec fn path_view(path: Option<String>) -> Option<Seq<char>> {
    match path {
        Some(text) => Some(text@),
        None => None,
    }
}

/// Skips what belongs to no component and ends just before `end`.
fn stop_before(path: &str, end: usize) -> (stop: usize)
    requires
        end <= path@.len(),
    ensures
        stop == last_stop(path@, end as int),
        stop <= end,
        stop > 0 ==> path@[stop - 1] != SEPARATOR,
{
    let mut stop: usize = end;
    while stop > 0 && (path.get_char(stop - 1) == SEPARATOR || (stop >= 2 && path.get_char(stop - 1)
        == '.' && path.get_char(stop - 2) == SEPARATOR))
        invariant
            stop <= end <= path@.len(),
            last_stop(path@, end as int) == last_stop(path@, stop as int),
        decreases stop,
    {
        stop -= 1;
    }
    stop
}

/// Finds where the component that ends just before `stop` begins.
fn start_before(path: &str, stop: usize) -> (start: usize)
    requires
        stop <= path@.len(),
    ensures
        start == run_start(path@, stop as int),
        start <= stop,
        stop > 0 && path@[stop - 1] != SEPARATOR ==> start < stop,
{
    let mut start: usize = stop;
    while start > 0 && path.get_char(start - 1) != SEPARATOR
        invariant
            start <= stop <= path@.len(),
            run_start(path@, stop as int) == run_start(path@, start as int),
            stop > 0 && path@[stop - 1] != SEPARATOR ==> start < stop || (start > 0 && path@[start
                - 1] != SEPARATOR),
        decreases start,
    {
        start -= 1;
    }
    start
}

/// Finds where the stem of the name in `start..stop` ends.
fn stem_stop(path: &str, start: usize, stop: usize) -> (end: usize)
    requires
        start <= stop <= path@.len(),
    ensures
        start <= end <= stop,
        path@.subrange(start as int, end as int) == stem(path@.subrange(start as int, stop as int)),
{
    let mut end: usize = stop;
    while end - start >= 5 && path.get_char(end - 5) == '.' && path.get_char(end - 4) == 'v'
        && path.get_char(end - 3) == 'r' && path.get_char(end - 2) == 'a' && path.get_char(end - 1)
        == 'w'
        invariant
            start <= end <= stop <= path@.len(),
            stem(path@.subrange(start as int, stop as int)) == stem(
                path@.subrange(start as int, end as int),
            ),
        decreases end,
    {
        proof {
            let name = path@.subrange(start as int, end as int);
            assert(has_raw_extension(name));
            assert(name.take(name.len() - 5) =~= path@.subrange(start as int, end - 5));
        }
        end -= 5;
    }
    proof {
        let name = path@.subrange(start as int, end as int);
        assert(!has_raw_extension(name));
    }
    end
}

/// Derives the default output of an input path and a timestamp; `None` where
/// the path has no place two directories above the directory of the input.
pub fn derive_output_path(input: &str, stamp: &str) -> (r: Option<String>)
    ensures
        path_view(r) == derived_path(input@, stamp@),
{
    let length = input.unicode_len();
    let name_stop = stop_before(input, length);
    let name_start = start_before(input, name_stop);
    let directory_stop = stop_before(input, name_start);
    let directory_start = start_before(input, directory_stop);
    let parent_stop = stop_before(input, directory_start);
    let parent_start = start_before(input, parent_stop);
    if parent_stop == 0 {
        return None;
    }
    let ghost name = input@.subrange(name_start as int, name_stop as int);
    let dots = (name_stop - name_start == 1 && input.get_char(name_start) == '.') || (name_stop
        - name_start == 2 && input.get_char(name_start) == '.' && input.get_char(name_start + 1)
        == '.');
    assert(dots == is_dots(name));
    if dots {
        return None;
    }
    let name_end = stem_stop(input, name_start, name_stop);
    let mut out = String::from_str(input.substring_char(0, parent_start));
    out.append(input.substring_char(name_start, name_end));
    out.append("_");
    out.append(stamp);
    out.append(".mp4");
    assert(input@.subrange(0, parent_start as int) =~= input@.take(parent_start as int));
    Some(out)
}

/// The pattern of the timestamp in a default output name: date and time of day
/// to the second, with `_` where a file name cannot have `:`.
pub open spec fn stamp_pattern() -> Seq<char> {
    "%Y-%m-%dT%H_%M_%S"@
}

/// `chrono::Local::now`, formatted by `chrono::DateTime::format`. The text
/// depends on the clock and the time zone of the machine, so nothing is
/// claimed of it. A malformed pattern would make the formatting fail, so the
/// pattern is fixed. On a machine whose clock is set before 1970 `now` panics.
#[verifier::external_body]
fn local_stamp(pattern: &str) -> (stamp: String)
    requires
        pattern@ == stamp_pattern(),
{
    chrono::Local::now().format(pattern).to_string()
}

/// Derives the default output of an input path at the present local time.
pub fn default_output_path(input: &str) -> (r: Option<String>)
    ensures
        r is Some <==> derivable(input@),
        r matches Some(path) ==> exists|stamp: Seq<char>| #[trigger]
            derived_path(input@, stamp) == Some(path@),
{
    let stamp = local_stamp("%Y-%m-%dT%H_%M_%S");
    let r = derive_output_path(input, stamp.as_str());
    proof {
        if r is Some {
            assert(derived_path(input@, stamp@) == Some(r->0@));
        }
    }
    r
}

/// Settles the path of the output: the one given, or the default one of the
/// input where none is given.
pub fn resolve_output_path(input: &str, output: Option<String>) -> (r: Option<String>)
    ensures
        output matches Some(given) ==> r == Some(given),
        output is None ==> (r is Some <==> derivable(input@)),
        output is None ==> (r matches Some(path) ==> exists|stamp: Seq<char>| #[trigger]
            derived_path(input@, stamp) == Some(path@)),
{
    match output {
        Some(given) => Some(given),
        None => default_output_path(input),
    }
}

} // verus!
