//! The container engine's wire records and the interpretation of its
//! responses: status codes, the image-load result stream, and image
//! references.
//!
//! Issuing the requests is I/O and lives outside the library; every decision
//! about what a response means is made here.

use vstd::prelude::*;
use vstd::string::StrSliceExecFns;
use vstd::string::StringExecFns;
use crate::errors::Error;
use crate::strutil::{has_prefix, is_prefix_of};

verus! {

/// The index of the first occurrence of `c` at or after `j`, or the
/// sequence's length when there is none.
pub open spec fn next_ch(s: Seq<char>, c: char, j: int) -> int
    decreases s.len() - j,
{
    if j < 0 || j >= s.len() {
        s.len() as int
    } else if s[j] == c {
        j
    } else {
        next_ch(s, c, j + 1)
    }
}

/// Characterizes `next_ch`: in bounds it points at the first occurrence,
/// and nothing before it matches.
pub proof fn lemma_next_ch(s: Seq<char>, c: char, j: int)
    requires
        0 <= j,
    ensures
        next_ch(s, c, j) <= s.len(),
        next_ch(s, c, j) < s.len() ==> j <= next_ch(s, c, j) && s[next_ch(s, c, j)] == c,
        forall|t: int| j <= t < next_ch(s, c, j) ==> s[t] != c,
    decreases s.len() - j,
{
    if j < s.len() && s[j] != c {
        lemma_next_ch(s, c, j + 1);
    }
}

/// One installed image, as the engine lists it.
#[derive(Debug)]
pub struct ImageList {
    pub id: String,
    pub repo_tags: Vec<String>,
}

/// One container, running or stopped, as the engine lists it.
#[derive(Debug)]
pub struct RunningContainer {
    pub id: String,
    pub names: Vec<String>,
    pub image: String,
    pub state: String,
}

/// The part of the engine's container-inspect response the daemon reads.
#[derive(Debug)]
pub struct InspectContainer {
    pub state: InspectContainerState,
}

/// The inspected container's state: the running flag and, when the
/// container has a health check, its health.
#[derive(Debug)]
pub struct InspectContainerState {
    pub health: Option<InspectContainerStateHealth>,
    pub running: bool,
}

/// The health section of an inspect response.
#[derive(Debug)]
pub struct InspectContainerStateHealth {
    pub status: String,
}

/// The engine's image-load response: a newline-delimited progress stream.
#[derive(Debug)]
pub struct LoadImageResult {
    pub stream: String,
}

/// The stream's lines, split on newlines; a trailing newline yields a final
/// empty line, which never carries a loaded-image marker.
pub open spec fn lines_from(s: Seq<char>, start: int) -> Seq<Seq<char>>
    decreases s.len() - start,
        via lines_from_decreases
{
    let k = next_ch(s, '\n', start);
    if k >= s.len() {
        seq![s.subrange(start, s.len() as int)]
    } else {
        seq![s.subrange(start, k)] + lines_from(s, k + 1)
    }
}

#[via_fn]
proof fn lines_from_decreases(s: Seq<char>, start: int) {
    if 0 <= start {
        lemma_next_ch(s, '\n', start);
    }
}

/// The whole stream, as lines.
pub open spec fn split_lines(s: Seq<char>) -> Seq<Seq<char>> {
    lines_from(s, 0)
}

/// Whitespace that may surround a progress line's content: the Unicode
/// white-space characters, as a string trim removes them.
pub open spec fn is_line_space(c: char) -> bool {
    let u = c as u32;
    ||| (0x09 <= u && u <= 0x0D)
    ||| u == 0x20
    ||| u == 0x85
    ||| u == 0xA0
    ||| u == 0x1680
    ||| (0x2000 <= u && u <= 0x200A)
    ||| u == 0x2028
    ||| u == 0x2029
    ||| u == 0x202F
    ||| u == 0x205F
    ||| u == 0x3000
}

/// The index of the first non-whitespace character at or after `j`, or the
/// length when the rest is all whitespace.
pub open spec fn first_keep(s: Seq<char>, j: int) -> int
    decreases s.len() - j,
{
    if j < 0 || j >= s.len() {
        s.len() as int
    } else if is_line_space(s[j]) {
        first_keep(s, j + 1)
    } else {
        j
    }
}

/// One past the last non-whitespace character strictly before `j`, or zero
/// when everything before `j` is whitespace.
pub open spec fn last_keep(s: Seq<char>, j: int) -> int
    decreases j,
{
    if j <= 0 {
        0
    } else if j > s.len() {
        last_keep(s, s.len() as int)
    } else if is_line_space(s[j - 1]) {
        last_keep(s, j - 1)
    } else {
        j
    }
}

/// The line with surrounding whitespace removed.
pub open spec fn trimmed(s: Seq<char>) -> Seq<char> {
    let a = first_keep(s, 0);
    let b = last_keep(s, s.len() as int);
    if a <= b {
        s.subrange(a, b)
    } else {
        Seq::empty()
    }
}

/// The image reference a progress line reports as loaded, if any: what
/// follows the `Loaded image: ` marker on the trimmed line.
pub open spec fn loaded_name_of(line: Seq<char>) -> Option<Seq<char>> {
    let t = trimmed(line);
    if is_prefix_of("Loaded image: "@, t) {
        Some(t.skip("Loaded image: "@.len() as int))
    } else {
        None
    }
}

/// Every image reference the lines report as loaded, in order.
pub open spec fn loaded_names(lines: Seq<Seq<char>>) -> Seq<Seq<char>>
    decreases lines.len(),
{
    if lines.len() == 0 {
        Seq::empty()
    } else {
        loaded_names(lines.drop_last()) + (match loaded_name_of(lines.last()) {
            Some(n) => seq![n],
            None => Seq::empty(),
        })
    }
}

/// Every image reference the load stream reports as loaded, in order.
pub open spec fn stream_loaded_names(s: Seq<char>) -> Seq<Seq<char>> {
    loaded_names(split_lines(s))
}

/// The views of a vector of strings.
pub open spec fn str_views(v: Seq<String>) -> Seq<Seq<char>> {
    v.map_values(|t: String| t@)
}

/// Splits the stream into lines.
fn split_lines_exec(s: &str) -> (r: Vec<String>)
    ensures
        str_views(r@) == split_lines(s@),
{
    let n = s.unicode_len();
    let mut r: Vec<String> = Vec::new();
    let mut start: usize = 0;
    loop
        invariant_except_break
            n == s@.len(),
            start <= n,
            lines_from(s@, 0) == str_views(r@) + lines_from(s@, start as int),
        ensures
            str_views(r@) == split_lines(s@),
        decreases n - start,
    {
        let ghost gstart = start as int;
        let mut k: usize = start;
        while k < n && s.get_char(k) != '\n'
            invariant
                n == s@.len(),
                start <= k <= n,
                next_ch(s@, '\n', gstart) == next_ch(s@, '\n', k as int),
            decreases n - k,
        {
            k = k + 1;
        }
        proof {
            assert(next_ch(s@, '\n', gstart) == k as int);
        }
        let line = s.substring_char(start, k);
        let ghost old_views = str_views(r@);
        r.push(String::from_str(line));
        proof {
            assert(str_views(r@) =~= old_views.push(line@));
        }
        if k == n {
            proof {
                assert(lines_from(s@, gstart) =~= seq![s@.subrange(gstart, n as int)]);
                assert(str_views(r@) =~= old_views + lines_from(s@, gstart));
            }
            break;
        }
        proof {
            assert(lines_from(s@, gstart) == seq![s@.subrange(gstart, k as int)] + lines_from(
                s@,
                k + 1,
            ));
            assert(str_views(r@) + lines_from(s@, k + 1) =~= old_views + lines_from(s@, gstart));
        }
        start = k + 1;
    }
    r
}

/// Whether the character is line whitespace.
fn is_space_char(c: char) -> (r: bool)
    ensures
        r == is_line_space(c),
{
    let u = c as u32;
    (0x09 <= u && u <= 0x0D) || u == 0x20 || u == 0x85 || u == 0xA0 || u == 0x1680 || (0x2000
        <= u && u <= 0x200A) || u == 0x2028 || u == 0x2029 || u == 0x202F || u == 0x205F || u
        == 0x3000
}

/// Extracts the loaded-image reference from one progress line, if the line
/// carries one.
fn line_loaded_name(line: &str) -> (r: Option<String>)
    ensures
        match loaded_name_of(line@) {
            Some(n) => r is Some && r->0@ == n,
            None => r is None,
        },
{
    let n = line.unicode_len();
    let mut a: usize = 0;
    while a < n && is_space_char(line.get_char(a))
        invariant
            n == line@.len(),
            a <= n,
            first_keep(line@, 0) == first_keep(line@, a as int),
        decreases n - a,
    {
        a = a + 1;
    }
    proof {
        assert(first_keep(line@, 0) == a as int);
    }
    let mut b: usize = n;
    while b > 0 && is_space_char(line.get_char(b - 1))
        invariant
            n == line@.len(),
            b <= n,
            last_keep(line@, n as int) == last_keep(line@, b as int),
        decreases b,
    {
        b = b - 1;
    }
    proof {
        assert(last_keep(line@, n as int) == b as int);
    }
    if a > b {
        proof {
            assert(trimmed(line@) =~= Seq::<char>::empty());
            assert(!is_prefix_of("Loaded image: "@, trimmed(line@))) by {
                reveal_strlit("Loaded image: ");
            }
        }
        return None;
    }
    let t = line.substring_char(a, b);
    proof {
        assert(t@ == trimmed(line@));
    }
    let marker = "Loaded image: ";
    if has_prefix(t, marker) {
        let ml = marker.unicode_len();
        let tn = t.unicode_len();
        let name = t.substring_char(ml, tn);
        proof {
            assert(name@ =~= trimmed(line@).skip("Loaded image: "@.len() as int));
        }
        Some(String::from_str(name))
    } else {
        None
    }
}

/// Finds the single image reference the engine's load stream reports, the
/// name the freshly loaded image is known by.  A stream that reports none,
/// or more than one, is an ambiguous or unsupported load result and is
/// refused.
pub fn extract_loaded_image(stream: &str) -> (r: Result<String, Error>)
    ensures
        r is Ok <==> stream_loaded_names(stream@).len() == 1,
        r is Ok ==> r->Ok_0@ == stream_loaded_names(stream@)[0],
        r is Err ==> r->Err_0 == Error::Protocol,
{
    let lines = split_lines_exec(stream);
    let n = lines.len();
    let mut found: Option<String> = None;
    let mut extra: bool = false;
    let mut i: usize = 0;
    proof {
        assert(str_views(lines@).subrange(0, 0) =~= Seq::<Seq<char>>::empty());
    }
    while i < n
        invariant
            n == lines@.len(),
            i <= n,
            str_views(lines@) == split_lines(stream@),
            match found {
                None => !extra && loaded_names(str_views(lines@).subrange(0, i as int)).len()
                    == 0,
                Some(f) => {
                    let names = loaded_names(str_views(lines@).subrange(0, i as int));
                    if extra {
                        names.len() >= 2
                    } else {
                        names.len() == 1 && f@ == names[0]
                    }
                },
            },
        decreases n - i,
    {
        let ghost pre = str_views(lines@).subrange(0, i as int);
        let ghost cur = str_views(lines@).subrange(0, i + 1);
        proof {
            assert(cur.drop_last() =~= pre);
            assert(cur.last() == lines@[i as int]@);
        }
        match line_loaded_name(lines[i].as_str()) {
            Some(name) => {
                if found.is_some() {
                    extra = true;
                } else {
                    found = Some(name);
                }
            },
            None => {},
        }
        i = i + 1;
    }
    proof {
        assert(str_views(lines@).subrange(0, n as int) =~= str_views(lines@));
    }
    match found {
        Some(f) => {
            if extra {
                Err(Error::Protocol)
            } else {
                Ok(f)
            }
        },
        None => Err(Error::Protocol),
    }
}

/// The reference contains exactly one `:`: one occurs, and none after the
/// first.
pub open spec fn splits_as_repo_tag(s: Seq<char>) -> bool {
    next_ch(s, ':', 0) < s.len() && (forall|t: int|
        next_ch(s, ':', 0) < t < s.len() ==> s[t] != ':')
}

/// Splits a desired image reference into its repository and tag.  The
/// reference must contain exactly one `:`; anything else cannot be
/// interpreted as `repo:tag` and is refused.
pub fn split_repo_tag(new_name: &str) -> (r: Result<(String, String), Error>)
    ensures
        r is Ok <==> splits_as_repo_tag(new_name@),
        r is Ok ==> r->Ok_0.0@ == new_name@.subrange(0, next_ch(new_name@, ':', 0))
            && r->Ok_0.1@ == new_name@.skip(next_ch(new_name@, ':', 0) + 1),
        r is Err ==> r->Err_0 == Error::Protocol,
{
    let n = new_name.unicode_len();
    let mut k: usize = 0;
    while k < n && new_name.get_char(k) != ':'
        invariant
            n == new_name@.len(),
            k <= n,
            next_ch(new_name@, ':', 0) == next_ch(new_name@, ':', k as int),
        decreases n - k,
    {
        k = k + 1;
    }
    proof {
        assert(next_ch(new_name@, ':', 0) == k as int);
    }
    if k == n {
        return Err(Error::Protocol);
    }
    let mut t: usize = k + 1;
    while t < n
        invariant
            n == new_name@.len(),
            k < t <= n,
            next_ch(new_name@, ':', 0) == k as int,
            forall|w: int| k < w < t ==> new_name@[w] != ':',
        decreases n - t,
    {
        if new_name.get_char(t) == ':' {
            proof {
                assert(new_name@[t as int] == ':');
                assert(!splits_as_repo_tag(new_name@));
            }
            return Err(Error::Protocol);
        }
        t = t + 1;
    }
    let repo = new_name.substring_char(0, k);
    let tag = new_name.substring_char(k + 1, n);
    proof {
        assert(tag@ =~= new_name@.skip(k + 1));
    }
    Ok((String::from_str(repo), String::from_str(tag)))
}

/// Everything the post-load steps need: the name the engine gave the loaded
/// image, and the repository and tag it must be retagged to.
#[derive(Debug)]
pub struct TagRequest {
    pub loaded_image: String,
    pub repo: String,
    pub tag: String,
}

/// Interprets a load response and plans the retag: the stream must report
/// exactly one loaded image, and the desired reference must split into
/// `repo:tag`.  When either fails, the load is refused before any tag or
/// prune request is issued.
pub fn load_image_plan(load: &LoadImageResult, new_name: &str) -> (r: Result<TagRequest, Error>)
    ensures
        r is Ok <==> (stream_loaded_names(load.stream@).len() == 1 && splits_as_repo_tag(
            new_name@,
        )),
        r is Ok ==> r->Ok_0.loaded_image@ == stream_loaded_names(load.stream@)[0]
            && r->Ok_0.repo@ == new_name@.subrange(0, next_ch(new_name@, ':', 0))
            && r->Ok_0.tag@ == new_name@.skip(next_ch(new_name@, ':', 0) + 1),
        r is Err ==> r->Err_0 == Error::Protocol,
{
    let loaded_image = match extract_loaded_image(load.stream.as_str()) {
        Ok(name) => name,
        Err(e) => {
            return Err(e);
        },
    };
    match split_repo_tag(new_name) {
        Ok((repo, tag)) => Ok(TagRequest { loaded_image, repo, tag }),
        Err(e) => Err(e),
    }
}

/// Interprets the status of a container-inspect response: anything but
/// 200 means the id no longer exists.
pub fn inspect_outcome(status: u16) -> (r: Result<(), Error>)
    ensures
        r is Ok <==> status == 200,
        r is Err ==> r->Err_0 == Error::NotFound,
{
    if status == 200 {
        Ok(())
    } else {
        Err(Error::NotFound)
    }
}

/// Whether a stop request must be issued at all: a container that is
/// already not running is left alone (idempotent stop).
pub fn stop_call_needed(inspection: &InspectContainer) -> (r: bool)
    ensures
        r == inspection.state.running,
{
    inspection.state.running
}

/// Interprets the status of a container-stop response: 204 means stopped,
/// 304 means it was already stopped; both are success.
pub fn stop_outcome(status: u16) -> (r: Result<(), Error>)
    ensures
        r is Ok <==> status == 204 || status == 304,
        r is Err ==> r->Err_0 == Error::Protocol,
{
    if status == 204 || status == 304 {
        Ok(())
    } else {
        Err(Error::Protocol)
    }
}

/// Interprets the status of a container-remove response: only 204 is
/// success.
pub fn remove_outcome(status: u16) -> (r: Result<(), Error>)
    ensures
        r is Ok <==> status == 204,
        r is Err ==> r->Err_0 == Error::Protocol,
{
    if status == 204 {
        Ok(())
    } else {
        Err(Error::Protocol)
    }
}

/// Interprets the status of an image-tag response: only 201 (created) is
/// success.
pub fn tag_outcome(status: u16) -> (r: Result<(), Error>)
    ensures
        r is Ok <==> status == 201,
        r is Err ==> r->Err_0 == Error::Protocol,
{
    if status == 201 {
        Ok(())
    } else {
        Err(Error::Protocol)
    }
}

} // verus!
