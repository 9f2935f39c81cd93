//! The M3U playlist parser: the alternate ingestion path.
//!
//! A playlist is line-oriented text. The first non-empty line must start
//! with `#EXTM3U`; a line starting with `#EXTINF:` opens a pending record,
//! and the next non-empty non-comment line closes it as that record's
//! stream URL. Display name is the text after the last comma of the info
//! line; the category comes from a `group-title="..."` attribute (the info
//! line is split on single spaces, so a quoted value that itself contains
//! a space is not recognized and the category falls back to
//! `Uncategorized`). Stream ids are a 1-based counter over accepted
//! records, so they are stable only within one parse run; a re-import
//! replaces the catalog wholesale, which makes that acceptable.

use vstd::prelude::*;

use crate::text::{
    dec_nat, slice_starts_with, spec_rfind, spec_split, spec_trim, split, starts_with, string_of,
    trim,
};

verus! {

/// One accepted playlist entry.
pub struct M3uRecord {
    pub stream_id: String,
    pub name: String,
    pub category_name: String,
    pub stream_url: String,
}

/// The ghost mirror of [`M3uRecord`].
pub struct M3uRecordV {
    pub stream_id: Seq<char>,
    pub name: Seq<char>,
    pub category_name: Seq<char>,
    pub stream_url: Seq<char>,
}

impl View for M3uRecord {
    type V = M3uRecordV;

    open spec fn view(&self) -> M3uRecordV {
        M3uRecordV {
            stream_id: self.stream_id@,
            name: self.name@,
            category_name: self.category_name@,
            stream_url: self.stream_url@,
        }
    }
}

/// The attribute value when `part` starts with `<prefix>` and a closing
/// quote follows, as in `group-title="News"` (trailing text after the
/// closing quote, such as a glued comma, is ignored).
pub open spec fn attr_of(part: Seq<char>, prefix: Seq<char>) -> Option<Seq<char>> {
    if starts_with(part, prefix) {
        match crate::text::find_from(part, '"', prefix.len() as int) {
            Some(q) => Some(part.subrange(prefix.len() as int, q)),
            None => None,
        }
    } else {
        None
    }
}

/// The value of the last `group-title="..."` attribute among the
/// space-separated parts at or after `i`, with `best` the latest one seen.
pub open spec fn group_acc(parts: Seq<Seq<char>>, i: int, best: Option<Seq<char>>) -> Option<
    Seq<char>,
>
    decreases parts.len() - i,
{
    if i < 0 || i >= parts.len() {
        best
    } else {
        let cur = match attr_of(parts[i], "group-title=\""@) {
            Some(g) => Some(g),
            None => best,
        };
        group_acc(parts, i + 1, cur)
    }
}

/// The category name carried by an info line: its `group-title` attribute,
/// else `Uncategorized`.
pub open spec fn m3u_category(info: Seq<char>) -> Seq<char> {
    match group_acc(spec_split(info, ' '), 0, None) {
        Some(g) => g,
        None => "Uncategorized"@,
    }
}

/// The display name carried by an info line: the trimmed text after the
/// last comma, else `Unknown`.
pub open spec fn m3u_name(info: Seq<char>) -> Seq<char> {
    match spec_rfind(info, ',') {
        Some(p) => spec_trim(info.subrange(p + 1, info.len() as int)),
        None => "Unknown"@,
    }
}

/// The record closed by URL line `url` under pending info line `info`,
/// numbered `count` records in.
pub open spec fn m3u_record(info: Seq<char>, url: Seq<char>, count: int) -> M3uRecordV {
    M3uRecordV {
        stream_id: dec_nat((count + 1) as nat),
        name: m3u_name(info),
        category_name: m3u_category(info),
        stream_url: url,
    }
}

/// The records accepted from the trimmed lines at or after `i`, given the
/// pending info line and the number of records accepted so far.
pub open spec fn m3u_fold(
    lines: Seq<Seq<char>>,
    i: int,
    pending: Option<Seq<char>>,
    count: int,
) -> Seq<M3uRecordV>
    decreases lines.len() - i,
{
    if i < 0 || i >= lines.len() {
        Seq::empty()
    } else {
        let line = spec_trim(lines[i]);
        if starts_with(line, "#EXTINF:"@) {
            m3u_fold(lines, i + 1, Some(line), count)
        } else if line.len() > 0 && line[0] != '#' {
            match pending {
                Some(info) => seq![m3u_record(info, line, count)] + m3u_fold(
                    lines,
                    i + 1,
                    None,
                    count + 1,
                ),
                None => m3u_fold(lines, i + 1, pending, count),
            }
        } else {
            m3u_fold(lines, i + 1, pending, count)
        }
    }
}

/// The index of the first line whose trimmed text is non-empty.
pub open spec fn first_nonempty(lines: Seq<Seq<char>>, i: int) -> Option<int>
    decreases lines.len() - i,
{
    if i < 0 || i >= lines.len() {
        None
    } else if spec_trim(lines[i]).len() > 0 {
        Some(i)
    } else {
        first_nonempty(lines, i + 1)
    }
}

/// The records denoted by M3U text: `None` when the first non-empty line
/// does not start with the `#EXTM3U` header.
pub open spec fn spec_parse_m3u(text: Seq<char>) -> Option<Seq<M3uRecordV>> {
    let lines = spec_split(text, '\n');
    match first_nonempty(lines, 0) {
        None => None,
        Some(h) => if starts_with(spec_trim(lines[h]), "#EXTM3U"@) {
            Some(m3u_fold(lines, h + 1, None, 0))
        } else {
            None
        },
    }
}

/// Extracts the attribute value of `part` when it matches `<prefix>..."`.
#[verifier::loop_isolation(false)]
fn attr_of_exec(part: &[char], prefix: &[char]) -> (r: Option<String>)
    ensures
        match r {
            Some(s) => attr_of(part@, prefix@) == Some(s@),
            None => attr_of(part@, prefix@) is None,
        },
{
    if !slice_starts_with(part, prefix) {
        return None;
    }
    let hi = match crate::text::find_from_exec(part, '"', prefix.len()) {
        Some(q) => q,
        None => {
            return None;
        },
    };
    let mut cs: Vec<char> = Vec::new();
    let mut i = prefix.len();
    while i < hi
        invariant
            prefix.len() <= i <= hi < part.len(),
            cs@ == part@.subrange(prefix@.len() as int, i as int),
        decreases hi - i,
    {
        cs.push(part[i]);
        assert(part@.subrange(prefix@.len() as int, i + 1 as int) =~= part@.subrange(
            prefix@.len() as int,
            i as int,
        ).push(part@[i as int]));
        i = i + 1;
    }
    assert(cs@ =~= part@.subrange(prefix@.len() as int, hi as int));
    Some(string_of(cs.as_slice()))
}

/// The category name of an info line.
#[verifier::loop_isolation(false)]
fn m3u_category_exec(info: &[char]) -> (r: String)
    ensures
        r@ == m3u_category(info@),
{
    proof {
        reveal_strlit("group-title=\"");
        reveal_strlit("Uncategorized");
    }
    let prefix = crate::text::chars_of("group-title=\"");
    let parts = split(info, ' ');
    let ghost pseq = parts@.map_values(|p: Vec<char>| p@);
    let mut best: Option<String> = None;
    let mut i: usize = 0;
    while i < parts.len()
        invariant
            i <= parts.len(),
            pseq.len() == parts@.len(),
            forall|k: int| 0 <= k < parts@.len() ==> pseq[k] == parts@[k]@,
            group_acc(pseq, 0, None) == group_acc(
                pseq,
                i as int,
                match best {
                    Some(s) => Some(s@),
                    None => None,
                },
            ),
        decreases parts.len() - i,
    {
        assert(pseq[i as int] == parts@[i as int]@);
        match attr_of_exec(parts[i].as_slice(), prefix.as_slice()) {
            Some(g) => {
                best = Some(g);
            },
            None => {},
        }
        i = i + 1;
    }
    match best {
        Some(g) => g,
        None => String::from_str("Uncategorized"),
    }
}

/// The display name of an info line.
fn m3u_name_exec(info: &[char]) -> (r: String)
    ensures
        r@ == m3u_name(info@),
{
    proof {
        reveal_strlit("Unknown");
    }
    match crate::text::rfind(info, ',') {
        Some(p) => {
            let n = info.len();
            assert(p < n);
            let mut cs: Vec<char> = Vec::new();
            let mut i = p + 1;
            while i < info.len()
                invariant
                    p + 1 <= i <= info.len(),
                    p < info.len(),
                    cs@ == info@.subrange(p + 1 as int, i as int),
                decreases info.len() - i,
            {
                cs.push(info[i]);
                assert(info@.subrange(p + 1 as int, i + 1 as int) =~= info@.subrange(
                    p + 1 as int,
                    i as int,
                ).push(info@[i as int]));
                i = i + 1;
            }
            assert(cs@ =~= info@.subrange(p + 1 as int, info@.len() as int));
            let trimmed = trim(cs.as_slice());
            string_of(trimmed.as_slice())
        },
        None => String::from_str("Unknown"),
    }
}

/// Parses M3U playlist text into its accepted records, or `None` when the
/// required header is missing.
#[verifier::loop_isolation(false)]
pub fn parse_m3u(text: &[char]) -> (r: Option<Vec<M3uRecord>>)
    ensures
        match r {
            Some(recs) => spec_parse_m3u(text@) == Some(
                recs@.map_values(|x: M3uRecord| x@),
            ),
            None => spec_parse_m3u(text@) is None,
        },
{
    proof {
        reveal_strlit("#EXTM3U");
        reveal_strlit("#EXTINF:");
    }
    let header_tag = crate::text::chars_of("#EXTM3U");
    let info_tag = crate::text::chars_of("#EXTINF:");
    let lines = split(text, '\n');
    let ghost lseq = lines@.map_values(|p: Vec<char>| p@);
    // find the first non-empty line
    let mut h: usize = 0;
    let mut header: Option<Vec<char>> = None;
    while h < lines.len() && header.is_none()
        invariant
            h <= lines.len(),
            lseq.len() == lines@.len(),
            forall|k: int| 0 <= k < lines@.len() ==> lseq[k] == lines@[k]@,
            match header {
                Some(line) => first_nonempty(lseq, 0) == Some(h as int - 1) && h >= 1 && line@
                    == spec_trim(lseq[h as int - 1]),
                None => first_nonempty(lseq, 0) == first_nonempty(lseq, h as int),
            },
        decreases lines.len() - h,
    {
        assert(lseq[h as int] == lines@[h as int]@);
        let t = trim(lines[h].as_slice());
        if t.len() > 0 {
            header = Some(t);
        }
        h = h + 1;
    }
    let start = h;
    let head_line = match header {
        Some(line) => line,
        None => {
            return None;
        },
    };
    if !slice_starts_with(head_line.as_slice(), header_tag.as_slice()) {
        return None;
    }
    let ghost whole = m3u_fold(lseq, start as int, None, 0);
    assert(spec_parse_m3u(text@) == Some(whole));
    let mut out: Vec<M3uRecord> = Vec::new();
    let mut pending: Option<Vec<char>> = None;
    let mut i = start;
    while i < lines.len()
        invariant
            start <= i <= lines.len(),
            out@.len() + start <= i,
            whole == out@.map_values(|x: M3uRecord| x@) + m3u_fold(
                lseq,
                i as int,
                match pending {
                    Some(p) => Some(p@),
                    None => None,
                },
                out@.len() as int,
            ),
        decreases lines.len() - i,
    {
        assert(lseq[i as int] == lines@[i as int]@);
        let line = trim(lines[i].as_slice());
        if slice_starts_with(line.as_slice(), info_tag.as_slice()) {
            pending = Some(line);
        } else if line.len() > 0 && line[0] != '#' {
            match pending {
                Some(info) => {
                    let n: u64 = out.len() as u64;
                    let rec = M3uRecord {
                        stream_id: crate::text::u64_to_string(n + 1),
                        name: m3u_name_exec(info.as_slice()),
                        category_name: m3u_category_exec(info.as_slice()),
                        stream_url: string_of(line.as_slice()),
                    };
                    let ghost out_seq = out@;
                    out.push(rec);
                    assert(out@.map_values(|x: M3uRecord| x@) =~= out_seq.map_values(
                        |x: M3uRecord| x@,
                    ).push(out@.last()@));
                    assert(out_seq.map_values(|x: M3uRecord| x@).push(out@.last()@) + m3u_fold(
                        lseq,
                        i + 1,
                        None,
                        out@.len() as int,
                    ) =~= out_seq.map_values(|x: M3uRecord| x@) + (seq![out@.last()@] + m3u_fold(
                        lseq,
                        i + 1,
                        None,
                        out@.len() as int,
                    )));
                    pending = None;
                },
                None => {},
            }
        }
        i = i + 1;
    }
    assert(out@.map_values(|x: M3uRecord| x@) =~= whole);
    Some(out)
}

} // verus!
