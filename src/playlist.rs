//! Segment playlists: the text format that lists the pieces of a segmented
//! video, one reference per line.
//!
//! Parsing is purely syntactic. The text is cut at line feeds, each line is
//! trimmed, blank lines and lines starting with `#` are skipped, and every
//! other line is a segment reference. A reference that starts with `http` is
//! taken as it is; any other is appended to the playlist's directory prefix.
use vstd::prelude::*;
use crate::text::{chars_of, string_from_chars, push_all};

verus! {

/// White space as `char::is_whitespace` defines it (the Unicode White_Space
/// property).
pub open spec fn is_white(c: char) -> bool {
    let u = c as u32;
    (9 <= u <= 13) || u == 32 || u == 0x85 || u == 0xa0 || u == 0x1680 || (0x2000 <= u
        <= 0x200a) || u == 0x2028 || u == 0x2029 || u == 0x202f || u == 0x205f || u == 0x3000
}

pub fn char_is_white(c: char) -> (r: bool)
    ensures
        r == is_white(c),
{
    let u = c as u32;
    (9 <= u && u <= 13) || u == 32 || u == 0x85 || u == 0xa0 || u == 0x1680 || (0x2000 <= u && u
        <= 0x200a) || u == 0x2028 || u == 0x2029 || u == 0x202f || u == 0x205f || u == 0x3000
}

pub open spec fn trim_start(s: Seq<char>) -> Seq<char>
    decreases s.len(),
{
    if s.len() > 0 && is_white(s[0]) {
        trim_start(s.drop_first())
    } else {
        s
    }
}

pub open spec fn trim_end(s: Seq<char>) -> Seq<char>
    decreases s.len(),
{
    if s.len() > 0 && is_white(s.last()) {
        trim_end(s.drop_last())
    } else {
        s
    }
}

/// `s` without leading and trailing white space.
pub open spec fn trimmed(s: Seq<char>) -> Seq<char> {
    trim_end(trim_start(s))
}

/// The lines of `s`: the pieces between line feeds. A text that ends in a
/// line feed has an empty last piece; one without any has a single line.
pub open spec fn split_lines(s: Seq<char>) -> Seq<Seq<char>>
    decreases s.len(),
{
    if s.len() == 0 {
        seq![Seq::<char>::empty()]
    } else {
        let prev = split_lines(s.drop_last());
        if s.last() == '\n' {
            prev.push(Seq::<char>::empty())
        } else {
            prev.update(prev.len() - 1, prev.last().push(s.last()))
        }
    }
}

/// A trimmed line that names no segment: blank, or a comment or directive.
pub open spec fn is_skipped(t: Seq<char>) -> bool {
    t.len() == 0 || t[0] == '#'
}

pub open spec fn is_absolute(t: Seq<char>) -> bool {
    t.len() >= 4 && t.subrange(0, 4) == seq!['h', 't', 't', 'p']
}

/// A segment reference made absolute against the playlist's directory prefix.
pub open spec fn resolve(t: Seq<char>, base: Seq<char>) -> Seq<char> {
    if is_absolute(t) {
        t
    } else {
        base + t
    }
}

/// The segment URLs named by `lines`, in order.
pub open spec fn segments_of_lines(lines: Seq<Seq<char>>, base: Seq<char>) -> Seq<Seq<char>>
    decreases lines.len(),
{
    if lines.len() == 0 {
        Seq::empty()
    } else {
        let prev = segments_of_lines(lines.drop_last(), base);
        let t = trimmed(lines.last());
        if is_skipped(t) {
            prev
        } else {
            prev.push(resolve(t, base))
        }
    }
}

/// The segment URLs of a playlist text, in the order they are listed.
pub open spec fn playlist_segments(content: Seq<char>, base: Seq<char>) -> Seq<Seq<char>> {
    segments_of_lines(split_lines(content), base)
}

proof fn lemma_trim_start_step(s: Seq<char>, lo: int, hi: int)
    requires
        0 <= lo < hi <= s.len(),
        is_white(s[lo]),
    ensures
        trim_start(s.subrange(lo, hi)) == trim_start(s.subrange(lo + 1, hi)),
{
    assert(s.subrange(lo, hi).drop_first() =~= s.subrange(lo + 1, hi));
}

proof fn lemma_trim_end_step(s: Seq<char>, lo: int, hi: int)
    requires
        0 <= lo < hi <= s.len(),
        is_white(s[hi - 1]),
    ensures
        trim_end(s.subrange(lo, hi)) == trim_end(s.subrange(lo, hi - 1)),
{
    assert(s.subrange(lo, hi).drop_last() =~= s.subrange(lo, hi - 1));
}

/// Bounds of `cs[start..end]` once trimmed.
fn trim_bounds(cs: &Vec<char>, start: usize, end: usize) -> (r: (usize, usize))
    requires
        start <= end <= cs.len(),
    ensures
        start <= r.0 <= r.1 <= end,
        cs@.subrange(r.0 as int, r.1 as int) == trimmed(cs@.subrange(start as int, end as int)),
{
    let mut lo = start;
    while lo < end && char_is_white(cs[lo])
        invariant
            start <= lo <= end <= cs.len(),
            trim_start(cs@.subrange(start as int, end as int)) == trim_start(
                cs@.subrange(lo as int, end as int),
            ),
        decreases end - lo,
    {
        proof {
            lemma_trim_start_step(cs@, lo as int, end as int);
        }
        lo = lo + 1;
    }
    let mut hi = end;
    while hi > lo && char_is_white(cs[hi - 1])
        invariant
            start <= lo <= hi <= end <= cs.len(),
            trim_end(cs@.subrange(lo as int, end as int)) == trim_end(
                cs@.subrange(lo as int, hi as int),
            ),
        decreases hi - lo,
    {
        proof {
            lemma_trim_end_step(cs@, lo as int, hi as int);
        }
        hi = hi - 1;
    }
    (lo, hi)
}

/// The segment URL named by the line `cs[start..end]`, if it names one.
fn line_segment(cs: &Vec<char>, start: usize, end: usize, base: &Vec<char>) -> (r: Option<String>)
    requires
        start <= end <= cs.len(),
    ensures
        is_skipped(trimmed(cs@.subrange(start as int, end as int))) <==> r is None,
        r is Some ==> r->Some_0@ == resolve(trimmed(cs@.subrange(start as int, end as int)), base@),
{
    let (lo, hi) = trim_bounds(cs, start, end);
    let ghost t = cs@.subrange(lo as int, hi as int);
    if lo == hi || cs[lo] == '#' {
        return None;
    }
    let absolute = hi - lo >= 4 && cs[lo] == 'h' && cs[lo + 1] == 't' && cs[lo + 2] == 't' && cs[lo
        + 3] == 'p';
    assert(absolute == is_absolute(t)) by {
        if hi - lo >= 4 {
            if absolute {
                assert(t.subrange(0, 4) =~= seq!['h', 't', 't', 'p']);
            } else {
                if t.subrange(0, 4) == seq!['h', 't', 't', 'p'] {
                    assert(t.subrange(0, 4)[0] == t[0]);
                    assert(t.subrange(0, 4)[1] == t[1]);
                    assert(t.subrange(0, 4)[2] == t[2]);
                    assert(t.subrange(0, 4)[3] == t[3]);
                }
            }
        }
    }
    let mut out: Vec<char> = Vec::new();
    if !absolute {
        push_all(&mut out, base);
    }
    let mut k = lo;
    let ghost out0 = out@;
    while k < hi
        invariant
            lo <= k <= hi <= cs.len(),
            out@ == out0 + cs@.subrange(lo as int, k as int),
        decreases hi - k,
    {
        out.push(cs[k]);
        k = k + 1;
        assert(out@ =~= out0 + cs@.subrange(lo as int, k as int));
    }
    assert(out@ =~= resolve(t, base@));
    Some(string_from_chars(out.as_slice()))
}

/// The segment URLs listed by a playlist, resolved against `base_url`.
pub fn parse_m3u8_segments(content: &str, base_url: &str) -> (r: Result<Vec<String>, String>)
    ensures
        r is Ok,
        r->Ok_0@.map_values(|u: String| u@) == playlist_segments(content@, base_url@),
{
    let cs = chars_of(content);
    let base = chars_of(base_url);
    let mut segments: Vec<String> = Vec::new();
    let mut start: usize = 0;
    let mut i: usize = 0;
    let ghost mut done: Seq<Seq<char>> = Seq::empty();
    assert(cs@.subrange(0, 0) =~= Seq::<char>::empty());
    assert(split_lines(cs@.subrange(0, 0)) =~= done.push(cs@.subrange(0, 0)));
    assert(segments@.map_values(|u: String| u@) =~= segments_of_lines(done, base@));
    while i < cs.len()
        invariant
            start <= i <= cs.len(),
            split_lines(cs@.subrange(0, i as int)) == done.push(cs@.subrange(start as int, i as int)),
            segments@.map_values(|u: String| u@) == segments_of_lines(done, base@),
        decreases cs.len() - i,
    {
        assert(cs@.subrange(0, i + 1).drop_last() =~= cs@.subrange(0, i as int));
        if cs[i] == '\n' {
            let entry = line_segment(&cs, start, i, &base);
            proof {
                let line = cs@.subrange(start as int, i as int);
                assert(done.push(line).drop_last() =~= done);
                done = done.push(line);
            }
            match entry {
                Some(u) => {
                    segments.push(u);
                },
                None => {},
            }
            assert(segments@.map_values(|u: String| u@) =~= segments_of_lines(done, base@));
            start = i + 1;
            assert(cs@.subrange(start as int, i + 1) =~= Seq::<char>::empty());
        } else {
            assert(cs@.subrange(start as int, i + 1) =~= cs@.subrange(start as int, i as int).push(
                cs@[i as int],
            ));
        }
        i = i + 1;
    }
    assert(cs@.subrange(0, cs.len() as int) =~= cs@);
    let entry = line_segment(&cs, start, cs.len(), &base);
    proof {
        let line = cs@.subrange(start as int, cs.len() as int);
        assert(done.push(line).drop_last() =~= done);
        done = done.push(line);
    }
    match entry {
        Some(u) => {
            segments.push(u);
        },
        None => {},
    }
    assert(segments@.map_values(|u: String| u@) =~= segments_of_lines(done, base@));
    Ok(segments)
}

} // verus!
