//! Character-level helpers shared by the downloaders: conversions between
//! strings and character vectors, and the small path/URL utilities.
use vstd::prelude::*;

verus! {

/// Index of the last occurrence of `c` in `s`, or -1 when `c` does not occur.
pub open spec fn last_index_of(s: Seq<char>, c: char) -> int
    decreases s.len(),
{
    if s.len() == 0 {
        -1
    } else if s.last() == c {
        s.len() - 1
    } else {
        last_index_of(s.drop_last(), c)
    }
}

/// The part of `s` after the last `c` (all of `s` when `c` does not occur).
pub open spec fn after_last(s: Seq<char>, c: char) -> Seq<char> {
    s.subrange(last_index_of(s, c) + 1, s.len() as int)
}

/// The part of `s` up to and including the last `c` (empty when `c` does not occur).
pub open spec fn through_last(s: Seq<char>, c: char) -> Seq<char> {
    s.subrange(0, last_index_of(s, c) + 1)
}

pub proof fn lemma_last_index_of_bounds(s: Seq<char>, c: char)
    ensures
        -1 <= last_index_of(s, c) < s.len(),
        last_index_of(s, c) >= 0 ==> s[last_index_of(s, c)] == c,
        forall|j: int| last_index_of(s, c) < j < s.len() ==> s[j] != c,
    decreases s.len(),
{
    if s.len() > 0 && s.last() != c {
        lemma_last_index_of_bounds(s.drop_last(), c);
        assert forall|j: int| last_index_of(s, c) < j < s.len() implies s[j] != c by {
            if j < s.len() - 1 {
                assert(s[j] == s.drop_last()[j]);
            }
        }
    }
}

/// The characters of `s`, in order.
pub fn chars_of(s: &str) -> (r: Vec<char>)
    ensures
        r@ == s@,
{
    let mut out: Vec<char> = Vec::new();
    for ch in it: s.chars()
        invariant
            out@ == it.seq().subrange(0, it.index() as int),
    {
        out.push(ch);
    }
    out
}

/// Relies on `String::from_iter` over `&char`: collecting characters yields
/// a string holding exactly those characters, in order.
#[verifier::external_body]
pub(crate) fn string_from_chars(cs: &[char]) -> (r: String)
    ensures
        r@ == cs@,
{
    String::from_iter(cs)
}

/// Position of the last `c` in `cs`, if any.
pub fn find_last(cs: &Vec<char>, c: char) -> (r: Option<usize>)
    ensures
        r is None <==> last_index_of(cs@, c) == -1,
        r is Some ==> r->Some_0 as int == last_index_of(cs@, c) && r->Some_0 < cs.len(),
{
    let mut found: Option<usize> = None;
    let mut i: usize = 0;
    while i < cs.len()
        invariant
            i <= cs.len(),
            found is None <==> last_index_of(cs@.subrange(0, i as int), c) == -1,
            found is Some ==> found->Some_0 as int == last_index_of(cs@.subrange(0, i as int), c),
        decreases cs.len() - i,
    {
        assert(cs@.subrange(0, i + 1).drop_last() =~= cs@.subrange(0, i as int));
        if cs[i] == c {
            found = Some(i);
        }
        i = i + 1;
    }
    assert(cs@.subrange(0, cs.len() as int) =~= cs@);
    proof {
        lemma_last_index_of_bounds(cs@, c);
    }
    found
}

/// Copies `cs[from..to]` into a new string.
pub fn substring(cs: &Vec<char>, from: usize, to: usize) -> (r: String)
    requires
        from <= to <= cs.len(),
    ensures
        r@ == cs@.subrange(from as int, to as int),
{
    string_from_chars(&cs.as_slice()[from..to])
}

/// The last `/`-separated part of a URL: the file name it points to.
pub fn get_filename_from_url(url: &str) -> (r: String)
    ensures
        r@ == after_last(url@, '/'),
{
    let cs = chars_of(url);
    match find_last(&cs, '/') {
        Some(k) => substring(&cs, k + 1, cs.len()),
        None => substring(&cs, 0, cs.len()),
    }
}


/// The extension of a file name: the part after its last `.` (the whole
/// name when it has none).
pub fn get_extension_from_filename(filename: &str) -> (r: String)
    ensures
        r@ == after_last(filename@, '.'),
{
    let cs = chars_of(filename);
    match find_last(&cs, '.') {
        Some(k) => substring(&cs, k + 1, cs.len()),
        None => substring(&cs, 0, cs.len()),
    }
}

/// The directory prefix of a URL: everything up to and including its last
/// `/`, or the empty string when it has none.
pub fn get_base_url(url: &str) -> (r: String)
    ensures
        r@ == through_last(url@, '/'),
{
    let cs = chars_of(url);
    match find_last(&cs, '/') {
        Some(k) => substring(&cs, 0, k + 1),
        None => String::new(),
    }
}

/// `s` with every `c` removed.
pub open spec fn without_char(s: Seq<char>, c: char) -> Seq<char>
    decreases s.len(),
{
    if s.len() == 0 {
        s
    } else if s.last() == c {
        without_char(s.drop_last(), c)
    } else {
        without_char(s.drop_last(), c).push(s.last())
    }
}

/// At most the first `n` elements of `s`.
pub open spec fn take_at_most(s: Seq<char>, n: nat) -> Seq<char> {
    if s.len() <= n {
        s
    } else {
        s.subrange(0, n as int)
    }
}

/// A short identifier derived from a uuid: its first twelve characters
/// once the dashes are dropped.
pub open spec fn path_word_of(uuid: Seq<char>) -> Seq<char> {
    take_at_most(without_char(uuid, '-'), 12)
}

pub fn generate_path_word_from_uuid(uuid: &str) -> (r: String)
    ensures
        r@ == path_word_of(uuid@),
{
    let cs = chars_of(uuid);
    let mut out: Vec<char> = Vec::new();
    let mut i: usize = 0;
    while i < cs.len()
        invariant
            i <= cs.len(),
            out@ == without_char(cs@.subrange(0, i as int), '-'),
        decreases cs.len() - i,
    {
        assert(cs@.subrange(0, i + 1).drop_last() =~= cs@.subrange(0, i as int));
        if cs[i] != '-' {
            out.push(cs[i]);
        }
        i = i + 1;
    }
    assert(cs@.subrange(0, cs.len() as int) =~= cs@);
    out.truncate(12);
    string_from_chars(out.as_slice())
}

/// Appends all of `src` to `out`.
pub fn push_all(out: &mut Vec<char>, src: &Vec<char>)
    ensures
        final(out)@ == old(out)@ + src@,
{
    let mut i: usize = 0;
    while i < src.len()
        invariant
            i <= src.len(),
            out@ == old(out)@ + src@.subrange(0, i as int),
        decreases src.len() - i,
    {
        out.push(src[i]);
        i = i + 1;
        assert(out@ =~= old(out)@ + src@.subrange(0, i as int));
    }
    assert(src@.subrange(0, src.len() as int) =~= src@);
}

/// Whether `pat` occurs in `s` at position `at`.
pub fn occurs_at(s: &Vec<char>, at: usize, pat: &Vec<char>) -> (r: bool)
    requires
        at + pat.len() <= s.len(),
    ensures
        r == (s@.subrange(at as int, at + pat.len()) == pat@),
{
    let mut j: usize = 0;
    while j < pat.len()
        invariant
            j <= pat.len(),
            at + pat.len() <= s.len(),
            s@.subrange(at as int, at + j) =~= pat@.subrange(0, j as int),
        decreases pat.len() - j,
    {
        if s[at + j] != pat[j] {
            assert(s@.subrange(at as int, at + pat.len())[j as int] != pat@[j as int]);
            return false;
        }
        j = j + 1;
        assert(s@.subrange(at as int, at + j) =~= pat@.subrange(0, j as int));
    }
    assert(pat@.subrange(0, pat.len() as int) =~= pat@);
    true
}

/// `s` with each occurrence of `pat`, found left to right without overlap,
/// replaced by `rep`.
pub open spec fn replace_all(s: Seq<char>, pat: Seq<char>, rep: Seq<char>) -> Seq<char>
    decreases s.len(),
{
    if pat.len() == 0 || s.len() < pat.len() {
        s
    } else if s.subrange(0, pat.len() as int) == pat {
        rep + replace_all(s.subrange(pat.len() as int, s.len() as int), pat, rep)
    } else {
        seq![s[0]] + replace_all(s.subrange(1, s.len() as int), pat, rep)
    }
}

pub fn replace_chars(s: &Vec<char>, pat: &Vec<char>, rep: &Vec<char>) -> (r: Vec<char>)
    requires
        pat.len() > 0,
    ensures
        r@ == replace_all(s@, pat@, rep@),
{
    let n = s.len();
    let p = pat.len();
    let mut out: Vec<char> = Vec::new();
    let mut i: usize = 0;
    assert(s@.subrange(0, n as int) =~= s@);
    assert(out@ + replace_all(s@, pat@, rep@) =~= replace_all(s@, pat@, rep@));
    while i < n && p <= n - i
        invariant
            i <= n,
            n == s.len(),
            p == pat.len() > 0,
            out@ + replace_all(s@.subrange(i as int, n as int), pat@, rep@) == replace_all(
                s@,
                pat@,
                rep@,
            ),
        decreases n - i,
    {
        let ghost t = s@.subrange(i as int, n as int);
        if occurs_at(s, i, pat) {
            assert(t.subrange(0, p as int) =~= s@.subrange(i as int, i + p));
            assert(t.subrange(p as int, t.len() as int) =~= s@.subrange(i + p, n as int));
            push_all(&mut out, rep);
            i = i + p;
        } else {
            assert(t.subrange(0, p as int) =~= s@.subrange(i as int, i + p));
            assert(t.subrange(1, t.len() as int) =~= s@.subrange(i + 1, n as int));
            out.push(s[i]);
            i = i + 1;
        }
    }
    let ghost out0 = out@;
    let ghost rest = s@.subrange(i as int, n as int);
    assert(replace_all(rest, pat@, rep@) == rest);
    let mut k: usize = i;
    while k < n
        invariant
            i <= k <= n,
            n == s.len(),
            out@ == out0 + s@.subrange(i as int, k as int),
        decreases n - k,
    {
        out.push(s[k]);
        k = k + 1;
        assert(out@ =~= out0 + s@.subrange(i as int, k as int));
    }
    out
}


/// Replaces the escape `%` `a` `b` by `rep` throughout `s`.
fn replace_escape(s: &Vec<char>, a: char, b: char, rep: char) -> (r: Vec<char>)
    ensures
        r@ == replace_all(s@, seq!['%', a, b], seq![rep]),
{
    let pat = vec!['%', a, b];
    let with = vec![rep];
    assert(pat@ =~= seq!['%', a, b]);
    assert(with@ =~= seq![rep]);
    replace_chars(s, &pat, &with)
}

/// The decoding applied to external URLs handed to the proxy: nine escapes,
/// replaced one after the other in this order.
pub open spec fn percent_decoded(s: Seq<char>) -> Seq<char> {
    let s1 = replace_all(s, seq!['%', '3', 'A'], seq![':']);
    let s2 = replace_all(s1, seq!['%', '2', 'F'], seq!['/']);
    let s3 = replace_all(s2, seq!['%', '3', 'F'], seq!['?']);
    let s4 = replace_all(s3, seq!['%', '3', 'D'], seq!['=']);
    let s5 = replace_all(s4, seq!['%', '2', '6'], seq!['&']);
    let s6 = replace_all(s5, seq!['%', '2', 'E'], seq!['.']);
    let s7 = replace_all(s6, seq!['%', '2', 'D'], seq!['-']);
    let s8 = replace_all(s7, seq!['%', '5', 'F'], seq!['_']);
    replace_all(s8, seq!['%', '7', 'E'], seq!['~'])
}

/// A minimal URL decoding that only undoes the escapes of `:/?=&.-_~`.
pub fn percent_decode(input: &str) -> (r: String)
    ensures
        r@ == percent_decoded(input@),
{
    let s0 = chars_of(input);
    let s1 = replace_escape(&s0, '3', 'A', ':');
    let s2 = replace_escape(&s1, '2', 'F', '/');
    let s3 = replace_escape(&s2, '3', 'F', '?');
    let s4 = replace_escape(&s3, '3', 'D', '=');
    let s5 = replace_escape(&s4, '2', '6', '&');
    let s6 = replace_escape(&s5, '2', 'E', '.');
    let s7 = replace_escape(&s6, '2', 'D', '-');
    let s8 = replace_escape(&s7, '5', 'F', '_');
    let s9 = replace_escape(&s8, '7', 'E', '~');
    string_from_chars(s9.as_slice())
}

/// Appends the characters of `s` to `out`.
pub fn append_str(out: &mut Vec<char>, s: &str)
    ensures
        final(out)@ == old(out)@ + s@,
{
    let cs = chars_of(s);
    push_all(out, &cs);
}

} // verus!
