//! Ordering of locally stored items for display: timestamps and names
//! compare as text, character by character.
use vstd::prelude::*;
use crate::text::chars_of;

verus! {

/// `a` sorts strictly before `b`: at the first position where they differ
/// `a` has the smaller character, or `a` is a proper prefix of `b`.
pub open spec fn text_lt(a: Seq<char>, b: Seq<char>) -> bool
    decreases a.len(),
{
    if b.len() == 0 {
        false
    } else if a.len() == 0 {
        true
    } else if a[0] != b[0] {
        (a[0] as u32) < (b[0] as u32)
    } else {
        text_lt(a.drop_first(), b.drop_first())
    }
}

fn chars_lt(a: &Vec<char>, b: &Vec<char>, from: usize) -> (r: bool)
    requires
        from <= a.len(),
        from <= b.len(),
    ensures
        r == text_lt(a@.subrange(from as int, a.len() as int), b@.subrange(from as int, b.len() as int)),
    decreases a.len() - from,
{
    let ghost sa = a@.subrange(from as int, a.len() as int);
    let ghost sb = b@.subrange(from as int, b.len() as int);
    if from == b.len() {
        false
    } else if from == a.len() {
        true
    } else if a[from] != b[from] {
        (a[from] as u32) < (b[from] as u32)
    } else {
        assert(sa.drop_first() =~= a@.subrange(from + 1, a.len() as int));
        assert(sb.drop_first() =~= b@.subrange(from + 1, b.len() as int));
        chars_lt(a, b, from + 1)
    }
}

/// Whether `a` sorts strictly before `b`.
pub fn text_before(a: &str, b: &str) -> (r: bool)
    ensures
        r == text_lt(a@, b@),
{
    let x = chars_of(a);
    let y = chars_of(b);
    assert(x@.subrange(0, x.len() as int) =~= x@);
    assert(y@.subrange(0, y.len() as int) =~= y@);
    chars_lt(&x, &y, 0)
}

/// The latest of `times` in text order, or the empty string when there is
/// none: the time shown for a media item with several stored chapters.
pub fn latest_download_time(times: &Vec<String>) -> (r: String)
    ensures
        times@.len() == 0 ==> r@.len() == 0,
        times@.len() > 0 ==> exists|i: int| 0 <= i < times@.len() && r@ == #[trigger] times@[i]@,
        forall|i: int| 0 <= i < times@.len() ==> !text_lt(r@, #[trigger] times@[i]@),
{
    if times.len() == 0 {
        return String::new();
    }
    let mut best: usize = 0;
    let mut i: usize = 1;
    proof {
        lemma_text_lt_irreflexive(times@[0]@);
    }
    while i < times.len()
        invariant
            0 <= best < i <= times.len(),
            forall|j: int| 0 <= j < i ==> !text_lt(times@[best as int]@, #[trigger] times@[j]@),
        decreases times.len() - i,
    {
        if text_before(times[best].as_str(), times[i].as_str()) {
            proof {
                assert forall|j: int| 0 <= j < i + 1 implies !text_lt(times@[i as int]@, #[trigger] times@[j]@) by {
                    if j < i {
                        let (tj, tb, ti) = (times@[j]@, times@[best as int]@, times@[i as int]@);
                        lemma_text_lt_total(tj, tb);
                        if text_lt(tj, tb) {
                            lemma_text_lt_transitive(tj, tb, ti);
                        }
                        lemma_text_lt_asymmetric(tj, ti);
                    } else {
                        lemma_text_lt_irreflexive(times@[i as int]@);
                    }
                }
            }
            best = i;
        }
        i = i + 1;
    }
    let r = times[best].clone();
    assert(r@ == times@[best as int]@);
    r
}

pub proof fn lemma_text_lt_irreflexive(a: Seq<char>)
    ensures
        !text_lt(a, a),
    decreases a.len(),
{
    if a.len() > 0 {
        lemma_text_lt_irreflexive(a.drop_first());
    }
}

pub proof fn lemma_text_lt_asymmetric(a: Seq<char>, b: Seq<char>)
    requires
        text_lt(a, b),
    ensures
        !text_lt(b, a),
    decreases a.len(),
{
    if a.len() > 0 && b.len() > 0 && a[0] == b[0] {
        lemma_text_lt_asymmetric(a.drop_first(), b.drop_first());
    }
}

pub proof fn lemma_text_lt_transitive(a: Seq<char>, b: Seq<char>, c: Seq<char>)
    requires
        text_lt(a, b),
        text_lt(b, c),
    ensures
        text_lt(a, c),
    decreases a.len(),
{
    if a.len() > 0 && b.len() > 0 && c.len() > 0 && a[0] == b[0] && b[0] == c[0] {
        lemma_text_lt_transitive(a.drop_first(), b.drop_first(), c.drop_first());
    }
}

pub proof fn lemma_text_lt_total(a: Seq<char>, b: Seq<char>)
    ensures
        text_lt(a, b) || text_lt(b, a) || a == b,
    decreases a.len(),
{
    if a.len() > 0 && b.len() > 0 && a[0] == b[0] {
        lemma_text_lt_total(a.drop_first(), b.drop_first());
        if a.drop_first() == b.drop_first() {
            assert(a =~= seq![a[0]] + a.drop_first());
            assert(b =~= seq![b[0]] + b.drop_first());
        }
    } else if a.len() > 0 && b.len() > 0 {
        vstd::utf8::char_u32_cast(a[0], a[0] as u32);
        vstd::utf8::char_u32_cast(b[0], b[0] as u32);
        assert((a[0] as u32) != (b[0] as u32));
    } else if a.len() == 0 && b.len() == 0 {
        assert(a =~= b);
    }
}

} // verus!
