//! Identities of download jobs. A key is its parts joined by a separator;
//! two jobs are the same job exactly when their keys are equal strings.
use vstd::prelude::*;
use crate::text::{append_str, string_from_chars};

verus! {

/// `a`, `sep`, `b` joined.
pub open spec fn joined2(a: Seq<char>, sep: char, b: Seq<char>) -> Seq<char> {
    a + seq![sep] + b
}

/// Key of an image chapter in the pause registry: `media|group|chapter`.
pub open spec fn chapter_key_of(manga: Seq<char>, group: Seq<char>, chapter: Seq<char>) -> Seq<char> {
    manga + seq!['|'] + group + seq!['|'] + chapter
}

/// Key of a video episode in the progress table: `media_episode`.
pub open spec fn progress_key_of(cartoon: Seq<char>, chapter: Seq<char>) -> Seq<char> {
    joined2(cartoon, '_', chapter)
}

/// Key of a video episode in the task registry: `media|episode`.
pub open spec fn task_key_of(cartoon: Seq<char>, chapter: Seq<char>) -> Seq<char> {
    joined2(cartoon, '|', chapter)
}

fn join2(a: &str, sep: char, b: &str) -> (r: String)
    ensures
        r@ == joined2(a@, sep, b@),
{
    let mut out: Vec<char> = Vec::new();
    append_str(&mut out, a);
    out.push(sep);
    append_str(&mut out, b);
    assert(out@ =~= joined2(a@, sep, b@));
    string_from_chars(out.as_slice())
}

pub fn chapter_key(manga_uuid: &str, group_path_word: &str, chapter_uuid: &str) -> (r: String)
    ensures
        r@ == chapter_key_of(manga_uuid@, group_path_word@, chapter_uuid@),
{
    let mut out: Vec<char> = Vec::new();
    append_str(&mut out, manga_uuid);
    out.push('|');
    append_str(&mut out, group_path_word);
    out.push('|');
    append_str(&mut out, chapter_uuid);
    assert(out@ =~= chapter_key_of(manga_uuid@, group_path_word@, chapter_uuid@));
    string_from_chars(out.as_slice())
}

pub fn progress_key(cartoon_uuid: &str, chapter_uuid: &str) -> (r: String)
    ensures
        r@ == progress_key_of(cartoon_uuid@, chapter_uuid@),
{
    join2(cartoon_uuid, '_', chapter_uuid)
}

pub fn task_key(cartoon_uuid: &str, chapter_uuid: &str) -> (r: String)
    ensures
        r@ == task_key_of(cartoon_uuid@, chapter_uuid@),
{
    join2(cartoon_uuid, '|', chapter_uuid)
}

} // verus!
