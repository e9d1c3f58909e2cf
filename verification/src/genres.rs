//! Genre tags that an artist record can carry.
//!
//! The registry treats a genre as an opaque tag: the only operation it
//! needs is equality, used for the no-duplicates invariant on a record's
//! genre list.

use vstd::prelude::*;

verus! {

/// Subtypes of electronic music.
#[derive(Clone, Copy, PartialEq, Eq, Structural, Debug)]
pub enum ElectronicSubtype {
    House,
    Ambient,
    Techno,
    Trance,
    DrumNBass,
}

/// Subtypes of classical music.
#[derive(Clone, Copy, PartialEq, Eq, Structural, Debug)]
pub enum ClassicalSubtype {
    Symphony,
    Opera,
    Chamber,
}

/// A genre tag, optionally refined by a subtype.
#[derive(Clone, Copy, PartialEq, Eq, Structural, Debug)]
pub enum MusicGenre {
    Electronic(Option<ElectronicSubtype>),
    Classical(Option<ClassicalSubtype>),
}

/// Holds when some genre appears at two different positions of `genres`.
pub open spec fn has_duplicate_genre(genres: Seq<MusicGenre>) -> bool {
    exists|i: int, j: int| 0 <= i < j < genres.len() && genres[i] == genres[j]
}

/// Scans `genres` for a tag that appears more than once.
pub fn genres_have_duplicate(genres: &Vec<MusicGenre>) -> (dup: bool)
    ensures
        dup == has_duplicate_genre(genres@),
{
    let n = genres.len();
    for i in 0..n
        invariant
            n == genres@.len(),
            forall|p: int, q: int| 0 <= p < q < genres@.len() && p < i ==> genres@[p] != genres@[q],
    {
        for j in (i + 1)..n
            invariant
                n == genres@.len(),
                i < n,
                forall|p: int, q: int| 0 <= p < q < genres@.len() && p < i ==> genres@[p] != genres@[q],
                forall|q: int| i < q < j ==> genres@[i as int] != genres@[q],
        {
            if genres[i] == genres[j] {
                return true;
            }
        }
    }
    false
}

/// Appending a tag introduces a duplicate exactly when the list already
/// has one or already contains the tag.
pub proof fn lemma_duplicate_after_push(genres: Seq<MusicGenre>, genre: MusicGenre)
    ensures
        has_duplicate_genre(genres.push(genre)) <==> (has_duplicate_genre(genres)
            || genres.contains(genre)),
{
    let pushed = genres.push(genre);
    if has_duplicate_genre(genres) {
        let (i, j) = choose|i: int, j: int|
            0 <= i < j < genres.len() && genres[i] == genres[j];
        assert(pushed[i] == pushed[j]);
    }
    if genres.contains(genre) {
        let i = choose|i: int| 0 <= i < genres.len() && genres[i] == genre;
        assert(pushed[i] == pushed[genres.len() as int]);
    }
    if has_duplicate_genre(pushed) && !has_duplicate_genre(genres) {
        let (i, j) = choose|i: int, j: int|
            0 <= i < j < pushed.len() && pushed[i] == pushed[j];
        if j < genres.len() {
            assert(genres[i] == genres[j]);
        } else {
            assert(genres[i] == genre);
        }
    }
}

/// Scans `genres` for an element equal to `genre`.
pub fn genres_contain(genres: &Vec<MusicGenre>, genre: MusicGenre) -> (found: bool)
    ensures
        found == genres@.contains(genre),
{
    let n = genres.len();
    for i in 0..n
        invariant
            n == genres@.len(),
            forall|p: int| 0 <= p < i ==> genres@[p] != genre,
    {
        if genres[i] == genre {
            assert(genres@.contains(genre));
            return true;
        }
    }
    false
}

} // verus!
