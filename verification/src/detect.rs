//! Change detection: which files of a walk are watched, what a walk does to
//! the history of modification times, and how many changes it counts.
use vstd::prelude::*;
use crate::entry::{FileEntry, FileSeen};

verus! {

/// The modification times last seen, by path.
pub type History = Map<Seq<char>, i128>;

/// A watched file whose modification time a walk has read.
pub struct Sighting {
    pub path: Seq<char>,
    pub modified: i128,
}

/// Whether files with the extension `extension` are watched: all are where
/// no list is configured, else those whose extension the list names, letter
/// for letter.
pub open spec fn watches(filetypes: Option<Seq<Seq<char>>>, extension: Seq<char>) -> bool {
    match filetypes {
        None => true,
        Some(list) => list.contains(extension),
    }
}

/// What one item of a walk adds to the scan: nothing if the walk failed on
/// it, if its extension is not watched, or if its modification time could
/// not be read.
pub open spec fn sighting(filetypes: Option<Seq<Seq<char>>>, item: Option<FileSeen>) -> Option<
    Sighting,
> {
    match item {
        Some(file) => if watches(filetypes, file.extension) && file.modified is Some {
            Some(Sighting { path: file.path, modified: file.modified->0 })
        } else {
            None
        },
        None => None,
    }
}

/// The sightings of a walk, in the order of the walk.
pub open spec fn sightings(filetypes: Option<Seq<Seq<char>>>, walk: Seq<Option<FileSeen>>) -> Seq<
    Sighting,
>
    decreases walk.len(),
{
    if walk.len() == 0 {
        Seq::empty()
    } else {
        let before = sightings(filetypes, walk.drop_last());
        match sighting(filetypes, walk.last()) {
            Some(seen) => before.push(seen),
            None => before,
        }
    }
}

/// Whether a sighting is a change against `history`: the path is new to it,
/// or it holds another time for the path, be it earlier or later.
pub open spec fn is_change(history: History, seen: Sighting) -> bool {
    !history.contains_key(seen.path) || history[seen.path] != seen.modified
}

/// The history after the sightings `seen`: each overwrites what was known of
/// its path, and nothing is ever dropped.
pub open spec fn history_after(history: History, seen: Seq<Sighting>) -> History
    decreases seen.len(),
{
    if seen.len() == 0 {
        history
    } else {
        history_after(history, seen.drop_last()).insert(seen.last().path, seen.last().modified)
    }
}

/// The number of sightings in `seen` that count as a change.
pub open spec fn changed_count(history: History, seen: Seq<Sighting>) -> nat
    decreases seen.len(),
{
    if seen.len() == 0 {
        0
    } else {
        let earlier = changed_count(history, seen.drop_last());
        if is_change(history_after(history, seen.drop_last()), seen.last()) {
            earlier + 1
        } else {
            earlier
        }
    }
}

/// The history after a scan of `walk`: it has taken in the sightings of
/// the walk.
pub open spec fn history_after_scan(
    filetypes: Option<Seq<Seq<char>>>,
    history: History,
    walk: Seq<Option<FileSeen>>,
) -> History {
    history_after(history, sightings(filetypes, walk))
}

/// The number of changes that a scan of `walk` counts.
pub open spec fn changes_in_scan(
    filetypes: Option<Seq<Seq<char>>>,
    history: History,
    walk: Seq<Option<FileSeen>>,
) -> nat {
    changed_count(history, sightings(filetypes, walk))
}

/// One more sighting: it overwrites the time of its path, and adds one to
/// the count if it is a change against the history before it.
pub proof fn lemma_one_more_sighting(history: History, seen: Seq<Sighting>, next: Sighting)
    ensures
        history_after(history, seen.push(next)) == history_after(history, seen).insert(
            next.path,
            next.modified,
        ),
        changed_count(history, seen.push(next)) == changed_count(history, seen) + (if is_change(
            history_after(history, seen),
            next,
        ) {
            1nat
        } else {
            0nat
        }),
{
    assert(seen.push(next).drop_last() == seen);
}

/// One more item of a walk: the sightings grow by its sighting, if it has one.
pub proof fn lemma_one_more_item(
    filetypes: Option<Seq<Seq<char>>>,
    walk: Seq<Option<FileSeen>>,
    index: int,
)
    requires
        0 <= index < walk.len(),
    ensures
        sightings(filetypes, walk.take(index + 1)) == match sighting(filetypes, walk[index]) {
            Some(seen) => sightings(filetypes, walk.take(index)).push(seen),
            None => sightings(filetypes, walk.take(index)),
        },
{
    assert(walk.take(index + 1).drop_last() == walk.take(index));
}

/// Tells whether `list` names `wanted`, letter for letter.
fn names(list: &Vec<String>, wanted: &String) -> (found: bool)
    ensures
        found == list.deep_view().contains(wanted@),
{
    let mut index: usize = 0;
    while index < list.len()
        invariant
            index <= list.len(),
            forall|k: int| 0 <= k < index ==> list.deep_view()[k] != wanted@,
        decreases list.len() - index,
    {
        if list[index] == *wanted {
            assert(list.deep_view()[index as int] == wanted@);
            return true;
        }
        index += 1;
    }
    false
}

/// Tells whether files with the extension `extension` are watched.
pub fn is_watched(filetypes: &Option<Vec<String>>, extension: &String) -> (watched: bool)
    ensures
        watched == watches(filetypes.deep_view(), extension@),
{
    match filetypes {
        None => true,
        Some(list) => names(list, extension),
    }
}

} // verus!
