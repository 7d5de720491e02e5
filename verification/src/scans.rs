//! What holds of scans: of one, and of two that follow one another.
use vstd::prelude::*;
use crate::detect::{
    History, Sighting, changed_count, changes_in_scan, history_after, history_after_scan,
    is_change, lemma_one_more_item, lemma_one_more_sighting, sighting, sightings,
};
use crate::entry::FileSeen;

verus! {

/// Whether the item has a sighting of the path `path`.
pub open spec fn sights(
    filetypes: Option<Seq<Seq<char>>>,
    item: Option<FileSeen>,
    path: Seq<char>,
) -> bool {
    sighting(filetypes, item) is Some && sighting(filetypes, item)->0.path == path
}

/// Whether two sightings, if they are of one path, are of one time.
pub open spec fn agree(one: Option<Sighting>, other: Option<Sighting>) -> bool {
    one is Some && other is Some && one->0.path == other->0.path ==> one->0.modified
        == other->0.modified
}

/// Whether no path is seen at two different times in the walk, as in a walk
/// of a directory in which every file is met once.
pub open spec fn steady(filetypes: Option<Seq<Seq<char>>>, walk: Seq<Option<FileSeen>>) -> bool {
    forall|i: int, j: int|
        #![trigger walk[i], walk[j]]
        0 <= i < walk.len() && 0 <= j < walk.len() ==> agree(
            sighting(filetypes, walk[i]),
            sighting(filetypes, walk[j]),
        )
}

/// An item of a walk that has a sighting is among the sightings of the walk.
proof fn lemma_item_is_sighted(
    filetypes: Option<Seq<Seq<char>>>,
    walk: Seq<Option<FileSeen>>,
    index: int,
)
    requires
        0 <= index < walk.len(),
        sighting(filetypes, walk[index]) is Some,
    ensures
        sightings(filetypes, walk).contains(sighting(filetypes, walk[index])->0),
    decreases walk.len(),
{
    let seen = sightings(filetypes, walk);
    let earlier = sightings(filetypes, walk.drop_last());
    if index == walk.len() - 1 {
        assert(seen[seen.len() - 1] == sighting(filetypes, walk[index])->0);
    } else {
        lemma_item_is_sighted(filetypes, walk.drop_last(), index);
        let at = choose|k: int|
            0 <= k < earlier.len() && earlier[k] == sighting(filetypes, walk[index])->0;
        assert(seen[at] == earlier[at]);
    }
}

/// Each of the sightings of a walk is that of an item of the walk.
proof fn lemma_sighting_has_item(
    filetypes: Option<Seq<Seq<char>>>,
    walk: Seq<Option<FileSeen>>,
    at: int,
)
    requires
        0 <= at < sightings(filetypes, walk).len(),
    ensures
        exists|index: int|
            0 <= index < walk.len() && #[trigger] sighting(filetypes, walk[index]) == Some(
                sightings(filetypes, walk)[at],
            ),
    decreases walk.len(),
{
    if at < sightings(filetypes, walk.drop_last()).len() {
        lemma_sighting_has_item(filetypes, walk.drop_last(), at);
    }
}

/// Sightings that count no change are each known to the history, with
/// their time, and leave it as it was.
proof fn lemma_no_change_no_trace(history: History, seen: Seq<Sighting>)
    requires
        changed_count(history, seen) == 0,
    ensures
        history_after(history, seen) == history,
        forall|k: int| 0 <= k < seen.len() ==> !is_change(history, #[trigger] seen[k]),
    decreases seen.len(),
{
    if seen.len() > 0 {
        let earlier = seen.drop_last();
        lemma_no_change_no_trace(history, earlier);
        assert forall|k: int| 0 <= k < seen.len() implies !is_change(
            history,
            #[trigger] seen[k],
        ) by {
            if k < seen.len() - 1 {
                assert(earlier[k] == seen[k]);
            }
        }
    }
}

/// Sightings that are each known to the history, with their time, count no
/// change and leave the history as it was.
proof fn lemma_known_sightings_are_quiet(history: History, seen: Seq<Sighting>)
    requires
        forall|k: int| 0 <= k < seen.len() ==> !is_change(history, #[trigger] seen[k]),
    ensures
        changed_count(history, seen) == 0,
        history_after(history, seen) == history,
    decreases seen.len(),
{
    if seen.len() > 0 {
        lemma_known_sightings_are_quiet(history, seen.drop_last());
    }
}

/// After a scan the history holds, for the path of a sighting that no later
/// one of the same path follows in the walk, the time of that sighting.
pub proof fn lemma_last_sighting_stays(
    filetypes: Option<Seq<Seq<char>>>,
    history: History,
    walk: Seq<Option<FileSeen>>,
    index: int,
)
    requires
        0 <= index < walk.len(),
        sighting(filetypes, walk[index]) is Some,
        forall|k: int|
            index < k < walk.len() ==> !sights(
                filetypes,
                #[trigger] walk[k],
                sighting(filetypes, walk[index])->0.path,
            ),
    ensures
        history_after_scan(filetypes, history, walk).contains_key(
            sighting(filetypes, walk[index])->0.path,
        ),
        history_after_scan(filetypes, history, walk)[sighting(filetypes, walk[index])->0.path]
            == sighting(filetypes, walk[index])->0.modified,
    decreases walk.len(),
{
    let earlier = walk.drop_last();
    if let Some(last) = sighting(filetypes, walk.last()) {
        lemma_one_more_sighting(history, sightings(filetypes, earlier), last);
    }
    if index < walk.len() - 1 {
        lemma_last_sighting_stays(filetypes, history, earlier, index);
    }
}

/// A scan that has no sighting of `path` leaves what the history holds for
/// it.
pub proof fn lemma_other_paths_untouched(
    filetypes: Option<Seq<Seq<char>>>,
    history: History,
    walk: Seq<Option<FileSeen>>,
    path: Seq<char>,
)
    requires
        forall|k: int| 0 <= k < walk.len() ==> !sights(filetypes, #[trigger] walk[k], path),
    ensures
        history_after_scan(filetypes, history, walk).contains_key(path) == history.contains_key(
            path,
        ),
        history.contains_key(path) ==> history_after_scan(filetypes, history, walk)[path]
            == history[path],
    decreases walk.len(),
{
    if walk.len() > 0 {
        let earlier = walk.drop_last();
        if let Some(last) = sighting(filetypes, walk.last()) {
            lemma_one_more_sighting(history, sightings(filetypes, earlier), last);
        }
        lemma_other_paths_untouched(filetypes, history, earlier, path);
    }
}

/// A sighting of a path that the history does not know makes the count
/// positive.
proof fn lemma_new_path_counts(history: History, seen: Seq<Sighting>, index: int)
    requires
        0 <= index < seen.len(),
        !history.contains_key(seen[index].path),
    ensures
        changed_count(history, seen) > 0,
    decreases seen.len(),
{
    let earlier = seen.drop_last();
    if index < seen.len() - 1 {
        lemma_new_path_counts(history, earlier, index);
    } else if changed_count(history, earlier) == 0 {
        lemma_no_change_no_trace(history, earlier);
    }
}

/// An item without a sighting can be left out of the walk: the sightings
/// are the same without it.
proof fn lemma_unsighted_item_adds_nothing(
    filetypes: Option<Seq<Seq<char>>>,
    walk: Seq<Option<FileSeen>>,
    index: int,
)
    requires
        0 <= index < walk.len(),
        sighting(filetypes, walk[index]) is None,
    ensures
        sightings(filetypes, walk) == sightings(filetypes, walk.remove(index)),
    decreases walk.len(),
{
    if index < walk.len() - 1 {
        lemma_unsighted_item_adds_nothing(filetypes, walk.drop_last(), index);
        assert(walk.remove(index).drop_last() == walk.drop_last().remove(index));
    }
}

/// The history only grows: a scan drops no path that the history knows.
pub proof fn lemma_history_only_grows(
    filetypes: Option<Seq<Seq<char>>>,
    history: History,
    walk: Seq<Option<FileSeen>>,
    path: Seq<char>,
)
    requires
        history.contains_key(path),
    ensures
        history_after_scan(filetypes, history, walk).contains_key(path),
    decreases walk.len(),
{
    if walk.len() > 0 {
        lemma_history_only_grows(filetypes, history, walk.drop_last(), path);
        if let Some(last) = sighting(filetypes, walk.last()) {
            lemma_one_more_sighting(history, sightings(filetypes, walk.drop_last()), last);
        }
    }
}

/// First sight: a scan of a walk that holds a watched file with a readable
/// modification time, of which the history knows nothing, counts a change.
pub proof fn lemma_first_sight_is_update(
    filetypes: Option<Seq<Seq<char>>>,
    history: History,
    walk: Seq<Option<FileSeen>>,
    index: int,
)
    requires
        0 <= index < walk.len(),
        sighting(filetypes, walk[index]) is Some,
        !history.contains_key(sighting(filetypes, walk[index])->0.path),
    ensures
        changes_in_scan(filetypes, history, walk) > 0,
{
    let seen = sightings(filetypes, walk);
    lemma_item_is_sighted(filetypes, walk, index);
    let at = choose|k: int| 0 <= k < seen.len() && seen[k] == sighting(filetypes, walk[index])->0;
    lemma_new_path_counts(history, seen, at);
}

/// A scan of the first `upto` items of a walk counts no more than a scan of
/// all of it.
pub proof fn lemma_scan_count_grows(
    filetypes: Option<Seq<Seq<char>>>,
    history: History,
    walk: Seq<Option<FileSeen>>,
    upto: int,
)
    requires
        0 <= upto <= walk.len(),
    ensures
        changes_in_scan(filetypes, history, walk.take(upto)) <= changes_in_scan(
            filetypes,
            history,
            walk,
        ),
    decreases walk.len(),
{
    if upto == walk.len() {
        assert(walk.take(upto) == walk);
    } else {
        let earlier = walk.drop_last();
        assert(earlier.take(upto) == walk.take(upto));
        lemma_scan_count_grows(filetypes, history, earlier, upto);
        if let Some(last) = sighting(filetypes, walk.last()) {
            lemma_one_more_sighting(history, sightings(filetypes, earlier), last);
        }
    }
}

/// An unchanged file adds nothing to the count. `first` and `second` are
/// the walks of two scans that follow one another. The file is seen at `i`
/// in the first and at `j` in the second, with the same time, and not in
/// between: then the second scan counts as much up to and with the file as
/// it does up to the file.
pub proof fn lemma_same_time_not_counted(
    filetypes: Option<Seq<Seq<char>>>,
    history: History,
    first: Seq<Option<FileSeen>>,
    second: Seq<Option<FileSeen>>,
    i: int,
    j: int,
)
    requires
        0 <= i < first.len(),
        0 <= j < second.len(),
        sighting(filetypes, first[i]) is Some,
        sighting(filetypes, second[j]) == sighting(filetypes, first[i]),
        forall|k: int|
            i < k < first.len() ==> !sights(
                filetypes,
                #[trigger] first[k],
                sighting(filetypes, first[i])->0.path,
            ),
        forall|k: int|
            0 <= k < j ==> !sights(
                filetypes,
                #[trigger] second[k],
                sighting(filetypes, first[i])->0.path,
            ),
    ensures
        changes_in_scan(
            filetypes,
            history_after_scan(filetypes, history, first),
            second.take(j + 1),
        ) == changes_in_scan(
            filetypes,
            history_after_scan(filetypes, history, first),
            second.take(j),
        ),
{
    let seen = sighting(filetypes, first[i])->0;
    let known = history_after_scan(filetypes, history, first);
    lemma_last_sighting_stays(filetypes, history, first, i);
    lemma_other_paths_untouched(filetypes, known, second.take(j), seen.path);
    lemma_one_more_item(filetypes, second, j);
    lemma_one_more_sighting(known, sightings(filetypes, second.take(j)), seen);
}

/// A file with another time is counted, be the time later or earlier.
/// `first` and `second` are the walks of two scans that follow one another.
/// The file is seen at `i` in the first and at `j` in the second, with
/// different times, and not in between: then the second scan counts one
/// more up to and with the file than it does up to the file, and reports a
/// change.
pub proof fn lemma_other_time_counted(
    filetypes: Option<Seq<Seq<char>>>,
    history: History,
    first: Seq<Option<FileSeen>>,
    second: Seq<Option<FileSeen>>,
    i: int,
    j: int,
)
    requires
        0 <= i < first.len(),
        0 <= j < second.len(),
        sighting(filetypes, first[i]) is Some,
        sights(filetypes, second[j], sighting(filetypes, first[i])->0.path),
        sighting(filetypes, second[j])->0.modified != sighting(filetypes, first[i])->0.modified,
        forall|k: int|
            i < k < first.len() ==> !sights(
                filetypes,
                #[trigger] first[k],
                sighting(filetypes, first[i])->0.path,
            ),
        forall|k: int|
            0 <= k < j ==> !sights(
                filetypes,
                #[trigger] second[k],
                sighting(filetypes, first[i])->0.path,
            ),
    ensures
        changes_in_scan(
            filetypes,
            history_after_scan(filetypes, history, first),
            second.take(j + 1),
        ) == changes_in_scan(
            filetypes,
            history_after_scan(filetypes, history, first),
            second.take(j),
        ) + 1,
        changes_in_scan(filetypes, history_after_scan(filetypes, history, first), second) > 0,
{
    let seen = sighting(filetypes, second[j])->0;
    let known = history_after_scan(filetypes, history, first);
    lemma_last_sighting_stays(filetypes, history, first, i);
    lemma_other_paths_untouched(filetypes, known, second.take(j), seen.path);
    lemma_one_more_item(filetypes, second, j);
    lemma_one_more_sighting(known, sightings(filetypes, second.take(j)), seen);
    lemma_scan_count_grows(filetypes, known, second, j + 1);
}

/// The extension filter: a file whose extension the configured list does
/// not name has no sighting, whatever its modification time and whatever
/// the history, and the scan goes as if the walk had not come by it: it
/// counts the same and leaves the same history.
pub proof fn lemma_unlisted_extension_not_counted(
    list: Seq<Seq<char>>,
    history: History,
    walk: Seq<Option<FileSeen>>,
    index: int,
)
    requires
        0 <= index < walk.len(),
        walk[index] is Some,
        !list.contains(walk[index]->0.extension),
    ensures
        sighting(Some(list), walk[index]) is None,
        changes_in_scan(Some(list), history, walk) == changes_in_scan(
            Some(list),
            history,
            walk.remove(index),
        ),
        history_after_scan(Some(list), history, walk) == history_after_scan(
            Some(list),
            history,
            walk.remove(index),
        ),
{
    lemma_unsighted_item_adds_nothing(Some(list), walk, index);
}

/// Whether two items of a walk differ in the extension at most.
pub open spec fn same_but_extension(item: Option<FileSeen>, other: Option<FileSeen>) -> bool {
    match (item, other) {
        (Some(a), Some(b)) => a.path == b.path && a.modified == b.modified,
        (None, None) => true,
        _ => false,
    }
}

/// Without a configured list the extension plays no part: two walks whose
/// items differ in their extensions at most have the same sightings, so
/// that a scan of the one counts and leaves what a scan of the other does.
pub proof fn lemma_no_list_ignores_extension(
    history: History,
    walk: Seq<Option<FileSeen>>,
    other: Seq<Option<FileSeen>>,
)
    requires
        walk.len() == other.len(),
        forall|k: int| 0 <= k < walk.len() ==> same_but_extension(#[trigger] walk[k], other[k]),
    ensures
        sightings(None, walk) == sightings(None, other),
        changes_in_scan(None, history, walk) == changes_in_scan(None, history, other),
        history_after_scan(None, history, walk) == history_after_scan(None, history, other),
    decreases walk.len(),
{
    if walk.len() > 0 {
        lemma_no_list_ignores_extension(history, walk.drop_last(), other.drop_last());
    }
}

/// After a scan of a steady walk the history holds, for the path of each
/// sighting, the time of that sighting.
proof fn lemma_time_of_steady_path(
    filetypes: Option<Seq<Seq<char>>>,
    history: History,
    walk: Seq<Option<FileSeen>>,
    index: int,
)
    requires
        steady(filetypes, walk),
        0 <= index < walk.len(),
        sighting(filetypes, walk[index]) is Some,
    ensures
        !is_change(
            history_after_scan(filetypes, history, walk),
            sighting(filetypes, walk[index])->0,
        ),
    decreases walk.len(),
{
    let earlier = walk.drop_last();
    if let Some(last) = sighting(filetypes, walk.last()) {
        lemma_one_more_sighting(history, sightings(filetypes, earlier), last);
    }
    if index < walk.len() - 1 {
        lemma_time_of_steady_path(filetypes, history, earlier, index);
    }
}

/// A second scan is quiet: a scan of the walk that the scan before it had
/// counts no change, if and only if the walk is steady. It then leaves the
/// history as the first scan left it.
pub proof fn lemma_second_scan_is_quiet(
    filetypes: Option<Seq<Seq<char>>>,
    history: History,
    walk: Seq<Option<FileSeen>>,
)
    ensures
        steady(filetypes, walk) <==> changes_in_scan(
            filetypes,
            history_after_scan(filetypes, history, walk),
            walk,
        ) == 0,
        steady(filetypes, walk) ==> history_after_scan(
            filetypes,
            history_after_scan(filetypes, history, walk),
            walk,
        ) == history_after_scan(filetypes, history, walk),
{
    let seen = sightings(filetypes, walk);
    let known = history_after_scan(filetypes, history, walk);
    if steady(filetypes, walk) {
        assert forall|k: int| 0 <= k < seen.len() implies !is_change(known, #[trigger] seen[k]) by {
            lemma_sighting_has_item(filetypes, walk, k);
            let i = choose|i: int|
                0 <= i < walk.len() && #[trigger] sighting(filetypes, walk[i]) == Some(seen[k]);
            lemma_time_of_steady_path(filetypes, history, walk, i);
        }
        lemma_known_sightings_are_quiet(known, seen);
    }
    if changed_count(known, seen) == 0 {
        lemma_no_change_no_trace(known, seen);
        assert forall|i: int, j: int|
            #![trigger walk[i], walk[j]]
            0 <= i < walk.len() && 0 <= j < walk.len() implies agree(
            sighting(filetypes, walk[i]),
            sighting(filetypes, walk[j]),
        ) by {
            if sighting(filetypes, walk[i]) is Some && sighting(filetypes, walk[j]) is Some {
                lemma_item_is_sighted(filetypes, walk, i);
                lemma_item_is_sighted(filetypes, walk, j);
            }
        }
    }
}

} // verus!
