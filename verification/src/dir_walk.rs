//! The walk over a directory tree, breadth first. The caller reads the
//! directories; the walk decides what is listed and what is read next.

use crate::error::{responds, FunctionCallError};
use crate::list_dir::{
    entry_name, entry_views, format_entry_component, format_entry_name, kind_of, DirEntry,
    DirEntryKind, EntryView, FileMetadata, MAX_ENTRY_LENGTH,
};
use crate::order::text_le;
use crate::paths::{
    component_count, components, counts_to, is_plain_name, join_path, joined, joins_to,
    law_join_adds_component,
};
use crate::sort::{
    is_sorting_of, law_sorting_is_determined, law_sorting_is_in_rank_order, ranks_by, sort_ranked,
    Ranked,
};
use crate::text::{clipped, law_clipped_is_longest};
use std::collections::VecDeque;
use vstd::multiset::Multiset;
use vstd::prelude::*;
use vstd::utf8::encode_utf8;

verus! {

/// A directory that is still to be read.
pub struct PendingDir {
    pub path: String,
    /// Its path below the listed directory.
    pub prefix: String,
    /// How many levels are listed from here on, this directory's own included.
    pub remaining_depth: usize,
}

/// A name in a directory, about which the read policy is to be asked.
pub struct EntryVisit<'a> {
    pub dir: &'a PendingDir,
    pub file_name: &'a str,
    pub path: String,
}

/// A name in a directory that may be read and is to be looked at.
pub struct EntryInspection<'a> {
    pub dir: &'a PendingDir,
    pub file_name: &'a str,
    pub path: String,
}

/// A name that is listed, with its path.
pub struct FoundEntry {
    pub path: String,
    pub relative_path: String,
    pub entry: DirEntry,
}

impl Ranked for FoundEntry {
    open spec fn ranks_before(&self, other: &FoundEntry) -> bool {
        self.entry.ranks_before(&other.entry)
    }

    proof fn rank_total(a: &FoundEntry, b: &FoundEntry) {
        DirEntry::rank_total(&a.entry, &b.entry);
    }

    proof fn rank_transitive(a: &FoundEntry, b: &FoundEntry, c: &FoundEntry) {
        DirEntry::rank_transitive(&a.entry, &b.entry, &c.entry);
    }

    fn may_precede(&self, other: &FoundEntry) -> (yes: bool) {
        self.entry.may_precede(&other.entry)
    }
}

/// `made` is the path below the listed directory of `file_name` in `dir`: the name
/// itself at the top, else what `join` makes of it.
pub open spec fn is_relative_path<J: Fn(&str, &str) -> String>(
    dir: PendingDir,
    file_name: Seq<char>,
    join: J,
    made: String,
) -> bool {
    if dir.prefix@.len() == 0 {
        made@ == file_name
    } else {
        joins_to(join, dir.prefix@, file_name, made)
    }
}

/// The entry that `file_name` in `dir` is listed as. `join` is the host's way of
/// joining paths, and `counter` counts the components of one.
pub open spec fn lists_as<J: Fn(&str, &str) -> String, C: Fn(&str) -> usize>(
    dir: PendingDir,
    file_name: Seq<char>,
    metadata: FileMetadata,
    join: J,
    counter: C,
    found: FoundEntry,
) -> bool {
    &&& is_relative_path(dir, file_name, join, found.relative_path)
    &&& found.entry.name@ == entry_name(found.relative_path@)
    &&& found.entry.display_name@ == clipped(file_name, MAX_ENTRY_LENGTH as nat)
    &&& counts_to(counter, dir.prefix@, found.entry.depth)
    &&& found.entry.kind == kind_of(metadata)
}

impl PendingDir {
    /// Starts with one name in the directory. `join_absolute` joins a name to an
    /// absolute path.
    pub fn visit<'a, K: Fn(&str, &str) -> String>(
        &'a self,
        file_name: &'a str,
        join_absolute: &K,
    ) -> (visit: EntryVisit<'a>)
        requires
            forall|base: &str, path: &str| call_requires(*join_absolute, (base, path)),
        ensures
            visit.dir == self,
            visit.file_name@ == file_name@,
            joins_to(*join_absolute, self.path@, file_name@, visit.path),
    {
        let path = (*join_absolute)(self.path.as_str(), file_name);
        assert(joins_to(*join_absolute, self.path@, file_name@, path));
        EntryVisit { dir: self, file_name, path }
    }
}

/// `denied` is what `is_denied` says of the path.
pub open spec fn policy_says<D: FnOnce(&str) -> bool>(
    is_denied: D,
    path: Seq<char>,
    denied: bool,
) -> bool {
    exists|p: &str| p@ == path && #[trigger] call_ensures(is_denied, (p,), denied)
}

impl<'a> EntryVisit<'a> {
    /// Asks the read policy about the path: `is_denied` says whether a path may not be
    /// read. One that may not be is left out, and nothing more is asked about it.
    pub fn guarded<D: FnOnce(&str) -> bool>(self, is_denied: D) -> (next: Option<
        EntryInspection<'a>,
    >)
        requires
            forall|path: &str| call_requires(is_denied, (path,)),
        ensures
            match next {
                Some(inspection) => {
                    &&& policy_says(is_denied, self.path@, false)
                    &&& inspection.dir == self.dir
                    &&& inspection.file_name == self.file_name
                    &&& inspection.path == self.path
                },
                None => policy_says(is_denied, self.path@, true),
            },
    {
        let denied = is_denied(self.path.as_str());
        assert(policy_says(is_denied, self.path@, denied));
        if denied {
            None
        } else {
            Some(
                EntryInspection { dir: self.dir, file_name: self.file_name, path: self.path },
            )
        }
    }
}

impl<'a> EntryInspection<'a> {
    /// Takes what the file system says of the path, or why it says nothing, which
    /// ends the listing. `join` is the host's way of joining paths, and `counter`
    /// counts the components of one.
    pub fn inspected<J: Fn(&str, &str) -> String, C: Fn(&str) -> usize>(
        self,
        metadata: Result<FileMetadata, String>,
        join: &J,
        counter: &C,
    ) -> (found: Result<FoundEntry, FunctionCallError>)
        requires
            forall|base: &str, path: &str| call_requires(*join, (base, path)),
            forall|path: &str| call_requires(*counter, (path,)),
        ensures
            match (metadata, found) {
                (Ok(known), Ok(entry)) => entry.path == self.path && lists_as(
                    *self.dir,
                    self.file_name@,
                    known,
                    *join,
                    *counter,
                    entry,
                ),
                (Err(reason), Err(error)) => responds(
                    error,
                    "failed to inspect entry: "@ + reason@,
                ),
                _ => false,
            },
    {
        match metadata {
            Err(reason) => Err(
                FunctionCallError::RespondToModel(
                    "failed to inspect entry: ".to_owned().concat(reason.as_str()),
                ),
            ),
            Ok(known) => {
                let relative_path = if self.dir.prefix.as_str().is_empty() {
                    self.file_name.to_owned()
                } else {
                    (*join)(self.dir.prefix.as_str(), self.file_name)
                };
                assert(is_relative_path(*self.dir, self.file_name@, *join, relative_path)) by {
                    if self.dir.prefix@.len() > 0 {
                        assert(joins_to(*join, self.dir.prefix@, self.file_name@, relative_path));
                    }
                }
                let depth = (*counter)(self.dir.prefix.as_str());
                assert(counts_to(*counter, self.dir.prefix@, depth));
                let name = format_entry_name(relative_path.as_str());
                let entry = DirEntry {
                    name,
                    display_name: format_entry_component(self.file_name),
                    depth,
                    kind: DirEntryKind::from(&known),
                };
                Ok(FoundEntry { path: self.path, relative_path, entry })
            },
        }
    }
}

/// The error for a directory that could not be read.
pub fn read_directory_error(reason: &str) -> (error: FunctionCallError)
    ensures
        responds(error, "failed to read directory: "@ + reason@),
{
    FunctionCallError::RespondToModel("failed to read directory: ".to_owned().concat(reason))
}

/// The entries of what was found.
pub open spec fn found_entries(found: Seq<FoundEntry>) -> Seq<DirEntry> {
    found.map_values(|f: FoundEntry| f.entry)
}

/// The directories among what was found in a directory with `remaining_depth`
/// levels left, to be read in turn.
pub open spec fn subdirectories(found: Seq<FoundEntry>, remaining_depth: usize) -> Seq<PendingDir>
    decreases found.len(),
{
    if found.len() == 0 || remaining_depth <= 1 {
        Seq::empty()
    } else {
        let before = subdirectories(found.drop_last(), remaining_depth);
        let last = found.last();
        if last.entry.kind == DirEntryKind::Directory {
            before.push(
                PendingDir {
                    path: last.path,
                    prefix: last.relative_path,
                    remaining_depth: (remaining_depth - 1) as usize,
                },
            )
        } else {
            before
        }
    }
}

/// A walk: the directories still to be read, and the entries found so far.
pub struct DirWalk {
    pub queue: VecDeque<PendingDir>,
    pub entries: Vec<DirEntry>,
}

impl DirWalk {
    /// The walk that starts at the directory `root` and lists `depth` levels.
    pub fn new(root: String, depth: usize) -> (walk: DirWalk)
        ensures
            walk.entries@.len() == 0,
            walk.queue@.len() == 1,
            walk.queue@[0].path == root,
            walk.queue@[0].prefix@.len() == 0,
            walk.queue@[0].remaining_depth == depth,
    {
        let mut queue: VecDeque<PendingDir> = VecDeque::new();
        queue.push_back(PendingDir { path: root, prefix: String::new(), remaining_depth: depth });
        DirWalk { queue, entries: Vec::new() }
    }

    /// Takes the directory that is to be read next off the walk.
    pub fn next_dir(&mut self) -> (next: Option<PendingDir>)
        ensures
            final(self).entries == old(self).entries,
            match next {
                Some(dir) => old(self).queue@.len() > 0 && dir == old(self).queue@[0]
                    && final(self).queue@ == old(self).queue@.drop_first(),
                None => old(self).queue@.len() == 0 && final(self).queue@ == old(self).queue@,
            },
    {
        let next = self.queue.pop_front();
        assert(next is Some ==> self.queue@ =~= old(self).queue@.drop_first());
        next
    }

    /// Takes in what was found in the directory `dir`: lists it in the order of the
    /// names, and puts its directories on the walk where another level is to be
    /// listed.
    pub fn finish_dir(&mut self, dir: &PendingDir, found: Vec<FoundEntry>)
        ensures
            exists|sorted: Seq<FoundEntry>|
                {
                    &&& is_sorting_of(sorted, found@)
                    &&& final(self).entries@ == old(self).entries@ + #[trigger] found_entries(
                        sorted,
                    )
                    &&& final(self).queue@ == old(self).queue@ + subdirectories(
                        sorted,
                        dir.remaining_depth,
                    )
                },
    {
        let remaining_depth = dir.remaining_depth;
        let sorted = sort_ranked(found);
        let ghost all = sorted@;
        let ghost entries0 = self.entries@;
        let ghost queue0 = self.queue@;
        assert(entries0 + found_entries(all.take(0)) =~= entries0);
        assert(queue0 + subdirectories(all.take(0), remaining_depth) =~= queue0);
        for item in it: sorted
            invariant
                it.seq() == all,
                self.entries@ == entries0 + found_entries(all.take(it.index() as int)),
                self.queue@ == queue0 + subdirectories(
                    all.take(it.index() as int),
                    remaining_depth,
                ),
        {
            let ghost i = it.index() as int;
            proof {
                assert(all.take(i + 1).drop_last() =~= all.take(i));
                assert(item == all[i]);
            }
            let FoundEntry { path, relative_path, entry } = item;
            if matches!(entry.kind, DirEntryKind::Directory) && remaining_depth > 1 {
                self.queue.push_back(
                    PendingDir { path, prefix: relative_path, remaining_depth: remaining_depth - 1 },
                );
            }
            self.entries.push(entry);
            proof {
                assert(self.entries@ =~= entries0 + found_entries(all.take(i + 1)));
                assert(self.queue@ =~= queue0 + subdirectories(all.take(i + 1), remaining_depth));
            }
        }
        assert(all.take(all.len() as int) =~= all);
    }
}

/// Every directory on the walk lies as deep as levels were spent on it, and
/// every listed entry above the level that ends the walk. `counter` counts the
/// components of a path.
pub open spec fn within_depth<C: Fn(&str) -> usize>(
    queue: Seq<PendingDir>,
    entries: Seq<DirEntry>,
    counter: C,
    depth: nat,
) -> bool {
    &&& forall|i: int|
        #![trigger queue[i]]
        0 <= i < queue.len() ==> queue[i].remaining_depth >= 1 && lies_at(
            queue[i].prefix@,
            counter,
            depth - queue[i].remaining_depth,
        )
    &&& forall|i: int| #![trigger entries[i]] 0 <= i < entries.len() ==> entries[i].depth < depth
}

/// Whatever `counter` counts in the path, it is `level`.
pub open spec fn lies_at<C: Fn(&str) -> usize>(path: Seq<char>, counter: C, level: int) -> bool {
    forall|n: usize| #[trigger] counts_to(counter, path, n) ==> n == level
}

/// The entry was found in `dir`, and its name is one component to the host.
pub open spec fn found_in<J: Fn(&str, &str) -> String, C: Fn(&str) -> usize>(
    found: FoundEntry,
    dir: PendingDir,
    join: J,
    counter: C,
) -> bool {
    &&& exists|name: Seq<char>, metadata: FileMetadata| #[trigger]
        lists_as(dir, name, metadata, join, counter, found)
    &&& forall|n: usize| #[trigger]
        counts_to(counter, found.relative_path@, n) ==> n == found.entry.depth + 1
}

/// Each of the entries was found in `dir`, and its name is one component to the
/// host.
pub open spec fn all_found_in<J: Fn(&str, &str) -> String, C: Fn(&str) -> usize>(
    found: Seq<FoundEntry>,
    dir: PendingDir,
    join: J,
    counter: C,
) -> bool {
    forall|i: int|
        #![trigger found[i]]
        0 <= i < found.len() ==> found_in(found[i], dir, join, counter)
}

/// With `/` between components, a plain name is one component.
pub proof fn law_plain_names_are_one_component(
    dir: PendingDir,
    name: Seq<char>,
    metadata: FileMetadata,
    found: FoundEntry,
)
    requires
        is_plain_name(name),
        lists_as(dir, name, metadata, join_path, component_count, found),
    ensures
        found_in(found, dir, join_path, component_count),
{
    law_join_adds_component(dir.prefix@, name);
    if dir.prefix@.len() == 0 {
        assert(joined(dir.prefix@, name) =~= name) by {
            if name[0] == '/' {
                assert(name.contains('/'));
            }
        }
    }
    assert(found.relative_path@ == joined(dir.prefix@, name));
}

proof fn lemma_subdirectories_within<J: Fn(&str, &str) -> String, C: Fn(&str) -> usize>(
    found: Seq<FoundEntry>,
    dir: PendingDir,
    join: J,
    counter: C,
    depth: nat,
)
    requires
        all_found_in(found, dir, join, counter),
        dir.remaining_depth >= 1,
        lies_at(dir.prefix@, counter, depth - dir.remaining_depth),
    ensures
        within_depth(
            subdirectories(found, dir.remaining_depth),
            found_entries(found),
            counter,
            depth,
        ),
    decreases found.len(),
{
    if found.len() > 0 {
        let init = found.drop_last();
        assert(all_found_in(init, dir, join, counter)) by {
            assert forall|i: int| #![trigger init[i]] 0 <= i < init.len() implies found_in(
                init[i],
                dir,
                join,
                counter,
            ) by {
                assert(init[i] == found[i]);
            }
        }
        lemma_subdirectories_within(init, dir, join, counter, depth);
        let last = found[found.len() - 1];
        assert(found_in(last, dir, join, counter));
        let entries = found_entries(found);
        assert forall|i: int| #![trigger entries[i]] 0 <= i < entries.len() implies entries[i].depth
            < depth by {
            if i < init.len() {
                assert(entries[i] == found_entries(init)[i]);
            }
        }
    }
}

/// A walk that lists `depth` levels lists no entry deeper than that, whatever is
/// found in the directories it asks for: this holds of a new walk, and it stays
/// so when the first directory on the walk has been read.
pub proof fn law_walk_stays_within_depth<J: Fn(&str, &str) -> String, C: Fn(&str) -> usize>(
    queue: Seq<PendingDir>,
    entries: Seq<DirEntry>,
    sorted: Seq<FoundEntry>,
    join: J,
    counter: C,
    depth: nat,
)
    requires
        queue.len() > 0,
        within_depth(queue, entries, counter, depth),
        all_found_in(sorted, queue[0], join, counter),
    ensures
        within_depth(
            queue.drop_first() + subdirectories(sorted, queue[0].remaining_depth),
            entries + found_entries(sorted),
            counter,
            depth,
        ),
{
    lemma_subdirectories_within(sorted, queue[0], join, counter, depth);
    let rest = queue.drop_first();
    let added = subdirectories(sorted, queue[0].remaining_depth);
    let after = rest + added;
    assert forall|i: int| #![trigger after[i]] 0 <= i < after.len() implies after[i].remaining_depth
        >= 1 && lies_at(after[i].prefix@, counter, depth - after[i].remaining_depth) by {
        if i < rest.len() {
            assert(after[i] == queue[i + 1]);
        } else {
            assert(after[i] == added[i - rest.len()]);
        }
    }
    let listed = entries + found_entries(sorted);
    assert forall|i: int| #![trigger listed[i]] 0 <= i < listed.len() implies listed[i].depth
        < depth by {
        if i < entries.len() {
            assert(listed[i] == entries[i]);
        } else {
            assert(listed[i] == found_entries(sorted)[i - entries.len()]);
        }
    }
}

/// A new walk over at least one level is within its depth, where the empty path has
/// no component.
pub proof fn law_new_walk_within_depth<C: Fn(&str) -> usize>(
    walk: DirWalk,
    counter: C,
    depth: usize,
)
    requires
        depth >= 1,
        lies_at(Seq::empty(), counter, 0),
        walk.entries@.len() == 0,
        walk.queue@.len() == 1,
        walk.queue@[0].prefix@.len() == 0,
        walk.queue@[0].remaining_depth == depth,
    ensures
        within_depth(walk.queue@, walk.entries@, counter, depth as nat),
{
    assert(walk.queue@[0].prefix@ =~= Seq::empty());
}

/// With `/` between components, the empty path has no component.
pub proof fn law_empty_path_has_no_component()
    ensures
        lies_at(Seq::empty(), component_count, 0),
{
    let prefix = Seq::<char>::empty();
    assert(crate::paths::segments(prefix) =~= seq![Seq::<char>::empty()]);
    reveal_with_fuel(crate::paths::piece_components, 2);
    assert(components(prefix) =~= Seq::empty());
}

/// The entries of the tree below `dir`, down to the levels that are left, where
/// `read` gives what is found in each directory in the order of the names.
pub open spec fn tree_entries(
    read: spec_fn(PendingDir) -> Seq<FoundEntry>,
    dir: PendingDir,
) -> Multiset<DirEntry>
    decreases dir.remaining_depth, 0nat,
{
    let found = read(dir);
    let below = if dir.remaining_depth <= 1 {
        Multiset::empty()
    } else {
        forest_entries(
            read,
            subdirectories(found, dir.remaining_depth),
            (dir.remaining_depth - 1) as nat,
        )
    };
    found_entries(found).to_multiset().add(below)
}

/// The entries of the trees below `dirs`, each with at most `levels` left.
pub open spec fn forest_entries(
    read: spec_fn(PendingDir) -> Seq<FoundEntry>,
    dirs: Seq<PendingDir>,
    levels: nat,
) -> Multiset<DirEntry>
    decreases levels, dirs.len(),
{
    if dirs.len() == 0 {
        Multiset::empty()
    } else {
        let before = forest_entries(read, dirs.drop_last(), levels);
        if dirs.last().remaining_depth <= levels {
            before.add(tree_entries(read, dirs.last()))
        } else {
            before
        }
    }
}

/// Each directory of the list has a level left, and none more than `levels`.
pub open spec fn at_most_levels(dirs: Seq<PendingDir>, levels: nat) -> bool {
    forall|i: int|
        #![trigger dirs[i]]
        0 <= i < dirs.len() ==> 1 <= dirs[i].remaining_depth <= levels
}

proof fn lemma_forest_levels(
    read: spec_fn(PendingDir) -> Seq<FoundEntry>,
    dirs: Seq<PendingDir>,
    few: nat,
    many: nat,
)
    requires
        few <= many,
        at_most_levels(dirs, few),
    ensures
        forest_entries(read, dirs, few) == forest_entries(read, dirs, many),
    decreases dirs.len(),
{
    if dirs.len() > 0 {
        let init = dirs.drop_last();
        assert forall|i: int| #![trigger init[i]] 0 <= i < init.len() implies 1
            <= init[i].remaining_depth <= few by {
            assert(init[i] == dirs[i]);
        }
        lemma_forest_levels(read, init, few, many);
        assert(dirs[dirs.len() - 1].remaining_depth <= few);
    }
}

proof fn lemma_forest_concat(
    read: spec_fn(PendingDir) -> Seq<FoundEntry>,
    a: Seq<PendingDir>,
    b: Seq<PendingDir>,
    levels: nat,
)
    ensures
        forest_entries(read, a + b, levels) == forest_entries(read, a, levels).add(
            forest_entries(read, b, levels),
        ),
    decreases b.len(),
{
    if b.len() == 0 {
        assert(a + b =~= a);
        assert(forest_entries(read, a, levels).add(Multiset::empty()) =~= forest_entries(
            read,
            a,
            levels,
        ));
    } else {
        assert((a + b).drop_last() =~= a + b.drop_last());
        lemma_forest_concat(read, a, b.drop_last(), levels);
        assert(forest_entries(read, a + b, levels) =~= forest_entries(read, a, levels).add(
            forest_entries(read, b, levels),
        ));
    }
}

proof fn lemma_subdirectory_levels(found: Seq<FoundEntry>, remaining_depth: usize)
    requires
        remaining_depth >= 1,
    ensures
        at_most_levels(subdirectories(found, remaining_depth), (remaining_depth - 1) as nat),
    decreases found.len(),
{
    if found.len() > 0 {
        lemma_subdirectory_levels(found.drop_last(), remaining_depth);
    }
}

/// What the walk has listed and what the trees on it still hold stays the same
/// when the first directory on the walk has been read.
pub proof fn law_walk_step_keeps_total(
    read: spec_fn(PendingDir) -> Seq<FoundEntry>,
    queue: Seq<PendingDir>,
    entries: Seq<DirEntry>,
    levels: nat,
)
    requires
        queue.len() > 0,
        at_most_levels(queue, levels),
    ensures
        ({
            let found = read(queue[0]);
            let queue_after = queue.drop_first() + subdirectories(found, queue[0].remaining_depth);
            let entries_after = entries + found_entries(found);
            &&& at_most_levels(queue_after, levels)
            &&& entries_after.to_multiset().add(forest_entries(read, queue_after, levels))
                == entries.to_multiset().add(forest_entries(read, queue, levels))
        }),
{
    let dir = queue[0];
    let rest = queue.drop_first();
    let found = read(dir);
    let subs = subdirectories(found, dir.remaining_depth);
    lemma_subdirectory_levels(found, dir.remaining_depth);
    let queue_after = rest + subs;
    assert forall|i: int|
        #![trigger queue_after[i]]
        0 <= i < queue_after.len() implies 1 <= queue_after[i].remaining_depth <= levels by {
        if i < rest.len() {
            assert(queue_after[i] == queue[i + 1]);
        } else {
            assert(queue_after[i] == subs[i - rest.len()]);
        }
    }
    assert(queue =~= seq![dir] + rest);
    lemma_forest_concat(read, seq![dir], rest, levels);
    lemma_forest_concat(read, rest, subs, levels);
    lemma_forest_levels(read, subs, (dir.remaining_depth - 1) as nat, levels);
    assert(seq![dir].drop_last() =~= Seq::empty());
    reveal_with_fuel(forest_entries, 2);
    assert(forest_entries(read, seq![dir], levels) =~= tree_entries(read, dir));
    if dir.remaining_depth <= 1 {
        assert(subs =~= Seq::empty());
    }
    vstd::seq_lib::lemma_multiset_commutative(entries, found_entries(found));
    assert((entries + found_entries(found)).to_multiset().add(
        forest_entries(read, queue_after, levels),
    ) =~= entries.to_multiset().add(forest_entries(read, queue, levels)));
}

/// The walk after at most `steps` more directories have been read: what is on
/// it, and what it has listed.
pub open spec fn walk_after(
    read: spec_fn(PendingDir) -> Seq<FoundEntry>,
    queue: Seq<PendingDir>,
    entries: Seq<DirEntry>,
    steps: nat,
) -> (Seq<PendingDir>, Seq<DirEntry>)
    decreases steps,
{
    if steps == 0 || queue.len() == 0 {
        (queue, entries)
    } else {
        let found = read(queue[0]);
        walk_after(
            read,
            queue.drop_first() + subdirectories(found, queue[0].remaining_depth),
            entries + found_entries(found),
            (steps - 1) as nat,
        )
    }
}

proof fn lemma_walk_keeps_total(
    read: spec_fn(PendingDir) -> Seq<FoundEntry>,
    queue: Seq<PendingDir>,
    entries: Seq<DirEntry>,
    levels: nat,
    steps: nat,
)
    requires
        at_most_levels(queue, levels),
    ensures
        ({
            let (queue_after, entries_after) = walk_after(read, queue, entries, steps);
            entries_after.to_multiset().add(forest_entries(read, queue_after, levels))
                == entries.to_multiset().add(forest_entries(read, queue, levels))
        }),
    decreases steps,
{
    if steps > 0 && queue.len() > 0 {
        law_walk_step_keeps_total(read, queue, entries, levels);
        let found = read(queue[0]);
        lemma_walk_keeps_total(
            read,
            queue.drop_first() + subdirectories(found, queue[0].remaining_depth),
            entries + found_entries(found),
            levels,
            (steps - 1) as nat,
        );
    }
}

/// A walk that started at one directory and has read all its directories has
/// listed exactly the entries of the tree below that directory, down to the
/// asked depth, each as often as it was found.
pub proof fn law_finished_walk_lists_the_tree(
    read: spec_fn(PendingDir) -> Seq<FoundEntry>,
    root: PendingDir,
    steps: nat,
)
    requires
        root.remaining_depth >= 1,
        walk_after(read, seq![root], Seq::empty(), steps).0.len() == 0,
    ensures
        walk_after(read, seq![root], Seq::empty(), steps).1.to_multiset() == tree_entries(
            read,
            root,
        ),
{
    let levels = root.remaining_depth as nat;
    let (queue, entries) = walk_after(read, seq![root], Seq::empty(), steps);
    lemma_walk_keeps_total(read, seq![root], Seq::empty(), levels, steps);
    assert(seq![root].drop_last() =~= Seq::empty());
    reveal_with_fuel(forest_entries, 2);
    assert(forest_entries(read, seq![root], levels) =~= tree_entries(read, root));
    broadcast use vstd::seq_lib::group_to_multiset_ensures;
    assert(Seq::<DirEntry>::empty().to_multiset() =~= Multiset::empty());
    assert(entries.to_multiset() =~= entries.to_multiset().add(forest_entries(read, queue, levels)));
}

/// What a directory that is still to be read says.
pub struct PendingView {
    pub path: Seq<char>,
    pub prefix: Seq<char>,
    pub remaining_depth: usize,
}

impl View for PendingDir {
    type V = PendingView;

    open spec fn view(&self) -> PendingView {
        PendingView {
            path: self.path@,
            prefix: self.prefix@,
            remaining_depth: self.remaining_depth,
        }
    }
}

/// What a name that is listed says.
pub struct FoundView {
    pub path: Seq<char>,
    pub relative_path: Seq<char>,
    pub entry: EntryView,
}

impl View for FoundEntry {
    type V = FoundView;

    open spec fn view(&self) -> FoundView {
        FoundView {
            path: self.path@,
            relative_path: self.relative_path@,
            entry: self.entry@,
        }
    }
}

/// What the given directories say, in order.
pub open spec fn pending_views(dirs: Seq<PendingDir>) -> Seq<PendingView> {
    dirs.map_values(|dir: PendingDir| dir@)
}

/// What the given names say, in order.
pub open spec fn found_views(found: Seq<FoundEntry>) -> Seq<FoundView> {
    found.map_values(|entry: FoundEntry| entry@)
}

/// In directories that say the same, the same is found, in the same order.
pub open spec fn finds_alike(
    list_a: spec_fn(PendingDir) -> Seq<FoundEntry>,
    list_b: spec_fn(PendingDir) -> Seq<FoundEntry>,
) -> bool {
    forall|a: PendingDir, b: PendingDir|
        #![trigger list_a(a), list_b(b)]
        a@ == b@ ==> found_views(list_a(a)) == found_views(list_b(b))
}

/// `read` gives what `list` gives of each directory, sorted.
pub open spec fn sorts_listing(
    read: spec_fn(PendingDir) -> Seq<FoundEntry>,
    list: spec_fn(PendingDir) -> Seq<FoundEntry>,
) -> bool {
    forall|dir: PendingDir| #[trigger] is_sorting_of(read(dir), list(dir))
}

proof fn lemma_found_alike(
    sorted_a: Seq<FoundEntry>,
    sorted_b: Seq<FoundEntry>,
    found_a: Seq<FoundEntry>,
    found_b: Seq<FoundEntry>,
)
    requires
        is_sorting_of(sorted_a, found_a),
        is_sorting_of(sorted_b, found_b),
        found_views(found_a) == found_views(found_b),
    ensures
        found_views(sorted_a) == found_views(sorted_b),
{
    let view = |entry: FoundEntry| entry@;
    assert(ranks_by::<FoundEntry, FoundView>(view)) by {
        assert forall|a: FoundEntry, b: FoundEntry, c: FoundEntry, d: FoundEntry|
            #![trigger a.ranks_before(&b), c.ranks_before(&d)]
            view(a) == view(c) && view(b) == view(d) implies a.ranks_before(&b) == c.ranks_before(
            &d,
        ) by {
            assert(a@.entry.name == c@.entry.name && b@.entry.name == d@.entry.name);
        }
    }
    law_sorting_is_determined(sorted_a, sorted_b, found_a, found_b, view);
}

proof fn lemma_subdirectories_alike(
    a: Seq<FoundEntry>,
    b: Seq<FoundEntry>,
    remaining_depth: usize,
)
    requires
        found_views(a) == found_views(b),
    ensures
        pending_views(subdirectories(a, remaining_depth)) == pending_views(
            subdirectories(b, remaining_depth),
        ),
        entry_views(found_entries(a)) == entry_views(found_entries(b)),
    decreases a.len(),
{
    assert(found_views(a).len() == a.len() && found_views(b).len() == b.len());
    assert(entry_views(found_entries(a)) =~= entry_views(found_entries(b))) by {
        assert forall|i: int| 0 <= i < a.len() implies entry_views(found_entries(a))[i]
            == entry_views(found_entries(b))[i] by {
            assert(found_views(a)[i] == a[i]@);
            assert(found_views(b)[i] == b[i]@);
            assert(a[i]@.entry == b[i]@.entry);
        }
    }
    if a.len() > 0 && remaining_depth > 1 {
        let last = a.len() - 1;
        assert(found_views(a)[last] == a[last]@);
        assert(found_views(b)[last] == b[last]@);
        assert(a[last]@.entry.kind == b[last]@.entry.kind);
        assert(found_views(a.drop_last()) =~= found_views(a).drop_last());
        assert(found_views(b.drop_last()) =~= found_views(b).drop_last());
        lemma_subdirectories_alike(a.drop_last(), b.drop_last(), remaining_depth);
        let before_a = subdirectories(a.drop_last(), remaining_depth);
        let before_b = subdirectories(b.drop_last(), remaining_depth);
        let after_a = subdirectories(a, remaining_depth);
        let after_b = subdirectories(b, remaining_depth);
        if a[last].entry.kind == DirEntryKind::Directory {
            assert(pending_views(after_a) =~= pending_views(before_a).push(after_a.last()@));
            assert(pending_views(after_b) =~= pending_views(before_b).push(after_b.last()@));
        }
    } else {
        assert(pending_views(subdirectories(a, remaining_depth)) =~= pending_views(
            subdirectories(b, remaining_depth),
        ));
    }
}

/// Two walks that say the same still do once each has read its first directory, where
/// the same is found for both.
pub proof fn law_equal_walks_stay_equal(
    queue_a: Seq<PendingDir>,
    queue_b: Seq<PendingDir>,
    entries_a: Seq<DirEntry>,
    entries_b: Seq<DirEntry>,
    sorted_a: Seq<FoundEntry>,
    sorted_b: Seq<FoundEntry>,
)
    requires
        queue_a.len() > 0,
        pending_views(queue_a) == pending_views(queue_b),
        entry_views(entries_a) == entry_views(entries_b),
        found_views(sorted_a) == found_views(sorted_b),
    ensures
        pending_views(
            queue_a.drop_first() + subdirectories(sorted_a, queue_a[0].remaining_depth),
        ) == pending_views(
            queue_b.drop_first() + subdirectories(sorted_b, queue_b[0].remaining_depth),
        ),
        entry_views(entries_a + found_entries(sorted_a)) == entry_views(
            entries_b + found_entries(sorted_b),
        ),
{
    assert(pending_views(queue_a).len() == queue_a.len());
    assert(pending_views(queue_b).len() == queue_b.len());
    assert(pending_views(queue_a)[0] == queue_a[0]@);
    assert(pending_views(queue_b)[0] == queue_b[0]@);
    assert(queue_a[0]@.remaining_depth == queue_b[0]@.remaining_depth);
    let depth = queue_a[0].remaining_depth;
    lemma_subdirectories_alike(sorted_a, sorted_b, depth);
    let subs_a = subdirectories(sorted_a, depth);
    let subs_b = subdirectories(sorted_b, depth);
    assert(pending_views(queue_a.drop_first() + subs_a) =~= pending_views(queue_a).drop_first()
        + pending_views(subs_a));
    assert(pending_views(queue_b.drop_first() + subs_b) =~= pending_views(queue_b).drop_first()
        + pending_views(subs_b));
    assert(entry_views(entries_a + found_entries(sorted_a)) =~= entry_views(entries_a)
        + entry_views(found_entries(sorted_a)));
    assert(entry_views(entries_b + found_entries(sorted_b)) =~= entry_views(entries_b)
        + entry_views(found_entries(sorted_b)));
}

proof fn lemma_walks_alike(
    list_a: spec_fn(PendingDir) -> Seq<FoundEntry>,
    list_b: spec_fn(PendingDir) -> Seq<FoundEntry>,
    read_a: spec_fn(PendingDir) -> Seq<FoundEntry>,
    read_b: spec_fn(PendingDir) -> Seq<FoundEntry>,
    queue_a: Seq<PendingDir>,
    queue_b: Seq<PendingDir>,
    entries_a: Seq<DirEntry>,
    entries_b: Seq<DirEntry>,
    steps: nat,
)
    requires
        finds_alike(list_a, list_b),
        sorts_listing(read_a, list_a),
        sorts_listing(read_b, list_b),
        pending_views(queue_a) == pending_views(queue_b),
        entry_views(entries_a) == entry_views(entries_b),
    ensures
        ({
            let a = walk_after(read_a, queue_a, entries_a, steps);
            let b = walk_after(read_b, queue_b, entries_b, steps);
            pending_views(a.0) == pending_views(b.0) && entry_views(a.1) == entry_views(b.1)
        }),
    decreases steps,
{
    assert(pending_views(queue_a).len() == queue_a.len());
    assert(pending_views(queue_b).len() == queue_b.len());
    if steps > 0 && queue_a.len() > 0 {
        let dir_a = queue_a[0];
        let dir_b = queue_b[0];
        assert(pending_views(queue_a)[0] == dir_a@);
        assert(pending_views(queue_b)[0] == dir_b@);
        let found_a = read_a(dir_a);
        let found_b = read_b(dir_b);
        assert(found_views(list_a(dir_a)) == found_views(list_b(dir_b)));
        assert(is_sorting_of(read_a(dir_a), list_a(dir_a)));
        assert(is_sorting_of(read_b(dir_b), list_b(dir_b)));
        lemma_found_alike(found_a, found_b, list_a(dir_a), list_b(dir_b));
        law_equal_walks_stay_equal(queue_a, queue_b, entries_a, entries_b, found_a, found_b);
        lemma_walks_alike(
            list_a,
            list_b,
            read_a,
            read_b,
            queue_a.drop_first() + subdirectories(found_a, dir_a.remaining_depth),
            queue_b.drop_first() + subdirectories(found_b, dir_b.remaining_depth),
            entries_a + found_entries(found_a),
            entries_b + found_entries(found_b),
            (steps - 1) as nat,
        );
    }
}

proof fn lemma_finished_walk_stays(
    read: spec_fn(PendingDir) -> Seq<FoundEntry>,
    queue: Seq<PendingDir>,
    entries: Seq<DirEntry>,
    steps: nat,
    more: nat,
)
    requires
        steps <= more,
        walk_after(read, queue, entries, steps).0.len() == 0,
    ensures
        walk_after(read, queue, entries, more) == walk_after(read, queue, entries, steps),
    decreases steps,
{
    if queue.len() > 0 {
        let found = read(queue[0]);
        lemma_finished_walk_stays(
            read,
            queue.drop_first() + subdirectories(found, queue[0].remaining_depth),
            entries + found_entries(found),
            (steps - 1) as nat,
            (more - 1) as nat,
        );
    }
}

/// Two finished walks from the same directory list the same, in the same order, where
/// the same is found for both in each directory: `list_a` and `list_b` give what is found,
/// and `read_a` and `read_b` give it sorted.
pub proof fn law_equal_walks_list_the_same(
    list_a: spec_fn(PendingDir) -> Seq<FoundEntry>,
    list_b: spec_fn(PendingDir) -> Seq<FoundEntry>,
    read_a: spec_fn(PendingDir) -> Seq<FoundEntry>,
    read_b: spec_fn(PendingDir) -> Seq<FoundEntry>,
    root_a: PendingDir,
    root_b: PendingDir,
    steps_a: nat,
    steps_b: nat,
)
    requires
        finds_alike(list_a, list_b),
        sorts_listing(read_a, list_a),
        sorts_listing(read_b, list_b),
        root_a@ == root_b@,
        walk_after(read_a, seq![root_a], Seq::empty(), steps_a).0.len() == 0,
        walk_after(read_b, seq![root_b], Seq::empty(), steps_b).0.len() == 0,
    ensures
        entry_views(walk_after(read_a, seq![root_a], Seq::empty(), steps_a).1) == entry_views(
            walk_after(read_b, seq![root_b], Seq::empty(), steps_b).1,
        ),
{
    let steps = if steps_a <= steps_b {
        steps_b
    } else {
        steps_a
    };
    lemma_finished_walk_stays(read_a, seq![root_a], Seq::empty(), steps_a, steps);
    lemma_finished_walk_stays(read_b, seq![root_b], Seq::empty(), steps_b, steps);
    assert(pending_views(seq![root_a]) =~= pending_views(seq![root_b]));
    lemma_walks_alike(
        list_a,
        list_b,
        read_a,
        read_b,
        seq![root_a],
        seq![root_b],
        Seq::empty(),
        Seq::empty(),
        steps,
    );
}

/// What was found is a directory.
pub open spec fn is_found_directory() -> spec_fn(FoundEntry) -> bool {
    |f: FoundEntry| f.entry.kind is Directory
}

/// The directory that was found is to be read, with `levels` levels left.
pub open spec fn pending_with(levels: usize) -> spec_fn(FoundEntry) -> PendingDir {
    |f: FoundEntry| PendingDir { path: f.path, prefix: f.relative_path, remaining_depth: levels }
}

/// Of what was found with more than one level left, every directory is read in
/// turn, and nothing else, each with one level less. With one level left nothing
/// is.
pub proof fn law_all_directories_are_read_in_turn(found: Seq<FoundEntry>, remaining_depth: usize)
    ensures
        remaining_depth > 1 ==> subdirectories(found, remaining_depth) == found.filter(
            is_found_directory(),
        ).map_values(pending_with((remaining_depth - 1) as usize)),
        remaining_depth <= 1 ==> subdirectories(found, remaining_depth).len() == 0,
    decreases found.len(),
{
    reveal(Seq::filter);
    if remaining_depth > 1 {
        let levels = (remaining_depth - 1) as usize;
        if found.len() == 0 {
            assert(found.filter(is_found_directory()) =~= Seq::empty());
            assert(subdirectories(found, remaining_depth) =~= Seq::empty());
        } else {
            let init = found.drop_last();
            law_all_directories_are_read_in_turn(init, remaining_depth);
            let kept = init.filter(is_found_directory());
            if is_found_directory()(found.last()) {
                assert(kept.push(found.last()).map_values(pending_with(levels))
                    =~= kept.map_values(pending_with(levels)).push(
                    pending_with(levels)(found.last()),
                ));
            }
        }
    }
}

proof fn lemma_filter_multiset<T>(items: Seq<T>, keep: spec_fn(T) -> bool)
    ensures
        items.filter(keep).to_multiset() == items.to_multiset().filter(keep),
    decreases items.len(),
{
    broadcast use vstd::seq_lib::group_to_multiset_ensures;

    reveal(Seq::filter);
    if items.len() == 0 {
        assert(items.filter(keep) =~= Seq::empty());
        assert(items.to_multiset() =~= Multiset::empty());
        assert(items.filter(keep).to_multiset() =~= items.to_multiset().filter(keep));
    } else {
        let init = items.drop_last();
        let last = items.last();
        lemma_filter_multiset(init, keep);
        assert(items =~= init.push(last));
        assert(items.to_multiset() =~= init.to_multiset().insert(last));
        assert(items.filter(keep).to_multiset() =~= items.to_multiset().filter(keep));
    }
}

/// Once a directory has been read, its entries are listed behind those before, in
/// the order of their names, all of them, whatever their kind and name. With more
/// than one level left, every directory among them is put on the walk, behind those
/// that are on it, in the same order.
pub proof fn law_read_directory_is_listed_and_walked_on(
    before: DirWalk,
    dir: PendingDir,
    found: Vec<FoundEntry>,
    after: DirWalk,
)
    requires
        exists|walk: &mut DirWalk|
            *walk == before && *final(walk) == after && #[trigger] call_ensures(
                DirWalk::finish_dir,
                (walk, &dir, found),
                (),
            ),
    ensures
        exists|sorted: Seq<FoundEntry>|
            {
                &&& #[trigger] sorted.to_multiset() == found@.to_multiset()
                &&& forall|i: int, j: int|
                    #![trigger sorted[i], sorted[j]]
                    0 <= i < j < sorted.len() ==> text_le(
                        sorted[i].entry.name@,
                        sorted[j].entry.name@,
                    )
                &&& after.entries@ == before.entries@ + sorted.map_values(|f: FoundEntry| f.entry)
                &&& after.queue@ == before.queue@ + if dir.remaining_depth > 1 {
                    sorted.filter(is_found_directory()).map_values(
                        pending_with((dir.remaining_depth - 1) as usize),
                    )
                } else {
                    Seq::empty()
                }
            },
{
    let sorted = choose|sorted: Seq<FoundEntry>|
        {
            &&& is_sorting_of(sorted, found@)
            &&& after.entries@ == before.entries@ + #[trigger] found_entries(sorted)
            &&& after.queue@ == before.queue@ + subdirectories(sorted, dir.remaining_depth)
        };
    law_all_directories_are_read_in_turn(sorted, dir.remaining_depth);
    assert forall|i: int, j: int|
        #![trigger sorted[i], sorted[j]]
        0 <= i < j < sorted.len() implies text_le(
        sorted[i].entry.name@,
        sorted[j].entry.name@,
    ) by {
        assert(sorted[i].ranks_before(&sorted[j]));
    }
    if dir.remaining_depth <= 1 {
        assert(after.queue@ =~= before.queue@ + Seq::empty());
    }
    assert(found_entries(sorted) =~= sorted.map_values(|f: FoundEntry| f.entry));
    assert(sorted.to_multiset() == found@.to_multiset());
}

/// One of the directories from place `start` on is to be read for what was found.
pub open spec fn is_walked(
    queue: Seq<PendingDir>,
    start: int,
    found: FoundEntry,
    levels: int,
) -> bool {
    exists|k: int|
        {
            &&& start <= k < queue.len()
            &&& (#[trigger] queue[k]).path == found.path
            &&& queue[k].prefix == found.relative_path
            &&& queue[k].remaining_depth == levels
        }
}

/// The directory is to be read for one of the directories among what was found.
pub open spec fn comes_of(pending: PendingDir, found: Seq<FoundEntry>, levels: int) -> bool {
    exists|i: int|
        {
            &&& 0 <= i < found.len()
            &&& (#[trigger] found[i]).entry.kind is Directory
            &&& pending.path == found[i].path
            &&& pending.prefix == found[i].relative_path
            &&& pending.remaining_depth == levels
        }
}

proof fn lemma_subdirectory_places(found: Seq<FoundEntry>, remaining_depth: usize)
    requires
        remaining_depth > 1,
    ensures
        forall|i: int|
            #![trigger found[i]]
            0 <= i < found.len() && found[i].entry.kind is Directory ==> is_walked(
                subdirectories(found, remaining_depth),
                0,
                found[i],
                remaining_depth - 1,
            ),
        forall|k: int|
            #![trigger subdirectories(found, remaining_depth)[k]]
            0 <= k < subdirectories(found, remaining_depth).len() ==> comes_of(
                subdirectories(found, remaining_depth)[k],
                found,
                remaining_depth - 1,
            ),
    decreases found.len(),
{
    if found.len() > 0 {
        let init = found.drop_last();
        let last = found.len() - 1;
        let before = subdirectories(init, remaining_depth);
        let dirs = subdirectories(found, remaining_depth);
        lemma_subdirectory_places(init, remaining_depth);
        assert forall|i: int|
            #![trigger found[i]]
            0 <= i < found.len() && found[i].entry.kind is Directory implies is_walked(
            dirs,
            0,
            found[i],
            remaining_depth - 1,
        ) by {
            if i < last {
                assert(found[i] == init[i]);
                assert(is_walked(before, 0, init[i], remaining_depth - 1));
                let k = choose|k: int|
                    {
                        &&& 0 <= k < before.len()
                        &&& (#[trigger] before[k]).path == init[i].path
                        &&& before[k].prefix == init[i].relative_path
                        &&& before[k].remaining_depth == remaining_depth - 1
                    };
                assert(dirs[k] == before[k]);
            } else {
                assert(dirs[before.len() as int].path == found[i].path);
            }
        }
        assert forall|k: int| #![trigger dirs[k]] 0 <= k < dirs.len() implies comes_of(
            dirs[k],
            found,
            remaining_depth - 1,
        ) by {
            if k < before.len() {
                assert(dirs[k] == before[k]);
                assert(comes_of(before[k], init, remaining_depth - 1));
                let i = choose|i: int|
                    {
                        &&& 0 <= i < init.len()
                        &&& (#[trigger] init[i]).entry.kind is Directory
                        &&& before[k].path == init[i].path
                        &&& before[k].prefix == init[i].relative_path
                        &&& before[k].remaining_depth == remaining_depth - 1
                    };
                assert(found[i] == init[i]);
            } else {
                assert(found[last].entry.kind is Directory);
            }
        }
    }
}

/// Once a directory with more than one level left has been read, there is for each
/// directory that was found in it, whatever its name, a directory on the walk with
/// its path and one level less. Nothing else has come onto the walk, and what was
/// on it before still is. Where the directory was the last level, the walk is as it
/// was.
pub proof fn law_every_found_directory_is_walked(
    before: DirWalk,
    dir: PendingDir,
    found: Vec<FoundEntry>,
    after: DirWalk,
)
    requires
        exists|walk: &mut DirWalk|
            *walk == before && *final(walk) == after && #[trigger] call_ensures(
                DirWalk::finish_dir,
                (walk, &dir, found),
                (),
            ),
    ensures
        dir.remaining_depth <= 1 ==> after.queue@ == before.queue@,
        before.queue@.is_prefix_of(after.queue@),
        dir.remaining_depth > 1 ==> after.queue@.len() == before.queue@.len() + found@.filter(
            is_found_directory(),
        ).len(),
        dir.remaining_depth > 1 ==> forall|i: int|
            #![trigger found@[i]]
            0 <= i < found@.len() && found@[i].entry.kind is Directory ==> is_walked(
                after.queue@,
                before.queue@.len() as int,
                found@[i],
                dir.remaining_depth - 1,
            ),
        dir.remaining_depth > 1 ==> forall|k: int|
            #![trigger after.queue@[k]]
            before.queue@.len() <= k < after.queue@.len() ==> comes_of(
                after.queue@[k],
                found@,
                dir.remaining_depth - 1,
            ),
{
    let sorted = choose|sorted: Seq<FoundEntry>|
        {
            &&& is_sorting_of(sorted, found@)
            &&& after.entries@ == before.entries@ + #[trigger] found_entries(sorted)
            &&& after.queue@ == before.queue@ + subdirectories(sorted, dir.remaining_depth)
        };
    law_all_directories_are_read_in_turn(sorted, dir.remaining_depth);
    law_sorting_is_in_rank_order(found@, sorted);
    let start = before.queue@.len() as int;
    let added = subdirectories(sorted, dir.remaining_depth);
    assert(before.queue@ =~= after.queue@.subrange(0, start));
    if dir.remaining_depth <= 1 {
        assert(after.queue@ =~= before.queue@);
    } else {
        lemma_filter_multiset(sorted, is_found_directory());
        lemma_filter_multiset(found@, is_found_directory());
        vstd::seq_lib::to_multiset_len(sorted.filter(is_found_directory()));
        vstd::seq_lib::to_multiset_len(found@.filter(is_found_directory()));
        lemma_subdirectory_places(sorted, dir.remaining_depth);
        assert forall|i: int|
            #![trigger found@[i]]
            0 <= i < found@.len() && found@[i].entry.kind is Directory implies is_walked(
            after.queue@,
            start,
            found@[i],
            dir.remaining_depth - 1,
        ) by {
            assert(sorted.contains(found@[i]));
            let at = sorted.index_of(found@[i]);
            assert(is_walked(added, 0, sorted[at], dir.remaining_depth - 1));
            let k = choose|k: int|
                {
                    &&& 0 <= k < added.len()
                    &&& (#[trigger] added[k]).path == found@[i].path
                    &&& added[k].prefix == found@[i].relative_path
                    &&& added[k].remaining_depth == dir.remaining_depth - 1
                };
            assert(after.queue@[start + k] == added[k]);
        }
        assert forall|k: int|
            #![trigger after.queue@[k]]
            start <= k < after.queue@.len() implies comes_of(
            after.queue@[k],
            found@,
            dir.remaining_depth - 1,
        ) by {
            let pending = added[k - start];
            assert(after.queue@[k] == pending);
            assert(comes_of(pending, sorted, dir.remaining_depth - 1));
            let at = choose|i: int|
                {
                    &&& 0 <= i < sorted.len()
                    &&& (#[trigger] sorted[i]).entry.kind is Directory
                    &&& pending.path == sorted[i].path
                    &&& pending.prefix == sorted[i].relative_path
                    &&& pending.remaining_depth == dir.remaining_depth - 1
                };
            assert(found@.contains(sorted[at]));
            let i = found@.index_of(sorted[at]);
            assert(found@[i] == sorted[at]);
        }
    }
}

/// The entries of the tree below `dir`, where `read` gives what is found in each
/// directory: what is found in it, and with more than one level left, the trees
/// below the directories among that.
pub open spec fn tree_by_kind(
    read: spec_fn(PendingDir) -> Seq<FoundEntry>,
    dir: PendingDir,
) -> Multiset<DirEntry>
    decreases dir.remaining_depth, 0nat,
{
    let found = read(dir);
    let here = found.map_values(|f: FoundEntry| f.entry).to_multiset();
    if dir.remaining_depth > 1 {
        here.add(branches_by_kind(read, found, (dir.remaining_depth - 1) as usize))
    } else {
        here
    }
}

/// The entries of the trees below the directories among what was found, with
/// `levels` levels left for each.
pub open spec fn branches_by_kind(
    read: spec_fn(PendingDir) -> Seq<FoundEntry>,
    found: Seq<FoundEntry>,
    levels: usize,
) -> Multiset<DirEntry>
    decreases levels, found.len(),
{
    if found.len() == 0 {
        Multiset::empty()
    } else {
        let others = branches_by_kind(read, found.drop_last(), levels);
        let last = found.last();
        if last.entry.kind is Directory {
            others.add(
                tree_by_kind(
                    read,
                    PendingDir {
                        path: last.path,
                        prefix: last.relative_path,
                        remaining_depth: levels,
                    },
                ),
            )
        } else {
            others
        }
    }
}

proof fn lemma_tree_by_kind(read: spec_fn(PendingDir) -> Seq<FoundEntry>, dir: PendingDir)
    ensures
        tree_entries(read, dir) == tree_by_kind(read, dir),
    decreases dir.remaining_depth, 0nat,
{
    let found = read(dir);
    assert(found_entries(found) =~= found.map_values(|f: FoundEntry| f.entry));
    if dir.remaining_depth > 1 {
        lemma_branches_by_kind(read, found, (dir.remaining_depth - 1) as usize);
    } else {
        assert(tree_entries(read, dir) =~= tree_by_kind(read, dir));
    }
}

proof fn lemma_branches_by_kind(
    read: spec_fn(PendingDir) -> Seq<FoundEntry>,
    found: Seq<FoundEntry>,
    levels: usize,
)
    requires
        1 <= levels < usize::MAX,
    ensures
        forest_entries(read, subdirectories(found, (levels + 1) as usize), levels as nat)
            == branches_by_kind(read, found, levels),
    decreases levels, found.len(),
{
    let dirs = subdirectories(found, (levels + 1) as usize);
    if found.len() == 0 {
        assert(dirs =~= Seq::empty());
    } else {
        let init = found.drop_last();
        lemma_branches_by_kind(read, init, levels);
        if found.last().entry.kind is Directory {
            let last = PendingDir {
                path: found.last().path,
                prefix: found.last().relative_path,
                remaining_depth: levels,
            };
            let before = subdirectories(init, (levels + 1) as usize);
            assert(dirs == before.push(last));
            assert(dirs.drop_last() =~= before);
            lemma_tree_by_kind(read, last);
        }
    }
}

/// A walk that started at one directory and has read all its directories has listed
/// every entry that was found in that directory, and every entry in the tree below
/// each directory among them, down to the asked depth. It lists each as often as it
/// was found, and nothing else.
pub proof fn law_finished_walk_lists_every_level(
    read: spec_fn(PendingDir) -> Seq<FoundEntry>,
    root: PendingDir,
    steps: nat,
)
    requires
        root.remaining_depth >= 1,
        walk_after(read, seq![root], Seq::empty(), steps).0.len() == 0,
    ensures
        walk_after(read, seq![root], Seq::empty(), steps).1.to_multiset() == tree_by_kind(
            read,
            root,
        ),
{
    law_finished_walk_lists_the_tree(read, root, steps);
    lemma_tree_by_kind(read, root);
}

/// A walk starts with one directory, whose entries have no path above them, and
/// lists nothing yet.
pub proof fn law_walk_starts_at_its_root(root: String, depth: usize, walk: DirWalk)
    requires
        call_ensures(DirWalk::new, (root, depth), walk),
    ensures
        walk.entries@.len() == 0,
        walk.queue@.len() == 1,
        walk.queue@[0].path@ == root@,
        walk.queue@[0].prefix@ == Seq::<char>::empty(),
        walk.queue@[0].remaining_depth == depth,
{
}

/// The directory that has waited longest is read next. The others wait on in their
/// order, and no entry is lost. There is none only where none waits.
pub proof fn law_directories_are_read_in_their_order(
    before: DirWalk,
    next: Option<PendingDir>,
    after: DirWalk,
)
    requires
        exists|walk: &mut DirWalk|
            *walk == before && *final(walk) == after && #[trigger] call_ensures(
                DirWalk::next_dir,
                (walk,),
                next,
            ),
    ensures
        after.entries@ == before.entries@,
        next is None <==> before.queue@.len() == 0,
        next is None ==> after.queue@.len() == 0,
        next is Some ==> before.queue@ == seq![next->0] + after.queue@,
{
    if next is Some {
        assert(before.queue@ =~= seq![next->0] + after.queue@);
    }
}

/// A name is looked for at its path in the directory that is read.
pub proof fn law_name_is_looked_for_in_its_directory<K: Fn(&str, &str) -> String>(
    dir: PendingDir,
    file_name: &str,
    join_absolute: K,
    visit: EntryVisit<'_>,
)
    requires
        call_ensures(PendingDir::visit::<K>, (&dir, file_name, &join_absolute), visit),
    ensures
        *visit.dir == dir,
        visit.file_name@ == file_name@,
        exists|base: &str, name: &str|
            base@ == dir.path@ && name@ == file_name@ && #[trigger] call_ensures(
                join_absolute,
                (base, name),
                visit.path,
            ),
{
}

/// A name is left out exactly where the read policy denies its path. Any other goes
/// on as it is.
pub proof fn law_only_denied_names_are_left_out<D: FnOnce(&str) -> bool>(
    visit: EntryVisit<'_>,
    is_denied: D,
    next: Option<EntryInspection<'_>>,
    denied: bool,
)
    requires
        call_ensures(EntryVisit::guarded::<D>, (visit, is_denied), next),
        forall|path: &str, says: bool|
            path@ == visit.path@ && #[trigger] call_ensures(is_denied, (path,), says) ==> says
                == denied,
    ensures
        next is None <==> denied,
        next is Some ==> {
            &&& next->0.dir == visit.dir
            &&& next->0.file_name@ == visit.file_name@
            &&& next->0.path@ == visit.path@
        },
{
}

/// A name that may be read is listed with the kind that the file system tells of
/// it, and with as many levels above it as its directory's path has components. Its
/// path below the listed directory is its name at the top and joined to the
/// directory's path anywhere else. What the file system could not tell ends the
/// listing with its reason.
pub proof fn law_inspected_name_is_listed<J: Fn(&str, &str) -> String, C: Fn(&str) -> usize>(
    inspection: EntryInspection<'_>,
    metadata: Result<FileMetadata, String>,
    join: J,
    counter: C,
    found: Result<FoundEntry, FunctionCallError>,
)
    requires
        call_ensures(
            EntryInspection::inspected::<J, C>,
            (inspection, metadata, &join, &counter),
            found,
        ),
    ensures
        found is Ok <==> metadata is Ok,
        metadata is Err ==> responds(
            found->Err_0,
            "failed to inspect entry: "@ + metadata->Err_0@,
        ),
        metadata is Ok ==> {
            let known = metadata->Ok_0;
            let entry = found->Ok_0.entry;
            let relative = found->Ok_0.relative_path;
            &&& found->Ok_0.path@ == inspection.path@
            &&& entry.kind is Symlink <==> known.is_symlink
            &&& entry.kind is Directory <==> known.is_directory && !known.is_symlink
            &&& entry.kind is File <==> known.is_file && !known.is_directory && !known.is_symlink
            &&& inspection.dir.prefix@.len() == 0 ==> relative@ == inspection.file_name@
            &&& inspection.dir.prefix@.len() > 0 ==> exists|base: &str, name: &str|
                base@ == inspection.dir.prefix@ && name@ == inspection.file_name@
                    && #[trigger] call_ensures(join, (base, name), relative)
            &&& exists|prefix: &str|
                prefix@ == inspection.dir.prefix@ && #[trigger] call_ensures(
                    counter,
                    (prefix,),
                    entry.depth,
                )
            &&& entry.name@ == entry_name(relative@)
            &&& entry.display_name@.is_prefix_of(inspection.file_name@)
            &&& encode_utf8(inspection.file_name@).len() <= 500 ==> entry.display_name@
                == inspection.file_name@
            &&& encode_utf8(entry.display_name@).len() <= 500
            &&& entry.display_name@.len() < inspection.file_name@.len() ==> encode_utf8(
                inspection.file_name@.take(entry.display_name@.len() as int + 1),
            ).len() > 500
        },
{
    if metadata is Ok {
        let name = inspection.file_name@;
        law_clipped_is_longest(name, 500, name);
        assert(name.is_prefix_of(name)) by {
            assert(name =~= name.subrange(0, name.len() as int));
        }
        let shown = found->Ok_0.entry.display_name@;
        if encode_utf8(name).len() <= 500 {
            assert(shown =~= name);
        }
        if shown.len() < name.len() {
            let longer = name.take(shown.len() as int + 1);
            law_clipped_is_longest(name, 500, longer);
            assert(longer.is_prefix_of(name)) by {
                assert(longer =~= name.subrange(0, longer.len() as int));
            }
        }
    }
}

/// The error for a directory that could not be read ends in the reason.
pub proof fn law_unread_directory_tells_why(reason: &str, error: FunctionCallError)
    requires
        call_ensures(read_directory_error, (reason,), error),
    ensures
        responds(error, "failed to read directory: "@ + reason@),
{
}

} // verus!
