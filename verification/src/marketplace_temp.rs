//! Temporary directories that the installation of marketplaces leaves behind.

use crate::paths::joins_to;
use crate::text::starts_with;
use vstd::prelude::*;

verus! {

/// An entry of a directory that may hold temporary directories.
#[derive(Debug, PartialEq, Eq)]
pub struct TempEntry {
    pub path: String,
    /// The last component of the path, where it is text.
    pub name: Option<String>,
    /// Whether the entry is a directory, where that could be found out.
    pub is_dir: Option<bool>,
}

/// A directory that may hold temporary directories, and how their names begin.
pub struct TempDirParent {
    pub path: String,
    pub prefixes: Vec<&'static str>,
}

/// How the names of the temporary directories begin that are made while a
/// marketplace is added or upgraded.
pub open spec fn staging_prefixes() -> Seq<Seq<char>> {
    seq!["marketplace-upgrade-"@, "marketplace-add-"@]
}

/// How the names of the temporary directories begin that keep a marketplace
/// while it is replaced.
pub open spec fn backup_prefixes() -> Seq<Seq<char>> {
    seq!["marketplace-backup-"@]
}

/// What the given texts hold.
pub open spec fn prefix_views(prefixes: Seq<&'static str>) -> Seq<Seq<char>> {
    prefixes.map_values(|prefix: &'static str| prefix@)
}

/// The directories below `install_root` that may hold temporary directories.
/// `join` is the host's way of joining paths.
pub fn temp_dir_parents<J: Fn(&str, &str) -> String>(install_root: &str, join: &J) -> (parents: Vec<
    TempDirParent,
>)
    requires
        forall|base: &str, path: &str| call_requires(*join, (base, path)),
    ensures
        parents@.len() == 2,
        joins_to(*join, install_root@, ".staging"@, parents@[0].path),
        prefix_views(parents@[0].prefixes@) == staging_prefixes(),
        parents@[1].path@ == install_root@,
        prefix_views(parents@[1].prefixes@) == backup_prefixes(),
{
    let mut staging: Vec<&'static str> = Vec::new();
    staging.push("marketplace-upgrade-");
    staging.push("marketplace-add-");
    let mut backups: Vec<&'static str> = Vec::new();
    backups.push("marketplace-backup-");
    let mut parents: Vec<TempDirParent> = Vec::new();
    assert(prefix_views(staging@) =~= staging_prefixes());
    assert(prefix_views(backups@) =~= backup_prefixes());
    let staging_root = (*join)(install_root, ".staging");
    assert(joins_to(*join, install_root@, ".staging"@, staging_root));
    parents.push(TempDirParent { path: staging_root, prefixes: staging });
    parents.push(TempDirParent { path: install_root.to_owned(), prefixes: backups });
    parents
}

/// The name begins with one of the prefixes.
pub open spec fn begins_with_any(name: Seq<char>, prefixes: Seq<Seq<char>>) -> bool {
    exists|i: int| 0 <= i < prefixes.len() && #[trigger] prefixes[i].is_prefix_of(name)
}

/// The entry is a directory whose name begins with one of the prefixes.
pub open spec fn is_temp_dir(entry: TempEntry, prefixes: Seq<Seq<char>>) -> bool {
    &&& entry.is_dir == Some(true)
    &&& entry.name is Some
    &&& begins_with_any(entry.name->0@, prefixes)
}

/// Whether the entry is a directory whose name begins with one of the prefixes.
pub fn matches_temp_dir(entry: &TempEntry, prefixes: &Vec<&'static str>) -> (yes: bool)
    ensures
        yes == is_temp_dir(*entry, prefix_views(prefixes@)),
{
    match entry.is_dir {
        Some(is_dir) => if !is_dir {
            return false;
        },
        None => return false,
    }
    let name = match &entry.name {
        Some(name) => name,
        None => return false,
    };
    let ghost views = prefix_views(prefixes@);
    let mut i: usize = 0;
    while i < prefixes.len()
        invariant
            i <= prefixes@.len(),
            views == prefix_views(prefixes@),
            views.len() == prefixes@.len(),
            entry.is_dir == Some(true),
            entry.name == Some(*name),
            forall|k: int| 0 <= k < i ==> !(#[trigger] views[k].is_prefix_of(name@)),
        decreases prefixes@.len() - i,
    {
        let matches = starts_with(name.as_str(), prefixes[i]);
        assert(views[i as int] == prefixes@[i as int]@);
        if matches {
            assert(views[i as int].is_prefix_of(name@));
            return true;
        }
        i += 1;
    }
    false
}

/// `known` is the age of the directory, where `age` can tell it.
pub open spec fn has_age<A: Fn(&str) -> Option<u128>>(
    path: Seq<char>,
    age: A,
    known: Option<u128>,
) -> bool {
    exists|p: &str| p@ == path && #[trigger] call_ensures(age, (p,), known)
}

/// `stale` says whether the directory is known to be at least as old as
/// `max_age`.
pub open spec fn decides_staleness<A: Fn(&str) -> Option<u128>>(
    path: Seq<char>,
    max_age: u128,
    age: A,
    stale: bool,
) -> bool {
    exists|known: Option<u128>| #[trigger]
        has_age(path, age, known) && stale == match known {
            Some(nanos) => nanos >= max_age,
            None => false,
        }
}

/// `stale` says whether the entry is left over: it is a temporary directory, and
/// known to be at least as old as `max_age`.
pub open spec fn decides_leftover<A: Fn(&str) -> Option<u128>>(
    entry: TempEntry,
    prefixes: Seq<Seq<char>>,
    max_age: u128,
    age: A,
    stale: bool,
) -> bool {
    if is_temp_dir(entry, prefixes) {
        decides_staleness(entry.path@, max_age, age, stale)
    } else {
        !stale
    }
}

/// Whether the entry is left over. `age` tells the age of a directory in
/// nanoseconds, where it can.
pub fn is_leftover<A: Fn(&str) -> Option<u128>>(
    entry: &TempEntry,
    prefixes: &Vec<&'static str>,
    max_age: u128,
    age: &A,
) -> (stale: bool)
    requires
        forall|path: &str| call_requires(*age, (path,)),
    ensures
        decides_leftover(*entry, prefix_views(prefixes@), max_age, *age, stale),
{
    if !matches_temp_dir(entry, prefixes) {
        return false;
    }
    let known = (*age)(entry.path.as_str());
    assert(has_age(entry.path@, *age, known));
    let stale = match known {
        Some(nanos) => nanos >= max_age,
        None => false,
    };
    assert(decides_staleness(entry.path@, max_age, *age, stale));
    stale
}

/// The paths of the entries that are marked, in order.
pub open spec fn marked_paths(entries: Seq<TempEntry>, marks: Seq<bool>) -> Seq<String>
    decreases entries.len(),
{
    if entries.len() == 0 {
        Seq::empty()
    } else {
        let before = marked_paths(entries.drop_last(), marks.drop_last());
        if marks.last() {
            before.push(entries.last().path)
        } else {
            before
        }
    }
}

/// The marks say of each entry whether it is left over.
pub open spec fn marks_leftovers<A: Fn(&str) -> Option<u128>>(
    entries: Seq<TempEntry>,
    prefixes: Seq<Seq<char>>,
    max_age: u128,
    age: A,
    marks: Seq<bool>,
) -> bool {
    &&& marks.len() == entries.len()
    &&& forall|i: int|
        #![trigger marks[i]]
        0 <= i < entries.len() ==> decides_leftover(entries[i], prefixes, max_age, age, marks[i])
}

/// `paths` are those of the entries that are left over, in order.
pub open spec fn are_leftovers<A: Fn(&str) -> Option<u128>>(
    entries: Seq<TempEntry>,
    prefixes: Seq<Seq<char>>,
    max_age: u128,
    age: A,
    paths: Seq<String>,
) -> bool {
    exists|marks: Seq<bool>| #[trigger]
        marks_leftovers(entries, prefixes, max_age, age, marks) && paths == marked_paths(
            entries,
            marks,
        )
}

/// The entries of one directory that are left over.
pub fn leftovers_in<A: Fn(&str) -> Option<u128>>(
    entries: &Vec<TempEntry>,
    prefixes: &Vec<&'static str>,
    max_age: u128,
    age: &A,
) -> (paths: Vec<String>)
    requires
        forall|path: &str| call_requires(*age, (path,)),
    ensures
        are_leftovers(entries@, prefix_views(prefixes@), max_age, *age, paths@),
{
    let mut paths: Vec<String> = Vec::new();
    let ghost mut marks: Seq<bool> = Seq::empty();
    let mut i: usize = 0;
    while i < entries.len()
        invariant
            i <= entries@.len(),
            forall|path: &str| call_requires(*age, (path,)),
            marks_leftovers(
                entries@.take(i as int),
                prefix_views(prefixes@),
                max_age,
                *age,
                marks,
            ),
            paths@ == marked_paths(entries@.take(i as int), marks),
        decreases entries@.len() - i,
    {
        let stale = is_leftover(&entries[i], prefixes, max_age, age);
        proof {
            let done = entries@.take(i as int);
            let grown = entries@.take(i + 1);
            let before = marks;
            marks = marks.push(stale);
            assert(grown.drop_last() =~= done);
            assert(marks.drop_last() =~= before);
            assert forall|k: int|
                #![trigger marks[k]]
                0 <= k < grown.len() implies decides_leftover(
                grown[k],
                prefix_views(prefixes@),
                max_age,
                *age,
                marks[k],
            ) by {
                if k < i {
                    assert(before[k] == marks[k]);
                    assert(done[k] == grown[k]);
                }
            }
        }
        if stale {
            paths.push(entries[i].path.clone());
        }
        i += 1;
    }
    assert(entries@.take(i as int) =~= entries@);
    paths
}

/// Whatever is left over is a directory whose name begins as that of a temporary
/// one, and it is known to be at least as old as `max_age`.
pub proof fn law_leftovers_are_old_temp_dirs<A: Fn(&str) -> Option<u128>>(
    entries: Seq<TempEntry>,
    prefixes: Seq<Seq<char>>,
    max_age: u128,
    age: A,
    paths: Seq<String>,
    k: int,
)
    requires
        are_leftovers(entries, prefixes, max_age, age, paths),
        0 <= k < paths.len(),
    ensures
        exists|i: int|
            {
                &&& 0 <= i < entries.len()
                &&& (#[trigger] entries[i]).path == paths[k]
                &&& is_temp_dir(entries[i], prefixes)
                &&& decides_staleness(entries[i].path@, max_age, age, true)
            },
{
    let marks = choose|marks: Seq<bool>| #[trigger]
        marks_leftovers(entries, prefixes, max_age, age, marks) && paths == marked_paths(
            entries,
            marks,
        );
    lemma_marked_entry(entries, marks, k);
}

proof fn lemma_marked_entry(entries: Seq<TempEntry>, marks: Seq<bool>, k: int)
    requires
        marks.len() == entries.len(),
        0 <= k < marked_paths(entries, marks).len(),
    ensures
        exists|i: int|
            {
                &&& 0 <= i < entries.len()
                &&& (#[trigger] entries[i]).path == marked_paths(entries, marks)[k]
                &&& #[trigger] marks[i]
            },
    decreases entries.len(),
{
    let before = marked_paths(entries.drop_last(), marks.drop_last());
    let last = entries.len() - 1;
    if k < before.len() {
        lemma_marked_entry(entries.drop_last(), marks.drop_last(), k);
        let i = choose|i: int|
            {
                &&& 0 <= i < entries.len() - 1
                &&& (#[trigger] entries.drop_last()[i]).path == before[k]
                &&& #[trigger] marks.drop_last()[i]
            };
        assert(entries[i].path == before[k] && marks[i]);
    } else {
        assert(entries[last].path == marked_paths(entries, marks)[k] && marks[last]);
    }
}

proof fn lemma_marked_path_is_listed(entries: Seq<TempEntry>, marks: Seq<bool>, i: int)
    requires
        marks.len() == entries.len(),
        0 <= i < entries.len(),
        marks[i],
    ensures
        marked_paths(entries, marks).contains(entries[i].path),
    decreases entries.len(),
{
    let all = marked_paths(entries, marks);
    let before = marked_paths(entries.drop_last(), marks.drop_last());
    if i < entries.len() - 1 {
        assert(marks.drop_last()[i]);
        lemma_marked_path_is_listed(entries.drop_last(), marks.drop_last(), i);
        let k = before.index_of(entries[i].path);
        assert(all[k] == entries[i].path);
    } else {
        assert(all[all.len() - 1] == entries[i].path);
    }
}

/// Where `age` tells one age of each directory, what is left over by a larger age
/// limit is left over by a smaller one too.
pub proof fn law_larger_age_limit_leaves_fewer_over<A: Fn(&str) -> Option<u128>>(
    entries: Seq<TempEntry>,
    prefixes: Seq<Seq<char>>,
    smaller: u128,
    larger: u128,
    age: A,
    more: Seq<String>,
    fewer: Seq<String>,
    k: int,
)
    requires
        smaller <= larger,
        forall|path: Seq<char>, a: Option<u128>, b: Option<u128>|
            #![trigger has_age(path, age, a), has_age(path, age, b)]
            has_age(path, age, a) && has_age(path, age, b) ==> a == b,
        are_leftovers(entries, prefixes, smaller, age, more),
        are_leftovers(entries, prefixes, larger, age, fewer),
        0 <= k < fewer.len(),
    ensures
        more.contains(fewer[k]),
{
    let marks = choose|marks: Seq<bool>| #[trigger]
        marks_leftovers(entries, prefixes, larger, age, marks) && fewer == marked_paths(
            entries,
            marks,
        );
    let wider = choose|wider: Seq<bool>| #[trigger]
        marks_leftovers(entries, prefixes, smaller, age, wider) && more == marked_paths(
            entries,
            wider,
        );
    lemma_marked_entry(entries, marks, k);
    let i = choose|i: int|
        {
            &&& 0 <= i < entries.len()
            &&& (#[trigger] entries[i]).path == fewer[k]
            &&& #[trigger] marks[i]
        };
    assert(decides_leftover(entries[i], prefixes, larger, age, marks[i]));
    assert(decides_leftover(entries[i], prefixes, smaller, age, wider[i]));
    lemma_marked_path_is_listed(entries, wider, i);
}

/// Temporary directories are looked for in two places: those of adding and
/// upgrading below the staging directory, and those that keep a replaced
/// marketplace below the install root itself.
pub proof fn law_temp_dirs_are_looked_for_in_two_places<J: Fn(&str, &str) -> String>(
    install_root: &str,
    join: J,
    parents: Vec<TempDirParent>,
)
    requires
        call_ensures(temp_dir_parents::<J>, (install_root, &join), parents),
    ensures
        parents@.len() == 2,
        exists|base: &str, name: &str|
            base@ == install_root@ && name@ == ".staging"@ && #[trigger] call_ensures(
                join,
                (base, name),
                parents@[0].path,
            ),
        parents@[0].prefixes@.len() == 2,
        parents@[0].prefixes@[0]@ == "marketplace-upgrade-"@,
        parents@[0].prefixes@[1]@ == "marketplace-add-"@,
        parents@[1].path@ == install_root@,
        parents@[1].prefixes@.len() == 1,
        parents@[1].prefixes@[0]@ == "marketplace-backup-"@,
{
    let staging = prefix_views(parents@[0].prefixes@);
    let backups = prefix_views(parents@[1].prefixes@);
    assert(staging.len() == parents@[0].prefixes@.len());
    assert(backups.len() == parents@[1].prefixes@.len());
    assert(staging[0] == parents@[0].prefixes@[0]@);
    assert(staging[1] == parents@[0].prefixes@[1]@);
    assert(backups[0] == parents@[1].prefixes@[0]@);
}

/// The entry is known to be a directory, it has a name that is text, and the name
/// begins with one of the given texts.
pub open spec fn is_named_as(entry: TempEntry, prefixes: Seq<&'static str>) -> bool {
    &&& entry.is_dir is Some && entry.is_dir->0
    &&& entry.name is Some
    &&& exists|i: int|
        0 <= i < prefixes.len() && #[trigger] prefixes[i]@.is_prefix_of(entry.name->0@)
}

proof fn lemma_named_as(entry: TempEntry, prefixes: Seq<&'static str>)
    ensures
        is_temp_dir(entry, prefix_views(prefixes)) == is_named_as(entry, prefixes),
{
    let views = prefix_views(prefixes);
    assert(views.len() == prefixes.len());
    if entry.name is Some {
        let name = entry.name->0@;
        if begins_with_any(name, views) {
            let i = choose|i: int| 0 <= i < views.len() && #[trigger] views[i].is_prefix_of(name);
            assert(prefixes[i]@.is_prefix_of(name));
        }
        if exists|i: int| 0 <= i < prefixes.len() && #[trigger] prefixes[i]@.is_prefix_of(name) {
            let i = choose|i: int|
                0 <= i < prefixes.len() && #[trigger] prefixes[i]@.is_prefix_of(name);
            assert(views[i].is_prefix_of(name));
        }
    }
}

/// An entry is taken for a temporary directory exactly if it is a directory whose
/// name begins as one of them does, whatever follows in the name.
pub proof fn law_temp_dirs_are_told_by_their_names(
    entry: TempEntry,
    prefixes: Vec<&'static str>,
    yes: bool,
)
    requires
        call_ensures(matches_temp_dir, (&entry, &prefixes), yes),
    ensures
        yes <==> is_named_as(entry, prefixes@),
{
    lemma_named_as(entry, prefixes@);
}

/// All that `age` tells of the directory at the path is `told`.
pub open spec fn only_tells<A: Fn(&str) -> Option<u128>>(
    age: A,
    path: Seq<char>,
    told: Option<u128>,
) -> bool {
    forall|p: &str, known: Option<u128>|
        p@ == path && #[trigger] call_ensures(age, (p,), known) ==> known == told
}

/// Where one age, or none, is told of the entry, it is left over exactly if it is
/// taken for a temporary directory, its age is told, and that is no less than the
/// limit.
pub proof fn law_leftover_is_at_least_as_old_as_the_limit<A: Fn(&str) -> Option<u128>>(
    entry: TempEntry,
    prefixes: Vec<&'static str>,
    max_age: u128,
    age: A,
    stale: bool,
    told: Option<u128>,
)
    requires
        call_ensures(is_leftover::<A>, (&entry, &prefixes, max_age, &age), stale),
        only_tells(age, entry.path@, told),
    ensures
        stale <==> is_named_as(entry, prefixes@) && told is Some && told->0 >= max_age,
{
    lemma_named_as(entry, prefixes@);
}

/// What is left over at one age is left over at every greater age.
pub proof fn law_leftover_stays_one_as_it_ages<
    A: Fn(&str) -> Option<u128>,
    B: Fn(&str) -> Option<u128>,
>(
    entry: TempEntry,
    prefixes: Vec<&'static str>,
    max_age: u128,
    now: A,
    later: B,
    stale_now: bool,
    stale_later: bool,
    younger: u128,
    older: u128,
)
    requires
        call_ensures(is_leftover::<A>, (&entry, &prefixes, max_age, &now), stale_now),
        call_ensures(is_leftover::<B>, (&entry, &prefixes, max_age, &later), stale_later),
        only_tells(now, entry.path@, Some(younger)),
        only_tells(later, entry.path@, Some(older)),
        younger <= older,
    ensures
        stale_now ==> stale_later,
{
    law_leftover_is_at_least_as_old_as_the_limit(
        entry,
        prefixes,
        max_age,
        now,
        stale_now,
        Some(younger),
    );
    law_leftover_is_at_least_as_old_as_the_limit(
        entry,
        prefixes,
        max_age,
        later,
        stale_later,
        Some(older),
    );
}

/// Says of a place whether the entry there is a temporary directory that is told to
/// be no younger than the limit.
pub open spec fn is_old_at(
    entries: Seq<TempEntry>,
    prefixes: Seq<&'static str>,
    max_age: u128,
    ages: Seq<Option<u128>>,
) -> spec_fn(int) -> bool {
    |i: int|
        is_named_as(entries[i], prefixes) && ages[i] is Some && ages[i]->0 >= max_age
}

/// The places of `len` entries, in order.
pub open spec fn places(len: nat) -> Seq<int> {
    Seq::new(len, |i: int| i)
}

proof fn lemma_marked_paths_by_place(
    entries: Seq<TempEntry>,
    marks: Seq<bool>,
    all: Seq<TempEntry>,
    keep: spec_fn(int) -> bool,
)
    requires
        marks.len() == entries.len(),
        entries.len() <= all.len(),
        forall|i: int| 0 <= i < entries.len() ==> entries[i] == #[trigger] all[i],
        forall|i: int| 0 <= i < entries.len() ==> #[trigger] marks[i] == keep(i),
    ensures
        marked_paths(entries, marks) == places(entries.len()).filter(keep).map_values(
            |i: int| all[i].path,
        ),
    decreases entries.len(),
{
    reveal(Seq::filter);
    let path = |i: int| all[i].path;
    if entries.len() == 0 {
        assert(places(0).filter(keep) =~= Seq::empty());
    } else {
        let init = entries.drop_last();
        let last = entries.len() - 1;
        assert forall|i: int| 0 <= i < init.len() implies init[i] == #[trigger] all[i] by {
            assert(entries[i] == all[i]);
        }
        assert forall|i: int| 0 <= i < init.len() implies #[trigger] marks.drop_last()[i]
            == keep(i) by {
            assert(marks[i] == keep(i));
        }
        lemma_marked_paths_by_place(init, marks.drop_last(), all, keep);
        assert(places(entries.len()).drop_last() =~= places(init.len()));
        assert(places(entries.len()).last() == last);
        let kept = places(init.len()).filter(keep);
        assert(marks[last] == keep(last));
        assert(entries[last] == all[last]);
        if keep(last) {
            assert(kept.push(last).map_values(path) =~= kept.map_values(path).push(path(last)));
        }
    }
}

/// Where one age, or none, is told of each entry, the leftovers are the paths of
/// those entries that are temporary directories and no younger than the limit: all
/// of them, in the order in which they are listed, and no other.
pub proof fn law_all_old_temp_dirs_are_leftovers<A: Fn(&str) -> Option<u128>>(
    entries: Vec<TempEntry>,
    prefixes: Vec<&'static str>,
    max_age: u128,
    age: A,
    paths: Vec<String>,
    ages: Seq<Option<u128>>,
)
    requires
        call_ensures(leftovers_in::<A>, (&entries, &prefixes, max_age, &age), paths),
        forall|i: int|
            #![trigger ages[i]]
            0 <= i < entries@.len() ==> only_tells(age, entries@[i].path@, ages[i]),
    ensures
        paths@ == places(entries@.len()).filter(
            is_old_at(entries@, prefixes@, max_age, ages),
        ).map_values(|i: int| entries@[i].path),
{
    let views = prefix_views(prefixes@);
    let keep = is_old_at(entries@, prefixes@, max_age, ages);
    let marks = choose|marks: Seq<bool>| #[trigger]
        marks_leftovers(entries@, views, max_age, age, marks) && paths@ == marked_paths(
            entries@,
            marks,
        );
    assert forall|i: int| 0 <= i < entries@.len() implies #[trigger] marks[i] == keep(i) by {
        lemma_named_as(entries@[i], prefixes@);
        assert(only_tells(age, entries@[i].path@, ages[i]));
        assert(decides_leftover(entries@[i], views, max_age, age, marks[i]));
    }
    lemma_marked_paths_by_place(entries@, marks, entries@, keep);
}

/// Whether the path of one entry is among the leftovers, where no other entry has
/// its path: exactly if it is a temporary directory that is told to be no younger
/// than the limit.
pub proof fn law_one_entry_is_a_leftover_by_its_age<A: Fn(&str) -> Option<u128>>(
    entries: Vec<TempEntry>,
    prefixes: Vec<&'static str>,
    max_age: u128,
    age: A,
    paths: Vec<String>,
    at: int,
    told: u128,
)
    requires
        call_ensures(leftovers_in::<A>, (&entries, &prefixes, max_age, &age), paths),
        0 <= at < entries@.len(),
        only_tells(age, entries@[at].path@, Some(told)),
        forall|i: int|
            0 <= i < entries@.len() && i != at ==> (#[trigger] entries@[i]).path
                != entries@[at].path,
    ensures
        paths@.contains(entries@[at].path) <==> is_named_as(entries@[at], prefixes@) && told
            >= max_age,
{
    let views = prefix_views(prefixes@);
    let marks = choose|marks: Seq<bool>| #[trigger]
        marks_leftovers(entries@, views, max_age, age, marks) && paths@ == marked_paths(
            entries@,
            marks,
        );
    lemma_named_as(entries@[at], prefixes@);
    assert(decides_leftover(entries@[at], views, max_age, age, marks[at]));
    if marks[at] {
        lemma_marked_path_is_listed(entries@, marks, at);
    }
    if paths@.contains(entries@[at].path) {
        lemma_marked_entry(entries@, marks, paths@.index_of(entries@[at].path));
    }
}

} // verus!
