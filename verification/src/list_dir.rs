//! The `list_dir` tool: its entries, and the page of them that is shown.

use crate::error::{respond, responds, FunctionCallError};
use crate::order::{
    lemma_bytes_antisymmetric, lemma_bytes_total, lemma_bytes_transitive, text_le, text_precedes,
};
use crate::sort::{
    is_sorting_of, law_sorting_is_determined, lemma_multiset_map, ranks_by, sort_ranked, Ranked,
};
use crate::text::{
    clipped, decimal, decimal_text, law_clipped_is_longest, lemma_bytes_determine_text,
    replace_char, replaced, take_bytes_at_char_boundary, texts,
};
use vstd::prelude::*;
use vstd::utf8::encode_utf8;

verus! {

/// The most bytes that an entry's name takes in the listing.
pub const MAX_ENTRY_LENGTH: usize = 500;

/// The number of spaces by which each level is indented.
pub const INDENTATION_SPACES: usize = 2;

/// The entry number that a listing starts with where none is given.
pub fn default_offset() -> (offset: usize)
    ensures
        offset == 1,
{
    1
}

/// The number of entries shown where none is given.
pub fn default_limit() -> (limit: usize)
    ensures
        limit == 25,
{
    25
}

/// The number of levels shown where none is given.
pub fn default_depth() -> (depth: usize)
    ensures
        depth == 2,
{
    2
}

/// What kind of thing a directory entry is.
#[derive(Clone, Copy, Debug, PartialEq, Eq, Structural)]
pub enum DirEntryKind {
    Directory,
    File,
    Symlink,
    Other,
}

/// What the file system says of a path, without following a symbolic link.
#[derive(Clone, Copy, Debug, PartialEq, Eq, Structural)]
pub struct FileMetadata {
    pub is_directory: bool,
    pub is_file: bool,
    pub is_symlink: bool,
}

/// The kind that the metadata stands for; a symbolic link is one whatever it
/// leads to.
pub open spec fn kind_of(metadata: FileMetadata) -> DirEntryKind {
    if metadata.is_symlink {
        DirEntryKind::Symlink
    } else if metadata.is_directory {
        DirEntryKind::Directory
    } else if metadata.is_file {
        DirEntryKind::File
    } else {
        DirEntryKind::Other
    }
}

impl From<&FileMetadata> for DirEntryKind {
    fn from(metadata: &FileMetadata) -> (kind: DirEntryKind) {
        if metadata.is_symlink {
            DirEntryKind::Symlink
        } else if metadata.is_directory {
            DirEntryKind::Directory
        } else if metadata.is_file {
            DirEntryKind::File
        } else {
            DirEntryKind::Other
        }
    }
}

impl vstd::std_specs::convert::FromSpecImpl<&FileMetadata> for DirEntryKind {
    open spec fn obeys_from_spec() -> bool {
        true
    }

    open spec fn from_spec(metadata: &FileMetadata) -> DirEntryKind {
        kind_of(*metadata)
    }
}

/// One line of a listing.
pub struct DirEntry {
    /// The path below the listed directory, by which entries are sorted.
    pub name: String,
    /// The name that is shown.
    pub display_name: String,
    /// How many directories lie between the entry and the listed one.
    pub depth: usize,
    pub kind: DirEntryKind,
}

/// What an entry says.
pub struct EntryView {
    pub name: Seq<char>,
    pub display_name: Seq<char>,
    pub depth: usize,
    pub kind: DirEntryKind,
}

impl View for DirEntry {
    type V = EntryView;

    open spec fn view(&self) -> EntryView {
        EntryView {
            name: self.name@,
            display_name: self.display_name@,
            depth: self.depth,
            kind: self.kind,
        }
    }
}

/// What the given entries say, in order.
pub open spec fn entry_views(entries: Seq<DirEntry>) -> Seq<EntryView> {
    entries.map_values(|entry: DirEntry| entry@)
}

/// The sort keys of the given entries, in order.
pub open spec fn entry_names(entries: Seq<DirEntry>) -> Seq<Seq<char>> {
    entries.map_values(|entry: DirEntry| entry.name@)
}

impl Ranked for DirEntry {
    open spec fn ranks_before(&self, other: &DirEntry) -> bool {
        text_le(self.name@, other.name@)
    }

    proof fn rank_total(a: &DirEntry, b: &DirEntry) {
        lemma_bytes_total(encode_utf8(a.name@), encode_utf8(b.name@));
    }

    proof fn rank_transitive(a: &DirEntry, b: &DirEntry, c: &DirEntry) {
        lemma_bytes_transitive(
            encode_utf8(a.name@),
            encode_utf8(b.name@),
            encode_utf8(c.name@),
        );
    }

    fn may_precede(&self, other: &DirEntry) -> (yes: bool) {
        text_precedes(self.name.as_str(), other.name.as_str())
    }
}

/// The sort key of the entry at `path`: `/` for every backslash, cut to the
/// longest prefix that fits.
pub open spec fn entry_name(path: Seq<char>) -> Seq<char> {
    clipped(replaced(path, '\\', '/'), MAX_ENTRY_LENGTH as nat)
}

/// The sort key of the entry at the relative path `path`.
pub fn format_entry_name(path: &str) -> (name: String)
    ensures
        name@ == entry_name(path@),
{
    let normalized = replace_char(path, '\\', '/');
    take_bytes_at_char_boundary(normalized.as_str(), MAX_ENTRY_LENGTH)
}

/// The shown name of an entry: cut to the longest prefix that fits.
pub fn format_entry_component(name: &str) -> (shown: String)
    ensures
        shown@ == clipped(name@, MAX_ENTRY_LENGTH as nat),
{
    take_bytes_at_char_boundary(name, MAX_ENTRY_LENGTH)
}

/// What is put behind the name of an entry.
pub open spec fn kind_suffix(kind: DirEntryKind) -> Seq<char> {
    match kind {
        DirEntryKind::Directory => seq!['/'],
        DirEntryKind::Symlink => seq!['@'],
        DirEntryKind::Other => seq!['?'],
        DirEntryKind::File => Seq::empty(),
    }
}

/// `n` spaces.
pub open spec fn spaces(n: nat) -> Seq<char> {
    Seq::new(n, |i: int| ' ')
}

/// The line that shows an entry.
pub open spec fn entry_line(entry: DirEntry) -> Seq<char> {
    spaces((entry.depth * INDENTATION_SPACES) as nat) + entry.display_name@ + kind_suffix(
        entry.kind,
    )
}

/// The line that shows `entry`: indented by its depth and marked by its kind.
pub fn format_entry_line(entry: &DirEntry) -> (line: String)
    ensures
        line@ == entry_line(*entry),
{
    let mut line = String::new();
    let mut level: usize = 0;
    while level < entry.depth
        invariant
            level <= entry.depth,
            line@ == spaces((level * INDENTATION_SPACES) as nat),
        decreases entry.depth - level,
    {
        line.push(' ');
        line.push(' ');
        level += 1;
        assert(line@ =~= spaces((level * INDENTATION_SPACES) as nat));
    }
    line.append(entry.display_name.as_str());
    match entry.kind {
        DirEntryKind::Directory => line.push('/'),
        DirEntryKind::Symlink => line.push('@'),
        DirEntryKind::Other => line.push('?'),
        DirEntryKind::File => {},
    }
    assert(line@ =~= entry_line(*entry));
    line
}

/// How many of the `len` entries a page shows that starts at entry number
/// `offset`.
pub open spec fn page_count(len: nat, offset: nat, limit: nat) -> nat {
    let remaining = (len - (offset - 1)) as nat;
    if limit <= remaining {
        limit
    } else {
        remaining
    }
}

/// The entries of the page.
pub open spec fn page_entries(sorted: Seq<DirEntry>, offset: nat, limit: nat) -> Seq<DirEntry> {
    sorted.subrange(offset - 1, offset - 1 + page_count(sorted.len(), offset, limit))
}

/// The line that says that the page is not the last.
pub open spec fn more_line(count: nat) -> Seq<char> {
    "More than "@ + decimal(count) + " entries found"@
}

/// The lines of the page: its entries, and a last line where entries follow.
pub open spec fn page_lines(sorted: Seq<DirEntry>, offset: nat, limit: nat) -> Seq<Seq<char>> {
    let count = page_count(sorted.len(), offset, limit);
    let lines = page_entries(sorted, offset, limit).map_values(|e: DirEntry| entry_line(e));
    if offset - 1 + count < sorted.len() {
        lines.push(more_line(count))
    } else {
        lines
    }
}

/// The listing: the lines of the page of the sorted entries.
pub open spec fn is_page_of(
    lines: Seq<String>,
    entries: Seq<DirEntry>,
    offset: nat,
    limit: nat,
) -> bool {
    exists|sorted: Seq<DirEntry>|
        is_sorting_of(sorted, entries) && texts(lines) == page_lines(sorted, offset, limit)
}

/// The page of at most `limit` of the entries, in the order of their names, that
/// starts at entry number `offset`, which counts from one. No entries make an
/// empty page whatever the offset.
pub fn list_dir_slice(entries: Vec<DirEntry>, offset: usize, limit: usize) -> (page: Result<
    Vec<String>,
    FunctionCallError,
>)
    requires
        offset >= 1,
    ensures
        match page {
            Ok(lines) => if entries@.len() == 0 {
                lines@.len() == 0
            } else {
                offset <= entries@.len() && is_page_of(
                    lines@,
                    entries@,
                    offset as nat,
                    limit as nat,
                )
            },
            Err(error) => 0 < entries@.len() < offset && responds(
                error,
                "offset exceeds directory entry count"@,
            ),
        },
{
    if entries.len() == 0 {
        return Ok(Vec::new());
    }
    let ghost all = entries@;
    let sorted = sort_ranked(entries);
    proof {
        vstd::seq_lib::to_multiset_len(sorted@);
        vstd::seq_lib::to_multiset_len(all);
    }
    let start = offset - 1;
    if start >= sorted.len() {
        return Err(respond("offset exceeds directory entry count"));
    }
    let remaining = sorted.len() - start;
    let count = if limit < remaining { limit } else { remaining };
    let end = start + count;
    let mut lines: Vec<String> = Vec::new();
    let ghost shown = page_entries(sorted@, offset as nat, limit as nat);
    let ghost wanted = shown.map_values(|e: DirEntry| entry_line(e));
    let mut i: usize = start;
    assert(texts(lines@) =~= wanted.take(0));
    while i < end
        invariant
            start <= i <= end <= sorted@.len(),
            shown == sorted@.subrange(start as int, end as int),
            wanted == shown.map_values(|e: DirEntry| entry_line(e)),
            texts(lines@) == wanted.take(i - start),
        decreases end - i,
    {
        let line = format_entry_line(&sorted[i]);
        let ghost before = lines@;
        lines.push(line);
        proof {
            assert(shown[i - start] == sorted@[i as int]);
            assert(texts(lines@) =~= texts(before).push(line@));
            assert(wanted.take(i - start + 1) =~= wanted.take(i - start).push(wanted[i - start]));
        }
        i += 1;
    }
    assert(wanted.take(end - start) =~= wanted);
    if end < sorted.len() {
        let mut line = "More than ".to_owned();
        line.append(decimal_text(count).as_str());
        line.append(" entries found");
        let ghost before = lines@;
        lines.push(line);
        assert(texts(lines@) =~= texts(before).push(line@));
    }
    Ok(lines)
}

/// A page and the page that starts where it ends show together what one page
/// over both shows: no entry is left out or shown twice.
pub proof fn law_pages_meet(sorted: Seq<DirEntry>, offset: nat, first: nat, second: nat)
    requires
        offset >= 1,
        offset - 1 + first < sorted.len(),
    ensures
        page_entries(sorted, offset, first) + page_entries(sorted, offset + first, second)
            == page_entries(sorted, offset, first + second),
{
    assert(page_entries(sorted, offset, first) + page_entries(sorted, offset + first, second)
        =~= page_entries(sorted, offset, first + second));
}

/// A page shows at most `limit` entries, and ends in the line that says that
/// entries follow exactly where the last entry is not on it.
pub proof fn law_page_says_whether_more_follow(sorted: Seq<DirEntry>, offset: nat, limit: nat)
    requires
        1 <= offset <= sorted.len(),
    ensures
        page_entries(sorted, offset, limit).len() <= limit,
        (page_lines(sorted, offset, limit).len() == page_entries(sorted, offset, limit).len() + 1)
            <==> offset - 1 + page_entries(sorted, offset, limit).len() < sorted.len(),
        page_lines(sorted, offset, limit).len() == page_entries(sorted, offset, limit).len() + 1
            ==> page_lines(sorted, offset, limit).last() == more_line(limit),
{
}

/// Formatting the sort key of an entry once more changes nothing.
pub proof fn law_entry_name_is_stable(path: Seq<char>)
    ensures
        entry_name(entry_name(path)) == entry_name(path),
{
    let name = entry_name(path);
    let normalized = replaced(path, '\\', '/');
    law_clipped_is_longest(normalized, MAX_ENTRY_LENGTH as nat, name);
    assert(replaced(name, '\\', '/') =~= name) by {
        assert forall|i: int| 0 <= i < name.len() implies name[i] != '\\' by {
            assert(name[i] == normalized[i]);
        }
    }
}

proof fn lemma_sorting_is_unique(a: Seq<EntryView>, b: Seq<EntryView>)
    requires
        forall|i: int, j: int|
            #![trigger a[i], a[j]]
            0 <= i < j < a.len() ==> text_le(a[i].name, a[j].name) && a[i].name != a[j].name,
        forall|i: int, j: int|
            #![trigger b[i], b[j]]
            0 <= i < j < b.len() ==> text_le(b[i].name, b[j].name),
        a.to_multiset() == b.to_multiset(),
    ensures
        a == b,
    decreases a.len(),
{
    broadcast use vstd::seq_lib::group_to_multiset_ensures;

    assert(a.len() == a.to_multiset().len());
    assert(b.len() == b.to_multiset().len());
    if a.len() == 0 {
        assert(a =~= b);
    } else {
        let last = a.len() - 1;
        assert(a.to_multiset().count(a[last]) > 0);
        assert(b.to_multiset().count(b[last]) > 0);
        assert(b.contains(a[last]) && a.contains(b[last]));
        let j = b.index_of(a[last]);
        let i = a.index_of(b[last]);
        if i != last {
            assert(text_le(a[i].name, a[last].name));
            assert(text_le(b[j].name, b[last].name));
            lemma_bytes_antisymmetric(encode_utf8(a[i].name), encode_utf8(a[last].name));
            lemma_bytes_determine_text(a[i].name, a[last].name);
            assert(false);
        }
        assert(a[last] == b[last]);
        let x = a.drop_last();
        let y = b.drop_last();
        assert(a =~= x.push(a[last]));
        assert(b =~= y.push(b[last]));
        assert(x.to_multiset() =~= a.to_multiset().remove(a[last]));
        assert(y.to_multiset() =~= b.to_multiset().remove(b[last]));
        assert forall|k: int, l: int|
            #![trigger x[k], x[l]]
            0 <= k < l < x.len() implies text_le(x[k].name, x[l].name) && x[k].name
            != x[l].name by {
            assert(x[k] == a[k] && x[l] == a[l]);
        }
        assert forall|k: int, l: int|
            #![trigger y[k], y[l]]
            0 <= k < l < y.len() implies text_le(y[k].name, y[l].name) by {
            assert(y[k] == b[k] && y[l] == b[l]);
        }
        lemma_sorting_is_unique(x, y);
    }
}

/// Entries with distinct sort keys are sorted in one way only: whoever sorts the
/// same entries gets the same list.
pub proof fn law_sorting_is_unique(
    sorted_a: Seq<DirEntry>,
    sorted_b: Seq<DirEntry>,
    entries_a: Seq<DirEntry>,
    entries_b: Seq<DirEntry>,
)
    requires
        is_sorting_of(sorted_a, entries_a),
        is_sorting_of(sorted_b, entries_b),
        entry_views(entries_a).to_multiset() == entry_views(entries_b).to_multiset(),
        entry_names(entries_a).no_duplicates(),
    ensures
        entry_views(sorted_a) == entry_views(sorted_b),
{
    let a = entry_views(sorted_a);
    let b = entry_views(sorted_b);
    let view = |entry: DirEntry| entry@;
    let name = |entry: DirEntry| entry.name@;
    lemma_multiset_map(sorted_a, entries_a, view);
    lemma_multiset_map(sorted_b, entries_b, view);
    lemma_multiset_map(sorted_a, entries_a, name);
    assert(a =~= sorted_a.map_values(view) && b =~= sorted_b.map_values(view));
    assert(entry_views(entries_a) =~= entries_a.map_values(view));
    assert(entry_views(entries_b) =~= entries_b.map_values(view));
    let names = entry_names(sorted_a);
    assert(names =~= sorted_a.map_values(name));
    assert(entry_names(entries_a) =~= entries_a.map_values(name));
    entry_names(entries_a).lemma_multiset_has_no_duplicates();
    names.lemma_multiset_has_no_duplicates_conv();
    assert forall|i: int, j: int| #![trigger a[i], a[j]] 0 <= i < j < a.len() implies text_le(
        a[i].name,
        a[j].name,
    ) && a[i].name != a[j].name by {
        assert(sorted_a[i].ranks_before(&sorted_a[j]));
        assert(names[i] != names[j]);
    }
    assert forall|i: int, j: int| #![trigger b[i], b[j]] 0 <= i < j < b.len() implies text_le(
        b[i].name,
        b[j].name,
    ) by {
        assert(sorted_b[i].ranks_before(&sorted_b[j]));
    }
    lemma_sorting_is_unique(a, b);
}

/// The rank of an entry depends on what it says alone.
pub proof fn lemma_entries_rank_by_view()
    ensures
        ranks_by::<DirEntry, EntryView>(|entry: DirEntry| entry@),
{
    let view = |entry: DirEntry| entry@;
    assert forall|a: DirEntry, b: DirEntry, c: DirEntry, d: DirEntry|
        #![trigger a.ranks_before(&b), c.ranks_before(&d)]
        view(a) == view(c) && view(b) == view(d) implies a.ranks_before(&b) == c.ranks_before(
        &d,
    ) by {
        assert(a@.name == c@.name && b@.name == d@.name);
    }
}

/// Lists of entries that say the same are sorted to lists that say the same.
pub proof fn law_equal_entries_are_sorted_alike(
    sorted_a: Seq<DirEntry>,
    sorted_b: Seq<DirEntry>,
    entries_a: Seq<DirEntry>,
    entries_b: Seq<DirEntry>,
)
    requires
        is_sorting_of(sorted_a, entries_a),
        is_sorting_of(sorted_b, entries_b),
        entry_views(entries_a) == entry_views(entries_b),
    ensures
        entry_views(sorted_a) == entry_views(sorted_b),
{
    lemma_entries_rank_by_view();
    law_sorting_is_determined(
        sorted_a,
        sorted_b,
        entries_a,
        entries_b,
        |entry: DirEntry| entry@,
    );
}

/// The same page of the same entries has the same lines each time.
pub proof fn law_pages_are_repeatable(
    lines_a: Seq<String>,
    lines_b: Seq<String>,
    entries_a: Seq<DirEntry>,
    entries_b: Seq<DirEntry>,
    offset: nat,
    limit: nat,
)
    requires
        1 <= offset <= entries_a.len(),
        is_page_of(lines_a, entries_a, offset, limit),
        is_page_of(lines_b, entries_b, offset, limit),
        entry_views(entries_a) == entry_views(entries_b),
    ensures
        texts(lines_a) == texts(lines_b),
{
    let a = choose|sorted: Seq<DirEntry>|
        is_sorting_of(sorted, entries_a) && texts(lines_a) == page_lines(sorted, offset, limit);
    let b = choose|sorted: Seq<DirEntry>|
        is_sorting_of(sorted, entries_b) && texts(lines_b) == page_lines(sorted, offset, limit);
    law_equal_entries_are_sorted_alike(a, b, entries_a, entries_b);
    vstd::seq_lib::to_multiset_len(a);
    vstd::seq_lib::to_multiset_len(entries_a);
    assert(entry_views(a).len() == a.len() && entry_views(b).len() == b.len());
    let shown_a = page_entries(a, offset, limit).map_values(|e: DirEntry| entry_line(e));
    let shown_b = page_entries(b, offset, limit).map_values(|e: DirEntry| entry_line(e));
    assert(shown_a =~= shown_b) by {
        assert forall|i: int| 0 <= i < shown_a.len() implies shown_a[i] == shown_b[i] by {
            assert(entry_views(a)[offset - 1 + i] == entry_views(b)[offset - 1 + i]);
        }
    }
}

/// Where two calls list the same entries, the page of the one and the page of the other
/// that starts where it ends show together what one page over both shows.
pub proof fn law_pages_of_two_calls_meet(
    sorted_a: Seq<DirEntry>,
    sorted_b: Seq<DirEntry>,
    entries_a: Seq<DirEntry>,
    entries_b: Seq<DirEntry>,
    offset: nat,
    first: nat,
    second: nat,
)
    requires
        is_sorting_of(sorted_a, entries_a),
        is_sorting_of(sorted_b, entries_b),
        entry_views(entries_a) == entry_views(entries_b),
        offset >= 1,
        offset - 1 + first < sorted_a.len(),
    ensures
        entry_views(page_entries(sorted_a, offset, first)) + entry_views(
            page_entries(sorted_b, offset + first, second),
        ) == entry_views(page_entries(sorted_a, offset, first + second)),
{
    law_equal_entries_are_sorted_alike(sorted_a, sorted_b, entries_a, entries_b);
    law_pages_meet(sorted_a, offset, first, second);
    let a = entry_views(sorted_a);
    let b = entry_views(sorted_b);
    assert(a.len() == sorted_a.len() && b.len() == sorted_b.len());
    let from_a = entry_views(page_entries(sorted_a, offset + first, second));
    let from_b = entry_views(page_entries(sorted_b, offset + first, second));
    assert(from_a =~= from_b) by {
        assert forall|i: int| 0 <= i < from_a.len() implies from_a[i] == from_b[i] by {
            assert(a[offset + first - 1 + i] == b[offset + first - 1 + i]);
        }
    }
    assert(entry_views(page_entries(sorted_a, offset, first)) + from_a =~= entry_views(
        page_entries(sorted_a, offset, first) + page_entries(sorted_a, offset + first, second),
    ));
}

/// Where nothing is asked for, a listing starts at the first entry and shows 25
/// entries of two levels.
pub proof fn law_defaults_are_fixed(offset: usize, limit: usize, depth: usize)
    requires
        call_ensures(default_offset, (), offset),
        call_ensures(default_limit, (), limit),
        call_ensures(default_depth, (), depth),
    ensures
        offset == 1,
        limit == 25,
        depth == 2,
{
}

/// A symbolic link is one whatever it leads to. Of anything else, a directory is a
/// directory, and what is neither a directory nor a file is something else.
pub proof fn law_links_are_not_followed(metadata: FileMetadata)
    ensures
        kind_of(metadata) is Symlink <==> metadata.is_symlink,
        kind_of(metadata) is Directory <==> metadata.is_directory && !metadata.is_symlink,
        kind_of(metadata) is File <==> metadata.is_file && !metadata.is_directory
            && !metadata.is_symlink,
        kind_of(metadata) is Other <==> !metadata.is_file && !metadata.is_directory
            && !metadata.is_symlink,
{
}

/// The sort key of an entry holds the characters of its path in order, each
/// backslash as a slash, from the first character on. It takes 500 bytes at most,
/// and ends only where the path does or one more character would not fit.
pub proof fn law_sort_key_follows_the_path(path: &str, name: String)
    requires
        call_ensures(format_entry_name, (path,), name),
    ensures
        name@.len() <= path@.len(),
        forall|i: int|
            #![trigger name@[i]]
            0 <= i < name@.len() ==> name@[i] == if path@[i] == '\\' {
                '/'
            } else {
                path@[i]
            },
        encode_utf8(name@).len() <= 500,
        name@.len() < path@.len() ==> encode_utf8(
            name@.push(
                if path@[name@.len() as int] == '\\' {
                    '/'
                } else {
                    path@[name@.len() as int]
                },
            ),
        ).len() > 500,
{
    let normalized = replaced(path@, '\\', '/');
    law_clipped_is_longest(normalized, 500, name@);
    assert forall|i: int|
        #![trigger name@[i]]
        0 <= i < name@.len() implies name@[i] == if path@[i] == '\\' {
        '/'
    } else {
        path@[i]
    } by {
        assert(name@[i] == normalized[i]);
    }
    if name@.len() < path@.len() {
        let longer = normalized.take(name@.len() as int + 1);
        assert(longer.is_prefix_of(normalized)) by {
            assert(longer =~= normalized.subrange(0, longer.len() as int));
        }
        law_clipped_is_longest(normalized, 500, longer);
        assert(longer =~= name@.push(normalized[name@.len() as int]));
    }
}

/// The shown name of an entry is the beginning of its name that fits into 500
/// bytes, and all of it where all of it fits.
pub proof fn law_shown_name_is_the_longest_that_fits(name: &str, shown: String)
    requires
        call_ensures(format_entry_component, (name,), shown),
    ensures
        shown@.is_prefix_of(name@),
        encode_utf8(shown@).len() <= 500,
        encode_utf8(name@).len() <= 500 ==> shown@ == name@,
        shown@.len() < name@.len() ==> encode_utf8(name@.take(shown@.len() as int + 1)).len() > 500,
{
    law_clipped_is_longest(name@, 500, name@);
    let longer = name@.take(shown@.len() as int + 1);
    law_clipped_is_longest(name@, 500, longer);
    assert(name@.is_prefix_of(name@)) by {
        assert(name@ =~= name@.subrange(0, name@.len() as int));
    }
    if shown@.len() < name@.len() {
        assert(longer.is_prefix_of(name@)) by {
            assert(longer =~= name@.subrange(0, longer.len() as int));
        }
    } else {
        assert(shown@ =~= name@);
    }
}

/// The line of an entry begins with two spaces for each level above it, goes on
/// with its shown name, and ends in the mark of its kind. A file has no mark.
pub proof fn law_line_shows_depth_name_and_kind(entry: DirEntry, line: String)
    requires
        call_ensures(format_entry_line, (&entry,), line),
    ensures
        ({
            let indent = 2 * entry.depth as int;
            let shown = entry.display_name@.len() as int;
            &&& line@.len() == indent + shown + if entry.kind is File {
                0int
            } else {
                1
            }
            &&& forall|i: int| 0 <= i < indent ==> #[trigger] line@[i] == ' '
            &&& line@.subrange(indent, indent + shown) == entry.display_name@
            &&& match entry.kind {
                DirEntryKind::Directory => line@.last() == '/',
                DirEntryKind::Symlink => line@.last() == '@',
                DirEntryKind::Other => line@.last() == '?',
                DirEntryKind::File => true,
            }
        }),
{
    let indent = 2 * entry.depth as int;
    let shown = entry.display_name@.len() as int;
    assert(line@.subrange(indent, indent + shown) =~= entry.display_name@);
}

/// The text shows the entry: two spaces for each level, the shown name, and the
/// mark of the kind.
pub open spec fn shows_entry(line: Seq<char>, entry: DirEntry) -> bool {
    line == Seq::new(2 * entry.depth as nat, |i: int| ' ') + entry.display_name@ + (
    match entry.kind {
        DirEntryKind::Directory => "/"@,
        DirEntryKind::Symlink => "@"@,
        DirEntryKind::Other => "?"@,
        DirEntryKind::File => ""@,
    })
}

proof fn lemma_entry_line_shows(entry: DirEntry)
    ensures
        shows_entry(entry_line(entry), entry),
{
    reveal_strlit("/");
    reveal_strlit("@");
    reveal_strlit("?");
    reveal_strlit("");
    assert("/"@ =~= seq!['/']);
    assert("@"@ =~= seq!['@']);
    assert("?"@ =~= seq!['?']);
    assert(""@ =~= Seq::empty());
    assert(spaces((entry.depth * INDENTATION_SPACES) as nat) =~= Seq::new(
        2 * entry.depth as nat,
        |i: int| ' ',
    ));
}

/// The entries in the order of their sort keys: each as often as it was given, and
/// no other.
pub open spec fn in_order_of_names(sorted: Seq<DirEntry>, entries: Seq<DirEntry>) -> bool {
    &&& sorted.to_multiset() == entries.to_multiset()
    &&& forall|i: int, j: int|
        #![trigger sorted[i], sorted[j]]
        0 <= i < j < sorted.len() ==> text_le(sorted[i].name@, sorted[j].name@)
}

/// The lines show the entries in the order of their names from number `offset` on,
/// one line for each, up to the limit. Exactly where entries are left over, one
/// more line says so, with the limit in it.
pub open spec fn shows_page(
    lines: Seq<String>,
    entries: Seq<DirEntry>,
    offset: int,
    limit: int,
) -> bool {
    let left = entries.len() - (offset - 1);
    let shown = if limit < left {
        limit
    } else {
        left
    };
    exists|sorted: Seq<DirEntry>|
        {
            &&& #[trigger] in_order_of_names(sorted, entries)
            &&& lines.len() == if limit < left {
                shown + 1
            } else {
                shown
            }
            &&& forall|i: int|
                #![trigger lines[i]]
                0 <= i < shown ==> shows_entry(lines[i]@, sorted[offset - 1 + i])
            &&& limit < left ==> lines[shown]@ == "More than "@ + decimal(limit as nat)
                + " entries found"@
        }
}

/// The lines of a page show it.
pub proof fn lemma_page_is_shown(
    lines: Seq<String>,
    entries: Seq<DirEntry>,
    offset: nat,
    limit: nat,
)
    requires
        1 <= offset <= entries.len(),
        is_page_of(lines, entries, offset, limit),
    ensures
        shows_page(lines, entries, offset as int, limit as int),
{
    let sorted = choose|sorted: Seq<DirEntry>|
        is_sorting_of(sorted, entries) && texts(lines) == page_lines(sorted, offset, limit);
    vstd::seq_lib::to_multiset_len(sorted);
    vstd::seq_lib::to_multiset_len(entries);
    assert(texts(lines).len() == lines.len());
    let left = entries.len() - (offset - 1);
    let shown = if limit < left {
        limit as int
    } else {
        left
    };
    assert forall|i: int| #![trigger sorted[i]] 0 <= i < sorted.len() implies shows_entry(
        entry_line(sorted[i]),
        sorted[i],
    ) by {
        lemma_entry_line_shows(sorted[i]);
    }
    assert forall|i: int| #![trigger lines[i]] 0 <= i < shown implies shows_entry(
        lines[i]@,
        sorted[offset - 1 + i],
    ) by {
        assert(texts(lines)[i] == lines[i]@);
        assert(page_lines(sorted, offset, limit)[i] == entry_line(sorted[offset - 1 + i]));
    }
    if limit < left {
        assert(texts(lines)[shown] == lines[shown]@);
    }
    assert forall|i: int, j: int|
        #![trigger sorted[i], sorted[j]]
        0 <= i < j < sorted.len() implies text_le(sorted[i].name@, sorted[j].name@) by {
        assert(sorted[i].ranks_before(&sorted[j]));
    }
    assert(in_order_of_names(sorted, entries));
}

/// A page of a listing fails exactly where there are entries but none with the
/// number that it is to start with. Else it shows what is asked for, and nothing
/// where there are no entries.
pub proof fn law_page_shows_its_entries(
    entries: Vec<DirEntry>,
    offset: usize,
    limit: usize,
    page: Result<Vec<String>, FunctionCallError>,
)
    requires
        offset >= 1,
        call_ensures(list_dir_slice, (entries, offset, limit), page),
    ensures
        page is Err <==> 0 < entries@.len() < offset,
        page is Err ==> responds(page->Err_0, "offset exceeds directory entry count"@),
        page is Ok && entries@.len() == 0 ==> page->Ok_0@.len() == 0,
        page is Ok && entries@.len() > 0 ==> shows_page(
            page->Ok_0@,
            entries@,
            offset as int,
            limit as int,
        ),
{
    if page is Ok && entries@.len() > 0 {
        lemma_page_is_shown(page->Ok_0@, entries@, offset as nat, limit as nat);
    }
}

/// The kind that metadata is read as is told by it alone: a link first, then a
/// directory, then a file.
pub proof fn law_metadata_is_read_as_its_kind(metadata: FileMetadata, kind: DirEntryKind)
    requires
        call_ensures(DirEntryKind::from, (&metadata,), kind),
    ensures
        kind is Symlink <==> metadata.is_symlink,
        kind is Directory <==> metadata.is_directory && !metadata.is_symlink,
        kind is File <==> metadata.is_file && !metadata.is_directory && !metadata.is_symlink,
{
}

/// Entries are ranked by their sort keys and by nothing else.
pub proof fn law_entries_are_ranked_by_their_keys(a: DirEntry, b: DirEntry, precedes: bool)
    requires
        call_ensures(DirEntry::may_precede, (&a, &b), precedes),
    ensures
        precedes <==> text_le(a.name@, b.name@),
        a.ranks_before(&b) <==> text_le(a.name@, b.name@),
{
}

/// Entries say the same exactly if they agree in their key, their shown name, their
/// depth and their kind.
pub proof fn law_entries_differ_where_a_part_does(a: DirEntry, b: DirEntry)
    ensures
        a@ == b@ <==> a.name@ == b.name@ && a.display_name@ == b.display_name@ && a.depth == b.depth
            && a.kind == b.kind,
{
}

} // verus!
