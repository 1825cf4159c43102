//! Installed plugin marketplaces: where they are, and what is left over of their
//! installation.

use crate::paths::{
    component_views, components_le, components_precede, joins_to, lemma_paths_total,
    lemma_paths_transitive, PathComponent,
};
use crate::profile::text_view;
use crate::sort::{is_sorting_of, law_sorting_is_in_rank_order, sort_ranked, Ranked};
use crate::text::same_text;
use crate::toml_config::{
    lists_members, table_entries, table_members, toml_lookup, toml_member, toml_table, toml_text,
    toml_text_at,
};
use vstd::prelude::*;

verus! {

/// The directory of installed marketplaces, below the home directory.
pub const INSTALLED_MARKETPLACES_DIR: &'static str = ".tmp/marketplaces";

/// The age from which on a temporary directory is left over, in nanoseconds.
pub const MARKETPLACE_STALE_TEMP_DIR_MAX_AGE: u128 = 600_000_000_000;

/// The directory that marketplaces are installed in. `join` is the host's way of
/// joining paths.
pub fn marketplace_install_root<J: Fn(&str, &str) -> String>(codex_home: &str, join: &J) -> (root:
    String)
    requires
        call_requires(*join, (codex_home, INSTALLED_MARKETPLACES_DIR)),
    ensures
        joins_to(*join, codex_home@, ".tmp/marketplaces"@, root),
{
    let root = (*join)(codex_home, INSTALLED_MARKETPLACES_DIR);
    assert(joins_to(*join, codex_home@, ".tmp/marketplaces"@, root));
    root
}

/// `root` is the directory of a configured marketplace: that of its source where
/// it is local, else the one that it is installed in under its name. A local
/// marketplace without a source has none.
pub open spec fn is_configured_root<J: Fn(&str, &str) -> String>(
    name: Seq<char>,
    source_type: Option<Seq<char>>,
    source: Option<Seq<char>>,
    install_root: Seq<char>,
    join: J,
    root: Option<String>,
) -> bool {
    if source_type == Some("local"@) {
        match source {
            Some(path) => if path.len() > 0 {
                text_view(root) == Some(path)
            } else {
                root is None
            },
            None => root is None,
        }
    } else {
        root is Some && joins_to(join, install_root, name, root->0)
    }
}

/// The text in an optional text.
pub open spec fn str_view(text: Option<&str>) -> Option<Seq<char>> {
    match text {
        Some(t) => Some(t@),
        None => None,
    }
}

/// The directory of a marketplace with the given source. `join` is the host's way
/// of joining paths.
pub fn marketplace_root_of_source<J: Fn(&str, &str) -> String>(
    name: &str,
    source_type: Option<&str>,
    source: Option<&str>,
    default_install_root: &str,
    join: &J,
) -> (root: Option<String>)
    requires
        call_requires(*join, (default_install_root, name)),
    ensures
        is_configured_root(
            name@,
            str_view(source_type),
            str_view(source),
            default_install_root@,
            *join,
            root,
        ),
{
    let is_local = match source_type {
        Some(text) => same_text(text, "local"),
        None => false,
    };
    if is_local {
        match source {
            Some(path) => if path.is_empty() {
                None
            } else {
                Some(path.to_owned())
            },
            None => None,
        }
    } else {
        let root = (*join)(default_install_root, name);
        assert(joins_to(*join, default_install_root@, name@, root));
        Some(root)
    }
}

/// The directory of a marketplace that is configured by the given value. `join` is
/// the host's way of joining paths.
pub fn resolve_configured_marketplace_root<J: Fn(&str, &str) -> String>(
    marketplace_name: &str,
    marketplace: &toml::Value,
    default_install_root: &str,
    join: &J,
) -> (root: Option<String>)
    requires
        call_requires(*join, (default_install_root, marketplace_name)),
    ensures
        is_configured_root(
            marketplace_name@,
            toml_text_at(*marketplace, "source_type"@),
            toml_text_at(*marketplace, "source"@),
            default_install_root@,
            *join,
            root,
        ),
{
    let source_type = match toml_member(marketplace, "source_type") {
        Some(value) => value.as_str(),
        None => None,
    };
    let source = match toml_member(marketplace, "source") {
        Some(value) => value.as_str(),
        None => None,
    };
    marketplace_root_of_source(marketplace_name, source_type, source, default_install_root, join)
}

/// An absolute path, with its components as the host splits it.
#[derive(Debug, PartialEq, Eq)]
pub struct AbsolutePath {
    pub path: String,
    pub components: Vec<PathComponent>,
}

impl Ranked for AbsolutePath {
    open spec fn ranks_before(&self, other: &AbsolutePath) -> bool {
        components_le(component_views(self.components@), component_views(other.components@))
    }

    proof fn rank_total(a: &AbsolutePath, b: &AbsolutePath) {
        lemma_paths_total(component_views(a.components@), component_views(b.components@));
    }

    proof fn rank_transitive(a: &AbsolutePath, b: &AbsolutePath, c: &AbsolutePath) {
        lemma_paths_transitive(
            component_views(a.components@),
            component_views(b.components@),
            component_views(c.components@),
        );
    }

    fn may_precede(&self, other: &AbsolutePath) -> (yes: bool) {
        components_precede(&self.components, &other.components)
    }
}

/// `yes` is what `test` says of the text.
pub open spec fn tests<T: Fn(&str) -> bool>(test: T, text: Seq<char>, yes: bool) -> bool {
    exists|t: &str| t@ == text && #[trigger] call_ensures(test, (t,), yes)
}

/// `made` is what `absolute` makes of the path.
pub open spec fn makes_absolute<A: Fn(&str) -> Option<AbsolutePath>>(
    absolute: A,
    path: Seq<char>,
    made: Option<AbsolutePath>,
) -> bool {
    exists|p: &str| p@ == path && #[trigger] call_ensures(absolute, (p,), made)
}

/// The root of a marketplace with a valid name, if it counts: it has a directory,
/// there is a manifest in it, and the directory can be made absolute.
pub open spec fn is_root_at_place<
    J: Fn(&str, &str) -> String,
    M: Fn(&str) -> bool,
    A: Fn(&str) -> Option<AbsolutePath>,
>(
    name: Seq<char>,
    marketplace: toml::Value,
    install_root: Seq<char>,
    join: J,
    has_manifest: M,
    absolute: A,
    root: Option<AbsolutePath>,
) -> bool {
    exists|configured: Option<String>|
        {
            &&& #[trigger] is_configured_root(
                name,
                toml_text_at(marketplace, "source_type"@),
                toml_text_at(marketplace, "source"@),
                install_root,
                join,
                configured,
            )
            &&& match configured {
                None => root is None,
                Some(path) => {
                    ||| tests(has_manifest, path@, false) && root is None
                    ||| tests(has_manifest, path@, true) && makes_absolute(absolute, path@, root)
                },
            }
        }
}

/// The root of a configured marketplace, if it counts: it is configured by a
/// table, its name is valid, it has a directory, there is a manifest in it, and
/// the directory can be made absolute.
pub open spec fn is_root_of<
    J: Fn(&str, &str) -> String,
    V: Fn(&str) -> bool,
    M: Fn(&str) -> bool,
    A: Fn(&str) -> Option<AbsolutePath>,
>(
    name: Seq<char>,
    marketplace: toml::Value,
    install_root: Seq<char>,
    join: J,
    is_valid_name: V,
    has_manifest: M,
    absolute: A,
    root: Option<AbsolutePath>,
) -> bool {
    if toml_table(marketplace) is None {
        root is None
    } else {
        ||| tests(is_valid_name, name, false) && root is None
        ||| tests(is_valid_name, name, true) && is_root_at_place(
            name,
            marketplace,
            install_root,
            join,
            has_manifest,
            absolute,
            root,
        )
    }
}

/// The root of one configured marketplace, if it counts.
pub fn installed_marketplace_root<
    J: Fn(&str, &str) -> String,
    V: Fn(&str) -> bool,
    M: Fn(&str) -> bool,
    A: Fn(&str) -> Option<AbsolutePath>,
>(
    marketplace_name: &str,
    marketplace: &toml::Value,
    default_install_root: &str,
    join: &J,
    is_valid_name: &V,
    has_manifest: &M,
    absolute: &A,
) -> (root: Option<AbsolutePath>)
    requires
        forall|base: &str, path: &str| call_requires(*join, (base, path)),
        forall|name: &str| call_requires(*is_valid_name, (name,)),
        forall|path: &str| call_requires(*has_manifest, (path,)),
        forall|path: &str| call_requires(*absolute, (path,)),
    ensures
        is_root_of(
            marketplace_name@,
            *marketplace,
            default_install_root@,
            *join,
            *is_valid_name,
            *has_manifest,
            *absolute,
            root,
        ),
{
    if !marketplace.is_table() {
        return None;
    }
    let is_valid = (*is_valid_name)(marketplace_name);
    assert(tests(*is_valid_name, marketplace_name@, is_valid));
    if !is_valid {
        return None;
    }
    let configured = resolve_configured_marketplace_root(
        marketplace_name,
        marketplace,
        default_install_root,
        join,
    );
    let ghost place = configured;
    let root = match configured {
        Some(path) => {
            let found = (*has_manifest)(path.as_str());
            assert(tests(*has_manifest, path@, found));
            if found {
                let root = (*absolute)(path.as_str());
                assert(makes_absolute(*absolute, path@, root));
                root
            } else {
                None
            }
        },
        None => None,
    };
    assert(is_configured_root(
        marketplace_name@,
        toml_text_at(*marketplace, "source_type"@),
        toml_text_at(*marketplace, "source"@),
        default_install_root@,
        *join,
        place,
    ));
    root
}

/// The roots that were found, in order.
pub open spec fn found_roots(roots: Seq<Option<AbsolutePath>>) -> Seq<AbsolutePath>
    decreases roots.len(),
{
    if roots.len() == 0 {
        Seq::empty()
    } else {
        match roots.last() {
            Some(root) => found_roots(roots.drop_last()).push(root),
            None => found_roots(roots.drop_last()),
        }
    }
}

/// `roots` are the roots of the listed marketplaces.
pub open spec fn are_roots_of<
    J: Fn(&str, &str) -> String,
    V: Fn(&str) -> bool,
    M: Fn(&str) -> bool,
    A: Fn(&str) -> Option<AbsolutePath>,
>(
    entries: Seq<(&String, &toml::Value)>,
    install_root: Seq<char>,
    join: J,
    is_valid_name: V,
    has_manifest: M,
    absolute: A,
    roots: Seq<Option<AbsolutePath>>,
) -> bool {
    &&& roots.len() == entries.len()
    &&& forall|i: int|
        #![trigger roots[i]]
        0 <= i < entries.len() ==> is_root_of(
            entries[i].0@,
            *entries[i].1,
            install_root,
            join,
            is_valid_name,
            has_manifest,
            absolute,
            roots[i],
        )
}

/// `sorted` are the roots of the marketplaces in the table, in the order of
/// their paths.
pub open spec fn are_sorted_roots<
    J: Fn(&str, &str) -> String,
    V: Fn(&str) -> bool,
    M: Fn(&str) -> bool,
    A: Fn(&str) -> Option<AbsolutePath>,
>(
    table: toml::Table,
    install_root: Seq<char>,
    join: J,
    is_valid_name: V,
    has_manifest: M,
    absolute: A,
    sorted: Seq<AbsolutePath>,
) -> bool {
    exists|entries: Seq<(&String, &toml::Value)>, roots: Seq<Option<AbsolutePath>>|
        {
            &&& #[trigger] lists_members(entries, table_members(table))
            &&& #[trigger] are_roots_of(
                entries,
                install_root,
                join,
                is_valid_name,
                has_manifest,
                absolute,
                roots,
            )
            &&& is_sorting_of(sorted, found_roots(roots))
        }
}

/// `sorted` are the roots of the marketplaces in the table, where marketplaces are
/// installed below `codex_home`.
pub open spec fn are_installed_roots<
    J: Fn(&str, &str) -> String,
    V: Fn(&str) -> bool,
    M: Fn(&str) -> bool,
    A: Fn(&str) -> Option<AbsolutePath>,
>(
    table: toml::Table,
    codex_home: Seq<char>,
    join: J,
    is_valid_name: V,
    has_manifest: M,
    absolute: A,
    sorted: Seq<AbsolutePath>,
) -> bool {
    exists|install_root: String|
        {
            &&& #[trigger] joins_to(join, codex_home, ".tmp/marketplaces"@, install_root)
            &&& are_sorted_roots(
                table,
                install_root@,
                join,
                is_valid_name,
                has_manifest,
                absolute,
                sorted,
            )
        }
}

/// The table of configured marketplaces, if the user's configuration has one.
pub open spec fn marketplaces_table(user_config: Option<&toml::Value>) -> Option<toml::Table> {
    match user_config {
        Some(config) => match toml_lookup(*config, "marketplaces"@) {
            Some(value) => toml_table(value),
            None => None,
        },
        None => None,
    }
}

/// The roots of the marketplaces that the user's configuration names and that
/// are installed, in the order of their paths. There are none where nothing is
/// configured.
///
/// `join` is the host's way of joining paths, `is_valid_name` accepts the name of a
/// marketplace, `has_manifest` finds the manifest of a marketplace in a directory,
/// and `absolute` makes a path absolute.
pub fn installed_marketplace_roots_from_layer_stack<
    J: Fn(&str, &str) -> String,
    V: Fn(&str) -> bool,
    M: Fn(&str) -> bool,
    A: Fn(&str) -> Option<AbsolutePath>,
>(
    user_config: Option<&toml::Value>,
    codex_home: &str,
    join: J,
    is_valid_name: V,
    has_manifest: M,
    absolute: A,
) -> (roots: Vec<AbsolutePath>)
    requires
        forall|base: &str, path: &str| call_requires(join, (base, path)),
        forall|name: &str| call_requires(is_valid_name, (name,)),
        forall|path: &str| call_requires(has_manifest, (path,)),
        forall|path: &str| call_requires(absolute, (path,)),
    ensures
        match marketplaces_table(user_config) {
            Some(table) => are_installed_roots(
                table,
                codex_home@,
                join,
                is_valid_name,
                has_manifest,
                absolute,
                roots@,
            ),
            None => roots@.len() == 0,
        },
{
    let config = match user_config {
        Some(config) => config,
        None => return Vec::new(),
    };
    let value = match toml_member(config, "marketplaces") {
        Some(value) => value,
        None => return Vec::new(),
    };
    let table = match value.as_table() {
        Some(table) => table,
        None => return Vec::new(),
    };
    let install_root = marketplace_install_root(codex_home, &join);
    let entries = table_entries(table);
    let mut found: Vec<AbsolutePath> = Vec::new();
    let ghost mut roots: Seq<Option<AbsolutePath>> = Seq::empty();
    let mut i: usize = 0;
    while i < entries.len()
        invariant
            i <= entries@.len(),
            found@ == found_roots(roots),
            are_roots_of(
                entries@.take(i as int),
                install_root@,
                join,
                is_valid_name,
                has_manifest,
                absolute,
                roots,
            ),
            forall|base: &str, path: &str| call_requires(join, (base, path)),
            forall|name: &str| call_requires(is_valid_name, (name,)),
            forall|path: &str| call_requires(has_manifest, (path,)),
            forall|path: &str| call_requires(absolute, (path,)),
        decreases entries@.len() - i,
    {
        let (name, marketplace) = entries[i];
        let root = installed_marketplace_root(
            name.as_str(),
            marketplace,
            install_root.as_str(),
            &join,
            &is_valid_name,
            &has_manifest,
            &absolute,
        );
        proof {
            let before = roots;
            roots = roots.push(root);
            assert(roots.drop_last() =~= before);
            let done = entries@.take(i as int);
            let grown = entries@.take(i + 1);
            assert forall|k: int| #![trigger roots[k]] 0 <= k < grown.len() implies is_root_of(
                grown[k].0@,
                *grown[k].1,
                install_root@,
                join,
                is_valid_name,
                has_manifest,
                absolute,
                roots[k],
            ) by {
                if k < i {
                    assert(before[k] == roots[k]);
                    assert(done[k] == grown[k]);
                }
            }
        }
        if let Some(root) = root {
            found.push(root);
        }
        i += 1;
    }
    assert(entries@.take(i as int) =~= entries@);
    let sorted = sort_ranked(found);
    assert(are_sorted_roots(
        *table,
        install_root@,
        join,
        is_valid_name,
        has_manifest,
        absolute,
        sorted@,
    ));
    sorted
}

proof fn lemma_found_root(roots: Seq<Option<AbsolutePath>>, root: AbsolutePath)
    ensures
        found_roots(roots).contains(root) <==> roots.contains(Some(root)),
    decreases roots.len(),
{
    if roots.len() > 0 {
        let init = roots.drop_last();
        let last = roots.last();
        lemma_found_root(init, root);
        assert(roots =~= init.push(last));
        if roots.contains(Some(root)) {
            let i = choose|i: int| 0 <= i < roots.len() && roots[i] == Some(root);
            if i < init.len() {
                assert(init[i] == Some(root));
                let k = found_roots(init).index_of(root);
                assert(found_roots(roots)[k] == root);
            } else {
                assert(found_roots(roots).last() == root);
            }
        }
        if found_roots(roots).contains(root) {
            let k = found_roots(roots).index_of(root);
            if k < found_roots(init).len() {
                assert(found_roots(init)[k] == root);
                let i = choose|i: int| 0 <= i < init.len() && init[i] == Some(root);
                assert(roots[i] == Some(root));
            } else {
                assert(roots[roots.len() - 1] == Some(root));
            }
        }
    }
}

/// The root is that of the marketplace which the table configures under the name.
pub open spec fn configures<
    J: Fn(&str, &str) -> String,
    V: Fn(&str) -> bool,
    M: Fn(&str) -> bool,
    A: Fn(&str) -> Option<AbsolutePath>,
>(
    table: toml::Table,
    name: Seq<char>,
    install_root: Seq<char>,
    join: J,
    is_valid_name: V,
    has_manifest: M,
    absolute: A,
    root: AbsolutePath,
) -> bool {
    &&& table_members(table).contains_key(name)
    &&& is_root_of(
        name,
        table_members(table)[name],
        install_root,
        join,
        is_valid_name,
        has_manifest,
        absolute,
        Some(root),
    )
}

/// Every listed root is that of a marketplace which is configured by a table
/// under a valid name, and in whose directory there is a manifest.
pub proof fn law_listed_roots_are_configured<
    J: Fn(&str, &str) -> String,
    V: Fn(&str) -> bool,
    M: Fn(&str) -> bool,
    A: Fn(&str) -> Option<AbsolutePath>,
>(
    table: toml::Table,
    install_root: Seq<char>,
    join: J,
    is_valid_name: V,
    has_manifest: M,
    absolute: A,
    sorted: Seq<AbsolutePath>,
    k: int,
)
    requires
        are_sorted_roots(table, install_root, join, is_valid_name, has_manifest, absolute, sorted),
        0 <= k < sorted.len(),
    ensures
        exists|name: Seq<char>|
            {
                &&& #[trigger] configures(
                    table,
                    name,
                    install_root,
                    join,
                    is_valid_name,
                    has_manifest,
                    absolute,
                    sorted[k],
                )
                &&& toml_table(table_members(table)[name]) is Some
                &&& tests(is_valid_name, name, true)
                &&& is_root_with_manifest(
                    name,
                    table_members(table)[name],
                    install_root,
                    join,
                    has_manifest,
                    absolute,
                    sorted[k],
                )
            },
{
    let (entries, roots) = choose|
        entries: Seq<(&String, &toml::Value)>,
        roots: Seq<Option<AbsolutePath>>,
    |
        {
            &&& #[trigger] lists_members(entries, table_members(table))
            &&& #[trigger] are_roots_of(
                entries,
                install_root,
                join,
                is_valid_name,
                has_manifest,
                absolute,
                roots,
            )
            &&& is_sorting_of(sorted, found_roots(roots))
        };
    broadcast use vstd::seq_lib::group_to_multiset_ensures;
    assert(sorted.to_multiset().contains(sorted[k]));
    assert(found_roots(roots).contains(sorted[k]));
    lemma_found_root(roots, sorted[k]);
    let i = choose|i: int| 0 <= i < roots.len() && roots[i] == Some(sorted[k]);
    lemma_root_has_manifest(
        entries[i].0@,
        *entries[i].1,
        install_root,
        join,
        is_valid_name,
        has_manifest,
        absolute,
        sorted[k],
    );
    assert(configures(
        table,
        entries[i].0@,
        install_root,
        join,
        is_valid_name,
        has_manifest,
        absolute,
        sorted[k],
    ));
}

/// The roots are listed in the order of their components.
pub proof fn law_roots_are_listed_in_order<
    J: Fn(&str, &str) -> String,
    V: Fn(&str) -> bool,
    M: Fn(&str) -> bool,
    A: Fn(&str) -> Option<AbsolutePath>,
>(
    table: toml::Table,
    install_root: Seq<char>,
    join: J,
    is_valid_name: V,
    has_manifest: M,
    absolute: A,
    sorted: Seq<AbsolutePath>,
    j: int,
    k: int,
)
    requires
        are_sorted_roots(table, install_root, join, is_valid_name, has_manifest, absolute, sorted),
        0 <= j < k < sorted.len(),
    ensures
        components_le(
            component_views(sorted[j].components@),
            component_views(sorted[k].components@),
        ),
{
    assert(sorted[j].ranks_before(&sorted[k]));
}

/// Marketplaces are installed in `.tmp/marketplaces` below the home directory.
pub proof fn law_marketplaces_are_installed_below_home<J: Fn(&str, &str) -> String>(
    codex_home: &str,
    join: J,
    root: String,
)
    requires
        call_ensures(marketplace_install_root::<J>, (codex_home, &join), root),
    ensures
        exists|base: &str, below: &str|
            base@ == codex_home@ && below@ == ".tmp/marketplaces"@ && #[trigger] call_ensures(
                join,
                (base, below),
                root,
            ),
{
}

/// Only a marketplace whose source is `local` lies where its source says, and it
/// lies nowhere where that is missing or empty. Every other one lies in the install
/// root under its name, whatever its source is.
pub proof fn law_local_marketplace_lies_at_its_source<J: Fn(&str, &str) -> String>(
    name: &str,
    source_type: Option<&str>,
    source: Option<&str>,
    install_root: &str,
    join: J,
    root: Option<String>,
)
    requires
        call_ensures(
            marketplace_root_of_source::<J>,
            (name, source_type, source, install_root, &join),
            root,
        ),
    ensures
        source_type is Some && source_type->0@ == "local"@ ==> {
            &&& root is Some <==> source is Some && source->0@.len() > 0
            &&& root is Some ==> root->0@ == source->0@
        },
        source_type is None || source_type->0@ != "local"@ ==> root is Some && exists|
            base: &str,
            n: &str,
        |
            base@ == install_root@ && n@ == name@ && #[trigger] call_ensures(
                join,
                (base, n),
                root->0,
            ),
{
}

/// The text that a TOML table holds under the name.
pub open spec fn text_under(value: toml::Value, name: Seq<char>) -> Option<Seq<char>> {
    if toml_table(value) is Some && table_members(toml_table(value)->0).contains_key(name) {
        toml_text(table_members(toml_table(value)->0)[name])
    } else {
        None
    }
}

/// The directory of a marketplace that is installed under the name.
pub open spec fn is_below_install_root<J: Fn(&str, &str) -> String>(
    name: Seq<char>,
    install_root: Seq<char>,
    join: J,
    path: Seq<char>,
) -> bool {
    exists|base: &str, n: &str, made: String|
        base@ == install_root && n@ == name && made@ == path && #[trigger] call_ensures(
            join,
            (base, n),
            made,
        )
}

/// The marketplace lies at the path: at its source, which is not empty, where it is
/// local, and else in the install root under its name.
pub open spec fn lies_at<J: Fn(&str, &str) -> String>(
    name: Seq<char>,
    marketplace: toml::Value,
    install_root: Seq<char>,
    join: J,
    path: Seq<char>,
) -> bool {
    if text_under(marketplace, "source_type"@) == Some("local"@) {
        path.len() > 0 && text_under(marketplace, "source"@) == Some(path)
    } else {
        is_below_install_root(name, install_root, join, path)
    }
}

/// There is a manifest where the marketplace lies, and the root is that place made
/// absolute.
pub open spec fn is_root_with_manifest<
    J: Fn(&str, &str) -> String,
    M: Fn(&str) -> bool,
    A: Fn(&str) -> Option<AbsolutePath>,
>(
    name: Seq<char>,
    marketplace: toml::Value,
    install_root: Seq<char>,
    join: J,
    has_manifest: M,
    absolute: A,
    root: AbsolutePath,
) -> bool {
    exists|p: &str, q: &str|
        {
            &&& p@ == q@
            &&& lies_at(name, marketplace, install_root, join, p@)
            &&& #[trigger] call_ensures(has_manifest, (p,), true)
            &&& #[trigger] call_ensures(absolute, (q,), Some(root))
        }
}

proof fn lemma_configured_root_lies_there<J: Fn(&str, &str) -> String>(
    name: Seq<char>,
    marketplace: toml::Value,
    install_root: Seq<char>,
    join: J,
    configured: Option<String>,
)
    requires
        is_configured_root(
            name,
            toml_text_at(marketplace, "source_type"@),
            toml_text_at(marketplace, "source"@),
            install_root,
            join,
            configured,
        ),
    ensures
        configured is Some ==> lies_at(name, marketplace, install_root, join, configured->0@),
        configured is None ==> text_under(marketplace, "source_type"@) == Some("local"@) && (
        text_under(marketplace, "source"@) is None || text_under(marketplace, "source"@)->0.len()
            == 0),
{
    assert(text_under(marketplace, "source_type"@) == toml_text_at(marketplace, "source_type"@));
    assert(text_under(marketplace, "source"@) == toml_text_at(marketplace, "source"@));
    if configured is Some && text_under(marketplace, "source_type"@) != Some("local"@) {
        let made = configured->0;
        assert(joins_to(join, install_root, name, made));
        assert(is_below_install_root(name, install_root, join, made@));
    }
}

/// A configured marketplace lies at its source where it is local and under its name
/// where it is not; it lies nowhere only where it is local without a source.
pub proof fn law_configured_marketplace_lies_at_its_place<J: Fn(&str, &str) -> String>(
    name: &str,
    marketplace: toml::Value,
    install_root: &str,
    join: J,
    root: Option<String>,
)
    requires
        call_ensures(
            resolve_configured_marketplace_root::<J>,
            (name, &marketplace, install_root, &join),
            root,
        ),
    ensures
        root is Some ==> lies_at(name@, marketplace, install_root@, join, root->0@),
        root is None <==> text_under(marketplace, "source_type"@) == Some("local"@) && (text_under(
            marketplace,
            "source"@,
        ) is None || text_under(marketplace, "source"@)->0.len() == 0),
{
    lemma_configured_root_lies_there(name@, marketplace, install_root@, join, root);
}

proof fn lemma_root_has_manifest<
    J: Fn(&str, &str) -> String,
    V: Fn(&str) -> bool,
    M: Fn(&str) -> bool,
    A: Fn(&str) -> Option<AbsolutePath>,
>(
    name: Seq<char>,
    marketplace: toml::Value,
    install_root: Seq<char>,
    join: J,
    is_valid_name: V,
    has_manifest: M,
    absolute: A,
    root: AbsolutePath,
)
    requires
        is_root_of(
            name,
            marketplace,
            install_root,
            join,
            is_valid_name,
            has_manifest,
            absolute,
            Some(root),
        ),
    ensures
        toml_table(marketplace) is Some,
        exists|n: &str| n@ == name && #[trigger] call_ensures(is_valid_name, (n,), true),
        is_root_with_manifest(
            name,
            marketplace,
            install_root,
            join,
            has_manifest,
            absolute,
            root,
        ),
{
    assert(tests(is_valid_name, name, true));
    let configured = choose|configured: Option<String>|
        {
            &&& #[trigger] is_configured_root(
                name,
                toml_text_at(marketplace, "source_type"@),
                toml_text_at(marketplace, "source"@),
                install_root,
                join,
                configured,
            )
            &&& match configured {
                None => false,
                Some(path) => tests(has_manifest, path@, true) && makes_absolute(
                    absolute,
                    path@,
                    Some(root),
                ),
            }
        };
    lemma_configured_root_lies_there(name, marketplace, install_root, join, configured);
    let path = configured->0@;
    assert(tests(has_manifest, path, true));
    assert(makes_absolute(absolute, path, Some(root)));
    let p = choose|p: &str| p@ == path && #[trigger] call_ensures(has_manifest, (p,), true);
    let q = choose|q: &str| q@ == path && #[trigger] call_ensures(absolute, (q,), Some(root));
    assert(call_ensures(has_manifest, (p,), true) && call_ensures(absolute, (q,), Some(root)));
}

/// A marketplace has a root only where it is configured by a table and its name is
/// valid, and only one where there is a manifest, whether it is local or installed.
pub proof fn law_root_of_a_marketplace_has_a_manifest<
    J: Fn(&str, &str) -> String,
    V: Fn(&str) -> bool,
    M: Fn(&str) -> bool,
    A: Fn(&str) -> Option<AbsolutePath>,
>(
    name: &str,
    marketplace: toml::Value,
    install_root: &str,
    join: J,
    is_valid_name: V,
    has_manifest: M,
    absolute: A,
    root: AbsolutePath,
)
    requires
        call_ensures(
            installed_marketplace_root::<J, V, M, A>,
            (
                name,
                &marketplace,
                install_root,
                &join,
                &is_valid_name,
                &has_manifest,
                &absolute,
            ),
            Some(root),
        ),
    ensures
        toml_table(marketplace) is Some,
        exists|n: &str| n@ == name@ && #[trigger] call_ensures(is_valid_name, (n,), true),
        is_root_with_manifest(
            name@,
            marketplace,
            install_root@,
            join,
            has_manifest,
            absolute,
            root,
        ),
{
    lemma_root_has_manifest(
        name@,
        marketplace,
        install_root@,
        join,
        is_valid_name,
        has_manifest,
        absolute,
        root,
    );
}

/// Nothing keeps the marketplace from having a root: it is configured by a table,
/// its name is taken for valid, it is not local without a source, and wherever it
/// may lie, a manifest is found and the place can be made absolute.
pub open spec fn is_to_be_listed<
    J: Fn(&str, &str) -> String,
    V: Fn(&str) -> bool,
    M: Fn(&str) -> bool,
    A: Fn(&str) -> Option<AbsolutePath>,
>(
    name: Seq<char>,
    marketplace: toml::Value,
    install_root: Seq<char>,
    join: J,
    is_valid_name: V,
    has_manifest: M,
    absolute: A,
) -> bool {
    &&& toml_table(marketplace) is Some
    &&& forall|n: &str, says: bool|
        n@ == name && #[trigger] call_ensures(is_valid_name, (n,), says) ==> says
    &&& text_under(marketplace, "source_type"@) == Some("local"@) ==> text_under(
        marketplace,
        "source"@,
    ) is Some && text_under(marketplace, "source"@)->0.len() > 0
    &&& forall|p: &str, says: bool|
        lies_at(name, marketplace, install_root, join, p@) && #[trigger] call_ensures(
            has_manifest,
            (p,),
            says,
        ) ==> says
    &&& forall|p: &str, made: Option<AbsolutePath>|
        lies_at(name, marketplace, install_root, join, p@) && #[trigger] call_ensures(
            absolute,
            (p,),
            made,
        ) ==> made is Some
}

proof fn lemma_listed_marketplace_has_a_root<
    J: Fn(&str, &str) -> String,
    V: Fn(&str) -> bool,
    M: Fn(&str) -> bool,
    A: Fn(&str) -> Option<AbsolutePath>,
>(
    name: Seq<char>,
    marketplace: toml::Value,
    install_root: Seq<char>,
    join: J,
    is_valid_name: V,
    has_manifest: M,
    absolute: A,
    root: Option<AbsolutePath>,
)
    requires
        is_to_be_listed(
            name,
            marketplace,
            install_root,
            join,
            is_valid_name,
            has_manifest,
            absolute,
        ),
        is_root_of(
            name,
            marketplace,
            install_root,
            join,
            is_valid_name,
            has_manifest,
            absolute,
            root,
        ),
    ensures
        root is Some,
{
    if root is None {
        if tests(is_valid_name, name, false) {
            let n = choose|n: &str| n@ == name && #[trigger] call_ensures(
                is_valid_name,
                (n,),
                false,
            );
            assert(call_ensures(is_valid_name, (n,), false));
        }
        assert(is_root_at_place(
            name,
            marketplace,
            install_root,
            join,
            has_manifest,
            absolute,
            root,
        ));
        let configured = choose|configured: Option<String>|
            {
                &&& #[trigger] is_configured_root(
                    name,
                    toml_text_at(marketplace, "source_type"@),
                    toml_text_at(marketplace, "source"@),
                    install_root,
                    join,
                    configured,
                )
                &&& match configured {
                    None => true,
                    Some(path) => {
                        ||| tests(has_manifest, path@, false)
                        ||| makes_absolute(absolute, path@, None)
                    },
                }
            };
        lemma_configured_root_lies_there(name, marketplace, install_root, join, configured);
        let path = configured->0@;
        if tests(has_manifest, path, false) {
            let p = choose|p: &str| p@ == path && #[trigger] call_ensures(
                has_manifest,
                (p,),
                false,
            );
            assert(call_ensures(has_manifest, (p,), false));
        } else {
            let p = choose|p: &str| p@ == path && #[trigger] call_ensures(absolute, (p,), None);
            assert(call_ensures(absolute, (p,), None::<AbsolutePath>));
        }
    }
}

/// A marketplace that nothing keeps from it has a root.
pub proof fn law_marketplace_in_order_has_a_root<
    J: Fn(&str, &str) -> String,
    V: Fn(&str) -> bool,
    M: Fn(&str) -> bool,
    A: Fn(&str) -> Option<AbsolutePath>,
>(
    name: &str,
    marketplace: toml::Value,
    install_root: &str,
    join: J,
    is_valid_name: V,
    has_manifest: M,
    absolute: A,
    root: Option<AbsolutePath>,
)
    requires
        call_ensures(
            installed_marketplace_root::<J, V, M, A>,
            (
                name,
                &marketplace,
                install_root,
                &join,
                &is_valid_name,
                &has_manifest,
                &absolute,
            ),
            root,
        ),
        is_to_be_listed(
            name@,
            marketplace,
            install_root@,
            join,
            is_valid_name,
            has_manifest,
            absolute,
        ),
    ensures
        root is Some,
{
    lemma_listed_marketplace_has_a_root(
        name@,
        marketplace,
        install_root@,
        join,
        is_valid_name,
        has_manifest,
        absolute,
        root,
    );
}

/// The root is that of a marketplace which the table configures by a table under a
/// valid name, and there is a manifest in it.
pub open spec fn is_listed_from<
    J: Fn(&str, &str) -> String,
    V: Fn(&str) -> bool,
    M: Fn(&str) -> bool,
    A: Fn(&str) -> Option<AbsolutePath>,
>(
    table: toml::Table,
    name: Seq<char>,
    install_root: Seq<char>,
    join: J,
    is_valid_name: V,
    has_manifest: M,
    absolute: A,
    root: AbsolutePath,
) -> bool {
    &&& table_members(table).contains_key(name)
    &&& toml_table(table_members(table)[name]) is Some
    &&& exists|n: &str| n@ == name && #[trigger] call_ensures(is_valid_name, (n,), true)
    &&& is_root_with_manifest(
        name,
        table_members(table)[name],
        install_root,
        join,
        has_manifest,
        absolute,
        root,
    )
}

/// Every listed root, of a local marketplace as of an installed one, is a directory
/// that is configured under a valid name and in which a manifest is found.
pub proof fn law_every_listed_root_has_a_manifest<
    J: Fn(&str, &str) -> String,
    V: Fn(&str) -> bool,
    M: Fn(&str) -> bool,
    A: Fn(&str) -> Option<AbsolutePath>,
>(
    table: toml::Table,
    install_root: Seq<char>,
    join: J,
    is_valid_name: V,
    has_manifest: M,
    absolute: A,
    sorted: Seq<AbsolutePath>,
    k: int,
)
    requires
        are_sorted_roots(table, install_root, join, is_valid_name, has_manifest, absolute, sorted),
        0 <= k < sorted.len(),
    ensures
        exists|name: Seq<char>| #[trigger]
            is_listed_from(
                table,
                name,
                install_root,
                join,
                is_valid_name,
                has_manifest,
                absolute,
                sorted[k],
            ),
{
    law_listed_roots_are_configured(
        table,
        install_root,
        join,
        is_valid_name,
        has_manifest,
        absolute,
        sorted,
        k,
    );
    let name = choose|name: Seq<char>| #[trigger]
        configures(
            table,
            name,
            install_root,
            join,
            is_valid_name,
            has_manifest,
            absolute,
            sorted[k],
        );
    lemma_root_has_manifest(
        name,
        table_members(table)[name],
        install_root,
        join,
        is_valid_name,
        has_manifest,
        absolute,
        sorted[k],
    );
    assert(is_listed_from(
        table,
        name,
        install_root,
        join,
        is_valid_name,
        has_manifest,
        absolute,
        sorted[k],
    ));
}

/// Every configured marketplace that nothing keeps from it is listed, local as
/// installed.
pub proof fn law_every_marketplace_in_order_is_listed<
    J: Fn(&str, &str) -> String,
    V: Fn(&str) -> bool,
    M: Fn(&str) -> bool,
    A: Fn(&str) -> Option<AbsolutePath>,
>(
    table: toml::Table,
    install_root: Seq<char>,
    join: J,
    is_valid_name: V,
    has_manifest: M,
    absolute: A,
    sorted: Seq<AbsolutePath>,
    name: Seq<char>,
)
    requires
        are_sorted_roots(table, install_root, join, is_valid_name, has_manifest, absolute, sorted),
        table_members(table).contains_key(name),
        is_to_be_listed(
            name,
            table_members(table)[name],
            install_root,
            join,
            is_valid_name,
            has_manifest,
            absolute,
        ),
    ensures
        exists|k: int|
            0 <= k < sorted.len() && is_listed_from(
                table,
                name,
                install_root,
                join,
                is_valid_name,
                has_manifest,
                absolute,
                #[trigger] sorted[k],
            ),
{
    let (entries, roots) = choose|
        entries: Seq<(&String, &toml::Value)>,
        roots: Seq<Option<AbsolutePath>>,
    |
        {
            &&& #[trigger] lists_members(entries, table_members(table))
            &&& #[trigger] are_roots_of(
                entries,
                install_root,
                join,
                is_valid_name,
                has_manifest,
                absolute,
                roots,
            )
            &&& is_sorting_of(sorted, found_roots(roots))
        };
    let i = choose|i: int| 0 <= i < entries.len() && (#[trigger] entries[i]).0@ == name;
    assert(is_root_of(
        name,
        table_members(table)[name],
        install_root,
        join,
        is_valid_name,
        has_manifest,
        absolute,
        roots[i],
    ));
    lemma_listed_marketplace_has_a_root(
        name,
        table_members(table)[name],
        install_root,
        join,
        is_valid_name,
        has_manifest,
        absolute,
        roots[i],
    );
    let root = roots[i]->0;
    lemma_root_has_manifest(
        name,
        table_members(table)[name],
        install_root,
        join,
        is_valid_name,
        has_manifest,
        absolute,
        root,
    );
    assert(roots[i] == Some(root));
    assert(roots.contains(Some(root)));
    lemma_found_root(roots, root);
    let found = found_roots(roots);
    law_sorting_is_in_rank_order(found, sorted);
    assert(sorted.contains(found[found.index_of(root)]));
    assert(sorted[sorted.index_of(root)] == root);
}

/// Each marketplace has at most one root in the list: the list has as many roots as
/// were found.
pub proof fn law_found_roots_are_listed_once(roots: Seq<Option<AbsolutePath>>)
    ensures
        found_roots(roots) == roots.filter(|root: Option<AbsolutePath>| root is Some).map_values(
            |root: Option<AbsolutePath>| root->0,
        ),
    decreases roots.len(),
{
    reveal(Seq::filter);
    let is_found = |root: Option<AbsolutePath>| root is Some;
    let path = |root: Option<AbsolutePath>| root->0;
    if roots.len() == 0 {
        assert(roots.filter(is_found) =~= Seq::empty());
    } else {
        let init = roots.drop_last();
        law_found_roots_are_listed_once(init);
        let kept = init.filter(is_found);
        if roots.last() is Some {
            assert(kept.push(roots.last()).map_values(path) =~= kept.map_values(path).push(
                roots.last()->0,
            ));
        }
    }
}

/// The user's configuration lists marketplaces only in the table `marketplaces`.
/// Each root in the list is that of a marketplace in this table, below the home
/// directory or local, with a manifest, and the roots come in the order of their
/// paths.
pub proof fn law_roots_come_from_the_configuration<
    J: Fn(&str, &str) -> String,
    V: Fn(&str) -> bool,
    M: Fn(&str) -> bool,
    A: Fn(&str) -> Option<AbsolutePath>,
>(
    user_config: Option<&toml::Value>,
    codex_home: &str,
    join: J,
    is_valid_name: V,
    has_manifest: M,
    absolute: A,
    roots: Vec<AbsolutePath>,
)
    requires
        call_ensures(
            installed_marketplace_roots_from_layer_stack::<J, V, M, A>,
            (user_config, codex_home, join, is_valid_name, has_manifest, absolute),
            roots,
        ),
        roots@.len() > 0,
    ensures
        user_config is Some,
        toml_table(*user_config->0) is Some,
        table_members(toml_table(*user_config->0)->0).contains_key("marketplaces"@),
        toml_table(table_members(toml_table(*user_config->0)->0)["marketplaces"@]) is Some,
        exists|install_root: String|
            {
                &&& #[trigger] is_below_install_root(
                    ".tmp/marketplaces"@,
                    codex_home@,
                    join,
                    install_root@,
                )
                &&& are_sorted_roots(
                    toml_table(
                        table_members(toml_table(*user_config->0)->0)["marketplaces"@],
                    )->0,
                    install_root@,
                    join,
                    is_valid_name,
                    has_manifest,
                    absolute,
                    roots@,
                )
            },
{
    let table = marketplaces_table(user_config)->0;
    let install_root = choose|install_root: String|
        {
            &&& #[trigger] joins_to(join, codex_home@, ".tmp/marketplaces"@, install_root)
            &&& are_sorted_roots(
                table,
                install_root@,
                join,
                is_valid_name,
                has_manifest,
                absolute,
                roots@,
            )
        };
    let (base, below) = choose|b: &str, p: &str|
        b@ == codex_home@ && p@ == ".tmp/marketplaces"@ && #[trigger] call_ensures(
            join,
            (b, p),
            install_root,
        );
    assert(call_ensures(join, (base, below), install_root));
    assert(is_below_install_root(".tmp/marketplaces"@, codex_home@, join, install_root@));
}

/// Whenever the configuration has the table `marketplaces`, its marketplaces are
/// listed from there.
pub proof fn law_configured_table_is_listed<
    J: Fn(&str, &str) -> String,
    V: Fn(&str) -> bool,
    M: Fn(&str) -> bool,
    A: Fn(&str) -> Option<AbsolutePath>,
>(
    user_config: toml::Value,
    codex_home: &str,
    join: J,
    is_valid_name: V,
    has_manifest: M,
    absolute: A,
    roots: Vec<AbsolutePath>,
)
    requires
        call_ensures(
            installed_marketplace_roots_from_layer_stack::<J, V, M, A>,
            (Some(&user_config), codex_home, join, is_valid_name, has_manifest, absolute),
            roots,
        ),
        toml_table(user_config) is Some,
        table_members(toml_table(user_config)->0).contains_key("marketplaces"@),
        toml_table(table_members(toml_table(user_config)->0)["marketplaces"@]) is Some,
    ensures
        exists|install_root: String|
            {
                &&& #[trigger] is_below_install_root(
                    ".tmp/marketplaces"@,
                    codex_home@,
                    join,
                    install_root@,
                )
                &&& are_sorted_roots(
                    toml_table(table_members(toml_table(user_config)->0)["marketplaces"@])->0,
                    install_root@,
                    join,
                    is_valid_name,
                    has_manifest,
                    absolute,
                    roots@,
                )
            },
{
    let table = toml_table(table_members(toml_table(user_config)->0)["marketplaces"@])->0;
    let install_root = choose|install_root: String|
        {
            &&& #[trigger] joins_to(join, codex_home@, ".tmp/marketplaces"@, install_root)
            &&& are_sorted_roots(
                table,
                install_root@,
                join,
                is_valid_name,
                has_manifest,
                absolute,
                roots@,
            )
        };
    let (base, below) = choose|b: &str, p: &str|
        b@ == codex_home@ && p@ == ".tmp/marketplaces"@ && #[trigger] call_ensures(
            join,
            (b, p),
            install_root,
        );
    assert(call_ensures(join, (base, below), install_root));
    assert(is_below_install_root(".tmp/marketplaces"@, codex_home@, join, install_root@));
}

/// Roots are ranked by the components of their paths and by nothing else.
pub proof fn law_roots_are_ranked_by_their_components(
    a: AbsolutePath,
    b: AbsolutePath,
    precedes: bool,
)
    requires
        call_ensures(AbsolutePath::may_precede, (&a, &b), precedes),
    ensures
        precedes <==> components_le(component_views(a.components@), component_views(b.components@)),
        a.ranks_before(&b) <==> components_le(
            component_views(a.components@),
            component_views(b.components@),
        ),
{
}

/// A temporary directory is left over from ten minutes on.
pub proof fn law_temporary_directories_last_ten_minutes()
    ensures
        MARKETPLACE_STALE_TEMP_DIR_MAX_AGE == 10 * 60 * 1_000_000_000,
{
}

/// The names are those in the table, each once, and under each name stands the root
/// of its marketplace, or none where something keeps it from having one.
pub open spec fn are_roots_by_name<
    J: Fn(&str, &str) -> String,
    V: Fn(&str) -> bool,
    M: Fn(&str) -> bool,
    A: Fn(&str) -> Option<AbsolutePath>,
>(
    table: toml::Table,
    install_root: Seq<char>,
    join: J,
    is_valid_name: V,
    has_manifest: M,
    absolute: A,
    names: Seq<Seq<char>>,
    roots: Seq<Option<AbsolutePath>>,
) -> bool {
    &&& names.no_duplicates()
    &&& names.len() == roots.len()
    &&& forall|name: Seq<char>| #[trigger]
        table_members(table).contains_key(name) <==> names.contains(name)
    &&& forall|i: int|
        #![trigger roots[i]]
        0 <= i < roots.len() && roots[i] is Some ==> is_listed_from(
            table,
            names[i],
            install_root,
            join,
            is_valid_name,
            has_manifest,
            absolute,
            roots[i]->0,
        )
    &&& forall|i: int|
        #![trigger roots[i]]
        0 <= i < roots.len() && is_to_be_listed(
            names[i],
            table_members(table)[names[i]],
            install_root,
            join,
            is_valid_name,
            has_manifest,
            absolute,
        ) ==> roots[i] is Some
}

/// The list holds one root for each marketplace in the table that has one, also
/// where several have the same root, and no other.
pub proof fn law_each_marketplace_is_listed_once<
    J: Fn(&str, &str) -> String,
    V: Fn(&str) -> bool,
    M: Fn(&str) -> bool,
    A: Fn(&str) -> Option<AbsolutePath>,
>(
    table: toml::Table,
    install_root: Seq<char>,
    join: J,
    is_valid_name: V,
    has_manifest: M,
    absolute: A,
    sorted: Seq<AbsolutePath>,
)
    requires
        are_sorted_roots(table, install_root, join, is_valid_name, has_manifest, absolute, sorted),
    ensures
        exists|names: Seq<Seq<char>>, roots: Seq<Option<AbsolutePath>>|
            {
                &&& #[trigger] are_roots_by_name(
                    table,
                    install_root,
                    join,
                    is_valid_name,
                    has_manifest,
                    absolute,
                    names,
                    roots,
                )
                &&& sorted.to_multiset() == roots.filter(
                    |root: Option<AbsolutePath>| root is Some,
                ).map_values(|root: Option<AbsolutePath>| root->0).to_multiset()
            },
{
    let (entries, roots) = choose|
        entries: Seq<(&String, &toml::Value)>,
        roots: Seq<Option<AbsolutePath>>,
    |
        {
            &&& #[trigger] lists_members(entries, table_members(table))
            &&& #[trigger] are_roots_of(
                entries,
                install_root,
                join,
                is_valid_name,
                has_manifest,
                absolute,
                roots,
            )
            &&& is_sorting_of(sorted, found_roots(roots))
        };
    let members = table_members(table);
    let names = Seq::new(entries.len(), |i: int| entries[i].0@);
    assert forall|name: Seq<char>| #[trigger]
        members.contains_key(name) <==> names.contains(name) by {
        if members.contains_key(name) {
            let i = choose|i: int| 0 <= i < entries.len() && (#[trigger] entries[i]).0@ == name;
            assert(names[i] == name);
        }
        if names.contains(name) {
            let i = names.index_of(name);
            assert(members.contains_key(entries[i].0@));
        }
    }
    assert forall|i: int, j: int|
        0 <= i < names.len() && 0 <= j < names.len() && i != j implies names[i] != names[j] by {
        assert(entries[i].0@ != entries[j].0@);
    }
    assert forall|i: int|
        #![trigger roots[i]]
        0 <= i < roots.len() && roots[i] is Some implies is_listed_from(
        table,
        names[i],
        install_root,
        join,
        is_valid_name,
        has_manifest,
        absolute,
        roots[i]->0,
    ) by {
        assert(members.contains_key(entries[i].0@) && members[entries[i].0@] == *entries[i].1);
        lemma_root_has_manifest(
            names[i],
            members[names[i]],
            install_root,
            join,
            is_valid_name,
            has_manifest,
            absolute,
            roots[i]->0,
        );
    }
    assert forall|i: int|
        #![trigger roots[i]]
        0 <= i < roots.len() && is_to_be_listed(
            names[i],
            members[names[i]],
            install_root,
            join,
            is_valid_name,
            has_manifest,
            absolute,
        ) implies roots[i] is Some by {
        assert(members.contains_key(entries[i].0@) && members[entries[i].0@] == *entries[i].1);
        lemma_listed_marketplace_has_a_root(
            names[i],
            members[names[i]],
            install_root,
            join,
            is_valid_name,
            has_manifest,
            absolute,
            roots[i],
        );
    }
    law_found_roots_are_listed_once(roots);
    assert(are_roots_by_name(
        table,
        install_root,
        join,
        is_valid_name,
        has_manifest,
        absolute,
        names,
        roots,
    ));
}

} // verus!
