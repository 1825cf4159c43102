//! Paths as text. How a path is joined and split is the host's to say: functions
//! that need it are handed the host's way. The one of hosts that put `/` between
//! components stands here.

use crate::order::{
    lemma_bytes_antisymmetric, lemma_bytes_total, lemma_bytes_transitive, text_le, text_precedes,
};
use crate::text::{chars_of, lemma_bytes_determine_text, same_text};
use vstd::prelude::*;
use vstd::utf8::encode_utf8;

verus! {

/// `made` is what `join` makes of `path` against `base`.
pub open spec fn joins_to<J: Fn(&str, &str) -> String>(
    join: J,
    base: Seq<char>,
    path: Seq<char>,
    made: String,
) -> bool {
    exists|b: &str, p: &str|
        b@ == base && p@ == path && #[trigger] call_ensures(join, (b, p), made)
}

/// `count` is the number of components that `counter` counts in the path.
pub open spec fn counts_to<C: Fn(&str) -> usize>(counter: C, path: Seq<char>, count: usize) -> bool {
    exists|p: &str| p@ == path && #[trigger] call_ensures(counter, (p,), count)
}

/// With `/` between components, `path` appended to `base`: an absolute `path` replaces `base`, any other is
/// put behind it with one separator in between where `base` does not end in
/// one.
pub open spec fn joined(base: Seq<char>, path: Seq<char>) -> Seq<char> {
    if path.len() > 0 && path[0] == '/' {
        path
    } else if base.len() == 0 || base.last() == '/' {
        base + path
    } else {
        base.push('/') + path
    }
}

/// Appends `path` to `base`, with `/` between components.
pub fn join_path(base: &str, path: &str) -> (result: String)
    ensures
        result@ == joined(base@, path@),
{
    let b = chars_of(base);
    let p = chars_of(path);
    if p.len() > 0 && p[0] == '/' {
        return path.to_owned();
    }
    let mut result = base.to_owned();
    if b.len() > 0 && b[b.len() - 1] != '/' {
        result.push('/');
    }
    result.append(path);
    result
}

/// The pieces of `path` between the separators.
pub open spec fn segments(path: Seq<char>) -> Seq<Seq<char>>
    decreases path.len(),
{
    if path.len() == 0 {
        seq![Seq::<char>::empty()]
    } else {
        let before = segments(path.drop_last());
        if path.last() == '/' {
            before.push(Seq::empty())
        } else {
            before.drop_last().push(before.last().push(path.last()))
        }
    }
}

/// One component of a path.
pub enum ComponentView {
    /// The kind of prefix, and its parts.
    Prefix(u8, Seq<char>, Seq<char>),
    Root,
    Current,
    Parent,
    Normal(Seq<char>),
}

/// The component that one piece of a path stands for. An empty piece is none,
/// and `.` is one only as the first piece.
pub open spec fn piece_component(piece: Seq<char>, first: bool) -> Option<ComponentView> {
    if piece.len() == 0 {
        None
    } else if piece == seq!['.'] {
        if first {
            Some(ComponentView::Current)
        } else {
            None
        }
    } else if piece == seq!['.', '.'] {
        Some(ComponentView::Parent)
    } else {
        Some(ComponentView::Normal(piece))
    }
}

/// The components that the given pieces of a path stand for.
pub open spec fn piece_components(pieces: Seq<Seq<char>>) -> Seq<ComponentView>
    decreases pieces.len(),
{
    if pieces.len() == 0 {
        Seq::empty()
    } else {
        let before = piece_components(pieces.drop_last());
        match piece_component(pieces.last(), pieces.len() == 1) {
            Some(component) => before.push(component),
            None => before,
        }
    }
}

/// With `/` between them, the components of `path`, the root first where the path is absolute.
pub open spec fn components(path: Seq<char>) -> Seq<ComponentView> {
    if path.len() > 0 && path[0] == '/' {
        seq![ComponentView::Root] + piece_components(segments(path))
    } else {
        piece_components(segments(path))
    }
}

/// What a path on some hosts begins with, such as the letter of a drive or the
/// name of a server and of what it shares. Prefixes are ranked by their kind
/// first.
#[derive(Debug, PartialEq, Eq)]
pub struct PathPrefix {
    pub kind: u8,
    pub first: String,
    pub second: String,
}

/// One component of a path.
#[derive(Debug, PartialEq, Eq)]
pub enum PathComponent {
    Prefix(PathPrefix),
    Root,
    Current,
    Parent,
    Normal(String),
}

impl View for PathComponent {
    type V = ComponentView;

    open spec fn view(&self) -> ComponentView {
        match self {
            PathComponent::Prefix(prefix) => ComponentView::Prefix(
                prefix.kind,
                prefix.first@,
                prefix.second@,
            ),
            PathComponent::Root => ComponentView::Root,
            PathComponent::Current => ComponentView::Current,
            PathComponent::Parent => ComponentView::Parent,
            PathComponent::Normal(name) => ComponentView::Normal(name@),
        }
    }
}

/// The views of a list of components.
pub open spec fn component_views(parts: Seq<PathComponent>) -> Seq<ComponentView> {
    parts.map_values(|part: PathComponent| part@)
}

/// Adds what `piece` stands for to `parts`.
fn push_piece(parts: &mut Vec<PathComponent>, piece: String, first: bool)
    ensures
        component_views(final(parts)@) == match piece_component(piece@, first) {
            Some(component) => component_views(old(parts)@).push(component),
            None => component_views(old(parts)@),
        },
{
    proof {
        reveal_strlit(".");
        reveal_strlit("..");
        assert("."@ =~= seq!['.']);
        assert(".."@ =~= seq!['.', '.']);
    }
    let ghost before = component_views(parts@);
    if piece.as_str().is_empty() {
    } else if same_text(piece.as_str(), ".") {
        if first {
            parts.push(PathComponent::Current);
            assert(component_views(parts@) =~= before.push(ComponentView::Current));
        }
    } else if same_text(piece.as_str(), "..") {
        parts.push(PathComponent::Parent);
        assert(component_views(parts@) =~= before.push(ComponentView::Parent));
    } else {
        let ghost name = piece@;
        parts.push(PathComponent::Normal(piece));
        assert(component_views(parts@) =~= before.push(ComponentView::Normal(name)));
    }
}

/// Splits a path into its components, with `/` between them.
pub fn path_components(path: &str) -> (parts: Vec<PathComponent>)
    ensures
        component_views(parts@) == components(path@),
{
    let chars = chars_of(path);
    let mut parts: Vec<PathComponent> = Vec::new();
    let ghost mut root: Seq<ComponentView> = Seq::empty();
    if chars.len() > 0 && chars[0] == '/' {
        parts.push(PathComponent::Root);
        proof {
            root = seq![ComponentView::Root];
        }
    }
    assert(component_views(parts@) =~= root + piece_components(Seq::empty()));
    let mut current = String::new();
    let mut first = true;
    let mut i: usize = 0;
    proof {
        assert(chars@.take(0) =~= Seq::empty());
        assert(segments(Seq::empty()).drop_last() =~= Seq::empty());
    }
    while i < chars.len()
        invariant
            chars@ == path@,
            i <= chars@.len(),
            segments(chars@.take(i as int)).len() > 0,
            segments(chars@.take(i as int)).last() == current@,
            first == (segments(chars@.take(i as int)).len() == 1),
            component_views(parts@) == root + piece_components(
                segments(chars@.take(i as int)).drop_last(),
            ),
        decreases chars@.len() - i,
    {
        let ghost before = segments(chars@.take(i as int));
        proof {
            assert(chars@.take(i + 1).drop_last() =~= chars@.take(i as int));
        }
        let c = chars[i];
        if c == '/' {
            push_piece(&mut parts, current, first);
            proof {
                let after = segments(chars@.take(i + 1));
                assert(after =~= before.push(Seq::empty()));
                assert(after.drop_last() =~= before);
                assert(component_views(parts@) =~= root + piece_components(before));
            }
            current = String::new();
            first = false;
        } else {
            current.push(c);
            proof {
                let after = segments(chars@.take(i + 1));
                assert(after.drop_last() =~= before.drop_last());
            }
        }
        i += 1;
    }
    assert(chars@.take(i as int) =~= path@);
    push_piece(&mut parts, current, first);
    assert(component_views(parts@) =~= root + piece_components(segments(path@)));
    assert(Seq::<ComponentView>::empty() + piece_components(segments(path@)) =~= piece_components(
        segments(path@),
    ));
    parts
}

/// The number of components of a path, with `/` between them.
pub fn component_count(path: &str) -> (count: usize)
    ensures
        count == components(path@).len(),
{
    path_components(path).len()
}

/// The place of a component's kind among the kinds.
pub open spec fn component_rank(c: ComponentView) -> int {
    match c {
        ComponentView::Prefix(_, _, _) => 0,
        ComponentView::Root => 1,
        ComponentView::Current => 2,
        ComponentView::Parent => 3,
        ComponentView::Normal(_) => 4,
    }
}

/// `a` stands before `b` or equals it: by kind, names by their bytes, prefixes by
/// their own kind and then by the bytes of their parts.
pub open spec fn component_le(a: ComponentView, b: ComponentView) -> bool {
    match (a, b) {
        (ComponentView::Normal(x), ComponentView::Normal(y)) => text_le(x, y),
        (ComponentView::Prefix(k, x, u), ComponentView::Prefix(l, y, v)) => if k != l {
            k < l
        } else if x != y {
            text_le(x, y)
        } else {
            text_le(u, v)
        },
        _ => component_rank(a) <= component_rank(b),
    }
}

/// Component by component, a proper prefix first.
pub open spec fn components_le(a: Seq<ComponentView>, b: Seq<ComponentView>) -> bool
    decreases a.len(),
{
    if a.len() == 0 {
        true
    } else if b.len() == 0 {
        false
    } else if a[0] != b[0] {
        component_le(a[0], b[0])
    } else {
        components_le(a.drop_first(), b.drop_first())
    }
}

proof fn lemma_text_total(a: Seq<char>, b: Seq<char>)
    ensures
        text_le(a, b) || text_le(b, a),
{
    lemma_bytes_total(encode_utf8(a), encode_utf8(b));
}

proof fn lemma_text_antisymmetric(a: Seq<char>, b: Seq<char>)
    requires
        text_le(a, b),
        text_le(b, a),
    ensures
        a == b,
{
    lemma_bytes_antisymmetric(encode_utf8(a), encode_utf8(b));
    lemma_bytes_determine_text(a, b);
}

proof fn lemma_text_transitive(a: Seq<char>, b: Seq<char>, c: Seq<char>)
    requires
        text_le(a, b),
        text_le(b, c),
    ensures
        text_le(a, c),
{
    lemma_bytes_transitive(encode_utf8(a), encode_utf8(b), encode_utf8(c));
}

proof fn lemma_component_total(a: ComponentView, b: ComponentView)
    ensures
        component_le(a, b) || component_le(b, a),
{
    match (a, b) {
        (ComponentView::Normal(x), ComponentView::Normal(y)) => {
            lemma_text_total(x, y);
        },
        (ComponentView::Prefix(_, x, u), ComponentView::Prefix(_, y, v)) => {
            lemma_text_total(x, y);
            lemma_text_total(u, v);
        },
        _ => {},
    }
}

proof fn lemma_component_antisymmetric(a: ComponentView, b: ComponentView)
    requires
        component_le(a, b),
        component_le(b, a),
    ensures
        a == b,
{
    match (a, b) {
        (ComponentView::Normal(x), ComponentView::Normal(y)) => {
            lemma_text_antisymmetric(x, y);
        },
        (ComponentView::Prefix(_, x, u), ComponentView::Prefix(_, y, v)) => {
            if x != y {
                lemma_text_antisymmetric(x, y);
            } else {
                lemma_text_antisymmetric(u, v);
            }
        },
        _ => {},
    }
}

proof fn lemma_component_transitive(a: ComponentView, b: ComponentView, c: ComponentView)
    requires
        component_le(a, b),
        component_le(b, c),
    ensures
        component_le(a, c),
{
    match (a, b, c) {
        (ComponentView::Normal(x), ComponentView::Normal(y), ComponentView::Normal(z)) => {
            lemma_text_transitive(x, y, z);
        },
        (
            ComponentView::Prefix(k, x, u),
            ComponentView::Prefix(l, y, v),
            ComponentView::Prefix(m, z, w),
        ) => {
            if k == l && l == m {
                if x == y && y == z {
                    lemma_text_transitive(u, v, w);
                } else if x != y && y != z {
                    lemma_text_transitive(x, y, z);
                    if x == z {
                        lemma_text_antisymmetric(x, y);
                    }
                }
            }
        },
        _ => {},
    }
}

/// Of two paths one stands before the other.
pub proof fn lemma_paths_total(a: Seq<ComponentView>, b: Seq<ComponentView>)
    ensures
        components_le(a, b) || components_le(b, a),
    decreases a.len(),
{
    if a.len() > 0 && b.len() > 0 {
        lemma_component_total(a[0], b[0]);
        lemma_paths_total(a.drop_first(), b.drop_first());
    }
}

/// The order of paths is transitive.
pub proof fn lemma_paths_transitive(
    a: Seq<ComponentView>,
    b: Seq<ComponentView>,
    c: Seq<ComponentView>,
)
    requires
        components_le(a, b),
        components_le(b, c),
    ensures
        components_le(a, c),
    decreases a.len(),
{
    if a.len() > 0 && b.len() > 0 && c.len() > 0 {
        if a[0] == b[0] && b[0] == c[0] {
            lemma_paths_transitive(a.drop_first(), b.drop_first(), c.drop_first());
        } else if a[0] != b[0] && b[0] != c[0] {
            lemma_component_transitive(a[0], b[0], c[0]);
            if a[0] == c[0] {
                lemma_component_antisymmetric(a[0], b[0]);
            }
        }
    }
}

fn same_component(a: &PathComponent, b: &PathComponent) -> (same: bool)
    ensures
        same == (a@ == b@),
{
    match (a, b) {
        (PathComponent::Prefix(x), PathComponent::Prefix(y)) => x.kind == y.kind && same_text(
            x.first.as_str(),
            y.first.as_str(),
        ) && same_text(x.second.as_str(), y.second.as_str()),
        (PathComponent::Root, PathComponent::Root) => true,
        (PathComponent::Current, PathComponent::Current) => true,
        (PathComponent::Parent, PathComponent::Parent) => true,
        (PathComponent::Normal(x), PathComponent::Normal(y)) => same_text(x.as_str(), y.as_str()),
        _ => false,
    }
}

fn rank_of(c: &PathComponent) -> (rank: u8)
    ensures
        rank == component_rank(c@),
{
    match c {
        PathComponent::Prefix(_) => 0,
        PathComponent::Root => 1,
        PathComponent::Current => 2,
        PathComponent::Parent => 3,
        PathComponent::Normal(_) => 4,
    }
}

fn component_precedes(a: &PathComponent, b: &PathComponent) -> (yes: bool)
    ensures
        yes == component_le(a@, b@),
{
    match (a, b) {
        (PathComponent::Normal(x), PathComponent::Normal(y)) => text_precedes(
            x.as_str(),
            y.as_str(),
        ),
        (PathComponent::Prefix(x), PathComponent::Prefix(y)) => if x.kind != y.kind {
            x.kind < y.kind
        } else if !same_text(x.first.as_str(), y.first.as_str()) {
            text_precedes(x.first.as_str(), y.first.as_str())
        } else {
            text_precedes(x.second.as_str(), y.second.as_str())
        },
        _ => rank_of(a) <= rank_of(b),
    }
}

/// Decides whether the path with the components `x` stands before the one with
/// the components `y`, or has the same ones.
pub fn components_precede(x: &Vec<PathComponent>, y: &Vec<PathComponent>) -> (yes: bool)
    ensures
        yes == components_le(component_views(x@), component_views(y@)),
{
    let ghost xs = component_views(x@);
    let ghost ys = component_views(y@);
    assert(xs.skip(0) =~= xs);
    assert(ys.skip(0) =~= ys);
    let mut i: usize = 0;
    while i < x.len() && i < y.len()
        invariant
            xs == component_views(x@),
            ys == component_views(y@),
            i <= x@.len(),
            i <= y@.len(),
            components_le(xs, ys) == components_le(xs.skip(i as int), ys.skip(i as int)),
        decreases x@.len() - i,
    {
        if !same_component(&x[i], &y[i]) {
            return component_precedes(&x[i], &y[i]);
        }
        assert(xs.skip(i as int).drop_first() =~= xs.skip(i + 1));
        assert(ys.skip(i as int).drop_first() =~= ys.skip(i + 1));
        i += 1;
    }
    i == x.len()
}

/// A name that is one component: not empty, without a separator, and neither
/// `.` nor `..`.
pub open spec fn is_plain_name(name: Seq<char>) -> bool {
    &&& name.len() > 0
    &&& !name.contains('/')
    &&& name != seq!['.']
    &&& name != seq!['.', '.']
}

/// A text without a separator lengthens the last piece of what it is appended
/// to.
proof fn lemma_segments_append(base: Seq<char>, name: Seq<char>)
    requires
        !name.contains('/'),
    ensures
        segments(base).len() > 0,
        segments(base + name) == segments(base).drop_last().push(segments(base).last() + name),
    decreases base.len() + name.len(),
{
    if name.len() == 0 {
        if base.len() > 0 {
            lemma_segments_append(base.drop_last(), name);
        }
        assert(base + name =~= base);
        assert(segments(base).last() + name =~= segments(base).last());
        assert(segments(base) =~= segments(base).drop_last().push(segments(base).last()));
    } else {
        let shorter = name.drop_last();
        assert(name[name.len() - 1] == name.last());
        assert forall|c: char| shorter.contains(c) implies name.contains(c) by {
            let i = choose|i: int| 0 <= i < shorter.len() && shorter[i] == c;
            assert(name[i] == c);
        }
        assert(name.contains(name.last()));
        lemma_segments_append(base, shorter);
        assert((base + name).drop_last() =~= base + shorter);
        assert((base + name).last() == name.last());
        let before = segments(base + shorter);
        assert(before.drop_last() =~= segments(base).drop_last());
        assert(before.last().push(name.last()) =~= segments(base).last() + name);
        assert(segments(base + name) =~= segments(base).drop_last().push(
            segments(base).last() + name,
        ));
    }
}

/// Joining a plain name to a path adds one component, the name.
pub proof fn law_join_adds_component(base: Seq<char>, name: Seq<char>)
    requires
        is_plain_name(name),
    ensures
        components(joined(base, name)) == components(base).push(ComponentView::Normal(name)),
{
    if name[0] == '/' {
        assert(name.contains('/'));
    }
    let result = joined(base, name);
    if base.len() == 0 || base.last() == '/' {
        lemma_segments_append(base, name);
        assert(Seq::<char>::empty() + name =~= name);
        assert(segments(base).last() =~= Seq::<char>::empty());
        assert(segments(base).last() + name =~= name);
        let pieces = segments(result);
        assert(pieces.drop_last() =~= segments(base).drop_last());
        assert(piece_components(segments(base)) == piece_components(segments(base).drop_last()));
        assert(piece_components(pieces) == piece_components(segments(base)).push(
            ComponentView::Normal(name),
        ));
    } else {
        let with_separator = base.push('/');
        lemma_segments_append(with_separator, name);
        assert(with_separator.drop_last() =~= base);
        assert(segments(with_separator) =~= segments(base).push(Seq::empty()));
        assert(Seq::<char>::empty() + name =~= name);
        let pieces = segments(result);
        assert(pieces.drop_last() =~= segments(base));
        assert(piece_components(pieces) == piece_components(segments(base)).push(
            ComponentView::Normal(name),
        ));
    }
    assert(components(result) =~= components(base).push(ComponentView::Normal(name)));
}

/// An absolute path takes the place of what it is joined to. Any other begins with
/// all of that and ends in all of the path, with one separator in between where
/// that is not empty and does not end in one.
pub proof fn law_joined_path_keeps_both_parts(base: &str, path: &str, result: String)
    requires
        call_ensures(join_path, (base, path), result),
    ensures
        path@.len() > 0 && path@[0] == '/' ==> result@ == path@,
        path@.len() == 0 || path@[0] != '/' ==> {
            &&& base@.is_prefix_of(result@)
            &&& path@.is_suffix_of(result@)
            &&& base@.len() == 0 || base@.last() == '/' ==> result@.len() == base@.len()
                + path@.len()
            &&& base@.len() > 0 && base@.last() != '/' ==> result@.len() == base@.len() + 1
                + path@.len() && result@[base@.len() as int] == '/'
        },
{
    if path@.len() == 0 || path@[0] != '/' {
        assert(base@ =~= result@.subrange(0, base@.len() as int));
        assert(path@ =~= result@.subrange(
            result@.len() - path@.len(),
            result@.len() as int,
        ));
    }
}

/// The components that a text without a separator adds to a path.
pub open spec fn added_components(piece: Seq<char>) -> Seq<ComponentView> {
    if piece == Seq::<char>::empty() || piece == seq!['.'] {
        Seq::empty()
    } else if piece == seq!['.', '.'] {
        seq![ComponentView::Parent]
    } else {
        seq![ComponentView::Normal(piece)]
    }
}

proof fn lemma_segments_exist(path: Seq<char>)
    ensures
        segments(path).len() > 0,
    decreases path.len(),
{
    if path.len() > 0 {
        lemma_segments_exist(path.drop_last());
    }
}

/// A path without a separator has one component at most: none where it is empty,
/// the current directory for `.`, the parent for `..`, and the name otherwise.
pub proof fn law_single_piece_is_one_component(path: &str, parts: Vec<PathComponent>)
    requires
        call_ensures(path_components, (path,), parts),
        !path@.contains('/'),
    ensures
        component_views(parts@) == if path@ == seq!['.'] {
            seq![ComponentView::Current]
        } else {
            added_components(path@)
        },
{
    if path@.len() > 0 && path@[0] == '/' {
        assert(path@.contains('/'));
    }
    let none = Seq::<char>::empty();
    lemma_segments_append(none, path@);
    assert(none + path@ =~= path@);
    assert(segments(none) =~= seq![none]);
    assert(segments(path@) =~= seq![path@]);
    let pieces = segments(path@);
    assert(pieces.drop_last() =~= Seq::empty());
    reveal_with_fuel(piece_components, 2);
    if path@.len() == 0 {
        assert(path@ =~= none);
    } else {
        assert(path@ != none);
    }
    assert(component_views(parts@) =~= if path@ == seq!['.'] {
        seq![ComponentView::Current]
    } else {
        added_components(path@)
    });
}

/// A further piece adds what it stands for to the components before it: nothing for
/// an empty one and for `.`, the parent for `..`, and the name otherwise. Before
/// the first separator of an absolute path stands its root.
pub proof fn law_further_piece_adds_what_it_stands_for(
    base: &str,
    piece: Seq<char>,
    path: &str,
    base_parts: Vec<PathComponent>,
    parts: Vec<PathComponent>,
)
    requires
        call_ensures(path_components, (base,), base_parts),
        call_ensures(path_components, (path,), parts),
        path@ == base@.push('/') + piece,
        !piece.contains('/'),
    ensures
        base@.len() > 0 ==> component_views(parts@) == component_views(base_parts@)
            + added_components(piece),
        base@.len() == 0 ==> component_views(parts@) == seq![ComponentView::Root]
            + added_components(piece),
{
    let with_separator = base@.push('/');
    lemma_segments_append(with_separator, piece);
    lemma_segments_exist(base@);
    assert(with_separator.drop_last() =~= base@);
    assert(segments(with_separator) =~= segments(base@).push(Seq::empty()));
    assert(Seq::<char>::empty() + piece =~= piece);
    let pieces = segments(path@);
    assert(pieces.drop_last() =~= segments(base@));
    assert(pieces.last() == piece);
    assert(pieces.len() > 1);
    if piece.len() == 0 {
        assert(piece =~= Seq::<char>::empty());
    } else {
        assert(piece != Seq::<char>::empty());
    }
    assert(piece_components(pieces) =~= piece_components(segments(base@)) + added_components(
        piece,
    ));
    if base@.len() == 0 {
        assert(base@ =~= Seq::<char>::empty());
        assert(segments(base@) =~= seq![Seq::<char>::empty()]);
        assert(segments(base@).drop_last() =~= Seq::empty());
        reveal_with_fuel(piece_components, 2);
        assert(piece_components(segments(base@)) =~= Seq::empty());
        assert(path@[0] == '/');
        assert(component_views(parts@) =~= seq![ComponentView::Root] + added_components(piece));
    } else {
        assert(path@[0] == base@[0]);
        assert(component_views(parts@) =~= component_views(base_parts@) + added_components(piece));
    }
}

/// The number of components is that of the list of them.
pub proof fn law_components_are_counted(path: &str, parts: Vec<PathComponent>, count: usize)
    requires
        call_ensures(path_components, (path,), parts),
        call_ensures(component_count, (path,), count),
    ensures
        count == parts@.len(),
{
    assert(component_views(parts@).len() == parts@.len());
}

/// Two components say the same exactly if they are of one kind and all their texts
/// agree.
pub proof fn law_components_differ_where_a_part_does(a: PathComponent, b: PathComponent)
    ensures
        a@ == b@ <==> match (a, b) {
            (PathComponent::Prefix(x), PathComponent::Prefix(y)) => x.kind == y.kind && x.first@
                == y.first@ && x.second@ == y.second@,
            (PathComponent::Normal(x), PathComponent::Normal(y)) => x@ == y@,
            (PathComponent::Root, PathComponent::Root) => true,
            (PathComponent::Current, PathComponent::Current) => true,
            (PathComponent::Parent, PathComponent::Parent) => true,
            _ => false,
        },
{
}

proof fn lemma_components_first_difference(
    a: Seq<ComponentView>,
    b: Seq<ComponentView>,
    at: int,
)
    requires
        0 <= at <= a.len(),
        at <= b.len(),
        forall|k: int| 0 <= k < at ==> a[k] == b[k],
    ensures
        at == a.len() ==> components_le(a, b),
        at == b.len() && at < a.len() ==> !components_le(a, b),
        at < a.len() && at < b.len() && a[at] != b[at] ==> (components_le(a, b) <==> component_le(
            a[at],
            b[at],
        )),
    decreases at,
{
    if at > 0 {
        let x = a.drop_first();
        let y = b.drop_first();
        assert(a[0] == b[0]);
        assert forall|k: int| 0 <= k < at - 1 implies x[k] == y[k] by {
            assert(a[k + 1] == b[k + 1]);
        }
        lemma_components_first_difference(x, y, at - 1);
    }
}

/// Paths are ordered by the first component in which they differ, and where one is
/// a beginning of the other, the shorter one stands first. Of two components, a
/// prefix stands before the root, the root before `.`, that before `..`, and that
/// before a name. Names are ordered as texts, and prefixes by their kind, then by
/// their first part, then by their second.
pub proof fn law_first_differing_component_decides(
    x: Vec<PathComponent>,
    y: Vec<PathComponent>,
    precedes: bool,
    at: int,
)
    requires
        call_ensures(components_precede, (&x, &y), precedes),
        0 <= at <= x@.len(),
        at <= y@.len(),
        forall|k: int| 0 <= k < at ==> (#[trigger] x@[k])@ == y@[k]@,
    ensures
        at == x@.len() ==> precedes,
        at == y@.len() && at < x@.len() ==> !precedes,
        at < x@.len() && at < y@.len() && x@[at]@ != y@[at]@ ==> (precedes <==> match (
            x@[at],
            y@[at],
        ) {
            (PathComponent::Prefix(p), PathComponent::Prefix(q)) => {
                ||| p.kind < q.kind
                ||| p.kind == q.kind && p.first@ != q.first@ && text_le(p.first@, q.first@)
                ||| p.kind == q.kind && p.first@ == q.first@ && text_le(p.second@, q.second@)
            },
            (PathComponent::Prefix(_), _) => true,
            (_, PathComponent::Prefix(_)) => false,
            (PathComponent::Root, _) => true,
            (_, PathComponent::Root) => false,
            (PathComponent::Current, _) => true,
            (_, PathComponent::Current) => false,
            (PathComponent::Parent, _) => true,
            (_, PathComponent::Parent) => false,
            (PathComponent::Normal(p), PathComponent::Normal(q)) => text_le(p@, q@),
        }),
{
    let a = component_views(x@);
    let b = component_views(y@);
    assert(a.len() == x@.len() && b.len() == y@.len());
    assert forall|k: int| 0 <= k < at implies a[k] == b[k] by {
        assert(x@[k]@ == y@[k]@);
    }
    lemma_components_first_difference(a, b, at);
    if at < x@.len() && at < y@.len() {
        assert(a[at] == x@[at]@ && b[at] == y@[at]@);
    }
}

} // verus!
