//! Paths: sequences of components, written with `/` between them.
//!
//! `/` is the only separator, and there is no prefix such as a drive letter, on every system: the
//! components are those of `std::path` where `/` is the separator of the system. Where `std::path`
//! also takes `\` for a separator, a name that holds one is a single component here.

use crate::text::{chars_of, find_char, str_eq, string_of};
#[allow(unused_imports)]
use crate::text::{other_than, run_length, run_length_is, run_length_properties, split};
use vstd::prelude::*;

verus! {

/// A component of a path.
#[derive(Debug)]
pub enum Part {
    /// The root: the `/` at the start of an absolute path.
    Root,
    /// `.`, which is kept at the start of a relative path only.
    Current,
    /// `..`
    Parent,
    Normal(String),
}

/// A component as a mathematical value.
pub enum PartView {
    Root,
    Current,
    Parent,
    Normal(Seq<char>),
}

impl View for Part {
    type V = PartView;

    open spec fn view(&self) -> PartView {
        match *self {
            Part::Root => PartView::Root,
            Part::Current => PartView::Current,
            Part::Parent => PartView::Parent,
            Part::Normal(name) => PartView::Normal(name@),
        }
    }
}

impl Part {
    /// A copy of a component.
    pub fn copy(&self) -> (copy: Part)
        ensures
            copy@ == self@,
    {
        match self {
            Part::Root => Part::Root,
            Part::Current => Part::Current,
            Part::Parent => Part::Parent,
            Part::Normal(name) => Part::Normal(name.clone()),
        }
    }

    /// Tests that two components are the same.
    pub fn same(&self, other: &Part) -> (same: bool)
        ensures
            same == (self@ == other@),
    {
        match (self, other) {
            (Part::Root, Part::Root) => true,
            (Part::Current, Part::Current) => true,
            (Part::Parent, Part::Parent) => true,
            (Part::Normal(a), Part::Normal(b)) => str_eq(a.as_str(), b.as_str()),
            _ => false,
        }
    }
}

/// The component that a piece between separators stands for; `first` says that nothing stands
/// before it.
pub open spec fn part_of(piece: Seq<char>, first: bool) -> Option<PartView> {
    if piece.len() == 0 {
        None
    } else if piece == seq!['.'] {
        if first {
            Some(PartView::Current)
        } else {
            None
        }
    } else if piece == seq!['.', '.'] {
        Some(PartView::Parent)
    } else {
        Some(PartView::Normal(piece))
    }
}

/// The components of some pieces.
pub open spec fn parts_of(pieces: Seq<Seq<char>>) -> Seq<PartView>
    decreases pieces.len(),
{
    if pieces.len() == 0 {
        seq![]
    } else {
        let front = parts_of(pieces.drop_last());
        match part_of(pieces.last(), pieces.len() == 1) {
            Some(part) => front.push(part),
            None => front,
        }
    }
}

/// The text is that of an absolute path.
pub open spec fn rooted(text: Seq<char>) -> bool {
    text.len() > 0 && text[0] == '/'
}

/// The components of a path: repeated separators count as one, and `.` counts only at the start.
pub open spec fn parse(text: Seq<char>) -> Seq<PartView> {
    (if rooted(text) {
        seq![PartView::Root]
    } else {
        seq![]
    }) + parts_of(split(text, '/'))
}

/// A name that can stand between separators as it is.
pub open spec fn is_name(name: Seq<char>) -> bool {
    &&& name.len() > 0
    &&& !name.contains('/')
    &&& name != seq!['.']
    &&& name != seq!['.', '.']
}

/// `part` can stand at position `i` of a path.
pub open spec fn part_fits(part: PartView, i: int) -> bool {
    match part {
        PartView::Root => i == 0,
        PartView::Current => i == 0,
        PartView::Parent => true,
        PartView::Normal(name) => is_name(name),
    }
}

/// The components form a path.
pub open spec fn is_path(parts: Seq<PartView>) -> bool {
    forall|i: int| 0 <= i < parts.len() ==> part_fits(#[trigger] parts[i], i)
}

/// How a component is written.
pub open spec fn part_text(part: PartView) -> Seq<char> {
    match part {
        PartView::Root => seq!['/'],
        PartView::Current => seq!['.'],
        PartView::Parent => seq!['.', '.'],
        PartView::Normal(name) => name,
    }
}

/// How a path is written.
pub open spec fn render(parts: Seq<PartView>) -> Seq<char>
    decreases parts.len(),
{
    if parts.len() == 0 {
        seq![]
    } else if parts.len() == 1 {
        part_text(parts[0])
    } else if parts.len() == 2 && parts[0] == PartView::Root {
        seq!['/'] + part_text(parts[1])
    } else {
        render(parts.drop_last()) + seq!['/'] + part_text(parts.last())
    }
}

/// Starts with the root.
pub open spec fn absolute(parts: Seq<PartView>) -> bool {
    parts.len() > 0 && parts[0] == PartView::Root
}

/// `base` followed by `tail`; an absolute `tail` replaces `base`.
pub open spec fn joined(base: Seq<PartView>, tail: Seq<PartView>) -> Seq<PartView> {
    if absolute(tail) || base.len() == 0 {
        tail
    } else if tail.len() > 0 && tail[0] == PartView::Current {
        base + tail.drop_first()
    } else {
        base + tail
    }
}

/// A path without its last component.
pub open spec fn parent_of(parts: Seq<PartView>) -> Option<Seq<PartView>> {
    if parts.len() == 0 || parts.last() == PartView::Root {
        None
    } else {
        Some(parts.drop_last())
    }
}

/// What follows `prefix` in a path that starts with it.
pub open spec fn stripped(parts: Seq<PartView>, prefix: Seq<PartView>) -> Option<Seq<PartView>> {
    if prefix.len() <= parts.len() && parts.take(prefix.len() as int) == prefix {
        Some(parts.skip(prefix.len() as int))
    } else {
        None
    }
}

/// The path with its file name, where it has one, replaced by `name`.
pub open spec fn renamed(parts: Seq<PartView>, name: Seq<char>) -> Seq<PartView> {
    joined(
        if parts.len() > 0 && parts.last() is Normal {
            parts.drop_last()
        } else {
            parts
        },
        parse(name),
    )
}

/// The position of the dot before the extension of a file name; the length of the name where it
/// has no extension. A dot at the start does not count.
pub open spec fn extension_dot(name: Seq<char>) -> int {
    extension_dot_in(name, name.len() as int)
}

/// The last dot past the start among the first `n` characters, or the end of the name.
pub open spec fn extension_dot_in(name: Seq<char>, n: int) -> int
    decreases n,
{
    if n <= 1 {
        name.len() as int
    } else if name[n - 1] == '.' {
        n - 1
    } else {
        extension_dot_in(name, n - 1)
    }
}

/// A file name without its extension.
pub open spec fn stem(name: Seq<char>) -> Seq<char> {
    name.take(extension_dot(name))
}

/// A file name with its extension replaced; an empty extension is left out with its dot.
pub open spec fn extended(name: Seq<char>, extension: Seq<char>) -> Seq<char> {
    if extension.len() == 0 {
        stem(name)
    } else {
        stem(name) + seq!['.'] + extension
    }
}

/// The path with the extension of its file name, where it has one, set to `extension`.
pub open spec fn with_extension(parts: Seq<PartView>, extension: Seq<char>) -> Seq<PartView> {
    if parts.len() > 0 {
        match parts.last() {
            PartView::Normal(name) => parts.drop_last().push(
                PartView::Normal(extended(name, extension)),
            ),
            _ => parts,
        }
    } else {
        parts
    }
}

/// The last dot past the start of a file name, if there is one, is where its extension starts.
pub proof fn extension_at_last_dot(name: Seq<char>)
    ensures
        name.len() > 0 ==> 0 < extension_dot(name) <= name.len(),
        name.len() == 0 ==> extension_dot(name) == 0,
        extension_dot(name) < name.len() ==> name[extension_dot(name)] == '.',
        forall|i: int|
            extension_dot(name) < i < name.len() ==> #[trigger] name[i] != '.',
        extension_dot(name) == name.len() ==> forall|i: int|
            0 < i < name.len() ==> #[trigger] name[i] != '.',
{
    last_dot_in(name, name.len() as int);
}

proof fn last_dot_in(name: Seq<char>, n: int)
    requires
        0 <= n <= name.len(),
    ensures
        ({
            let dot = extension_dot_in(name, n);
            &&& dot == name.len() || 0 < dot < n && name[dot] == '.'
            &&& forall|i: int| dot < i < n ==> #[trigger] name[i] != '.'
            &&& dot == name.len() ==> forall|i: int| 0 < i < n ==> #[trigger] name[i] != '.'
        }),
    decreases n,
{
    if n > 1 && name[n - 1] != '.' {
        last_dot_in(name, n - 1);
    }
}

/// Setting an extension changes just what stands behind the last dot of the file name: what the
/// name had before the dot stays, and the extension follows. Setting it again replaces it.
pub proof fn extension_replaces(name: Seq<char>, extension: Seq<char>, other: Seq<char>)
    requires
        name.len() > 0,
        extension.len() > 0,
        !extension.contains('.'),
    ensures
        extended(name, extension).len() > extension.len() + 1,
        extended(name, extension).skip(extended(name, extension).len() - extension.len())
            == extension,
        extended(name, extension)[extended(name, extension).len() - extension.len() - 1] == '.',
        extended(name, extension).take(extended(name, extension).len() - extension.len() - 1)
            == name.take(extension_dot(name)),
        extended(extended(name, extension), other) == extended(name, other),
{
    extension_at_last_dot(name);
    let all = extended(name, extension);
    let d = extension_dot(name);
    assert(all.skip(all.len() - extension.len()) =~= extension);
    assert(all.take(d) =~= name.take(d));
    extension_at_last_dot(all);
    let e = extension_dot(all);
    assert(all[d] == '.');
    assert forall|i: int| d < i < all.len() implies #[trigger] all[i] != '.' by {
        assert(all[i] == extension[i - d - 1]);
        assert(extension.contains(extension[i - d - 1]));
    }
    if e == all.len() {
        assert(all[d] != '.');
    } else if e < d {
        assert(all[d] != '.');
    }
    assert(e == d);
    assert(stem(all) =~= stem(name));
}

/// The text without separators is one piece.
proof fn split_one(s: Seq<char>)
    requires
        !s.contains('/'),
    ensures
        split(s, '/') == seq![s],
{
    run_length_is(s, other_than('/'), s.len());
}

/// A piece behind a separator is one more piece.
proof fn split_more(s: Seq<char>, t: Seq<char>)
    requires
        !t.contains('/'),
    ensures
        split(s + seq!['/'] + t, '/') == split(s, '/').push(t),
    decreases s.len(),
{
    let all = s + seq!['/'] + t;
    let n = run_length(s, other_than('/'));
    run_length_properties(s, other_than('/'));
    assert forall|i: int| 0 <= i < n implies other_than('/')(#[trigger] all[i]) by {
        assert(all[i] == s[i]);
    }
    assert(all[n as int] == '/');
    run_length_is(all, other_than('/'), n);
    if n < s.len() {
        let rest = s.skip(n as int + 1);
        assert(all.skip(n as int + 1) =~= rest + seq!['/'] + t);
        assert(all.take(n as int) =~= s.take(n as int));
        split_more(rest, t);
        assert(seq![s.take(n as int)] + split(rest, '/').push(t) =~= (seq![s.take(n as int)]
            + split(rest, '/')).push(t));
    } else {
        assert(all.skip(n as int + 1) =~= t);
        assert(all.take(n as int) =~= s);
        split_one(t);
        assert(seq![s] + seq![t] =~= seq![s].push(t));
    }
}

proof fn part_text_plain(part: PartView, i: int)
    requires
        part_fits(part, i),
        part != PartView::Root,
    ensures
        part_text(part).len() > 0,
        !part_text(part).contains('/'),
        part_of(part_text(part), true) == Some(part),
        i > 0 ==> part_of(part_text(part), false) == Some(part),
{
    match part {
        PartView::Current => {
            assert(!seq!['.'].contains('/'));
        },
        PartView::Parent => {
            assert(seq!['.', '.'].len() != seq!['.'].len());
            assert(!seq!['.', '.'].contains('/'));
        },
        _ => {},
    }
}

/// Parsing what was written gives the path back.
pub proof fn parse_render(parts: Seq<PartView>)
    requires
        is_path(parts),
    ensures
        parse(render(parts)) == parts,
        parts.len() > 0 ==> render(parts).len() > 0,
        rooted(render(parts)) == absolute(parts),
        parts_of(split(render(parts), '/')) == (if absolute(parts) {
            parts.drop_first()
        } else {
            parts
        }),
        parts.len() > 0 ==> split(render(parts), '/').len() > 0,
    decreases parts.len(),
{
    reveal_with_fuel(parts_of, 3);
    let text = render(parts);
    if parts.len() == 0 {
        assert(!text.contains('/'));
        split_one(text);
        assert(seq![text].drop_last() =~= seq![]);
        assert(parts_of(seq![text]) =~= seq![]);
        assert(parse(text) =~= parts);
    } else if parts.len() == 1 {
        assert(part_fits(parts[0], 0));
        if parts[0] == PartView::Root {
            let empty: Seq<char> = seq![];
            assert(text =~= empty + seq!['/'] + empty);
            split_more(empty, empty);
            split_one(empty);
            let pieces = seq![empty].push(empty);
            assert(pieces.drop_last() =~= seq![empty]);
            assert(seq![empty].drop_last() =~= seq![]);
            assert(parts_of(seq![empty]) =~= seq![]);
            assert(parts_of(pieces) =~= seq![]);
            assert(parts.drop_first() =~= seq![]);
            assert(parse(text) =~= parts);
        } else {
            part_text_plain(parts[0], 0);
            split_one(text);
            assert(seq![text].drop_last() =~= seq![]);
            assert(parts_of(seq![text]) =~= parts);
            assert(text.contains(text[0]));
            assert(parse(text) =~= parts);
        }
    } else {
        let front = parts.drop_last();
        let last = parts.last();
        assert(part_fits(parts[parts.len() - 1], parts.len() - 1));
        part_text_plain(last, parts.len() - 1);
        assert(is_path(front)) by {
            assert forall|i: int| 0 <= i < front.len() implies part_fits(#[trigger] front[i], i) by {
                assert(front[i] == parts[i]);
            }
        }
        parse_render(front);
        let piece = part_text(last);
        if parts.len() == 2 && parts[0] == PartView::Root {
            let empty: Seq<char> = seq![];
            assert(text =~= empty + seq!['/'] + piece);
            split_more(empty, piece);
            split_one(empty);
            let pieces = seq![empty].push(piece);
            assert(pieces.drop_last() =~= seq![empty]);
            assert(seq![empty].drop_last() =~= seq![]);
            assert(parts_of(seq![empty]) =~= seq![]);
            assert(parts_of(pieces) =~= seq![last]);
            assert(parts.drop_first() =~= seq![last]);
            assert(parse(text) =~= parts);
        } else {
            let written = render(front);
            split_more(written, piece);
            let pieces = split(written, '/').push(piece);
            assert(pieces.drop_last() =~= split(written, '/'));
            assert(text[0] == written[0]);
            assert(parts_of(pieces) == parts_of(split(written, '/')).push(last));
            if absolute(parts) {
                assert(front.drop_first().push(last) =~= parts.drop_first());
            } else {
                assert(front.push(last) =~= parts);
            }
            assert(parse(text) =~= parts);
        }
    }
}

/// A separator at the end of a path does not count.
pub proof fn trailing_separator_ignored(text: Seq<char>)
    requires
        text.len() > 0,
    ensures
        parse(text + seq!['/']) == parse(text),
{
    split_more(text, seq![]);
    assert(text + seq!['/'] + Seq::<char>::empty() =~= text + seq!['/']);
    let pieces = split(text + seq!['/'], '/');
    assert(pieces.drop_last() =~= split(text, '/'));
    assert(parts_of(pieces) == parts_of(split(text, '/')));
}

/// A path behind another is written behind it, with a separator between them.
pub proof fn render_behind(base: Seq<PartView>, tail: Seq<PartView>)
    requires
        base.len() > 0,
        base != seq![PartView::Root],
        tail.len() > 0,
        tail[0] != PartView::Root,
    ensures
        render(base + tail) == render(base) + seq!['/'] + render(tail),
    decreases tail.len(),
{
    let all = base + tail;
    assert(all[0] == base[0]);
    assert(all.last() == tail.last());
    if tail.len() == 1 {
        assert(all.drop_last() =~= base);
        if all.len() == 2 && all[0] == PartView::Root {
            assert(base =~= seq![PartView::Root]);
        }
    } else {
        let front = tail.drop_last();
        render_behind(base, front);
        assert(all.drop_last() =~= base + front);
        assert(render(all) == render(base) + seq!['/'] + render(front) + seq!['/'] + part_text(
            tail.last(),
        ));
        assert(render(tail) == render(front) + seq!['/'] + part_text(tail.last()));
        assert(render(base) + seq!['/'] + render(front) + seq!['/'] + part_text(tail.last())
            =~= render(base) + seq!['/'] + (render(front) + seq!['/'] + part_text(tail.last())));
    }
}

/// A name is a path of one component.
pub proof fn parse_name(name: Seq<char>)
    requires
        is_name(name),
    ensures
        parse(name) == seq![PartView::Normal(name)],
{
    let parts = seq![PartView::Normal(name)];
    assert(is_path(parts));
    parse_render(parts);
}

/// Two paths that are written alike are the same.
pub proof fn render_injective(a: Seq<PartView>, b: Seq<PartView>)
    requires
        is_path(a),
        is_path(b),
        render(a) == render(b),
    ensures
        a == b,
{
    parse_render(a);
    parse_render(b);
}

/// Parsing gives a path.
pub proof fn parse_is_path(text: Seq<char>)
    ensures
        is_path(parse(text)),
{
    let pieces = split(text, '/');
    pieces_have_no_separator(text);
    parts_fit(pieces);
    let parts = parts_of(pieces);
    if rooted(text) {
        let empty: Seq<char> = seq![];
        run_length_is(text, other_than('/'), 0);
        assert(text.take(0) =~= empty);
        assert(pieces[0] == empty);
        no_current(pieces);
        assert forall|i: int| 0 <= i < parse(text).len() implies part_fits(
            #[trigger] parse(text)[i],
            i,
        ) by {
            if i > 0 {
                assert(parse(text)[i] == parts[i - 1]);
                assert(part_fits(parts[i - 1], i - 1));
            }
        }
    } else {
        assert(parse(text) =~= parts);
    }
}

proof fn pieces_have_no_separator(s: Seq<char>)
    ensures
        forall|i: int|
            0 <= i < split(s, '/').len() ==> !(#[trigger] split(s, '/')[i]).contains('/'),
        split(s, '/').len() > 0,
    decreases s.len(),
{
    let n = run_length(s, other_than('/'));
    run_length_properties(s, other_than('/'));
    if n < s.len() {
        let rest = s.skip(n as int + 1);
        pieces_have_no_separator(rest);
        assert forall|i: int| 0 <= i < split(s, '/').len() implies !(
        #[trigger] split(s, '/')[i]).contains('/') by {
            if i == 0 {
                assert(split(s, '/')[0] == s.take(n as int));
            } else {
                assert(split(s, '/')[i] == split(rest, '/')[i - 1]);
            }
        }
    }
}

proof fn parts_fit(pieces: Seq<Seq<char>>)
    requires
        forall|i: int| 0 <= i < pieces.len() ==> !(#[trigger] pieces[i]).contains('/'),
    ensures
        forall|i: int|
            0 <= i < parts_of(pieces).len() ==> part_fits(#[trigger] parts_of(pieces)[i], i)
                && parts_of(pieces)[i] != PartView::Root,
    decreases pieces.len(),
{
    if pieces.len() > 0 {
        parts_fit(pieces.drop_last());
        assert(!pieces[pieces.len() - 1].contains('/'));
        if pieces.len() == 1 {
            assert(pieces.drop_last() =~= seq![]);
        }
    }
}

/// Behind an empty piece no component is `.`.
proof fn no_current(pieces: Seq<Seq<char>>)
    requires
        pieces.len() > 0,
        pieces[0].len() == 0,
    ensures
        forall|i: int|
            0 <= i < parts_of(pieces).len() ==> #[trigger] parts_of(pieces)[i] != PartView::Current,
    decreases pieces.len(),
{
    reveal_with_fuel(parts_of, 2);
    if pieces.len() == 1 {
        assert(pieces.drop_last() =~= seq![]);
        assert(parts_of(pieces) =~= seq![]);
    } else {
        assert(pieces.drop_last()[0] == pieces[0]);
        no_current(pieces.drop_last());
    }
}

/// Joining paths gives a path.
pub proof fn joined_is_path(base: Seq<PartView>, tail: Seq<PartView>)
    requires
        is_path(base),
        is_path(tail),
    ensures
        is_path(joined(base, tail)),
{
    let all = joined(base, tail);
    assert forall|i: int| 0 <= i < all.len() implies part_fits(#[trigger] all[i], i) by {
        if absolute(tail) || base.len() == 0 {
            assert(all[i] == tail[i]);
        } else if i < base.len() {
            assert(all[i] == base[i]);
        } else {
            let skip: int = if tail.len() > 0 && tail[0] == PartView::Current {
                1
            } else {
                0
            };
            assert(all[i] == tail[i - base.len() + skip]);
            assert(part_fits(tail[i - base.len() + skip], i - base.len() + skip));
        }
    }
}

/// Stripping what was joined gives the tail back.
pub proof fn strip_undoes_join(base: Seq<PartView>, tail: Seq<PartView>)
    requires
        base.len() > 0,
        tail.len() > 0 ==> tail[0] != PartView::Root && tail[0] != PartView::Current,
    ensures
        stripped(joined(base, tail), base) == Some(tail),
{
    let all = joined(base, tail);
    assert(all.take(base.len() as int) =~= base);
    assert(all.skip(base.len() as int) =~= tail);
}

/// Joining what was stripped gives the path back.
pub proof fn join_undoes_strip(parts: Seq<PartView>, prefix: Seq<PartView>)
    requires
        is_path(parts),
        prefix.len() > 0,
        stripped(parts, prefix) is Some,
    ensures
        joined(prefix, stripped(parts, prefix)->0) == parts,
{
    let tail = stripped(parts, prefix)->0;
    if tail.len() > 0 {
        assert(tail[0] == parts[prefix.len() as int]);
        assert(part_fits(parts[prefix.len() as int], prefix.len() as int));
    }
    assert(joined(prefix, tail) =~= parts);
}

/// The views of some components.
pub open spec fn part_views(parts: Seq<Part>) -> Seq<PartView> {
    parts.map_values(|p: Part| p@)
}

/// A path.
#[derive(Debug)]
pub struct Path {
    parts: Vec<Part>,
}

impl View for Path {
    type V = Seq<PartView>;

    closed spec fn view(&self) -> Seq<PartView> {
        part_views(self.parts@)
    }
}

impl Path {
    /// The components form a path.
    pub open spec fn wf(self) -> bool {
        is_path(self@)
    }

    /// Parses a path.
    pub fn new(text: &str) -> (path: Path)
        ensures
            path@ == parse(text@),
            path.wf(),
    {
        let chars = chars_of(text);
        let mut parts: Vec<Part> = Vec::new();
        let mut start: usize = 0;
        let mut first: bool = true;
        if chars.len() > 0 && chars[0] == '/' {
            parts.push(Part::Root);
        }
        let ghost root = part_views(parts@);
        let ghost all = split(text@, '/');
        let ghost mut pieces: Seq<Seq<char>> = seq![];
        proof {
            parse_is_path(text@);
            assert(root =~= if rooted(text@) {
                seq![PartView::Root]
            } else {
                seq![]
            });
            assert(chars@.skip(0) =~= chars@);
            assert(pieces + split(chars@, '/') =~= split(chars@, '/'));
            assert(part_views(parts@) =~= root + parts_of(pieces));
        }
        loop
            invariant
                chars@ == text@,
                all == split(text@, '/'),
                start <= chars.len(),
                pieces + split(chars@.skip(start as int), '/') == all,
                part_views(parts@) == root + parts_of(pieces),
                first == (pieces.len() == 0),
                root == (if rooted(text@) {
                    seq![PartView::Root]
                } else {
                    seq![]
                }),
                is_path(parse(text@)),
            decreases chars.len() - start,
        {
            let end: usize = find_char(&chars, start, '/');
            let ghost rest = chars@.skip(start as int);
            let ghost piece = chars@.subrange(start as int, end as int);
            proof {
                if end < chars.len() {
                    assert(rest.take(end - start) =~= piece);
                    assert(rest.skip(end - start + 1) =~= chars@.skip(end + 1));
                    assert(split(rest, '/') == seq![piece] + split(chars@.skip(end + 1), '/'));
                    assert(pieces + (seq![piece] + split(chars@.skip(end + 1), '/'))
                        =~= pieces.push(piece) + split(chars@.skip(end + 1), '/'));
                } else {
                    assert(rest =~= piece);
                    assert(split(rest, '/') == seq![piece]);
                    assert(pieces + seq![piece] =~= pieces.push(piece));
                }
                assert(pieces.push(piece).drop_last() =~= pieces);
            }
            let part: Option<Part> = Self::parse_part(&chars, start, end, first);
            let ghost before = parts@;
            match part {
                Some(part) => {
                    parts.push(part);
                    proof {
                        assert(part_views(parts@) =~= part_views(before).push(part@));
                    }
                },
                None => {},
            }
            proof {
                pieces = pieces.push(piece);
                assert(part_views(parts@) =~= root + parts_of(pieces));
            }
            if end == chars.len() {
                return Path { parts };
            }
            first = false;
            start = end + 1;
        }
    }

    fn parse_part(chars: &Vec<char>, start: usize, end: usize, first: bool) -> (part: Option<Part>)
        requires
            start <= end <= chars.len(),
        ensures
            match part {
                Some(p) => part_of(chars@.subrange(start as int, end as int), first) == Some(p@),
                None => part_of(chars@.subrange(start as int, end as int), first) is None,
            },
    {
        let ghost piece = chars@.subrange(start as int, end as int);
        if start == end {
            return None;
        }
        if end - start == 1 && chars[start] == '.' {
            assert(piece =~= seq!['.']);
            return if first {
                Some(Part::Current)
            } else {
                None
            };
        }
        assert(piece != seq!['.']) by {
            if piece == seq!['.'] {
                assert(piece[0] == '.');
            }
        }
        if end - start == 2 && chars[start] == '.' && chars[start + 1] == '.' {
            assert(piece =~= seq!['.', '.']);
            return Some(Part::Parent);
        }
        assert(piece != seq!['.', '.']) by {
            if piece == seq!['.', '.'] {
                assert(piece[0] == '.' && piece[1] == '.');
            }
        }
        Some(Part::Normal(string_of(chars, start, end)))
    }

    /// Writes the path.
    pub fn to_text(&self) -> (text: String)
        ensures
            text@ == render(self@),
    {
        let mut text = String::new();
        let mut i: usize = 0;
        assert(self@.take(0) =~= seq![]);
        while i < self.parts.len()
            invariant
                i <= self.parts.len(),
                text@ == render(self@.take(i as int)),
            decreases self.parts.len() - i,
        {
            let ghost before = text@;
            if i > 1 || (i == 1 && !self.parts[0].same(&Part::Root)) {
                text.push('/');
            }
            let ghost middle = text@;
            proof {
                assert(self.parts@[0]@ == self@[0]);
            }
            match &self.parts[i] {
                Part::Root => {
                    text.push('/');
                    assert(text@ =~= middle + seq!['/']);
                },
                Part::Current => {
                    text.push('.');
                    assert(text@ =~= middle + seq!['.']);
                },
                Part::Parent => {
                    text.push('.');
                    text.push('.');
                    assert(text@ =~= middle + seq!['.', '.']);
                },
                Part::Normal(name) => {
                    text.append(name.as_str());
                },
            }
            proof {
                let now = self@.take(i + 1);
                let part = self@[i as int];
                assert(part == self.parts@[i as int]@);
                assert(text@ == middle + part_text(part));
                assert(now.drop_last() =~= self@.take(i as int));
                assert(now.last() == part);
                if i == 0 {
                    assert(middle =~= seq![]);
                    assert(seq![] + part_text(part) =~= part_text(part));
                } else if i == 1 && self@[0] == PartView::Root {
                    assert(self@.take(1)[0] == PartView::Root);
                    assert(before == seq!['/']);
                } else {
                    assert(middle =~= before + seq!['/']);
                    assert(now[0] == self@[0]);
                }
            }
            i += 1;
        }
        assert(self@.take(self@.len() as int) =~= self@);
        text
    }

    fn copy_parts(&self, from: usize, to: usize, out: &mut Vec<Part>)
        requires
            from <= to <= self@.len(),
        ensures
            part_views(final(out)@) == part_views(old(out)@) + self@.subrange(from as int, to as int),
    {
        let mut i: usize = from;
        assert(part_views(out@) =~= part_views(old(out)@) + self@.subrange(from as int, i as int));
        while i < to
            invariant
                from <= i <= to <= self.parts.len(),
                part_views(out@) == part_views(old(out)@) + self@.subrange(from as int, i as int),
            decreases to - i,
        {
            let ghost before = out@;
            let part = self.parts[i].copy();
            out.push(part);
            i += 1;
            proof {
                assert(part_views(out@) =~= part_views(before).push(part@));
                assert(self@.subrange(from as int, i as int) =~= self@.subrange(
                    from as int,
                    i - 1,
                ).push(self@[i - 1]));
                assert(part_views(out@) =~= part_views(old(out)@) + self@.subrange(
                    from as int,
                    i as int,
                ));
            }
        }
    }

    fn part(&self, from: usize, to: usize) -> (path: Path)
        requires
            from <= to <= self@.len(),
        ensures
            path@ == self@.subrange(from as int, to as int),
    {
        let mut parts: Vec<Part> = Vec::new();
        self.copy_parts(from, to, &mut parts);
        assert(part_views(Seq::<Part>::empty()) =~= seq![]);
        assert(seq![] + self@.subrange(from as int, to as int) =~= self@.subrange(
            from as int,
            to as int,
        ));
        Path { parts }
    }

    /// A copy of the path.
    pub fn copy(&self) -> (path: Path)
        ensures
            path@ == self@,
    {
        let path = self.part(0, self.parts.len());
        assert(self@.subrange(0, self@.len() as int) =~= self@);
        path
    }

    /// Tests that two paths have the same components.
    pub fn same(&self, other: &Path) -> (same: bool)
        ensures
            same == (self@ == other@),
    {
        if self.parts.len() != other.parts.len() {
            assert(self@.len() != other@.len());
            return false;
        }
        let mut i: usize = 0;
        while i < self.parts.len()
            invariant
                i <= self.parts.len() == other.parts.len(),
                forall|k: int| 0 <= k < i ==> self@[k] == other@[k],
            decreases self.parts.len() - i,
        {
            if !self.parts[i].same(&other.parts[i]) {
                assert(self@[i as int] == self.parts@[i as int]@);
                assert(other@[i as int] == other.parts@[i as int]@);
                return false;
            }
            i += 1;
        }
        assert(self@ =~= other@);
        true
    }

    /// Tests for an absolute path.
    pub fn is_absolute(&self) -> (result: bool)
        ensures
            result == absolute(self@),
    {
        if self.parts.len() == 0 {
            return false;
        }
        assert(self@[0] == self.parts@[0]@);
        self.parts[0].same(&Part::Root)
    }

    /// What follows `prefix`, in a path that starts with it.
    pub fn strip_prefix(&self, prefix: &Path) -> (rest: Option<Path>)
        ensures
            match rest {
                Some(path) => stripped(self@, prefix@) == Some(path@),
                None => stripped(self@, prefix@) is None,
            },
    {
        if prefix.parts.len() > self.parts.len() {
            return None;
        }
        let start = self.part(0, prefix.parts.len());
        assert(self@.subrange(0, prefix@.len() as int) =~= self@.take(prefix@.len() as int));
        if start.same(prefix) {
            let rest = self.part(prefix.parts.len(), self.parts.len());
            assert(rest@ =~= self@.skip(prefix@.len() as int));
            Some(rest)
        } else {
            None
        }
    }

    /// The path without its last component.
    pub fn parent(&self) -> (parent: Option<Path>)
        ensures
            match parent {
                Some(path) => parent_of(self@) == Some(path@),
                None => parent_of(self@) is None,
            },
    {
        let n: usize = self.parts.len();
        if n == 0 {
            return None;
        }
        assert(self@[n - 1] == self.parts@[n - 1]@);
        if self.parts[n - 1].same(&Part::Root) {
            return None;
        }
        let parent = self.part(0, n - 1);
        assert(parent@ =~= self@.drop_last());
        Some(parent)
    }

    /// The path followed by another; an absolute one replaces it.
    pub fn join(&self, tail: &Path) -> (path: Path)
        ensures
            path@ == joined(self@, tail@),
            self.wf() && tail.wf() ==> path.wf(),
    {
        proof {
            if self.wf() && tail.wf() {
                joined_is_path(self@, tail@);
            }
        }
        if self.parts.len() == 0 || tail.is_absolute() {
            return tail.copy();
        }
        let mut parts: Vec<Part> = Vec::new();
        self.copy_parts(0, self.parts.len(), &mut parts);
        let skip: usize = if tail.parts.len() > 0 && tail.parts[0].same(&Part::Current) {
            1
        } else {
            0
        };
        tail.copy_parts(skip, tail.parts.len(), &mut parts);
        proof {
            if tail@.len() > 0 {
                assert(tail@[0] == tail.parts@[0]@);
            }
            assert(part_views(parts@) =~= joined(self@, tail@));
        }
        Path { parts }
    }

    /// The path with its file name replaced.
    pub fn with_file_name(&self, name: &str) -> (path: Path)
        ensures
            path@ == renamed(self@, name@),
            self.wf() ==> path.wf(),
    {
        let n: usize = self.parts.len();
        let base = if n > 0 && matches!(&self.parts[n - 1], Part::Normal(_)) {
            let base = self.part(0, n - 1);
            assert(base@ =~= self@.drop_last());
            base
        } else {
            self.copy()
        };
        proof {
            if n > 0 {
                assert(self@[n - 1] == self.parts@[n - 1]@);
            }
            if self.wf() {
                assert forall|i: int| 0 <= i < base@.len() implies part_fits(
                    #[trigger] base@[i],
                    i,
                ) by {
                    assert(base@[i] == self@[i]);
                }
            }
        }
        base.join(&Path::new(name))
    }

    /// Replaces the extension of the file name, where the path has one.
    pub fn set_extension(&mut self, extension: &str)
        requires
            !extension@.contains('/'),
        ensures
            final(self)@ == with_extension(old(self)@, extension@),
    {
        let n: usize = self.parts.len();
        if n == 0 {
            return;
        }
        let ghost last = self@.last();
        let ghost before = self.parts@;
        assert(self@[n - 1] == self.parts@[n - 1]@);
        let name: String = match &self.parts[n - 1] {
            Part::Normal(name) => name.clone(),
            _ => {
                return;
            },
        };
        let chars = chars_of(name.as_str());
        let dot: usize = find_extension(&chars);
        let mut changed = string_of(&chars, 0, dot);
        if !extension.is_empty() {
            changed.push('.');
            changed.append(extension);
        }
        self.parts.set(n - 1, Part::Normal(changed));
        proof {
            assert(changed@ =~= extended(name@, extension@));
            assert(self@ =~= old(self)@.drop_last().push(PartView::Normal(changed@)));
        }
    }

    /// The file name without its extension, where the path has a file name.
    pub fn file_stem(&self) -> (name: Option<String>)
        ensures
            match name {
                Some(text) => self@.len() > 0 && (self@.last() matches PartView::Normal(full)
                    && text@ == stem(full)),
                None => self@.len() == 0 || !(self@.last() is Normal),
            },
    {
        let n: usize = self.parts.len();
        if n == 0 {
            return None;
        }
        assert(self@[n - 1] == self.parts@[n - 1]@);
        match &self.parts[n - 1] {
            Part::Normal(name) => {
                let chars = chars_of(name.as_str());
                let dot: usize = find_extension(&chars);
                let text = string_of(&chars, 0, dot);
                assert(text@ =~= stem(name@));
                Some(text)
            },
            _ => None,
        }
    }
}

fn find_extension(chars: &Vec<char>) -> (dot: usize)
    ensures
        dot == extension_dot(chars@),
        dot <= chars.len(),
{
    let mut n: usize = chars.len();
    while n > 1
        invariant
            n <= chars.len(),
            extension_dot_in(chars@, n as int) == extension_dot(chars@),
        decreases n,
    {
        if chars[n - 1] == '.' {
            return n - 1;
        }
        n -= 1;
    }
    chars.len()
}

} // verus!
