//! Unix file-system paths as text, following `std::path` on Unix: `'/'` is
//! the only separator, empty and `.` pieces between separators are ignored,
//! and a leading `.` piece is the current directory.
use vstd::prelude::*;

use crate::text::{chars_equal, chars_of, push_char, push_chars, split, split_chars, string_of};

verus! {

/// A component of a path (`std::path::Component` on Unix).
#[derive(Clone, Debug)]
pub enum Component {
    RootDir,
    CurDir,
    ParentDir,
    Normal(Vec<char>),
}

/// The abstract form of a `Component`.
pub enum ComponentView {
    RootDir,
    CurDir,
    ParentDir,
    Normal(Seq<char>),
}

impl Component {
    pub open spec fn view(self) -> ComponentView {
        match self {
            Component::RootDir => ComponentView::RootDir,
            Component::CurDir => ComponentView::CurDir,
            Component::ParentDir => ComponentView::ParentDir,
            Component::Normal(name) => ComponentView::Normal(name@),
        }
    }
}

/// The components a single piece between separators contributes.
pub open spec fn piece_components(p: Seq<char>) -> Seq<ComponentView> {
    if p.len() == 0 || p == seq!['.'] {
        seq![]
    } else if p == seq!['.', '.'] {
        seq![ComponentView::ParentDir]
    } else {
        seq![ComponentView::Normal(p)]
    }
}

/// The components of the pieces `ps`, in order.
pub open spec fn pieces_components(ps: Seq<Seq<char>>) -> Seq<ComponentView>
    decreases ps.len(),
{
    if ps.len() == 0 {
        seq![]
    } else {
        pieces_components(ps.drop_last()) + piece_components(ps.last())
    }
}

/// `Path::components` on Unix.
pub open spec fn components(s: Seq<char>) -> Seq<ComponentView> {
    let ps = split(s, '/');
    if s.len() > 0 && s[0] == '/' {
        seq![ComponentView::RootDir] + pieces_components(ps.drop_first())
    } else if ps.len() > 0 && ps[0] == seq!['.'] {
        seq![ComponentView::CurDir] + pieces_components(ps.drop_first())
    } else {
        pieces_components(ps)
    }
}

/// `Path::file_name`: the last component when it is a normal one.
pub open spec fn file_name(s: Seq<char>) -> Option<Seq<char>> {
    let cs = components(s);
    if cs.len() > 0 {
        match cs.last() {
            ComponentView::Normal(name) => Some(name),
            _ => None,
        }
    } else {
        None
    }
}

/// `Path::is_absolute` on Unix.
pub open spec fn is_absolute(s: Seq<char>) -> bool {
    s.len() > 0 && s[0] == '/'
}

/// Whether a component is a normal one.
pub open spec fn is_normal(c: ComponentView) -> bool {
    c is Normal
}

/// Whether every component of `s` is a normal one.
pub open spec fn all_normal(s: Seq<char>) -> bool {
    forall|i: int| 0 <= i < components(s).len() ==> is_normal(#[trigger] components(s)[i])
}

proof fn lemma_split_nonempty(s: Seq<char>, c: char)
    ensures
        split(s, c).len() > 0,
        split(s, c)[0] == crate::text::before_first(s, c),
    decreases s.len(),
{
    crate::text::lemma_first_pos(s, c);
    if crate::text::first_pos(s, c) == s.len() {
        assert(s.take(s.len() as int) == s);
    }
}

/// Splitting `x`, `c`, `y` at every `c` gives the pieces of `x`, then those
/// of `y`.
proof fn lemma_split_around(x: Seq<char>, c: char, y: Seq<char>)
    ensures
        split(x + seq![c] + y, c) == split(x, c) + split(y, c),
    decreases x.len(),
{
    let t = x + seq![c] + y;
    crate::text::lemma_first_pos(x, c);
    let p = crate::text::first_pos(x, c);
    assert forall|k: int| 0 <= k < p implies #[trigger] t[k] != c by {
        assert(t[k] == x[k]);
    }
    if p < x.len() {
        assert(t[p as int] == x[p as int]);
        crate::text::lemma_first_pos_unique(t, c, p as int);
        let rest = x.skip(p + 1int);
        lemma_split_around(rest, c, y);
        assert(t.take(p as int) =~= x.take(p as int));
        assert(t.skip(p + 1int) =~= rest + seq![c] + y);
        assert(split(x, c) == seq![x.take(p as int)] + split(rest, c));
        assert(split(t, c) =~= split(x, c) + split(y, c));
    } else {
        assert(t[x.len() as int] == c);
        crate::text::lemma_first_pos_unique(t, c, x.len() as int);
        assert(t.take(x.len() as int) =~= x);
        assert(t.skip(x.len() + 1int) =~= y);
        assert(x.take(x.len() as int) =~= x);
        assert(split(x, c) == seq![x]);
        assert(split(t, c) =~= split(x, c) + split(y, c));
    }
}

/// The pieces of the empty text: one empty piece.
proof fn lemma_split_empty(c: char)
    ensures
        split(Seq::<char>::empty(), c) == seq![Seq::<char>::empty()],
{
    let e = Seq::<char>::empty();
    assert(crate::text::first_pos(e, c) == 0);
    assert(e.take(0) =~= e);
}

/// A single empty piece has no component.
proof fn lemma_empty_piece()
    ensures
        pieces_components(seq![Seq::<char>::empty()]) == Seq::<ComponentView>::empty(),
{
    let se = seq![Seq::<char>::empty()];
    assert(se.drop_last() =~= Seq::<Seq<char>>::empty());
    assert(pieces_components(Seq::<Seq<char>>::empty()) == Seq::<ComponentView>::empty());
    assert(piece_components(se.last()) == Seq::<ComponentView>::empty());
    assert(pieces_components(se) == pieces_components(se.drop_last()) + piece_components(se.last()));
    assert(pieces_components(se) =~= Seq::<ComponentView>::empty());
}

/// The components of two runs of pieces are those of each, in order.
proof fn lemma_pieces_concat(a: Seq<Seq<char>>, b: Seq<Seq<char>>)
    ensures
        pieces_components(a + b) == pieces_components(a) + pieces_components(b),
    decreases b.len(),
{
    if b.len() == 0 {
        assert(a + b =~= a);
        assert(pieces_components(a) + pieces_components(b) =~= pieces_components(a));
    } else {
        lemma_pieces_concat(a, b.drop_last());
        assert((a + b).drop_last() =~= a + b.drop_last());
        assert((a + b).last() == b.last());
        assert(pieces_components(a + b) =~= pieces_components(a) + pieces_components(b));
    }
}

/// What follows a separator adds the components of its pieces.
proof fn lemma_components_after_separator(x: Seq<char>, y: Seq<char>)
    ensures
        components(x + seq!['/'] + y) == components(x + seq!['/']) + pieces_components(split(y, '/')),
{
    let t = x + seq!['/'] + y;
    let u = x + seq!['/'];
    let e = Seq::<char>::empty();
    lemma_split_around(x, '/', y);
    lemma_split_around(x, '/', e);
    lemma_split_empty('/');
    assert(x + seq!['/'] + e =~= u);
    lemma_split_nonempty(x, '/');
    let sx = split(x, '/');
    let sy = split(y, '/');
    let se = seq![e];
    lemma_empty_piece();
    assert(t[0] == u[0]) by {
        if x.len() > 0 {
            assert(t[0] == x[0] && u[0] == x[0]);
        }
    }
    assert((sx + sy)[0] == sx[0] && (sx + se)[0] == sx[0]);
    if t[0] == '/' {
        assert((sx + sy).drop_first() =~= sx.drop_first() + sy);
        assert((sx + se).drop_first() =~= sx.drop_first() + se);
        lemma_pieces_concat(sx.drop_first(), sy);
        lemma_pieces_concat(sx.drop_first(), se);
        assert(components(t) =~= components(u) + pieces_components(sy));
    } else if sx[0] == seq!['.'] {
        assert((sx + sy).drop_first() =~= sx.drop_first() + sy);
        assert((sx + se).drop_first() =~= sx.drop_first() + se);
        lemma_pieces_concat(sx.drop_first(), sy);
        lemma_pieces_concat(sx.drop_first(), se);
        assert(components(t) =~= components(u) + pieces_components(sy));
    } else {
        lemma_pieces_concat(sx, sy);
        lemma_pieces_concat(sx, se);
        assert(components(t) =~= components(u) + pieces_components(sy));
    }
}

/// A trailing separator adds no component to a non-empty path.
proof fn lemma_components_trailing_separator(x: Seq<char>)
    requires
        x.len() > 0,
    ensures
        components(x + seq!['/']) == components(x),
{
    let u = x + seq!['/'];
    let e = Seq::<char>::empty();
    lemma_split_around(x, '/', e);
    lemma_split_empty('/');
    assert(x + seq!['/'] + e =~= u);
    lemma_split_nonempty(x, '/');
    let sx = split(x, '/');
    let se = seq![e];
    lemma_empty_piece();
    assert(u[0] == x[0]);
    assert((sx + se)[0] == sx[0]);
    if x[0] == '/' {
        assert((sx + se).drop_first() =~= sx.drop_first() + se);
        lemma_pieces_concat(sx.drop_first(), se);
        assert(components(u) =~= components(x));
    } else if sx[0] == seq!['.'] {
        assert((sx + se).drop_first() =~= sx.drop_first() + se);
        lemma_pieces_concat(sx.drop_first(), se);
        assert(components(u) =~= components(x));
    } else {
        lemma_pieces_concat(sx, se);
        assert(components(u) =~= components(x));
    }
}

/// The components of a relative path of plain names are those of its pieces.
proof fn lemma_relative_normal_pieces(b: Seq<char>)
    requires
        is_relative_normal(b),
    ensures
        components(b) == pieces_components(split(b, '/')),
{
    let sb = split(b, '/');
    lemma_split_nonempty(b, '/');
    if sb[0] == seq!['.'] {
        assert(components(b) == seq![ComponentView::CurDir] + pieces_components(sb.drop_first()));
        assert(components(b)[0] == ComponentView::CurDir);
        assert(!is_normal(components(b)[0]));
    }
}

/// Whether the name of some normal component in `cs` holds `x`.
pub open spec fn names_contain(cs: Seq<ComponentView>, x: char) -> bool {
    exists|i: int| 0 <= i < cs.len() && (#[trigger] cs[i]) is Normal && cs[i]->Normal_0.contains(x)
}

/// A character other than the separator occurs in a text exactly when it
/// occurs in one of its pieces.
proof fn lemma_split_contains(s: Seq<char>, c: char, x: char)
    requires
        x != c,
    ensures
        s.contains(x) <==> exists|j: int| 0 <= j < split(s, c).len() && #[trigger] split(s, c)[j].contains(x),
    decreases s.len(),
{
    crate::text::lemma_first_pos(s, c);
    let p = crate::text::first_pos(s, c);
    let sp = split(s, c);
    if p < s.len() {
        let head = s.take(p as int);
        let rest = s.skip(p + 1int);
        lemma_split_contains(rest, c, x);
        let sr = split(rest, c);
        assert(sp == seq![head] + sr);
        if s.contains(x) {
            let i = choose|i: int| 0 <= i < s.len() && s[i] == x;
            if i < p {
                assert(head[i] == x);
                assert(sp[0] == head);
                assert(sp[0].contains(x));
            } else {
                assert(i != p);
                assert(rest[i - p - 1] == x);
                assert(rest.contains(x));
                let j = choose|j: int| 0 <= j < sr.len() && #[trigger] sr[j].contains(x);
                assert(sp[j + 1] == sr[j]);
                assert(sp[j + 1].contains(x));
            }
        }
        if exists|j: int| 0 <= j < sp.len() && #[trigger] sp[j].contains(x) {
            let j = choose|j: int| 0 <= j < sp.len() && #[trigger] sp[j].contains(x);
            if j == 0 {
                let k = choose|k: int| 0 <= k < head.len() && head[k] == x;
                assert(s[k] == x);
            } else {
                assert(sr[j - 1] == sp[j]);
                assert(sr[j - 1].contains(x));
                let k = choose|k: int| 0 <= k < rest.len() && rest[k] == x;
                assert(s[k + p + 1] == x);
            }
            assert(s.contains(x));
        }
    } else {
        assert(s.take(s.len() as int) =~= s);
        assert(sp == seq![s]);
        if s.contains(x) {
            assert(sp[0].contains(x));
        }
    }
}

/// A character other than `.` occurs in one of the pieces exactly when it
/// occurs in the name of one of their normal components.
proof fn lemma_pieces_contain(ps: Seq<Seq<char>>, x: char)
    requires
        x != '.',
    ensures
        (exists|j: int| 0 <= j < ps.len() && #[trigger] ps[j].contains(x)) <==> names_contain(
            pieces_components(ps),
            x,
        ),
    decreases ps.len(),
{
    if ps.len() > 0 {
        let init = ps.drop_last();
        let l = ps.last();
        lemma_pieces_contain(init, x);
        let pi = pieces_components(init);
        let pl = piece_components(l);
        let pc = pieces_components(ps);
        assert(pc == pi + pl);
        let plain = !(l.len() == 0 || l == seq!['.'] || l == seq!['.', '.']);
        assert(l.contains(x) ==> plain) by {
            if l.contains(x) {
                let k = choose|k: int| 0 <= k < l.len() && l[k] == x;
                assert(l != seq!['.'] && l != seq!['.', '.']) by {
                    if l == seq!['.'] || l == seq!['.', '.'] {
                        assert(l[k] == '.');
                    }
                }
            }
        }
        if plain {
            assert(pl == seq![ComponentView::Normal(l)]);
        } else if l == seq!['.', '.'] {
            assert(pl == seq![ComponentView::ParentDir]);
        } else {
            assert(pl == Seq::<ComponentView>::empty());
        }
        if exists|j: int| 0 <= j < ps.len() && #[trigger] ps[j].contains(x) {
            let j = choose|j: int| 0 <= j < ps.len() && #[trigger] ps[j].contains(x);
            if j == ps.len() - 1 {
                assert(pc[pi.len() as int] == ComponentView::Normal(l));
            } else {
                assert(init[j] == ps[j]);
                assert(init[j].contains(x));
                let i = choose|i: int| 0 <= i < pi.len() && (#[trigger] pi[i]) is Normal && pi[i]->Normal_0.contains(x);
                assert(pc[i] == pi[i]);
            }
            assert(names_contain(pc, x));
        }
        if names_contain(pc, x) {
            let i = choose|i: int| 0 <= i < pc.len() && (#[trigger] pc[i]) is Normal && pc[i]->Normal_0.contains(x);
            if i < pi.len() {
                assert(pc[i] == pi[i]);
                assert(names_contain(pi, x));
                let j = choose|j: int| 0 <= j < init.len() && #[trigger] init[j].contains(x);
                assert(ps[j] == init[j]);
                assert(ps[j].contains(x));
            } else {
                assert(pc[i] == pl[i - pi.len()]);
                assert(ps[ps.len() - 1] == l);
                assert(ps[ps.len() - 1].contains(x));
            }
        }
    } else {
        assert(pieces_components(ps) == Seq::<ComponentView>::empty());
    }
}

/// A character other than `/` and `.` occurs in a relative path of plain
/// names exactly when it occurs in the name of one of its components.
pub proof fn lemma_relative_normal_contains(s: Seq<char>, x: char)
    requires
        is_relative_normal(s),
        x != '/',
        x != '.',
    ensures
        s.contains(x) <==> names_contain(components(s), x),
{
    lemma_relative_normal_pieces(s);
    lemma_split_contains(s, '/', x);
    lemma_pieces_contain(split(s, '/'), x);
}

/// Joining a relative path of plain names onto `a` appends its components
/// to those of `a`.
pub proof fn lemma_join_components(a: Seq<char>, b: Seq<char>)
    requires
        is_relative_normal(b),
    ensures
        components(join(a, b)) == components(a) + components(b),
{
    lemma_relative_normal_pieces(b);
    if a.len() == 0 {
        lemma_split_empty('/');
        let se = seq![Seq::<char>::empty()];
        lemma_empty_piece();
        lemma_split_nonempty(a, '/');
        assert(a =~= Seq::<char>::empty());
        assert(split(a, '/')[0] != seq!['.']) by {
            assert(split(a, '/')[0].len() == 0);
        }
        assert(components(a) =~= seq![]);
        assert(join(a, b) == b);
        assert(components(a) + components(b) =~= components(b));
    } else if a.last() == '/' {
        let x = a.drop_last();
        assert(x + seq!['/'] =~= a);
        assert(join(a, b) =~= x + seq!['/'] + b);
        lemma_components_after_separator(x, b);
    } else {
        assert(join(a, b) == a + seq!['/'] + b);
        lemma_components_after_separator(a, b);
        lemma_components_trailing_separator(a);
    }
}

fn piece_parts(p: &Vec<char>, out: &mut Vec<Component>)
    ensures
        final(out)@.map_values(|c: Component| c.view()) == old(out)@.map_values(
            |c: Component| c.view(),
        ) + piece_components(p@),
{
    let ghost before = out@.map_values(|c: Component| c.view());
    if p.len() == 0 || (p.len() == 1 && p[0] == '.') {
        assert(p@.len() == 1 ==> p@ == seq!['.']);
        assert(before + seq![] == before);
    } else if p.len() == 2 && p[0] == '.' && p[1] == '.' {
        assert(p@ == seq!['.', '.']);
        out.push(Component::ParentDir);
        assert(out@.map_values(|c: Component| c.view()) == before.push(ComponentView::ParentDir));
    } else {
        assert(p@ != seq!['.'] && p@ != seq!['.', '.']) by {
            if p@.len() == 1 {
                assert(p@[0] != '.');
            }
            if p@.len() == 2 {
                assert(p@[0] != '.' || p@[1] != '.');
            }
        }
        out.push(Component::Normal(p.clone()));
        assert(out@.map_values(|c: Component| c.view()) == before.push(
            ComponentView::Normal(p@),
        ));
    }
}

/// `Path::components` on Unix.
pub fn path_components(s: &str) -> (r: Vec<Component>)
    ensures
        r@.map_values(|c: Component| c.view()) == components(s@),
{
    let v = chars_of(s);
    let pieces = split_chars(&v, '/');
    let ghost ps = pieces@.map_values(|piece: Vec<char>| piece@);
    proof {
        lemma_split_nonempty(v@, '/');
    }
    let mut out: Vec<Component> = Vec::new();
    let mut i: usize = 0;
    let mut skip_first = false;
    if v.len() > 0 && v[0] == '/' {
        out.push(Component::RootDir);
        skip_first = true;
    } else if pieces[0].len() == 1 && pieces[0][0] == '.' {
        assert(ps[0] == seq!['.']);
        out.push(Component::CurDir);
        skip_first = true;
    } else {
        assert(!(ps.len() > 0 && ps[0] == seq!['.'])) by {
            if ps[0] == seq!['.'] {
                assert(pieces@[0]@.len() == 1 && pieces@[0]@[0] == '.');
            }
        }
    }
    let start: usize = if skip_first {
        1
    } else {
        0
    };
    let ghost lead = out@.map_values(|c: Component| c.view());
    i = start;
    assert(ps.subrange(start as int, i as int).len() == 0);
    assert(lead + pieces_components(ps.subrange(start as int, i as int)) == lead);
    while i < pieces.len()
        invariant
            ps == pieces@.map_values(|piece: Vec<char>| piece@),
            start <= i <= pieces@.len(),
            start <= 1,
            out@.map_values(|c: Component| c.view()) == lead + pieces_components(
                ps.subrange(start as int, i as int),
            ),
        decreases pieces@.len() - i,
    {
        piece_parts(&pieces[i], &mut out);
        assert(ps.subrange(start as int, i + 1).drop_last() == ps.subrange(start as int, i as int));
        assert(ps[i as int] == pieces@[i as int]@);
        i = i + 1;
    }
    proof {
        assert(ps.subrange(start as int, ps.len() as int) == if start == 1 {
            ps.drop_first()
        } else {
            ps
        });
        assert(seq![ComponentView::RootDir] + pieces_components(ps.drop_first()) == seq![
            ComponentView::RootDir,
        ] + pieces_components(ps.drop_first()));
    }
    out
}

/// `Path::file_name` on Unix.
pub fn path_file_name(s: &str) -> (r: Option<Vec<char>>)
    ensures
        match file_name(s@) {
            Some(name) => r matches Some(v) && v@ == name,
            None => r is None,
        },
{
    let cs = path_components(s);
    let ghost views = cs@.map_values(|c: Component| c.view());
    if cs.len() == 0 {
        return None;
    }
    assert(views.last() == cs@.last().view());
    match &cs[cs.len() - 1] {
        Component::Normal(name) => Some(name.clone()),
        _ => None,
    }
}

/// Whether `s` has exactly one component, a normal one equal to `s` itself,
/// and `s` is neither `.` nor `..`: a single safe file or directory name.
pub open spec fn is_single_component(s: Seq<char>) -> bool {
    components(s).len() == 1 && file_name(s) == Some(s) && s != seq!['.'] && s != seq!['.', '.']
}

pub fn single_component(s: &str) -> (r: bool)
    ensures
        r == is_single_component(s@),
{
    let cs = path_components(s);
    let ghost views = cs@.map_values(|c: Component| c.view());
    if cs.len() != 1 {
        return false;
    }
    let v = chars_of(s);
    let dot = v.len() == 1 && v[0] == '.';
    let dotdot = v.len() == 2 && v[0] == '.' && v[1] == '.';
    assert(dot == (s@ == seq!['.'])) by {
        if dot {
            assert(v@ =~= seq!['.']);
        }
        if s@ == seq!['.'] {
            assert(v@[0] == '.');
        }
    }
    assert(dotdot == (s@ == seq!['.', '.'])) by {
        if dotdot {
            assert(v@ =~= seq!['.', '.']);
        }
        if s@ == seq!['.', '.'] {
            assert(v@[0] == '.' && v@[1] == '.');
        }
    }
    assert(views.last() == cs@[0].view());
    match &cs[0] {
        Component::Normal(name) => chars_equal(name, &v) && !dot && !dotdot,
        _ => false,
    }
}

/// Whether `s` is a non-empty relative path made of normal components only.
pub open spec fn is_relative_normal(s: Seq<char>) -> bool {
    s.len() > 0 && !is_absolute(s) && all_normal(s)
}

/// `PathBuf::push` on Unix: an absolute `b` replaces `a`; otherwise `b` is
/// appended, after a separator unless `a` is empty or already ends in one.
pub open spec fn join(a: Seq<char>, b: Seq<char>) -> Seq<char> {
    if is_absolute(b) {
        b
    } else if a.len() == 0 || a.last() == '/' {
        a + b
    } else {
        a + seq!['/'] + b
    }
}

/// `Path::join` on Unix.
pub fn join_path(a: &str, b: &str) -> (r: String)
    ensures
        r@ == join(a@, b@),
{
    let av = chars_of(a);
    let bv = chars_of(b);
    if bv.len() > 0 && bv[0] == '/' {
        return string_of(&bv);
    }
    let mut out = string_of(&av);
    if !(av.len() == 0 || av[av.len() - 1] == '/') {
        push_char(&mut out, '/');
    }
    push_chars(&mut out, &bv, 0, bv.len());
    assert(bv@.subrange(0, bv@.len() as int) == bv@);
    out
}

} // verus!
