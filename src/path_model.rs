//! The lexical model of paths, with Unix separator semantics.
//!
//! A path is a sequence of bytes. Its components are read without touching
//! the file system: repeated separators are ignored, a `.` piece is dropped
//! except at the very start of a relative path, and `..` is kept as it is.
//! Each component is given as the bytes of its text; the root is `/`.
use vstd::prelude::*;
use vstd::utf8::{decode_utf8, encode_utf8, valid_utf8};

verus! {

/// The separator byte, `/`.
pub const SEPARATOR: u8 = 0x2f;

/// The byte `.`.
pub const DOT: u8 = 0x2e;

/// The pieces of `p` between separators, from left to right. Where separators
/// lead, trail or repeat, the piece between them is empty.
pub open spec fn pieces(p: Seq<u8>) -> Seq<Seq<u8>>
    decreases p.len(),
{
    if p.len() == 0 {
        seq![Seq::empty()]
    } else {
        let before = pieces(p.drop_last());
        if p.last() == SEPARATOR {
            before.push(Seq::empty())
        } else {
            before.update(before.len() - 1, before.last().push(p.last()))
        }
    }
}

/// A piece that names an entry: neither empty nor the current directory `.`.
pub open spec fn is_named(piece: Seq<u8>) -> bool {
    piece.len() > 0 && piece != seq![DOT]
}

/// `is_named` as a predicate to filter with.
pub open spec fn named() -> spec_fn(Seq<u8>) -> bool {
    |piece: Seq<u8>| is_named(piece)
}

/// The component that stands for the root of an absolute path.
pub open spec fn root_component() -> Seq<u8> {
    seq![SEPARATOR]
}

/// The component that stands for a leading current directory.
pub open spec fn current_component() -> Seq<u8> {
    seq![DOT]
}

/// Whether `p` starts with the current directory: it is `.`, or starts with `./`.
pub open spec fn starts_with_current(p: Seq<u8>) -> bool {
    (p.len() == 1 && p[0] == DOT) || (p.len() >= 2 && p[0] == DOT && p[1] == SEPARATOR)
}

/// The component that comes before the named pieces, if any: the root of an
/// absolute path, or the `.` that a relative path starts with.
pub open spec fn leading(p: Seq<u8>) -> Seq<Seq<u8>> {
    if p.len() > 0 && p[0] == SEPARATOR {
        seq![root_component()]
    } else if starts_with_current(p) {
        seq![current_component()]
    } else {
        Seq::empty()
    }
}

/// The components of `p`, each as the bytes of its text.
pub open spec fn components(p: Seq<u8>) -> Seq<Seq<u8>> {
    leading(p) + pieces(p).filter(named())
}

/// The bytes held by each of `vs`.
pub open spec fn byte_views(vs: Seq<Vec<u8>>) -> Seq<Seq<u8>> {
    vs.map_values(|v: Vec<u8>| v@)
}

pub(crate) proof fn lemma_pieces_nonempty(p: Seq<u8>)
    ensures
        pieces(p).len() >= 1,
    decreases p.len(),
{
    if p.len() > 0 {
        lemma_pieces_nonempty(p.drop_last());
    }
}

/// The pieces of a prefix one byte longer.
pub(crate) proof fn lemma_pieces_step(p: Seq<u8>, i: int)
    requires
        0 <= i < p.len(),
    ensures
        pieces(p.take(i)).len() >= 1,
        p[i] == SEPARATOR ==> pieces(p.take(i + 1)) == pieces(p.take(i)).push(Seq::empty()),
        p[i] != SEPARATOR ==> pieces(p.take(i + 1)) == pieces(p.take(i)).drop_last().push(
            pieces(p.take(i)).last().push(p[i]),
        ),
{
    lemma_pieces_nonempty(p.take(i));
    let q = p.take(i + 1);
    assert(q.drop_last() =~= p.take(i));
    let before = pieces(p.take(i));
    if p[i] != SEPARATOR {
        assert(before.update(before.len() - 1, before.last().push(p[i])) =~= before.drop_last().push(
            before.last().push(p[i]),
        ));
    }
}

/// Filtering a sequence with a last element.
pub(crate) proof fn lemma_filter_last(s: Seq<Seq<u8>>)
    requires
        s.len() >= 1,
    ensures
        s.filter(named()) == if is_named(s.last()) {
            s.drop_last().filter(named()).push(s.last())
        } else {
            s.drop_last().filter(named())
        },
{
    reveal(Seq::filter);
}

/// The first component of `p`, if it has any.
pub open spec fn first_of(p: Seq<u8>) -> Option<Seq<u8>> {
    if components(p).len() > 0 {
        Some(components(p)[0])
    } else {
        None
    }
}

/// The last component of `p`, if it has any.
pub open spec fn last_of(p: Seq<u8>) -> Option<Seq<u8>> {
    if components(p).len() > 0 {
        Some(components(p).last())
    } else {
        None
    }
}

/// Whether `p` has a parent: it has components, and the last is not the root.
pub open spec fn has_parent(p: Seq<u8>) -> bool {
    components(p).len() > 0 && components(p).last() != root_component()
}

/// The last component of `p`, taken relative to the parent of `p`.
pub open spec fn relative_of(p: Seq<u8>) -> Option<Seq<u8>> {
    if has_parent(p) {
        Some(components(p).last())
    } else {
        None
    }
}

/// `b` appended to `a`, with a separator between them unless `a` is empty or
/// already ends with one.
pub open spec fn joined(a: Seq<u8>, b: Seq<u8>) -> Seq<u8> {
    if a.len() == 0 {
        b
    } else if a.last() == SEPARATOR {
        a + b
    } else {
        a.push(SEPARATOR) + b
    }
}

/// The path written from the components `cs`, joined one after the other.
pub open spec fn rendered(cs: Seq<Seq<u8>>) -> Seq<u8>
    decreases cs.len(),
{
    if cs.len() == 0 {
        Seq::empty()
    } else {
        joined(rendered(cs.drop_last()), cs.last())
    }
}

/// The parent of `p`: its components but the last, written as a path.
pub open spec fn parent_of(p: Seq<u8>) -> Option<Seq<u8>> {
    if has_parent(p) {
        Some(rendered(components(p).drop_last()))
    } else {
        None
    }
}

/// Whether the text of the last component of `p` starts with `.` (a last
/// component that is not valid UTF-8 has the empty text).
pub open spec fn is_hidden(p: Seq<u8>) -> bool {
    components(p).len() > 0 && text_of(components(p).last()).len() > 0 && text_of(
        components(p).last(),
    )[0] == '.'
}

/// The text that the bytes of `p` encode in UTF-8, or the empty text where
/// they are not valid UTF-8.
pub open spec fn text_of(p: Seq<u8>) -> Seq<char> {
    if valid_utf8(p) {
        decode_utf8(p)
    } else {
        Seq::empty()
    }
}

/// A component that names an entry and holds no separator.
pub open spec fn is_plain_name(x: Seq<u8>) -> bool {
    is_named(x) && forall|j: int| 0 <= j < x.len() ==> x[j] != SEPARATOR
}

/// Components as a path can have them: each names an entry, but the first,
/// which may also be the root or the current directory.
pub open spec fn well_formed(cs: Seq<Seq<u8>>) -> bool {
    forall|i: int|
        0 <= i < cs.len() ==> is_plain_name(#[trigger] cs[i]) || (i == 0 && (cs[i]
            == root_component() || cs[i] == current_component()))
}

proof fn lemma_pieces_have_no_separator(p: Seq<u8>)
    ensures
        forall|i: int, j: int|
            0 <= i < pieces(p).len() && 0 <= j < pieces(p)[i].len() ==> #[trigger] pieces(p)[i][j]
                != SEPARATOR,
    decreases p.len(),
{
    if p.len() > 0 {
        lemma_pieces_have_no_separator(p.drop_last());
        lemma_pieces_nonempty(p.drop_last());
        let before = pieces(p.drop_last());
        if p.last() != SEPARATOR {
            assert forall|i: int, j: int|
                0 <= i < pieces(p).len() && 0 <= j < pieces(p)[i].len() implies #[trigger] pieces(
                p,
            )[i][j] != SEPARATOR by {
                if i == before.len() - 1 && j < before.last().len() {
                    assert(pieces(p)[i][j] == before[i][j]);
                }
            }
        }
    }
}

proof fn lemma_filter_plain(s: Seq<Seq<u8>>)
    requires
        forall|i: int, j: int| 0 <= i < s.len() && 0 <= j < s[i].len() ==> #[trigger] s[i][j] != SEPARATOR,
    ensures
        forall|i: int| 0 <= i < s.filter(named()).len() ==> is_plain_name(#[trigger] s.filter(named())[i]),
    decreases s.len(),
{
    if s.len() > 0 {
        lemma_filter_last(s);
        let rest = s.drop_last();
        assert forall|i: int, j: int| 0 <= i < rest.len() && 0 <= j < rest[i].len() implies #[trigger] rest[i][j]
            != SEPARATOR by {
            assert(rest[i] == s[i]);
        }
        lemma_filter_plain(rest);
        assert(forall|j: int| 0 <= j < s.last().len() ==> s.last()[j] == s[s.len() - 1][j]);
    }
}

/// The components of any path are well formed.
proof fn lemma_components_well_formed(p: Seq<u8>)
    ensures
        well_formed(components(p)),
{
    lemma_pieces_have_no_separator(p);
    lemma_filter_plain(pieces(p));
    let f = pieces(p).filter(named());
    let cs = components(p);
    assert forall|i: int| 0 <= i < cs.len() implies is_plain_name(#[trigger] cs[i]) || (i == 0 && (cs[i]
        == root_component() || cs[i] == current_component())) by {
        if i >= leading(p).len() {
            assert(cs[i] == f[i - leading(p).len()]);
        }
    }
}

/// The first piece of a relative path is not empty, and is `.` only where the
/// path starts with the current directory.
proof fn lemma_first_piece(p: Seq<u8>)
    requires
        p.len() > 0,
        p[0] != SEPARATOR,
    ensures
        pieces(p).len() >= 1,
        pieces(p)[0].len() > 0,
        pieces(p)[0] == current_component() ==> starts_with_current(p),
    decreases p.len(),
{
    lemma_pieces_nonempty(p);
    let q = p.drop_last();
    lemma_pieces_nonempty(q);
    if p.len() == 1 {
        assert(q =~= Seq::<u8>::empty());
        assert(pieces(p)[0] =~= seq![p[0]]);
        if pieces(p)[0] == current_component() {
            assert(pieces(p)[0][0] == DOT);
        }
    } else {
        lemma_first_piece(q);
        if q.len() == 1 {
            assert(q.drop_last() =~= Seq::<u8>::empty());
            assert(pieces(Seq::<u8>::empty()).len() == 1);
            assert(q.last() == q[0]);
            assert(pieces(q).len() == 1);
        }
        assert(q[0] == p[0]);
        if q.len() >= 2 {
            assert(q[1] == p[1]);
        } else {
            assert(p.last() == p[1]);
        }
        if p.last() != SEPARATOR && pieces(q).len() == 1 {
            assert(pieces(p)[0] == pieces(q)[0].push(p.last()));
            assert(pieces(p)[0].len() >= 2);
        } else {
            assert(pieces(p)[0] == pieces(q)[0]);
        }
    }
}

/// A path that is not empty has components.
proof fn lemma_components_nonempty(p: Seq<u8>)
    requires
        p.len() > 0,
    ensures
        components(p).len() > 0,
{
    if p[0] != SEPARATOR {
        lemma_first_piece(p);
        if is_named(pieces(p)[0]) {
            pieces(p).lemma_filter_contains(named(), 0);
        } else {
            assert(pieces(p)[0] =~= current_component());
        }
    }
}

/// Every path that is not empty has a first and a last component. The first
/// component of an absolute path is the root. Where a path has a single
/// component, its first and last components are the same.
pub proof fn law_first_and_last(p: Seq<u8>)
    requires
        p.len() > 0,
    ensures
        first_of(p) is Some,
        last_of(p) is Some,
        p[0] == SEPARATOR ==> first_of(p) == Some(root_component()),
        components(p).len() == 1 ==> first_of(p) == last_of(p),
{
    lemma_components_nonempty(p);
}

/// The pieces of a path with separator-free bytes added at its end.
proof fn lemma_pieces_append(a: Seq<u8>, y: Seq<u8>)
    requires
        forall|j: int| 0 <= j < y.len() ==> y[j] != SEPARATOR,
    ensures
        pieces(a).len() >= 1,
        pieces(a + y) == pieces(a).drop_last().push(pieces(a).last() + y),
    decreases y.len(),
{
    lemma_pieces_nonempty(a);
    if y.len() == 0 {
        assert(a + y =~= a);
        assert(pieces(a).last() + y =~= pieces(a).last());
        assert(pieces(a).drop_last().push(pieces(a).last()) =~= pieces(a));
    } else {
        let y0 = y.drop_last();
        lemma_pieces_append(a, y0);
        assert((a + y).drop_last() =~= a + y0);
        assert((a + y).last() == y.last());
        let before = pieces(a + y0);
        assert(y[y.len() - 1] != SEPARATOR);
        assert((pieces(a).last() + y0).push(y.last()) =~= pieces(a).last() + y);
        assert(before.update(before.len() - 1, before.last().push(y.last())) =~= pieces(
            a,
        ).drop_last().push(pieces(a).last() + y));
    }
}

/// Adding bytes at the end of a path keeps what it starts with.
proof fn lemma_leading_append(t: Seq<u8>, y: Seq<u8>)
    requires
        t.len() >= 2 || (t.len() == 1 && (t[0] == SEPARATOR || (y.len() > 0 && y[0] == SEPARATOR))),
    ensures
        leading(t + y) == leading(t),
{
    assert((t + y)[0] == t[0]);
    if t.len() >= 2 {
        assert((t + y)[1] == t[1]);
    } else if y.len() > 0 {
        assert((t + y)[1] == y[0]);
    }
}

/// The components of a single component written as a path.
proof fn lemma_components_single(x: Seq<u8>)
    requires
        is_plain_name(x) || x == root_component() || x == current_component(),
    ensures
        components(x) == seq![x],
{
    reveal(Seq::filter);
    let e = Seq::<u8>::empty();
    let none = Seq::<Seq<u8>>::empty();
    if x == root_component() {
        assert(x.drop_last() =~= e);
        assert(pieces(x) =~= seq![e, e]);
        lemma_filter_last(seq![e, e]);
        assert(seq![e, e].drop_last() =~= seq![e]);
        lemma_filter_last(seq![e]);
        assert(seq![e].drop_last() =~= none);
        assert(pieces(x).filter(named()) =~= none);
    } else {
        lemma_pieces_append(e, x);
        assert(e + x =~= x);
        assert(pieces(e).drop_last() =~= none);
        assert(pieces(x) =~= seq![x]);
        lemma_filter_last(seq![x]);
        assert(seq![x].drop_last() =~= none);
        if x == current_component() {
            assert(leading(x) =~= seq![x]);
            assert(pieces(x).filter(named()) =~= none);
        } else {
            assert(x[0] != SEPARATOR);
            if x.len() == 1 && x[0] == DOT {
                assert(x =~= seq![DOT]);
            }
            if x.len() >= 2 {
                assert(x[1] != SEPARATOR);
            }
            assert(leading(x) =~= none);
            assert(pieces(x).filter(named()) =~= seq![x]);
        }
    }
    assert(components(x) =~= seq![x]);
}

/// Joining a plain name to a path that is not empty adds it as one more
/// component.
proof fn lemma_components_joined(t: Seq<u8>, x: Seq<u8>)
    requires
        t.len() > 0,
        is_plain_name(x),
    ensures
        components(joined(t, x)) == components(t).push(x),
{
    let j = joined(t, x);
    if t.last() == SEPARATOR {
        lemma_pieces_append(t, x);
        let pt = pieces(t);
        assert(t.drop_last().push(SEPARATOR) =~= t);
        assert(pt.last() =~= Seq::<u8>::empty());
        assert(pt.last() + x =~= x);
        lemma_filter_last(pt);
        lemma_filter_last(pieces(j));
        assert(pieces(j).drop_last() =~= pt.drop_last());
        lemma_leading_append(t, x);
    } else {
        let ts = t.push(SEPARATOR);
        assert(ts.drop_last() =~= t);
        lemma_pieces_append(ts, x);
        let pt = pieces(ts);
        assert(pt == pieces(t).push(Seq::<u8>::empty()));
        assert(pt.drop_last() =~= pieces(t));
        assert(Seq::<u8>::empty() + x =~= x);
        lemma_filter_last(pieces(j));
        assert(pieces(j).drop_last() =~= pieces(t));
        lemma_leading_append(t, seq![SEPARATOR] + x);
        assert(t + (seq![SEPARATOR] + x) =~= j);
    }
    assert(components(j) =~= components(t).push(x));
}

/// Well-formed components, written as a path, are read back as they were.
proof fn lemma_components_rendered(cs: Seq<Seq<u8>>)
    requires
        well_formed(cs),
    ensures
        components(rendered(cs)) == cs,
        cs.len() > 0 ==> rendered(cs).len() > 0,
    decreases cs.len(),
{
    if cs.len() == 0 {
        reveal(Seq::filter);
        let e = Seq::<u8>::empty();
        assert(pieces(e) == seq![e]);
        assert(seq![e].drop_last() =~= Seq::<Seq<u8>>::empty());
        lemma_filter_last(seq![e]);
        assert(seq![e].filter(named()) =~= Seq::<Seq<u8>>::empty());
        assert(leading(e) =~= Seq::<Seq<u8>>::empty());
        assert(components(e) =~= cs);
    } else {
        let init = cs.drop_last();
        assert(well_formed(init)) by {
            assert forall|i: int| 0 <= i < init.len() implies is_plain_name(#[trigger] init[i]) || (i == 0
                && (init[i] == root_component() || init[i] == current_component())) by {
                assert(init[i] == cs[i]);
            }
        }
        lemma_components_rendered(init);
        assert(is_plain_name(cs.last()) || (cs.len() == 1 && (cs[0] == root_component() || cs[0]
            == current_component())));
        if cs.len() == 1 {
            lemma_components_single(cs[0]);
            assert(seq![cs[0]] =~= cs);
        } else {
            lemma_components_joined(rendered(init), cs.last());
            assert(init.push(cs.last()) =~= cs);
        }
    }
}

/// A path has a parent exactly when it has a part relative to that parent.
/// Where it has, that part joined to the parent gives a path with the same
/// components.
pub proof fn law_parent_round_trip(p: Seq<u8>)
    ensures
        parent_of(p).is_some() == relative_of(p).is_some(),
        relative_of(p).is_some() ==> components(
            joined(parent_of(p).unwrap(), relative_of(p).unwrap()),
        ) == components(p),
{
    let cs = components(p);
    if has_parent(p) {
        lemma_components_well_formed(p);
        let init = cs.drop_last();
        assert(well_formed(init)) by {
            assert forall|i: int| 0 <= i < init.len() implies is_plain_name(#[trigger] init[i]) || (i == 0
                && (init[i] == root_component() || init[i] == current_component())) by {
                assert(init[i] == cs[i]);
            }
        }
        lemma_components_rendered(init);
        if cs.len() == 1 {
            lemma_components_single(cs[0]);
            assert(seq![cs[0]] =~= cs);
        } else {
            assert(is_plain_name(cs[cs.len() - 1]));
            lemma_components_joined(rendered(init), cs.last());
            assert(init.push(cs.last()) =~= cs);
        }
    }
}

/// A path is hidden exactly when the text of its last component starts with
/// `.`.
pub proof fn law_hidden_by_last(p: Seq<u8>)
    ensures
        is_hidden(p) == (last_of(p) is Some && text_of(last_of(p).unwrap()).len() > 0 && text_of(
            last_of(p).unwrap(),
        )[0] == '.'),
{
}

/// A path made from text gives that same text back; the text of a path whose
/// bytes are valid UTF-8 encodes to those bytes; any other path has the empty
/// text.
pub proof fn law_text_round_trip(s: Seq<char>, p: Seq<u8>)
    ensures
        text_of(encode_utf8(s)) == s,
        valid_utf8(p) ==> encode_utf8(text_of(p)) == p,
        !valid_utf8(p) ==> text_of(p).len() == 0,
{
    vstd::utf8::encode_utf8_valid_utf8(s);
    vstd::utf8::encode_utf8_decode_utf8(s);
    if valid_utf8(p) {
        vstd::utf8::decode_utf8_encode_utf8(p);
    }
}

} // verus!
