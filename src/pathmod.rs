//! Paths and the queries on their components and text.
use crate::path_model::{
    byte_views, components, first_of, is_hidden, is_named, joined, last_of,
    lemma_filter_last, lemma_pieces_nonempty, lemma_pieces_step, leading, named, parent_of,
    pieces, relative_of, rendered, root_component, current_component, text_of, DOT, SEPARATOR,
};
use vstd::prelude::*;
use vstd::slice::slice_to_vec;
use vstd::utf8::{encode_utf8, valid_utf8};

verus! {

/// The bytes of an optional path.
pub open spec fn view_opt(o: Option<PathBuf>) -> Option<Seq<u8>> {
    match o {
        Some(b) => Some(b@),
        None => None,
    }
}

fn is_named_piece(piece: &Vec<u8>) -> (r: bool)
    ensures
        r == is_named(piece@),
{
    if piece.len() == 1 {
        assert(piece@ == seq![DOT] <==> piece@[0] == DOT) by {
            if piece@[0] == DOT {
                assert(piece@ =~= seq![DOT]);
            }
        }
    }
    piece.len() > 0 && !(piece.len() == 1 && piece[0] == DOT)
}

/// Splits `p` into its components.
pub fn components_of(p: &[u8]) -> (r: Vec<Vec<u8>>)
    ensures
        byte_views(r@) == components(p@),
{
    let n = p.len();
    let mut out: Vec<Vec<u8>> = Vec::new();
    if n > 0 && p[0] == SEPARATOR {
        let mut root: Vec<u8> = Vec::new();
        root.push(SEPARATOR);
        out.push(root);
        assert(root@ =~= root_component());
        assert(byte_views(out@) =~= leading(p@));
    } else if (n == 1 && p[0] == DOT) || (n >= 2 && p[0] == DOT && p[1] == SEPARATOR) {
        let mut current: Vec<u8> = Vec::new();
        current.push(DOT);
        out.push(current);
        assert(current@ =~= current_component());
        assert(byte_views(out@) =~= leading(p@));
    } else {
        assert(byte_views(out@) =~= leading(p@));
    }
    assert(p@.take(0) =~= Seq::<u8>::empty());
    assert(pieces(p@.take(0)).drop_last() =~= Seq::<Seq<u8>>::empty());
    reveal(Seq::filter);
    let mut cur: Vec<u8> = Vec::new();
    let mut i: usize = 0;
    while i < n
        invariant
            n == p@.len(),
            0 <= i <= n,
            pieces(p@.take(i as int)).len() >= 1,
            byte_views(out@) == leading(p@) + pieces(p@.take(i as int)).drop_last().filter(named()),
            cur@ == pieces(p@.take(i as int)).last(),
        decreases n - i,
    {
        let b = p[i];
        proof {
            lemma_pieces_step(p@, i as int);
            lemma_pieces_nonempty(p@.take(i + 1));
            lemma_filter_last(pieces(p@.take(i as int)));
        }
        let ghost before = byte_views(out@);
        if b == SEPARATOR {
            if is_named_piece(&cur) {
                out.push(cur);
                assert(byte_views(out@) =~= before.push(pieces(p@.take(i as int)).last()));
            }
            cur = Vec::new();
            assert(pieces(p@.take(i + 1)).drop_last() =~= pieces(p@.take(i as int)));
        } else {
            cur.push(b);
            assert(pieces(p@.take(i + 1)).drop_last() =~= pieces(p@.take(i as int)).drop_last());
        }
        i = i + 1;
    }
    proof {
        assert(p@.take(n as int) =~= p@);
        lemma_pieces_nonempty(p@);
        lemma_filter_last(pieces(p@));
    }
    let ghost before = byte_views(out@);
    if is_named_piece(&cur) {
        out.push(cur);
        assert(byte_views(out@) =~= before.push(pieces(p@).last()));
    }
    out
}


/// Relies on `std::str::from_utf8`: it accepts exactly the valid UTF-8 byte
/// sequences, and the text it returns is made of those same bytes.
#[verifier::external_body]
fn utf8_text(b: &[u8]) -> (r: Option<&str>)
    ensures
        r.is_some() == valid_utf8(b@),
        r.is_some() ==> encode_utf8(r.unwrap()@) == b@,
{
    std::str::from_utf8(b).ok()
}

/// The text of `p`, or `""` where its bytes are not valid UTF-8.
fn text_in(p: &[u8]) -> (r: &str)
    ensures
        r@ == text_of(p@),
{
    match utf8_text(p) {
        Some(s) => {
            proof {
                vstd::utf8::encode_utf8_decode_utf8(s@);
            }
            s
        },
        None => {
            proof {
                reveal_strlit("");
            }
            ""
        },
    }
}

/// Appends `b` to `a` as `joined` does.
fn join_into(a: &mut Vec<u8>, b: &[u8])
    ensures
        final(a)@ == joined(old(a)@, b@),
{
    let n = a.len();
    if n > 0 && a[n - 1] != SEPARATOR {
        a.push(SEPARATOR);
    }
    let ghost start = a@;
    let mut i: usize = 0;
    while i < b.len()
        invariant
            0 <= i <= b@.len(),
            a@ == start + b@.take(i as int),
        decreases b@.len() - i,
    {
        a.push(b[i]);
        assert(b@.take(i + 1) =~= b@.take(i as int).push(b@[i as int]));
        i = i + 1;
    }
    assert(b@.take(b@.len() as int) =~= b@);
    assert(start.len() > 0 ==> start.last() == SEPARATOR || n == 0);
}

/// The path written from the first `k` of the components `cs`.
fn render(cs: &Vec<Vec<u8>>, k: usize) -> (r: Vec<u8>)
    requires
        k <= cs@.len(),
    ensures
        r@ == rendered(byte_views(cs@).take(k as int)),
{
    let mut out: Vec<u8> = Vec::new();
    let mut j: usize = 0;
    assert(byte_views(cs@).take(0) =~= Seq::<Seq<u8>>::empty());
    while j < k
        invariant
            0 <= j <= k <= cs@.len(),
            out@ == rendered(byte_views(cs@).take(j as int)),
        decreases k - j,
    {
        join_into(&mut out, cs[j].as_slice());
        assert(byte_views(cs@).take(j + 1).drop_last() =~= byte_views(cs@).take(j as int));
        j = j + 1;
    }
    out
}

fn first_component_in(p: &[u8]) -> (r: Option<PathBuf>)
    ensures
        view_opt(r) == first_of(p@),
{
    let mut cs = components_of(p);
    if cs.len() > 0 {
        let first = cs.swap_remove(0);
        Some(PathBuf { bytes: first })
    } else {
        None
    }
}

fn last_component_in(p: &[u8]) -> (r: Option<PathBuf>)
    ensures
        view_opt(r) == last_of(p@),
{
    let mut cs = components_of(p);
    match cs.pop() {
        Some(last) => Some(PathBuf { bytes: last }),
        None => None,
    }
}

fn has_parent_in(cs: &Vec<Vec<u8>>) -> (r: bool)
    ensures
        r == (byte_views(cs@).len() > 0 && byte_views(cs@).last() != root_component()),
{
    let n = cs.len();
    if n == 0 {
        return false;
    }
    let last = &cs[n - 1];
    let is_root = last.len() == 1 && last[0] == SEPARATOR;
    assert(is_root == (last@ == root_component())) by {
        if last@.len() == 1 && last@[0] == SEPARATOR {
            assert(last@ =~= root_component());
        }
    }
    !is_root
}

fn rel_to_parent_in(p: &[u8]) -> (r: Option<PathBuf>)
    ensures
        view_opt(r) == relative_of(p@),
{
    let mut cs = components_of(p);
    if has_parent_in(&cs) {
        match cs.pop() {
            Some(last) => Some(PathBuf { bytes: last }),
            None => None,
        }
    } else {
        None
    }
}

fn parent_in(p: &[u8]) -> (r: Option<PathBuf>)
    ensures
        view_opt(r) == parent_of(p@),
{
    let cs = components_of(p);
    if has_parent_in(&cs) {
        let bytes = render(&cs, cs.len() - 1);
        assert(byte_views(cs@).take(cs@.len() - 1) =~= components(p@).drop_last());
        Some(PathBuf { bytes })
    } else {
        None
    }
}

fn is_dot_in(p: &[u8]) -> (r: bool)
    ensures
        r == is_hidden(p@),
{
    let mut cs = components_of(p);
    match cs.pop() {
        Some(last) => {
            let text = text_in(last.as_slice());
            !text.is_empty() && text.get_char(0) == '.'
        },
        None => false,
    }
}

/// A path held by value.
#[derive(Clone, Debug, PartialEq, Eq)]
pub struct PathBuf {
    bytes: Vec<u8>,
}

impl View for PathBuf {
    type V = Seq<u8>;

    closed spec fn view(&self) -> Seq<u8> {
        self.bytes@
    }
}

/// A path borrowed from text or bytes that live elsewhere.
#[derive(Clone, Copy, Debug, PartialEq, Eq)]
pub struct Path<'a> {
    bytes: &'a [u8],
}

impl<'a> View for Path<'a> {
    type V = Seq<u8>;

    closed spec fn view(&self) -> Seq<u8> {
        self.bytes@
    }
}

impl<'a> Path<'a> {
    /// The path whose bytes are the UTF-8 encoding of `s`.
    pub fn new(s: &'a str) -> (r: Path<'a>)
        ensures
            r@ == encode_utf8(s@),
    {
        Path { bytes: s.as_bytes() }
    }

    /// The path made of the bytes `bytes`.
    pub fn from_bytes(bytes: &'a [u8]) -> (r: Path<'a>)
        ensures
            r@ == bytes@,
    {
        Path { bytes }
    }

    /// The bytes of the path.
    pub fn as_bytes(&self) -> (r: &'a [u8])
        ensures
            r@ == self@,
    {
        self.bytes
    }

    /// The text of the path, or `""` where its bytes are not valid UTF-8; it
    /// borrows from what the path borrows.
    pub fn as_str(&self) -> (r: &'a str)
        ensures
            r@ == text_of(self@),
    {
        text_in(self.bytes)
    }
}

impl PathBuf {
    /// The path whose bytes are the UTF-8 encoding of `s`.
    pub fn from(s: &str) -> (r: PathBuf)
        ensures
            r@ == encode_utf8(s@),
    {
        PathBuf { bytes: slice_to_vec(s.as_bytes()) }
    }

    /// The path made of the bytes `bytes`.
    pub fn from_bytes(bytes: Vec<u8>) -> (r: PathBuf)
        ensures
            r@ == bytes@,
    {
        PathBuf { bytes }
    }

    /// The bytes of the path.
    pub fn as_bytes(&self) -> (r: &[u8])
        ensures
            r@ == self@,
    {
        self.bytes.as_slice()
    }

    /// `other` appended to this path, with a separator between them unless
    /// this path is empty or already ends with one.
    pub fn join(&self, other: &PathBuf) -> (r: PathBuf)
        ensures
            r@ == joined(self@, other@),
    {
        let mut bytes = self.bytes.clone();
        assert(bytes@ == self.bytes@);
        join_into(&mut bytes, other.bytes.as_slice());
        PathBuf { bytes }
    }
}

/// Queries on the components and the text of a path.
pub trait PathMod: View<V = Seq<u8>> {
    /// Whether the text of the last component starts with `.`.
    fn is_dot(&self) -> (r: bool)
        ensures
            r == is_hidden(self@),
    ;

    /// The last component, if the path has any.
    fn last_component(&self) -> (r: Option<PathBuf>)
        ensures
            view_opt(r) == last_of(self@),
    ;

    /// The first component, if the path has any: the root for an absolute
    /// path.
    fn first_component(&self) -> (r: Option<PathBuf>)
        ensures
            view_opt(r) == first_of(self@),
    ;

    /// The last component, relative to the parent; nothing where the path has
    /// no parent (it is empty, or it is the root).
    fn rel_to_parent(&self) -> (r: Option<PathBuf>)
        ensures
            view_opt(r) == relative_of(self@),
    ;

    /// The path without its last component; nothing where it has no parent.
    fn parent(&self) -> (r: Option<PathBuf>)
        ensures
            view_opt(r) == parent_of(self@),
    ;

    /// The text of the path, or `""` where its bytes are not valid UTF-8.
    fn as_str(&self) -> (r: &str)
        ensures
            r@ == text_of(self@),
    ;

    /// An owned copy of `as_str`.
    fn as_string(&self) -> (r: String)
        ensures
            r@ == text_of(self@),
    ;
}

impl PathMod for PathBuf {
    fn is_dot(&self) -> (r: bool) {
        is_dot_in(self.bytes.as_slice())
    }

    fn last_component(&self) -> (r: Option<PathBuf>) {
        last_component_in(self.bytes.as_slice())
    }

    fn first_component(&self) -> (r: Option<PathBuf>) {
        first_component_in(self.bytes.as_slice())
    }

    fn rel_to_parent(&self) -> (r: Option<PathBuf>) {
        rel_to_parent_in(self.bytes.as_slice())
    }

    fn parent(&self) -> (r: Option<PathBuf>) {
        parent_in(self.bytes.as_slice())
    }

    fn as_str(&self) -> (r: &str) {
        text_in(self.bytes.as_slice())
    }

    fn as_string(&self) -> (r: String) {
        text_in(self.bytes.as_slice()).to_string()
    }
}

impl<'a> PathMod for Path<'a> {
    fn is_dot(&self) -> (r: bool) {
        is_dot_in(self.bytes)
    }

    fn last_component(&self) -> (r: Option<PathBuf>) {
        last_component_in(self.bytes)
    }

    fn first_component(&self) -> (r: Option<PathBuf>) {
        first_component_in(self.bytes)
    }

    fn rel_to_parent(&self) -> (r: Option<PathBuf>) {
        rel_to_parent_in(self.bytes)
    }

    fn parent(&self) -> (r: Option<PathBuf>) {
        parent_in(self.bytes)
    }

    fn as_str(&self) -> (r: &str) {
        text_in(self.bytes)
    }

    fn as_string(&self) -> (r: String) {
        text_in(self.bytes).to_string()
    }
}

} // verus!
