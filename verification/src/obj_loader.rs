//! Reading Wavefront OBJ text into a mesh.
//!
//! Only `v`, `vt`, `vn` and `f` lines count; a face takes its first three
//! corners, and each corner becomes a vertex of its own.
use vstd::prelude::*;

use crate::mesh::{Mesh, Triangle};
use crate::text::{
    lemma_pieces_concat, lemma_pieces_len, non_empty, parse_decimal, parse_usize, pieces,
    seqs_of, split, split_whitespace, words, chars_of, Separator,
};

verus! {

/// Reads Wavefront OBJ text.
pub struct ObjLoader;

/// One corner of a face: the position, texture coordinate and normal that it
/// takes, by index into the lists declared above it. `None` where the face
/// names one that is not declared above it (the mesh then takes the default).
#[derive(Clone, Copy, Debug, PartialEq, Eq)]
pub struct ObjVertex {
    pub position: Option<usize>,
    pub uv: Option<usize>,
    pub normal: Option<usize>,
}

/// What an OBJ text declares: the coordinate words of each `v`, `vt` and
/// `vn` line (three, two and three words), one vertex per face corner, and
/// one triangle per face.
pub struct ObjMesh {
    pub positions: Vec<Vec<Vec<char>>>,
    pub texcoords: Vec<Vec<Vec<char>>>,
    pub normals: Vec<Vec<Vec<char>>>,
    pub vertices: Vec<ObjVertex>,
    pub triangles: Vec<Triangle>,
}

/// The mathematical content of an `ObjMesh`.
#[verifier::ext_equal]
pub ghost struct ObjModel {
    pub positions: Seq<Seq<Seq<char>>>,
    pub texcoords: Seq<Seq<Seq<char>>>,
    pub normals: Seq<Seq<Seq<char>>>,
    pub vertices: Seq<ObjVertex>,
    pub triangles: Seq<Triangle>,
}

impl View for ObjMesh {
    type V = ObjModel;

    open spec fn view(&self) -> ObjModel {
        ObjModel {
            positions: self.positions@.map_values(|p: Vec<Vec<char>>| seqs_of(p@)),
            texcoords: self.texcoords@.map_values(|p: Vec<Vec<char>>| seqs_of(p@)),
            normals: self.normals@.map_values(|p: Vec<Vec<char>>| seqs_of(p@)),
            vertices: self.vertices@,
            triangles: self.triangles@,
        }
    }
}

/// The kinds of line that the loader reads.
#[derive(Clone, Copy, Debug, PartialEq, Eq)]
pub enum ObjKeyword {
    Position,
    TexCoord,
    Normal,
    Face,
    Other,
}

/// The kind of line that begins with the word `w`.
pub open spec fn keyword_of(w: Seq<char>) -> ObjKeyword {
    if w == seq!['v'] {
        ObjKeyword::Position
    } else if w == seq!['v', 't'] {
        ObjKeyword::TexCoord
    } else if w == seq!['v', 'n'] {
        ObjKeyword::Normal
    } else if w == seq!['f'] {
        ObjKeyword::Face
    } else {
        ObjKeyword::Other
    }
}

/// A one-based OBJ index made zero-based: `parse::<usize>()`, 1 where that
/// fails, less one and at least 0.
pub open spec fn zero_based(piece: Seq<char>) -> nat {
    match parse_usize(piece) {
        Some(v) => if v == 0 {
            0
        } else {
            (v - 1) as nat
        },
        None => 0,
    }
}

/// `Some(index)` where `index` names one of `count` entries.
pub open spec fn lookup(index: nat, count: nat) -> Option<usize> {
    if index < count {
        Some(index as usize)
    } else {
        None
    }
}

/// The vertex that the face word `w` (`p`, `p/t`, `p//n` or `p/t/n`) gives,
/// against what `m` has declared so far. A missing or empty `t` or `n`
/// counts as index 0.
pub open spec fn face_corner(m: ObjModel, w: Seq<char>) -> ObjVertex {
    let parts = pieces(w, Separator::Char('/'));
    let p = zero_based(parts[0]);
    let t = if parts.len() > 1 && parts[1].len() > 0 {
        zero_based(parts[1])
    } else {
        0
    };
    let n = if parts.len() > 2 && parts[2].len() > 0 {
        zero_based(parts[2])
    } else {
        0
    };
    ObjVertex {
        position: lookup(p, m.positions.len()),
        uv: lookup(t, m.texcoords.len()),
        normal: lookup(n, m.normals.len()),
    }
}

/// What reading one more line does to `m`.
pub open spec fn obj_step(m: ObjModel, line: Seq<char>) -> ObjModel {
    let t = words(line);
    if t.len() == 0 {
        m
    } else {
        match keyword_of(t[0]) {
            ObjKeyword::Position => if t.len() >= 4 {
                ObjModel { positions: m.positions.push(t.subrange(1, 4)), ..m }
            } else {
                m
            },
            ObjKeyword::TexCoord => if t.len() >= 3 {
                ObjModel { texcoords: m.texcoords.push(t.subrange(1, 3)), ..m }
            } else {
                m
            },
            ObjKeyword::Normal => if t.len() >= 4 {
                ObjModel { normals: m.normals.push(t.subrange(1, 4)), ..m }
            } else {
                m
            },
            ObjKeyword::Face => if t.len() >= 4 {
                let n = m.vertices.len();
                ObjModel {
                    vertices: m.vertices.push(face_corner(m, t[1])).push(
                        face_corner(m, t[2]),
                    ).push(face_corner(m, t[3])),
                    triangles: m.triangles.push(
                        Triangle { indices: [n as usize, (n + 1) as usize, (n + 2) as usize] },
                    ),
                    ..m
                }
            } else {
                m
            },
            ObjKeyword::Other => m,
        }
    }
}

/// The model with nothing declared.
pub open spec fn empty_model() -> ObjModel {
    ObjModel {
        positions: Seq::empty(),
        texcoords: Seq::empty(),
        normals: Seq::empty(),
        vertices: Seq::empty(),
        triangles: Seq::empty(),
    }
}

/// What reading `lines` in order gives.
pub open spec fn obj_read_lines(lines: Seq<Seq<char>>) -> ObjModel
    decreases lines.len(),
{
    if lines.len() == 0 {
        empty_model()
    } else {
        obj_step(obj_read_lines(lines.drop_last()), lines.last())
    }
}

/// What the OBJ text `text` declares: its lines are the pieces between `\n`s.
pub open spec fn obj_model_of(text: Seq<char>) -> ObjModel {
    obj_read_lines(pieces(text, Separator::Char('\n')))
}

impl ObjModel {
    /// Whether each index that `v` holds names an entry that `self` declares.
    pub open spec fn refers_within(self, v: ObjVertex) -> bool {
        &&& (v.position matches Some(i) ==> i < self.positions.len())
        &&& (v.uv matches Some(i) ==> i < self.texcoords.len())
        &&& (v.normal matches Some(i) ==> i < self.normals.len())
    }

    /// The shape of every model that OBJ text gives: three words per
    /// position and normal and two per texture coordinate; three vertices
    /// per triangle, the `k`-th triangle taking vertices `3k`, `3k + 1` and
    /// `3k + 2`; and every index of a vertex naming a declared entry.
    pub open spec fn well_formed(self) -> bool {
        &&& forall|i: int| 0 <= i < self.positions.len() ==> (#[trigger] self.positions[i]).len() == 3
        &&& forall|i: int| 0 <= i < self.texcoords.len() ==> (#[trigger] self.texcoords[i]).len() == 2
        &&& forall|i: int| 0 <= i < self.normals.len() ==> (#[trigger] self.normals[i]).len() == 3
        &&& self.vertices.len() == 3 * self.triangles.len()
        &&& forall|k: int|
            0 <= k < self.triangles.len() ==> (#[trigger] self.triangles[k]).indices@ == seq![
                (3 * k) as usize,
                (3 * k + 1) as usize,
                (3 * k + 2) as usize,
            ]
        &&& forall|i: int| 0 <= i < self.vertices.len() ==> self.refers_within(#[trigger] self.vertices[i])
    }
}

/// Reading a line keeps a model well formed.
pub proof fn lemma_obj_step_well_formed(m: ObjModel, line: Seq<char>)
    requires
        m.well_formed(),
    ensures
        obj_step(m, line).well_formed(),
{
    let r = obj_step(m, line);
    let t = words(line);
    assert forall|i: int| 0 <= i < m.vertices.len() implies r.refers_within(#[trigger] m.vertices[i]) by {
        assert(m.refers_within(m.vertices[i]));
    }
    if t.len() > 0 && keyword_of(t[0]) == ObjKeyword::Face && t.len() >= 4 {
        let n = m.vertices.len();
        assert forall|i: int| 0 <= i < r.vertices.len() implies r.refers_within(#[trigger] r.vertices[i]) by {
            if i < n {
                assert(r.vertices[i] == m.vertices[i]);
            }
        }
        assert forall|k: int| 0 <= k < r.triangles.len() implies (#[trigger] r.triangles[k]).indices@ == seq![
            (3 * k) as usize,
            (3 * k + 1) as usize,
            (3 * k + 2) as usize,
        ] by {
            if k < m.triangles.len() {
                assert(r.triangles[k] == m.triangles[k]);
            } else {
                assert(k == m.triangles.len());
                assert(r.triangles[k].indices@ =~= seq![n as usize, (n + 1) as usize, (n + 2) as usize]);
            }
        }
    } else {
        assert forall|i: int| 0 <= i < r.vertices.len() implies r.refers_within(#[trigger] r.vertices[i]) by {
            assert(r.vertices[i] == m.vertices[i]);
        }
    }
}

/// Every model that OBJ text gives is well formed: in particular each
/// triangle names three of its vertices, and each vertex names only
/// positions, texture coordinates and normals that are declared.
pub proof fn lemma_obj_model_well_formed(text: Seq<char>)
    ensures
        obj_model_of(text).well_formed(),
        forall|k: int|
            0 <= k < obj_model_of(text).triangles.len() ==> (#[trigger] obj_model_of(
                text,
            ).triangles[k]).fits(obj_model_of(text).vertices.len()),
{
    lemma_obj_read_lines_well_formed(pieces(text, Separator::Char('\n')));
    let m = obj_model_of(text);
    assert forall|k: int| 0 <= k < m.triangles.len() implies (#[trigger] m.triangles[k]).fits(
        m.vertices.len(),
    ) by {
        assert(m.triangles[k].indices@ == seq![
            (3 * k) as usize,
            (3 * k + 1) as usize,
            (3 * k + 2) as usize,
        ]);
    }
}

proof fn lemma_obj_read_lines_well_formed(lines: Seq<Seq<char>>)
    ensures
        obj_read_lines(lines).well_formed(),
    decreases lines.len(),
{
    if lines.len() > 0 {
        lemma_obj_read_lines_well_formed(lines.drop_last());
        lemma_obj_step_well_formed(obj_read_lines(lines.drop_last()), lines.last());
    }
}

/// What reading `lines` in order makes of `m`.
pub open spec fn obj_read_more(m: ObjModel, lines: Seq<Seq<char>>) -> ObjModel
    decreases lines.len(),
{
    if lines.len() == 0 {
        m
    } else {
        obj_step(obj_read_more(m, lines.drop_last()), lines.last())
    }
}

/// Reading `x` and then `y` is reading `x + y`.
pub proof fn lemma_read_lines_concat(x: Seq<Seq<char>>, y: Seq<Seq<char>>)
    ensures
        obj_read_lines(x + y) == obj_read_more(obj_read_lines(x), y),
    decreases y.len(),
{
    if y.len() == 0 {
        assert(x + y =~= x);
    } else {
        lemma_read_lines_concat(x, y.drop_last());
        assert((x + y).drop_last() =~= x + y.drop_last());
        assert((x + y).last() == y.last());
    }
}

/// An empty line holds no words, so reading it changes nothing.
pub proof fn lemma_empty_line_changes_nothing(m: ObjModel)
    ensures
        obj_step(m, Seq::empty()) == m,
{
    let e = Seq::<char>::empty();
    assert(pieces(e, Separator::WhiteSpace) =~= seq![e]);
    assert(seq![e].drop_last() =~= Seq::<Seq<char>>::empty());
    assert(seq![e].last() == e);
    assert(non_empty(Seq::<Seq<char>>::empty()) == Seq::<Seq<char>>::empty());
    assert(non_empty(seq![e]) =~= Seq::<Seq<char>>::empty());
}

/// A blank line neither changes what is read nor ends the reading: for all
/// texts `a` and `b`, `a`, an empty line, then `b` declares what `a` then `b`
/// declares.
pub proof fn lemma_blank_line_changes_nothing(a: Seq<char>, b: Seq<char>)
    ensures
        obj_model_of(a + seq!['\n', '\n'] + b) == obj_model_of(a + seq!['\n'] + b),
{
    let nl = Separator::Char('\n');
    let e = Seq::<char>::empty();
    assert(a + seq!['\n', '\n'] + b =~= a + seq!['\n'] + (e + seq!['\n'] + b));
    lemma_pieces_concat(a, e + seq!['\n'] + b, '\n');
    lemma_pieces_concat(e, b, '\n');
    lemma_pieces_concat(a, b, '\n');
    assert(pieces(e, nl) =~= seq![e]);
    let p = pieces(a, nl);
    let q = pieces(b, nl);
    assert(pieces(a + seq!['\n', '\n'] + b, nl) =~= p.push(e) + q);
    lemma_read_lines_concat(p.push(e), q);
    lemma_read_lines_concat(p, q);
    assert(p.push(e).drop_last() =~= p);
    lemma_empty_line_changes_nothing(obj_read_lines(p));
}

proof fn lemma_keywords()
    ensures
        keyword_of(seq!['v']) == ObjKeyword::Position,
        keyword_of(seq!['v', 't']) == ObjKeyword::TexCoord,
        keyword_of(seq!['v', 'n']) == ObjKeyword::Normal,
        keyword_of(seq!['f']) == ObjKeyword::Face,
{
    assert(seq!['v', 't'].len() != seq!['v'].len());
    assert(seq!['v', 'n'].len() != seq!['v'].len());
    assert(seq!['v', 'n'][1] != seq!['v', 't'][1]);
    assert(seq!['f'][0] != seq!['v'][0]);
}

/// A face line reads its first three corners only: two face lines whose
/// words 1 to 3 agree read alike, whatever words follow.
pub proof fn lemma_face_reads_first_three_corners(m: ObjModel, l1: Seq<char>, l2: Seq<char>)
    requires
        words(l1).len() >= 4,
        words(l2).len() >= 4,
        words(l1)[0] == seq!['f'],
        words(l2)[0] == seq!['f'],
        words(l1)[1] == words(l2)[1],
        words(l1)[2] == words(l2)[2],
        words(l1)[3] == words(l2)[3],
    ensures
        obj_step(m, l1) == obj_step(m, l2),
        obj_step(m, l1).vertices.len() == m.vertices.len() + 3,
        obj_step(m, l1).triangles.len() == m.triangles.len() + 1,
{
    lemma_keywords();
}

/// A `vt` line reads its first two coordinates only: two `vt` lines whose
/// words 1 and 2 agree read alike, whatever words follow; and each adds one
/// texture coordinate.
pub proof fn lemma_texcoord_reads_first_two_words(m: ObjModel, l1: Seq<char>, l2: Seq<char>)
    requires
        words(l1).len() >= 3,
        words(l2).len() >= 3,
        words(l1)[0] == seq!['v', 't'],
        words(l2)[0] == seq!['v', 't'],
        words(l1)[1] == words(l2)[1],
        words(l1)[2] == words(l2)[2],
    ensures
        obj_step(m, l1) == obj_step(m, l2),
        obj_step(m, l1).texcoords.len() == m.texcoords.len() + 1,
        obj_step(m, l1).texcoords.last() == seq![words(l1)[1], words(l1)[2]],
{
    lemma_keywords();
    assert(words(l1).subrange(1, 3) =~= words(l2).subrange(1, 3));
    assert(words(l1).subrange(1, 3) =~= seq![words(l1)[1], words(l1)[2]]);
}

/// A `v` or `vn` line reads its first three coordinates only: two such
/// lines with the same keyword whose words 1 to 3 agree read alike, whatever
/// words follow; and each adds one position or one normal.
pub proof fn lemma_point_reads_first_three_words(m: ObjModel, l1: Seq<char>, l2: Seq<char>)
    requires
        words(l1).len() >= 4,
        words(l2).len() >= 4,
        words(l1)[0] == seq!['v'] || words(l1)[0] == seq!['v', 'n'],
        words(l1)[0] == words(l2)[0],
        words(l1)[1] == words(l2)[1],
        words(l1)[2] == words(l2)[2],
        words(l1)[3] == words(l2)[3],
    ensures
        obj_step(m, l1) == obj_step(m, l2),
        words(l1)[0] == seq!['v'] ==> obj_step(m, l1).positions.len() == m.positions.len() + 1
            && obj_step(m, l1).positions.last() == seq![words(l1)[1], words(l1)[2], words(l1)[3]],
        words(l1)[0] == seq!['v', 'n'] ==> obj_step(m, l1).normals.len() == m.normals.len() + 1
            && obj_step(m, l1).normals.last() == seq![words(l1)[1], words(l1)[2], words(l1)[3]],
{
    lemma_keywords();
    assert(words(l1).subrange(1, 4) =~= words(l2).subrange(1, 4));
    assert(words(l1).subrange(1, 4) =~= seq![words(l1)[1], words(l1)[2], words(l1)[3]]);
    assert(seq!['v'] != seq!['v', 'n']) by {
        assert(seq!['v'].len() != seq!['v', 'n'].len());
    }
}

/// Each index of a face corner comes from its own `/`-piece alone: the
/// position from the first piece, the texture coordinate from the second and
/// the normal from the third, whatever the other pieces hold.
pub proof fn lemma_corner_pieces_independent(m: ObjModel, w1: Seq<char>, w2: Seq<char>)
    ensures
        pieces(w1, Separator::Char('/'))[0] == pieces(w2, Separator::Char('/'))[0]
            ==> face_corner(m, w1).position == face_corner(m, w2).position,
        pieces(w1, Separator::Char('/')).len() > 1 && pieces(w2, Separator::Char('/')).len() > 1
            && pieces(w1, Separator::Char('/'))[1] == pieces(w2, Separator::Char('/'))[1]
            ==> face_corner(m, w1).uv == face_corner(m, w2).uv,
        pieces(w1, Separator::Char('/')).len() > 2 && pieces(w2, Separator::Char('/')).len() > 2
            && pieces(w1, Separator::Char('/'))[2] == pieces(w2, Separator::Char('/'))[2]
            ==> face_corner(m, w1).normal == face_corner(m, w2).normal,
{
}

/// A corner piece that reads as the one-based index `k` of a declared entry
/// names entry `k - 1`; a corner with no normal piece, or an empty one,
/// takes the first normal where there is one.
pub proof fn lemma_corner_one_based(m: ObjModel, w: Seq<char>, k: usize)
    ensures
        parse_usize(pieces(w, Separator::Char('/'))[0]) == Some(k) && 1 <= k <= m.positions.len()
            ==> face_corner(m, w).position == Some((k - 1) as usize),
        pieces(w, Separator::Char('/')).len() > 1 && parse_usize(
            pieces(w, Separator::Char('/'))[1],
        ) == Some(k) && 1 <= k <= m.texcoords.len() ==> face_corner(m, w).uv == Some(
            (k - 1) as usize,
        ),
        pieces(w, Separator::Char('/')).len() > 2 && parse_usize(
            pieces(w, Separator::Char('/'))[2],
        ) == Some(k) && 1 <= k <= m.normals.len() ==> face_corner(m, w).normal == Some(
            (k - 1) as usize,
        ),
        (pieces(w, Separator::Char('/')).len() <= 2 || pieces(w, Separator::Char('/'))[2].len()
            == 0) ==> face_corner(m, w).normal == (if m.normals.len() > 0 {
            Some(0usize)
        } else {
            None
        }),
{
    let parts = pieces(w, Separator::Char('/'));
    if parts.len() > 1 && parse_usize(parts[1]) == Some(k) {
        assert(parts[1].len() > 0);
    }
    if parts.len() > 2 && parse_usize(parts[2]) == Some(k) {
        assert(parts[2].len() > 0);
    }
}

fn keyword(w: &Vec<char>) -> (k: ObjKeyword)
    ensures
        k == keyword_of(w@),
{
    if w.len() == 1 && w[0] == 'v' {
        assert(w@ =~= seq!['v']);
        ObjKeyword::Position
    } else if w.len() == 2 && w[0] == 'v' && w[1] == 't' {
        assert(w@ =~= seq!['v', 't']);
        ObjKeyword::TexCoord
    } else if w.len() == 2 && w[0] == 'v' && w[1] == 'n' {
        assert(w@ =~= seq!['v', 'n']);
        ObjKeyword::Normal
    } else if w.len() == 1 && w[0] == 'f' {
        assert(w@ =~= seq!['f']);
        ObjKeyword::Face
    } else {
        ObjKeyword::Other
    }
}

fn zero_based_index(piece: &Vec<char>) -> (r: usize)
    ensures
        r == zero_based(piece@),
{
    match parse_decimal(piece) {
        Some(v) => v.saturating_sub(1),
        None => 0,
    }
}

fn copy_word(w: &Vec<char>) -> (out: Vec<char>)
    ensures
        out@ == w@,
{
    let mut out: Vec<char> = Vec::new();
    for i in 0..w.len()
        invariant
            out@ == w@.take(i as int),
    {
        out.push(w[i]);
        assert(w@.take(i + 1) =~= w@.take(i as int).push(w@[i as int]));
    }
    assert(w@.take(w.len() as int) =~= w@);
    out
}

impl ObjMesh {
    /// A mesh with nothing declared.
    pub fn new() -> (m: ObjMesh)
        ensures
            m@ == empty_model(),
    {
        let m = ObjMesh {
            positions: Vec::new(),
            texcoords: Vec::new(),
            normals: Vec::new(),
            vertices: Vec::new(),
            triangles: Vec::new(),
        };
        assert(m@ =~= empty_model());
        m
    }

    fn corner(&self, w: &Vec<char>) -> (v: ObjVertex)
        ensures
            v == face_corner(self@, w@),
    {
        let parts = split(w, Separator::Char('/'));
        proof {
            lemma_pieces_len(w@, Separator::Char('/'));
        }
        let p = zero_based_index(&parts[0]);
        let t = if parts.len() > 1 && parts[1].len() > 0 {
            zero_based_index(&parts[1])
        } else {
            0
        };
        let n = if parts.len() > 2 && parts[2].len() > 0 {
            zero_based_index(&parts[2])
        } else {
            0
        };
        ObjVertex {
            position: if p < self.positions.len() { Some(p) } else { None },
            uv: if t < self.texcoords.len() { Some(t) } else { None },
            normal: if n < self.normals.len() { Some(n) } else { None },
        }
    }

    fn take_words(t: &Vec<Vec<char>>, from: usize, to: usize) -> (out: Vec<Vec<char>>)
        requires
            from <= to <= t.len(),
        ensures
            seqs_of(out@) == seqs_of(t@).subrange(from as int, to as int),
    {
        let mut out: Vec<Vec<char>> = Vec::new();
        let mut i = from;
        while i < to
            invariant
                from <= i <= to <= t.len(),
                seqs_of(out@) == seqs_of(t@).subrange(from as int, i as int),
            decreases to - i,
        {
            let w = copy_word(&t[i]);
            let ghost prev = seqs_of(out@);
            out.push(w);
            assert(seqs_of(out@) =~= prev.push(seqs_of(t@)[i as int]));
            assert(seqs_of(out@) =~= seqs_of(t@).subrange(from as int, i + 1));
            i += 1;
        }
        out
    }

    /// Reads one line of OBJ text.
    pub fn read_line(&mut self, line: &Vec<char>)
        ensures
            final(self)@ == obj_step(old(self)@, line@),
    {
        let t = split_whitespace(line);
        if t.len() == 0 {
            return;
        }
        let ghost m = self@;
        assert(seqs_of(t@)[0] == t@[0]@);
        match keyword(&t[0]) {
            ObjKeyword::Position => {
                if t.len() >= 4 {
                    let c = Self::take_words(&t, 1, 4);
                    self.positions.push(c);
                    assert(self@ =~= obj_step(m, line@));
                }
            },
            ObjKeyword::TexCoord => {
                if t.len() >= 3 {
                    let c = Self::take_words(&t, 1, 3);
                    self.texcoords.push(c);
                    assert(self@ =~= obj_step(m, line@));
                }
            },
            ObjKeyword::Normal => {
                if t.len() >= 4 {
                    let c = Self::take_words(&t, 1, 4);
                    self.normals.push(c);
                    assert(self@ =~= obj_step(m, line@));
                }
            },
            ObjKeyword::Face => {
                if t.len() >= 4 {
                    assert(seqs_of(t@)[1] == t@[1]@);
                    assert(seqs_of(t@)[2] == t@[2]@);
                    assert(seqs_of(t@)[3] == t@[3]@);
                    let v0 = self.corner(&t[1]);
                    let v1 = self.corner(&t[2]);
                    let v2 = self.corner(&t[3]);
                    self.vertices.push(v0);
                    self.vertices.push(v1);
                    self.vertices.push(v2);
                    let n = self.vertices.len();
                    self.triangles.push(Triangle { indices: [n - 3, n - 2, n - 1] });
                    assert(self@ =~= obj_step(m, line@));
                }
            },
            ObjKeyword::Other => {},
        }
    }
}

impl ObjMesh {
    /// The mesh whose vertices are `vertices`, one for each vertex of `self`
    /// in the same order (made from it by the caller), and whose triangles
    /// are those of `self`; `None` where the counts differ.
    pub fn to_mesh<V: Copy>(&self, vertices: Vec<V>) -> (r: Option<Mesh<V>>)
        ensures
            r is Some <==> vertices@.len() == self.vertices@.len(),
            r matches Some(m) ==> m.vertices@ == vertices@ && m.triangles@ == self.triangles@,
            r matches Some(m) ==> (self@.well_formed() ==> m.well_formed()),
    {
        if vertices.len() != self.vertices.len() {
            return None;
        }
        let mut triangles: Vec<Triangle> = Vec::new();
        for k in 0..self.triangles.len()
            invariant
                triangles@ == self.triangles@.take(k as int),
        {
            triangles.push(self.triangles[k]);
            assert(triangles@ =~= self.triangles@.take(k + 1));
        }
        assert(triangles@ =~= self.triangles@);
        let m = Mesh { vertices, triangles };
        proof {
            if self@.well_formed() {
                assert forall|k: int| 0 <= k < m.triangles@.len() implies (#[trigger] m.triangles@[k]).fits(
                    m.vertices@.len(),
                ) by {
                    assert(self@.triangles[k].indices@ == seq![
                        (3 * k) as usize,
                        (3 * k + 1) as usize,
                        (3 * k + 2) as usize,
                    ]);
                }
            }
        }
        Some(m)
    }
}

impl ObjLoader {
    /// Reads the OBJ text `text` (see `obj_model_of`).
    pub fn load(text: &str) -> (mesh: ObjMesh)
        ensures
            mesh@ == obj_model_of(text@),
            mesh@.well_formed(),
    {
        proof {
            lemma_obj_model_well_formed(text@);
        }
        let chars = chars_of(text);
        let lines = split(&chars, Separator::Char('\n'));
        let mut mesh = ObjMesh::new();
        let ghost ls = pieces(text@, Separator::Char('\n'));
        assert(ls.take(0) =~= Seq::<Seq<char>>::empty());
        for i in 0..lines.len()
            invariant
                seqs_of(lines@) == ls,
                mesh@ == obj_read_lines(ls.take(i as int)),
        {
            assert(seqs_of(lines@)[i as int] == lines@[i as int]@);
            mesh.read_line(&lines[i]);
            assert(ls.take(i + 1).drop_last() =~= ls.take(i as int));
        }
        assert(ls.take(lines.len() as int) =~= ls);
        mesh
    }
}

} // verus!
