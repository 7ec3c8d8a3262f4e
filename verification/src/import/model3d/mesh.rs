//! The triangles a model draws: each face of three or more vertices is cut
//! into a fan around its first vertex, and triangles that name a vertex the
//! model does not have are left out.
use super::{FaceData, FaceVertex, Model3DFile};
use vstd::prelude::*;

verus! {

/// One corner of a drawn triangle: the vertex, the position of its face
/// vertex in the model's face-vertex order (where vertex normal indices are
/// looked up), and its texture coordinates.
#[derive(Debug, Clone, Copy)]
pub struct Corner {
    pub vertex: usize,
    pub face_vertex: usize,
    pub u: i16,
    pub v: i16,
}

/// A drawn triangle of face `face`.
#[derive(Debug, Clone, Copy)]
pub struct Triangle {
    pub face: usize,
    pub corners: [Corner; 3],
}

/// A corner as values.
pub struct CornerView {
    pub vertex: int,
    pub face_vertex: int,
    pub u: int,
    pub v: int,
}

/// The corner for face vertex `fv` at position `pos`.
pub open spec fn corner_at(fv: FaceVertex, pos: int) -> CornerView {
    CornerView { vertex: fv.vertex_index as int, face_vertex: pos, u: fv.u as int, v: fv.v as int }
}

/// A corner as values.
pub open spec fn corner_view(c: Corner) -> CornerView {
    CornerView { vertex: c.vertex as int, face_vertex: c.face_vertex as int, u: c.u as int, v: c.v as int }
}

/// A triangle as values.
pub open spec fn triangle_view(t: Triangle) -> (int, Seq<CornerView>) {
    (t.face as int, t.corners@.map_values(|c: Corner| corner_view(c)))
}

/// Number of face vertices of the faces before `f`.
pub open spec fn face_vertex_base(faces: Seq<FaceData>, f: int) -> int
    decreases f,
{
    if f <= 0 {
        0
    } else {
        face_vertex_base(faces, f - 1) + faces[f - 1].face_vertices@.len()
    }
}

/// The fan triangles of face `f`, from the one on vertices `i` and `i + 1`
/// on: each has the corners 0, `i + 1`, `i` (in that order), and is drawn
/// when all three name one of the `n` vertices.
pub open spec fn fan_from(face: FaceData, f: int, base: int, n: int, i: int) -> Seq<(int, Seq<CornerView>)>
    decreases face.face_vertices@.len() - i,
{
    let fvs = face.face_vertices@;
    if i < 1 || i + 1 >= fvs.len() {
        Seq::empty()
    } else {
        let here = if fvs[0].vertex_index < n && fvs[i + 1].vertex_index < n && fvs[i].vertex_index < n {
            seq![(f, seq![corner_at(fvs[0], base), corner_at(fvs[i + 1], base + i + 1), corner_at(fvs[i], base + i)])]
        } else {
            Seq::empty()
        };
        here + fan_from(face, f, base, n, i + 1)
    }
}

/// The triangles of the faces from `f` on, of a model with `n` vertices.
pub open spec fn triangles_from(faces: Seq<FaceData>, f: int, n: int) -> Seq<(int, Seq<CornerView>)>
    decreases faces.len() - f,
{
    if f < 0 || f >= faces.len() {
        Seq::empty()
    } else {
        fan_from(faces[f], f, face_vertex_base(faces, f), n, 1) + triangles_from(faces, f + 1, n)
    }
}

/// The triangles a model draws, face by face.
pub open spec fn model_triangles(m: Model3DFile) -> Seq<(int, Seq<CornerView>)> {
    triangles_from(m.face_data@, 0, m.vertex_coords@.len() as int)
}

proof fn lemma_base_grows(faces: Seq<FaceData>, a: int, b: int)
    requires
        0 <= a <= b <= faces.len(),
    ensures
        face_vertex_base(faces, a) <= face_vertex_base(faces, b),
    decreases b - a,
{
    if a < b {
        lemma_base_grows(faces, a, b - 1);
    }
}

fn corner(fv: FaceVertex, pos: usize) -> (r: Corner)
    ensures
        corner_view(r) == corner_at(fv, pos as int),
{
    Corner { vertex: fv.vertex_index as usize, face_vertex: pos, u: fv.u, v: fv.v }
}

/// The triangles a model draws, face by face; the model's face-vertex total
/// fits in `usize`, as it does for any model held in memory.
pub fn model_triangles_of(model: &Model3DFile) -> (r: Vec<Triangle>)
    requires
        face_vertex_base(model.face_data@, model.face_data@.len() as int) <= usize::MAX,
    ensures
        r@.map_values(|t: Triangle| triangle_view(t)) == model_triangles(*model),
{
    let ghost faces = model.face_data@;
    let n: usize = model.vertex_coords.len();
    let mut out: Vec<Triangle> = Vec::new();
    let mut base: usize = 0;
    let mut f: usize = 0;
    assert(out@.map_values(|t: Triangle| triangle_view(t)) =~= Seq::<(int, Seq<CornerView>)>::empty());
    while f < model.face_data.len()
        invariant
            faces == model.face_data@,
            n == model.vertex_coords@.len(),
            f <= faces.len(),
            base == face_vertex_base(faces, f as int),
            face_vertex_base(faces, faces.len() as int) <= usize::MAX,
            model_triangles(*model) == out@.map_values(|t: Triangle| triangle_view(t)) + triangles_from(
                faces,
                f as int,
                n as int,
            ),
        decreases faces.len() - f,
    {
        let face = &model.face_data[f];
        let len: usize = face.face_vertices.len();
        proof {
            lemma_base_grows(faces, f + 1, faces.len() as int);
        }
        let ghost before = out@.map_values(|t: Triangle| triangle_view(t));
        if len >= 3 {
            let v0 = face.face_vertices[0];
            let mut i: usize = 1;
            while i + 1 < len
                invariant
                    1 <= i,
                    i + 1 <= len || len < 2,
                    len == face.face_vertices@.len(),
                    len >= 3,
                    v0 == face.face_vertices@[0],
                    n == model.vertex_coords@.len(),
                    base + len <= usize::MAX,
                    before + fan_from(*face, f as int, base as int, n as int, 1) == out@.map_values(
                        |t: Triangle| triangle_view(t),
                    ) + fan_from(*face, f as int, base as int, n as int, i as int),
                decreases len - i,
            {
                let v1 = face.face_vertices[i];
                let v2 = face.face_vertices[i + 1];
                let ghost mid = out@.map_values(|t: Triangle| triangle_view(t));
                if (v0.vertex_index as usize) < n && (v2.vertex_index as usize) < n && (v1.vertex_index as usize)
                    < n {
                    let t = Triangle { face: f, corners: [corner(v0, base), corner(v2, base + i + 1), corner(v1, base + i)] };
                    proof {
                        assert(t.corners@.map_values(|c: Corner| corner_view(c)) =~= seq![
                            corner_at(v0, base as int),
                            corner_at(v2, base + i + 1),
                            corner_at(v1, base + i),
                        ]);
                        assert(out@.push(t).map_values(|t: Triangle| triangle_view(t)) =~= mid.push(triangle_view(t)));
                    }
                    out.push(t);
                    assert(mid + fan_from(*face, f as int, base as int, n as int, i as int) =~= out@.map_values(
                        |t: Triangle| triangle_view(t),
                    ) + fan_from(*face, f as int, base as int, n as int, i + 1));
                } else {
                    assert(fan_from(*face, f as int, base as int, n as int, i as int) =~= fan_from(
                        *face,
                        f as int,
                        base as int,
                        n as int,
                        i + 1,
                    ));
                }
                i += 1;
            }
            assert(fan_from(*face, f as int, base as int, n as int, i as int) =~= Seq::<(int, Seq<CornerView>)>::empty());
        } else {
            assert(fan_from(*face, f as int, base as int, n as int, 1) =~= Seq::<(int, Seq<CornerView>)>::empty());
        }
        proof {
            assert(triangles_from(faces, f as int, n as int) == fan_from(faces[f as int], f as int, base as int, n as int, 1)
                + triangles_from(faces, f + 1, n as int));
            assert(before + (fan_from(*face, f as int, base as int, n as int, 1) + triangles_from(faces, f + 1, n as int))
                =~= (before + fan_from(*face, f as int, base as int, n as int, 1)) + triangles_from(faces, f + 1, n as int));
        }
        base = base + len;
        f += 1;
    }
    assert(triangles_from(faces, f as int, n as int) =~= Seq::<(int, Seq<CornerView>)>::empty());
    assert(out@.map_values(|t: Triangle| triangle_view(t)) + Seq::<(int, Seq<CornerView>)>::empty() =~= out@.map_values(
        |t: Triangle| triangle_view(t),
    ));
    out
}

} // verus!
