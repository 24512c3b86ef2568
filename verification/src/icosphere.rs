//! Create an icosphere: a unit sphere approximated by triangles, made by
//! splitting the faces of an icosahedron again and again.
//!
//! This module decides which vertices and faces the sphere has. Every vertex
//! is either one of the twelve corners of the icosahedron or the midpoint of
//! two earlier vertices, pushed out onto the sphere; the caller gives them
//! their coordinates in that order.

use std::collections::HashMap;
use vstd::arithmetic::power::pow;
use vstd::prelude::*;

verus! {

/// How a vertex of the sphere is obtained.
#[derive(Debug, Clone, Copy, PartialEq, Eq)]
pub enum Vertex {
    /// A corner of the icosahedron, by its number from 0 to 11.
    Corner(usize),
    /// The point halfway between two earlier vertices, given by their
    /// indices with the smaller first, moved onto the sphere.
    Midpoint(usize, usize),
}

/// The deepest recursion for which every vertex index still fits in 32 bits.
pub const MAX_RECURSION_LEVEL: usize = 13;

/// The twelve corners of the icosahedron.
pub open spec fn icosahedron_vertices() -> Seq<Vertex> {
    Seq::new(12, |k: int| Vertex::Corner(k as usize))
}

/// The twenty faces of the icosahedron, all wound the same way: five around
/// corner 0, the five next to them, five around corner 3 and the five next
/// to those.
pub open spec fn icosahedron_faces() -> Seq<[usize; 3]> {
    seq![
        [0usize, 11usize, 5usize],
        [0usize, 5usize, 1usize],
        [0usize, 1usize, 7usize],
        [0usize, 7usize, 10usize],
        [0usize, 10usize, 11usize],
        [1usize, 5usize, 9usize],
        [5usize, 11usize, 4usize],
        [11usize, 10usize, 2usize],
        [10usize, 7usize, 6usize],
        [7usize, 1usize, 8usize],
        [3usize, 9usize, 4usize],
        [3usize, 4usize, 2usize],
        [3usize, 2usize, 6usize],
        [3usize, 6usize, 8usize],
        [3usize, 8usize, 9usize],
        [4usize, 9usize, 5usize],
        [2usize, 4usize, 11usize],
        [6usize, 2usize, 10usize],
        [8usize, 6usize, 7usize],
        [9usize, 8usize, 1usize],
    ]
}

/// The midpoint between vertices `a` and `b`, whichever comes first.
pub open spec fn midpoint(a: usize, b: usize) -> Vertex {
    if a < b {
        Vertex::Midpoint(a, b)
    } else {
        Vertex::Midpoint(b, a)
    }
}

/// The vertices once the midpoint between `a` and `b` is among them, and its
/// index: the one it has already, or a new one at the end.
pub open spec fn with_midpoint(vertices: Seq<Vertex>, a: usize, b: usize) -> (Seq<Vertex>, usize) {
    let m = midpoint(a, b);
    if vertices.contains(m) {
        (vertices, vertices.index_of(m) as usize)
    } else {
        (vertices.push(m), vertices.len() as usize)
    }
}

/// One face replaced by four: a triangle at each corner and one in the
/// middle, between the midpoints of the three edges.
pub open spec fn subdivide_face(vertices: Seq<Vertex>, face: [usize; 3]) -> (
    Seq<Vertex>,
    Seq<[usize; 3]>,
) {
    let (v1, a) = with_midpoint(vertices, face[0], face[1]);
    let (v2, b) = with_midpoint(v1, face[1], face[2]);
    let (v3, c) = with_midpoint(v2, face[2], face[0]);
    (v3, seq![[face[0], a, c], [face[1], b, a], [face[2], c, b], [a, b, c]])
}

/// Every face replaced by four, in the order of the faces.
pub open spec fn subdivide(vertices: Seq<Vertex>, faces: Seq<[usize; 3]>) -> (
    Seq<Vertex>,
    Seq<[usize; 3]>,
)
    decreases faces.len(),
{
    if faces.len() == 0 {
        (vertices, Seq::empty())
    } else {
        let (v1, done) = subdivide(vertices, faces.drop_last());
        let (v2, four) = subdivide_face(v1, faces.last());
        (v2, done + four)
    }
}

/// The vertices and faces of the icosphere of a recursion level.
pub open spec fn icosphere(level: nat) -> (Seq<Vertex>, Seq<[usize; 3]>)
    decreases level,
{
    if level == 0 {
        (icosahedron_vertices(), icosahedron_faces())
    } else {
        let (vertices, faces) = icosphere((level - 1) as nat);
        subdivide(vertices, faces)
    }
}

/// The twelve corners come first, each later vertex is a midpoint of two
/// vertices before it, and no vertex occurs twice.
pub open spec fn well_formed(vertices: Seq<Vertex>) -> bool {
    &&& vertices.len() >= 12
    &&& forall|i: int| 0 <= i < 12 ==> #[trigger] vertices[i] == Vertex::Corner(i as usize)
    &&& forall|i: int|
        12 <= i < vertices.len() ==> match #[trigger] vertices[i] {
            Vertex::Midpoint(a, b) => a <= b < i,
            Vertex::Corner(_) => false,
        }
    &&& vertices.no_duplicates()
}

/// Every face names three vertices that exist.
pub open spec fn faces_in_range(faces: Seq<[usize; 3]>, vertex_count: int) -> bool {
    forall|i: int, k: int|
        0 <= i < faces.len() && 0 <= k < 3 ==> (#[trigger] faces[i][k]) < vertex_count
}

/// Asking for a midpoint keeps the vertices well formed and what was there,
/// adds at most one vertex, and gives the index of the midpoint.
pub proof fn lemma_with_midpoint(vertices: Seq<Vertex>, a: usize, b: usize)
    requires
        well_formed(vertices),
        a < vertices.len(),
        b < vertices.len(),
        vertices.len() < usize::MAX,
    ensures
        well_formed(with_midpoint(vertices, a, b).0),
        vertices.len() <= with_midpoint(vertices, a, b).0.len() <= vertices.len() + 1,
        with_midpoint(vertices, a, b).0.take(vertices.len() as int) == vertices,
        with_midpoint(vertices, a, b).1 < with_midpoint(vertices, a, b).0.len(),
        with_midpoint(vertices, a, b).0[with_midpoint(vertices, a, b).1 as int] == midpoint(a, b),
{
    let out = with_midpoint(vertices, a, b).0;
    if !vertices.contains(midpoint(a, b)) {
        assert forall|i: int, j: int| 0 <= i < out.len() && 0 <= j < out.len() && i != j implies out[i]
            != out[j] by {}
    }
}

/// Splitting a face keeps the vertices well formed and what was there, adds
/// at most three vertices, and gives four faces over existing vertices.
pub proof fn lemma_subdivide_face(vertices: Seq<Vertex>, face: [usize; 3])
    requires
        well_formed(vertices),
        face[0] < vertices.len(),
        face[1] < vertices.len(),
        face[2] < vertices.len(),
        vertices.len() + 3 <= usize::MAX,
    ensures
        well_formed(subdivide_face(vertices, face).0),
        vertices.len() <= subdivide_face(vertices, face).0.len() <= vertices.len() + 3,
        subdivide_face(vertices, face).0.take(vertices.len() as int) == vertices,
        subdivide_face(vertices, face).1.len() == 4,
        faces_in_range(subdivide_face(vertices, face).1, subdivide_face(vertices, face).0.len() as int),
{
    let (v1, a) = with_midpoint(vertices, face[0], face[1]);
    lemma_with_midpoint(vertices, face[0], face[1]);
    let (v2, b) = with_midpoint(v1, face[1], face[2]);
    lemma_with_midpoint(v1, face[1], face[2]);
    let (v3, c) = with_midpoint(v2, face[2], face[0]);
    lemma_with_midpoint(v2, face[2], face[0]);
    assert(v3.take(vertices.len() as int) =~= vertices);
}

/// Splitting all faces keeps the vertices well formed and what was there,
/// adds at most three vertices for each face, and gives four times as many
/// faces, all over existing vertices.
pub proof fn lemma_subdivide(vertices: Seq<Vertex>, faces: Seq<[usize; 3]>)
    requires
        well_formed(vertices),
        faces_in_range(faces, vertices.len() as int),
        vertices.len() + 3 * faces.len() <= usize::MAX,
    ensures
        well_formed(subdivide(vertices, faces).0),
        vertices.len() <= subdivide(vertices, faces).0.len() <= vertices.len() + 3 * faces.len(),
        subdivide(vertices, faces).0.take(vertices.len() as int) == vertices,
        subdivide(vertices, faces).1.len() == 4 * faces.len(),
        faces_in_range(subdivide(vertices, faces).1, subdivide(vertices, faces).0.len() as int),
    decreases faces.len(),
{
    if faces.len() > 0 {
        let init = faces.drop_last();
        let face = faces.last();
        assert(faces_in_range(init, vertices.len() as int));
        lemma_subdivide(vertices, init);
        let (v1, done) = subdivide(vertices, init);
        lemma_subdivide_face(v1, face);
        let (v2, four) = subdivide_face(v1, face);
        assert(v2.take(vertices.len() as int) =~= vertices);
        assert(faces_in_range(done + four, v2.len() as int));
    }
}

/// The icosahedron has 12 vertices and 20 faces. Each level of recursion
/// multiplies the number of faces by four, so level `n` has `20 * 4^n` of
/// them. At every level each face names three vertices that exist, and each
/// vertex beyond the twelve corners is the midpoint of two earlier ones.
pub proof fn lemma_icosphere(level: nat)
    requires
        level <= MAX_RECURSION_LEVEL,
    ensures
        level == 0 ==> icosphere(level).0.len() == 12,
        icosphere(level).1.len() == 20 * pow(4, level),
        12 <= icosphere(level).0.len() <= 20 * pow(4, level) - 8,
        20 * pow(4, level) <= 0x5000_0000,
        well_formed(icosphere(level).0),
        faces_in_range(icosphere(level).1, icosphere(level).0.len() as int),
    decreases level,
{
    lemma_pow4_bound(level);
    if level == 0 {
        vstd::arithmetic::power::lemma_pow0(4);
        let faces = icosahedron_faces();
        assert(faces_in_range(faces, 12)) by {
            assert forall|i: int, k: int| 0 <= i < faces.len() && 0 <= k < 3 implies (#[trigger] faces[i][k])
                < 12 by {
                lemma_icosahedron_face(i);
            }
        }
    } else {
        let prev = (level - 1) as nat;
        lemma_icosphere(prev);
        lemma_pow4_bound(prev);
        assert(pow(4, level) == 4 * pow(4, prev)) by {
            vstd::arithmetic::power::lemma_pow_adds(4, 1, prev);
            vstd::arithmetic::power::lemma_pow1(4);
        }
        let (vertices, faces) = icosphere(prev);
        lemma_subdivide(vertices, faces);
    }
}

/// Each face of the icosahedron names three of its twelve corners.
proof fn lemma_icosahedron_face(i: int)
    requires
        0 <= i < 20,
    ensures
        icosahedron_faces()[i][0] < 12,
        icosahedron_faces()[i][1] < 12,
        icosahedron_faces()[i][2] < 12,
{
}

/// Up to the deepest level the number of faces stays far inside 32 bits.
proof fn lemma_pow4_bound(level: nat)
    requires
        level <= MAX_RECURSION_LEVEL,
    ensures
        1 <= pow(4, level) <= 0x400_0000,
    decreases level,
{
    if level == 0 {
        vstd::arithmetic::power::lemma_pow0(4);
    } else {
        lemma_pow4_bound((level - 1) as nat);
        vstd::arithmetic::power::lemma_pow_adds(4, 1, (level - 1) as nat);
        vstd::arithmetic::power::lemma_pow1(4);
        if level < 13 {
            lemma_pow4_step(level);
        } else {
            lemma_pow4_thirteen();
        }
    }
}

/// Below the deepest level there is room for one more multiplication by four.
proof fn lemma_pow4_step(level: nat)
    requires
        0 < level < 13,
    ensures
        4 * pow(4, (level - 1) as nat) <= 0x400_0000,
{
    lemma_pow4_thirteen();
    vstd::arithmetic::power::lemma_pow_increases(4, (level - 1) as nat, 12);
}

/// The twelfth and thirteenth powers of four.
proof fn lemma_pow4_thirteen()
    ensures
        pow(4, 12) == 0x100_0000,
        pow(4, 13) == 0x400_0000,
{
    reveal_with_fuel(pow, 14);
}

/// The key under which the cache holds the midpoint between vertices `a` and
/// `b`, where `a` is the smaller: `a` in the upper 32 bits, `b` in the lower.
pub open spec fn cache_key(a: usize, b: usize) -> u64 {
    (a as int * 0x1_0000_0000 + b as int) as u64
}

/// The cache holds exactly the midpoints among the vertices, each under its
/// key with its index.
pub open spec fn cache_matches(cache: Map<u64, usize>, vertices: Seq<Vertex>) -> bool {
    &&& forall|i: int|
        12 <= i < vertices.len() ==> match #[trigger] vertices[i] {
            Vertex::Midpoint(a, b) => cache.contains_key(cache_key(a, b)) && cache[cache_key(a, b)]
                == i,
            Vertex::Corner(_) => true,
        }
    &&& forall|key: u64| #[trigger]
        cache.contains_key(key) ==> 12 <= cache[key] < vertices.len() && match vertices[cache[key] as int] {
            Vertex::Midpoint(a, b) => cache_key(a, b) == key,
            Vertex::Corner(_) => false,
        }
}

/// Two pairs of 32-bit indices with the same key are the same pair.
proof fn lemma_cache_key_injective(a: usize, b: usize, c: usize, d: usize)
    requires
        a < 0x1_0000_0000,
        b < 0x1_0000_0000,
        c < 0x1_0000_0000,
        d < 0x1_0000_0000,
        cache_key(a, b) == cache_key(c, d),
    ensures
        a == c,
        b == d,
{
}

/// Return the index of the point in the middle of p1 and p2, adding it to
/// the vertices where it is not among them yet.
fn get_middle_point(
    vertices: &mut Vec<Vertex>,
    cache: &mut HashMap<u64, usize>,
    p1: usize,
    p2: usize,
) -> (index: usize)
    requires
        well_formed(old(vertices)@),
        cache_matches(old(cache)@, old(vertices)@),
        p1 < old(vertices)@.len(),
        p2 < old(vertices)@.len(),
        old(vertices)@.len() < 0x7fff_ffff,
    ensures
        (final(vertices)@, index) == with_midpoint(old(vertices)@, p1, p2),
        cache_matches(final(cache)@, final(vertices)@),
{
    broadcast use vstd::std_specs::hash::group_hash_axioms;

    let first_is_smaller = p1 < p2;
    let smaller: u64 = if first_is_smaller { p1 } else { p2 } as u64;
    let greater: u64 = if first_is_smaller { p2 } else { p1 } as u64;
    assert(smaller << 32 == smaller * 0x1_0000_0000) by (bit_vector)
        requires
            smaller < 0x1_0000_0000,
    ;
    let key: u64 = (smaller << 32) + greater;

    match cache.get(&key) {
        Some(val) => {
            let index = *val;
            proof {
                let found = vertices@[index as int];
                match found {
                    Vertex::Midpoint(a, b) => {
                        lemma_cache_key_injective(a, b, smaller as usize, greater as usize);
                    },
                    Vertex::Corner(_) => {},
                }
            }
            return index;
        },
        None => {},
    }

    // not in cache
    proof {
        lemma_with_midpoint(vertices@, p1, p2);
    }
    let ghost before = vertices@;
    vertices.push(Vertex::Midpoint(smaller as usize, greater as usize));
    let l = vertices.len() - 1;
    cache.insert(key, l);
    proof {
        assert forall|i: int| 12 <= i < vertices@.len() implies match #[trigger] vertices@[i] {
            Vertex::Midpoint(a, b) => cache@.contains_key(cache_key(a, b)) && cache@[cache_key(a, b)]
                == i,
            Vertex::Corner(_) => true,
        } by {
            if i < before.len() {
                match before[i] {
                    Vertex::Midpoint(a, b) => {
                        if cache_key(a, b) == key {
                            lemma_cache_key_injective(a, b, smaller as usize, greater as usize);
                        }
                    },
                    Vertex::Corner(_) => {},
                }
            }
        }
    }
    l
}

/// Create an icosphere of radius 1 at the origin, with a given recursion
/// level (level of detail): its vertices and its faces. Level 0 is the
/// icosahedron; each further level splits every face into four.
pub fn create_icosphere(recursion_level: usize) -> (sphere: (Vec<Vertex>, Vec<[usize; 3]>))
    requires
        recursion_level <= MAX_RECURSION_LEVEL,
    ensures
        (sphere.0@, sphere.1@) == icosphere(recursion_level as nat),
        sphere.1@.len() == 20 * pow(4, recursion_level as nat),
        faces_in_range(sphere.1@, sphere.0@.len() as int),
{
    let mut vertices: Vec<Vertex> = Vec::new();
    let mut faces: Vec<[usize; 3]> = Vec::new();

    // create 12 vertices of icosahedron
    let mut k: usize = 0;
    while k < 12
        invariant
            k <= 12,
            vertices@.len() == k,
            forall|i: int| 0 <= i < k ==> vertices@[i] == Vertex::Corner(i as usize),
        decreases 12 - k,
    {
        vertices.push(Vertex::Corner(k));
        k += 1;
    }

    // create 20 triangles of the icosahedron
    // 5 faces around point 0
    faces.push([0, 11, 5]);
    faces.push([0, 5, 1]);
    faces.push([0, 1, 7]);
    faces.push([0, 7, 10]);
    faces.push([0, 10, 11]);

    // 5 adjacent faces
    faces.push([1, 5, 9]);
    faces.push([5, 11, 4]);
    faces.push([11, 10, 2]);
    faces.push([10, 7, 6]);
    faces.push([7, 1, 8]);

    // 5 faces around point 3
    faces.push([3, 9, 4]);
    faces.push([3, 4, 2]);
    faces.push([3, 2, 6]);
    faces.push([3, 6, 8]);
    faces.push([3, 8, 9]);

    // 5 adjacent faces
    faces.push([4, 9, 5]);
    faces.push([2, 4, 11]);
    faces.push([6, 2, 10]);
    faces.push([8, 6, 7]);
    faces.push([9, 8, 1]);

    // refine triangles
    let mut cache: HashMap<u64, usize> = HashMap::new();
    let mut level: usize = 0;
    while level < recursion_level
        invariant
            level <= recursion_level <= MAX_RECURSION_LEVEL,
            (vertices@, faces@) == icosphere(level as nat),
            cache_matches(cache@, vertices@),
        decreases recursion_level - level,
    {
        let ghost start = vertices@;
        proof {
            lemma_icosphere(level as nat);
            lemma_icosphere((level + 1) as nat);
            vstd::arithmetic::power::lemma_pow_adds(4, 1, level as nat);
            vstd::arithmetic::power::lemma_pow1(4);
        }
        let mut faces_temp: Vec<[usize; 3]> = Vec::new();
        let mut f: usize = 0;
        while f < faces.len()
            invariant
                f <= faces@.len(),
                well_formed(start),
                faces_in_range(faces@, start.len() as int),
                start.len() + 3 * faces@.len() <= 0x7000_0000,
                (vertices@, faces_temp@) == subdivide(start, faces@.take(f as int)),
                cache_matches(cache@, vertices@),
            decreases faces@.len() - f,
        {
            let face = faces[f];
            proof {
                let done = faces@.take(f as int);
                assert(faces_in_range(done, start.len() as int));
                lemma_subdivide(start, done);
                lemma_with_midpoint(vertices@, face[0], face[1]);
                let (v1, a) = with_midpoint(vertices@, face[0], face[1]);
                lemma_with_midpoint(v1, face[1], face[2]);
                let (v2, b) = with_midpoint(v1, face[1], face[2]);
                lemma_with_midpoint(v2, face[2], face[0]);
            }
            // replace triangle by 4 triangles
            let a = get_middle_point(&mut vertices, &mut cache, face[0], face[1]);
            let b = get_middle_point(&mut vertices, &mut cache, face[1], face[2]);
            let c = get_middle_point(&mut vertices, &mut cache, face[2], face[0]);

            faces_temp.push([face[0], a, c]);
            faces_temp.push([face[1], b, a]);
            faces_temp.push([face[2], c, b]);
            faces_temp.push([a, b, c]);
            proof {
                assert(faces@.take(f + 1).drop_last() == faces@.take(f as int));
            }
            f += 1;
        }
        proof {
            assert(faces@.take(f as int) == faces@);
        }
        faces = faces_temp;
        level += 1;
    }
    proof {
        lemma_icosphere(recursion_level as nat);
    }
    (vertices, faces)
}

} // verus!
