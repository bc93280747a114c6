//! Welding of triangle meshes: vertices at one position become one vertex,
//! and the triangles that this collapses or repeats are dropped.
use vstd::prelude::*;

use crate::threemf::{Triangle, Vertex};
use std::collections::HashMap;

verus! {

/// The bit pattern of the `f64` value negative zero.
pub const NEGATIVE_ZERO_BITS: u64 = 0x8000_0000_0000_0000;

/// The welding key of one coordinate: positive and negative zero compare
/// equal as numbers and share a key, every other value keeps its bits.
pub open spec fn canonical_bits(bits: u64) -> u64 {
    if bits == NEGATIVE_ZERO_BITS {
        0
    } else {
        bits
    }
}

/// The welding key of a vertex: two vertices are welded when their keys agree.
pub open spec fn weld_key(v: Vertex) -> (u64, u64, u64) {
    (canonical_bits(v.x), canonical_bits(v.y), canonical_bits(v.z))
}

/// The first vertex of each welding key, in the order of first occurrence.
pub open spec fn unique_vertices(vs: Seq<Vertex>) -> Seq<Vertex>
    decreases vs.len(),
{
    if vs.len() == 0 {
        seq![]
    } else {
        let prev = unique_vertices(vs.drop_last());
        if prev.map_values(|u: Vertex| weld_key(u)).contains(weld_key(vs.last())) {
            prev
        } else {
            prev.push(vs.last())
        }
    }
}

/// The welding keys of the unique vertices.
pub open spec fn unique_keys(vs: Seq<Vertex>) -> Seq<(u64, u64, u64)> {
    unique_vertices(vs).map_values(|u: Vertex| weld_key(u))
}

/// Where input vertex `i` lands among the unique vertices.
pub open spec fn weld_index(vs: Seq<Vertex>, i: int) -> int {
    unique_keys(vs).index_of(weld_key(vs[i]))
}

/// A triangle with its corners moved onto the unique vertices.
pub open spec fn remapped(vs: Seq<Vertex>, t: Triangle) -> Triangle {
    Triangle {
        v1: weld_index(vs, t.v1 as int) as usize,
        v2: weld_index(vs, t.v2 as int) as usize,
        v3: weld_index(vs, t.v3 as int) as usize,
    }
}

/// A triangle with two equal corners encloses no area.
pub open spec fn degenerate(t: Triangle) -> bool {
    t.v1 == t.v2 || t.v2 == t.v3 || t.v1 == t.v3
}

pub open spec fn min3(a: usize, b: usize, c: usize) -> usize {
    if a <= b && a <= c {
        a
    } else if b <= c {
        b
    } else {
        c
    }
}

pub open spec fn max3(a: usize, b: usize, c: usize) -> usize {
    if a >= b && a >= c {
        a
    } else if b >= c {
        b
    } else {
        c
    }
}

/// The corners of a triangle in ascending order.
pub open spec fn sorted_corners(t: Triangle) -> (usize, usize, usize) {
    let lo = min3(t.v1, t.v2, t.v3);
    let hi = max3(t.v1, t.v2, t.v3);
    let mid = (t.v1 + t.v2 + t.v3 - lo - hi) as usize;
    (lo, mid, hi)
}

/// Two triangles over the same three corners, in whatever order.
pub open spec fn same_corners(a: Triangle, b: Triangle) -> bool {
    sorted_corners(a) == sorted_corners(b)
}

/// Drops the degenerate triangles and every triangle whose corners a kept
/// triangle before it already has.
pub open spec fn clean_triangles(ts: Seq<Triangle>) -> Seq<Triangle>
    decreases ts.len(),
{
    if ts.len() == 0 {
        seq![]
    } else {
        let prev = clean_triangles(ts.drop_last());
        let t = ts.last();
        if degenerate(t) || exists|k: int| 0 <= k < prev.len() && same_corners(prev[k], t) {
            prev
        } else {
            prev.push(t)
        }
    }
}

/// `u` is a corner of `t`.
pub open spec fn has_corner(t: Triangle, u: int) -> bool {
    t.v1 == u || t.v2 == u || t.v3 == u
}

/// Some triangle of `ts` has corner `u`.
pub open spec fn used(ts: Seq<Triangle>, u: int) -> bool {
    exists|k: int| 0 <= k < ts.len() && has_corner(ts[k], u)
}

/// How many of the vertices `0..n` some triangle of `ts` uses.
pub open spec fn count_used(ts: Seq<Triangle>, n: int) -> nat
    decreases n,
{
    if n <= 0 {
        0
    } else {
        count_used(ts, n - 1) + if used(ts, n - 1) {
            1nat
        } else {
            0nat
        }
    }
}

/// The vertices among the first `n` of `uv` that some triangle of `ts` uses.
pub open spec fn used_vertices(uv: Seq<Vertex>, ts: Seq<Triangle>, n: int) -> Seq<Vertex>
    decreases n,
{
    if n <= 0 {
        seq![]
    } else {
        let prev = used_vertices(uv, ts, n - 1);
        if used(ts, n - 1) {
            prev.push(uv[n - 1])
        } else {
            prev
        }
    }
}

/// A triangle with its corners renumbered over the used vertices only.
pub open spec fn compacted(ts: Seq<Triangle>, t: Triangle) -> Triangle {
    Triangle {
        v1: count_used(ts, t.v1 as int) as usize,
        v2: count_used(ts, t.v2 as int) as usize,
        v3: count_used(ts, t.v3 as int) as usize,
    }
}

/// The triangles that survive welding, over the unique vertices.
pub open spec fn welded_corners(vs: Seq<Vertex>, ts: Seq<Triangle>) -> Seq<Triangle> {
    clean_triangles(ts.map_values(|t: Triangle| remapped(vs, t)))
}

/// The vertices of the welded mesh.
pub open spec fn welded_vertices(vs: Seq<Vertex>, ts: Seq<Triangle>) -> Seq<Vertex> {
    let uv = unique_vertices(vs);
    used_vertices(uv, welded_corners(vs, ts), uv.len() as int)
}

/// The triangles of the welded mesh.
pub open spec fn welded_triangles(vs: Seq<Vertex>, ts: Seq<Triangle>) -> Seq<Triangle> {
    let cleaned = welded_corners(vs, ts);
    cleaned.map_values(|t: Triangle| compacted(cleaned, t))
}

/// Every corner of every triangle indexes into a list of `n` vertices.
pub open spec fn corners_below(ts: Seq<Triangle>, n: int) -> bool {
    forall|k: int|
        0 <= k < ts.len() ==> (#[trigger] ts[k]).v1 < n && ts[k].v2 < n && ts[k].v3 < n
}

/// The welding key of one coordinate.
pub fn canonical(bits: u64) -> (key: u64)
    ensures
        key == canonical_bits(bits),
{
    if bits == NEGATIVE_ZERO_BITS {
        0
    } else {
        bits
    }
}

fn same_key(a: &Vertex, b: &Vertex) -> (same: bool)
    ensures
        same == (weld_key(*a) == weld_key(*b)),
{
    canonical(a.x) == canonical(b.x) && canonical(a.y) == canonical(b.y) && canonical(a.z)
        == canonical(b.z)
}


/// The unique keys never repeat.
proof fn lemma_unique_keys_distinct(vs: Seq<Vertex>)
    ensures
        unique_keys(vs).no_duplicates(),
        unique_vertices(vs).len() <= vs.len(),
    decreases vs.len(),
{
    if vs.len() > 0 {
        let prev = vs.drop_last();
        lemma_unique_keys_distinct(prev);
        let up = unique_vertices(prev);
        assert(up.push(vs.last()).map_values(|u: Vertex| weld_key(u)) =~= up.map_values(
            |u: Vertex| weld_key(u),
        ).push(weld_key(vs.last())));
    }
}

/// Every input vertex has its key among the unique keys, at the position
/// `weld_index` names.
proof fn lemma_weld_index(vs: Seq<Vertex>, i: int)
    requires
        0 <= i < vs.len(),
    ensures
        0 <= weld_index(vs, i) < unique_vertices(vs).len(),
        weld_key(unique_vertices(vs)[weld_index(vs, i)]) == weld_key(vs[i]),
    decreases vs.len(),
{
    lemma_weld_key_present(vs, i);
    let keys = unique_keys(vs);
    assert(keys.contains(weld_key(vs[i])));
}

proof fn lemma_weld_key_present(vs: Seq<Vertex>, i: int)
    requires
        0 <= i < vs.len(),
    ensures
        unique_keys(vs).contains(weld_key(vs[i])),
    decreases vs.len(),
{
    let prev = vs.drop_last();
    if i < vs.len() - 1 {
        lemma_weld_key_present(prev, i);
        let k = choose|k: int| 0 <= k < unique_keys(prev).len() && unique_keys(prev)[k] == weld_key(vs[i]);
        assert(unique_keys(vs)[k] == weld_key(vs[i]));
    } else {
        if !unique_keys(prev).contains(weld_key(vs.last())) {
            assert(unique_keys(vs)[unique_keys(vs).len() - 1] == weld_key(vs[i]));
        }
    }
}

/// In a list without repeats the position of an element is the one where it sits.
proof fn lemma_index_of_distinct<A>(s: Seq<A>, i: int)
    requires
        s.no_duplicates(),
        0 <= i < s.len(),
    ensures
        s.index_of(s[i]) == i,
{
    assert(s.contains(s[i]));
}

/// Spreads three words over one: the bucket that items with these words go
/// to. Equal words always share a bucket.
pub open spec fn mix(a: u64, b: u64, c: u64) -> u64 {
    a ^ ((b << 21u64) | (b >> 43u64)) ^ ((c << 42u64) | (c >> 22u64))
}

fn mix_words(a: u64, b: u64, c: u64) -> (m: u64)
    ensures
        m == mix(a, b, c),
{
    a ^ ((b << 21u64) | (b >> 43u64)) ^ ((c << 42u64) | (c >> 22u64))
}

/// The bucket of a vertex: that of its welding key.
pub open spec fn vertex_bucket(v: Vertex) -> u64 {
    mix(weld_key(v).0, weld_key(v).1, weld_key(v).2)
}

/// The bucket of a triangle: that of its sorted corners.
pub open spec fn triangle_bucket(t: Triangle) -> u64 {
    mix(sorted_corners(t).0 as u64, sorted_corners(t).1 as u64, sorted_corners(t).2 as u64)
}

/// Item numbers grouped by bucket, so that a lookup only compares the items
/// of one bucket.
struct Buckets {
    map: HashMap<u64, Vec<usize>>,
}

impl Buckets {
    /// Item `u` has bucket `hs[u]`; every item is listed in its bucket, and a
    /// bucket lists only items of its own.
    spec fn indexes(&self, hs: Seq<u64>) -> bool {
        &&& forall|u: int|
            0 <= u < hs.len() ==> self.map@.contains_key(#[trigger] hs[u])
                && self.map@[hs[u]]@.contains(u as usize)
        &&& forall|b: u64, i: int|
            #![trigger self.map@[b]@[i]]
            self.map@.contains_key(b) && 0 <= i < self.map@[b]@.len() ==> self.map@[b]@[i]
                < hs.len() && hs[self.map@[b]@[i] as int] == b
    }

    fn new() -> (buckets: Self)
        ensures
            buckets.indexes(Seq::empty()),
    {
        Buckets { map: HashMap::new() }
    }

    /// The items of bucket `b`.
    fn items(&self, b: u64) -> (items: Option<&Vec<usize>>)
        ensures
            match items {
                Some(l) => self.map@.contains_key(b) && *l == self.map@[b],
                None => !self.map@.contains_key(b),
            },
    {
        broadcast use vstd::std_specs::hash::group_hash_axioms;

        self.map.get(&b)
    }

    /// Lists the next item, number `hs.len()`, in bucket `b`.
    fn add(&mut self, Ghost(hs): Ghost<Seq<u64>>, n: usize, b: u64)
        requires
            old(self).indexes(hs),
            n == hs.len(),
        ensures
            final(self).indexes(hs.push(b)),
    {
        broadcast use vstd::std_specs::hash::group_hash_axioms;

        let ghost before = self.map@;
        let mut list = match self.map.remove(&b) {
            Some(l) => l,
            None => Vec::new(),
        };
        let ghost old_list = list@;
        list.push(n);
        self.map.insert(b, list);
        proof {
            let hs2 = hs.push(b);
            let m = self.map@;
            assert(m == before.insert(b, list));
            assert forall|u: int| 0 <= u < hs2.len() implies m.contains_key(#[trigger] hs2[u])
                && m[hs2[u]]@.contains(u as usize) by {
                if u == hs.len() {
                    assert(list@[list@.len() - 1] == u as usize);
                } else {
                    assert(hs2[u] == hs[u]);
                    assert(before.contains_key(hs[u]) && before[hs[u]]@.contains(u as usize));
                    if hs[u] == b {
                        let k = choose|k: int|
                            0 <= k < before[b]@.len() && before[b]@[k] == u as usize;
                        assert(list@[k] == u as usize);
                    }
                }
            }
            assert forall|c: u64, i: int|
                #![trigger m[c]@[i]]
                m.contains_key(c) && 0 <= i < m[c]@.len() implies m[c]@[i] < hs2.len()
                && hs2[m[c]@[i] as int] == c by {
                if c == b {
                    if i < old_list.len() {
                        assert(before.contains_key(b));
                        assert(m[c]@[i] == before[b]@[i]);
                    }
                } else {
                    assert(m[c] == before[c]);
                }
            }
        }
    }
}

/// Finds the unique vertex that shares the welding key of `v`.
fn find_unique(unique: &Vec<Vertex>, buckets: &Buckets, v: &Vertex) -> (found: Option<usize>)
    requires
        buckets.indexes(unique@.map_values(|u: Vertex| vertex_bucket(u))),
    ensures
        match found {
            Some(u) => u < unique.len() && weld_key(unique@[u as int]) == weld_key(*v),
            None => !unique@.map_values(|u: Vertex| weld_key(u)).contains(weld_key(*v)),
        },
{
    let ghost hs = unique@.map_values(|u: Vertex| vertex_bucket(u));
    let b = mix_words(canonical(v.x), canonical(v.y), canonical(v.z));
    let items = match buckets.items(b) {
        Some(l) => l,
        None => {
            proof {
                let m = unique@.map_values(|u: Vertex| weld_key(u));
                assert forall|k: int| 0 <= k < m.len() implies m[k] != weld_key(*v) by {
                    assert(hs[k] == vertex_bucket(unique@[k]));
                }
            }
            return None;
        },
    };
    let mut i: usize = 0;
    while i < items.len()
        invariant
            i <= items.len(),
            buckets.indexes(hs),
            hs == unique@.map_values(|u: Vertex| vertex_bucket(u)),
            buckets.map@.contains_key(b),
            *items == buckets.map@[b],
            b == vertex_bucket(*v),
            forall|k: int| 0 <= k < i ==> weld_key(unique@[#[trigger] items@[k] as int]) != weld_key(*v),
        decreases items.len() - i,
    {
        let u = items[i];
        assert(items@[i as int] == buckets.map@[b]@[i as int]);
        if same_key(&unique[u], v) {
            return Some(u);
        }
        i += 1;
    }
    proof {
        let m = unique@.map_values(|u: Vertex| weld_key(u));
        assert(m.len() == unique@.len());
        assert forall|k: int| 0 <= k < m.len() implies m[k] != weld_key(*v) by {
            if m[k] == weld_key(*v) {
                assert(m[k] == weld_key(unique@[k]));
                assert(hs[k] == vertex_bucket(unique@[k]));
                assert(hs[k] == b);
                assert(k < unique.len());
                assert((k as usize) as int == k);
                assert(buckets.map@[hs[k]]@.contains(k as usize));
                let j = choose|j: int| 0 <= j < items@.len() && items@[j] == k as usize;
                assert(items@[j] as int == k);
                assert(weld_key(unique@[items@[j] as int]) != weld_key(*v));
            }
        }
    }
    None
}

/// Keeps the first vertex of each welding key and tells, for every input
/// vertex, which unique vertex it became.
fn dedup_vertices(vertices: &Vec<Vertex>) -> (res: (Vec<Vertex>, Vec<usize>))
    ensures
        res.0@ == unique_vertices(vertices@),
        res.1.len() == vertices.len(),
        forall|j: int| 0 <= j < vertices.len() ==> res.1@[j] == weld_index(vertices@, j),
{
    let ghost vs = vertices@;
    let mut unique: Vec<Vertex> = Vec::new();
    let mut remap: Vec<usize> = Vec::new();
    let mut buckets = Buckets::new();
    assert(unique@.map_values(|u: Vertex| vertex_bucket(u)) =~= Seq::<u64>::empty());
    let mut i: usize = 0;
    while i < vertices.len()
        invariant
            i <= vertices.len(),
            vs == vertices@,
            buckets.indexes(unique@.map_values(|u: Vertex| vertex_bucket(u))),
            unique.len() <= i,
            unique@ == unique_vertices(vs.take(i as int)),
            remap.len() == i,
            forall|j: int|
                0 <= j < i ==> (#[trigger] remap@[j]) < unique.len() && weld_key(
                    unique@[remap@[j] as int],
                ) == weld_key(vs[j]),
        decreases vertices.len() - i,
    {
        let v = vertices[i];
        assert(vs.take(i + 1).drop_last() =~= vs.take(i as int));
        assert(vs.take(i + 1).last() == v);
        match find_unique(&unique, &buckets, &v) {
            Some(u) => {
                assert(unique@.map_values(|u: Vertex| weld_key(u))[u as int] == weld_key(v));
                remap.push(u);
            },
            None => {
                let ghost hs = unique@.map_values(|u: Vertex| vertex_bucket(u));
                let b = mix_words(canonical(v.x), canonical(v.y), canonical(v.z));
                buckets.add(Ghost(hs), unique.len(), b);
                remap.push(unique.len());
                unique.push(v);
                assert(unique@.map_values(|u: Vertex| vertex_bucket(u)) =~= hs.push(b));
            },
        }
        i += 1;
    }
    proof {
        assert(vs.take(vs.len() as int) =~= vs);
        lemma_unique_keys_distinct(vs);
        assert forall|j: int| 0 <= j < vertices.len() implies remap@[j] == weld_index(vs, j) by {
            let keys = unique_keys(vs);
            let u = remap@[j] as int;
            assert(keys[u] == weld_key(vs[j]));
            lemma_index_of_distinct(keys, u);
        }
    }
    (unique, remap)
}


/// The corners of a triangle in ascending order.
fn sort_corners(t: &Triangle) -> (r: (usize, usize, usize))
    ensures
        r == sorted_corners(*t),
{
    let (mut a, mut b, mut c) = (t.v1, t.v2, t.v3);
    if a > b {
        let x = a;
        a = b;
        b = x;
    }
    if b > c {
        let x = b;
        b = c;
        c = x;
    }
    if a > b {
        let x = a;
        a = b;
        b = x;
    }
    (a, b, c)
}

fn is_degenerate(t: &Triangle) -> (d: bool)
    ensures
        d == degenerate(*t),
{
    t.v1 == t.v2 || t.v2 == t.v3 || t.v1 == t.v3
}

/// Tells whether a triangle of `kept` has the corners of `t`.
fn has_same_corners(kept: &Vec<Triangle>, buckets: &Buckets, t: &Triangle) -> (found: bool)
    requires
        buckets.indexes(kept@.map_values(|k: Triangle| triangle_bucket(k))),
    ensures
        found == exists|k: int| 0 <= k < kept.len() && same_corners(kept@[k], *t),
{
    let ghost hs = kept@.map_values(|k: Triangle| triangle_bucket(k));
    let key = sort_corners(t);
    let b = mix_words(key.0 as u64, key.1 as u64, key.2 as u64);
    let items = match buckets.items(b) {
        Some(l) => l,
        None => {
            proof {
                assert forall|k: int| 0 <= k < kept.len() implies !same_corners(kept@[k], *t) by {
                    assert(hs[k] == triangle_bucket(kept@[k]));
                }
            }
            return false;
        },
    };
    let mut i: usize = 0;
    while i < items.len()
        invariant
            i <= items.len(),
            buckets.indexes(hs),
            hs == kept@.map_values(|k: Triangle| triangle_bucket(k)),
            buckets.map@.contains_key(b),
            *items == buckets.map@[b],
            b == triangle_bucket(*t),
            key == sorted_corners(*t),
            forall|k: int| 0 <= k < i ==> !same_corners(kept@[#[trigger] items@[k] as int], *t),
        decreases items.len() - i,
    {
        let u = items[i];
        assert(items@[i as int] == buckets.map@[b]@[i as int]);
        let other = sort_corners(&kept[u]);
        if other.0 == key.0 && other.1 == key.1 && other.2 == key.2 {
            return true;
        }
        i += 1;
    }
    proof {
        assert forall|k: int| 0 <= k < kept.len() implies !same_corners(kept@[k], *t) by {
            if same_corners(kept@[k], *t) {
                assert(hs[k] == b);
                assert(buckets.map@[hs[k]]@.contains(k as usize));
                let j = choose|j: int| 0 <= j < items@.len() && items@[j] == k as usize;
                assert(!same_corners(kept@[items@[j] as int], *t));
            }
        }
    }
    false
}

/// Removes from a mesh the vertices that repeat the position of an earlier
/// one, the triangles that then collapse to a line or point, the triangles
/// that repeat an earlier one, and the vertices that no triangle uses.
/// Vertices keep their order of first occurrence, triangles their order and
/// their orientation.
pub fn weld_mesh(vertices: Vec<Vertex>, triangles: Vec<Triangle>) -> (welded: (
    Vec<Vertex>,
    Vec<Triangle>,
))
    requires
        corners_below(triangles@, vertices.len() as int),
    ensures
        welded.0@ == welded_vertices(vertices@, triangles@),
        welded.1@ == welded_triangles(vertices@, triangles@),
{
    let ghost vs = vertices@;
    let ghost ts = triangles@;
    let (unique, remap) = dedup_vertices(&vertices);
    let ghost mapped = ts.map_values(|t: Triangle| remapped(vs, t));

    // Triangles over the unique vertices, without degenerate or repeated ones.
    let mut cleaned: Vec<Triangle> = Vec::new();
    let mut kept_buckets = Buckets::new();
    assert(cleaned@.map_values(|c: Triangle| triangle_bucket(c)) =~= Seq::<u64>::empty());
    let mut k: usize = 0;
    while k < triangles.len()
        invariant
            k <= triangles.len(),
            cleaned.len() <= k,
            kept_buckets.indexes(cleaned@.map_values(|c: Triangle| triangle_bucket(c))),
            ts == triangles@,
            vs == vertices@,
            mapped == ts.map_values(|t: Triangle| remapped(vs, t)),
            corners_below(ts, vs.len() as int),
            unique@ == unique_vertices(vs),
            remap.len() == vs.len(),
            forall|j: int| 0 <= j < vs.len() ==> remap@[j] == weld_index(vs, j),
            cleaned@ == clean_triangles(mapped.take(k as int)),
            corners_below(cleaned@, unique.len() as int),
        decreases triangles.len() - k,
    {
        let t = triangles[k];
        proof {
            assert(ts[k as int] == t);
            lemma_weld_index(vs, t.v1 as int);
            lemma_weld_index(vs, t.v2 as int);
            lemma_weld_index(vs, t.v3 as int);
        }
        let m = Triangle { v1: remap[t.v1], v2: remap[t.v2], v3: remap[t.v3] };
        assert(mapped.take(k + 1).drop_last() =~= mapped.take(k as int));
        assert(mapped.take(k + 1).last() == m);
        if !is_degenerate(&m) && !has_same_corners(&cleaned, &kept_buckets, &m) {
            let ghost hs = cleaned@.map_values(|c: Triangle| triangle_bucket(c));
            let key = sort_corners(&m);
            let b = mix_words(key.0 as u64, key.1 as u64, key.2 as u64);
            kept_buckets.add(Ghost(hs), cleaned.len(), b);
            cleaned.push(m);
            assert(cleaned@.map_values(|c: Triangle| triangle_bucket(c)) =~= hs.push(b));
        }
        k += 1;
    }
    assert(mapped.take(ts.len() as int) =~= mapped);
    let ghost cl = cleaned@;

    // Which unique vertices the kept triangles use.
    let mut in_use: Vec<bool> = vec![false; unique.len()];
    let mut k: usize = 0;
    while k < cleaned.len()
        invariant
            k <= cleaned.len(),
            cl == cleaned@,
            corners_below(cl, unique.len() as int),
            in_use.len() == unique.len(),
            forall|u: int|
                0 <= u < unique.len() ==> #[trigger] in_use@[u] == exists|j: int|
                    0 <= j < k && has_corner(cl[j], u),
        decreases cleaned.len() - k,
    {
        let t = cleaned[k];
        assert(cl[k as int] == t);
        in_use.set(t.v1, true);
        in_use.set(t.v2, true);
        in_use.set(t.v3, true);
        k += 1;
        assert forall|u: int| 0 <= u < unique.len() implies #[trigger] in_use@[u] == exists|j: int|
            0 <= j < k && has_corner(cl[j], u) by {
            if has_corner(t, u) {
                assert(has_corner(cl[k - 1], u));
            }
        }
    }

    // The used vertices, and where each unique vertex moves among them.
    let mut out_vertices: Vec<Vertex> = Vec::new();
    let mut compact: Vec<usize> = Vec::new();
    let mut u: usize = 0;
    while u < unique.len()
        invariant
            u <= unique.len(),
            cl == cleaned@,
            in_use.len() == unique.len(),
            forall|w: int| 0 <= w < unique.len() ==> #[trigger] in_use@[w] == used(cl, w),
            out_vertices@ == used_vertices(unique@, cl, u as int),
            out_vertices.len() == count_used(cl, u as int),
            compact.len() == u,
            forall|w: int| 0 <= w < u ==> #[trigger] compact@[w] == count_used(cl, w),
        decreases unique.len() - u,
    {
        compact.push(out_vertices.len());
        if in_use[u] {
            out_vertices.push(unique[u]);
        }
        u += 1;
    }

    // The kept triangles over the used vertices.
    let mut out_triangles: Vec<Triangle> = Vec::new();
    let mut k: usize = 0;
    while k < cleaned.len()
        invariant
            k <= cleaned.len(),
            cl == cleaned@,
            corners_below(cl, unique.len() as int),
            compact.len() == unique.len(),
            forall|w: int| 0 <= w < unique.len() ==> #[trigger] compact@[w] == count_used(cl, w),
            out_triangles@ == cl.take(k as int).map_values(|t: Triangle| compacted(cl, t)),
        decreases cleaned.len() - k,
    {
        let t = cleaned[k];
        assert(cl[k as int] == t);
        out_triangles.push(Triangle { v1: compact[t.v1], v2: compact[t.v2], v3: compact[t.v3] });
        k += 1;
        assert(out_triangles@ =~= cl.take(k as int).map_values(|t: Triangle| compacted(cl, t)));
    }
    assert(cl.take(cl.len() as int) =~= cl);
    (out_vertices, out_triangles)
}



// ---------------------------------------------------------------------------
// Facts about the stages of welding.

proof fn lemma_count_used_bounded(ts: Seq<Triangle>, n: int)
    requires
        0 <= n,
    ensures
        count_used(ts, n) <= n,
    decreases n,
{
    if n > 0 {
        lemma_count_used_bounded(ts, n - 1);
    }
}

/// `count_used` grows with its bound, and strictly past a used vertex.
proof fn lemma_count_used_monotone(ts: Seq<Triangle>, a: int, b: int)
    requires
        0 <= a <= b,
    ensures
        count_used(ts, a) <= count_used(ts, b),
        used(ts, a) && a < b ==> count_used(ts, a) < count_used(ts, b),
    decreases b - a,
{
    if a < b {
        lemma_count_used_monotone(ts, a, b - 1);
    }
}

/// The used vertices below `n` are listed at the positions `count_used` gives.
proof fn lemma_used_vertices(uv: Seq<Vertex>, ts: Seq<Triangle>, n: int)
    requires
        0 <= n <= uv.len(),
    ensures
        used_vertices(uv, ts, n).len() == count_used(ts, n),
        forall|w: int|
            0 <= w < n && used(ts, w) ==> used_vertices(uv, ts, n)[count_used(ts, w) as int]
                == uv[w],
    decreases n,
{
    if n > 0 {
        lemma_used_vertices(uv, ts, n - 1);
        assert forall|w: int|
            0 <= w < n && used(ts, w) implies used_vertices(uv, ts, n)[count_used(ts, w) as int]
            == uv[w] by {
            if w < n - 1 {
                lemma_count_used_monotone(ts, w, n - 1);
            }
        }
    }
}

/// Every position among the used vertices belongs to one used vertex.
proof fn lemma_count_used_onto(ts: Seq<Triangle>, n: int, i: int)
    requires
        0 <= i < count_used(ts, n),
    ensures
        exists|w: int| 0 <= w < n && used(ts, w) && count_used(ts, w) == i,
    decreases n,
{
    if n > 0 {
        if i < count_used(ts, n - 1) {
            lemma_count_used_onto(ts, n - 1, i);
            let w = choose|w: int| 0 <= w < n - 1 && used(ts, w) && count_used(ts, w) == i;
            assert(0 <= w < n && used(ts, w) && count_used(ts, w) == i);
        } else {
            assert(used(ts, n - 1) && count_used(ts, n - 1) == i);
        }
    }
}

proof fn lemma_clean_proper(ts: Seq<Triangle>)
    ensures
        clean_triangles(ts).len() <= ts.len(),
        forall|j: int|
            0 <= j < clean_triangles(ts).len() ==> !degenerate(#[trigger] clean_triangles(ts)[j]),
        forall|a: int, b: int|
            0 <= a < b < clean_triangles(ts).len() ==> !same_corners(
                #[trigger] clean_triangles(ts)[a],
                #[trigger] clean_triangles(ts)[b],
            ),
    decreases ts.len(),
{
    if ts.len() > 0 {
        lemma_clean_proper(ts.drop_last());
    }
}

proof fn lemma_clean_origin(ts: Seq<Triangle>)
    ensures
        forall|j: int|
            0 <= j < clean_triangles(ts).len() ==> exists|k: int|
                0 <= k < ts.len() && ts[k] == #[trigger] clean_triangles(ts)[j],
    decreases ts.len(),
{
    if ts.len() > 0 {
        let prev_ts = ts.drop_last();
        lemma_clean_origin(prev_ts);
        let prev = clean_triangles(prev_ts);
        let cl = clean_triangles(ts);
        assert forall|j: int| 0 <= j < cl.len() implies exists|k: int|
            0 <= k < ts.len() && ts[k] == #[trigger] cl[j] by {
            if j < prev.len() {
                let k = choose|k: int| 0 <= k < prev_ts.len() && prev_ts[k] == prev[j];
                assert(ts[k] == cl[j]);
            } else {
                assert(ts[ts.len() - 1] == cl[j]);
            }
        }
    }
}

proof fn lemma_clean_covers(ts: Seq<Triangle>)
    ensures
        forall|k: int|
            0 <= k < ts.len() && !degenerate(#[trigger] ts[k]) ==> exists|j: int|
                0 <= j < clean_triangles(ts).len() && same_corners(clean_triangles(ts)[j], ts[k]),
    decreases ts.len(),
{
    if ts.len() > 0 {
        let prev_ts = ts.drop_last();
        lemma_clean_covers(prev_ts);
        let prev = clean_triangles(prev_ts);
        let cl = clean_triangles(ts);
        assert forall|k: int| 0 <= k < ts.len() && !degenerate(#[trigger] ts[k]) implies exists|
            j: int,
        | 0 <= j < cl.len() && same_corners(cl[j], ts[k]) by {
            if k < ts.len() - 1 {
                assert(prev_ts[k] == ts[k]);
                let j = choose|j: int| 0 <= j < prev.len() && same_corners(prev[j], prev_ts[k]);
                assert(cl[j] == prev[j]);
            } else if exists|i: int| 0 <= i < prev.len() && same_corners(prev[i], ts.last()) {
                let i = choose|i: int| 0 <= i < prev.len() && same_corners(prev[i], ts.last());
                assert(cl[i] == prev[i]);
            } else {
                assert(cl[cl.len() - 1] == ts[k]);
            }
        }
    }
}

/// What cleaning keeps: triangles of the input, none degenerate, no two
/// over the same corners.
proof fn lemma_clean(ts: Seq<Triangle>)
    ensures
        clean_triangles(ts).len() <= ts.len(),
        forall|j: int|
            0 <= j < clean_triangles(ts).len() ==> !degenerate(#[trigger] clean_triangles(ts)[j]),
        forall|a: int, b: int|
            0 <= a < b < clean_triangles(ts).len() ==> !same_corners(
                #[trigger] clean_triangles(ts)[a],
                #[trigger] clean_triangles(ts)[b],
            ),
        forall|j: int|
            0 <= j < clean_triangles(ts).len() ==> exists|k: int|
                0 <= k < ts.len() && ts[k] == #[trigger] clean_triangles(ts)[j],
{
    lemma_clean_proper(ts);
    lemma_clean_origin(ts);
}

/// Over three distinct corners, two triangles share their corners exactly
/// when each corner of one is a corner of the other.
proof fn lemma_same_corners(a: Triangle, b: Triangle)
    requires
        !degenerate(a),
        !degenerate(b),
    ensures
        same_corners(a, b) <==> (has_corner(b, a.v1 as int) && has_corner(b, a.v2 as int)
            && has_corner(b, a.v3 as int)),
{
}


proof fn lemma_count_used_injective(ts: Seq<Triangle>, a: int, b: int)
    requires
        0 <= a,
        0 <= b,
        a != b,
        used(ts, a),
        used(ts, b),
    ensures
        count_used(ts, a) != count_used(ts, b),
{
    if a < b {
        lemma_count_used_monotone(ts, a, b);
    } else {
        lemma_count_used_monotone(ts, b, a);
    }
}

/// The triangles after cleaning name only unique vertices.
proof fn lemma_welded_corners_below(vs: Seq<Vertex>, ts: Seq<Triangle>)
    requires
        corners_below(ts, vs.len() as int),
    ensures
        corners_below(welded_corners(vs, ts), unique_vertices(vs).len() as int),
{
    let mapped = ts.map_values(|t: Triangle| remapped(vs, t));
    let cl = clean_triangles(mapped);
    lemma_clean(mapped);
    assert forall|j: int| 0 <= j < cl.len() implies (#[trigger] cl[j]).v1 < unique_vertices(
        vs,
    ).len() && cl[j].v2 < unique_vertices(vs).len() && cl[j].v3 < unique_vertices(vs).len() by {
        let k = choose|k: int| 0 <= k < mapped.len() && mapped[k] == cl[j];
        let t = ts[k];
        lemma_weld_index(vs, t.v1 as int);
        lemma_weld_index(vs, t.v2 as int);
        lemma_weld_index(vs, t.v3 as int);
    }
}

// ---------------------------------------------------------------------------
// Laws of welding.

/// The welding key of the vertex that corner `c` of `t` names.
pub open spec fn corner_key(vs: Seq<Vertex>, t: Triangle, c: int) -> (u64, u64, u64) {
    weld_key(
        vs[if c == 0 {
            t.v1
        } else if c == 1 {
            t.v2
        } else {
            t.v3
        } as int],
    )
}

/// The welding keys of the three corners of a triangle.
pub open spec fn corner_keys(vs: Seq<Vertex>, t: Triangle) -> Set<(u64, u64, u64)> {
    set![corner_key(vs, t, 0), corner_key(vs, t, 1), corner_key(vs, t, 2)]
}

/// A mesh without anything welding removes: every corner names a vertex,
/// no triangle is degenerate, no two triangles share their corners, no two
/// vertices share a position and every vertex is used.
pub open spec fn is_clean_mesh(vs: Seq<Vertex>, ts: Seq<Triangle>) -> bool {
    &&& corners_below(ts, vs.len() as int)
    &&& forall|j: int| 0 <= j < ts.len() ==> !degenerate(#[trigger] ts[j])
    &&& forall|a: int, b: int|
        0 <= a < b < ts.len() ==> !same_corners(#[trigger] ts[a], #[trigger] ts[b])
    &&& forall|a: int, b: int|
        0 <= a < vs.len() && 0 <= b < vs.len() && a != b ==> weld_key(#[trigger] vs[a])
            != weld_key(#[trigger] vs[b])
    &&& forall|w: int| 0 <= w < vs.len() ==> #[trigger] used(ts, w)
}

/// Triangles without degenerate or repeated ones, over vertices with
/// distinct positions.
spec fn cleaned_over(uv: Seq<Vertex>, cl: Seq<Triangle>) -> bool {
    &&& corners_below(cl, uv.len() as int)
    &&& forall|j: int| 0 <= j < cl.len() ==> !degenerate(#[trigger] cl[j])
    &&& forall|a: int, b: int|
        0 <= a < b < cl.len() ==> !same_corners(#[trigger] cl[a], #[trigger] cl[b])
    &&& forall|a: int, b: int|
        0 <= a < uv.len() && 0 <= b < uv.len() && a != b ==> weld_key(#[trigger] uv[a])
            != weld_key(#[trigger] uv[b])
}

proof fn lemma_compacted_corners(uv: Seq<Vertex>, cl: Seq<Triangle>, j: int)
    requires
        cleaned_over(uv, cl),
        0 <= j < cl.len(),
    ensures
        ({
            let ot = compacted(cl, cl[j]);
            &&& ot.v1 < count_used(cl, uv.len() as int)
            &&& ot.v2 < count_used(cl, uv.len() as int)
            &&& ot.v3 < count_used(cl, uv.len() as int)
            &&& !degenerate(ot)
        }),
{
    let t = cl[j];
    let n = uv.len() as int;
    assert(has_corner(cl[j], t.v1 as int) && has_corner(cl[j], t.v2 as int) && has_corner(
        cl[j],
        t.v3 as int,
    ));
    assert(t.v1 < n && t.v2 < n && t.v3 < n);
    lemma_count_used_monotone(cl, t.v1 as int, n);
    lemma_count_used_monotone(cl, t.v2 as int, n);
    lemma_count_used_monotone(cl, t.v3 as int, n);
    lemma_count_used_bounded(cl, n);
    lemma_count_used_bounded(cl, t.v1 as int);
    lemma_count_used_bounded(cl, t.v2 as int);
    lemma_count_used_bounded(cl, t.v3 as int);
    assert(!degenerate(cl[j]));
    lemma_count_used_injective(cl, t.v1 as int, t.v2 as int);
    lemma_count_used_injective(cl, t.v2 as int, t.v3 as int);
    lemma_count_used_injective(cl, t.v1 as int, t.v3 as int);
}

proof fn lemma_compacted_distinct(uv: Seq<Vertex>, cl: Seq<Triangle>, a: int, b: int)
    requires
        cleaned_over(uv, cl),
        0 <= a < b < cl.len(),
    ensures
        !same_corners(compacted(cl, cl[a]), compacted(cl, cl[b])),
{
    let ta = cl[a];
    let tb = cl[b];
    let oa = compacted(cl, ta);
    let ob = compacted(cl, tb);
    lemma_compacted_corners(uv, cl, a);
    lemma_compacted_corners(uv, cl, b);
    assert(!degenerate(ta) && !degenerate(tb));
    assert(!same_corners(cl[a], cl[b]));
    assert(has_corner(cl[a], ta.v1 as int) && has_corner(cl[a], ta.v2 as int) && has_corner(
        cl[a],
        ta.v3 as int,
    ));
    assert(has_corner(cl[b], tb.v1 as int) && has_corner(cl[b], tb.v2 as int) && has_corner(
        cl[b],
        tb.v3 as int,
    ));
    if same_corners(oa, ob) {
        lemma_same_corners(oa, ob);
        lemma_same_corners(ta, tb);
        lemma_count_used_bounded(cl, ta.v1 as int);
        lemma_count_used_bounded(cl, ta.v2 as int);
        lemma_count_used_bounded(cl, ta.v3 as int);
        lemma_count_used_bounded(cl, tb.v1 as int);
        lemma_count_used_bounded(cl, tb.v2 as int);
        lemma_count_used_bounded(cl, tb.v3 as int);
        assert forall|x: int, y: int|
            (x == ta.v1 || x == ta.v2 || x == ta.v3) && (y == tb.v1 || y == tb.v2 || y == tb.v3)
                && count_used(cl, x) == count_used(cl, y) implies x == y by {
            if x != y {
                lemma_count_used_injective(cl, x, y);
            }
        }
    }
}

proof fn lemma_compaction_clean(uv: Seq<Vertex>, cl: Seq<Triangle>)
    requires
        cleaned_over(uv, cl),
    ensures
        is_clean_mesh(
            used_vertices(uv, cl, uv.len() as int),
            cl.map_values(|t: Triangle| compacted(cl, t)),
        ),
{
    let n = uv.len() as int;
    let ov = used_vertices(uv, cl, n);
    let ot = cl.map_values(|t: Triangle| compacted(cl, t));
    lemma_used_vertices(uv, cl, n);
    assert forall|j: int| 0 <= j < ot.len() implies (#[trigger] ot[j]).v1 < ov.len() && ot[j].v2
        < ov.len() && ot[j].v3 < ov.len() by {
        lemma_compacted_corners(uv, cl, j);
    }
    assert forall|j: int| 0 <= j < ot.len() implies !degenerate(#[trigger] ot[j]) by {
        lemma_compacted_corners(uv, cl, j);
    }
    assert forall|a: int, b: int| 0 <= a < b < ot.len() implies !same_corners(
        #[trigger] ot[a],
        #[trigger] ot[b],
    ) by {
        lemma_compacted_distinct(uv, cl, a, b);
    }
    assert forall|a: int, b: int|
        0 <= a < ov.len() && 0 <= b < ov.len() && a != b implies weld_key(#[trigger] ov[a])
        != weld_key(#[trigger] ov[b]) by {
        lemma_count_used_onto(cl, n, a);
        lemma_count_used_onto(cl, n, b);
        let wa = choose|w: int| 0 <= w < n && used(cl, w) && count_used(cl, w) == a;
        let wb = choose|w: int| 0 <= w < n && used(cl, w) && count_used(cl, w) == b;
        assert(ov[a] == uv[wa] && ov[b] == uv[wb]);
    }
    assert forall|w: int| 0 <= w < ov.len() implies #[trigger] used(ot, w) by {
        lemma_count_used_onto(cl, n, w);
        let u = choose|u: int| 0 <= u < n && used(cl, u) && count_used(cl, u) == w;
        let k = choose|k: int| 0 <= k < cl.len() && has_corner(cl[k], u);
        lemma_count_used_bounded(cl, u);
        assert(has_corner(ot[k], w));
    }
}

/// Welding leaves a clean mesh: its triangles name its vertices, none is
/// degenerate or repeated, no two vertices share a position and none is
/// left unused.
pub proof fn lemma_welded_mesh_is_clean(vs: Seq<Vertex>, ts: Seq<Triangle>)
    requires
        corners_below(ts, vs.len() as int),
    ensures
        is_clean_mesh(welded_vertices(vs, ts), welded_triangles(vs, ts)),
{
    let uv = unique_vertices(vs);
    let mapped = ts.map_values(|t: Triangle| remapped(vs, t));
    let cl = clean_triangles(mapped);
    lemma_clean(mapped);
    lemma_welded_corners_below(vs, ts);
    lemma_unique_keys_distinct(vs);
    assert forall|a: int, b: int|
        0 <= a < uv.len() && 0 <= b < uv.len() && a != b implies weld_key(#[trigger] uv[a])
        != weld_key(#[trigger] uv[b]) by {
        let keys = unique_keys(vs);
        assert(keys[a] == weld_key(uv[a]));
        assert(keys[b] == weld_key(uv[b]));
    }
    lemma_compaction_clean(uv, cl);
}


/// Corner `c` of triangle `j` of the welded mesh sits at the position of
/// the same corner of an input triangle.
proof fn lemma_welded_corner_origin(vs: Seq<Vertex>, ts: Seq<Triangle>, j: int, k: int)
    requires
        vs.len() <= usize::MAX,
        corners_below(ts, vs.len() as int),
        0 <= j < welded_triangles(vs, ts).len(),
        0 <= k < ts.len(),
        welded_corners(vs, ts)[j] == remapped(vs, ts[k]),
    ensures
        corner_key(welded_vertices(vs, ts), welded_triangles(vs, ts)[j], 0) == corner_key(
            vs,
            ts[k],
            0,
        ),
        corner_key(welded_vertices(vs, ts), welded_triangles(vs, ts)[j], 1) == corner_key(
            vs,
            ts[k],
            1,
        ),
        corner_key(welded_vertices(vs, ts), welded_triangles(vs, ts)[j], 2) == corner_key(
            vs,
            ts[k],
            2,
        ),
{
    let uv = unique_vertices(vs);
    let cl = welded_corners(vs, ts);
    let n = uv.len() as int;
    let t = ts[k];
    lemma_welded_corners_below(vs, ts);
    lemma_used_vertices(uv, cl, n);
    lemma_weld_index(vs, t.v1 as int);
    lemma_weld_index(vs, t.v2 as int);
    lemma_weld_index(vs, t.v3 as int);
    let c = cl[j];
    assert(has_corner(cl[j], c.v1 as int) && has_corner(cl[j], c.v2 as int) && has_corner(
        cl[j],
        c.v3 as int,
    ));
    assert(used(cl, c.v1 as int) && used(cl, c.v2 as int) && used(cl, c.v3 as int));
    lemma_count_used_bounded(cl, c.v1 as int);
    lemma_count_used_bounded(cl, c.v2 as int);
    lemma_count_used_bounded(cl, c.v3 as int);
    let ov = welded_vertices(vs, ts);
    let o = welded_triangles(vs, ts)[j];
    assert(o == compacted(cl, c));
    assert(ov[o.v1 as int] == uv[c.v1 as int]);
    assert(ov[o.v2 as int] == uv[c.v2 as int]);
    assert(ov[o.v3 as int] == uv[c.v3 as int]);
    lemma_unique_keys_distinct(vs);
}

/// Welding moves no triangle: each triangle of the welded mesh has, corner
/// by corner, the positions of a triangle of the input.
pub proof fn lemma_weld_keeps_positions(vs: Seq<Vertex>, ts: Seq<Triangle>)
    requires
        vs.len() <= usize::MAX,
        corners_below(ts, vs.len() as int),
    ensures
        forall|j: int|
            0 <= j < welded_triangles(vs, ts).len() ==> exists|k: int|
                0 <= k < ts.len() && corner_key(
                    welded_vertices(vs, ts),
                    #[trigger] welded_triangles(vs, ts)[j],
                    0,
                ) == corner_key(vs, ts[k], 0) && corner_key(
                    welded_vertices(vs, ts),
                    welded_triangles(vs, ts)[j],
                    1,
                ) == corner_key(vs, ts[k], 1) && corner_key(
                    welded_vertices(vs, ts),
                    welded_triangles(vs, ts)[j],
                    2,
                ) == corner_key(vs, ts[k], 2),
{
    let mapped = ts.map_values(|t: Triangle| remapped(vs, t));
    lemma_clean(mapped);
    assert forall|j: int| 0 <= j < welded_triangles(vs, ts).len() implies exists|k: int|
        0 <= k < ts.len() && corner_key(
            welded_vertices(vs, ts),
            #[trigger] welded_triangles(vs, ts)[j],
            0,
        ) == corner_key(vs, ts[k], 0) && corner_key(
            welded_vertices(vs, ts),
            welded_triangles(vs, ts)[j],
            1,
        ) == corner_key(vs, ts[k], 1) && corner_key(
            welded_vertices(vs, ts),
            welded_triangles(vs, ts)[j],
            2,
        ) == corner_key(vs, ts[k], 2) by {
        let cl = welded_corners(vs, ts);
        let k = choose|k: int| 0 <= k < mapped.len() && mapped[k] == cl[j];
        lemma_welded_corner_origin(vs, ts, j, k);
    }
}

/// Two input vertices land on one unique vertex exactly when they share a
/// position.
proof fn lemma_weld_index_same(vs: Seq<Vertex>, a: int, b: int)
    requires
        0 <= a < vs.len(),
        0 <= b < vs.len(),
    ensures
        (weld_index(vs, a) == weld_index(vs, b)) <==> (weld_key(vs[a]) == weld_key(vs[b])),
{
    lemma_weld_index(vs, a);
    lemma_weld_index(vs, b);
    lemma_unique_keys_distinct(vs);
    let keys = unique_keys(vs);
    assert(keys[weld_index(vs, a)] == weld_key(vs[a]));
    assert(keys[weld_index(vs, b)] == weld_key(vs[b]));
}

proof fn lemma_remapped_proper(vs: Seq<Vertex>, t: Triangle)
    requires
        vs.len() <= usize::MAX,
        t.v1 < vs.len() && t.v2 < vs.len() && t.v3 < vs.len(),
        corner_key(vs, t, 0) != corner_key(vs, t, 1),
        corner_key(vs, t, 1) != corner_key(vs, t, 2),
        corner_key(vs, t, 0) != corner_key(vs, t, 2),
    ensures
        !degenerate(remapped(vs, t)),
{
    lemma_weld_index_same(vs, t.v1 as int, t.v2 as int);
    lemma_weld_index_same(vs, t.v2 as int, t.v3 as int);
    lemma_weld_index_same(vs, t.v1 as int, t.v3 as int);
    lemma_weld_index(vs, t.v1 as int);
    lemma_weld_index(vs, t.v2 as int);
    lemma_weld_index(vs, t.v3 as int);
    lemma_unique_keys_distinct(vs);
}

/// Input triangles that weld onto the same corners have their corners at
/// the same positions.
proof fn lemma_same_corners_same_keys(vs: Seq<Vertex>, a: Triangle, b: Triangle)
    requires
        vs.len() <= usize::MAX,
        a.v1 < vs.len() && a.v2 < vs.len() && a.v3 < vs.len(),
        b.v1 < vs.len() && b.v2 < vs.len() && b.v3 < vs.len(),
        !degenerate(remapped(vs, a)),
        !degenerate(remapped(vs, b)),
        same_corners(remapped(vs, a), remapped(vs, b)),
    ensures
        corner_keys(vs, a) == corner_keys(vs, b),
{
    let ra = remapped(vs, a);
    let rb = remapped(vs, b);
    lemma_same_corners(ra, rb);
    lemma_same_corners(rb, ra);
    lemma_unique_keys_distinct(vs);
    lemma_weld_index(vs, a.v1 as int);
    lemma_weld_index(vs, a.v2 as int);
    lemma_weld_index(vs, a.v3 as int);
    lemma_weld_index(vs, b.v1 as int);
    lemma_weld_index(vs, b.v2 as int);
    lemma_weld_index(vs, b.v3 as int);
    assert forall|x: int, y: int|
        (x == a.v1 || x == a.v2 || x == a.v3) && (y == b.v1 || y == b.v2 || y == b.v3)
            && weld_index(vs, x) == weld_index(vs, y) implies weld_key(vs[x]) == weld_key(
        vs[y],
    ) by {
        lemma_weld_index_same(vs, x, y);
    }
    assert(corner_keys(vs, a) =~= corner_keys(vs, b));
}

proof fn lemma_same_corners_proper(a: Triangle, b: Triangle)
    requires
        same_corners(a, b),
        !degenerate(b),
    ensures
        !degenerate(a),
{
}

/// The kept triangle over the corners of `s[k]`, and where it was kept from.
proof fn lemma_clean_source(s: Seq<Triangle>, k: int) -> (jq: (int, int))
    requires
        0 <= k < s.len(),
        !degenerate(s[k]),
    ensures
        0 <= jq.0 < clean_triangles(s).len(),
        0 <= jq.1 < s.len(),
        clean_triangles(s)[jq.0] == s[jq.1],
        same_corners(clean_triangles(s)[jq.0], s[k]),
{
    lemma_clean_covers(s);
    lemma_clean_origin(s);
    let cl = clean_triangles(s);
    let j = choose|j: int| 0 <= j < cl.len() && same_corners(cl[j], s[k]);
    let q = choose|q: int| 0 <= q < s.len() && s[q] == cl[j];
    (j, q)
}

/// The welded triangle that stands for input triangle `k`, and the input
/// triangle it was kept from.
proof fn lemma_face_source(vs: Seq<Vertex>, ts: Seq<Triangle>, k: int) -> (jq: (int, int))
    requires
        0 <= k < ts.len(),
        !degenerate(remapped(vs, ts[k])),
    ensures
        0 <= jq.0 < welded_corners(vs, ts).len(),
        0 <= jq.1 < ts.len(),
        welded_corners(vs, ts)[jq.0] == remapped(vs, ts[jq.1]),
        same_corners(welded_corners(vs, ts)[jq.0], remapped(vs, ts[k])),
        !degenerate(welded_corners(vs, ts)[jq.0]),
{
    let mapped = ts.map_values(|t: Triangle| remapped(vs, t));
    assert(mapped[k] == remapped(vs, ts[k]));
    let (j, q) = lemma_clean_source(mapped, k);
    assert(mapped[q] == remapped(vs, ts[q]));
    lemma_same_corners_proper(clean_triangles(mapped)[j], mapped[k]);
    (j, q)
}

/// Welding loses no face: every input triangle whose corners sit at three
/// different positions is still there, as a triangle over the same three
/// positions.
pub proof fn lemma_weld_keeps_faces(vs: Seq<Vertex>, ts: Seq<Triangle>, k: int)
    requires
        vs.len() <= usize::MAX,
        corners_below(ts, vs.len() as int),
        0 <= k < ts.len(),
        corner_key(vs, ts[k], 0) != corner_key(vs, ts[k], 1),
        corner_key(vs, ts[k], 1) != corner_key(vs, ts[k], 2),
        corner_key(vs, ts[k], 0) != corner_key(vs, ts[k], 2),
    ensures
        exists|j: int|
            0 <= j < welded_triangles(vs, ts).len() && corner_keys(
                welded_vertices(vs, ts),
                #[trigger] welded_triangles(vs, ts)[j],
            ) == corner_keys(vs, ts[k]),
{
    lemma_remapped_proper(vs, ts[k]);
    let (j, q) = lemma_face_source(vs, ts, k);
    lemma_welded_corner_origin(vs, ts, j, q);
    lemma_same_corners_same_keys(vs, ts[q], ts[k]);
    let ov = welded_vertices(vs, ts);
    let ot = welded_triangles(vs, ts);
    assert(corner_keys(ov, ot[j]) =~= corner_keys(vs, ts[q]));
}

proof fn lemma_unique_vertices_of_distinct(vs: Seq<Vertex>)
    requires
        forall|a: int, b: int|
            0 <= a < vs.len() && 0 <= b < vs.len() && a != b ==> weld_key(#[trigger] vs[a])
                != weld_key(#[trigger] vs[b]),
    ensures
        unique_vertices(vs) == vs,
    decreases vs.len(),
{
    if vs.len() > 0 {
        let prev = vs.drop_last();
        lemma_unique_vertices_of_distinct(prev);
        let keys = prev.map_values(|u: Vertex| weld_key(u));
        assert forall|i: int| 0 <= i < keys.len() implies keys[i] != weld_key(vs.last()) by {
            assert(vs[i] == prev[i]);
        }
        assert(prev.push(vs.last()) =~= vs);
    }
}

proof fn lemma_clean_of_clean(ts: Seq<Triangle>)
    requires
        forall|j: int| 0 <= j < ts.len() ==> !degenerate(#[trigger] ts[j]),
        forall|a: int, b: int|
            0 <= a < b < ts.len() ==> !same_corners(#[trigger] ts[a], #[trigger] ts[b]),
    ensures
        clean_triangles(ts) == ts,
    decreases ts.len(),
{
    if ts.len() > 0 {
        let prev = ts.drop_last();
        lemma_clean_of_clean(prev);
        assert forall|k: int| 0 <= k < prev.len() implies !same_corners(prev[k], ts.last()) by {
            assert(prev[k] == ts[k]);
            assert(!same_corners(ts[k], ts[ts.len() - 1]));
        }
        assert(prev.push(ts.last()) =~= ts);
    }
}

proof fn lemma_count_used_all(ts: Seq<Triangle>, n: int)
    requires
        0 <= n,
        forall|w: int| 0 <= w < n ==> #[trigger] used(ts, w),
    ensures
        count_used(ts, n) == n,
    decreases n,
{
    if n > 0 {
        lemma_count_used_all(ts, n - 1);
    }
}

proof fn lemma_used_vertices_all(uv: Seq<Vertex>, ts: Seq<Triangle>, n: int)
    requires
        0 <= n <= uv.len(),
        forall|w: int| 0 <= w < uv.len() ==> #[trigger] used(ts, w),
    ensures
        used_vertices(uv, ts, n) == uv.take(n),
    decreases n,
{
    if n > 0 {
        lemma_used_vertices_all(uv, ts, n - 1);
        assert(uv.take(n - 1).push(uv[n - 1]) =~= uv.take(n));
    }
}

/// Welding a clean mesh changes nothing; in particular welding twice gives
/// what welding once gives.
pub proof fn lemma_weld_clean_mesh_unchanged(vs: Seq<Vertex>, ts: Seq<Triangle>)
    requires
        is_clean_mesh(vs, ts),
    ensures
        welded_vertices(vs, ts) == vs,
        welded_triangles(vs, ts) == ts,
{
    lemma_unique_vertices_of_distinct(vs);
    lemma_unique_keys_distinct(vs);
    let keys = unique_keys(vs);
    assert forall|i: int| 0 <= i < vs.len() implies #[trigger] weld_index(vs, i) == i by {
        assert(keys[i] == weld_key(vs[i]));
        lemma_index_of_distinct(keys, i);
    }
    let mapped = ts.map_values(|t: Triangle| remapped(vs, t));
    assert forall|k: int| 0 <= k < ts.len() implies #[trigger] mapped[k] == ts[k] by {
        let t = ts[k];
        assert(weld_index(vs, t.v1 as int) == t.v1);
        assert(weld_index(vs, t.v2 as int) == t.v2);
        assert(weld_index(vs, t.v3 as int) == t.v3);
    }
    assert(mapped =~= ts);
    lemma_clean_of_clean(ts);
    lemma_used_vertices_all(vs, ts, vs.len() as int);
    assert(vs.take(vs.len() as int) =~= vs);
    let ot = welded_triangles(vs, ts);
    assert forall|k: int| 0 <= k < ts.len() implies #[trigger] ot[k] == ts[k] by {
        let t = ts[k];
        lemma_count_used_all(ts, t.v1 as int);
        lemma_count_used_all(ts, t.v2 as int);
        lemma_count_used_all(ts, t.v3 as int);
    }
    assert(ot =~= ts);
}

/// Welding twice gives what welding once gives.
pub proof fn lemma_weld_idempotent(vs: Seq<Vertex>, ts: Seq<Triangle>)
    requires
        corners_below(ts, vs.len() as int),
    ensures
        welded_vertices(welded_vertices(vs, ts), welded_triangles(vs, ts)) == welded_vertices(
            vs,
            ts,
        ),
        welded_triangles(welded_vertices(vs, ts), welded_triangles(vs, ts)) == welded_triangles(
            vs,
            ts,
        ),
{
    lemma_welded_mesh_is_clean(vs, ts);
    lemma_weld_clean_mesh_unchanged(welded_vertices(vs, ts), welded_triangles(vs, ts));
}

/// Two coordinates, given by their bit patterns, are the same number: the
/// same bits, or the two zeros.
pub open spec fn same_coordinate(a: u64, b: u64) -> bool {
    ||| a == b
    ||| (a == 0 || a == 0x8000_0000_0000_0000) && (b == 0 || b == 0x8000_0000_0000_0000)
}

/// Two vertices lie at the same position: equal in x, in y and in z.
pub open spec fn same_position(u: Vertex, v: Vertex) -> bool {
    &&& same_coordinate(u.x, v.x)
    &&& same_coordinate(u.y, v.y)
    &&& same_coordinate(u.z, v.z)
}

/// Two vertices are welded exactly when they lie at the same position: all
/// three coordinates agree, with the two zeros taken as one.
pub proof fn lemma_weld_key_is_position(u: Vertex, v: Vertex)
    ensures
        weld_key(u) == weld_key(v) <==> same_position(u, v),
{
}

/// No two vertices of a welded mesh lie at the same position.
pub proof fn lemma_welded_positions_distinct(vs: Seq<Vertex>, ts: Seq<Triangle>, a: int, b: int)
    requires
        corners_below(ts, vs.len() as int),
        0 <= a < welded_vertices(vs, ts).len(),
        0 <= b < welded_vertices(vs, ts).len(),
        a != b,
    ensures
        !same_position(welded_vertices(vs, ts)[a], welded_vertices(vs, ts)[b]),
{
    lemma_welded_mesh_is_clean(vs, ts);
    let wv = welded_vertices(vs, ts);
    assert(weld_key(wv[a]) != weld_key(wv[b]));
    lemma_weld_key_is_position(wv[a], wv[b]);
}

} // verus!
