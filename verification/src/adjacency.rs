//! Which provinces share a land border, derived from their outline rings.
//!
//! Two provinces are neighbours when one of them walks along an outline edge that the
//! other walked first. Vertices are compared exactly, by the bit patterns of their
//! longitude and latitude, so only edges the atlas stores identically are shared.

use vstd::hash_map::HashMapWithView;
use vstd::prelude::*;

verus! {

broadcast use vstd::std_specs::hash::group_hash_axioms;

/// One triangulated part of a province, as far as its outline is concerned.
pub struct RingMesh {
    /// Vertices as the bit patterns of their longitude and latitude.
    pub vertices: Vec<[u32; 2]>,
    /// Exclusive end index of each ring in `vertices`; each ring starts where the previous ended.
    pub ring_ends: Vec<usize>,
}

/// Index of the first vertex of ring `ring`.
pub open spec fn ring_start(mesh: RingMesh, ring: int) -> int {
    if ring == 0 {
        0
    } else {
        mesh.ring_ends@[ring - 1] as int
    }
}

/// Every ring lies inside the vertex list and starts where the previous one ended.
pub open spec fn mesh_wf(mesh: RingMesh) -> bool {
    forall|ring: int|
        0 <= ring < mesh.ring_ends@.len() ==> ring_start(mesh, ring) <= #[trigger] mesh.ring_ends@[ring]
            <= mesh.vertices@.len()
}

/// Every part of every province is well formed.
pub open spec fn atlas_wf(provinces: Seq<Vec<RingMesh>>) -> bool {
    forall|province: int, part: int|
        0 <= province < provinces.len() && 0 <= part < provinces[province]@.len() ==> mesh_wf(
            #[trigger] provinces[province]@[part],
        )
}

/// A vertex as one number that orders vertices as their coordinate pairs order.
pub open spec fn point_code(point: [u32; 2]) -> int {
    point[0] * 0x1_0000_0000 + point[1]
}

/// An undirected edge as one number: its two vertex codes, smaller first.
pub open spec fn edge_code(a: [u32; 2], b: [u32; 2]) -> u128 {
    if point_code(a) < point_code(b) {
        (point_code(a) * 0x1_0000_0000_0000_0000 + point_code(b)) as u128
    } else {
        (point_code(b) * 0x1_0000_0000_0000_0000 + point_code(a)) as u128
    }
}

/// The edges of the ring `vertices[start..end]`, each closing back to the ring's first vertex,
/// tagged with the province that walks them.
pub open spec fn ring_edges(vertices: Seq<[u32; 2]>, start: int, end: int, province: usize) -> Seq<
    (u128, usize),
> {
    Seq::new(
        (end - start) as nat,
        |e: int| (edge_code(vertices[start + e], vertices[start + (e + 1) % (end - start)]), province),
    )
}

/// The edges of every ring of one part, in ring order.
pub open spec fn mesh_edges(mesh: RingMesh, province: usize) -> Seq<(u128, usize)> {
    Seq::new(
        mesh.ring_ends@.len(),
        |ring: int| ring_edges(mesh.vertices@, ring_start(mesh, ring), mesh.ring_ends@[ring] as int, province),
    ).flatten()
}

/// The edges of every part of one province, in part order.
pub open spec fn province_edges(parts: Seq<RingMesh>, province: usize) -> Seq<(u128, usize)> {
    Seq::new(parts.len(), |part: int| mesh_edges(parts[part], province)).flatten()
}

/// The edges of every province, in province order.
pub open spec fn atlas_edges(provinces: Seq<Vec<RingMesh>>) -> Seq<(u128, usize)> {
    Seq::new(provinces.len(), |p: int| province_edges(provinces[p]@, p as usize)).flatten()
}

/// The province that walked edge `code` first among `edges`, if any did.
pub open spec fn first_walker(edges: Seq<(u128, usize)>, code: u128) -> Option<usize>
    decreases edges.len(),
{
    if edges.len() == 0 {
        None
    } else {
        match first_walker(edges.drop_last(), code) {
            Some(walker) => Some(walker),
            None => if edges.last().0 == code {
                Some(edges.last().1)
            } else {
                None
            },
        }
    }
}

/// At step `step`, province `a` walks an edge that province `b` walked first, or the reverse.
pub open spec fn links_at(edges: Seq<(u128, usize)>, step: int, a: usize, b: usize) -> bool {
    &&& a != b
    &&& {
        ||| edges[step].1 == a && first_walker(edges.take(step), edges[step].0) == Some(b)
        ||| edges[step].1 == b && first_walker(edges.take(step), edges[step].0) == Some(a)
    }
}

/// Some step before `steps` links `a` and `b`.
pub open spec fn linked_within(edges: Seq<(u128, usize)>, steps: int, a: usize, b: usize) -> bool {
    exists|step: int| 0 <= step < steps && #[trigger] links_at(edges, step, a, b)
}

/// Provinces `a` and `b` share a border in the atlas.
pub open spec fn borders(provinces: Seq<Vec<RingMesh>>, a: usize, b: usize) -> bool {
    let edges = atlas_edges(provinces);
    linked_within(edges, edges.len() as int, a, b)
}

/// The list is sorted in strictly increasing order, so it holds no repeats.
pub open spec fn strictly_increasing(list: Seq<usize>) -> bool {
    forall|x: int, y: int| 0 <= x < y < list.len() ==> list[x] < list[y]
}

proof fn lemma_flatten_new_step<A>(n: nat, f: spec_fn(int) -> Seq<A>)
    ensures
        Seq::new(n + 1, f).flatten() == Seq::new(n, f).flatten() + f(n as int),
{
    assert(Seq::new(n + 1, f) =~= Seq::new(n, f).push(f(n as int)));
    Seq::new(n, f).lemma_flatten_push(f(n as int));
}

fn point_bits(point: [u32; 2]) -> (code: u64)
    ensures
        code == point_code(point),
{
    let x = point[0] as u64;
    let y = point[1] as u64;
    assert(x * 0x1_0000_0000 + y <= u64::MAX) by (nonlinear_arith)
        requires
            x <= u32::MAX,
            y <= u32::MAX,
    ;
    x * 0x1_0000_0000 + y
}

fn edge_bits(a: [u32; 2], b: [u32; 2]) -> (code: u128)
    ensures
        code == edge_code(a, b),
{
    let pa = point_bits(a);
    let pb = point_bits(b);
    let (lo, hi) = if pa < pb {
        (pa as u128, pb as u128)
    } else {
        (pb as u128, pa as u128)
    };
    assert(lo * 0x1_0000_0000_0000_0000 + hi <= u128::MAX) by (nonlinear_arith)
        requires
            lo <= u64::MAX,
            hi <= u64::MAX,
    ;
    lo * 0x1_0000_0000_0000_0000 + hi
}

/// Appends the edges of the ring `vertices[start..end]`.
fn push_ring_edges(
    edges: &mut Vec<(u128, usize)>,
    vertices: &Vec<[u32; 2]>,
    start: usize,
    end: usize,
    province: usize,
)
    requires
        start <= end <= vertices@.len(),
    ensures
        final(edges)@ == old(edges)@ + ring_edges(vertices@, start as int, end as int, province),
{
    let len = end - start;
    let ghost base = old(edges)@;
    let mut e: usize = 0;
    while e < len
        invariant
            start <= end <= vertices@.len(),
            len == end - start,
            e <= len,
            edges@ == base + ring_edges(vertices@, start as int, end as int, province).take(e as int),
        decreases len - e,
    {
        let next = (e + 1) % len;
        let code = edge_bits(vertices[start + e], vertices[start + next]);
        edges.push((code, province));
        proof {
            let all = ring_edges(vertices@, start as int, end as int, province);
            assert(all.take(e + 1) =~= all.take(e as int).push(all[e as int]));
        }
        e = e + 1;
    }
    proof {
        let all = ring_edges(vertices@, start as int, end as int, province);
        assert(all.take(len as int) =~= all);
    }
}

/// Appends the edges of every ring of `mesh`.
fn push_mesh_edges(edges: &mut Vec<(u128, usize)>, mesh: &RingMesh, province: usize)
    requires
        mesh_wf(*mesh),
    ensures
        final(edges)@ == old(edges)@ + mesh_edges(*mesh, province),
{
    let ghost base = old(edges)@;
    let ghost f = |ring: int|
        ring_edges(mesh.vertices@, ring_start(*mesh, ring), mesh.ring_ends@[ring] as int, province);
    let rings = mesh.ring_ends.len();
    let mut ring: usize = 0;
    let mut start: usize = 0;
    while ring < rings
        invariant
            mesh_wf(*mesh),
            rings == mesh.ring_ends@.len(),
            ring <= rings,
            start == ring_start(*mesh, ring as int),
            f == (|ring: int|
                ring_edges(
                    mesh.vertices@,
                    ring_start(*mesh, ring),
                    mesh.ring_ends@[ring] as int,
                    province,
                )),
            edges@ == base + Seq::new(ring as nat, f).flatten(),
        decreases rings - ring,
    {
        let end = mesh.ring_ends[ring];
        assert(start <= end <= mesh.vertices@.len());
        push_ring_edges(edges, &mesh.vertices, start, end, province);
        proof {
            lemma_flatten_new_step(ring as nat, f);
            assert(edges@ =~= base + Seq::new((ring + 1) as nat, f).flatten());
        }
        start = end;
        ring = ring + 1;
    }
    assert(Seq::new(rings as nat, f) =~= Seq::new(
        mesh.ring_ends@.len(),
        |ring: int|
            ring_edges(mesh.vertices@, ring_start(*mesh, ring), mesh.ring_ends@[ring] as int, province),
    ));
}

/// Appends the edges of every part of one province.
fn push_province_edges(edges: &mut Vec<(u128, usize)>, parts: &Vec<RingMesh>, province: usize)
    requires
        forall|part: int| 0 <= part < parts@.len() ==> mesh_wf(#[trigger] parts@[part]),
    ensures
        final(edges)@ == old(edges)@ + province_edges(parts@, province),
{
    let ghost base = old(edges)@;
    let ghost f = |part: int| mesh_edges(parts@[part], province);
    let count = parts.len();
    let mut part: usize = 0;
    while part < count
        invariant
            forall|part: int| 0 <= part < parts@.len() ==> mesh_wf(#[trigger] parts@[part]),
            count == parts@.len(),
            part <= count,
            f == (|part: int| mesh_edges(parts@[part], province)),
            edges@ == base + Seq::new(part as nat, f).flatten(),
        decreases count - part,
    {
        push_mesh_edges(edges, &parts[part], province);
        proof {
            lemma_flatten_new_step(part as nat, f);
            assert(edges@ =~= base + Seq::new((part + 1) as nat, f).flatten());
        }
        part = part + 1;
    }
    assert(Seq::new(count as nat, f) =~= Seq::new(
        parts@.len(),
        |part: int| mesh_edges(parts@[part], province),
    ));
}

proof fn lemma_flatten_tags<A>(n: nat, f: spec_fn(int) -> Seq<(A, usize)>, bound: int)
    requires
        forall|i: int, e: int|
            0 <= i < n && 0 <= e < f(i).len() ==> #[trigger] f(i)[e].1 < bound,
    ensures
        forall|e: int|
            0 <= e < Seq::new(n, f).flatten().len() ==> #[trigger] Seq::new(n, f).flatten()[e].1
                < bound,
    decreases n,
{
    if n > 0 {
        lemma_flatten_tags((n - 1) as nat, f, bound);
        lemma_flatten_new_step((n - 1) as nat, f);
        let prev = Seq::new((n - 1) as nat, f).flatten();
        let whole = Seq::new(n, f).flatten();
        assert forall|e: int| 0 <= e < whole.len() implies #[trigger] whole[e].1 < bound by {
            if e < prev.len() {
                assert(whole[e] == prev[e]);
            } else {
                assert(whole[e] == f(n - 1)[e - prev.len()]);
            }
        }
    }
}

proof fn lemma_ring_edges_tagged(
    vertices: Seq<[u32; 2]>,
    start: int,
    end: int,
    province: usize,
)
    ensures
        forall|e: int|
            0 <= e < ring_edges(vertices, start, end, province).len() ==> #[trigger] ring_edges(
                vertices,
                start,
                end,
                province,
            )[e].1 == province,
{
}

proof fn lemma_flatten_tags_equal<A>(n: nat, f: spec_fn(int) -> Seq<(A, usize)>, tag: usize)
    requires
        forall|i: int, e: int| 0 <= i < n && 0 <= e < f(i).len() ==> #[trigger] f(i)[e].1 == tag,
    ensures
        forall|e: int|
            0 <= e < Seq::new(n, f).flatten().len() ==> #[trigger] Seq::new(n, f).flatten()[e].1
                == tag,
    decreases n,
{
    if n > 0 {
        lemma_flatten_tags_equal((n - 1) as nat, f, tag);
        lemma_flatten_new_step((n - 1) as nat, f);
        let prev = Seq::new((n - 1) as nat, f).flatten();
        let whole = Seq::new(n, f).flatten();
        assert forall|e: int| 0 <= e < whole.len() implies #[trigger] whole[e].1 == tag by {
            if e < prev.len() {
                assert(whole[e] == prev[e]);
            } else {
                assert(whole[e] == f(n - 1)[e - prev.len()]);
            }
        }
    }
}

proof fn lemma_mesh_edges_tagged(mesh: RingMesh, province: usize)
    ensures
        forall|e: int|
            0 <= e < mesh_edges(mesh, province).len() ==> #[trigger] mesh_edges(mesh, province)[e].1
                == province,
{
    let f = |ring: int|
        ring_edges(mesh.vertices@, ring_start(mesh, ring), mesh.ring_ends@[ring] as int, province);
    assert forall|i: int, e: int|
        0 <= i < mesh.ring_ends@.len() && 0 <= e < f(i).len() implies #[trigger] f(i)[e].1
        == province by {
        lemma_ring_edges_tagged(
            mesh.vertices@,
            ring_start(mesh, i),
            mesh.ring_ends@[i] as int,
            province,
        );
    }
    lemma_flatten_tags_equal(mesh.ring_ends@.len(), f, province);
}

proof fn lemma_province_edges_tagged(parts: Seq<RingMesh>, province: usize)
    ensures
        forall|e: int|
            0 <= e < province_edges(parts, province).len() ==> #[trigger] province_edges(
                parts,
                province,
            )[e].1 == province,
{
    let f = |part: int| mesh_edges(parts[part], province);
    assert forall|i: int, e: int|
        0 <= i < parts.len() && 0 <= e < f(i).len() implies #[trigger] f(i)[e].1 == province by {
        lemma_mesh_edges_tagged(parts[i], province);
    }
    lemma_flatten_tags_equal(parts.len(), f, province);
}

/// Every edge of the atlas is tagged with the index of an existing province.
proof fn lemma_atlas_edges_tagged(provinces: Seq<Vec<RingMesh>>)
    requires
        provinces.len() <= usize::MAX,
    ensures
        forall|e: int|
            0 <= e < atlas_edges(provinces).len() ==> #[trigger] atlas_edges(provinces)[e].1
                < provinces.len(),
{
    let f = |p: int| province_edges(provinces[p]@, p as usize);
    assert forall|i: int, e: int|
        0 <= i < provinces.len() && 0 <= e < f(i).len() implies #[trigger] f(i)[e].1
        < provinces.len() by {
        lemma_province_edges_tagged(provinces[i]@, i as usize);
    }
    lemma_flatten_tags(provinces.len(), f, provinces.len() as int);
}

/// Lists every outline edge of every province, in province, part, ring and vertex order.
fn collect_edges(provinces: &Vec<Vec<RingMesh>>) -> (edges: Vec<(u128, usize)>)
    requires
        atlas_wf(provinces@),
    ensures
        edges@ == atlas_edges(provinces@),
{
    let ghost f = |p: int| province_edges(provinces@[p]@, p as usize);
    let mut edges: Vec<(u128, usize)> = Vec::new();
    let count = provinces.len();
    let mut province: usize = 0;
    while province < count
        invariant
            atlas_wf(provinces@),
            count == provinces@.len(),
            province <= count,
            f == (|p: int| province_edges(provinces@[p]@, p as usize)),
            edges@ == Seq::new(province as nat, f).flatten(),
        decreases count - province,
    {
        let ghost before = edges@;
        assert forall|part: int| 0 <= part < provinces@[province as int]@.len() implies mesh_wf(
            #[trigger] provinces@[province as int]@[part],
        ) by {}
        push_province_edges(&mut edges, &provinces[province], province);
        proof {
            lemma_flatten_new_step(province as nat, f);
        }
        province = province + 1;
    }
    assert(Seq::new(count as nat, f) =~= Seq::new(
        provinces@.len(),
        |p: int| province_edges(provinces@[p]@, p as usize),
    ));
    edges
}

/// Adds `value` to a strictly increasing list unless it is already there.
fn with_inserted(list: Vec<usize>, value: usize) -> (result: Vec<usize>)
    requires
        strictly_increasing(list@),
    ensures
        strictly_increasing(result@),
        forall|x: usize| #[trigger] result@.contains(x) <==> (list@.contains(x) || x == value),
{
    let mut list = list;
    let ghost before = list@;
    let mut position: usize = 0;
    while position < list.len() && list[position] < value
        invariant
            position <= list@.len(),
            list@ == before,
            strictly_increasing(before),
            forall|q: int| 0 <= q < position ==> before[q] < value,
        decreases list@.len() - position,
    {
        position = position + 1;
    }
    if position < list.len() && list[position] == value {
        assert(before.contains(value));
        return list;
    }
    list.insert(position, value);
    let ghost after = list@;
    assert(after == before.insert(position as int, value));
    assert forall|x: usize| #[trigger] after.contains(x) <==> (before.contains(x) || x == value) by {
        if after.contains(x) {
            let q = choose|q: int| 0 <= q < after.len() && after[q] == x;
            if q < position {
                assert(before[q] == x);
            } else if q > position {
                assert(before[q - 1] == x);
            }
        }
        if before.contains(x) {
            let q = choose|q: int| 0 <= q < before.len() && before[q] == x;
            if q < position {
                assert(after[q] == x);
            } else {
                assert(after[q + 1] == x);
            }
        }
        if x == value {
            assert(after[position as int] == value);
        }
    }
    list
}

proof fn lemma_first_walker_step(edges: Seq<(u128, usize)>, step: int, code: u128)
    requires
        0 <= step < edges.len(),
    ensures
        first_walker(edges.take(step + 1), code) == (match first_walker(edges.take(step), code) {
            Some(walker) => Some(walker),
            None => if edges[step].0 == code {
                Some(edges[step].1)
            } else {
                None
            },
        }),
{
    assert(edges.take(step + 1).drop_last() =~= edges.take(step));
}

/// For each province, the sorted list of provinces that share a border with it.
pub fn province_adjacency(provinces: &Vec<Vec<RingMesh>>) -> (adjacency: Vec<Vec<usize>>)
    requires
        atlas_wf(provinces@),
    ensures
        adjacency@.len() == provinces@.len(),
        forall|a: int|
            0 <= a < adjacency@.len() ==> strictly_increasing(#[trigger] adjacency@[a]@),
        forall|a: int, b: usize|
            0 <= a < adjacency@.len() ==> (#[trigger] adjacency@[a]@.contains(b) <==> borders(
                provinces@,
                a as usize,
                b,
            )),
{
    let edges = collect_edges(provinces);
    let ghost all = edges@;
    let count = provinces.len();
    proof {
        lemma_atlas_edges_tagged(provinces@);
    }
    let mut adjacency: Vec<Vec<usize>> = Vec::new();
    let mut index: usize = 0;
    while index < count
        invariant
            index <= count,
            adjacency@.len() == index,
            forall|a: int| 0 <= a < index ==> (#[trigger] adjacency@[a])@.len() == 0,
        decreases count - index,
    {
        adjacency.push(Vec::new());
        index = index + 1;
    }
    let mut first: HashMapWithView<u128, usize> = HashMapWithView::new();
    let total = edges.len();
    let mut step: usize = 0;
    while step < total
        invariant
            total == all.len(),
            all == edges@,
            all == atlas_edges(provinces@),
            count == provinces@.len(),
            step <= total,
            adjacency@.len() == count,
            forall|e: int| 0 <= e < all.len() ==> #[trigger] all[e].1 < count,
            forall|a: int| 0 <= a < count ==> strictly_increasing(#[trigger] adjacency@[a]@),
            forall|a: int, b: usize|
                0 <= a < count ==> (#[trigger] adjacency@[a]@.contains(b) <==> linked_within(
                    all,
                    step as int,
                    a as usize,
                    b,
                )),
            forall|code: u128|
                #[trigger] first@.contains_key(code) <==> first_walker(
                    all.take(step as int),
                    code,
                ) is Some,
            forall|code: u128|
                #[trigger] first@.contains_key(code) ==> first_walker(all.take(step as int), code)
                    == Some(first@[code]),
            forall|code: u128| #[trigger] first@.contains_key(code) ==> first@[code] < count,
        decreases total - step,
    {
        let (code, walker) = edges[step];
        let ghost before = adjacency@;
        proof {
            lemma_first_walker_step(all, step as int, code);
            assert forall|other: u128| other != code implies first_walker(
                all.take(step + 1),
                other,
            ) == first_walker(all.take(step as int), other) by {
                lemma_first_walker_step(all, step as int, other);
            }
        }
        match first.get(&code) {
            Some(owner_ref) => {
                let owner = *owner_ref;
                if owner != walker {
                    let mut list: Vec<usize> = Vec::new();
                    adjacency.set_and_swap(walker, &mut list);
                    adjacency.set(walker, with_inserted(list, owner));
                    let mut list: Vec<usize> = Vec::new();
                    adjacency.set_and_swap(owner, &mut list);
                    adjacency.set(owner, with_inserted(list, walker));
                }
                proof {
                    assert forall|a: int, b: usize|
                        0 <= a < count implies (#[trigger] adjacency@[a]@.contains(b)
                        <==> linked_within(all, step + 1, a as usize, b)) by {
                        let now = links_at(all, step as int, a as usize, b);
                        assert(now <==> (owner != walker && ((a == walker && b == owner) || (a
                            == owner && b == walker))));
                        if linked_within(all, step + 1, a as usize, b) && !now {
                            let s = choose|s: int|
                                0 <= s < step + 1 && #[trigger] links_at(all, s, a as usize, b);
                            assert(s < step);
                            assert(linked_within(all, step as int, a as usize, b));
                        }
                        if linked_within(all, step as int, a as usize, b) {
                            let s = choose|s: int|
                                0 <= s < step && #[trigger] links_at(all, s, a as usize, b);
                            assert(links_at(all, s, a as usize, b));
                        }
                        if now {
                            assert(links_at(all, step as int, a as usize, b));
                        }
                    }
                }
            },
            None => {
                first.insert(code, walker);
                proof {
                    assert forall|a: int, b: usize|
                        0 <= a < count implies (#[trigger] adjacency@[a]@.contains(b)
                        <==> linked_within(all, step + 1, a as usize, b)) by {
                        assert(!links_at(all, step as int, a as usize, b));
                        if linked_within(all, step + 1, a as usize, b) {
                            let s = choose|s: int|
                                0 <= s < step + 1 && #[trigger] links_at(all, s, a as usize, b);
                            assert(s < step);
                            assert(linked_within(all, step as int, a as usize, b));
                        }
                        if linked_within(all, step as int, a as usize, b) {
                            let s = choose|s: int|
                                0 <= s < step && #[trigger] links_at(all, s, a as usize, b);
                            assert(links_at(all, s, a as usize, b));
                        }
                    }
                }
            },
        }
        step = step + 1;
    }
    adjacency
}

/// Sharing a border is symmetric: `a` lists `b` exactly when `b` lists `a`.
pub proof fn lemma_borders_symmetric(provinces: Seq<Vec<RingMesh>>, a: usize, b: usize)
    ensures
        borders(provinces, a, b) == borders(provinces, b, a),
{
    let edges = atlas_edges(provinces);
    if borders(provinces, a, b) {
        let s = choose|s: int| 0 <= s < edges.len() && #[trigger] links_at(edges, s, a, b);
        assert(links_at(edges, s, b, a));
    }
    if borders(provinces, b, a) {
        let s = choose|s: int| 0 <= s < edges.len() && #[trigger] links_at(edges, s, b, a);
        assert(links_at(edges, s, a, b));
    }
}

/// No province borders itself.
pub proof fn lemma_no_province_borders_itself(provinces: Seq<Vec<RingMesh>>, a: usize)
    ensures
        !borders(provinces, a, a),
{
}

} // verus!
