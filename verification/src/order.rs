//! The order in which the cells of a grid are meshed: materials ascending, and
//! the cells of one material in storage order. This is what a stable sort of
//! the cells by material index produces.

use vstd::prelude::*;

verus! {

/// The cells among the first `upto` that hold `material`, in storage order.
pub open spec fn cells_of(voxels: Seq<usize>, material: int, upto: int) -> Seq<int>
    decreases upto,
{
    if upto <= 0 {
        Seq::empty()
    } else if voxels[upto - 1] == material {
        cells_of(voxels, material, upto - 1).push(upto - 1)
    } else {
        cells_of(voxels, material, upto - 1)
    }
}

/// The cells among the first `upto` whose material is below `materials`:
/// materials ascending, the cells of each material in storage order.
pub open spec fn order_prefix(voxels: Seq<usize>, materials: int, upto: int) -> Seq<int>
    decreases materials,
{
    if materials <= 0 {
        Seq::empty()
    } else {
        order_prefix(voxels, materials - 1, upto) + cells_of(voxels, materials - 1, upto)
    }
}

/// All cells of the grid in meshing order, for materials below `materials`.
pub open spec fn traversal_order(voxels: Seq<usize>, materials: int) -> Seq<int> {
    order_prefix(voxels, materials, voxels.len() as int)
}

/// The position in the meshing order at which the cells of `material` begin.
pub open spec fn bucket_start(voxels: Seq<usize>, material: int) -> int {
    traversal_order(voxels, material).len() as int
}

/// Whether every voxel names one of the first `materials` materials.
pub open spec fn materials_within(voxels: Seq<usize>, materials: int) -> bool {
    forall|i: int| 0 <= i < voxels.len() ==> #[trigger] voxels[i] < materials
}

/// The cells of a material are cells that hold it, listed in ascending order.
pub proof fn lemma_cells_of(voxels: Seq<usize>, material: int, upto: int)
    requires
        0 <= upto <= voxels.len(),
    ensures
        cells_of(voxels, material, upto).len() <= upto,
        forall|r: int|
            0 <= r < cells_of(voxels, material, upto).len() ==> {
                let cell = #[trigger] cells_of(voxels, material, upto)[r];
                0 <= cell < upto && voxels[cell] == material
            },
        forall|r: int, s: int|
            0 <= r < s < cells_of(voxels, material, upto).len() ==> cells_of(
                voxels,
                material,
                upto,
            )[r] < cells_of(voxels, material, upto)[s],
    decreases upto,
{
    if upto > 0 {
        lemma_cells_of(voxels, material, upto - 1);
    }
}

/// The cells of a material among fewer cells are a prefix of its cells among
/// more.
pub proof fn lemma_cells_of_prefix(voxels: Seq<usize>, material: int, fewer: int, more: int)
    requires
        0 <= fewer <= more,
    ensures
        cells_of(voxels, material, fewer).len() <= cells_of(voxels, material, more).len(),
        forall|r: int|
            0 <= r < cells_of(voxels, material, fewer).len() ==> cells_of(voxels, material, more)[r]
                == #[trigger] cells_of(voxels, material, fewer)[r],
    decreases more - fewer,
{
    if fewer < more {
        lemma_cells_of_prefix(voxels, material, fewer, more - 1);
    }
}

/// A cell that holds `material` is listed among that material's cells, after
/// the cells of the same material that are stored before it.
pub proof fn lemma_cell_listed(voxels: Seq<usize>, cell: int)
    requires
        0 <= cell < voxels.len(),
    ensures
        ({
            let material = voxels[cell] as int;
            let rank = cells_of(voxels, material, cell).len() as int;
            &&& rank < cells_of(voxels, material, voxels.len() as int).len()
            &&& cells_of(voxels, material, voxels.len() as int)[rank] == cell
        }),
{
    let material = voxels[cell] as int;
    let rank = cells_of(voxels, material, cell).len() as int;
    assert(cells_of(voxels, material, cell + 1)[rank] == cell);
    lemma_cells_of_prefix(voxels, material, cell + 1, voxels.len() as int);
}

/// One more cell lengthens the order by one exactly when its material is
/// among those ordered.
proof fn lemma_order_len_step(voxels: Seq<usize>, materials: int, upto: int)
    requires
        0 < upto,
    ensures
        order_prefix(voxels, materials, upto).len() == order_prefix(
            voxels,
            materials,
            upto - 1,
        ).len() + (if voxels[upto - 1] < materials {
            1int
        } else {
            0int
        }),
    decreases materials,
{
    if materials > 0 {
        lemma_order_len_step(voxels, materials - 1, upto);
    }
}

/// The order holds each cell at most once, and every cell once all materials
/// are ordered.
pub proof fn lemma_order_len(voxels: Seq<usize>, materials: int, upto: int)
    requires
        0 <= upto <= voxels.len(),
    ensures
        order_prefix(voxels, materials, upto).len() <= upto,
        materials_within(voxels, materials) ==> order_prefix(voxels, materials, upto).len()
            == upto,
    decreases upto, materials,
{
    if upto > 0 {
        lemma_order_len(voxels, materials, upto - 1);
        lemma_order_len_step(voxels, materials, upto);
    } else if materials > 0 {
        lemma_order_len(voxels, materials - 1, upto);
    }
}

/// The order for fewer materials is a prefix of the order for more.
pub proof fn lemma_order_prefix(voxels: Seq<usize>, fewer: int, more: int, upto: int)
    requires
        fewer <= more,
    ensures
        order_prefix(voxels, fewer, upto).len() <= order_prefix(voxels, more, upto).len(),
        forall|k: int|
            0 <= k < order_prefix(voxels, fewer, upto).len() ==> order_prefix(voxels, more, upto)[k]
                == #[trigger] order_prefix(voxels, fewer, upto)[k],
    decreases more - fewer,
{
    if fewer < more {
        lemma_order_prefix(voxels, fewer, more - 1, upto);
    }
}

/// The cells of one material stand together in the order, from the position
/// where the lower materials end.
pub proof fn lemma_order_bucket(
    voxels: Seq<usize>,
    materials: int,
    upto: int,
    material: int,
    rank: int,
)
    requires
        0 <= material < materials,
        0 <= rank < cells_of(voxels, material, upto).len(),
    ensures
        order_prefix(voxels, material, upto).len() + rank < order_prefix(
            voxels,
            material + 1,
            upto,
        ).len() <= order_prefix(voxels, materials, upto).len(),
        order_prefix(voxels, materials, upto)[order_prefix(voxels, material, upto).len() + rank]
            == cells_of(voxels, material, upto)[rank],
{
    let position = order_prefix(voxels, material, upto).len() + rank;
    assert(order_prefix(voxels, material + 1, upto)[position] == cells_of(
        voxels,
        material,
        upto,
    )[rank]);
    lemma_order_prefix(voxels, material + 1, materials, upto);
}

/// Every position of the order belongs to one material: it returns that
/// material and the rank of the position among the material's cells.
pub proof fn lemma_order_position(voxels: Seq<usize>, materials: int, upto: int, position: int)
    -> (bucket: (int, int))
    requires
        0 <= position < order_prefix(voxels, materials, upto).len(),
    ensures
        0 <= bucket.0 < materials,
        0 <= bucket.1 < cells_of(voxels, bucket.0, upto).len(),
        position == order_prefix(voxels, bucket.0, upto).len() + bucket.1,
        order_prefix(voxels, materials, upto)[position] == cells_of(
            voxels,
            bucket.0,
            upto,
        )[bucket.1],
    decreases materials,
{
    let below = order_prefix(voxels, materials - 1, upto).len();
    if position < below {
        lemma_order_position(voxels, materials - 1, upto, position)
    } else {
        (materials - 1, position - below)
    }
}

/// The meshing order is the stable sort of the cells by material: it lists
/// every cell of the grid, materials never decrease along it, and cells of
/// equal material keep their storage order.
pub proof fn lemma_traversal_order_sorted(voxels: Seq<usize>, materials: int)
    requires
        materials_within(voxels, materials),
    ensures
        traversal_order(voxels, materials).len() == voxels.len(),
        forall|k: int|
            0 <= k < voxels.len() ==> 0 <= #[trigger] traversal_order(voxels, materials)[k]
                < voxels.len(),
        forall|a: int, b: int|
            0 <= a < b < voxels.len() ==> {
                let first = #[trigger] traversal_order(voxels, materials)[a];
                let second = #[trigger] traversal_order(voxels, materials)[b];
                voxels[first] < voxels[second] || (voxels[first] == voxels[second] && first
                    < second)
            },
{
    let cells = voxels.len() as int;
    let order = traversal_order(voxels, materials);
    lemma_order_len(voxels, materials, cells);
    assert forall|k: int| 0 <= k < cells implies 0 <= #[trigger] order[k] < cells by {
        let (material, rank) = lemma_order_position(voxels, materials, cells, k);
        lemma_cells_of(voxels, material, cells);
    }
    assert forall|a: int, b: int| 0 <= a < b < cells implies {
        let first = #[trigger] order[a];
        let second = #[trigger] order[b];
        voxels[first] < voxels[second] || (voxels[first] == voxels[second] && first < second)
    } by {
        let (material_a, rank_a) = lemma_order_position(voxels, materials, cells, a);
        let (material_b, rank_b) = lemma_order_position(voxels, materials, cells, b);
        lemma_cells_of(voxels, material_a, cells);
        lemma_cells_of(voxels, material_b, cells);
        if material_a > material_b {
            lemma_order_bucket(voxels, materials, cells, material_b, rank_b);
            lemma_order_prefix(voxels, material_b + 1, material_a, cells);
        }
    }
}

/// Every cell of the grid stands in the meshing order: it returns the
/// position of `cell`.
pub proof fn lemma_cell_position(voxels: Seq<usize>, materials: int, cell: int) -> (position: int)
    requires
        materials_within(voxels, materials),
        0 <= cell < voxels.len(),
    ensures
        0 <= position < traversal_order(voxels, materials).len(),
        traversal_order(voxels, materials)[position] == cell,
        position == bucket_start(voxels, voxels[cell] as int) + cells_of(
            voxels,
            voxels[cell] as int,
            cell,
        ).len(),
{
    let material = voxels[cell] as int;
    let rank = cells_of(voxels, material, cell).len() as int;
    lemma_cell_listed(voxels, cell);
    lemma_order_bucket(voxels, materials, voxels.len() as int, material, rank);
    bucket_start(voxels, material) + rank
}

/// Whether `sorted` pairs each cell with its material, in meshing order.
pub open spec fn is_sorted_by_material(
    sorted: Seq<(usize, usize)>,
    voxels: Seq<usize>,
    materials: int,
) -> bool {
    &&& sorted.len() == voxels.len()
    &&& forall|k: int|
        0 <= k < sorted.len() ==> (#[trigger] sorted[k]).0 == traversal_order(voxels, materials)[k]
            && sorted[k].1 == voxels[sorted[k].0 as int]
}

/// Pairs each cell with its material and sorts the pairs by material,
/// keeping the storage order among cells of equal material.
///
/// The sort counts the cells of each material, gives each material a run of
/// that length, and then places the cells into the runs in storage order.
pub fn sort_by_material(voxels: &Vec<usize>, materials: usize) -> (sorted: Vec<(usize, usize)>)
    requires
        materials_within(voxels@, materials as int),
    ensures
        is_sorted_by_material(sorted@, voxels@, materials as int),
{
    let count = voxels.len();
    let mut next: Vec<usize> = vec![0usize; materials];
    for i in 0..count
        invariant
            count == voxels.len(),
            next.len() == materials,
            materials_within(voxels@, materials as int),
            forall|material: int|
                0 <= material < materials ==> #[trigger] next[material] == cells_of(
                    voxels@,
                    material,
                    i as int,
                ).len(),
    {
        let material = voxels[i];
        proof {
            lemma_cells_of(voxels@, material as int, i as int);
        }
        next[material] = next[material] + 1;
    }
    let mut total: usize = 0;
    for material in 0..materials
        invariant
            count == voxels.len(),
            next.len() == materials,
            total == bucket_start(voxels@, material as int),
            forall|lower: int|
                0 <= lower < material ==> #[trigger] next[lower] == bucket_start(voxels@, lower),
            forall|upper: int|
                material <= upper < materials ==> #[trigger] next[upper] == cells_of(
                    voxels@,
                    upper,
                    count as int,
                ).len(),
    {
        let size = next[material];
        proof {
            lemma_order_len(voxels@, material + 1, count as int);
        }
        next[material] = total;
        total = total + size;
    }
    let mut sorted: Vec<(usize, usize)> = vec![(0usize, 0usize); count];
    let mut i: usize = 0;
    while i < count
        invariant
            i <= count,
            count == voxels.len(),
            sorted.len() == count,
            next.len() == materials,
            materials_within(voxels@, materials as int),
            forall|material: int|
                0 <= material < materials ==> #[trigger] next[material] == bucket_start(
                    voxels@,
                    material,
                ) + cells_of(voxels@, material, i as int).len(),
            forall|material: int, rank: int|
                0 <= material < materials && 0 <= rank < cells_of(
                    voxels@,
                    material,
                    i as int,
                ).len() ==> sorted[bucket_start(voxels@, material) + rank] == (
                    (#[trigger] cells_of(voxels@, material, i as int)[rank]) as usize,
                    material as usize,
                ),
        decreases count - i,
    {
        let material = voxels[i];
        let position = next[material];
        proof {
            lemma_cell_listed(voxels@, i as int);
            lemma_cells_of_prefix(voxels@, material as int, i as int, count as int);
            lemma_order_bucket(
                voxels@,
                materials as int,
                count as int,
                material as int,
                cells_of(voxels@, material as int, i as int).len() as int,
            );
            lemma_order_len(voxels@, materials as int, count as int);
        }
        let ghost before = sorted@;
        sorted[position] = (i, material);
        next[material] = position + 1;
        proof {
            assert forall|other: int, rank: int|
                0 <= other < materials && 0 <= rank < cells_of(
                    voxels@,
                    other,
                    i + 1,
                ).len() implies sorted[bucket_start(voxels@, other) + rank] == (
                (#[trigger] cells_of(voxels@, other, i + 1)[rank]) as usize,
                other as usize,
            ) by {
                if other == material {
                    if rank < cells_of(voxels@, other, i as int).len() {
                        assert(before[bucket_start(voxels@, other) + rank] == (
                            cells_of(voxels@, other, i as int)[rank] as usize,
                            other as usize,
                        ));
                    }
                } else {
                    assert(before[bucket_start(voxels@, other) + rank] == (
                        cells_of(voxels@, other, i as int)[rank] as usize,
                        other as usize,
                    ));
                    lemma_cells_of_prefix(voxels@, other, i as int, count as int);
                    lemma_order_bucket(voxels@, materials as int, count as int, other, rank);
                    if other < material {
                        lemma_order_prefix(voxels@, other + 1, material as int, count as int);
                    } else {
                        lemma_order_prefix(voxels@, material + 1, other, count as int);
                    }
                }
            }
        }
        i = i + 1;
    }
    proof {
        lemma_order_len(voxels@, materials as int, count as int);
        assert forall|k: int| 0 <= k < sorted.len() implies (#[trigger] sorted[k]).0
            == traversal_order(voxels@, materials as int)[k] && sorted[k].1
            == voxels[sorted[k].0 as int] by {
            let (material, rank) = lemma_order_position(
                voxels@,
                materials as int,
                count as int,
                k,
            );
            lemma_cells_of(voxels@, material, count as int);
            assert(sorted[bucket_start(voxels@, material) + rank] == (
                cells_of(voxels@, material, count as int)[rank] as usize,
                material as usize,
            ));
        }
    }
    sorted
}

} // verus!
