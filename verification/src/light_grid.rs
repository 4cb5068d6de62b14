//! Turning a BSP light grid into irradiance volumes.
//!
//! A light grid (from the `LIGHTGRID_OCTREE` BSPX lump) is a set of leaves, each a box of cells
//! in Quake coordinates. A filled cell holds up to four samples, one per light style slot. Each
//! slot gets an irradiance volume of its samples' colors, and a style map volume records, per
//! cell, the light style of each of its slots.
use vstd::prelude::*;
use crate::irradiance::{
    in_grid, map_color, offset_valid, put_all_data, put_all_filled, texel_index, texel_ok, volume_fits,
    volume_texels, IrradianceVolumeBuilder, IrradianceVolumeScales,
};

verus! {

/// One sample of a light grid cell: a color and the light style it belongs to.
#[derive(Debug, Clone, Copy)]
pub struct LightGridSample {
    pub color: [u8; 3],
    pub style: u8,
}

/// A cell of a light grid leaf.
#[derive(Debug, Clone)]
pub enum LightGridCell {
    /// Lit: the samples of the cell, one per light style slot.
    Filled(Vec<LightGridSample>),
    /// No light data (outside the map, or inside a wall).
    Unfilled,
}

/// A box of cells of a light grid, in Quake coordinates (z up).
#[derive(Debug, Clone)]
pub struct LightGridLeaf {
    /// The position of the leaf's first cell in the grid.
    pub mins: [u32; 3],
    /// The number of cells along each axis.
    pub size: [u32; 3],
    /// The cells, `x` first, then `y`, then `z`.
    pub cells: Vec<LightGridCell>,
}

/// Whether the leaf holds one cell per position of its box.
pub open spec fn leaf_wf(l: LightGridLeaf) -> bool {
    l.cells@.len() == (l.size[0] * l.size[1]) * l.size[2]
}

/// The index of the cell at Quake position `(x, y, z)` of the leaf.
pub open spec fn cell_index(l: LightGridLeaf, x: int, y: int, z: int) -> int {
    x + l.size[0] * (y + l.size[1] * z)
}

impl LightGridLeaf {
    /// The cell at Quake position `(x, y, z)` of the leaf.
    pub fn get_cell(&self, x: u32, y: u32, z: u32) -> (r: &LightGridCell)
        requires
            leaf_wf(*self),
            x < self.size[0],
            y < self.size[1],
            z < self.size[2],
        ensures
            *r == self.cells@[cell_index(*self, x as int, y as int, z as int)],
    {
        proof { lemma_cell_index_bound(*self, x as int, y as int, z as int); }
        let _n = self.cells.len();
        let s0 = self.size[0] as usize;
        let s1 = self.size[1] as usize;
        let i = (x as usize) + s0 * ((y as usize) + s1 * (z as usize));
        &self.cells[i]
    }
}

proof fn lemma_cell_index_bound(l: LightGridLeaf, x: int, y: int, z: int)
    requires
        leaf_wf(l),
        0 <= x < l.size[0],
        0 <= y < l.size[1],
        0 <= z < l.size[2],
    ensures
        0 <= z * l.size[1] <= y + l.size[1] * z < l.size[1] * l.size[2],
        l.size[1] * l.size[2] <= l.cells@.len(),
        0 <= l.size[0] * (y + l.size[1] * z),
        0 <= cell_index(l, x, y, z) < l.cells@.len(),
{
    let s0 = l.size[0] as int;
    let s1 = l.size[1] as int;
    let s2 = l.size[2] as int;
    assert(0 <= z * s1 <= y + s1 * z < s1 * s2) by (nonlinear_arith)
        requires 0 <= y < s1, 0 <= z < s2;
    assert(0 <= s0 * (y + s1 * z)) by (nonlinear_arith) requires 0 <= s0, 0 <= y + s1 * z;
    assert(s1 * s2 <= (s0 * s1) * s2) by (nonlinear_arith) requires 1 <= s0, 0 <= s1, 0 <= s2;
    assert(x + s0 * (y + s1 * z) < (s0 * s1) * s2) by (nonlinear_arith)
        requires 0 <= x < s0, 0 <= y + s1 * z < s1 * s2;
}

// ---------------------------------------------------------------------------
// What filling does
// ---------------------------------------------------------------------------

/// The texels and filled flags of one volume.
pub type VolumeState = (Seq<[u8; 4]>, Seq<bool>);

/// The four slot volumes (each made when first needed), the style map volume, and the
/// positions of cells with more than four samples.
pub type FillState = (Seq<Option<VolumeState>>, VolumeState, Seq<Seq<u32>>);

/// A fresh volume of size `size` with every texel `color`.
pub open spec fn blank_volume(size: Seq<u32>, color: [u8; 4]) -> VolumeState {
    (Seq::new(volume_texels(size) as nat, |i: int| color), Seq::new(volume_texels(size) as nat, |i: int| false))
}

/// The texels after putting `color` unchanged into the six copies of `pos`.
pub open spec fn put_all_plain(data: Seq<[u8; 4]>, size: Seq<u32>, pos: Seq<u32>, color: [u8; 4]) -> Seq<[u8; 4]> {
    data.update(texel_index(size, pos, seq![0u32, 1, 0]), color)
        .update(texel_index(size, pos, seq![0u32, 1, 1]), color)
        .update(texel_index(size, pos, seq![0u32, 1, 2]), color)
        .update(texel_index(size, pos, seq![0u32, 0, 0]), color)
        .update(texel_index(size, pos, seq![0u32, 0, 1]), color)
        .update(texel_index(size, pos, seq![0u32, 0, 2]), color)
}

/// A slot volume after one sample of color `color` at `pos`; a missing volume is made first,
/// black and opaque.
pub open spec fn slot_put(slot: Option<VolumeState>, size: Seq<u32>, scales: IrradianceVolumeScales, pos: Seq<u32>, color: [u8; 4]) -> Option<VolumeState> {
    let base = match slot {
        Some(v) => v,
        None => blank_volume(size, [0u8, 0, 0, 255]),
    };
    Some((put_all_data(base.0, size, pos, color, scales), put_all_filled(base.1, size, pos)))
}

/// The number of slots a cell's samples fill: at most four.
pub open spec fn used_slots(samples: Seq<LightGridSample>) -> int {
    if samples.len() < 4 { samples.len() as int } else { 4 }
}

/// The color written for a sample: its color, fully opaque.
pub open spec fn sample_color(s: LightGridSample) -> [u8; 4] {
    [s.color[0], s.color[1], s.color[2], 255]
}

/// The style map texel of a cell: the style of each used slot, 0 for the others.
pub open spec fn style_texel(samples: Seq<LightGridSample>) -> [u8; 4] {
    let n = used_slots(samples);
    [
        if 0 < n { samples[0].style } else { 0 },
        if 1 < n { samples[1].style } else { 0 },
        if 2 < n { samples[2].style } else { 0 },
        if 3 < n { samples[3].style } else { 0 },
    ]
}

/// The state after the cell at `pos` with samples `samples`.
pub open spec fn apply_samples(st: FillState, size: Seq<u32>, scales: IrradianceVolumeScales, pos: Seq<u32>, samples: Seq<LightGridSample>) -> FillState {
    let n = used_slots(samples);
    (
        Seq::new(4, |j: int| if j < n { slot_put(st.0[j], size, scales, pos, sample_color(samples[j])) } else { st.0[j] }),
        (put_all_plain(st.1.0, size, pos, style_texel(samples)), put_all_filled(st.1.1, size, pos)),
        if samples.len() > 4 { st.2.push(pos) } else { st.2 },
    )
}

/// The grid position (in Bevy coordinates, y up) of the cell visited at `(x, y, z)` of leaf `l`.
pub open spec fn cell_pos(l: LightGridLeaf, x: int, y: int, z: int) -> Seq<u32> {
    seq![(x + l.mins[0]) as u32, (y + l.mins[2]) as u32, (z + l.mins[1]) as u32]
}

/// The cell visited at Bevy position `(x, y, z)` of leaf `l`: Quake position `(x, z, y)`.
pub open spec fn visited_cell(l: LightGridLeaf, x: int, y: int, z: int) -> LightGridCell {
    l.cells@[cell_index(l, x, z, y)]
}

/// One step of filling: the cell at Bevy position `(x, y, z)` of `l`.
pub open spec fn cell_step(st: FillState, size: Seq<u32>, scales: IrradianceVolumeScales, l: LightGridLeaf, x: int, y: int, z: int) -> FillState {
    match visited_cell(l, x, y, z) {
        LightGridCell::Filled(samples) => apply_samples(st, size, scales, cell_pos(l, x, y, z), samples@),
        LightGridCell::Unfilled => st,
    }
}

/// The cells `(x, y, 0..zn)` of `l`, in order.
pub open spec fn fill_z(st: FillState, size: Seq<u32>, scales: IrradianceVolumeScales, l: LightGridLeaf, x: int, y: int, zn: int) -> FillState
    decreases zn,
{
    if zn <= 0 {
        st
    } else {
        cell_step(fill_z(st, size, scales, l, x, y, zn - 1), size, scales, l, x, y, zn - 1)
    }
}

/// The cells `(x, 0..yn, _)` of `l`, in order.
pub open spec fn fill_y(st: FillState, size: Seq<u32>, scales: IrradianceVolumeScales, l: LightGridLeaf, x: int, yn: int) -> FillState
    decreases yn,
{
    if yn <= 0 {
        st
    } else {
        fill_z(fill_y(st, size, scales, l, x, yn - 1), size, scales, l, x, yn - 1, l.size[1] as int)
    }
}

/// The cells `(0..xn, _, _)` of `l`, in order.
pub open spec fn fill_x(st: FillState, size: Seq<u32>, scales: IrradianceVolumeScales, l: LightGridLeaf, xn: int) -> FillState
    decreases xn,
{
    if xn <= 0 {
        st
    } else {
        fill_y(fill_x(st, size, scales, l, xn - 1), size, scales, l, xn - 1, l.size[2] as int)
    }
}

/// All cells of the leaves `leafs`, leaf by leaf.
pub open spec fn fill_leafs(st: FillState, size: Seq<u32>, scales: IrradianceVolumeScales, leafs: Seq<LightGridLeaf>) -> FillState
    decreases leafs.len(),
{
    if leafs.len() == 0 {
        st
    } else {
        fill_x(fill_leafs(st, size, scales, leafs.drop_last()), size, scales, leafs.last(), leafs.last().size[0] as int)
    }
}

/// The state before any cell: no slot volume, a blank style map, nothing reported.
pub open spec fn initial_fill(size: Seq<u32>) -> FillState {
    (seq![None, None, None, None], blank_volume(size, [0u8, 0, 0, 0]), Seq::empty())
}

/// Whether every texel of the cell at `pos` (as integers) can be written in a volume of size
/// `size`.
pub open spec fn pos_ok(size: Seq<u32>, x: int, y: int, z: int) -> bool {
    &&& 0 <= x <= u32::MAX
    &&& 0 <= y <= u32::MAX
    &&& 0 <= z <= u32::MAX
    &&& forall|o: Seq<u32>| offset_valid(o) ==> texel_ok(size, seq![x as u32, y as u32, z as u32], o, volume_texels(size))
}

/// Whether every filled cell of `l` lies where its texels can be written.
pub open spec fn leaf_fits(size: Seq<u32>, l: LightGridLeaf) -> bool {
    forall|x: int, y: int, z: int| 0 <= x < l.size[0] && 0 <= y < l.size[2] && 0 <= z < l.size[1]
        && (#[trigger] visited_cell(l, x, y, z)) is Filled ==> pos_ok(size, x + l.mins[0], y + l.mins[2], z + l.mins[1])
}

// ---------------------------------------------------------------------------
// Filling
// ---------------------------------------------------------------------------

/// The volumes made from a light grid.
pub struct LightGridVolumes {
    /// One volume per light style slot, `None` for a slot no cell uses.
    pub slots: Vec<Option<IrradianceVolumeBuilder>>,
    /// Per cell, the light style of each slot.
    pub style_map: IrradianceVolumeBuilder,
    /// Cells with more than four samples: only the first four are used.
    pub overfull_cells: Vec<[u32; 3]>,
}

/// The texels and filled flags of a volume.
pub open spec fn volume_state(b: IrradianceVolumeBuilder) -> VolumeState {
    (b.spec_data(), b.spec_filled())
}

/// The texels and filled flags of a slot volume, if there is one.
pub open spec fn slot_state(o: Option<IrradianceVolumeBuilder>) -> Option<VolumeState> {
    match o {
        Some(b) => Some(volume_state(b)),
        None => None,
    }
}

/// The positions of `v` as sequences.
pub open spec fn positions_view(v: Seq<[u32; 3]>) -> Seq<Seq<u32>> {
    Seq::new(v.len(), |k: int| v[k]@)
}

/// What `v` holds, as a fill state.
pub open spec fn fill_state_of(v: LightGridVolumes) -> FillState {
    (Seq::new(v.slots@.len(), |j: int| slot_state(v.slots@[j])), volume_state(v.style_map), positions_view(v.overfull_cells@))
}

/// Whether the volumes of `v` are well formed, of size `size`, the slot volumes with scales
/// `scales` and the style map without any scaling.
pub open spec fn volumes_wf(v: LightGridVolumes, size: Seq<u32>, scales: IrradianceVolumeScales) -> bool {
    &&& v.slots@.len() == 4
    &&& forall|j: int| 0 <= j < 4 ==> slot_wf(#[trigger] v.slots@[j], size, scales)
    &&& v.style_map.wf()
    &&& v.style_map.spec_size() == size
    &&& is_identity(v.style_map.spec_scales())
}

/// Whether a slot volume, if there is one, is well formed with size `size` and scales `scales`.
pub open spec fn slot_wf(o: Option<IrradianceVolumeBuilder>, size: Seq<u32>, scales: IrradianceVolumeScales) -> bool {
    match o {
        Some(b) => b.wf() && b.spec_size() == size && b.spec_scales() == scales,
        None => true,
    }
}

/// Whether `s` leaves every color as it is.
pub open spec fn is_identity(s: IrradianceVolumeScales) -> bool {
    forall|c: int, v: int| 0 <= c < 3 && 0 <= v < 256 ==> {
        &&& s.x.table[c][v] == v
        &&& s.y.table[c][v] == v
        &&& s.z.table[c][v] == v
        &&& s.neg_x.table[c][v] == v
        &&& s.neg_y.table[c][v] == v
        &&& s.neg_z.table[c][v] == v
    }
}

proof fn lemma_identity_put_all(data: Seq<[u8; 4]>, size: Seq<u32>, pos: Seq<u32>, color: [u8; 4], s: IrradianceVolumeScales)
    requires
        is_identity(s),
    ensures
        put_all_data(data, size, pos, color, s) == put_all_plain(data, size, pos, color),
{
    assert(map_color(color, s.x) =~= color);
    assert(map_color(color, s.y) =~= color);
    assert(map_color(color, s.z) =~= color);
    assert(map_color(color, s.neg_x) =~= color);
    assert(map_color(color, s.neg_y) =~= color);
    assert(map_color(color, s.neg_z) =~= color);
}

/// Puts a sample's color into the volume of slot `j`, making the volume first if needed.
fn put_in_slot(v: &mut LightGridVolumes, j: usize, size: [u32; 3], scales: IrradianceVolumeScales, pos: [u32; 3], color: [u8; 4])
    requires
        j < 4,
        volume_fits(size@),
        volumes_wf(*old(v), size@, scales),
        forall|o: Seq<u32>| offset_valid(o) ==> texel_ok(size@, pos@, o, volume_texels(size@)),
    ensures
        volumes_wf(*final(v), size@, scales),
        fill_state_of(*final(v)) == (
            fill_state_of(*old(v)).0.update(j as int, slot_put(fill_state_of(*old(v)).0[j as int], size@, scales, pos@, color)),
            fill_state_of(*old(v)).1,
            fill_state_of(*old(v)).2,
        ),
{
    let ghost before = fill_state_of(*v);
    let slot = v.slots.remove(j);
    let mut b = match slot {
        Some(b) => b,
        None => {
            let b = IrradianceVolumeBuilder::new(size, [0, 0, 0, 255], scales);
            assert(volume_state(b) == blank_volume(size@, [0u8, 0, 0, 255]));
            b
        },
    };
    b.put_all(pos, color);
    v.slots.insert(j, Some(b));
    proof {
        assert forall|k: int| 0 <= k < 4 implies slot_wf(#[trigger] v.slots@[k], size@, scales) by {}
        assert(fill_state_of(*v).0 =~= before.0.update(j as int, slot_put(before.0[j as int], size@, scales, pos@, color)));
    }
}

/// Applies one filled cell at `pos`.
fn fill_cell(v: &mut LightGridVolumes, size: [u32; 3], scales: IrradianceVolumeScales, pos: [u32; 3], samples: &Vec<LightGridSample>)
    requires
        volume_fits(size@),
        volumes_wf(*old(v), size@, scales),
        forall|o: Seq<u32>| offset_valid(o) ==> texel_ok(size@, pos@, o, volume_texels(size@)),
    ensures
        volumes_wf(*final(v), size@, scales),
        fill_state_of(*final(v)) == apply_samples(fill_state_of(*old(v)), size@, scales, pos@, samples@),
{
    let ghost st = fill_state_of(*v);
    let n: usize = if samples.len() < 4 { samples.len() } else { 4 };
    let mut style: [u8; 4] = [0, 0, 0, 0];
    let mut j: usize = 0;
    while j < n
        invariant
            n == used_slots(samples@),
            j <= n <= 4,
            volume_fits(size@),
            volumes_wf(*v, size@, scales),
            forall|o: Seq<u32>| offset_valid(o) ==> texel_ok(size@, pos@, o, volume_texels(size@)),
            fill_state_of(*v).0 == Seq::new(4, |k: int| if k < j { slot_put(st.0[k], size@, scales, pos@, sample_color(samples@[k])) } else { st.0[k] }),
            fill_state_of(*v).1 == st.1,
            fill_state_of(*v).2 == st.2,
            forall|k: int| 0 <= k < 4 ==> style[k] == (if k < j { samples@[k].style } else { 0u8 }),
        decreases n - j,
    {
        let s = samples[j];
        put_in_slot(v, j, size, scales, pos, [s.color[0], s.color[1], s.color[2], 255]);
        style.set(j, s.style);
        proof {
            assert(fill_state_of(*v).0 =~= Seq::new(4, |k: int| if k < j + 1 { slot_put(st.0[k], size@, scales, pos@, sample_color(samples@[k])) } else { st.0[k] }));
        }
        j = j + 1;
    }
    assert(style =~= style_texel(samples@));
    proof { lemma_identity_put_all(v.style_map.spec_data(), size@, pos@, style, v.style_map.spec_scales()); }
    v.style_map.put_all(pos, style);
    if samples.len() > 4 {
        v.overfull_cells.push(pos);
        assert(positions_view(v.overfull_cells@) =~= st.2.push(pos@));
    }
}

/// Fills the irradiance volumes of a light grid of size `size` (in Bevy coordinates, y up) from
/// its leaves. Leaves are visited in order; in a leaf, Bevy `x`, then `y`, then `z`, where Bevy
/// `(x, y, z)` is Quake `(x, z, y)`. Each filled cell puts its samples' colors into the slot
/// volumes (mapped by `scales`) and its styles into the style map.
pub fn fill_light_grid(size: [u32; 3], leafs: &Vec<LightGridLeaf>, scales: IrradianceVolumeScales) -> (r: LightGridVolumes)
    requires
        volume_fits(size@),
        forall|k: int| 0 <= k < leafs@.len() ==> leaf_wf(#[trigger] leafs@[k]) && leaf_fits(size@, leafs@[k]),
    ensures
        volumes_wf(r, size@, scales),
        fill_state_of(r) == fill_leafs(initial_fill(size@), size@, scales, leafs@),
{
    let mut slots: Vec<Option<IrradianceVolumeBuilder>> = Vec::new();
    slots.push(None);
    slots.push(None);
    slots.push(None);
    slots.push(None);
    let style_map = IrradianceVolumeBuilder::new(size, [0, 0, 0, 0], IrradianceVolumeScales::identity());
    let mut v = LightGridVolumes { slots, style_map, overfull_cells: Vec::new() };
    assert(fill_state_of(v) =~= initial_fill(size@)) by {
        assert(fill_state_of(v).0 =~= seq![None, None, None, None]);
        assert(fill_state_of(v).2 =~= Seq::<Seq<u32>>::empty());
    }
    let mut li: usize = 0;
    while li < leafs.len()
        invariant
            li <= leafs@.len(),
            volume_fits(size@),
            forall|k: int| 0 <= k < leafs@.len() ==> leaf_wf(#[trigger] leafs@[k]) && leaf_fits(size@, leafs@[k]),
            volumes_wf(v, size@, scales),
            fill_state_of(v) == fill_leafs(initial_fill(size@), size@, scales, leafs@.take(li as int)),
        decreases leafs@.len() - li,
    {
        let l = &leafs[li];
        assert(leafs@.take(li + 1).drop_last() == leafs@.take(li as int));
        assert(leafs@.take(li + 1).last() == *l);
        assert(leaf_wf(*l) && leaf_fits(size@, *l));
        let ghost a = fill_state_of(v);
        let mut x: u32 = 0;
        while x < l.size[0]
            invariant
                volume_fits(size@),
                leaf_wf(*l),
                leaf_fits(size@, *l),
                volumes_wf(v, size@, scales),
                x <= l.size[0],
                fill_state_of(v) == fill_x(a, size@, scales, *l, x as int),
            decreases l.size[0] - x,
        {
            let ghost b = fill_state_of(v);
            let mut y: u32 = 0;
            while y < l.size[2]
                invariant
                    volume_fits(size@),
                    leaf_wf(*l),
                    leaf_fits(size@, *l),
                    volumes_wf(v, size@, scales),
                    x < l.size[0],
                    y <= l.size[2],
                    fill_state_of(v) == fill_y(b, size@, scales, *l, x as int, y as int),
                decreases l.size[2] - y,
            {
                let ghost c = fill_state_of(v);
                let mut z: u32 = 0;
                while z < l.size[1]
                    invariant
                        volume_fits(size@),
                        leaf_wf(*l),
                        leaf_fits(size@, *l),
                        volumes_wf(v, size@, scales),
                        x < l.size[0],
                        y < l.size[2],
                        z <= l.size[1],
                        fill_state_of(v) == fill_z(c, size@, scales, *l, x as int, y as int, z as int),
                    decreases l.size[1] - z,
                {
                    match l.get_cell(x, z, y) {
                        LightGridCell::Filled(samples) => {
                            assert(visited_cell(*l, x as int, y as int, z as int) is Filled);
                            let pos = [x + l.mins[0], y + l.mins[2], z + l.mins[1]];
                            assert(pos@ =~= cell_pos(*l, x as int, y as int, z as int));
                            assert(pos@ =~= seq![(x + l.mins[0]) as u32, (y + l.mins[2]) as u32, (z + l.mins[1]) as u32]);
                            fill_cell(&mut v, size, scales, pos, samples);
                        },
                        LightGridCell::Unfilled => {},
                    }
                    z = z + 1;
                }
                y = y + 1;
            }
            x = x + 1;
        }
        li = li + 1;
    }
    assert(leafs@.take(leafs@.len() as int) == leafs@);
    v
}

} // verus!
