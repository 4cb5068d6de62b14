//! Irradiance volumes built from BSP light grids.
//!
//! An irradiance volume of size `(x, y, z)` is a 3D texture of size `(x, 2y, 3z)`: six copies of
//! the grid, one per light direction. Direction `(0, oy, oz)` (with `oy <= 1`, `oz <= 2`) holds
//! its copy at offset `(0, oy * y, oz * z)`.
use vstd::prelude::*;
use ndshape::RuntimeShape;
use crate::shape::{
    dims_fit, row_major_index, shape3_delinearize, shape3_linearize, shape3_new, shape3_usize,
    shape_dims,
};

verus! {

// ---------------------------------------------------------------------------
// Directions
// ---------------------------------------------------------------------------

/// Whether `o` is the offset of one of the six directions: `(0, oy, oz)` with `oy <= 1`, `oz <= 2`.
pub open spec fn offset_valid(o: Seq<u32>) -> bool {
    o.len() == 3 && o[0] == 0 && o[1] <= 1 && o[2] <= 2
}

/// One of the six directions of an irradiance volume, by the offset of its copy of the grid
/// (in units of the grid's size).
#[derive(Debug, Clone, Copy)]
pub struct IrradianceVolumeDirection {
    offset: [u32; 3],
}

impl IrradianceVolumeDirection {
    #[verifier::type_invariant]
    closed spec fn inv(&self) -> bool {
        offset_valid(self.offset@)
    }

    /// The offset of this direction's copy of the grid.
    pub closed spec fn spec_offset(&self) -> Seq<u32> {
        self.offset@
    }

    /// The direction whose copy of the grid lies at `offset`, if there is one.
    pub fn from_offset(offset: [u32; 3]) -> (r: Option<Self>)
        ensures
            match r {
                Some(d) => offset_valid(offset@) && d.spec_offset() == offset@,
                None => !offset_valid(offset@),
            },
    {
        if offset[0] != 0 || offset[1] > 1 || offset[2] > 2 {
            None
        } else {
            Some(IrradianceVolumeDirection { offset })
        }
    }

    /// The offset of this direction's copy of the grid.
    pub fn offset(&self) -> (r: [u32; 3])
        ensures
            r@ == self.spec_offset(),
            offset_valid(r@),
    {
        proof { use_type_invariant(self); }
        self.offset
    }

    /// `+X`, at offset `(0, 1, 0)`.
    pub fn x() -> (r: Self)
        ensures
            r.spec_offset() == seq![0u32, 1, 0],
    {
        let r = IrradianceVolumeDirection { offset: [0, 1, 0] };
        assert(r.offset@ =~= seq![0u32, 1, 0]);
        r
    }

    /// `+Y`, at offset `(0, 1, 1)`.
    pub fn y() -> (r: Self)
        ensures
            r.spec_offset() == seq![0u32, 1, 1],
    {
        let r = IrradianceVolumeDirection { offset: [0, 1, 1] };
        assert(r.offset@ =~= seq![0u32, 1, 1]);
        r
    }

    /// `+Z`, at offset `(0, 1, 2)`.
    pub fn z() -> (r: Self)
        ensures
            r.spec_offset() == seq![0u32, 1, 2],
    {
        let r = IrradianceVolumeDirection { offset: [0, 1, 2] };
        assert(r.offset@ =~= seq![0u32, 1, 2]);
        r
    }

    /// `-X`, at offset `(0, 0, 0)`.
    pub fn neg_x() -> (r: Self)
        ensures
            r.spec_offset() == seq![0u32, 0, 0],
    {
        let r = IrradianceVolumeDirection { offset: [0, 0, 0] };
        assert(r.offset@ =~= seq![0u32, 0, 0]);
        r
    }

    /// `-Y`, at offset `(0, 0, 1)`.
    pub fn neg_y() -> (r: Self)
        ensures
            r.spec_offset() == seq![0u32, 0, 1],
    {
        let r = IrradianceVolumeDirection { offset: [0, 0, 1] };
        assert(r.offset@ =~= seq![0u32, 0, 1]);
        r
    }

    /// `-Z`, at offset `(0, 0, 2)`.
    pub fn neg_z() -> (r: Self)
        ensures
            r.spec_offset() == seq![0u32, 0, 2],
    {
        let r = IrradianceVolumeDirection { offset: [0, 0, 2] };
        assert(r.offset@ =~= seq![0u32, 0, 2]);
        r
    }
}

// ---------------------------------------------------------------------------
// Per-direction color scaling
// ---------------------------------------------------------------------------

/// How the red, green and blue bytes of a color are changed: `table[c][v]` replaces the value
/// `v` of channel `c`.
#[derive(Debug, Clone, Copy)]
pub struct ChannelMap {
    pub table: [[u8; 256]; 3],
}

/// `color` with its red, green and blue channels mapped by `m`; alpha is kept.
pub open spec fn map_color(color: [u8; 4], m: ChannelMap) -> [u8; 4] {
    [m.table[0][color[0] as int], m.table[1][color[1] as int], m.table[2][color[2] as int], color[3]]
}

impl ChannelMap {
    /// The map that leaves every channel as it is.
    pub fn identity() -> (r: Self)
        ensures
            forall|c: int, v: int| 0 <= c < 3 && 0 <= v < 256 ==> r.table[c][v] == v,
    {
        let mut row = [0u8; 256];
        let mut v: usize = 0;
        while v < 256
            invariant
                v <= 256,
                forall|w: int| 0 <= w < v ==> row[w] == w,
            decreases 256 - v,
        {
            row.set(v, v as u8);
            v = v + 1;
        }
        ChannelMap { table: [row, row, row] }
    }

    /// `color` with its red, green and blue channels mapped.
    pub fn apply(&self, color: [u8; 4]) -> (r: [u8; 4])
        ensures
            r == map_color(color, *self),
    {
        [self.table[0][color[0] as usize], self.table[1][color[1] as usize], self.table[2][color[2] as usize], color[3]]
    }
}

/// The color maps of the six directions of an irradiance volume, applied to every color put
/// into the volume with [`IrradianceVolumeBuilder::put_all`] (for example to darken some sides).
#[derive(Debug, Clone, Copy)]
pub struct IrradianceVolumeScales {
    pub x: ChannelMap,
    pub y: ChannelMap,
    pub z: ChannelMap,
    pub neg_x: ChannelMap,
    pub neg_y: ChannelMap,
    pub neg_z: ChannelMap,
}

impl IrradianceVolumeScales {
    /// Scales that change no color.
    pub fn identity() -> (r: Self)
        ensures
            forall|c: int, v: int| 0 <= c < 3 && 0 <= v < 256 ==> {
                &&& r.x.table[c][v] == v
                &&& r.y.table[c][v] == v
                &&& r.z.table[c][v] == v
                &&& r.neg_x.table[c][v] == v
                &&& r.neg_y.table[c][v] == v
                &&& r.neg_z.table[c][v] == v
            },
    {
        let m = ChannelMap::identity();
        IrradianceVolumeScales { x: m, y: m, z: m, neg_x: m, neg_y: m, neg_z: m }
    }
}

// ---------------------------------------------------------------------------
// Geometry of the volume
// ---------------------------------------------------------------------------

/// The size of the texture holding a volume of size `size`: `(x, 2y, 3z)`.
pub open spec fn full_dims(size: Seq<u32>) -> Seq<u32> {
    seq![size[0], (size[1] * 2) as u32, (size[2] * 3) as u32]
}

/// Whether a volume of size `size` fits: the texture's size and number of texels fit in a `u32`.
pub open spec fn volume_fits(size: Seq<u32>) -> bool {
    &&& size.len() == 3
    &&& size[1] * 2 <= u32::MAX
    &&& size[2] * 3 <= u32::MAX
    &&& size[0] * (size[1] * 2) <= u32::MAX
    &&& (size[0] * (size[1] * 2)) * (size[2] * 3) <= u32::MAX
}

/// The number of texels of a volume of size `size`.
pub open spec fn volume_texels(size: Seq<u32>) -> int {
    (size[0] * (size[1] * 2)) * (size[2] * 3)
}

/// The texture coordinate on axis `k` of the grid position `p` in the copy at offset `off`.
pub open spec fn texel_coord(size: Seq<u32>, p: Seq<u32>, off: Seq<u32>, k: int) -> int {
    p[k] + off[k] * size[k]
}

/// The index of the texel of grid position `p` in the copy at offset `off`.
pub open spec fn texel_index(size: Seq<u32>, p: Seq<u32>, off: Seq<u32>) -> int {
    texel_coord(size, p, off, 0) + size[0] * texel_coord(size, p, off, 1)
        + (size[0] * (size[1] * 2)) * texel_coord(size, p, off, 2)
}

/// Whether the texel of `p` in the copy at `off` can be computed without overflow and lies in a
/// volume of `texels` texels.
pub open spec fn texel_ok(size: Seq<u32>, p: Seq<u32>, off: Seq<u32>, texels: int) -> bool {
    &&& p.len() == 3
    &&& texel_coord(size, p, off, 1) <= u32::MAX
    &&& texel_coord(size, p, off, 2) <= u32::MAX
    &&& texel_index(size, p, off) < texels
}

/// Whether `p` lies in a volume of size `size`.
pub open spec fn in_grid(size: Seq<u32>, p: Seq<u32>) -> bool {
    p.len() == 3 && p[0] < size[0] && p[1] < size[1] && p[2] < size[2]
}

/// The grid position of texel `i` (see [`IrradianceVolumeBuilder::delinearize`]).
pub open spec fn texel_pos(size: Seq<u32>, i: int) -> Seq<u32> {
    let plane = size[0] * (size[1] * 2);
    let tx = (i % plane) % (size[0] as int);
    let ty = (i % plane) / (size[0] as int);
    let tz = i / plane;
    seq![tx as u32, (ty % (size[1] as int)) as u32, (tz % (size[2] as int)) as u32]
}

/// The direction offset of texel `i`.
pub open spec fn texel_offset(size: Seq<u32>, i: int) -> Seq<u32> {
    let plane = size[0] * (size[1] * 2);
    let ty = (i % plane) / (size[0] as int);
    let tz = i / plane;
    seq![0u32, (ty / (size[1] as int)) as u32, (tz / (size[2] as int)) as u32]
}

/// `size * 2` and `size * 3` fit, so the texture's size can be computed.
pub open spec fn full_size_fits(size: Seq<u32>) -> bool {
    size.len() == 3 && size[1] * 2 <= u32::MAX && size[2] * 3 <= u32::MAX
}

/// The size of the texture holding a volume of size `size`: `(x, 2y, 3z)`.
pub fn full_size(size: [u32; 3]) -> (r: [u32; 3])
    requires
        full_size_fits(size@),
    ensures
        r@ == full_dims(size@),
        r[0] == size[0],
        r[1] == size[1] * 2,
        r[2] == size[2] * 3,
{
    let r = [size[0], size[1] * 2, size[2] * 3];
    assert(r@ =~= full_dims(size@));
    r
}

proof fn lemma_texel_index_bound(size: Seq<u32>, p: Seq<u32>, off: Seq<u32>)
    requires
        volume_fits(size),
        in_grid(size, p),
        offset_valid(off),
    ensures
        texel_ok(size, p, off, volume_texels(size)),
        0 <= texel_index(size, p, off),
{
    let sx = size[0] as int;
    let sy = size[1] as int;
    let sz = size[2] as int;
    let tx = texel_coord(size, p, off, 0);
    let ty = texel_coord(size, p, off, 1);
    let tz = texel_coord(size, p, off, 2);
    assert(0 <= ty < 2 * sy) by (nonlinear_arith)
        requires ty == p[1] + off[1] * sy, p[1] < sy, 0 <= p[1], 0 <= off[1] <= 1;
    assert(0 <= tz < 3 * sz) by (nonlinear_arith)
        requires tz == p[2] + off[2] * sz, p[2] < sz, 0 <= p[2], 0 <= off[2] <= 2;
    assert(tx == p[0]);
    assert(0 <= tx + sx * ty + (sx * (sy * 2)) * tz < (sx * (sy * 2)) * (sz * 3)) by (nonlinear_arith)
        requires 0 <= tx < sx, 0 <= ty < 2 * sy, 0 <= tz < 3 * sz;
}

// ---------------------------------------------------------------------------
// The builder
// ---------------------------------------------------------------------------

/// Little helper to create irradiance volumes for BSPs: a texture of `[u8; 4]` colors with six
/// copies of a grid, and which texels have been filled.
pub struct IrradianceVolumeBuilder {
    size: [u32; 3],
    full_shape: RuntimeShape<u32, 3>,
    data: Vec<[u8; 4]>,
    filled: Vec<bool>,
    scales: IrradianceVolumeScales,
}

/// The raw contents of a built irradiance volume: a 3D RGBA8 texture.
#[derive(Debug)]
pub struct IrradianceVolumeImage {
    /// Width, height and depth of the texture.
    pub size: [u32; 3],
    /// The texels, four bytes each, row-major (x first, then y, then z).
    pub bytes: Vec<u8>,
}

impl IrradianceVolumeBuilder {
    /// The size of the grid (of each of the six copies).
    pub closed spec fn spec_size(&self) -> Seq<u32> {
        self.size@
    }

    /// The texels of the texture.
    pub closed spec fn spec_data(&self) -> Seq<[u8; 4]> {
        self.data@
    }

    /// Which texels have been filled.
    pub closed spec fn spec_filled(&self) -> Seq<bool> {
        self.filled@
    }

    /// The color maps applied by `put_all`.
    pub closed spec fn spec_scales(&self) -> IrradianceVolumeScales {
        self.scales
    }

    /// The builder's parts agree: the texture has the size the grid implies.
    pub closed spec fn wf(&self) -> bool {
        &&& volume_fits(self.size@)
        &&& shape_dims(self.full_shape) == full_dims(self.size@)
        &&& self.data@.len() == volume_texels(self.size@)
        &&& self.filled@.len() == volume_texels(self.size@)
    }

    /// A volume of grid size `size`, every texel `default_color` and unfilled.
    pub fn new(size: [u32; 3], default_color: [u8; 4], scales: IrradianceVolumeScales) -> (r: Self)
        requires
            volume_fits(size@),
        ensures
            r.wf(),
            r.spec_size() == size@,
            r.spec_scales() == scales,
            r.spec_data() == Seq::new(volume_texels(size@) as nat, |i: int| default_color),
            r.spec_filled() == Seq::new(volume_texels(size@) as nat, |i: int| false),
    {
        let full = full_size(size);
        let shape = shape3_new(full);
        let n = shape3_usize(&shape);
        let mut data: Vec<[u8; 4]> = Vec::new();
        let mut filled: Vec<bool> = Vec::new();
        let mut i: usize = 0;
        while i < n
            invariant
                i <= n,
                data@ == Seq::new(i as nat, |j: int| default_color),
                filled@ == Seq::new(i as nat, |j: int| false),
            decreases n - i,
        {
            data.push(default_color);
            filled.push(false);
            i = i + 1;
        }
        IrradianceVolumeBuilder { size, full_shape: shape, data, filled, scales }
    }

    /// The size of the grid.
    pub fn size(&self) -> (r: [u32; 3])
        ensures
            r@ == self.spec_size(),
    {
        self.size
    }

    /// The index of the texel of grid position `pos` in the copy of direction `dir`.
    pub fn linearize(&self, pos: [u32; 3], dir: IrradianceVolumeDirection) -> (r: usize)
        requires
            self.wf(),
            texel_ok(self.spec_size(), pos@, dir.spec_offset(), volume_texels(self.spec_size())),
        ensures
            r == texel_index(self.spec_size(), pos@, dir.spec_offset()),
    {
        let off = dir.offset();
        let q = [pos[0] + off[0] * self.size[0], pos[1] + off[1] * self.size[1], pos[2] + off[2] * self.size[2]];
        assert(row_major_index(shape_dims(self.full_shape), q@) == texel_index(self.size@, pos@, off@));
        shape3_linearize(&self.full_shape, q) as usize
    }

    /// Sets the texel of `pos` in the copy of `dir` to `color`, and marks it filled.
    pub fn put(&mut self, pos: [u32; 3], dir: IrradianceVolumeDirection, color: [u8; 4])
        requires
            old(self).wf(),
            texel_ok(old(self).spec_size(), pos@, dir.spec_offset(), volume_texels(old(self).spec_size())),
        ensures
            final(self).wf(),
            final(self).spec_size() == old(self).spec_size(),
            final(self).spec_scales() == old(self).spec_scales(),
            final(self).spec_data() == old(self).spec_data().update(
                texel_index(old(self).spec_size(), pos@, dir.spec_offset()),
                color,
            ),
            final(self).spec_filled() == old(self).spec_filled().update(
                texel_index(old(self).spec_size(), pos@, dir.spec_offset()),
                true,
            ),
    {
        let idx = self.linearize(pos, dir);
        self.data.set(idx, color);
        self.filled.set(idx, true);
    }

    /// Sets the texel of `pos` in all six copies, each to `color` mapped by the direction's
    /// color map, in the order `+X`, `+Y`, `+Z`, `-X`, `-Y`, `-Z`.
    pub fn put_all(&mut self, pos: [u32; 3], color: [u8; 4])
        requires
            old(self).wf(),
            forall|o: Seq<u32>| offset_valid(o) ==> texel_ok(old(self).spec_size(), pos@, o, volume_texels(old(self).spec_size())),
        ensures
            final(self).wf(),
            final(self).spec_size() == old(self).spec_size(),
            final(self).spec_scales() == old(self).spec_scales(),
            final(self).spec_data() == put_all_data(old(self).spec_data(), old(self).spec_size(), pos@, color, old(self).spec_scales()),
            final(self).spec_filled() == put_all_filled(old(self).spec_filled(), old(self).spec_size(), pos@),
            in_grid(old(self).spec_size(), pos@) ==> final(self).spec_data()[texel_index(old(self).spec_size(), pos@, seq![0u32, 1, 0])] == map_color(color, old(self).spec_scales().x),
            in_grid(old(self).spec_size(), pos@) ==> final(self).spec_data()[texel_index(old(self).spec_size(), pos@, seq![0u32, 1, 1])] == map_color(color, old(self).spec_scales().y),
            in_grid(old(self).spec_size(), pos@) ==> final(self).spec_data()[texel_index(old(self).spec_size(), pos@, seq![0u32, 1, 2])] == map_color(color, old(self).spec_scales().z),
            in_grid(old(self).spec_size(), pos@) ==> final(self).spec_data()[texel_index(old(self).spec_size(), pos@, seq![0u32, 0, 0])] == map_color(color, old(self).spec_scales().neg_x),
            in_grid(old(self).spec_size(), pos@) ==> final(self).spec_data()[texel_index(old(self).spec_size(), pos@, seq![0u32, 0, 1])] == map_color(color, old(self).spec_scales().neg_y),
            in_grid(old(self).spec_size(), pos@) ==> final(self).spec_data()[texel_index(old(self).spec_size(), pos@, seq![0u32, 0, 2])] == map_color(color, old(self).spec_scales().neg_z),
            in_grid(old(self).spec_size(), pos@) ==> forall|i: int| 0 <= i < old(self).spec_data().len() && texel_pos(old(self).spec_size(), i) != pos@
                ==> #[trigger] final(self).spec_data()[i] == old(self).spec_data()[i],
    {
        let ghost size = self.size@;
        let ghost d0 = self.data@;
        proof {
            if in_grid(size, pos@) {
                lemma_put_all_per_direction(d0, size, pos@, color, self.scales);
            }
        }
        assert(offset_valid(seq![0u32, 1, 0]) && offset_valid(seq![0u32, 1, 1]) && offset_valid(seq![0u32, 1, 2]));
        assert(offset_valid(seq![0u32, 0, 0]) && offset_valid(seq![0u32, 0, 1]) && offset_valid(seq![0u32, 0, 2]));
        let scales = self.scales;
        self.put(pos, IrradianceVolumeDirection::x(), scales.x.apply(color));
        self.put(pos, IrradianceVolumeDirection::y(), scales.y.apply(color));
        self.put(pos, IrradianceVolumeDirection::z(), scales.z.apply(color));
        self.put(pos, IrradianceVolumeDirection::neg_x(), scales.neg_x.apply(color));
        self.put(pos, IrradianceVolumeDirection::neg_y(), scales.neg_y.apply(color));
        self.put(pos, IrradianceVolumeDirection::neg_z(), scales.neg_z.apply(color));
    }

    /// The grid position and direction of texel `idx`.
    pub fn delinearize(&self, idx: usize) -> (r: ([u32; 3], IrradianceVolumeDirection))
        requires
            self.wf(),
            idx < volume_texels(self.spec_size()),
        ensures
            r.0@ == texel_pos(self.spec_size(), idx as int),
            r.1.spec_offset() == texel_offset(self.spec_size(), idx as int),
            in_grid(self.spec_size(), r.0@),
    {
        let ghost size = self.size@;
        proof { lemma_texel_dims(size, idx as int); }
        let pos = shape3_delinearize(&self.full_shape, idx as u32);
        let off = [0u32, pos[1] / self.size[1], pos[2] / self.size[2]];
        match IrradianceVolumeDirection::from_offset(off) {
            Some(dir) => {
                proof {
                    lemma_sub_div_mod(pos[1] as int, size[1] as int);
                    lemma_sub_div_mod(pos[2] as int, size[2] as int);
                }
                let local = [pos[0], pos[1] - off[1] * self.size[1], pos[2] - off[2] * self.size[2]];
                proof {
                    assert(local@ =~= texel_pos(size, idx as int));
                    assert(off@ =~= texel_offset(size, idx as int));
                }
                (local, dir)
            },
            None => {
                proof { assert(false); }
                ([0, 0, 0], IrradianceVolumeDirection::neg_x())
            },
        }
    }

    /// The texture: its size is `(x, 2y, 3z)` for a grid of size `(x, y, z)`, and its bytes
    /// are the texels' colors in order.
    pub fn build(self) -> (r: IrradianceVolumeImage)
        requires
            self.wf(),
        ensures
            r.size@ == full_dims(self.spec_size()),
            r.bytes@.len() == 4 * self.spec_data().len(),
            forall|i: int, c: int| 0 <= i < self.spec_data().len() && 0 <= c < 4 ==> r.bytes@[4 * i + c] == #[trigger] self.spec_data()[i][c],
    {
        let size = full_size(self.size);
        let mut bytes: Vec<u8> = Vec::new();
        let mut i: usize = 0;
        while i < self.data.len()
            invariant
                i <= self.data@.len(),
                bytes@.len() == 4 * i,
                forall|j: int, c: int| 0 <= j < i && 0 <= c < 4 ==> bytes@[4 * j + c] == #[trigger] self.data@[j][c],
            decreases self.data@.len() - i,
        {
            let t = self.data[i];
            bytes.push(t[0]);
            bytes.push(t[1]);
            bytes.push(t[2]);
            bytes.push(t[3]);
            i = i + 1;
        }
        IrradianceVolumeImage { size, bytes }
    }
}

/// The texels after `put_all(pos, color)`: the six copies of `pos`, each set to `color` mapped by
/// its direction's map, in the order `+X`, `+Y`, `+Z`, `-X`, `-Y`, `-Z`.
pub open spec fn put_all_data(data: Seq<[u8; 4]>, size: Seq<u32>, pos: Seq<u32>, color: [u8; 4], s: IrradianceVolumeScales) -> Seq<[u8; 4]> {
    data.update(texel_index(size, pos, seq![0u32, 1, 0]), map_color(color, s.x))
        .update(texel_index(size, pos, seq![0u32, 1, 1]), map_color(color, s.y))
        .update(texel_index(size, pos, seq![0u32, 1, 2]), map_color(color, s.z))
        .update(texel_index(size, pos, seq![0u32, 0, 0]), map_color(color, s.neg_x))
        .update(texel_index(size, pos, seq![0u32, 0, 1]), map_color(color, s.neg_y))
        .update(texel_index(size, pos, seq![0u32, 0, 2]), map_color(color, s.neg_z))
}

/// After `put_all(pos, color)`, the texel of `pos` in each direction's copy holds `color` mapped
/// by that direction's own map: `+X` (offset `(0, 1, 0)`) by `x`, `+Y` (`(0, 1, 1)`) by `y`,
/// `+Z` (`(0, 1, 2)`) by `z`, `-X` (`(0, 0, 0)`) by `neg_x`, `-Y` (`(0, 0, 1)`) by `neg_y` and
/// `-Z` (`(0, 0, 2)`) by `neg_z`. Every other texel keeps its color.
pub proof fn lemma_put_all_per_direction(data: Seq<[u8; 4]>, size: Seq<u32>, pos: Seq<u32>, color: [u8; 4], s: IrradianceVolumeScales)
    requires
        volume_fits(size),
        in_grid(size, pos),
        data.len() == volume_texels(size),
    ensures
        put_all_data(data, size, pos, color, s).len() == data.len(),
        put_all_data(data, size, pos, color, s)[texel_index(size, pos, seq![0u32, 1, 0])] == map_color(color, s.x),
        put_all_data(data, size, pos, color, s)[texel_index(size, pos, seq![0u32, 1, 1])] == map_color(color, s.y),
        put_all_data(data, size, pos, color, s)[texel_index(size, pos, seq![0u32, 1, 2])] == map_color(color, s.z),
        put_all_data(data, size, pos, color, s)[texel_index(size, pos, seq![0u32, 0, 0])] == map_color(color, s.neg_x),
        put_all_data(data, size, pos, color, s)[texel_index(size, pos, seq![0u32, 0, 1])] == map_color(color, s.neg_y),
        put_all_data(data, size, pos, color, s)[texel_index(size, pos, seq![0u32, 0, 2])] == map_color(color, s.neg_z),
        forall|i: int| 0 <= i < data.len() && texel_pos(size, i) != pos
            ==> #[trigger] put_all_data(data, size, pos, color, s)[i] == data[i],
{
    let ox = seq![0u32, 1, 0];
    let oy = seq![0u32, 1, 1];
    let oz = seq![0u32, 1, 2];
    let onx = seq![0u32, 0, 0];
    let ony = seq![0u32, 0, 1];
    let onz = seq![0u32, 0, 2];
    lemma_delinearize_linearize(size, pos, ox);
    lemma_delinearize_linearize(size, pos, oy);
    lemma_delinearize_linearize(size, pos, oz);
    lemma_delinearize_linearize(size, pos, onx);
    lemma_delinearize_linearize(size, pos, ony);
    lemma_delinearize_linearize(size, pos, onz);
    lemma_texel_index_bound(size, pos, ox);
    lemma_texel_index_bound(size, pos, oy);
    lemma_texel_index_bound(size, pos, oz);
    lemma_texel_index_bound(size, pos, onx);
    lemma_texel_index_bound(size, pos, ony);
    lemma_texel_index_bound(size, pos, onz);
    let ix = texel_index(size, pos, ox);
    let iy = texel_index(size, pos, oy);
    let iz = texel_index(size, pos, oz);
    let inx = texel_index(size, pos, onx);
    let iny = texel_index(size, pos, ony);
    let inz = texel_index(size, pos, onz);
    assert(ox[1] != oy[1] || ox[2] != oy[2]);
    assert(ix != iy && ix != iz && ix != inx && ix != iny && ix != inz);
    assert(iy != iz && iy != inx && iy != iny && iy != inz);
    assert(iz != inx && iz != iny && iz != inz);
    assert(inx != iny && inx != inz);
    assert(iny != inz);
    assert forall|i: int| 0 <= i < data.len() && texel_pos(size, i) != pos
        implies #[trigger] put_all_data(data, size, pos, color, s)[i] == data[i] by {
        assert(i != ix && i != iy && i != iz && i != inx && i != iny && i != inz);
    }
}

/// The filled flags after `put_all(pos, _)`: the six copies of `pos` are filled.
pub open spec fn put_all_filled(filled: Seq<bool>, size: Seq<u32>, pos: Seq<u32>) -> Seq<bool> {
    filled.update(texel_index(size, pos, seq![0u32, 1, 0]), true)
        .update(texel_index(size, pos, seq![0u32, 1, 1]), true)
        .update(texel_index(size, pos, seq![0u32, 1, 2]), true)
        .update(texel_index(size, pos, seq![0u32, 0, 0]), true)
        .update(texel_index(size, pos, seq![0u32, 0, 1]), true)
        .update(texel_index(size, pos, seq![0u32, 0, 2]), true)
}

/// `v - (v / d) * d == v % d`.
proof fn lemma_sub_div_mod(v: int, d: int)
    requires
        d > 0,
        v >= 0,
    ensures
        v - (v / d) * d == v % d,
        (v / d) * d <= v,
{
    vstd::arithmetic::div_mod::lemma_fundamental_div_mod(v, d);
    assert((v / d) * d == d * (v / d)) by (nonlinear_arith);
}

/// For a texel `i` of a fitting volume, the grid has no empty side, and the coordinates that
/// `delinearize` computes lie in the texture.
proof fn lemma_texel_dims(size: Seq<u32>, i: int)
    requires
        volume_fits(size),
        0 <= i < volume_texels(size),
    ensures
        size[0] > 0,
        size[1] > 0,
        size[2] > 0,
        (i % (size[0] * (size[1] * 2))) / (size[0] as int) < size[1] * 2,
        i / (size[0] * (size[1] * 2)) < size[2] * 3,
        texel_offset(size, i)[1] <= 1,
        texel_offset(size, i)[2] <= 2,
        in_grid(size, texel_pos(size, i)),
{
    let sx = size[0] as int;
    let sy = size[1] as int;
    let sz = size[2] as int;
    let plane = sx * (sy * 2);
    assert(sx > 0 && sy > 0 && sz > 0) by (nonlinear_arith)
        requires 0 <= i < plane * (sz * 3), plane == sx * (sy * 2), sx >= 0, sy >= 0, sz >= 0;
    assert(plane > 0) by (nonlinear_arith) requires sx > 0, sy > 0, plane == sx * (sy * 2);
    let r = i % plane;
    let ty = r / sx;
    let tz = i / plane;
    assert(0 <= r < plane) by (nonlinear_arith) requires plane > 0, r == i % plane, i >= 0;
    assert(0 <= ty < sy * 2) by (nonlinear_arith) requires 0 <= r < sx * (sy * 2), ty == r / sx, sx > 0;
    assert(0 <= tz < sz * 3) by (nonlinear_arith) requires 0 <= i < plane * (sz * 3), tz == i / plane, plane > 0;
    assert(ty / sy <= 1) by (nonlinear_arith) requires 0 <= ty < sy * 2, sy > 0;
    assert(tz / sz <= 2) by (nonlinear_arith) requires 0 <= tz < sz * 3, sz > 0;
    assert(0 <= r % sx < sx) by (nonlinear_arith) requires sx > 0, r >= 0;
    assert(0 <= ty % sy < sy) by (nonlinear_arith) requires sy > 0, ty >= 0;
    assert(0 <= tz % sz < sz) by (nonlinear_arith) requires sz > 0, tz >= 0;
    assert(0 <= ty / sy) by (nonlinear_arith) requires sy > 0, ty >= 0;
    assert(0 <= tz / sz) by (nonlinear_arith) requires sz > 0, tz >= 0;
}

// ---------------------------------------------------------------------------
// Flooding unfilled texels
// ---------------------------------------------------------------------------

/// The index of texel `(x, y, z)` of the copy at offset `off`, for integer coordinates.
pub open spec fn texel_index_at(size: Seq<u32>, x: int, y: int, z: int, off: Seq<u32>) -> int {
    (x + off[0] * size[0]) + size[0] * (y + off[1] * size[1]) + (size[0] * (size[1] * 2)) * (z + off[2] * size[2])
}

/// What texel `j` adds to a neighborhood sum: channel `ch` (`0..4`) of its color, or 1 for
/// `ch == 4` (the count of contributors); nothing when it is not filled.
pub open spec fn fill_term(data: Seq<[u8; 4]>, filled: Seq<bool>, j: int, ch: int) -> int {
    if filled[j] {
        if ch < 4 { data[j][ch] as int } else { 1 }
    } else {
        0
    }
}

/// The sum of `fill_term` over `z` in `z0..z1`, at `(x, y)` in the copy at `off`.
pub open spec fn z_sum(data: Seq<[u8; 4]>, filled: Seq<bool>, size: Seq<u32>, off: Seq<u32>, x: int, y: int, z0: int, z1: int, ch: int) -> int
    decreases z1 - z0,
{
    if z1 <= z0 {
        0
    } else {
        z_sum(data, filled, size, off, x, y, z0, z1 - 1, ch) + fill_term(data, filled, texel_index_at(size, x, y, z1 - 1, off), ch)
    }
}

/// The sum of `fill_term` over `y` in `y0..y1` and `z` in `z0..z1`, at `x`.
pub open spec fn y_sum(data: Seq<[u8; 4]>, filled: Seq<bool>, size: Seq<u32>, off: Seq<u32>, x: int, y0: int, y1: int, z0: int, z1: int, ch: int) -> int
    decreases y1 - y0,
{
    if y1 <= y0 {
        0
    } else {
        y_sum(data, filled, size, off, x, y0, y1 - 1, z0, z1, ch) + z_sum(data, filled, size, off, x, y1 - 1, z0, z1, ch)
    }
}

/// The sum of `fill_term` over the box `x0..x1`, `y0..y1`, `z0..z1`.
pub open spec fn box_sum(data: Seq<[u8; 4]>, filled: Seq<bool>, size: Seq<u32>, off: Seq<u32>, x0: int, x1: int, y0: int, y1: int, z0: int, z1: int, ch: int) -> int
    decreases x1 - x0,
{
    if x1 <= x0 {
        0
    } else {
        box_sum(data, filled, size, off, x0, x1 - 1, y0, y1, z0, z1, ch) + y_sum(data, filled, size, off, x1 - 1, y0, y1, z0, z1, ch)
    }
}

/// The first coordinate of the neighborhood of coordinate `c`: one less, but not below 0.
pub open spec fn near_lo(c: int) -> int {
    if c > 0 { c - 1 } else { 0 }
}

/// One past the last coordinate of the neighborhood of `c` on an axis of length `len`.
pub open spec fn near_hi(c: int, len: int) -> int {
    if c + 1 < len - 1 { c + 2 } else { len }
}

/// The sum over the filled texels around texel `i` (its own position included, in its own copy):
/// channel `ch` of their colors, or their number for `ch == 4`.
pub open spec fn neighborhood_sum(data: Seq<[u8; 4]>, filled: Seq<bool>, size: Seq<u32>, i: int, ch: int) -> int {
    let p = texel_pos(size, i);
    box_sum(data, filled, size, texel_offset(size, i),
        near_lo(p[0] as int), near_hi(p[0] as int, size[0] as int),
        near_lo(p[1] as int), near_hi(p[1] as int, size[1] as int),
        near_lo(p[2] as int), near_hi(p[2] as int, size[2] as int), ch)
}

/// Texel `i` after flooding: a filled texel keeps its color; an unfilled one takes the average,
/// channel by channel (rounded down), of the filled texels around it, or keeps its color when
/// there are none.
pub open spec fn flooded_texel(data: Seq<[u8; 4]>, filled: Seq<bool>, size: Seq<u32>, i: int) -> [u8; 4] {
    let n = neighborhood_sum(data, filled, size, i, 4);
    if filled[i] || n == 0 {
        data[i]
    } else {
        [
            (neighborhood_sum(data, filled, size, i, 0) / n) as u8,
            (neighborhood_sum(data, filled, size, i, 1) / n) as u8,
            (neighborhood_sum(data, filled, size, i, 2) / n) as u8,
            (neighborhood_sum(data, filled, size, i, 3) / n) as u8,
        ]
    }
}

/// All texels after flooding.
pub open spec fn flooded(data: Seq<[u8; 4]>, filled: Seq<bool>, size: Seq<u32>) -> Seq<[u8; 4]> {
    Seq::new(data.len(), |i: int| flooded_texel(data, filled, size, i))
}

proof fn lemma_fill_term_bound(data: Seq<[u8; 4]>, filled: Seq<bool>, j: int, ch: int)
    requires
        0 <= ch < 4,
    ensures
        0 <= fill_term(data, filled, j, ch) <= 255 * fill_term(data, filled, j, 4),
        0 <= fill_term(data, filled, j, 4) <= 1,
{
}

proof fn lemma_z_sum_bound(data: Seq<[u8; 4]>, filled: Seq<bool>, size: Seq<u32>, off: Seq<u32>, x: int, y: int, z0: int, z1: int, ch: int)
    requires
        0 <= ch < 4,
    ensures
        0 <= z_sum(data, filled, size, off, x, y, z0, z1, ch) <= 255 * z_sum(data, filled, size, off, x, y, z0, z1, 4),
        0 <= z_sum(data, filled, size, off, x, y, z0, z1, 4),
    decreases z1 - z0,
{
    if z1 > z0 {
        lemma_z_sum_bound(data, filled, size, off, x, y, z0, z1 - 1, ch);
        lemma_fill_term_bound(data, filled, texel_index_at(size, x, y, z1 - 1, off), ch);
    }
}

proof fn lemma_y_sum_bound(data: Seq<[u8; 4]>, filled: Seq<bool>, size: Seq<u32>, off: Seq<u32>, x: int, y0: int, y1: int, z0: int, z1: int, ch: int)
    requires
        0 <= ch < 4,
    ensures
        0 <= y_sum(data, filled, size, off, x, y0, y1, z0, z1, ch) <= 255 * y_sum(data, filled, size, off, x, y0, y1, z0, z1, 4),
        0 <= y_sum(data, filled, size, off, x, y0, y1, z0, z1, 4),
    decreases y1 - y0,
{
    if y1 > y0 {
        lemma_y_sum_bound(data, filled, size, off, x, y0, y1 - 1, z0, z1, ch);
        lemma_z_sum_bound(data, filled, size, off, x, y1 - 1, z0, z1, ch);
    }
}

proof fn lemma_box_sum_bound(data: Seq<[u8; 4]>, filled: Seq<bool>, size: Seq<u32>, off: Seq<u32>, x0: int, x1: int, y0: int, y1: int, z0: int, z1: int, ch: int)
    requires
        0 <= ch < 4,
    ensures
        0 <= box_sum(data, filled, size, off, x0, x1, y0, y1, z0, z1, ch) <= 255 * box_sum(data, filled, size, off, x0, x1, y0, y1, z0, z1, 4),
        0 <= box_sum(data, filled, size, off, x0, x1, y0, y1, z0, z1, 4),
    decreases x1 - x0,
{
    if x1 > x0 {
        lemma_box_sum_bound(data, filled, size, off, x0, x1 - 1, y0, y1, z0, z1, ch);
        lemma_y_sum_bound(data, filled, size, off, x1 - 1, y0, y1, z0, z1, ch);
    }
}

/// The average of sums bounded by `255 * n` fits in a byte.
proof fn lemma_average_fits(s: int, n: int)
    requires
        n > 0,
        0 <= s <= 255 * n,
    ensures
        0 <= s / n <= 255,
{
    assert(0 <= s / n <= 255) by (nonlinear_arith) requires n > 0, 0 <= s <= 255 * n;
}

/// Sums read only filled texels, so two texel sequences that agree on filled texels give the
/// same sums.
proof fn lemma_z_sum_filled_only(d: Seq<[u8; 4]>, d0: Seq<[u8; 4]>, f: Seq<bool>, size: Seq<u32>, off: Seq<u32>, x: int, y: int, z0: int, z1: int, ch: int)
    requires
        d.len() == d0.len(),
        forall|j: int| 0 <= j < d.len() && f[j] ==> d[j] == d0[j],
        forall|z: int| z0 <= z < z1 ==> 0 <= #[trigger] texel_index_at(size, x, y, z, off) < d.len(),
    ensures
        z_sum(d, f, size, off, x, y, z0, z1, ch) == z_sum(d0, f, size, off, x, y, z0, z1, ch),
    decreases z1 - z0,
{
    if z1 > z0 {
        lemma_z_sum_filled_only(d, d0, f, size, off, x, y, z0, z1 - 1, ch);
        assert(0 <= texel_index_at(size, x, y, z1 - 1, off) < d.len());
    }
}

proof fn lemma_y_sum_filled_only(d: Seq<[u8; 4]>, d0: Seq<[u8; 4]>, f: Seq<bool>, size: Seq<u32>, off: Seq<u32>, x: int, y0: int, y1: int, z0: int, z1: int, ch: int)
    requires
        d.len() == d0.len(),
        forall|j: int| 0 <= j < d.len() && f[j] ==> d[j] == d0[j],
        forall|y: int, z: int| y0 <= y < y1 && z0 <= z < z1 ==> 0 <= #[trigger] texel_index_at(size, x, y, z, off) < d.len(),
    ensures
        y_sum(d, f, size, off, x, y0, y1, z0, z1, ch) == y_sum(d0, f, size, off, x, y0, y1, z0, z1, ch),
    decreases y1 - y0,
{
    if y1 > y0 {
        lemma_y_sum_filled_only(d, d0, f, size, off, x, y0, y1 - 1, z0, z1, ch);
        lemma_z_sum_filled_only(d, d0, f, size, off, x, y1 - 1, z0, z1, ch);
    }
}

proof fn lemma_box_sum_filled_only(d: Seq<[u8; 4]>, d0: Seq<[u8; 4]>, f: Seq<bool>, size: Seq<u32>, off: Seq<u32>, x0: int, x1: int, y0: int, y1: int, z0: int, z1: int, ch: int)
    requires
        d.len() == d0.len(),
        forall|j: int| 0 <= j < d.len() && f[j] ==> d[j] == d0[j],
        forall|x: int, y: int, z: int| x0 <= x < x1 && y0 <= y < y1 && z0 <= z < z1 ==> 0 <= #[trigger] texel_index_at(size, x, y, z, off) < d.len(),
    ensures
        box_sum(d, f, size, off, x0, x1, y0, y1, z0, z1, ch) == box_sum(d0, f, size, off, x0, x1, y0, y1, z0, z1, ch),
    decreases x1 - x0,
{
    if x1 > x0 {
        lemma_box_sum_filled_only(d, d0, f, size, off, x0, x1 - 1, y0, y1, z0, z1, ch);
        lemma_y_sum_filled_only(d, d0, f, size, off, x1 - 1, y0, y1, z0, z1, ch);
    }
}

/// Every texel of a box inside the grid lies in the texture.
proof fn lemma_box_in_texture(size: Seq<u32>, off: Seq<u32>, x0: int, x1: int, y0: int, y1: int, z0: int, z1: int)
    requires
        volume_fits(size),
        offset_valid(off),
        0 <= x0 && x1 <= size[0],
        0 <= y0 && y1 <= size[1],
        0 <= z0 && z1 <= size[2],
    ensures
        forall|x: int, y: int, z: int| x0 <= x < x1 && y0 <= y < y1 && z0 <= z < z1 ==> 0 <= #[trigger] texel_index_at(size, x, y, z, off) < volume_texels(size),
{
    assert forall|x: int, y: int, z: int| x0 <= x < x1 && y0 <= y < y1 && z0 <= z < z1 implies 0 <= #[trigger] texel_index_at(size, x, y, z, off) < volume_texels(size) by {
        let p = seq![x as u32, y as u32, z as u32];
        lemma_texel_index_bound(size, p, off);
    }
}

impl IrradianceVolumeBuilder {
    /// The sums of `fill_term` over the box `lo..hi` in the copy of `dir`: the four channels,
    /// then the count of filled texels.
    fn box_sums(&self, lo: [u32; 3], hi: [u32; 3], dir: IrradianceVolumeDirection) -> (r: ([u16; 4], u16))
        requires
            self.wf(),
            forall|k: int| 0 <= k < 3 ==> lo[k] < hi[k] <= self.spec_size()[k] && hi[k] - lo[k] <= 3,
        ensures
            forall|ch: int| 0 <= ch < 4 ==> r.0[ch] == box_sum(self.spec_data(), self.spec_filled(), self.spec_size(), dir.spec_offset(),
                lo[0] as int, hi[0] as int, lo[1] as int, hi[1] as int, lo[2] as int, hi[2] as int, ch),
            r.1 == box_sum(self.spec_data(), self.spec_filled(), self.spec_size(), dir.spec_offset(),
                lo[0] as int, hi[0] as int, lo[1] as int, hi[1] as int, lo[2] as int, hi[2] as int, 4),
    {
        let ghost size = self.size@;
        let ghost d = self.data@;
        let ghost f = self.filled@;
        let ghost off = dir.spec_offset();
        let _ = dir.offset();
        let mut s0: u16 = 0;
        let mut s1: u16 = 0;
        let mut s2: u16 = 0;
        let mut s3: u16 = 0;
        let mut cnt: u16 = 0;
        let mut x = lo[0];
        while x < hi[0]
            invariant
                self.wf(),
                size == self.size@, d == self.data@, f == self.filled@, off == dir.spec_offset(), offset_valid(off),
                forall|k: int| 0 <= k < 3 ==> lo[k] < hi[k] <= size[k] && hi[k] - lo[k] <= 3,
                lo[0] <= x <= hi[0],
                s0 == box_sum(d, f, size, off, lo[0] as int, x as int, lo[1] as int, hi[1] as int, lo[2] as int, hi[2] as int, 0),
                s1 == box_sum(d, f, size, off, lo[0] as int, x as int, lo[1] as int, hi[1] as int, lo[2] as int, hi[2] as int, 1),
                s2 == box_sum(d, f, size, off, lo[0] as int, x as int, lo[1] as int, hi[1] as int, lo[2] as int, hi[2] as int, 2),
                s3 == box_sum(d, f, size, off, lo[0] as int, x as int, lo[1] as int, hi[1] as int, lo[2] as int, hi[2] as int, 3),
                cnt == box_sum(d, f, size, off, lo[0] as int, x as int, lo[1] as int, hi[1] as int, lo[2] as int, hi[2] as int, 4),
                cnt <= 9 * (x - lo[0]),
                s0 <= 255 * cnt, s1 <= 255 * cnt, s2 <= 255 * cnt, s3 <= 255 * cnt,
            decreases hi[0] - x,
        {
            let ghost acc_x = |ch: int| box_sum(d, f, size, off, lo[0] as int, x as int, lo[1] as int, hi[1] as int, lo[2] as int, hi[2] as int, ch);
            let mut y = lo[1];
            while y < hi[1]
                invariant
                    self.wf(),
                    size == self.size@, d == self.data@, f == self.filled@, off == dir.spec_offset(), offset_valid(off),
                    forall|k: int| 0 <= k < 3 ==> lo[k] < hi[k] <= size[k] && hi[k] - lo[k] <= 3,
                    lo[0] <= x < hi[0],
                    lo[1] <= y <= hi[1],
                    s0 == acc_x(0) + y_sum(d, f, size, off, x as int, lo[1] as int, y as int, lo[2] as int, hi[2] as int, 0),
                    s1 == acc_x(1) + y_sum(d, f, size, off, x as int, lo[1] as int, y as int, lo[2] as int, hi[2] as int, 1),
                    s2 == acc_x(2) + y_sum(d, f, size, off, x as int, lo[1] as int, y as int, lo[2] as int, hi[2] as int, 2),
                    s3 == acc_x(3) + y_sum(d, f, size, off, x as int, lo[1] as int, y as int, lo[2] as int, hi[2] as int, 3),
                    cnt == acc_x(4) + y_sum(d, f, size, off, x as int, lo[1] as int, y as int, lo[2] as int, hi[2] as int, 4),
                    cnt <= 9 * (x - lo[0]) + 3 * (y - lo[1]),
                    s0 <= 255 * cnt, s1 <= 255 * cnt, s2 <= 255 * cnt, s3 <= 255 * cnt,
                decreases hi[1] - y,
            {
                let ghost acc_y = |ch: int| acc_x(ch) + y_sum(d, f, size, off, x as int, lo[1] as int, y as int, lo[2] as int, hi[2] as int, ch);
                let mut z = lo[2];
                while z < hi[2]
                    invariant
                        self.wf(),
                        size == self.size@, d == self.data@, f == self.filled@, off == dir.spec_offset(), offset_valid(off),
                        forall|k: int| 0 <= k < 3 ==> lo[k] < hi[k] <= size[k] && hi[k] - lo[k] <= 3,
                        lo[0] <= x < hi[0],
                        lo[1] <= y < hi[1],
                        lo[2] <= z <= hi[2],
                        s0 == acc_y(0) + z_sum(d, f, size, off, x as int, y as int, lo[2] as int, z as int, 0),
                        s1 == acc_y(1) + z_sum(d, f, size, off, x as int, y as int, lo[2] as int, z as int, 1),
                        s2 == acc_y(2) + z_sum(d, f, size, off, x as int, y as int, lo[2] as int, z as int, 2),
                        s3 == acc_y(3) + z_sum(d, f, size, off, x as int, y as int, lo[2] as int, z as int, 3),
                        cnt == acc_y(4) + z_sum(d, f, size, off, x as int, y as int, lo[2] as int, z as int, 4),
                        cnt <= 9 * (x - lo[0]) + 3 * (y - lo[1]) + (z - lo[2]),
                        s0 <= 255 * cnt, s1 <= 255 * cnt, s2 <= 255 * cnt, s3 <= 255 * cnt,
                    decreases hi[2] - z,
                {
                    let p = [x, y, z];
                    proof { lemma_texel_index_bound(size, p@, off); }
                    let idx = self.linearize(p, dir);
                    assert(idx == texel_index_at(size, x as int, y as int, z as int, off));
                    if self.filled[idx] {
                        let t = self.data[idx];
                        s0 = s0 + t[0] as u16;
                        s1 = s1 + t[1] as u16;
                        s2 = s2 + t[2] as u16;
                        s3 = s3 + t[3] as u16;
                        cnt = cnt + 1;
                    }
                    z = z + 1;
                }
                y = y + 1;
            }
            x = x + 1;
        }
        ([s0, s1, s2, s3], cnt)
    }

    /// The average color of the filled texels around texel `i`, if there are any (see
    /// [`flooded_texel`]).
    fn neighborhood_average(&self, i: usize) -> (r: Option<[u8; 4]>)
        requires
            self.wf(),
            i < volume_texels(self.spec_size()),
        ensures
            match r {
                Some(avg) => {
                    let n = neighborhood_sum(self.spec_data(), self.spec_filled(), self.spec_size(), i as int, 4);
                    &&& n != 0
                    &&& avg[0] == (neighborhood_sum(self.spec_data(), self.spec_filled(), self.spec_size(), i as int, 0) / n) as u8
                    &&& avg[1] == (neighborhood_sum(self.spec_data(), self.spec_filled(), self.spec_size(), i as int, 1) / n) as u8
                    &&& avg[2] == (neighborhood_sum(self.spec_data(), self.spec_filled(), self.spec_size(), i as int, 2) / n) as u8
                    &&& avg[3] == (neighborhood_sum(self.spec_data(), self.spec_filled(), self.spec_size(), i as int, 3) / n) as u8
                },
                None => neighborhood_sum(self.spec_data(), self.spec_filled(), self.spec_size(), i as int, 4) == 0,
            },
    {
        let ghost size = self.size@;
        let (pos, dir) = self.delinearize(i);
        proof { lemma_texel_dims(size, i as int); }
        let (lo, hi) = near_bounds(pos, self.size);
        let ghost d = self.data@;
        let ghost f = self.filled@;
        let ghost off = dir.spec_offset();
        assert forall|ch: int| #[trigger] neighborhood_sum(d, f, size, i as int, ch) == box_sum(d, f, size, off,
            lo[0] as int, hi[0] as int, lo[1] as int, hi[1] as int, lo[2] as int, hi[2] as int, ch) by {}
        let (c, cnt) = self.box_sums(lo, hi, dir);
        if cnt == 0 {
            return None;
        }
        proof {
            lemma_box_sum_bound(d, f, size, off, lo[0] as int, hi[0] as int, lo[1] as int, hi[1] as int, lo[2] as int, hi[2] as int, 0);
            lemma_box_sum_bound(d, f, size, off, lo[0] as int, hi[0] as int, lo[1] as int, hi[1] as int, lo[2] as int, hi[2] as int, 1);
            lemma_box_sum_bound(d, f, size, off, lo[0] as int, hi[0] as int, lo[1] as int, hi[1] as int, lo[2] as int, hi[2] as int, 2);
            lemma_box_sum_bound(d, f, size, off, lo[0] as int, hi[0] as int, lo[1] as int, hi[1] as int, lo[2] as int, hi[2] as int, 3);
            lemma_average_fits(c[0] as int, cnt as int);
            lemma_average_fits(c[1] as int, cnt as int);
            lemma_average_fits(c[2] as int, cnt as int);
            lemma_average_fits(c[3] as int, cnt as int);
        }
        Some([(c[0] / cnt) as u8, (c[1] / cnt) as u8, (c[2] / cnt) as u8, (c[3] / cnt) as u8])
    }

    /// Gives every unfilled texel the average color of the filled texels around it (see
    /// [`flooded_texel`]); filled texels, and unfilled ones with no filled neighbor, keep
    /// their colors.
    pub fn flood_non_filled(&mut self)
        requires
            old(self).wf(),
        ensures
            final(self).wf(),
            final(self).spec_size() == old(self).spec_size(),
            final(self).spec_scales() == old(self).spec_scales(),
            final(self).spec_filled() == old(self).spec_filled(),
            final(self).spec_data() == flooded(old(self).spec_data(), old(self).spec_filled(), old(self).spec_size()),
    {
        let ghost d0 = self.data@;
        let ghost f0 = self.filled@;
        let ghost size = self.size@;
        let n = self.filled.len();
        let mut i: usize = 0;
        while i < n
            invariant
                self.wf(),
                size == self.size@,
                f0 == self.filled@,
                n == f0.len() == d0.len() == volume_texels(size),
                self.data@.len() == n,
                self.scales == old(self).scales,
                size == old(self).size@,
                d0 == old(self).data@,
                f0 == old(self).filled@,
                i <= n,
                forall|j: int| 0 <= j < n && f0[j] ==> self.data@[j] == d0[j],
                forall|j: int| i <= j < n ==> self.data@[j] == d0[j],
                forall|j: int| 0 <= j < i ==> self.data@[j] == flooded_texel(d0, f0, size, j),
            decreases n - i,
        {
            if !self.filled[i] {
                proof { lemma_neighborhood_filled_only(self.data@, d0, f0, size, i as int); }
                match self.neighborhood_average(i) {
                    Some(avg) => {
                        self.data.set(i, avg);
                    },
                    None => {},
                }
            }
            i = i + 1;
        }
        assert(self.data@ =~= flooded(d0, f0, size));
    }
}

/// The neighborhood of `pos` in a grid of size `size`: from one less to one more on each axis,
/// kept inside the grid (`hi` is exclusive).
fn near_bounds(pos: [u32; 3], size: [u32; 3]) -> (r: ([u32; 3], [u32; 3]))
    requires
        in_grid(size@, pos@),
    ensures
        forall|k: int| 0 <= k < 3 ==> {
            &&& r.0[k] == near_lo(pos[k] as int)
            &&& r.1[k] == near_hi(pos[k] as int, size[k] as int)
            &&& r.0[k] < r.1[k] <= size[k]
            &&& r.1[k] - r.0[k] <= 3
        },
{
    let lo = [
        if pos[0] > 0 { pos[0] - 1 } else { 0 },
        if pos[1] > 0 { pos[1] - 1 } else { 0 },
        if pos[2] > 0 { pos[2] - 1 } else { 0 },
    ];
    let hi = [
        if pos[0] + 1 < size[0] - 1 { pos[0] + 2 } else { size[0] },
        if pos[1] + 1 < size[1] - 1 { pos[1] + 2 } else { size[1] },
        if pos[2] + 1 < size[2] - 1 { pos[2] + 2 } else { size[2] },
    ];
    (lo, hi)
}

/// The sums around a texel read only filled texels.
proof fn lemma_neighborhood_filled_only(d: Seq<[u8; 4]>, d0: Seq<[u8; 4]>, f: Seq<bool>, size: Seq<u32>, i: int)
    requires
        volume_fits(size),
        0 <= i < volume_texels(size),
        d.len() == d0.len() == volume_texels(size),
        forall|j: int| 0 <= j < d.len() && f[j] ==> d[j] == d0[j],
    ensures
        forall|ch: int| #[trigger] neighborhood_sum(d, f, size, i, ch) == neighborhood_sum(d0, f, size, i, ch),
{
    lemma_texel_dims(size, i);
    let p = texel_pos(size, i);
    let off = texel_offset(size, i);
    let x0 = near_lo(p[0] as int);
    let x1 = near_hi(p[0] as int, size[0] as int);
    let y0 = near_lo(p[1] as int);
    let y1 = near_hi(p[1] as int, size[1] as int);
    let z0 = near_lo(p[2] as int);
    let z1 = near_hi(p[2] as int, size[2] as int);
    lemma_box_in_texture(size, off, x0, x1, y0, y1, z0, z1);
    assert forall|ch: int| #[trigger] neighborhood_sum(d, f, size, i, ch) == neighborhood_sum(d0, f, size, i, ch) by {
        lemma_box_sum_filled_only(d, d0, f, size, off, x0, x1, y0, y1, z0, z1, ch);
    }
}

/// A run of `z` at `(x, y)` whose only possibly filled texel is `(jx, jy, jz)` sums that texel
/// alone, when the run holds it.
proof fn lemma_z_sum_single(data: Seq<[u8; 4]>, filled: Seq<bool>, size: Seq<u32>, off: Seq<u32>, x: int, y: int, z0: int, z1: int, ch: int, jx: int, jy: int, jz: int)
    requires
        forall|z: int| z0 <= z < z1 && !(x == jx && y == jy && z == jz)
            ==> #[trigger] fill_term(data, filled, texel_index_at(size, x, y, z, off), ch) == 0,
    ensures
        z_sum(data, filled, size, off, x, y, z0, z1, ch)
            == if x == jx && y == jy && z0 <= jz < z1 { fill_term(data, filled, texel_index_at(size, jx, jy, jz, off), ch) } else { 0 },
    decreases z1 - z0,
{
    if z1 > z0 {
        lemma_z_sum_single(data, filled, size, off, x, y, z0, z1 - 1, ch, jx, jy, jz);
    }
}

proof fn lemma_y_sum_single(data: Seq<[u8; 4]>, filled: Seq<bool>, size: Seq<u32>, off: Seq<u32>, x: int, y0: int, y1: int, z0: int, z1: int, ch: int, jx: int, jy: int, jz: int)
    requires
        forall|y: int, z: int| y0 <= y < y1 && z0 <= z < z1 && !(x == jx && y == jy && z == jz)
            ==> #[trigger] fill_term(data, filled, texel_index_at(size, x, y, z, off), ch) == 0,
    ensures
        y_sum(data, filled, size, off, x, y0, y1, z0, z1, ch)
            == if x == jx && y0 <= jy < y1 && z0 <= jz < z1 { fill_term(data, filled, texel_index_at(size, jx, jy, jz, off), ch) } else { 0 },
    decreases y1 - y0,
{
    if y1 > y0 {
        lemma_y_sum_single(data, filled, size, off, x, y0, y1 - 1, z0, z1, ch, jx, jy, jz);
        lemma_z_sum_single(data, filled, size, off, x, y1 - 1, z0, z1, ch, jx, jy, jz);
    }
}

proof fn lemma_box_sum_single(data: Seq<[u8; 4]>, filled: Seq<bool>, size: Seq<u32>, off: Seq<u32>, x0: int, x1: int, y0: int, y1: int, z0: int, z1: int, ch: int, jx: int, jy: int, jz: int)
    requires
        forall|x: int, y: int, z: int| x0 <= x < x1 && y0 <= y < y1 && z0 <= z < z1 && !(x == jx && y == jy && z == jz)
            ==> #[trigger] fill_term(data, filled, texel_index_at(size, x, y, z, off), ch) == 0,
    ensures
        box_sum(data, filled, size, off, x0, x1, y0, y1, z0, z1, ch)
            == if x0 <= jx < x1 && y0 <= jy < y1 && z0 <= jz < z1 { fill_term(data, filled, texel_index_at(size, jx, jy, jz, off), ch) } else { 0 },
    decreases x1 - x0,
{
    if x1 > x0 {
        lemma_box_sum_single(data, filled, size, off, x0, x1 - 1, y0, y1, z0, z1, ch, jx, jy, jz);
        lemma_y_sum_single(data, filled, size, off, x1 - 1, y0, y1, z0, z1, ch, jx, jy, jz);
    }
}

/// Whether texels `i` and `j` lie in the same copy and at most one step apart on each of the
/// three axes.
pub open spec fn texels_adjacent(size: Seq<u32>, i: int, j: int) -> bool {
    &&& texel_offset(size, i) == texel_offset(size, j)
    &&& -1 <= texel_pos(size, j)[0] - texel_pos(size, i)[0] <= 1
    &&& -1 <= texel_pos(size, j)[1] - texel_pos(size, i)[1] <= 1
    &&& -1 <= texel_pos(size, j)[2] - texel_pos(size, i)[2] <= 1
}

/// Flooding reaches one step along every axis, and no further: an unfilled texel `i` whose copy
/// holds one filled texel `j` takes `j`'s color when `j` is at most one step away on each of
/// the x, y and z axes, and keeps its own color when `j` is further away on some axis.
pub proof fn lemma_flood_single_neighbor(data: Seq<[u8; 4]>, filled: Seq<bool>, size: Seq<u32>, i: int, j: int)
    requires
        volume_fits(size),
        data.len() == volume_texels(size),
        filled.len() == volume_texels(size),
        0 <= i < data.len(),
        0 <= j < data.len(),
        !filled[i],
        filled[j],
        texel_offset(size, j) == texel_offset(size, i),
        forall|m: int| 0 <= m < data.len() && filled[m] && m != j ==> texel_offset(size, m) != texel_offset(size, i),
    ensures
        texels_adjacent(size, i, j) ==> flooded(data, filled, size)[i] == data[j],
        !texels_adjacent(size, i, j) ==> flooded(data, filled, size)[i] == data[i],
{
    lemma_linearize_delinearize(size, i);
    lemma_linearize_delinearize(size, j);
    lemma_texel_dims(size, i);
    let p = texel_pos(size, i);
    let q = texel_pos(size, j);
    let off = texel_offset(size, i);
    let x0 = near_lo(p[0] as int);
    let x1 = near_hi(p[0] as int, size[0] as int);
    let y0 = near_lo(p[1] as int);
    let y1 = near_hi(p[1] as int, size[1] as int);
    let z0 = near_lo(p[2] as int);
    let z1 = near_hi(p[2] as int, size[2] as int);
    let jx = q[0] as int;
    let jy = q[1] as int;
    let jz = q[2] as int;
    assert(texel_index_at(size, jx, jy, jz, off) == j);
    assert forall|x: int, y: int, z: int, ch: int| x0 <= x < x1 && y0 <= y < y1 && z0 <= z < z1 && !(x == jx && y == jy && z == jz)
        implies #[trigger] fill_term(data, filled, texel_index_at(size, x, y, z, off), ch) == 0 by {
        let r = seq![x as u32, y as u32, z as u32];
        assert(in_grid(size, r));
        lemma_delinearize_linearize(size, r, off);
        lemma_texel_index_bound(size, r, off);
        let m = texel_index_at(size, x, y, z, off);
        assert(texel_index(size, r, off) == m);
        if filled[m] {
            assert(m == j);
            assert(texel_pos(size, m) == r);
            assert(r[0] == q[0] && r[1] == q[1] && r[2] == q[2]);
        }
    }
    assert forall|ch: int| #[trigger] neighborhood_sum(data, filled, size, i, ch)
        == if x0 <= jx < x1 && y0 <= jy < y1 && z0 <= jz < z1 { fill_term(data, filled, j, ch) } else { 0 } by {
        lemma_box_sum_single(data, filled, size, off, x0, x1, y0, y1, z0, z1, ch, jx, jy, jz);
    }
    assert((x0 <= jx < x1 && y0 <= jy < y1 && z0 <= jz < z1) == texels_adjacent(size, i, j));
    let n = neighborhood_sum(data, filled, size, i, 4);
    if texels_adjacent(size, i, j) {
        assert(n == 1);
        let t = flooded_texel(data, filled, size, i);
        assert(neighborhood_sum(data, filled, size, i, 0) == data[j][0]);
        assert(neighborhood_sum(data, filled, size, i, 1) == data[j][1]);
        assert(neighborhood_sum(data, filled, size, i, 2) == data[j][2]);
        assert(neighborhood_sum(data, filled, size, i, 3) == data[j][3]);
        assert(t@ =~= data[j]@);
    } else {
        assert(n == 0);
    }
}

// ---------------------------------------------------------------------------
// Positions and indices
// ---------------------------------------------------------------------------

/// The index of a texel determines its position and direction: delinearizing the index of the
/// texel of grid position `p` in the copy of direction `off` gives `p` and `off` back.
pub proof fn lemma_delinearize_linearize(size: Seq<u32>, p: Seq<u32>, off: Seq<u32>)
    requires
        volume_fits(size),
        in_grid(size, p),
        offset_valid(off),
    ensures
        texel_pos(size, texel_index(size, p, off)) == p,
        texel_offset(size, texel_index(size, p, off)) == off,
{
    let sx = size[0] as int;
    let sy = size[1] as int;
    let sz = size[2] as int;
    let plane = sx * (sy * 2);
    let tx = texel_coord(size, p, off, 0);
    let ty = texel_coord(size, p, off, 1);
    let tz = texel_coord(size, p, off, 2);
    let i = texel_index(size, p, off);
    lemma_texel_index_bound(size, p, off);
    assert(0 <= ty < 2 * sy) by (nonlinear_arith)
        requires ty == p[1] + off[1] * sy, p[1] < sy, 0 <= p[1], 0 <= off[1] <= 1;
    assert(0 <= tz < 3 * sz) by (nonlinear_arith)
        requires tz == p[2] + off[2] * sz, p[2] < sz, 0 <= p[2], 0 <= off[2] <= 2;
    assert(tx == p[0]);
    let r = tx + sx * ty;
    assert(0 <= r < plane) by (nonlinear_arith) requires r == tx + sx * ty, 0 <= tx < sx, 0 <= ty < 2 * sy, plane == sx * (sy * 2);
    assert(i == tz * plane + r) by (nonlinear_arith) requires i == tx + sx * ty + plane * tz, r == tx + sx * ty;
    vstd::arithmetic::div_mod::lemma_fundamental_div_mod_converse(i, plane, tz, r);
    assert(r == ty * sx + tx) by (nonlinear_arith) requires r == tx + sx * ty;
    vstd::arithmetic::div_mod::lemma_fundamental_div_mod_converse(r, sx, ty, tx);
    assert(ty == off[1] * sy + p[1] as int) by (nonlinear_arith) requires ty == p[1] + off[1] * sy;
    vstd::arithmetic::div_mod::lemma_fundamental_div_mod_converse(ty, sy, off[1] as int, p[1] as int);
    assert(tz == off[2] * sz + p[2] as int) by (nonlinear_arith) requires tz == p[2] + off[2] * sz;
    vstd::arithmetic::div_mod::lemma_fundamental_div_mod_converse(tz, sz, off[2] as int, p[2] as int);
    assert(texel_pos(size, i) =~= p);
    assert(texel_offset(size, i) =~= off);
}

/// Every texel is the texel of its own position and direction: linearizing what delinearizing
/// texel `i` gives yields `i` again.
pub proof fn lemma_linearize_delinearize(size: Seq<u32>, i: int)
    requires
        volume_fits(size),
        0 <= i < volume_texels(size),
    ensures
        in_grid(size, texel_pos(size, i)),
        offset_valid(texel_offset(size, i)),
        texel_index(size, texel_pos(size, i), texel_offset(size, i)) == i,
{
    lemma_texel_dims(size, i);
    let sx = size[0] as int;
    let sy = size[1] as int;
    let sz = size[2] as int;
    let plane = sx * (sy * 2);
    let r = i % plane;
    let tz = i / plane;
    let tx = r % sx;
    let ty = r / sx;
    assert(plane > 0) by (nonlinear_arith) requires sx > 0, sy > 0, plane == sx * (sy * 2);
    vstd::arithmetic::div_mod::lemma_fundamental_div_mod(i, plane);
    vstd::arithmetic::div_mod::lemma_fundamental_div_mod(r, sx);
    vstd::arithmetic::div_mod::lemma_fundamental_div_mod(ty, sy);
    vstd::arithmetic::div_mod::lemma_fundamental_div_mod(tz, sz);
    let p = texel_pos(size, i);
    let off = texel_offset(size, i);
    assert(p[0] == tx && p[1] == ty % sy && p[2] == tz % sz);
    assert(off[0] == 0 && off[1] == ty / sy && off[2] == tz / sz);
    assert(texel_coord(size, p, off, 1) == ty) by (nonlinear_arith)
        requires texel_coord(size, p, off, 1) == p[1] + off[1] * sy, p[1] == ty % sy, off[1] == ty / sy, ty == sy * (ty / sy) + ty % sy;
    assert(texel_coord(size, p, off, 2) == tz) by (nonlinear_arith)
        requires texel_coord(size, p, off, 2) == p[2] + off[2] * sz, p[2] == tz % sz, off[2] == tz / sz, tz == sz * (tz / sz) + tz % sz;
    assert(texel_coord(size, p, off, 0) == tx);
    assert(texel_index(size, p, off) == i) by (nonlinear_arith)
        requires
            texel_index(size, p, off) == texel_coord(size, p, off, 0) + sx * texel_coord(size, p, off, 1) + plane * texel_coord(size, p, off, 2),
            texel_coord(size, p, off, 0) == tx, texel_coord(size, p, off, 1) == ty, texel_coord(size, p, off, 2) == tz,
            i == plane * tz + r, r == sx * ty + tx;
}

/// Flooding never changes a filled texel, nor an unfilled one with no filled texel around it.
pub proof fn lemma_flood_keeps(data: Seq<[u8; 4]>, filled: Seq<bool>, size: Seq<u32>, i: int)
    requires
        0 <= i < data.len(),
        filled[i] || neighborhood_sum(data, filled, size, i, 4) == 0,
    ensures
        flooded(data, filled, size)[i] == data[i],
{
}

} // verus!
