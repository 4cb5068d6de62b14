use bevy_trenchbroom::images::{is_cutout_texture, rgba_from_indexed, rgba_from_rgb};
use bevy_trenchbroom::irradiance::{
	full_size, ChannelMap, IrradianceVolumeBuilder, IrradianceVolumeDirection, IrradianceVolumeScales,
};
use bevy_trenchbroom::light_grid::{fill_light_grid, LightGridCell, LightGridLeaf, LightGridSample};

fn texel(bytes: &[u8], idx: usize) -> [u8; 4] {
	[bytes[4 * idx], bytes[4 * idx + 1], bytes[4 * idx + 2], bytes[4 * idx + 3]]
}

fn halving() -> ChannelMap {
	let mut map = ChannelMap::identity();
	for c in 0..3 {
		for v in 0..256 {
			map.table[c][v] = (v / 2) as u8;
		}
	}
	map
}

#[test]
fn direction_offsets() {
	assert!(IrradianceVolumeDirection::from_offset([0, 1, 0]).is_some());
	assert!(IrradianceVolumeDirection::from_offset([0, 0, 2]).is_some());
	assert!(IrradianceVolumeDirection::from_offset([1, 0, 0]).is_none());
	assert!(IrradianceVolumeDirection::from_offset([0, 2, 0]).is_none());
	assert!(IrradianceVolumeDirection::from_offset([0, 1, 3]).is_none());
	assert_eq!(IrradianceVolumeDirection::x().offset(), [0, 1, 0]);
	assert_eq!(IrradianceVolumeDirection::y().offset(), [0, 1, 1]);
	assert_eq!(IrradianceVolumeDirection::z().offset(), [0, 1, 2]);
	assert_eq!(IrradianceVolumeDirection::neg_x().offset(), [0, 0, 0]);
	assert_eq!(IrradianceVolumeDirection::neg_y().offset(), [0, 0, 1]);
	assert_eq!(IrradianceVolumeDirection::neg_z().offset(), [0, 0, 2]);
	assert_eq!(IrradianceVolumeDirection::from_offset([0, 1, 2]).unwrap().offset(), [0, 1, 2]);
}

#[test]
fn new_volume_is_the_default_color() {
	assert_eq!(full_size([2, 1, 1]), [2, 2, 3]);
	let builder = IrradianceVolumeBuilder::new([2, 1, 1], [9, 9, 9, 255], IrradianceVolumeScales::identity());
	assert_eq!(builder.size(), [2, 1, 1]);
	let image = builder.build();
	assert_eq!(image.size, [2, 2, 3]);
	assert_eq!(image.bytes.len(), 4 * 12);
	for i in 0..12 {
		assert_eq!(texel(&image.bytes, i), [9, 9, 9, 255]);
	}
}

#[test]
fn linearize_and_delinearize_undo_each_other() {
	let builder = IrradianceVolumeBuilder::new([2, 3, 4], [0; 4], IrradianceVolumeScales::identity());
	// (1, 2, 3) in the +X copy is (1, 2 + 3, 3) of a 2 x 6 x 12 texture.
	assert_eq!(builder.linearize([1, 2, 3], IrradianceVolumeDirection::x()), 47);
	let (pos, dir) = builder.delinearize(47);
	assert_eq!(pos, [1, 2, 3]);
	assert_eq!(dir.offset(), [0, 1, 0]);
	assert_eq!(builder.linearize([0, 0, 0], IrradianceVolumeDirection::neg_x()), 0);
	let (pos, dir) = builder.delinearize(2 * 6 * 12 - 1);
	assert_eq!(pos, [1, 2, 3]);
	assert_eq!(dir.offset(), [0, 1, 2]);
	for idx in 0..(2 * 6 * 12) {
		let (pos, dir) = builder.delinearize(idx);
		assert_eq!(builder.linearize(pos, dir), idx);
	}
}

#[test]
fn put_sets_one_texel() {
	let mut builder = IrradianceVolumeBuilder::new([1, 1, 1], [0, 0, 0, 255], IrradianceVolumeScales::identity());
	builder.put([0, 0, 0], IrradianceVolumeDirection::y(), [1, 2, 3, 4]);
	let image = builder.build();
	for i in 0..6 {
		let expected = if i == 3 { [1, 2, 3, 4] } else { [0, 0, 0, 255] };
		assert_eq!(texel(&image.bytes, i), expected);
	}
}

#[test]
fn put_all_maps_each_direction() {
	let mut scales = IrradianceVolumeScales::identity();
	scales.x = halving();
	let mut builder = IrradianceVolumeBuilder::new([1, 1, 1], [0; 4], scales);
	builder.put_all([0, 0, 0], [10, 20, 30, 200]);
	let image = builder.build();
	// The copies lie at z = 0, 1, 2 (+X, +Y, +Z at y = 1; -X, -Y, -Z at y = 0).
	assert_eq!(texel(&image.bytes, 1), [5, 10, 15, 200]);
	for i in [0, 2, 3, 4, 5] {
		assert_eq!(texel(&image.bytes, i), [10, 20, 30, 200]);
	}
}

#[test]
fn flood_averages_filled_neighbours() {
	let mut builder = IrradianceVolumeBuilder::new([4, 1, 1], [0; 4], IrradianceVolumeScales::identity());
	builder.put_all([0, 0, 0], [10, 20, 30, 255]);
	builder.put_all([2, 0, 0], [30, 41, 50, 255]);
	builder.flood_non_filled();
	let image = builder.build();
	// In the -X copy (the first row), x = 1 takes the average of x = 0 and x = 2, and x = 3
	// takes x = 2 alone.
	assert_eq!(texel(&image.bytes, 0), [10, 20, 30, 255]);
	assert_eq!(texel(&image.bytes, 1), [20, 30, 40, 255]);
	assert_eq!(texel(&image.bytes, 2), [30, 41, 50, 255]);
	assert_eq!(texel(&image.bytes, 3), [30, 41, 50, 255]);
}

#[test]
fn flood_leaves_texels_without_filled_neighbours() {
	let mut builder = IrradianceVolumeBuilder::new([4, 1, 1], [7, 7, 7, 7], IrradianceVolumeScales::identity());
	builder.put_all([0, 0, 0], [100, 100, 100, 255]);
	builder.flood_non_filled();
	let image = builder.build();
	assert_eq!(texel(&image.bytes, 1), [100, 100, 100, 255]);
	// Filling does not spread: x = 2 only neighbours unfilled texels.
	assert_eq!(texel(&image.bytes, 2), [7, 7, 7, 7]);
	assert_eq!(texel(&image.bytes, 3), [7, 7, 7, 7]);
}

fn sample(color: [u8; 3], style: u8) -> LightGridSample {
	LightGridSample { color, style }
}

#[test]
fn light_grid_slots_and_styles() {
	let leaf = LightGridLeaf {
		mins: [0, 0, 0],
		size: [1, 1, 1],
		cells: vec![LightGridCell::Filled(vec![sample([10, 20, 30], 0), sample([1, 2, 3], 5)])],
	};
	let volumes = fill_light_grid([1, 1, 1], &vec![leaf], IrradianceVolumeScales::identity());
	assert_eq!(volumes.slots.len(), 4);
	assert!(volumes.slots[2].is_none());
	assert!(volumes.slots[3].is_none());
	assert!(volumes.overfull_cells.is_empty());
	let mut slots = volumes.slots;
	let slot1 = slots.remove(1).unwrap().build();
	let slot0 = slots.remove(0).unwrap().build();
	let styles = volumes.style_map.build();
	for i in 0..6 {
		assert_eq!(texel(&slot0.bytes, i), [10, 20, 30, 255]);
		assert_eq!(texel(&slot1.bytes, i), [1, 2, 3, 255]);
		assert_eq!(texel(&styles.bytes, i), [0, 5, 0, 0]);
	}
}

#[test]
fn light_grid_swaps_quake_axes() {
	// Quake (x, y, z) is Bevy (x, z, y): the leaf's second cell (Quake y = 1) lands at Bevy z = 1.
	let leaf = LightGridLeaf {
		mins: [0, 0, 0],
		size: [1, 2, 1],
		cells: vec![
			LightGridCell::Filled(vec![sample([1, 1, 1], 0)]),
			LightGridCell::Filled(vec![sample([2, 2, 2], 0)]),
		],
	};
	let volumes = fill_light_grid([1, 1, 2], &vec![leaf], IrradianceVolumeScales::identity());
	let slot0 = volumes.slots.into_iter().next().unwrap().unwrap().build();
	assert_eq!(slot0.size, [1, 2, 6]);
	assert_eq!(texel(&slot0.bytes, 0), [1, 1, 1, 255]);
	assert_eq!(texel(&slot0.bytes, 2), [2, 2, 2, 255]);
}

#[test]
fn light_grid_unfilled_cells_and_overfull_cells() {
	let leaf = LightGridLeaf {
		mins: [1, 0, 0],
		size: [2, 1, 1],
		cells: vec![
			LightGridCell::Unfilled,
			LightGridCell::Filled(vec![
				sample([1, 0, 0], 1),
				sample([2, 0, 0], 2),
				sample([3, 0, 0], 3),
				sample([4, 0, 0], 4),
				sample([5, 0, 0], 5),
			]),
		],
	};
	let volumes = fill_light_grid([3, 1, 1], &vec![leaf], IrradianceVolumeScales::identity());
	assert_eq!(volumes.overfull_cells, vec![[2, 0, 0]]);
	assert!(volumes.slots.iter().all(|s| s.is_some()));
	let styles = volumes.style_map.build();
	assert_eq!(texel(&styles.bytes, 2), [1, 2, 3, 4]);
	assert_eq!(texel(&styles.bytes, 1), [0, 0, 0, 0]);
	let slot3 = volumes.slots.into_iter().nth(3).unwrap().unwrap().build();
	assert_eq!(texel(&slot3.bytes, 2), [4, 0, 0, 255]);
	assert_eq!(texel(&slot3.bytes, 1), [0, 0, 0, 255]);
}

#[test]
fn rgb_pixels_become_opaque() {
	assert_eq!(rgba_from_rgb(&vec![[1, 2, 3], [4, 5, 6]]), vec![1, 2, 3, 255, 4, 5, 6, 255]);
	assert!(rgba_from_rgb(&Vec::new()).is_empty());
}

#[test]
fn indexed_pixels_and_cutouts() {
	let mut palette = [[0u8; 3]; 256];
	palette[1] = [10, 11, 12];
	palette[255] = [200, 201, 202];
	assert_eq!(rgba_from_indexed(&vec![1, 255], &palette, false), vec![10, 11, 12, 255, 200, 201, 202, 255]);
	assert_eq!(rgba_from_indexed(&vec![1, 255], &palette, true), vec![10, 11, 12, 255, 0, 0, 0, 0]);
	assert!(is_cutout_texture("{grate"));
	assert!(!is_cutout_texture("grate{"));
	assert!(!is_cutout_texture(""));
}
