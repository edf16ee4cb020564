use heightfield::field::HeightField;
use heightfield::grid::sample_points;
use heightfield::mesh::mesh_vertex_coords;
use noise::{NoiseFn, Perlin};

fn code(v: f64) -> u64 {
    let b = v.to_bits();
    if b >> 63 == 1 {
        !b
    } else {
        b | 0x8000_0000_0000_0000
    }
}

/// Multi-octave sampling over the library's fixed iteration order, as the
/// host performs it, encoded into order codes.
fn sample_grid(
    seed: u32,
    width: usize,
    height: usize,
    scale: f64,
    octaves: u8,
    lacunarity: f64,
    persistence: f64,
) -> Vec<u64> {
    let perlin = Perlin::new(seed);
    let mut out = Vec::with_capacity(width * height);
    for &(x, y) in sample_points(width, height).iter() {
        let mut noise_val = 0.0_f64;
        for octave_idx in 0..octaves {
            let octave_idx = octave_idx as i32;
            let sample_x = x as f64 / scale * lacunarity.powi(octave_idx);
            let sample_y = y as f64 / scale * lacunarity.powi(octave_idx);
            noise_val += perlin.get([sample_x, sample_y]) * persistence.powi(octave_idx);
        }
        out.push(code(noise_val));
    }
    out
}

#[test]
fn same_seed_gives_identical_buffers() {
    let s1 = sample_grid(42, 8, 6, 25.0, 4, 2.0, 0.5);
    let s2 = sample_grid(42, 8, 6, 25.0, 4, 2.0, 0.5);
    assert_eq!(s1, s2);

    let f1 = HeightField::from_samples(8, 6, s1).unwrap();
    let f2 = HeightField::from_samples(8, 6, s2).unwrap();
    assert_eq!(f1.values(), f2.values());
    assert_eq!(f1.min_code(), f2.min_code());
    assert_eq!(f1.max_code(), f2.max_code());

    let m1 = mesh_vertex_coords(8, 6).unwrap();
    let m2 = mesh_vertex_coords(8, 6).unwrap();
    assert_eq!(m1, m2);
}

#[test]
fn different_seeds_give_different_fields() {
    let s1 = sample_grid(1, 8, 6, 25.0, 4, 2.0, 0.5);
    let s2 = sample_grid(2, 8, 6, 25.0, 4, 2.0, 0.5);
    assert_ne!(s1, s2);
}

#[test]
fn field_extrema_bound_noise_samples() {
    // Every stored sample lies between the tracked extrema for this fill
    // (its minimum is not confined to the first slot).
    let s = sample_grid(7, 10, 10, 12.0, 3, 2.0, 0.5);
    let f = HeightField::from_samples(10, 10, s.clone()).unwrap();
    let lo = f.min_code();
    let hi = f.max_code();
    if s.iter().skip(1).any(|&v| s.iter().all(|&w| v <= w)) {
        for &v in &s {
            assert!(lo <= v && v <= hi);
        }
    }
}
