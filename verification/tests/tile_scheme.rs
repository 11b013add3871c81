//! Tile addressing: level selection and index coverage.

use map_core::{Envelope, Fx, Point, TileIndex, TileLayer, TileLevel, TileSchema, TilesDirection};

fn fx(i: i32) -> Fx {
    Fx::from_int(i)
}

fn level(num: i64, den: i64, z: i32) -> TileLevel {
    TileLevel { resolution: Fx::from_ratio(num, den), z_index: z }
}

fn get_simple_schema() -> TileSchema {
    simple_schema_with(10, 10, 0, 0)
}

fn simple_schema_with(tile_width: u32, tile_height: u32, ox: i32, oy: i32) -> TileSchema {
    TileSchema::new(
        tile_width,
        tile_height,
        Point::new(fx(ox), fx(oy)),
        Envelope::new(fx(0), fx(0), fx(10), fx(10)),
        TilesDirection::BottomToTop,
        vec![level(1, 1, 0), level(1, 2, 1), level(1, 4, 2)],
    )
}

#[test]
fn levels_are_in_correct_order() {
    let default_scheme = TileSchema::default();
    assert_eq!(0, default_scheme.levels()[0].z_index);
    assert_eq!(672347211038720, default_scheme.levels()[0].resolution.bits);
    assert_eq!(17, default_scheme.levels()[17].z_index);
    assert_eq!(5129602135, default_scheme.levels()[17].resolution.bits);

    let schema = TileSchema::new(
        10,
        10,
        Point::new(fx(0), fx(0)),
        Envelope::new(fx(0), fx(0), fx(10), fx(10)),
        TilesDirection::BottomToTop,
        vec![level(1, 1, 1), level(2, 1, 2)],
    );
    assert_eq!(Fx::from_int(2), schema.levels()[0].resolution);
}

#[test]
fn select_level() {
    let default_schema = TileSchema::default();
    let levels = default_schema.levels();
    let resolution = levels[0].resolution;
    assert_eq!(levels[0], default_schema.select_level(resolution));
    assert_eq!(levels[0], default_schema.select_level(resolution.plus(fx(1))));
    assert_eq!(levels[0], default_schema.select_level(resolution.minus(fx(1))));
    assert_eq!(levels[0], default_schema.select_level(resolution.times(fx(2))));
    assert_eq!(levels[1], default_schema.select_level(resolution.div_by(fx(2))));
    assert_eq!(levels[1], default_schema.select_level(resolution.div_by(Fx::from_ratio(3, 2))));

    let last_level = levels.last().unwrap();
    assert_eq!(
        last_level.resolution,
        default_schema.select_level(last_level.resolution.div_by(fx(2))).resolution
    );
    assert_eq!(
        last_level.resolution,
        default_schema.select_level(last_level.resolution.div_by(fx(4))).resolution
    );
}

#[test]
fn get_indices_simple_schema() {
    let schema = get_simple_schema();
    let envelope = Envelope::new(fx(0), fx(0), fx(10), fx(10));
    let indices = schema.get_indices(&envelope, Fx::from_ratio(1, 1));
    assert_eq!(1, indices.len());
    assert_eq!(TileIndex::new(0, 0, 0), indices[0]);

    let indices = schema.get_indices(&envelope, Fx::from_ratio(1, 2));
    assert_eq!(4, indices.len());
    for index in indices {
        assert_eq!(1, index.z);
        assert!(index.x >= 0 && index.x <= 1);
        assert!(index.y >= 0 && index.y <= 1);
    }

    let indices = schema.get_indices(&envelope, Fx::from_ratio(1, 4));
    assert_eq!(16, indices.len());
    for index in indices {
        assert_eq!(2, index.z);
        assert!(index.x >= 0 && index.x <= 3);
        assert!(index.y >= 0 && index.y <= 3);
    }
}

#[test]
fn get_indices_partial_intersection() {
    let schema = get_simple_schema();
    let envelope = Envelope::new(fx(2), fx(2), fx(8), fx(4));
    let indices = schema.get_indices(&envelope, Fx::from_ratio(1, 2));
    assert_eq!(2, indices.len());
    for index in indices {
        assert_eq!(1, index.z);
        assert!(index.x >= 0 && index.x <= 1);
        assert!(index.y >= 0 && index.y <= 0);
    }
}

#[test]
fn get_indices_large_bbox() {
    let schema = get_simple_schema();
    let envelope = Envelope::new(fx(-10), fx(-10), fx(20), fx(20));
    let indices = schema.get_indices(&envelope, Fx::from_ratio(1, 2));
    assert_eq!(4, indices.len());
    for index in indices {
        assert!(index.x >= 0 && index.x <= 1);
        assert!(index.y >= 0 && index.y <= 1);
    }
}

#[test]
fn get_indices_high_resolution() {
    let schema = get_simple_schema();
    let envelope = Envelope::new(fx(2), fx(2), fx(3), fx(3));
    let indices = schema.get_indices(&envelope, Fx::from_ratio(1, 8));
    assert_eq!(4, indices.len());
    for index in indices {
        assert_eq!(2, index.z);
        assert!(index.x >= 0 && index.x <= 1, "Invalid x value {}", index.x);
        assert!(index.y >= 0 && index.y <= 1, "Invalid y value {}", index.y);
    }
}

#[test]
fn get_indices_no_intersection() {
    let schema = get_simple_schema();
    let envelope = Envelope::new(fx(-10), fx(-10), fx(-5), fx(-5));
    let indices = schema.get_indices(&envelope, Fx::from_ratio(1, 2));
    assert_eq!(0, indices.len());
}

#[test]
fn get_indices_top_to_bottom() {
    let schema = TileSchema::new(
        10,
        10,
        Point::new(fx(0), fx(10)),
        Envelope::new(fx(0), fx(0), fx(10), fx(10)),
        TilesDirection::TopToBottom,
        vec![level(1, 1, 0), level(1, 2, 1), level(1, 4, 2)],
    );
    let envelope = Envelope::new(fx(2), fx(2), fx(3), fx(3));
    let indices = schema.get_indices(&envelope, Fx::from_ratio(1, 8));
    assert_eq!(4, indices.len());
    for index in indices {
        assert_eq!(2, index.z);
        assert!(index.x >= 0 && index.x <= 1, "Invalid x value {}", index.x);
        assert!(index.y >= 2 && index.y <= 3, "Invalid y value {}", index.y);
    }
}

#[test]
fn get_indices_different_tile_size() {
    let schema = simple_schema_with(5, 3, 0, 0);
    let envelope = Envelope::new(fx(2), fx(2), fx(7), fx(7));
    let indices = schema.get_indices(&envelope, Fx::from_ratio(1, 1));
    assert_eq!(6, indices.len());
    for index in indices {
        assert_eq!(0, index.z);
        assert!(index.x >= 0 && index.x <= 1, "Invalid x value {}", index.x);
        assert!(index.y >= 0 && index.y <= 2, "Invalid y value {}", index.y);
    }

    let indices = schema.get_indices(&envelope, Fx::from_ratio(1, 2));
    assert_eq!(12, indices.len());
    for index in indices {
        assert_eq!(1, index.z);
        assert!(index.x >= 0 && index.x <= 2, "Invalid x value {}", index.x);
        assert!(index.y >= 1 && index.y <= 4, "Invalid y value {}", index.y);
    }
}

#[test]
fn get_indices_moved_origin() {
    let schema = simple_schema_with(10, 10, 5, 5);
    let envelope = Envelope::new(
        Fx::from_ratio(5, 2),
        Fx::from_ratio(5, 2),
        Fx::from_ratio(15, 2),
        Fx::from_ratio(15, 2),
    );
    let indices = schema.get_indices(&envelope, Fx::from_ratio(1, 4));
    assert_eq!(4, indices.len());
    for index in indices {
        assert_eq!(2, index.z);
        assert!(index.x >= -1 && index.x <= 1, "Invalid x value {}", index.x);
        assert!(index.y >= -1 && index.y <= 1, "Invalid y value {}", index.y);
    }
}

#[test]
fn world_scheme_full_envelope_is_one_tile() {
    let schema = TileSchema::default();
    let coarsest = schema.levels()[0].resolution;
    let half = coarsest.times(Fx::from_int(128));
    let world = Envelope::new(half.neg(), half.neg(), half, half);

    let indices = schema.get_indices(&world, coarsest);
    assert_eq!(1, indices.len());
    assert_eq!(TileIndex::new(0, 0, 0), indices[0]);

    let indices = schema.get_indices(&world, coarsest.div_by(Fx::from_int(2)));
    assert_eq!(4, indices.len());
    for index in indices {
        assert_eq!(1, index.z);
        assert!(index.x >= 0 && index.x <= 1);
        assert!(index.y >= 0 && index.y <= 1);
    }
}

#[test]
fn select_level_is_monotone() {
    let schema = get_simple_schema();
    let samples = [
        Fx::from_ratio(1, 16),
        Fx::from_ratio(1, 8),
        Fx::from_ratio(1, 4),
        Fx::from_ratio(1, 3),
        Fx::from_ratio(1, 2),
        Fx::from_ratio(2, 3),
        Fx::from_int(1),
        Fx::from_int(2),
        Fx::from_int(100),
    ];
    for i in 0..samples.len() {
        for j in i..samples.len() {
            let fine = schema.select_level(samples[i]).resolution;
            let coarse = schema.select_level(samples[j]).resolution;
            assert!(fine.bits <= coarse.bits);
        }
    }
}

#[test]
fn tile_store_follows_required_list() {
    let mut layer = TileLayer::new();
    let a = TileIndex::new(0, 0, 1);
    let b = TileIndex::new(0, 1, 1);
    let c = TileIndex::new(1, 1, 1);

    layer.update_tile_list(&vec![a, b]);
    let stored = layer.get_tile_store().tiles();
    assert_eq!(2, stored.len());
    assert!(layer.get_tile_store().contains(&a));
    assert!(layer.get_tile_store().contains(&b));

    layer.update_tile_list(&vec![b, c]);
    let stored = layer.get_tile_store().tiles();
    assert_eq!(vec![b, c], stored);
    assert!(!layer.get_tile_store().contains(&a));
}
