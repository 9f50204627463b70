use spin::{sample_polar, ConvertError, Direction, LedGeometry, Raster, Rgb, DIR_ONE};

fn directions(n: usize) -> Vec<Direction> {
    (0..n)
        .map(|i| {
            let phi = 2.0 * std::f64::consts::PI * i as f64 / n as f64;
            Direction {
                cos: (phi.cos() * DIR_ONE as f64).round() as i32,
                sin: (phi.sin() * DIR_ONE as f64).round() as i32,
            }
        })
        .collect()
}

fn uniform(width: u32, height: u32, c: Rgb) -> Raster {
    Raster { width, height, pixels: vec![c; (width * height) as usize] }
}

/// Each pixel's red and green channels hold its column and row.
fn coordinates(width: u32, height: u32) -> Raster {
    let mut pixels = Vec::new();
    for y in 0..height {
        for x in 0..width {
            pixels.push(Rgb::new(x as u8, y as u8, 0));
        }
    }
    Raster { width, height, pixels }
}

#[test]
fn uniform_red_gives_red_everywhere() {
    let red = Rgb::new(255, 0, 0);
    let img = uniform(100, 100, red);
    let geo = LedGeometry { led_count: 1, inner_offset: 0, led_diameter: 5, led_gap: 1 };
    let rows = sample_polar(&img, geo, &directions(72)).unwrap();
    assert_eq!(rows.len(), 72);
    for row in &rows {
        assert_eq!(row, &vec![red]);
    }
}

#[test]
fn sampling_is_repeatable_and_shaped() {
    let img = coordinates(120, 90);
    let geo = LedGeometry { led_count: 7, inner_offset: 12, led_diameter: 5, led_gap: 2 };
    let dirs = directions(36);
    let a = sample_polar(&img, geo, &dirs).unwrap();
    let b = sample_polar(&img, geo, &dirs).unwrap();
    assert_eq!(a, b);
    assert_eq!(a.len(), 36);
    assert!(a.iter().all(|row| row.len() == 7));
}

#[test]
fn ring_positions_exact() {
    let img = coordinates(100, 100);
    let geo = LedGeometry { led_count: 3, inner_offset: 10, led_diameter: 4, led_gap: 2 };
    let dirs = vec![
        Direction { cos: DIR_ONE, sin: 0 },
        Direction { cos: 0, sin: DIR_ONE },
        Direction { cos: -DIR_ONE, sin: 0 },
    ];
    let rows = sample_polar(&img, geo, &dirs).unwrap();
    // radii 2000/104, 2600/104 and 3200/104 pixels: 19, 25 and 31 rounded
    let xs: Vec<u8> = rows[0].iter().map(|c| c.r).collect();
    assert_eq!(xs, vec![69, 75, 81]);
    assert!(rows[0].iter().all(|c| c.g == 50));
    let ys: Vec<u8> = rows[1].iter().map(|c| c.g).collect();
    assert_eq!(ys, vec![69, 75, 81]);
    let xs: Vec<u8> = rows[2].iter().map(|c| c.r).collect();
    assert_eq!(xs, vec![31, 25, 19]);
}

#[test]
fn position_off_image_fails() {
    let img = coordinates(4, 2);
    let geo = LedGeometry { led_count: 1, inner_offset: 10, led_diameter: 0, led_gap: 0 };
    let right = vec![Direction { cos: DIR_ONE, sin: 0 }];
    assert_eq!(sample_polar(&img, geo, &right).unwrap(), vec![vec![Rgb::new(3, 1, 0)]]);
    let down = vec![Direction { cos: DIR_ONE, sin: 0 }, Direction { cos: 0, sin: DIR_ONE }];
    assert_eq!(sample_polar(&img, geo, &down), Err(ConvertError::OutOfBounds));
    let empty = Raster { width: 0, height: 0, pixels: vec![] };
    assert_eq!(sample_polar(&empty, geo, &right), Err(ConvertError::OutOfBounds));
}

#[test]
fn no_slices_gives_no_rows() {
    let img = uniform(10, 10, Rgb::white());
    let geo = LedGeometry { led_count: 2, inner_offset: 1, led_diameter: 1, led_gap: 1 };
    assert_eq!(sample_polar(&img, geo, &vec![]).unwrap(), Vec::<Vec<Rgb>>::new());
}
