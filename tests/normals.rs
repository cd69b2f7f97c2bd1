use normal_heights::{
    directx_validator, neighborhoods, strength_validator, AdjPixels, LumaGrid,
};

fn grid(width: u32, height: u32, pixels: Vec<u8>) -> LumaGrid {
    LumaGrid::new(width, height, pixels).unwrap()
}

fn sample(nw: u8, n: u8, ne: u8, w: u8, e: u8, sw: u8, s: u8, se: u8) -> AdjPixels {
    AdjPixels { nw, n, ne, w, e, sw, s, se }
}

#[test]
fn grid_rejects_wrong_buffer_length() {
    assert!(LumaGrid::new(2, 2, vec![0, 1, 2]).is_none());
    assert!(LumaGrid::new(2, 2, vec![0, 1, 2, 3, 4]).is_none());
    assert!(LumaGrid::new(0, 5, vec![]).is_some());
}

#[test]
fn grid_is_stored_row_by_row() {
    let g = grid(3, 2, vec![10, 11, 12, 20, 21, 22]);
    assert_eq!(g.width(), 3);
    assert_eq!(g.height(), 2);
    assert_eq!(g.get_pixel(2, 0), 12);
    assert_eq!(g.get_pixel(0, 1), 20);
    assert_eq!(g.get_pixel(1, 1), 21);
}

#[test]
fn single_cell_is_its_own_neighbourhood() {
    let g = grid(1, 1, vec![77]);
    let p = AdjPixels::new(0, 0, &g);
    assert_eq!(p, sample(77, 77, 77, 77, 77, 77, 77, 77));
}

#[test]
fn interior_cell_sees_all_eight_neighbours() {
    let g = grid(3, 3, vec![1, 2, 3, 4, 5, 6, 7, 8, 9]);
    let p = AdjPixels::new(1, 1, &g);
    assert_eq!(p, sample(1, 2, 3, 4, 6, 7, 8, 9));
}

#[test]
fn corner_cells_clamp_each_axis() {
    let g = grid(3, 3, vec![1, 2, 3, 4, 5, 6, 7, 8, 9]);
    assert_eq!(AdjPixels::new(0, 0, &g), sample(1, 1, 2, 1, 2, 4, 4, 5));
    assert_eq!(AdjPixels::new(2, 2, &g), sample(5, 6, 6, 8, 9, 8, 9, 9));
    assert_eq!(AdjPixels::new(2, 0, &g), sample(2, 3, 3, 2, 3, 5, 6, 6));
}

#[test]
fn neighbourhoods_cover_every_cell_in_row_order() {
    let g = grid(3, 2, vec![1, 2, 3, 4, 5, 6]);
    let all = neighborhoods(&g);
    assert_eq!(all.len(), 6);
    for y in 0..2u32 {
        for x in 0..3u32 {
            assert_eq!(all[(y * 3 + x) as usize], AdjPixels::new(x, y, &g));
        }
    }
}

#[test]
fn empty_grid_has_no_neighbourhoods() {
    let g = grid(0, 4, vec![]);
    assert!(neighborhoods(&g).is_empty());
}

#[test]
fn neighbourhoods_are_deterministic() {
    let g = grid(4, 3, vec![0, 9, 200, 31, 7, 255, 18, 64, 128, 3, 90, 45]);
    assert_eq!(neighborhoods(&g), neighborhoods(&g));
}

#[test]
fn sobel_estimates_have_exact_values() {
    let p = sample(1, 2, 3, 4, 6, 7, 8, 9);
    // -((9 - 7) + 2 * (6 - 4) + (3 - 1))
    assert_eq!(p.x_normals(), -8);
    // -((1 - 7) + 2 * (2 - 8) + (3 - 9))
    assert_eq!(p.y_normals(), 24);
    let steep = sample(0, 0, 255, 0, 255, 0, 0, 255);
    assert_eq!(steep.x_normals(), -1020);
    assert_eq!(steep.y_normals(), 0);
}

#[test]
fn directx_negates_only_the_y_component() {
    let p = sample(10, 40, 90, 0, 200, 30, 120, 255);
    let (gx, gy) = p.gradient(false);
    let (dx, dy) = p.gradient(true);
    assert_eq!(gx, p.x_normals());
    assert_eq!(gy, p.y_normals());
    assert_eq!(dx, gx);
    assert_eq!(dy, -gy);
    assert_ne!(gy, 0);
}

#[test]
fn flat_grid_has_no_gradient() {
    let g = grid(4, 4, vec![128; 16]);
    for p in neighborhoods(&g) {
        assert_eq!(p.gradient(false), (0, 0));
        assert_eq!(p.gradient(true), (0, 0));
    }
}

#[test]
fn strength_validator_accepts_numbers() {
    for ok in ["6", "3.14", "6.0", "-2", "+0.5", ".5", "5.", "1e5", "2.5E-3"] {
        assert_eq!(strength_validator(ok.to_string()), Ok(()), "{}", ok);
    }
}

#[test]
fn strength_validator_rejects_other_text() {
    for bad in ["", ".", "+", "abc", "1e", "1.2.3", " 6", "e5", "6f", "in", "1e+"] {
        assert!(strength_validator(bad.to_string()).is_err(), "{}", bad);
    }
}

#[test]
fn strength_validator_rejects_non_finite_words() {
    for bad in ["inf", "-inf", "+INF", "infinity", "-Infinity", "NaN", "nan"] {
        assert!(strength_validator(bad.to_string()).is_err(), "{}", bad);
    }
    assert_eq!(
        strength_validator("NaN".to_string()),
        Err("'NaN' is not a valid number. Please use a base 10 number such as '6' or '3.14'."
            .to_string())
    );
    assert_eq!(
        strength_validator("abc".to_string()),
        Err("'abc' is not a valid number. Please use a base 10 number such as '6' or '3.14'."
            .to_string())
    );
}

#[test]
fn directx_validator_accepts_only_booleans() {
    assert_eq!(directx_validator("true".to_string()), Ok(()));
    assert_eq!(directx_validator("false".to_string()), Ok(()));
    assert!(directx_validator("True".to_string()).is_err());
    assert!(directx_validator("".to_string()).is_err());
    assert_eq!(
        directx_validator("yes".to_string()),
        Err("'yes' is not a valid option. Please use true or false.".to_string())
    );
}
