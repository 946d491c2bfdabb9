use melo::art::{cover_cells, half_blocks, Cover};

/// A picture whose pixel (x, y) is (x, y, 9), fully opaque.
fn grid(width: u32, height: u32) -> Cover {
    let mut rgba = Vec::new();
    for y in 0..height {
        for x in 0..width {
            rgba.extend_from_slice(&[x as u8, y as u8, 9, 255]);
        }
    }
    Cover { width, height, rgba }
}

#[test]
fn half_blocks_pair_stacked_pixels() {
    let c = grid(3, 4);
    let cells = half_blocks(&c, 2, 2);
    assert_eq!(
        cells,
        vec![
            vec![((0, 0, 9), (0, 1, 9)), ((1, 0, 9), (1, 1, 9))],
            vec![((0, 2, 9), (0, 3, 9)), ((1, 2, 9), (1, 3, 9))],
        ]
    );
    assert!(half_blocks(&c, 0, 2).iter().all(|row| row.is_empty()));
    assert!(half_blocks(&c, 3, 0).is_empty());
}

#[test]
fn cover_cells_of_an_empty_region() {
    let c = grid(4, 4);
    assert!(cover_cells(&c, 0, 3).is_empty());
    assert!(cover_cells(&c, 3, 0).is_empty());
}

#[test]
fn cover_cells_show_the_centred_square() {
    // A 2 × 4 picture: its centred square is rows 1 and 2, which already
    // has the size of a 2 × 1 cell region, so it is shown as it is.
    let c = grid(2, 4);
    let cells = cover_cells(&c, 2, 1);
    assert_eq!(cells, vec![vec![((0, 1, 9), (0, 2, 9)), ((1, 1, 9), (1, 2, 9))]]);
    // A 6 × 2 picture: its centred square is columns 2 and 3.
    let c = grid(6, 2);
    let cells = cover_cells(&c, 2, 1);
    assert_eq!(cells, vec![vec![((2, 0, 9), (2, 1, 9)), ((3, 0, 9), (3, 1, 9))]]);
}

#[test]
fn cover_cells_scale_the_picture() {
    // Left half red, right half blue: scaled down to one column, the colour
    // is a blend of both.
    let mut rgba = Vec::new();
    for _ in 0..4 {
        rgba.extend_from_slice(&[255, 0, 0, 255, 255, 0, 0, 255, 0, 0, 255, 255, 0, 0, 255, 255]);
    }
    let c = Cover { width: 4, height: 4, rgba };
    let cells = cover_cells(&c, 1, 1);
    assert_eq!(cells.len(), 1);
    assert_eq!(cells[0].len(), 1);
    let (top, bottom) = cells[0][0];
    assert_eq!(top, bottom);
    assert!(top.0 > 0 && top.2 > 0, "expected a blend, got {:?}", top);
    // Scaling to more cells than pixels still fills every cell.
    let cells = cover_cells(&c, 8, 4);
    assert_eq!(cells.len(), 4);
    assert!(cells.iter().all(|row| row.len() == 8));
}
