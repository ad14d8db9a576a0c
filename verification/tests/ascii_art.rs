//! Charset lookup, image parsing, resizing and the image bank.

use sssssssssampler::ascii_bank::{
    char_to_idx, charset_density_pct, parse_ascii_image, visual_density_pct, AsciiBank, AsciiGrid, CHARSET,
    CHARSET_LEN,
};

fn idx(c: char) -> u8 {
    CHARSET.iter().position(|&d| d == c).unwrap() as u8
}

#[test]
fn charset_chars_are_distinct() {
    assert_eq!(CHARSET.len(), CHARSET_LEN);
    for i in 0..CHARSET_LEN {
        for j in (i + 1)..CHARSET_LEN {
            assert_ne!(CHARSET[i], CHARSET[j]);
        }
    }
}

#[test]
fn char_to_idx_round_trips_charset_chars() {
    for (i, &c) in CHARSET.iter().enumerate() {
        assert_eq!(char_to_idx(c) as usize, i);
    }
}

#[test]
fn unknown_chars_are_blank() {
    assert_eq!(char_to_idx('€'), 0);
    assert_eq!(char_to_idx('\t'), 0);
    assert_eq!(char_to_idx(' '), 0);
    assert_eq!(char_to_idx('@'), 83);
    assert_eq!(char_to_idx('█'), 108);
}

#[test]
fn grid_get_is_blank_outside() {
    let g = AsciiGrid { width: 2, height: 2, cells: vec![1, 2, 3, 4] };
    assert_eq!(g.get(0, 0), 1);
    assert_eq!(g.get(1, 0), 2);
    assert_eq!(g.get(0, 1), 3);
    assert_eq!(g.get(1, 1), 4);
    assert_eq!(g.get(2, 0), 0);
    assert_eq!(g.get(0, 2), 0);
}

#[test]
fn resize_is_nearest_neighbour() {
    let g = AsciiGrid { width: 2, height: 2, cells: vec![1, 2, 3, 4] };
    let r = g.resized(4, 4);
    assert_eq!(r.width, 4);
    assert_eq!(r.height, 4);
    assert_eq!(r.cells, vec![1, 1, 2, 2, 1, 1, 2, 2, 3, 3, 4, 4, 3, 3, 4, 4]);
    let s = r.resized(2, 2);
    assert_eq!(s.cells, g.cells);
    let e = g.resized(0, 3);
    assert_eq!(e.cells.len(), 0);
}

#[test]
fn parse_maps_lines_and_pads() {
    let g = parse_ascii_image("ab\nc", 2, 2);
    assert_eq!(g.width, 2);
    assert_eq!(g.height, 2);
    assert_eq!(g.cells, vec![idx('a'), idx('b'), idx('c'), 0]);
}

#[test]
fn parse_strips_carriage_returns_and_final_newline() {
    let a = parse_ascii_image("#.\r\n.#\r\n", 2, 2);
    let b = parse_ascii_image("#.\n.#", 2, 2);
    assert_eq!(a.cells, b.cells);
    assert_eq!(a.cells, vec![idx('#'), idx('.'), idx('.'), idx('#')]);
}

#[test]
fn parse_empty_text_gives_blank_grid() {
    let g = parse_ascii_image("", 3, 2);
    assert_eq!(g.cells, vec![0; 6]);
}

#[test]
fn parse_resizes_to_target() {
    let g = parse_ascii_image("@@\n..", 4, 4);
    let at = idx('@');
    let dot = idx('.');
    assert_eq!(g.cells, vec![at, at, at, at, at, at, at, at, dot, dot, dot, dot, dot, dot, dot, dot]);
}

#[test]
fn bank_holds_parsed_images() {
    let bank = AsciiBank::from_raw_images(&["ab", "cd\nef"], 2, 2);
    assert_eq!(bank.len(), 2);
    assert_eq!(bank.width, 2);
    assert_eq!(bank.height, 2);
    assert_eq!(bank.get_cell(0, 0, 0), idx('a'));
    assert_eq!(bank.get_cell(0, 1, 0), idx('b'));
    assert_eq!(bank.get_cell(0, 0, 1), idx('a'));
    assert_eq!(bank.get_cell(1, 1, 1), idx('f'));
    assert_eq!(bank.get_cell(1, 5, 5), 0);
    assert_eq!(AsciiBank::from_raw_images(&[], 3, 3).len(), 0);
}

#[test]
fn densities_in_percent() {
    assert_eq!(visual_density_pct(' '), 0);
    assert_eq!(visual_density_pct('.'), 5);
    assert_eq!(visual_density_pct('x'), 30);
    assert_eq!(visual_density_pct('@'), 90);
    assert_eq!(visual_density_pct('é'), 50);
    assert_eq!(charset_density_pct(idx('█') as usize), 100);
    assert_eq!(charset_density_pct(idx('▒') as usize), 50);
    assert_eq!(charset_density_pct(idx('╬') as usize), 45);
    assert_eq!(charset_density_pct(idx('M') as usize), 63);
    assert_eq!(charset_density_pct(0), 0);
    assert_eq!(charset_density_pct(CHARSET_LEN), 50);
}

#[test]
fn ink_cells_count_non_blank() {
    let g = AsciiGrid { width: 3, height: 1, cells: vec![0, 5, 9] };
    assert_eq!(g.ink_cells(), 2);
    let p = parse_ascii_image(" x \n  y", 3, 2);
    assert_eq!(p.ink_cells(), 2);
    assert_eq!(parse_ascii_image("", 4, 4).ink_cells(), 0);
}

#[test]
fn resize_round_trips() {
    let g = AsciiGrid { width: 3, height: 2, cells: vec![1, 2, 3, 4, 5, 6] };
    for k in 1..5usize {
        let up = g.resized(k * 3, k * 2);
        assert_eq!(up.resized(3, 2).cells, g.cells);
    }
    assert_eq!(g.resized(3, 2).cells, g.cells);
}

#[test]
fn char_to_idx_gives_first_position() {
    for &c in CHARSET.iter() {
        let i = char_to_idx(c) as usize;
        assert!(CHARSET[..i].iter().all(|&d| d != c));
    }
}

#[test]
fn zero_sided_targets_give_empty_grids() {
    let g = AsciiGrid { width: 2, height: 2, cells: vec![1, 2, 3, 4] };
    let a = g.resized(0, 1000);
    assert_eq!((a.width, a.height, a.cells.len()), (0, 1000, 0));
    let b = g.resized(1000, 0);
    assert_eq!((b.width, b.height, b.cells.len()), (1000, 0, 0));
    let c = g.resized(usize::MAX, 0);
    assert_eq!((c.width, c.height, c.cells.len()), (usize::MAX, 0, 0));
    let d = g.resized(0, usize::MAX);
    assert_eq!((d.width, d.height, d.cells.len()), (0, usize::MAX, 0));
    let wide = AsciiBank::from_raw_images(&["ab"], usize::MAX, 0);
    assert_eq!((wide.width, wide.height, wide.images[0].grid.cells.len()), (usize::MAX, 0, 0));
    let bank = AsciiBank::from_raw_images(&["ab", "cd"], 7, 0);
    assert_eq!(bank.len(), 2);
    assert_eq!(bank.images[1].grid.cells.len(), 0);
}
