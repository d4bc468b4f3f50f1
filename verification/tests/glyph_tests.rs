use gnworld::glyphs::{glyph_chars, text_quad, Character, GlyphTable, QuadGeometry};

fn glyph(texture_id: u32, size: (i32, i32), bearing: (i32, i32)) -> Character {
    Character { texture_id, size, bearing, advance: size.0 + 2 }
}

#[test]
fn glyph_chars_are_digits_then_letters() {
    let chars = glyph_chars();
    assert_eq!(chars.len(), 62);
    let expected: String = "0123456789ABCDEFGHIJKLMNOPQRSTUVWXYZabcdefghijklmnopqrstuvwxyz".to_string();
    assert_eq!(chars.iter().collect::<String>(), expected);
    let mut sorted = chars.clone();
    sorted.sort();
    sorted.dedup();
    assert_eq!(sorted.len(), 62);
    assert!(chars.iter().all(|c| c.is_ascii_alphanumeric()));
}

#[test]
fn table_insert_and_get() {
    let mut table = GlyphTable::new();
    assert_eq!(table.len(), 0);
    assert_eq!(table.get('A'), None);
    let a = glyph(1, (10, 12), (1, 11));
    let b = glyph(2, (8, 9), (0, 9));
    assert_eq!(table.insert('A', a), None);
    assert_eq!(table.insert('b', b), None);
    assert_eq!(table.len(), 2);
    assert_eq!(table.get('A'), Some(a));
    assert_eq!(table.get('b'), Some(b));
    assert_eq!(table.get('B'), None);
}

#[test]
fn table_insert_replaces() {
    let mut table = GlyphTable::new();
    let a = glyph(1, (10, 12), (1, 11));
    let a2 = glyph(7, (11, 13), (2, 12));
    table.insert('A', a);
    assert_eq!(table.insert('A', a2), Some(a));
    assert_eq!(table.len(), 1);
    assert_eq!(table.get('A'), Some(a2));
}

#[test]
fn table_texture_ids() {
    let mut table = GlyphTable::new();
    table.insert('x', glyph(30, (5, 5), (0, 5)));
    table.insert('y', glyph(31, (5, 7), (0, 5)));
    table.insert('x', glyph(32, (5, 5), (0, 5)));
    let mut ids = table.texture_ids();
    ids.sort();
    assert_eq!(ids, vec![31, 32]);
    assert!(GlyphTable::new().texture_ids().is_empty());
}

#[test]
fn table_from_glyphs() {
    let chars = glyph_chars();
    let glyphs: Vec<Character> =
        (0..chars.len() as u32).map(|i| glyph(100 + i, (i as i32, 2), (0, 1))).collect();
    let table = GlyphTable::from_glyphs(&chars, &glyphs);
    assert_eq!(table.len(), 62);
    assert_eq!(table.get('0').map(|c| c.texture_id), Some(100));
    assert_eq!(table.get('A').map(|c| c.texture_id), Some(110));
    assert_eq!(table.get('z').map(|c| c.texture_id), Some(161));
    assert_eq!(table.get('!'), None);
}

#[test]
fn table_from_repeated_chars_keeps_last() {
    let chars = vec!['q', 'r', 'q'];
    let glyphs = vec![glyph(1, (1, 1), (0, 0)), glyph(2, (1, 1), (0, 0)), glyph(3, (1, 1), (0, 0))];
    let table = GlyphTable::from_glyphs(&chars, &glyphs);
    assert_eq!(table.len(), 2);
    assert_eq!(table.get('q').map(|c| c.texture_id), Some(3));
    assert_eq!(table.get('r').map(|c| c.texture_id), Some(2));
}

#[test]
fn quad_of_a_glyph() {
    let c = glyph(5, (10, 12), (1, 9));
    let q = QuadGeometry::new(&c, (400, 300), (3, 3));
    // x = 400 + 1 * 3, y = 300 - (12 - 9) * 3, w = 30, h = 36
    assert_eq!(
        q.vertices,
        [
            403, 327, 0, 1, //
            403, 291, 0, 0, //
            433, 291, 1, 0, //
            403, 327, 0, 1, //
            433, 291, 1, 0, //
            433, 327, 1, 1,
        ]
    );
}

#[test]
fn quad_with_negative_bearing_and_extreme_metrics() {
    let c = Character { texture_id: 0, size: (i32::MAX, i32::MAX), bearing: (-2, i32::MIN), advance: 0 };
    let q = QuadGeometry::new(&c, (0, 0), (i32::MAX, i32::MAX));
    let s = i32::MAX as i128;
    let x = -2 * s;
    let y = -((i32::MAX as i128) - (i32::MIN as i128)) * s;
    assert_eq!(q.vertices[0], x);
    assert_eq!(q.vertices[5], y);
    assert_eq!(q.vertices[8], x + s * s);
    assert_eq!(q.vertices[21], y + s * s);
}

#[test]
fn quad_with_separate_scales() {
    let c = Character { texture_id: 1, size: (10, 20), bearing: (2, 15), advance: 0 };
    let q = QuadGeometry::new(&c, (400, 300), (2, 3));
    assert_eq!(
        q.vertices,
        [
            404, 345, 0, 1, //
            404, 285, 0, 0, //
            424, 285, 1, 0, //
            404, 345, 0, 1, //
            424, 285, 1, 0, //
            424, 345, 1, 1,
        ]
    );
}

#[test]
fn text_quad_draws_the_glyph_of_a() {
    let mut table = GlyphTable::new();
    table.insert('B', glyph(1, (4, 4), (0, 4)));
    table.insert('A', glyph(2, (20, 30), (-1, 25)));
    let q = text_quad(&table);
    // x = 400 - 3, y = 300 - 5 * 3, w = 60, h = 90
    assert_eq!(&q.vertices[0..4], &[397, 375, 0, 1]);
    assert_eq!(&q.vertices[4..8], &[397, 285, 0, 0]);
    assert_eq!(&q.vertices[20..24], &[457, 375, 1, 1]);
}

#[test]
fn text_quad_ignores_other_glyphs() {
    let a = glyph(2, (20, 30), (-1, 25));
    let mut t1 = GlyphTable::new();
    t1.insert('A', a);
    let mut t2 = GlyphTable::new();
    t2.insert('z', glyph(9, (1, 1), (0, 1)));
    t2.insert('A', a);
    t2.insert('B', glyph(8, (7, 7), (3, 3)));
    assert_eq!(text_quad(&t1).vertices, text_quad(&t2).vertices);
}
