//! Glyph bookkeeping for text rendering: which characters are loaded, the
//! table of loaded glyphs, and the screen quad of a glyph.

use std::collections::HashMap;
use vstd::prelude::*;
use vstd::std_specs::hash::spec_hash_map_iter;
use vstd::std_specs::iter::IteratorSpec;

verus! {

/// The `i`-th character to load: the digits, then `A..=Z`, then `a..=z`.
pub open spec fn spec_glyph_char(i: int) -> char {
    if i < 10 {
        (48 + i) as char
    } else if i < 36 {
        (65 + (i - 10)) as char
    } else {
        (97 + (i - 36)) as char
    }
}

/// The characters to load, in loading order.
pub open spec fn spec_glyph_chars() -> Seq<char> {
    Seq::new(62, |i: int| spec_glyph_char(i))
}

/// The characters to load: `0..=9`, then `A..=Z`, then `a..=z`.
pub fn glyph_chars() -> (r: Vec<char>)
    ensures
        r@ == spec_glyph_chars(),
{
    let mut r: Vec<char> = Vec::new();
    let mut d: u8 = 0;
    while d < 10
        invariant
            d <= 10,
            r@.len() == d,
            forall|j: int| 0 <= j < d ==> r@[j] == spec_glyph_char(j),
        decreases 10 - d,
    {
        r.push((48 + d) as char);
        d = d + 1;
    }
    let mut u: u8 = 0;
    while u < 26
        invariant
            u <= 26,
            r@.len() == 10 + u,
            forall|j: int| 0 <= j < 10 + u ==> r@[j] == spec_glyph_char(j),
        decreases 26 - u,
    {
        r.push((65 + u) as char);
        u = u + 1;
    }
    let mut l: u8 = 0;
    while l < 26
        invariant
            l <= 26,
            r@.len() == 36 + l,
            forall|j: int| 0 <= j < 36 + l ==> r@[j] == spec_glyph_char(j),
        decreases 26 - l,
    {
        r.push((97 + l) as char);
        l = l + 1;
    }
    assert(r@ =~= spec_glyph_chars());
    r
}

/// The glyph metrics a text renderer needs, in pixels.
#[derive(Clone, Copy, Debug, PartialEq, Eq)]
pub struct Character {
    /// The GPU texture that holds the glyph's bitmap.
    pub texture_id: u32,
    /// Width and height of the bitmap.
    pub size: (i32, i32),
    /// Offset from the pen position to the bitmap's left and top edges.
    pub bearing: (i32, i32),
    /// Horizontal pen advance.
    pub advance: i32,
}

/// Whether a number is the code point of a character.
pub open spec fn is_char_code(k: u32) -> bool {
    (k as char) as u32 == k
}

/// The glyphs of a map keyed by code point, keyed by character.
pub open spec fn glyph_map(m: Map<u32, Character>) -> Map<char, Character> {
    Map::new(|c: char| m.contains_key(c as u32), |c: char| m[c as u32])
}

/// Turning a key back into its character.
pub open spec fn code_char(k: u32) -> char {
    k as char
}

/// The textures of the glyphs of the given characters, in that order.
pub open spec fn textures_in_order(m: Map<char, Character>, order: Seq<char>) -> Seq<u32> {
    order.map_values(|c: char| m[c].texture_id)
}

/// Whether some glyph of the map uses the texture.
pub open spec fn is_texture_of_glyph(m: Map<char, Character>, id: u32) -> bool {
    exists|c: char| #[trigger] m.dom().contains(c) && m[c].texture_id == id
}

/// The loaded glyphs, keyed by character; each character has one glyph.
/// They are stored in a hash map under the character's code point.
pub struct GlyphTable {
    glyphs: HashMap<u32, Character>,
}

impl View for GlyphTable {
    type V = Map<char, Character>;

    closed spec fn view(&self) -> Map<char, Character> {
        glyph_map(self.glyphs@)
    }
}

/// Every key of a map is a character's code point.
pub open spec fn keys_are_codes(m: Map<u32, Character>) -> bool {
    forall|k: u32| #[trigger] m.contains_key(k) ==> is_char_code(k)
}

/// A character's code point turns back into the character, and different
/// characters have different code points.
proof fn lemma_char_code(c: char, d: char)
    ensures
        is_char_code(c as u32),
        code_char(c as u32) == c,
        c != d ==> c as u32 != d as u32,
{
}

/// The characters of a map keyed by code points have as many elements as
/// the map has keys.
proof fn lemma_glyph_map_len(m: Map<u32, Character>)
    requires
        keys_are_codes(m),
        m.dom().finite(),
    ensures
        glyph_map(m).dom().finite(),
        glyph_map(m).dom().len() == m.dom().len(),
{
    let f = |k: u32| code_char(k);
    assert(vstd::relations::injective_on(f, m.dom())) by {
        assert forall|a: u32, b: u32|
            m.dom().contains(a) && m.dom().contains(b) && #[trigger] f(a) == #[trigger] f(b) implies a
            == b by {
            assert(is_char_code(a) && is_char_code(b));
        }
    }
    assert(m.dom().map(f) =~= glyph_map(m).dom()) by {
        assert forall|c: char| #[trigger] glyph_map(m).dom().contains(c) implies m.dom().map(
            f,
        ).contains(c) by {
            lemma_char_code(c, c);
            assert(m.dom().contains(c as u32));
            assert(f(c as u32) == c);
        }
        assert forall|c: char| #[trigger] m.dom().map(f).contains(c) implies glyph_map(
            m,
        ).dom().contains(c) by {
            let k = choose|k: u32| m.dom().contains(k) && f(k) == c;
            assert(is_char_code(k));
            assert(code_char(k) == c);
            assert(c as u32 == k);
        }
    }
    vstd::set_lib::lemma_map_size(m.dom(), glyph_map(m).dom(), f);
}

impl GlyphTable {
    #[verifier::type_invariant]
    spec fn inv(self) -> bool {
        keys_are_codes(self.glyphs@)
    }

    /// An empty table.
    pub fn new() -> (t: GlyphTable)
        ensures
            t@ == Map::<char, Character>::empty(),
    {
        broadcast use vstd::std_specs::hash::group_hash_axioms;

        let t = GlyphTable { glyphs: HashMap::new() };
        assert(t@ =~= Map::<char, Character>::empty());
        t
    }

    /// The number of glyphs.
    pub fn len(&self) -> (r: usize)
        ensures
            r == self@.dom().len(),
            self@.dom().finite(),
    {
        broadcast use vstd::std_specs::hash::group_hash_axioms;

        proof {
            use_type_invariant(self);
            lemma_glyph_map_len(self.glyphs@);
        }
        self.glyphs.len()
    }

    /// The glyph of `c`, if it was loaded.
    pub fn get(&self, c: char) -> (r: Option<Character>)
        ensures
            r == (if self@.dom().contains(c) {
                Some(self@[c])
            } else {
                None::<Character>
            }),
    {
        broadcast use vstd::std_specs::hash::group_hash_axioms;

        let key: u32 = c as u32;
        match self.glyphs.get(&key) {
            Some(g) => Some(*g),
            None => None,
        }
    }

    /// Stores the glyph of `c`, replacing and returning an earlier one.
    pub fn insert(&mut self, c: char, character: Character) -> (r: Option<Character>)
        ensures
            final(self)@ == old(self)@.insert(c, character),
            r == (if old(self)@.dom().contains(c) {
                Some(old(self)@[c])
            } else {
                None::<Character>
            }),
    {
        broadcast use vstd::std_specs::hash::group_hash_axioms;

        proof {
            use_type_invariant(&*self);
        }
        let key: u32 = c as u32;
        let ghost before = self.glyphs@;
        let mut glyphs: HashMap<u32, Character> = HashMap::new();
        std::mem::swap(&mut glyphs, &mut self.glyphs);
        let previous = glyphs.insert(key, character);
        proof {
            assert(is_char_code(key));
            assert forall|k: u32| #[trigger] glyphs@.contains_key(k) implies is_char_code(k) by {
                if k != key {
                    assert(before.contains_key(k));
                }
            }
            assert(glyph_map(glyphs@) =~= glyph_map(before).insert(c, character)) by {
                assert forall|d: char| #[trigger] glyph_map(glyphs@).dom().contains(d) <==> glyph_map(
                    before,
                ).insert(c, character).dom().contains(d) by {
                    lemma_char_code(d, c);
                }
                assert forall|d: char| #[trigger] glyph_map(glyphs@).dom().contains(d) implies glyph_map(
                    glyphs@,
                )[d] == glyph_map(before).insert(c, character)[d] by {
                    lemma_char_code(d, c);
                }
            }
        }
        self.glyphs = glyphs;
        previous
    }

    /// The texture of every glyph, one per glyph, in some order of the
    /// characters.
    pub fn texture_ids(&self) -> (r: Vec<u32>)
        ensures
            r@.len() == self@.dom().len(),
            exists|order: Seq<char>|
                {
                    &&& order.no_duplicates()
                    &&& order.to_set() == self@.dom()
                    &&& r@ == #[trigger] textures_in_order(self@, order)
                },
            forall|c: char| #[trigger] self@.dom().contains(c) ==> r@.contains(self@[c].texture_id),
            forall|i: int| 0 <= i < r@.len() ==> is_texture_of_glyph(self@, #[trigger] r@[i]),
    {
        broadcast use vstd::std_specs::hash::group_hash_axioms;

        proof {
            use_type_invariant(self);
            lemma_glyph_map_len(self.glyphs@);
        }
        let ghost m = self.glyphs@;
        let ghost pairs = spec_hash_map_iter(&self.glyphs).remaining();
        let mut r: Vec<u32> = Vec::new();
        for p in it: self.glyphs.iter()
            invariant
                m == self.glyphs@,
                it.seq() == pairs,
                r@.len() == it.index(),
                forall|j: int| 0 <= j < it.index() ==> #[trigger] r@[j] == it.seq()[j].1.texture_id,
        {
            r.push(p.1.texture_id);
        }
        proof {
            assert(r@.len() == pairs.len());
            let order = pairs.map_values(|p: (&u32, &Character)| code_char(*p.0));
            assert forall|a: int, b: int|
                0 <= a < order.len() && 0 <= b < order.len() && a != b implies order[a] != order[b] by {
                assert(m.contains_key(*pairs[a].0) && m[*pairs[a].0] == *pairs[a].1);
                assert(m.contains_key(*pairs[b].0) && m[*pairs[b].0] == *pairs[b].1);
                assert(is_char_code(*pairs[a].0) && is_char_code(*pairs[b].0));
                if order[a] == order[b] {
                    assert(*pairs[a].0 == *pairs[b].0);
                    assert(pairs[a] == pairs[b]);
                }
            }
            assert(order.to_set() =~= self@.dom()) by {
                assert forall|c: char| #[trigger] self@.dom().contains(c) implies order.to_set().contains(c) by {
                    lemma_char_code(c, c);
                    let k = c as u32;
                    assert(m.contains_key(k));
                    assert(pairs.contains((&k, &m[k])));
                    let a = choose|a: int| 0 <= a < pairs.len() && pairs[a] == (&k, &m[k]);
                    assert(order[a] == c);
                }
                assert forall|c: char| #[trigger] order.to_set().contains(c) implies self@.dom().contains(c) by {
                    let a = choose|a: int| 0 <= a < order.len() && order[a] == c;
                    assert(m.contains_key(*pairs[a].0));
                    assert(is_char_code(*pairs[a].0));
                }
            }
            assert forall|j: int| 0 <= j < r@.len() implies #[trigger] r@[j] == textures_in_order(
                self@,
                order,
            )[j] by {
                assert(m.contains_key(*pairs[j].0) && m[*pairs[j].0] == *pairs[j].1);
                assert(is_char_code(*pairs[j].0));
            }
            assert(r@ =~= textures_in_order(self@, order));
            assert forall|c: char| #[trigger] self@.dom().contains(c) implies r@.contains(
                self@[c].texture_id,
            ) by {
                assert(order.to_set().contains(c));
                let a = choose|a: int| 0 <= a < order.len() && order[a] == c;
                assert(r@[a] == textures_in_order(self@, order)[a]);
            }
            assert forall|j: int| 0 <= j < r@.len() implies is_texture_of_glyph(self@, #[trigger] r@[j]) by {
                let c = order[j];
                assert(order.to_set().contains(c));
                assert(self@.dom().contains(c) && self@[c].texture_id == r@[j]);
            }
        }
        r
    }
}

/// Reading a glyph back gives what was last stored for its character;
/// storing a glyph leaves every other character's entry as it was.
pub proof fn lemma_get_after_insert(table: Map<char, Character>, c: char, glyph: Character, d: char)
    ensures
        table.insert(c, glyph).dom().contains(c),
        table.insert(c, glyph)[c] == glyph,
        d != c ==> (table.insert(c, glyph).dom().contains(d) <==> table.dom().contains(d)),
        d != c && table.dom().contains(d) ==> table.insert(c, glyph)[d] == table[d],
{
}

/// Whether a character is an ASCII digit or letter.
pub open spec fn is_ascii_alphanumeric(c: char) -> bool {
    ('0' <= c && c <= '9') || ('A' <= c && c <= 'Z') || ('a' <= c && c <= 'z')
}

/// The characters to load are sixty-two distinct ASCII digits and letters,
/// the capital `A` among them.
pub proof fn lemma_glyph_chars_are_alphanumeric_and_distinct()
    ensures
        spec_glyph_chars().len() == 62,
        spec_glyph_chars().no_duplicates(),
        forall|i: int| 0 <= i < 62 ==> is_ascii_alphanumeric(#[trigger] spec_glyph_chars()[i]),
        spec_glyph_chars().contains('A'),
        spec_glyph_chars().contains('0'),
        spec_glyph_chars().contains('z'),
{
    let s = spec_glyph_chars();
    assert forall|i: int, j: int| 0 <= i < s.len() && 0 <= j < s.len() && i != j implies s[i]
        != s[j] by {
        assert(s[i] as int == spec_glyph_code(i));
        assert(s[j] as int == spec_glyph_code(j));
    }
    assert forall|i: int| 0 <= i < 62 implies is_ascii_alphanumeric(#[trigger] s[i]) by {
        assert(s[i] as int == spec_glyph_code(i));
    }
    assert(s[10] as int == 65);
    assert(s[10] == 'A');
    assert(s[0] as int == 48);
    assert(s[0] == '0');
    assert(s[61] as int == 122);
    assert(s[61] == 'z');
}

/// The code point of the `i`-th character to load.
pub open spec fn spec_glyph_code(i: int) -> int {
    if i < 10 {
        48 + i
    } else if i < 36 {
        65 + (i - 10)
    } else {
        97 + (i - 36)
    }
}

/// The table after storing each glyph under its character, in order.
pub open spec fn spec_table_of(chars: Seq<char>, glyphs: Seq<Character>) -> Map<char, Character>
    decreases chars.len(),
{
    if chars.len() == 0 || glyphs.len() == 0 {
        Map::empty()
    } else {
        spec_table_of(chars.drop_last(), glyphs.drop_last()).insert(chars.last(), glyphs.last())
    }
}

impl GlyphTable {
    /// Stores `glyphs[i]` under `chars[i]` for every `i`, in order.
    pub fn from_glyphs(chars: &Vec<char>, glyphs: &Vec<Character>) -> (t: GlyphTable)
        requires
            chars@.len() == glyphs@.len(),
        ensures
            t@ == spec_table_of(chars@, glyphs@),
    {
        let mut t = GlyphTable::new();
        let n: usize = chars.len();
        let mut i: usize = 0;
        while i < n
            invariant
                n == chars@.len(),
                n == glyphs@.len(),
                i <= n,
                t@ == spec_table_of(chars@.take(i as int), glyphs@.take(i as int)),
            decreases n - i,
        {
            assert(chars@.take(i as int + 1).drop_last() =~= chars@.take(i as int));
            assert(glyphs@.take(i as int + 1).drop_last() =~= glyphs@.take(i as int));
            t.insert(chars[i], glyphs[i]);
            i = i + 1;
        }
        assert(chars@.take(n as int) =~= chars@);
        assert(glyphs@.take(n as int) =~= glyphs@);
        t
    }
}

/// With distinct characters, every character maps to its own glyph and
/// nothing else is stored.
pub proof fn lemma_table_of_distinct(chars: Seq<char>, glyphs: Seq<Character>)
    requires
        chars.len() == glyphs.len(),
        chars.no_duplicates(),
    ensures
        spec_table_of(chars, glyphs).dom() == chars.to_set(),
        forall|i: int|
            0 <= i < chars.len() ==> spec_table_of(chars, glyphs)[#[trigger] chars[i]] == glyphs[i],
    decreases chars.len(),
{
    if chars.len() > 0 {
        let cs = chars.drop_last();
        let gs = glyphs.drop_last();
        assert forall|i: int, j: int| 0 <= i < cs.len() && 0 <= j < cs.len() && i != j implies cs[i]
            != cs[j] by {
            assert(cs[i] == chars[i] && cs[j] == chars[j]);
        }
        lemma_table_of_distinct(cs, gs);
        assert(spec_table_of(chars, glyphs).dom() =~= chars.to_set()) by {
            assert forall|c: char| #[trigger] chars.to_set().contains(c) implies spec_table_of(
                chars,
                glyphs,
            ).dom().contains(c) by {
                let i = choose|i: int| 0 <= i < chars.len() && chars[i] == c;
                if i < chars.len() - 1 {
                    assert(cs[i] == c);
                    assert(cs.to_set().contains(c));
                }
            }
            assert forall|c: char| #[trigger] spec_table_of(chars, glyphs).dom().contains(c) implies chars.to_set().contains(c) by {
                if c != chars.last() {
                    assert(cs.to_set().contains(c));
                    let i = choose|i: int| 0 <= i < cs.len() && cs[i] == c;
                    assert(chars[i] == c);
                }
            }
        }
        assert forall|i: int| 0 <= i < chars.len() implies spec_table_of(chars, glyphs)[#[trigger] chars[i]]
            == glyphs[i] by {
            if i < chars.len() - 1 {
                assert(cs[i] == chars[i]);
                assert(gs[i] == glyphs[i]);
                assert(chars[i] != chars.last());
            }
        }
    }
}

// ------------------------------------------------------------- quad geometry

/// Left edge of a glyph quad.
pub open spec fn quad_x(c: Character, base_x: int, scale_x: int) -> int {
    base_x + c.bearing.0 * scale_x
}

/// Top of the quad's texture rows: the pen line minus the part of the
/// bitmap below it.
pub open spec fn quad_y(c: Character, base_y: int, scale_y: int) -> int {
    base_y - (c.size.1 - c.bearing.1) * scale_y
}

/// Width of a glyph quad.
pub open spec fn quad_w(c: Character, scale_x: int) -> int {
    c.size.0 * scale_x
}

/// Height of a glyph quad.
pub open spec fn quad_h(c: Character, scale_y: int) -> int {
    c.size.1 * scale_y
}

/// The two triangles of a glyph quad, as six vertices of
/// `(x, y, u, v)`: position and texture coordinate.  The horizontal scale
/// applies to x and width, the vertical one to y and height.
pub open spec fn spec_quad_vertices(
    c: Character,
    base_x: int,
    base_y: int,
    scale_x: int,
    scale_y: int,
) -> Seq<int> {
    let x = quad_x(c, base_x, scale_x);
    let y = quad_y(c, base_y, scale_y);
    let w = quad_w(c, scale_x);
    let h = quad_h(c, scale_y);
    seq![
        x, y + h, 0, 1,
        x, y, 0, 0,
        x + w, y, 1, 0,
        x, y + h, 0, 1,
        x + w, y, 1, 0,
        x + w, y + h, 1, 1,
    ]
}

/// Vertex coordinates as mathematical integers.
pub open spec fn spec_vertex_values(v: Seq<i128>) -> Seq<int> {
    v.map_values(|x: i128| x as int)
}

/// The vertices of the quad on which a glyph is drawn.
pub struct QuadGeometry {
    pub vertices: [i128; 24],
}

fn mul_exact(a: i32, b: i32) -> (r: i128)
    ensures
        r == a * b,
        -4611686018427387904 <= r <= 4611686018427387904,
{
    proof {
        assert(-4611686018427387904 <= (a as int) * (b as int) <= 4611686018427387904)
            by (nonlinear_arith)
            requires
                -2147483648 <= a <= 2147483647,
                -2147483648 <= b <= 2147483647,
        ;
    }
    (a as i128) * (b as i128)
}

impl QuadGeometry {
    /// The quad of a glyph whose pen position is `base`, magnified by
    /// `scale.0` across and `scale.1` down.  All coordinates are exact
    /// integers, so no metric overflows.
    pub fn new(character: &Character, base: (i32, i32), scale: (i32, i32)) -> (q: QuadGeometry)
        ensures
            spec_vertex_values(q.vertices@) == spec_quad_vertices(
                *character,
                base.0 as int,
                base.1 as int,
                scale.0 as int,
                scale.1 as int,
            ),
    {
        let (scale_x, scale_y) = scale;
        let w: i128 = mul_exact(character.size.0, scale_x);
        let h: i128 = mul_exact(character.size.1, scale_y);
        let x: i128 = base.0 as i128 + mul_exact(character.bearing.0, scale_x);
        let y: i128 = base.1 as i128 - (mul_exact(character.size.1, scale_y) - mul_exact(
            character.bearing.1,
            scale_y,
        ));
        proof {
            assert((character.size.1 as int - character.bearing.1 as int) * scale_y as int == (
            character.size.1 as int) * (scale_y as int) - (character.bearing.1 as int) * (
            scale_y as int)) by (nonlinear_arith);
        }
        let xw: i128 = x + w;
        let yh: i128 = y + h;
        let vertices: [i128; 24] = [
            x, yh, 0, 1,
            x, y, 0, 0,
            xw, y, 1, 0,
            x, yh, 0, 1,
            xw, y, 1, 0,
            xw, yh, 1, 1,
        ];
        let q = QuadGeometry { vertices };
        assert(spec_vertex_values(q.vertices@) =~= spec_quad_vertices(
            *character,
            base.0 as int,
            base.1 as int,
            scale_x as int,
            scale_y as int,
        ));
        q
    }
}

/// Every vertex's texture coordinate is its position within the quad: the
/// bitmap is stretched exactly over the quad.  The two triangles share the
/// edge from the first to the third vertex, and together they use all four
/// corners.
pub proof fn lemma_quad_maps_texture_onto_rectangle(
    c: Character,
    base_x: int,
    base_y: int,
    scale_x: int,
    scale_y: int,
)
    ensures
        ({
            let v = spec_quad_vertices(c, base_x, base_y, scale_x, scale_y);
            let x = quad_x(c, base_x, scale_x);
            let y = quad_y(c, base_y, scale_y);
            let w = quad_w(c, scale_x);
            let h = quad_h(c, scale_y);
            &&& v.len() == 24
            &&& forall|k: int|
                0 <= k < 6 ==> {
                    &&& (v[4 * k + 2] == 0 || v[4 * k + 2] == 1)
                    &&& (v[4 * k + 3] == 0 || v[4 * k + 3] == 1)
                    &&& #[trigger] v[4 * k] == x + v[4 * k + 2] * w
                    &&& v[4 * k + 1] == y + v[4 * k + 3] * h
                }
            &&& v.subrange(0, 4) == v.subrange(12, 16)
            &&& v.subrange(8, 12) == v.subrange(16, 20)
            &&& v[3] == 1 && v[2] == 0
            &&& v[6] == 0 && v[7] == 0
            &&& v[10] == 1 && v[11] == 0
            &&& v[22] == 1 && v[23] == 1
        }),
{
    let v = spec_quad_vertices(c, base_x, base_y, scale_x, scale_y);
    assert(v.subrange(0, 4) =~= v.subrange(12, 16));
    assert(v.subrange(8, 12) =~= v.subrange(16, 20));
    assert forall|k: int| 0 <= k < 6 implies {
        &&& (v[4 * k + 2] == 0 || v[4 * k + 2] == 1)
        &&& (v[4 * k + 3] == 0 || v[4 * k + 3] == 1)
        &&& #[trigger] v[4 * k] == quad_x(c, base_x, scale_x) + v[4 * k + 2] * quad_w(c, scale_x)
        &&& v[4 * k + 1] == quad_y(c, base_y, scale_y) + v[4 * k + 3] * quad_h(c, scale_y)
    } by {
        if k == 0 {
        } else if k == 1 {
        } else if k == 2 {
        } else if k == 3 {
        } else if k == 4 {
        } else {
        }
    }
}

// --------------------------------------------------------------- text layout

/// The character the text renderer draws.
pub open spec fn spec_text_char() -> char {
    'A'
}

/// The metrics the text renderer can lay out: the glyph of `A` is loaded
/// and its height minus its top bearing is an `i32`.  The renderer takes
/// that difference in `i32` arithmetic and stops on overflow, so such
/// metrics are no input of it; the quad itself is computed exactly by
/// `QuadGeometry::new`, which accepts any metrics.
pub open spec fn can_lay_out_text(table: Map<char, Character>) -> bool {
    &&& table.dom().contains(spec_text_char())
    &&& i32::MIN <= table[spec_text_char()].size.1 - table[spec_text_char()].bearing.1
        <= i32::MAX
}

/// The quad of the rendered text: the glyph of `A`, pen at `(400, 300)`,
/// magnified three times in both directions.
pub open spec fn spec_text_quad(table: Map<char, Character>) -> Seq<int> {
    spec_quad_vertices(table[spec_text_char()], 400, 300, 3, 3)
}

/// Only the glyph of `A` matters to the rendered text: two tables that
/// agree on it can both be laid out or neither, and then give the same quad.
pub proof fn lemma_text_quad_depends_only_on_a(t1: Map<char, Character>, t2: Map<char, Character>)
    requires
        t1.dom().contains(spec_text_char()) == t2.dom().contains(spec_text_char()),
        t1.dom().contains(spec_text_char()) ==> t1[spec_text_char()] == t2[spec_text_char()],
    ensures
        can_lay_out_text(t1) == can_lay_out_text(t2),
        can_lay_out_text(t1) ==> spec_text_quad(t1) == spec_text_quad(t2),
{
}

/// The quad of a glyph in plain arithmetic: left edge at the pen plus the
/// scaled left bearing, top edge at the pen minus the scaled part of the
/// bitmap below the baseline, width and height the scaled bitmap size.
pub proof fn lemma_quad_vertices_arithmetic(
    c: Character,
    base_x: int,
    base_y: int,
    scale_x: int,
    scale_y: int,
)
    ensures
        ({
            let x0 = base_x + scale_x * c.bearing.0;
            let y0 = base_y - scale_y * (c.size.1 - c.bearing.1);
            let x1 = x0 + scale_x * c.size.0;
            let y1 = y0 + scale_y * c.size.1;
            spec_quad_vertices(c, base_x, base_y, scale_x, scale_y) == seq![
                x0, y1, 0int, 1int,
                x0, y0, 0, 0,
                x1, y0, 1, 0,
                x0, y1, 0, 1,
                x1, y0, 1, 0,
                x1, y1, 1, 1,
            ]
        }),
{
    assert(c.bearing.0 * scale_x == scale_x * c.bearing.0) by (nonlinear_arith);
    assert((c.size.1 - c.bearing.1) * scale_y == scale_y * (c.size.1 - c.bearing.1))
        by (nonlinear_arith);
    assert(c.size.0 * scale_x == scale_x * c.size.0) by (nonlinear_arith);
    assert(c.size.1 * scale_y == scale_y * c.size.1) by (nonlinear_arith);
}

/// The text quad is the glyph of `A` with the pen at `(400, 300)`,
/// magnified three times in both directions, whatever its metrics.
pub proof fn lemma_text_quad_layout(table: Map<char, Character>)
    requires
        can_lay_out_text(table),
    ensures
        ({
            let c = table['A'];
            let x0 = 400 + 3 * c.bearing.0;
            let y0 = 300 - 3 * (c.size.1 - c.bearing.1);
            let x1 = x0 + 3 * c.size.0;
            let y1 = y0 + 3 * c.size.1;
            spec_text_quad(table) == seq![
                x0, y1, 0int, 1int,
                x0, y0, 0, 0,
                x1, y0, 1, 0,
                x0, y1, 0, 1,
                x1, y0, 1, 0,
                x1, y1, 1, 1,
            ]
        }),
{
    lemma_quad_vertices_arithmetic(table['A'], 400, 300, 3, 3);
}

/// The quad of the rendered text.
pub fn text_quad(characters: &GlyphTable) -> (q: QuadGeometry)
    requires
        can_lay_out_text(characters@),
    ensures
        spec_vertex_values(q.vertices@) == spec_text_quad(characters@),
{
    let c = characters.get('A').unwrap();
    QuadGeometry::new(&c, (400, 300), (3, 3))
}
} // verus!
