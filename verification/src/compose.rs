//! The frame compositor: per scanline, collect and sort the sprites that
//! cross the line, then resolve every pixel by walking the background
//! layers in index order (lower index wins) and letting the first opaque
//! sprite override the background. Where nothing is opaque, the backdrop
//! palette entry shows.

use vstd::prelude::*;
use crate::color::Color;
use crate::frame::FrameBuffer;
use crate::tile::Sprite;
use crate::tile::TileState;

verus! {

/// A palette base and a nibble resolve to a slot inside the 256-entry
/// palette: `base + nibble - 1 < 256`. Callers of the compositor must
/// guarantee this for every reachable pair; the compositor neither clamps
/// nor wraps the slot (a guest bug would otherwise silently change the
/// rendered output).
pub open spec fn resolvable(base: u8, nibble: u8) -> bool {
    nibble == 0 || base + nibble <= 256
}

/// Every (cell, pixel) pair of every background layer resolves inside the
/// palette.
pub open spec fn bg_palettes_resolvable(ts: TileState) -> bool {
    forall|i: int, c: int, o: int|
        0 <= i < 8 && 0 <= c < 4096 && 0 <= o < 256 ==> resolvable(
            ts.backgrounds[i].palettes[c],
            #[trigger] ts.tiles[ts.backgrounds[i].tiles[c] as int].spec_get_color(o),
        )
}

/// Every pixel of the sprite's tile resolves inside the palette.
pub open spec fn sprite_palettes_resolvable(ts: TileState, s: Sprite) -> bool {
    forall|o: int|
        0 <= o < 256 ==> resolvable(
            s.palette,
            #[trigger] ts.tiles[s.tile as int].spec_get_color(o),
        )
}

/// Every background cell and every sprite of the state resolves inside the
/// palette: the caller-responsibility invariant of the compositor.
pub open spec fn palettes_resolvable(ts: TileState) -> bool {
    &&& bg_palettes_resolvable(ts)
    &&& forall|k: int| 0 <= k < 64 ==> sprite_palettes_resolvable(ts, #[trigger] ts.sprites[k])
}

/// The sprite crosses scanline `y` and takes part in compositing.
pub open spec fn on_line(s: Sprite, y: int) -> bool {
    s.visible && s.position.1 <= y < s.position.1 + 16
}

/// The (nibble, palette base) pair of the first visible background layer,
/// from index `i` up, that is opaque at (x, y); `None` when every layer
/// from `i` up is invisible or transparent there. Lower-indexed layers have
/// priority.
pub open spec fn spec_first_bg_hit(ts: TileState, x: int, y: int, i: int) -> Option<(u8, u8)>
    decreases 8 - i,
{
    if i < 0 || i >= 8 {
        None
    } else if ts.backgrounds[i].visible && ts.backgrounds[i].spec_color_offset(ts, x, y).0 != 0 {
        Some(ts.backgrounds[i].spec_color_offset(ts, x, y))
    } else {
        spec_first_bg_hit(ts, x, y, i + 1)
    }
}

/// The (nibble, palette base) pair of the first sprite in the list whose
/// horizontal span contains `x` and whose pixel there is opaque; `None`
/// when no listed sprite shows at (x, y). Earlier list entries have
/// priority.
pub open spec fn spec_first_sprite_hit(ts: TileState, sprites: Seq<Sprite>, x: int, y: int) -> Option<(u8, u8)>
    decreases sprites.len(),
{
    if sprites.len() == 0 {
        None
    } else {
        let s = sprites[0];
        if s.position.0 <= x < s.position.0 + 16 && s.spec_color_offset(ts, x, y).0 != 0 {
            Some(s.spec_color_offset(ts, x, y))
        } else {
            spec_first_sprite_hit(ts, sprites.drop_first(), x, y)
        }
    }
}

/// The palette entry a (nibble, palette base) hit resolves to.
pub open spec fn spec_resolve(ts: TileState, pr: (u8, u8)) -> Color {
    ts.palette[pr.1 + pr.0 - 1]
}

/// The color of output pixel (x, y) given the sprites that cross scanline
/// y, in priority order: the first opaque sprite wins over every
/// background; otherwise the first visible opaque background layer wins;
/// otherwise the backdrop palette entry shows.
pub open spec fn spec_composite(ts: TileState, sprites: Seq<Sprite>, x: int, y: int) -> Color {
    match spec_first_sprite_hit(ts, sprites, x, y) {
        Some(pr) => spec_resolve(ts, pr),
        None => match spec_first_bg_hit(ts, x, y, 0) {
            Some(pr) => spec_resolve(ts, pr),
            None => ts.palette[ts.background_color as int],
        },
    }
}

/// `a` may stand before `b` in the sprite priority order: positions compare
/// lexicographically, x first. Sprites with smaller x take priority on
/// overlap; this tie-break must be reproduced exactly.
pub open spec fn position_le(a: Sprite, b: Sprite) -> bool {
    a.position.0 < b.position.0 || (a.position.0 == b.position.0 && a.position.1 <= b.position.1)
}

/// The sprites of `sprites`, in order, that cross scanline `y`.
pub open spec fn spec_line_sprites(sprites: Seq<Sprite>, y: int) -> Seq<Sprite>
    decreases sprites.len(),
{
    if sprites.len() == 0 {
        Seq::empty()
    } else {
        let rest = spec_line_sprites(sprites.drop_last(), y);
        if on_line(sprites.last(), y) {
            rest.push(sprites.last())
        } else {
            rest
        }
    }
}

/// Insert `x` behind every element it does not order strictly before:
/// among equal positions the earlier element stays first.
pub open spec fn spec_insert_sprite(s: Seq<Sprite>, x: Sprite) -> Seq<Sprite>
    decreases s.len(),
{
    if s.len() == 0 {
        seq![x]
    } else if position_le(s.last(), x) {
        s.push(x)
    } else {
        spec_insert_sprite(s.drop_last(), x).push(s.last())
    }
}

/// Stable insertion sort by position: the sprite order the compositor walks.
pub open spec fn spec_sort_sprites(s: Seq<Sprite>) -> Seq<Sprite>
    decreases s.len(),
{
    if s.len() == 0 {
        Seq::empty()
    } else {
        spec_insert_sprite(spec_sort_sprites(s.drop_last()), s.last())
    }
}

/// The working list of one scanline: the visible sprites crossing it,
/// stably sorted by position.
pub open spec fn spec_line_list(ts: TileState, y: int) -> Seq<Sprite> {
    spec_sort_sprites(spec_line_sprites(ts.sprites@, y))
}

/// The list is ascending in the sprite priority order.
pub open spec fn sorted_by_position(s: Seq<Sprite>) -> bool {
    forall|a: int, b: int| 0 <= a < b < s.len() ==> position_le(s[a], s[b])
}

/// Every element of an insertion by priority is the inserted sprite or one
/// of the original elements, and the list grows by one.
proof fn lemma_insert_sprite_shape(s: Seq<Sprite>, x: Sprite)
    ensures
        spec_insert_sprite(s, x).len() == s.len() + 1,
        forall|k: int|
            0 <= k < spec_insert_sprite(s, x).len() ==> (#[trigger] spec_insert_sprite(s, x)[k]
                == x || exists|m: int| 0 <= m < s.len() && spec_insert_sprite(s, x)[k] == s[m]),
    decreases s.len(),
{
    if s.len() == 0 {
    } else if position_le(s.last(), x) {
        assert forall|k: int| 0 <= k < s.push(x).len() implies (#[trigger] s.push(x)[k] == x
            || exists|m: int| 0 <= m < s.len() && s.push(x)[k] == s[m]) by {
            if k < s.len() {
                assert(s.push(x)[k] == s[k]);
            }
        }
    } else {
        lemma_insert_sprite_shape(s.drop_last(), x);
        let t = spec_insert_sprite(s.drop_last(), x);
        assert forall|k: int| 0 <= k < t.push(s.last()).len() implies (#[trigger] t.push(
            s.last())[k] == x || exists|m: int| 0 <= m < s.len() && t.push(s.last())[k] == s[m])
            by {
            if k < t.len() {
                assert(t.push(s.last())[k] == t[k]);
                if t[k] != x {
                    let m = choose|m: int| 0 <= m < s.drop_last().len() && t[k]
                        == s.drop_last()[m];
                    assert(t.push(s.last())[k] == s[m]);
                }
            } else {
                assert(t.push(s.last())[k] == s[s.len() - 1]);
            }
        }
    }
}

/// Inserting by priority into a sorted list keeps it sorted.
proof fn lemma_insert_sprite_sorted(s: Seq<Sprite>, x: Sprite)
    requires
        sorted_by_position(s),
    ensures
        sorted_by_position(spec_insert_sprite(s, x)),
    decreases s.len(),
{
    if s.len() == 0 {
    } else if position_le(s.last(), x) {
        assert forall|a: int, b: int| 0 <= a < b < s.push(x).len() implies position_le(
            s.push(x)[a], s.push(x)[b]) by {
            if b < s.len() {
                assert(s.push(x)[a] == s[a] && s.push(x)[b] == s[b]);
            } else {
                assert(s.push(x)[a] == s[a] && s.push(x)[b] == x);
                if a < s.len() - 1 {
                    assert(position_le(s[a], s.last()));
                }
            }
        }
    } else {
        assert(sorted_by_position(s.drop_last())) by {
            assert(forall|a: int, b: int|
                0 <= a < b < s.drop_last().len() ==> s.drop_last()[a] == s[a]
                    && s.drop_last()[b] == s[b]);
        }
        lemma_insert_sprite_sorted(s.drop_last(), x);
        lemma_insert_sprite_shape(s.drop_last(), x);
        let t = spec_insert_sprite(s.drop_last(), x);
        assert forall|a: int, b: int| 0 <= a < b < t.push(s.last()).len() implies position_le(
            t.push(s.last())[a], t.push(s.last())[b]) by {
            if b < t.len() {
                assert(t.push(s.last())[a] == t[a] && t.push(s.last())[b] == t[b]);
            } else {
                assert(t.push(s.last())[a] == t[a] && t.push(s.last())[b] == s.last());
                if t[a] != x {
                    let m = choose|m: int| 0 <= m < s.drop_last().len() && t[a]
                        == s.drop_last()[m];
                    assert(position_le(s[m], s.last()));
                }
            }
        }
    }
}

proof fn lemma_sort_sprites_sorted(s: Seq<Sprite>)
    ensures
        sorted_by_position(spec_sort_sprites(s)),
    decreases s.len(),
{
    if s.len() > 0 {
        lemma_sort_sprites_sorted(s.drop_last());
        lemma_insert_sprite_sorted(spec_sort_sprites(s.drop_last()), s.last());
    }
}

/// The working list of every scanline is sorted ascending by position, x
/// first: on overlap the compositor meets the sprite with the smaller x
/// earlier, so it takes priority.
pub proof fn lemma_line_list_sorted(ts: TileState, y: int)
    ensures
        sorted_by_position(spec_line_list(ts, y)),
{
    lemma_sort_sprites_sorted(spec_line_sprites(ts.sprites@, y));
}

/// Inserting at the position found by scanning from the end realizes
/// `spec_insert_sprite`.
proof fn lemma_insert_sprite_at(s: Seq<Sprite>, x: Sprite, j: int)
    requires
        0 <= j <= s.len(),
        j == 0 || position_le(s[j - 1], x),
        forall|m: int| j <= m < s.len() ==> !position_le(#[trigger] s[m], x),
    ensures
        spec_insert_sprite(s, x) == s.insert(j, x),
    decreases s.len(),
{
    if s.len() == 0 {
        assert(spec_insert_sprite(s, x) =~= s.insert(0, x));
    } else if j == s.len() {
        assert(spec_insert_sprite(s, x) == s.push(x));
        assert(s.insert(j, x) =~= s.push(x));
    } else {
        assert(!position_le(s.last(), x));
        lemma_insert_sprite_at(s.drop_last(), x, j);
        assert(s.drop_last().insert(j, x).push(s.last()) =~= s.insert(j, x));
    }
}

/// Every element of an insertion is the inserted element or one of the
/// original elements.
proof fn lemma_insert_elements(s: Seq<Sprite>, j: int, x: Sprite)
    requires
        0 <= j <= s.len(),
    ensures
        forall|k: int|
            0 <= k < s.insert(j, x).len() ==> (#[trigger] s.insert(j, x)[k] == x || exists|m: int|
                0 <= m < s.len() && s.insert(j, x)[k] == s[m]),
{
    s.insert_ensures(j, x);
    assert forall|k: int| 0 <= k < s.insert(j, x).len() implies (#[trigger] s.insert(j, x)[k] == x
        || exists|m: int| 0 <= m < s.len() && s.insert(j, x)[k] == s[m]) by {
        if k < j {
            assert(s.insert(j, x)[k] == s[k]);
        } else if k == j {
        } else {
            assert(s.insert(j, x)[k] == s[k - 1]);
        }
    }
}

/// Insert `s` into the working list at its priority position, keeping the
/// order stable.
fn insert_sorted(list: &mut Vec<Sprite>, s: Sprite)
    ensures
        final(list)@ == spec_insert_sprite(old(list)@, s),
        forall|k: int|
            0 <= k < final(list)@.len() ==> (#[trigger] final(list)@[k] == s || exists|m: int|
                0 <= m < old(list)@.len() && final(list)@[k] == old(list)@[m]),
{
    let mut j = list.len();
    while j > 0 && !sprite_le(&list[j - 1], &s)
        invariant
            j <= list@.len(),
            forall|m: int| j <= m < list@.len() ==> !position_le(#[trigger] list@[m], s),
        decreases j,
    {
        j = j - 1;
    }
    proof {
        lemma_insert_sprite_at(list@, s, j as int);
        lemma_insert_elements(list@, j as int, s);
    }
    list.insert(j, s);
}

/// Compare two sprites' priority: position, x before y.
fn sprite_le(a: &Sprite, b: &Sprite) -> (r: bool)
    ensures
        r == position_le(*a, *b),
{
    a.position.0 < b.position.0 || (a.position.0 == b.position.0 && a.position.1 <= b.position.1)
}

/// Collect the visible sprites whose vertical span contains scanline `y`,
/// sorted ascending by position: the working list of one scanline.
pub fn sprites_on_line(ts: &TileState, y: usize) -> (r: Vec<Sprite>)
    requires
        y < 0x1000_0000,
    ensures
        r@ == spec_line_list(*ts, y as int),
        forall|k: int| 0 <= k < r@.len() ==> on_line(#[trigger] r@[k], y as int),
        forall|k: int| 0 <= k < r@.len() ==> ts.sprites@.contains(#[trigger] r@[k]),
{
    let mut out: Vec<Sprite> = Vec::new();
    let mut i: usize = 0;
    proof {
        assert(ts.sprites@.take(0) =~= Seq::<Sprite>::empty());
    }
    while i < 64
        invariant
            i <= 64,
            y < 0x1000_0000,
            out@ == spec_sort_sprites(spec_line_sprites(ts.sprites@.take(i as int), y as int)),
            forall|k: int| 0 <= k < out@.len() ==> on_line(#[trigger] out@[k], y as int),
            forall|k: int| 0 <= k < out@.len() ==> ts.sprites@.contains(#[trigger] out@[k]),
        decreases 64 - i,
    {
        let s = ts.sprites[i];
        let in_span = s.position.1 as i64 <= y as i64 && (y as i64) < s.position.1 as i64 + 16;
        proof {
            let prefix = ts.sprites@.take(i as int);
            let next = ts.sprites@.take(i as int + 1);
            assert(next.drop_last() =~= prefix);
            assert(next.last() == ts.sprites@[i as int]);
            assert(spec_line_sprites(next, y as int) == (if on_line(s, y as int) {
                spec_line_sprites(prefix, y as int).push(s)
            } else {
                spec_line_sprites(prefix, y as int)
            }));
        }
        if s.visible && in_span {
            proof {
                let prefix = ts.sprites@.take(i as int);
                let grown = spec_line_sprites(prefix, y as int).push(s);
                assert(grown.drop_last() =~= spec_line_sprites(prefix, y as int));
                assert(spec_sort_sprites(grown) == spec_insert_sprite(
                    spec_sort_sprites(spec_line_sprites(prefix, y as int)), s));
                assert(ts.sprites@.contains(s)) by {
                    assert(ts.sprites@[i as int] == s);
                }
            }
            insert_sorted(&mut out, s);
        }
        i = i + 1;
    }
    proof {
        assert(ts.sprites@.take(64) =~= ts.sprites@);
    }
    out
}

/// Walk the background layers in index order and return the first opaque
/// hit.
fn resolve_background(ts: &TileState, x: usize, y: usize) -> (r: Option<(u8, u8)>)
    requires
        x < 320,
        y < 240,
        bg_palettes_resolvable(*ts),
    ensures
        r == spec_first_bg_hit(*ts, x as int, y as int, 0),
        r matches Some(pr) ==> pr.0 != 0 && pr.0 < 16 && pr.1 + pr.0 <= 256,
{
    let mut i: usize = 0;
    while i < 8
        invariant
            i <= 8,
            x < 320,
            y < 240,
            bg_palettes_resolvable(*ts),
            spec_first_bg_hit(*ts, x as int, y as int, 0) == spec_first_bg_hit(
                *ts, x as int, y as int, i as int),
        decreases 8 - i,
    {
        let bg = &ts.backgrounds[i];
        if bg.visible {
            let pr = bg.get_color_offset(ts, x, y);
            if pr.0 != 0 {
                proof {
                    crate::tile::lemma_spec_cell_ranges(*bg, x as int, y as int);
                    let loc = bg.spec_tile_index(x as int, y as int);
                    let off = bg.spec_tile_offset(x as int, y as int);
                    assert(resolvable(
                        ts.backgrounds[i as int].palettes[loc],
                        ts.tiles[ts.backgrounds[i as int].tiles[loc] as int].spec_get_color(off),
                    ));
                }
                return Some(pr);
            }
        }
        i = i + 1;
    }
    None
}

/// Walk the sprite list in order and return the first opaque hit at `x`.
fn resolve_sprites(ts: &TileState, sprites: &Vec<Sprite>, x: usize, y: usize) -> (r: Option<
    (u8, u8),
>)
    requires
        x < 320,
        y < 240,
        forall|k: int| 0 <= k < sprites@.len() ==> on_line(#[trigger] sprites@[k], y as int),
        forall|k: int|
            0 <= k < sprites@.len() ==> sprite_palettes_resolvable(*ts, #[trigger] sprites@[k]),
    ensures
        r == spec_first_sprite_hit(*ts, sprites@, x as int, y as int),
        r matches Some(pr) ==> pr.0 != 0 && pr.0 < 16 && pr.1 + pr.0 <= 256,
{
    let n = sprites.len();
    let mut k: usize = 0;
    proof {
        assert(sprites@.skip(0) =~= sprites@);
    }
    while k < n
        invariant
            k <= n,
            n == sprites@.len(),
            x < 320,
            y < 240,
            forall|m: int| 0 <= m < sprites@.len() ==> on_line(#[trigger] sprites@[m], y as int),
            forall|m: int|
                0 <= m < sprites@.len() ==> sprite_palettes_resolvable(
                    *ts, #[trigger] sprites@[m]),
            spec_first_sprite_hit(*ts, sprites@, x as int, y as int) == spec_first_sprite_hit(
                *ts, sprites@.skip(k as int), x as int, y as int),
        decreases n - k,
    {
        let s = &sprites[k];
        proof {
            assert(sprites@.skip(k as int)[0] == sprites@[k as int]);
        }
        let hit_x = s.position.0 as i64 <= x as i64 && (x as i64) < s.position.0 as i64 + 16;
        if hit_x {
            let pr = s.get_color_offset(ts, x, y);
            if pr.0 != 0 {
                proof {
                    let lx = if s.flip_x {
                        15 - (x - s.position.0)
                    } else {
                        x - s.position.0
                    };
                    let ly = if s.flip_y {
                        15 - (y - s.position.1)
                    } else {
                        y - s.position.1
                    };
                    assert(0 <= lx + ly * 16 < 256);
                    assert(resolvable(
                        s.palette,
                        ts.tiles[s.tile as int].spec_get_color(lx + ly * 16),
                    ));
                }
                return Some(pr);
            }
        }
        proof {
            assert(sprites@.skip(k as int).drop_first() =~= sprites@.skip(k as int + 1));
        }
        k = k + 1;
    }
    proof {
        assert(sprites@.skip(n as int).len() == 0);
    }
    None
}

/// Resolve the color of output pixel (x, y): backdrop, then the first
/// opaque background layer, then the first opaque sprite of the line list,
/// each stage overriding the one before it.
pub fn composite_pixel(ts: &TileState, sprites: &Vec<Sprite>, x: usize, y: usize) -> (c: Color)
    requires
        x < 320,
        y < 240,
        bg_palettes_resolvable(*ts),
        forall|k: int| 0 <= k < sprites@.len() ==> on_line(#[trigger] sprites@[k], y as int),
        forall|k: int|
            0 <= k < sprites@.len() ==> sprite_palettes_resolvable(*ts, #[trigger] sprites@[k]),
    ensures
        c == spec_composite(*ts, sprites@, x as int, y as int),
{
    let mut color = ts.palette[ts.background_color as usize];
    if let Some(pr) = resolve_background(ts, x, y) {
        color = ts.palette[pr.1 as usize + pr.0 as usize - 1];
    }
    if let Some(pr) = resolve_sprites(ts, sprites, x, y) {
        color = ts.palette[pr.1 as usize + pr.0 as usize - 1];
    }
    color
}

proof fn lemma_bg_hit_from(ts: TileState, x: int, y: int, k: int, i: int)
    requires
        0 <= k <= i < 8,
        forall|j: int|
            k <= j < i ==> !((#[trigger] ts.backgrounds[j]).visible
                && ts.backgrounds[j].spec_color_offset(ts, x, y).0 != 0),
        ts.backgrounds[i].visible,
        ts.backgrounds[i].spec_color_offset(ts, x, y).0 != 0,
    ensures
        spec_first_bg_hit(ts, x, y, k) == Some(ts.backgrounds[i].spec_color_offset(ts, x, y)),
    decreases i - k,
{
    if k < i {
        lemma_bg_hit_from(ts, x, y, k + 1, i);
    }
}

/// Lower-indexed background layers have compositing priority: when every
/// layer below `i` is invisible or transparent at (x, y) and layer `i` is
/// visible and opaque there, the background resolution yields layer `i`'s
/// pair — whatever the layers above `i` show.
pub proof fn lemma_background_priority(ts: TileState, x: int, y: int, i: int)
    requires
        0 <= i < 8,
        forall|j: int|
            0 <= j < i ==> !((#[trigger] ts.backgrounds[j]).visible
                && ts.backgrounds[j].spec_color_offset(ts, x, y).0 != 0),
        ts.backgrounds[i].visible,
        ts.backgrounds[i].spec_color_offset(ts, x, y).0 != 0,
    ensures
        spec_first_bg_hit(ts, x, y, 0) == Some(ts.backgrounds[i].spec_color_offset(ts, x, y)),
{
    lemma_bg_hit_from(ts, x, y, 0, i);
}

/// Sprites composite above all backgrounds: whenever any listed sprite is
/// opaque at (x, y), the pixel takes the first such sprite's color, whatever
/// the background layers produce.
pub proof fn lemma_sprite_over_background(ts: TileState, sprites: Seq<Sprite>, x: int, y: int)
    ensures
        spec_first_sprite_hit(ts, sprites, x, y) matches Some(pr) ==> spec_composite(
            ts, sprites, x, y) == spec_resolve(ts, pr),
{
}

proof fn lemma_bg_all_miss(ts: TileState, x: int, y: int, i: int)
    requires
        0 <= i <= 8,
        forall|j: int|
            i <= j < 8 ==> !((#[trigger] ts.backgrounds[j]).visible
                && ts.backgrounds[j].spec_color_offset(ts, x, y).0 != 0),
    ensures
        spec_first_bg_hit(ts, x, y, i) == None::<(u8, u8)>,
    decreases 8 - i,
{
    if i < 8 {
        lemma_bg_all_miss(ts, x, y, i + 1);
    }
}

proof fn lemma_sprite_all_miss(ts: TileState, sprites: Seq<Sprite>, x: int, y: int)
    requires
        forall|k: int|
            0 <= k < sprites.len() ==> !((#[trigger] sprites[k]).position.0 <= x
                < sprites[k].position.0 + 16 && sprites[k].spec_color_offset(ts, x, y).0 != 0),
    ensures
        spec_first_sprite_hit(ts, sprites, x, y) == None::<(u8, u8)>,
    decreases sprites.len(),
{
    if sprites.len() > 0 {
        assert(forall|k: int|
            0 <= k < sprites.drop_first().len() ==> #[trigger] sprites.drop_first()[k]
                == sprites[k + 1]);
        lemma_sprite_all_miss(ts, sprites.drop_first(), x, y);
    }
}

/// Transparency fallback: where every background layer is invisible or
/// fully transparent at (x, y) and no listed sprite shows there, the pixel
/// takes the backdrop palette entry.
pub proof fn lemma_transparency_fallback(ts: TileState, sprites: Seq<Sprite>, x: int, y: int)
    requires
        forall|j: int|
            0 <= j < 8 ==> !((#[trigger] ts.backgrounds[j]).visible
                && ts.backgrounds[j].spec_color_offset(ts, x, y).0 != 0),
        forall|k: int|
            0 <= k < sprites.len() ==> !((#[trigger] sprites[k]).position.0 <= x
                < sprites[k].position.0 + 16 && sprites[k].spec_color_offset(ts, x, y).0 != 0),
    ensures
        spec_composite(ts, sprites, x, y) == ts.palette[ts.background_color as int],
{
    lemma_bg_all_miss(ts, x, y, 0);
    lemma_sprite_all_miss(ts, sprites, x, y);
}

/// Render one scanline of the frame: the row's pixels take the composited
/// colors, their fourth bytes and every byte outside the row stay.
pub fn render_scanline(ts: &TileState, frame: &mut FrameBuffer, y: usize)
    requires
        y < 240,
        palettes_resolvable(*ts),
    ensures
        forall|j: int|
            0 <= j < old(frame).data@.len() && !(y * 1280 <= j < y * 1280 + 1280)
                ==> final(frame).data@[j] == old(frame).data@[j],
        forall|x: int|
            #![trigger spec_composite(*ts, spec_line_list(*ts, y as int), x, y as int)]
            0 <= x < 320 ==> {
                let p = (y * 320 + x) * 4;
                let c = spec_composite(*ts, spec_line_list(*ts, y as int), x, y as int);
                &&& final(frame).data@[p] == c.r
                &&& final(frame).data@[p + 1] == c.g
                &&& final(frame).data@[p + 2] == c.b
                &&& final(frame).data@[p + 3] == old(frame).data@[p + 3]
            },
{
    let sprites = sprites_on_line(ts, y);
    proof {
        assert forall|k: int| 0 <= k < sprites@.len() implies sprite_palettes_resolvable(
            *ts, #[trigger] sprites@[k]) by {
            let m = choose|m: int| 0 <= m < ts.sprites@.len() && ts.sprites@[m] == sprites@[k];
            assert(sprite_palettes_resolvable(*ts, ts.sprites[m]));
        }
    }
    let ghost base = frame.data@;
    let mut x: usize = 0;
    while x < 320
        invariant
            x <= 320,
            y < 240,
            palettes_resolvable(*ts),
            sprites@ == spec_line_list(*ts, y as int),
            forall|k: int| 0 <= k < sprites@.len() ==> on_line(#[trigger] sprites@[k], y as int),
            forall|k: int|
                0 <= k < sprites@.len() ==> sprite_palettes_resolvable(
                    *ts, #[trigger] sprites@[k]),
            frame.data@.len() == base.len(),
            forall|j: int|
                0 <= j < base.len() && !(y * 1280 <= j < y * 1280 + 4 * x)
                    ==> frame.data@[j] == base[j],
            forall|u: int|
                #![trigger spec_composite(*ts, sprites@, u, y as int)]
                0 <= u < x ==> {
                    let p = (y * 320 + u) * 4;
                    let c = spec_composite(*ts, sprites@, u, y as int);
                    &&& frame.data@[p] == c.r
                    &&& frame.data@[p + 1] == c.g
                    &&& frame.data@[p + 2] == c.b
                    &&& frame.data@[p + 3] == base[p + 3]
                },
        decreases 320 - x,
    {
        let c = composite_pixel(ts, &sprites, x, y);
        let ghost prev = frame.data@;
        frame.write_pixel(x, y, c);
        proof {
            let p = (y as int * 320 + x as int) * 4;
            assert(frame.data@ == prev.update(p, c.r).update(p + 1, c.g).update(p + 2, c.b));
            assert forall|j: int|
                0 <= j < base.len() && !(y * 1280 <= j < y * 1280 + 4 * (x + 1))
                    implies frame.data@[j] == base[j] by {
                assert(frame.data@[j] == prev[j]);
            }
            assert forall|u: int|
                #![trigger spec_composite(*ts, sprites@, u, y as int)]
                0 <= u < x + 1 implies {
                    let q = (y * 320 + u) * 4;
                    let cc = spec_composite(*ts, sprites@, u, y as int);
                    &&& frame.data@[q] == cc.r
                    &&& frame.data@[q + 1] == cc.g
                    &&& frame.data@[q + 2] == cc.b
                    &&& frame.data@[q + 3] == base[q + 3]
                } by {
                let q = (y as int * 320 + u) * 4;
                if u < x {
                    assert(frame.data@[q] == prev[q]);
                    assert(frame.data@[q + 1] == prev[q + 1]);
                    assert(frame.data@[q + 2] == prev[q + 2]);
                    assert(frame.data@[q + 3] == prev[q + 3]);
                } else {
                    assert(prev[p + 3] == base[p + 3]);
                }
            }
        }
        x = x + 1;
    }
}

/// Render the whole frame against one state snapshot, scanline by
/// scanline. Every pixel of the buffer takes its composited color; the
/// fourth byte of each pixel stays.
pub fn draw_frame(ts: &TileState, frame: &mut FrameBuffer)
    requires
        palettes_resolvable(*ts),
    ensures
        final(frame).data@.len() == old(frame).data@.len(),
        forall|y: int, x: int|
            #![trigger spec_composite(*ts, spec_line_list(*ts, y), x, y)]
            0 <= y < 240 && 0 <= x < 320 ==> {
                let p = (y * 320 + x) * 4;
                let c = spec_composite(*ts, spec_line_list(*ts, y), x, y);
                &&& final(frame).data@[p] == c.r
                &&& final(frame).data@[p + 1] == c.g
                &&& final(frame).data@[p + 2] == c.b
                &&& final(frame).data@[p + 3] == old(frame).data@[p + 3]
            },
{
    let ghost base = frame.data@;
    let mut y: usize = 0;
    while y < 240
        invariant
            y <= 240,
            palettes_resolvable(*ts),
            frame.data@.len() == base.len(),
            base.len() == 307200,
            forall|j: int| y * 1280 <= j < base.len() ==> frame.data@[j] == base[j],
            forall|yy: int, x: int|
                #![trigger spec_composite(*ts, spec_line_list(*ts, yy), x, yy)]
                0 <= yy < y && 0 <= x < 320 ==> {
                    let p = (yy * 320 + x) * 4;
                    let c = spec_composite(*ts, spec_line_list(*ts, yy), x, yy);
                    &&& frame.data@[p] == c.r
                    &&& frame.data@[p + 1] == c.g
                    &&& frame.data@[p + 2] == c.b
                    &&& frame.data@[p + 3] == base[p + 3]
                },
        decreases 240 - y,
    {
        let ghost prev = frame.data@;
        render_scanline(ts, frame, y);
        proof {
            assert forall|j: int| (y + 1) * 1280 <= j < base.len()
                implies frame.data@[j] == base[j] by {
                assert(frame.data@[j] == prev[j]);
            }
            assert forall|yy: int, x: int|
                #![trigger spec_composite(*ts, spec_line_list(*ts, yy), x, yy)]
                0 <= yy < y + 1 && 0 <= x < 320 implies {
                    let p = (yy * 320 + x) * 4;
                    let c = spec_composite(*ts, spec_line_list(*ts, yy), x, yy);
                    &&& frame.data@[p] == c.r
                    &&& frame.data@[p + 1] == c.g
                    &&& frame.data@[p + 2] == c.b
                    &&& frame.data@[p + 3] == base[p + 3]
                } by {
                let p = (yy * 320 + x) * 4;
                if yy < y {
                    assert(p + 3 < y * 1280);
                    assert(frame.data@[p] == prev[p]);
                    assert(frame.data@[p + 1] == prev[p + 1]);
                    assert(frame.data@[p + 2] == prev[p + 2]);
                    assert(frame.data@[p + 3] == prev[p + 3]);
                } else {
                    assert(spec_composite(*ts, spec_line_list(*ts, y as int), x, y as int)
                        == spec_composite(*ts, spec_line_list(*ts, yy), x, yy));
                    assert(prev[p + 3] == base[p + 3]);
                }
            }
        }
        y = y + 1;
    }
}

} // verus!
