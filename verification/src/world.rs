//! World overlays: the gathering markers shown in debug mode, the
//! footprint of large NPCs, and the exit arrows on the edges of an
//! interior.

use vstd::prelude::*;
use vstd::arithmetic::div_mod::lemma_fundamental_div_mod_converse;
use crate::text::same_text;

verus! {

/// A gathering spot of the world.
pub struct GatheringMarker {
    pub skill: String,
    pub x: i32,
    pub y: i32,
}

/// A marker to draw and the item sprite it is drawn with.
pub struct MarkerSprite {
    pub marker: usize,
    pub sprite: &'static str,
}

/// Positions, in order, of the first `n` markers that have a sprite (only
/// fishing spots do, drawn as a trout).
pub open spec fn sprite_markers(markers: Seq<GatheringMarker>, n: int) -> Seq<usize>
    decreases n,
{
    if n <= 0 {
        Seq::empty()
    } else {
        let p = sprite_markers(markers, n - 1);
        if markers[n - 1].skill@ == "fishing"@ { p.push((n - 1) as usize) } else { p }
    }
}

/// A large NPC's footprint: the tiles it covers, as offsets from its
/// anchor tile, and its centre.
pub struct NpcFootprint {
    pub npc: usize,
    /// `(dx, dy)` for each covered tile, row by row.
    pub tiles: Vec<(u32, u32)>,
    /// Twice the offset of the sprite centre from the anchor, on both axes
    /// (the centre sits `(size - 1) / 2` tiles in).
    pub center_twice: u32,
}

/// How many of the first `n` sizes are larger than one tile.
pub open spec fn large_count(sizes: Seq<u32>, n: int) -> nat
    decreases n,
{
    if n <= 0 {
        0
    } else {
        large_count(sizes, n - 1) + (if sizes[n - 1] > 1 { 1nat } else { 0nat })
    }
}

/// The tiles covered by the footprints of the first `n` sizes that are
/// larger than one tile: the sum of `size * size` over them.
pub open spec fn footprint_area(sizes: Seq<u32>, n: int) -> nat
    decreases n,
{
    if n <= 0 {
        0
    } else {
        footprint_area(sizes, n - 1) + (if sizes[n - 1] > 1 {
            (sizes[n - 1] as nat) * (sizes[n - 1] as nat)
        } else {
            0nat
        })
    }
}

/// The tiles listed over all footprints of `fs`.
pub open spec fn tiles_listed(fs: Seq<NpcFootprint>) -> nat
    decreases fs.len(),
{
    if fs.len() == 0 {
        0
    } else {
        tiles_listed(fs.drop_last()) + fs.last().tiles@.len()
    }
}

/// NPCs of one tile or less have no footprint: when none of the first `n`
/// is larger, no footprint is planned and no tile is drawn.
pub proof fn lemma_small_npcs_draw_nothing(sizes: Seq<u32>, n: int)
    requires
        0 <= n <= sizes.len(),
        forall|i: int| 0 <= i < n ==> #[trigger] sizes[i] <= 1,
    ensures
        large_count(sizes, n) == 0,
        footprint_area(sizes, n) == 0,
    decreases n,
{
    if n > 0 {
        lemma_small_npcs_draw_nothing(sizes, n - 1);
    }
}

/// A portal of an interior, in tiles.
pub struct Portal {
    pub x: i32,
    pub y: i32,
    pub width: i32,
    pub height: i32,
}

/// An edge of an interior.
#[derive(Clone, Copy, PartialEq, Eq, Structural, Debug)]
pub enum Edge {
    Bottom,
    Top,
    Right,
    Left,
}

/// The edge a portal leads out through, one edge per portal, bottom first,
/// then top, right, left; `None` for a portal inside the room.
pub open spec fn edge_of(p: Portal, width: i32, height: i32) -> Option<Edge> {
    if p.y + p.height >= height {
        Some(Edge::Bottom)
    } else if p.y == 0 {
        Some(Edge::Top)
    } else if p.x + p.width >= width {
        Some(Edge::Right)
    } else if p.x == 0 {
        Some(Edge::Left)
    } else {
        None
    }
}

/// The stretch a portal covers along its edge: across for the top and the
/// bottom, down for the sides.
pub open spec fn extent_of(p: Portal, e: Edge) -> (int, int) {
    match e {
        Edge::Bottom | Edge::Top => (p.x as int, p.x + p.width),
        Edge::Right | Edge::Left => (p.y as int, p.y + p.height),
    }
}

/// The span of edge `e` over the first `n` portals: from the lowest start
/// to the highest end of the portals on it, `None` when it has none.
pub open spec fn span_of(ps: Seq<Portal>, width: i32, height: i32, e: Edge, n: int) -> Option<(int, int)>
    decreases n,
{
    if n <= 0 {
        None
    } else {
        let prev = span_of(ps, width, height, e, n - 1);
        if edge_of(ps[n - 1], width, height) == Some(e) {
            let (lo, hi) = extent_of(ps[n - 1], e);
            match prev {
                Some((a, b)) => Some((if lo < a { lo } else { a }, if hi > b { hi } else { b })),
                None => Some((lo, hi)),
            }
        } else {
            prev
        }
    }
}

/// The spans of the four edges; an arrow is drawn at the middle of each.
pub struct EdgeSpans {
    pub left: Option<(i32, i32)>,
    pub right: Option<(i32, i32)>,
    pub top: Option<(i32, i32)>,
    pub bottom: Option<(i32, i32)>,
}

/// An optional pair of `i32` as integers.
pub open spec fn as_ints(o: Option<(i32, i32)>) -> Option<(int, int)> {
    match o {
        Some((a, b)) => Some((a as int, b as int)),
        None => None,
    }
}

/// The portal's far corner does not overflow.
pub open spec fn portal_fits(p: Portal) -> bool {
    i32::MIN <= p.x + p.width <= i32::MAX && i32::MIN <= p.y + p.height <= i32::MAX
}

/// Stretches `span` to cover `(lo, hi)`.
fn widen(span: Option<(i32, i32)>, lo: i32, hi: i32) -> (r: Option<(i32, i32)>)
    ensures
        as_ints(r) == (match as_ints(span) {
            Some((a, b)) => Some((if lo < a { lo as int } else { a }, if hi > b { hi as int } else { b })),
            None => Some((lo as int, hi as int)),
        }),
{
    match span {
        Some((a, b)) => Some((if lo < a { lo } else { a }, if hi > b { hi } else { b })),
        None => Some((lo, hi)),
    }
}

/// The planner of world overlays. It holds nothing: the drawing side owns
/// the textures and the camera.
pub struct Renderer {}

impl Renderer {
    /// The gathering markers to draw: only in debug mode, and only those
    /// with a sprite (fishing spots, as a trout), in marker order.
    pub fn render_gathering_markers(debug_mode: bool, markers: &[GatheringMarker]) -> (v: Vec<MarkerSprite>)
        ensures
            !debug_mode ==> v.len() == 0,
            debug_mode ==> v.len() == sprite_markers(markers@, markers.len() as int).len(),
            debug_mode ==> forall|k: int| 0 <= k < v.len() ==> (#[trigger] v@[k]).marker
                == sprite_markers(markers@, markers.len() as int)[k] && v@[k].sprite@ == "trout"@,
    {
        let mut v: Vec<MarkerSprite> = Vec::new();
        if !debug_mode {
            return v;
        }
        let mut i: usize = 0;
        while i < markers.len()
            invariant
                i <= markers.len(),
                v.len() == sprite_markers(markers@, i as int).len(),
                forall|k: int| 0 <= k < v.len() ==> (#[trigger] v@[k]).marker == sprite_markers(markers@, i as int)[k]
                    && v@[k].sprite@ == "trout"@,
            decreases markers.len() - i,
        {
            if same_text(markers[i].skill.as_str(), "fishing") {
                v.push(MarkerSprite { marker: i, sprite: "trout" });
            }
            i = i + 1;
        }
        v
    }

    /// The footprints of the NPCs larger than one tile, in NPC order: every
    /// tile `(dx, dy)` with `dx, dy < size`, row by row, and the centre.
    /// `sizes` holds each NPC's size in tiles.
    pub fn render_npc_debug_tiles(sizes: &[u32]) -> (v: Vec<NpcFootprint>)
        requires
            forall|i: int| 0 <= i < sizes.len() ==> #[trigger] sizes@[i] as int * sizes@[i] as int <= usize::MAX,
        ensures
            forall|k: int| 0 <= k < v.len() ==> ({
                let f = #[trigger] v@[k];
                let size = sizes@[f.npc as int] as int;
                &&& f.npc < sizes.len()
                &&& size > 1
                &&& f.center_twice == size - 1
                &&& f.tiles.len() == size * size
                &&& forall|t: int| 0 <= t < f.tiles.len() ==> (#[trigger] f.tiles@[t]).0 == t % size && f.tiles@[t].1 == t / size
            }),
            forall|k1: int, k2: int| 0 <= k1 < k2 < v.len() ==> (#[trigger] v@[k1]).npc < (#[trigger] v@[k2]).npc,
            forall|i: int| 0 <= i < sizes.len() && sizes@[i] > 1 ==> exists|k: int| 0 <= k < v.len() && (#[trigger] v@[k]).npc == i,
            v.len() == large_count(sizes@, sizes.len() as int),
            tiles_listed(v@) == footprint_area(sizes@, sizes.len() as int),
            (forall|i: int| 0 <= i < sizes.len() ==> #[trigger] sizes@[i] <= 1) ==> v.len() == 0,
    {
        let mut v: Vec<NpcFootprint> = Vec::new();
        let mut i: usize = 0;
        while i < sizes.len()
            invariant
                i <= sizes.len(),
                forall|m: int| 0 <= m < sizes.len() ==> #[trigger] sizes@[m] as int * sizes@[m] as int <= usize::MAX,
                forall|k: int| 0 <= k < v.len() ==> ({
                    let f = #[trigger] v@[k];
                    let size = sizes@[f.npc as int] as int;
                    &&& f.npc < i
                    &&& size > 1
                    &&& f.center_twice == size - 1
                    &&& f.tiles.len() == size * size
                    &&& forall|t: int| 0 <= t < f.tiles.len() ==> (#[trigger] f.tiles@[t]).0 == t % size && f.tiles@[t].1 == t / size
                }),
                forall|k1: int, k2: int| 0 <= k1 < k2 < v.len() ==> (#[trigger] v@[k1]).npc < (#[trigger] v@[k2]).npc,
                forall|m: int| 0 <= m < i && sizes@[m] > 1 ==> exists|k: int| 0 <= k < v.len() && (#[trigger] v@[k]).npc == m,
                v.len() == large_count(sizes@, i as int),
                tiles_listed(v@) == footprint_area(sizes@, i as int),
            decreases sizes.len() - i,
        {
            let size = sizes[i];
            if size > 1 {
                let tiles = footprint_tiles(size);
                let ghost before = v@;
                v.push(NpcFootprint { npc: i, tiles, center_twice: size - 1 });
                proof {
                    assert(v@.drop_last() =~= before);
                    assert(v@.last().tiles@.len() == (size as nat) * (size as nat));
                    assert(v@[v.len() - 1].npc == i);
                    assert forall|m: int| 0 <= m < i + 1 && sizes@[m] > 1 implies exists|k: int| 0 <= k < v.len() && (#[trigger] v@[k]).npc == m by {
                        if m == i {
                            assert(v@[v.len() - 1].npc == m);
                        } else {
                            let k = choose|k: int| 0 <= k < before.len() && (#[trigger] before[k]).npc == m;
                            assert(v@[k] == before[k]);
                        }
                    }
                }
            }
            i = i + 1;
        }
        proof {
            if v.len() > 0 {
                let f = v@[0];
                assert(sizes@[f.npc as int] > 1);
            }
        }
        v
    }

    /// The exit arrows of an interior `width` by `height` tiles: for each
    /// edge, the span of the portals leading out through it.
    pub fn render_exit_portal_arrows(portals: &[Portal], width: i32, height: i32) -> (r: EdgeSpans)
        requires
            forall|i: int| 0 <= i < portals.len() ==> #[trigger] portal_fits(portals@[i]),
        ensures
            as_ints(r.bottom) == span_of(portals@, width, height, Edge::Bottom, portals.len() as int),
            as_ints(r.top) == span_of(portals@, width, height, Edge::Top, portals.len() as int),
            as_ints(r.right) == span_of(portals@, width, height, Edge::Right, portals.len() as int),
            as_ints(r.left) == span_of(portals@, width, height, Edge::Left, portals.len() as int),
    {
        let mut left: Option<(i32, i32)> = None;
        let mut right: Option<(i32, i32)> = None;
        let mut top: Option<(i32, i32)> = None;
        let mut bottom: Option<(i32, i32)> = None;
        let mut i: usize = 0;
        while i < portals.len()
            invariant
                i <= portals.len(),
                forall|m: int| 0 <= m < portals.len() ==> #[trigger] portal_fits(portals@[m]),
                as_ints(bottom) == span_of(portals@, width, height, Edge::Bottom, i as int),
                as_ints(top) == span_of(portals@, width, height, Edge::Top, i as int),
                as_ints(right) == span_of(portals@, width, height, Edge::Right, i as int),
                as_ints(left) == span_of(portals@, width, height, Edge::Left, i as int),
            decreases portals.len() - i,
        {
            let p = &portals[i];
            assert(portal_fits(portals@[i as int]));
            if p.y + p.height >= height {
                bottom = widen(bottom, p.x, p.x + p.width);
            } else if p.y == 0 {
                top = widen(top, p.x, p.x + p.width);
            } else if p.x + p.width >= width {
                right = widen(right, p.y, p.y + p.height);
            } else if p.x == 0 {
                left = widen(left, p.y, p.y + p.height);
            }
            i = i + 1;
        }
        EdgeSpans { left, right, top, bottom }
    }
}

/// The tiles `(dx, dy)` of a `size` by `size` footprint, row by row.
fn footprint_tiles(size: u32) -> (tiles: Vec<(u32, u32)>)
    requires
        size > 0,
        size as int * size as int <= usize::MAX,
    ensures
        tiles.len() == size as int * size as int,
        forall|t: int| 0 <= t < tiles.len() ==> (#[trigger] tiles@[t]).0 == t % (size as int) && tiles@[t].1 == t / (size as int),
{
    let mut tiles: Vec<(u32, u32)> = Vec::new();
    let mut dy: u32 = 0;
    while dy < size
        invariant
            size > 0,
            dy <= size,
            tiles.len() == dy as int * size as int,
            forall|t: int| 0 <= t < tiles.len() ==> (#[trigger] tiles@[t]).0 == t % (size as int) && tiles@[t].1 == t / (size as int),
        decreases size - dy,
    {
        let mut dx: u32 = 0;
        while dx < size
            invariant
                size > 0,
                dy < size,
                dx <= size,
                tiles.len() == dy as int * size as int + dx,
                forall|t: int| 0 <= t < tiles.len() ==> (#[trigger] tiles@[t]).0 == t % (size as int) && tiles@[t].1 == t / (size as int),
            decreases size - dx,
        {
            proof {
                lemma_fundamental_div_mod_converse(dy as int * size as int + dx, size as int, dy as int, dx as int);
            }
            tiles.push((dx, dy));
            dx = dx + 1;
        }
        assert(tiles.len() == (dy + 1) as int * size as int) by (nonlinear_arith)
            requires
                tiles.len() == dy as int * size as int + size,
        {
        }
        dy = dy + 1;
    }
    tiles
}

/// Every portal counted for an edge lies within that edge's span, so the
/// arrow drawn at the span's middle sits between the outermost portals.
pub proof fn lemma_span_covers(ps: Seq<Portal>, width: i32, height: i32, e: Edge, n: int, i: int)
    requires
        0 <= i < n <= ps.len(),
        edge_of(ps[i], width, height) == Some(e),
    ensures
        span_of(ps, width, height, e, n) matches Some((a, b)) && a <= extent_of(ps[i], e).0 && extent_of(ps[i], e).1 <= b,
    decreases n,
{
    if i < n - 1 {
        lemma_span_covers(ps, width, height, e, n - 1, i);
    }
}

/// Portals that lead through no edge, or through another edge, leave a
/// span unchanged.
pub proof fn lemma_span_ignores_other_edges(ps: Seq<Portal>, width: i32, height: i32, e: Edge, n: int)
    requires
        0 <= n <= ps.len(),
        forall|i: int| 0 <= i < n ==> edge_of(#[trigger] ps[i], width, height) != Some(e),
    ensures
        span_of(ps, width, height, e, n) is None,
    decreases n,
{
    if n > 0 {
        lemma_span_ignores_other_edges(ps, width, height, e, n - 1);
    }
}

} // verus!
