//! Album-art palette extraction shared by the audio effects: sixteen samples
//! taken on a 4x4 grid are clustered by colour distance, and the clusters are
//! ranked by how many samples they took.
use vstd::prelude::*;

use crate::rgb::{rgb_distance_sq, SkydimoRgb};

verus! {

/// A palette colour and the number of samples it stands for.
#[derive(Clone, Copy, Debug, PartialEq, Eq, Structural)]
pub struct PaletteEntry {
    pub color: SkydimoRgb,
    pub count: u64,
}

/// Samples per grid side.
pub const GRID_SIZE: usize = 4;

/// A sample closer than this (squared distance) to a palette colour joins it.
pub const MIN_DIST_SQ: i32 = 900;

/// A sample whose brightest channel is below this is skipped.
pub const DARK_LIMIT: u8 = 24;

pub open spec fn dist_sq(a: SkydimoRgb, b: SkydimoRgb) -> int {
    (a.r - b.r) * (a.r - b.r) + (a.g - b.g) * (a.g - b.g) + (a.b - b.b) * (a.b - b.b)
}

/// Coordinate of grid cell `g` along an axis of `extent` cells: the cell's
/// start plus an eighth of the extent, kept inside the axis.
pub open spec fn grid_coord(g: int, extent: int) -> int {
    let c = (g * extent) / 4 + extent / 8;
    if c < extent - 1 {
        c
    } else {
        extent - 1
    }
}

pub open spec fn saturate(x: int) -> int {
    if x > usize::MAX {
        usize::MAX as int
    } else {
        x
    }
}

/// Pixel index of grid cell (`gx`, `gy`), saturating.
pub open spec fn grid_index(gx: int, gy: int, width: int, height: int) -> int {
    saturate(saturate(grid_coord(gy, height) * width) + grid_coord(gx, width))
}

/// The sixteen samples, row by row; a cell whose index falls past the pixels
/// gives `None`.
pub open spec fn grid_samples(pixels: Seq<SkydimoRgb>, width: int, height: int) -> Seq<
    Option<SkydimoRgb>,
> {
    Seq::new(
        16,
        |k: int|
            {
                let idx = grid_index(k % 4, k / 4, width, height);
                if idx < pixels.len() {
                    Some(pixels[idx])
                } else {
                    None
                }
            },
    )
}

/// Index of the palette colour nearest to `c` among the first `n` (the first
/// of equally near ones).
pub open spec fn nearest_in(pal: Seq<PaletteEntry>, c: SkydimoRgb, n: int) -> Option<int>
    decreases n,
{
    if n <= 0 {
        None
    } else {
        match nearest_in(pal, c, n - 1) {
            None => Some(n - 1),
            Some(i) => if dist_sq(pal[n - 1].color, c) < dist_sq(pal[i].color, c) {
                Some(n - 1)
            } else {
                Some(i)
            },
        }
    }
}

pub proof fn lemma_nearest_in(pal: Seq<PaletteEntry>, c: SkydimoRgb, n: int)
    ensures
        nearest_in(pal, c, n) matches Some(i) ==> 0 <= i < n,
        n > 0 ==> nearest_in(pal, c, n) is Some,
    decreases n,
{
    if n > 0 {
        lemma_nearest_in(pal, c, n - 1);
    }
}

pub open spec fn is_dark(c: SkydimoRgb) -> bool {
    c.r < DARK_LIMIT && c.g < DARK_LIMIT && c.b < DARK_LIMIT
}

/// What one sample does to the palette: a dark sample nothing; a sample near
/// its nearest colour adds one to that colour's count; any other sample
/// becomes a new colour while there is room for one.
pub open spec fn absorb(pal: Seq<PaletteEntry>, c: SkydimoRgb, max_colors: int) -> Seq<
    PaletteEntry,
> {
    if is_dark(c) {
        pal
    } else {
        match nearest_in(pal, c, pal.len() as int) {
            Some(i) if dist_sq(pal[i].color, c) < MIN_DIST_SQ => pal.update(
                i,
                PaletteEntry { color: pal[i].color, count: (pal[i].count + 1) as u64 },
            ),
            _ => if pal.len() < max_colors {
                pal.push(PaletteEntry { color: c, count: 1 })
            } else {
                pal
            },
        }
    }
}

/// The palette the samples build, in order.
pub open spec fn cluster(samples: Seq<Option<SkydimoRgb>>, max_colors: int) -> Seq<PaletteEntry>
    decreases samples.len(),
{
    if samples.len() == 0 {
        Seq::empty()
    } else {
        let p = cluster(samples.drop_last(), max_colors);
        match samples.last() {
            Some(c) => absorb(p, c, max_colors),
            None => p,
        }
    }
}

/// Pixel index sampled for grid cell (`gx`, `gy`).
pub fn grid_sample_index(gx: usize, gy: usize, width: usize, height: usize) -> (idx: usize)
    requires
        gx < 4,
        gy < 4,
        width >= 1,
        height >= 1,
        gx * width <= usize::MAX,
        gy * height <= usize::MAX,
    ensures
        idx == grid_index(gx as int, gy as int, width as int, height as int),
{
    let mut sx = (gx * width) / GRID_SIZE + width / (GRID_SIZE * 2);
    let mut sy = (gy * height) / GRID_SIZE + height / (GRID_SIZE * 2);
    sx = if sx < width - 1 { sx } else { width - 1 };
    sy = if sy < height - 1 { sy } else { height - 1 };
    let row = match sy.checked_mul(width) {
        Some(v) => v,
        None => usize::MAX,
    };
    match row.checked_add(sx) {
        Some(v) => v,
        None => usize::MAX,
    }
}

/// Index of the nearest palette colour, and its distance.
fn nearest_entry(pal: &Vec<PaletteEntry>, c: SkydimoRgb) -> (r: Option<(usize, i32)>)
    ensures
        r is None <==> pal@.len() == 0,
        r matches Some((i, d)) ==> nearest_in(pal@, c, pal@.len() as int) == Some(i as int) && d
            == dist_sq(pal@[i as int].color, c) && i < pal@.len(),
{
    let mut best: Option<(usize, i32)> = None;
    let mut k: usize = 0;
    while k < pal.len()
        invariant
            k <= pal@.len(),
            best is None <==> k == 0,
            best matches Some((i, d)) ==> nearest_in(pal@, c, k as int) == Some(i as int) && i < k
                && d == dist_sq(pal@[i as int].color, c),
        decreases pal@.len() - k,
    {
        let d = rgb_distance_sq(pal[k].color, c);
        best = match best {
            None => Some((k, d)),
            Some((i, bd)) => if d < bd {
                Some((k, d))
            } else {
                Some((i, bd))
            },
        };
        k += 1;
    }
    best
}

/// The sixteen grid samples of a `width` x `height` image.
pub fn grid_samples_of(pixels: &[SkydimoRgb], width: usize, height: usize) -> (v: Vec<
    Option<SkydimoRgb>,
>)
    requires
        width >= 1,
        height >= 1,
        3 * width <= usize::MAX,
        3 * height <= usize::MAX,
    ensures
        v@ == grid_samples(pixels@, width as int, height as int),
{
    let ghost samples = grid_samples(pixels@, width as int, height as int);
    let mut v: Vec<Option<SkydimoRgb>> = Vec::new();
    let mut k: usize = 0;
    while k < 16
        invariant
            k <= 16,
            samples == grid_samples(pixels@, width as int, height as int),
            width >= 1,
            height >= 1,
            3 * width <= usize::MAX,
            3 * height <= usize::MAX,
            v@ == samples.take(k as int),
        decreases 16 - k,
    {
        let gx = k % 4;
        let gy = k / 4;
        assert(gx * width <= 3 * width) by (nonlinear_arith)
            requires
                gx <= 3,
        ;
        assert(gy * height <= 3 * height) by (nonlinear_arith)
            requires
                gy <= 3,
        ;
        let idx = grid_sample_index(gx, gy, width, height);
        let sample = if idx < pixels.len() {
            Some(pixels[idx])
        } else {
            None
        };
        v.push(sample);
        assert(v@ =~= samples.take(k + 1));
        k += 1;
    }
    assert(samples.take(16) =~= samples);
    v
}

/// Clusters samples, in order, into at most `max_colors` counted colours
/// (`None` samples are skipped).
pub fn cluster_samples(samples: &[Option<SkydimoRgb>], max_colors: usize) -> (pal: Vec<
    PaletteEntry,
>)
    ensures
        pal@ == cluster(samples@, max_colors as int),
        pal@.len() <= max_colors,
        forall|i: int| 0 <= i < pal@.len() ==> 1 <= #[trigger] pal@[i].count <= samples@.len(),
{
    let mut pal: Vec<PaletteEntry> = Vec::new();
    let n = samples.len();
    let mut k: usize = 0;
    while k < n
        invariant
            n == samples@.len(),
            k <= n,
            pal@ == cluster(samples@.take(k as int), max_colors as int),
            pal@.len() <= max_colors,
            forall|i: int| 0 <= i < pal@.len() ==> 1 <= #[trigger] pal@[i].count <= k,
        decreases n - k,
    {
        proof {
            assert(samples@.take(k + 1).drop_last() =~= samples@.take(k as int));
            assert(samples@.take(k + 1).last() == samples@[k as int]);
        }
        if let Some(c) = samples[k] {
            if !(c.r < DARK_LIMIT && c.g < DARK_LIMIT && c.b < DARK_LIMIT) {
                let near = nearest_entry(&pal, c);
                let mut joined = false;
                if let Some((i, d)) = near {
                    if d < MIN_DIST_SQ {
                        let e = pal[i];
                        pal.set(i, PaletteEntry { color: e.color, count: e.count + 1 });
                        joined = true;
                    }
                }
                if !joined && pal.len() < max_colors {
                    pal.push(PaletteEntry { color: c, count: 1 });
                }
            }
        }
        k += 1;
    }
    assert(samples@.take(n as int) =~= samples@);
    pal
}

/// Clusters the sixteen grid samples of a `width` x `height` image (the
/// pixels after blurring) into at most `max_colors` counted colours.
pub fn cluster_grid(pixels: &[SkydimoRgb], width: usize, height: usize, max_colors: usize) -> (pal:
    Vec<PaletteEntry>)
    requires
        width >= 1,
        height >= 1,
        3 * width <= usize::MAX,
        3 * height <= usize::MAX,
    ensures
        pal@ == cluster(grid_samples(pixels@, width as int, height as int), max_colors as int),
        pal@.len() <= max_colors,
        forall|i: int| 0 <= i < pal@.len() ==> 1 <= #[trigger] pal@[i].count <= 16,
{
    let samples = grid_samples_of(pixels, width, height);
    cluster_samples(samples.as_slice(), max_colors)
}

/// Number of leading entries of `t` whose count is at least `c`.
pub open spec fn count_ge_prefix(t: Seq<PaletteEntry>, c: u64) -> int
    decreases t.len(),
{
    if t.len() == 0 {
        0
    } else if t[0].count >= c {
        1 + count_ge_prefix(t.drop_first(), c)
    } else {
        0
    }
}

/// `x` placed after the leading entries that count at least as much.
pub open spec fn insert_by_count(t: Seq<PaletteEntry>, x: PaletteEntry) -> Seq<PaletteEntry> {
    let k = count_ge_prefix(t, x.count);
    t.take(k) + seq![x] + t.skip(k)
}

/// The entries ordered by count, largest first, entries of equal count keeping
/// their order (a stable sort).
pub open spec fn ranked(s: Seq<PaletteEntry>) -> Seq<PaletteEntry>
    decreases s.len(),
{
    if s.len() == 0 {
        Seq::empty()
    } else {
        insert_by_count(ranked(s.drop_last()), s.last())
    }
}

pub proof fn lemma_count_ge_prefix(t: Seq<PaletteEntry>, c: u64)
    ensures
        0 <= count_ge_prefix(t, c) <= t.len(),
        forall|i: int| 0 <= i < count_ge_prefix(t, c) ==> t[i].count >= c,
        count_ge_prefix(t, c) < t.len() ==> t[count_ge_prefix(t, c)].count < c,
    decreases t.len(),
{
    if t.len() > 0 && t[0].count >= c {
        lemma_count_ge_prefix(t.drop_first(), c);
        assert forall|i: int| 0 <= i < count_ge_prefix(t, c) implies t[i].count >= c by {
            if i > 0 {
                assert(t[i] == t.drop_first()[i - 1]);
            }
        }
    }
}

/// Stable ranking of palette entries by count, largest first.
pub fn rank_by_count(pal: &Vec<PaletteEntry>) -> (r: Vec<PaletteEntry>)
    ensures
        r@ == ranked(pal@),
{
    let mut out: Vec<PaletteEntry> = Vec::new();
    let mut i: usize = 0;
    while i < pal.len()
        invariant
            i <= pal@.len(),
            out@ == ranked(pal@.take(i as int)),
        decreases pal@.len() - i,
    {
        let x = pal[i];
        proof {
            assert(pal@.take(i + 1).drop_last() =~= pal@.take(i as int));
            assert(pal@.take(i + 1).last() == x);
            lemma_count_ge_prefix(out@, x.count);
        }
        let mut k: usize = 0;
        assert(out@.skip(0) =~= out@);
        while k < out.len() && out[k].count >= x.count
            invariant
                k <= out@.len(),
                count_ge_prefix(out@, x.count) == k + count_ge_prefix(out@.skip(k as int), x.count),
            decreases out@.len() - k,
        {
            proof {
                assert(out@.skip(k as int).drop_first() =~= out@.skip(k + 1));
            }
            k += 1;
        }
        proof {
            if k < out@.len() {
                assert(out@.skip(k as int)[0] == out@[k as int]);
            }
        }
        let ghost before = out@;
        out.insert(k, x);
        proof {
            assert(out@ =~= before.take(k as int) + seq![x] + before.skip(k as int));
        }
        i += 1;
    }
    assert(pal@.take(pal@.len() as int) =~= pal@);
    out
}

/// Counts never grow along the sequence.
pub open spec fn by_count_desc(t: Seq<PaletteEntry>) -> bool {
    forall|i: int, j: int| 0 <= i < j < t.len() ==> t[i].count >= t[j].count
}

/// Ranking puts the entries in order of count, largest first.
pub proof fn law_ranking_orders_by_count(s: Seq<PaletteEntry>)
    ensures
        by_count_desc(ranked(s)),
        ranked(s).len() == s.len(),
    decreases s.len(),
{
    if s.len() > 0 {
        let t = ranked(s.drop_last());
        let x = s.last();
        law_ranking_orders_by_count(s.drop_last());
        lemma_count_ge_prefix(t, x.count);
        let k = count_ge_prefix(t, x.count);
        let r = insert_by_count(t, x);
        assert forall|i: int, j: int| 0 <= i < j < r.len() implies r[i].count >= r[j].count by {
            if i < k {
                if j < k {
                } else if j == k {
                } else {
                    assert(r[j] == t[j - 1]);
                }
            } else if i == k {
                assert(r[j] == t[j - 1]);
                assert(t[k].count < x.count);
            } else {
                assert(r[i] == t[i - 1]);
                assert(r[j] == t[j - 1]);
            }
        }
    }
}

/// Ranking keeps every entry, as often as it occurs.
pub proof fn law_ranking_keeps_entries(s: Seq<PaletteEntry>)
    ensures
        ranked(s).to_multiset() == s.to_multiset(),
    decreases s.len(),
{
    broadcast use vstd::seq_lib::group_to_multiset_ensures;
    broadcast use vstd::multiset::group_multiset_axioms;

    if s.len() == 0 {
        assert(ranked(s) =~= s);
    } else {
        let t = ranked(s.drop_last());
        let x = s.last();
        law_ranking_keeps_entries(s.drop_last());
        lemma_count_ge_prefix(t, x.count);
        let k = count_ge_prefix(t, x.count);
        let r = insert_by_count(t, x);
        assert(r.remove(k) =~= t);
        assert(r[k] == x);
        assert(s.drop_last().push(x) =~= s);
        assert(r.to_multiset().remove(x) == t.to_multiset());
        assert(r.contains(x));
        assert(r.to_multiset() =~= t.to_multiset().insert(x));
    }
}

/// Most colours a palette may be asked for, kept to `1..=16`.
pub fn palette_limit(requested: usize) -> (n: usize)
    ensures
        n == (if requested < 1 {
            1
        } else if requested > 16 {
            16
        } else {
            requested
        }),
{
    if requested < 1 {
        1
    } else if requested > 16 {
        16
    } else {
        requested
    }
}

/// The album art need not be read again: it has a fingerprint, the palette was
/// built from art with the same fingerprint, and the palette is not empty.
pub fn palette_is_current(fingerprint: Option<u64>, built_from: Option<u64>, palette_len: usize) -> (r:
    bool)
    ensures
        r == (fingerprint is Some && fingerprint == built_from && palette_len > 0),
{
    match (fingerprint, built_from) {
        (Some(a), Some(b)) => a == b && palette_len > 0,
        _ => false,
    }
}

/// Every colour of the palette is bright (some channel at least
/// [`DARK_LIMIT`]) and every two are at least [`MIN_DIST_SQ`] apart.
pub open spec fn well_spaced(p: Seq<PaletteEntry>) -> bool {
    &&& forall|i: int| 0 <= i < p.len() ==> !is_dark(#[trigger] p[i].color)
    &&& forall|i: int, j: int|
        0 <= i < p.len() && 0 <= j < p.len() && i != j ==> dist_sq(#[trigger] p[i].color, #[trigger] p[j].color)
            >= MIN_DIST_SQ
}

pub proof fn lemma_dist_sq_symmetric(a: SkydimoRgb, b: SkydimoRgb)
    ensures
        dist_sq(a, b) == dist_sq(b, a),
{
    assert((a.r - b.r) * (a.r - b.r) == (b.r - a.r) * (b.r - a.r)) by (nonlinear_arith);
    assert((a.g - b.g) * (a.g - b.g) == (b.g - a.g) * (b.g - a.g)) by (nonlinear_arith);
    assert((a.b - b.b) * (a.b - b.b) == (b.b - a.b) * (b.b - a.b)) by (nonlinear_arith);
}

/// The nearest colour is no farther than any other.
pub proof fn lemma_nearest_is_nearest(pal: Seq<PaletteEntry>, c: SkydimoRgb, n: int)
    requires
        0 <= n <= pal.len(),
    ensures
        nearest_in(pal, c, n) matches Some(i) ==> forall|j: int|
            0 <= j < n ==> dist_sq(pal[i].color, c) <= #[trigger] dist_sq(pal[j].color, c),
    decreases n,
{
    if n > 0 {
        lemma_nearest_is_nearest(pal, c, n - 1);
        lemma_nearest_in(pal, c, n - 1);
    }
}

/// The nearest colour is the first of the equally nearest ones: an index that
/// is no farther than any colour and strictly nearer than every colour before
/// it is the one found.
pub proof fn lemma_nearest_is_first_nearest(pal: Seq<PaletteEntry>, c: SkydimoRgb, n: int, i: int)
    requires
        0 <= i < n <= pal.len(),
        forall|j: int| 0 <= j < n ==> dist_sq(pal[i].color, c) <= #[trigger] dist_sq(pal[j].color, c),
        forall|j: int| 0 <= j < i ==> dist_sq(pal[i].color, c) < #[trigger] dist_sq(pal[j].color, c),
    ensures
        nearest_in(pal, c, n) == Some(i),
    decreases n,
{
    if n == i + 1 {
        lemma_nearest_in(pal, c, i);
        if let Some(k) = nearest_in(pal, c, i) {
            assert(dist_sq(pal[i].color, c) < dist_sq(pal[k].color, c));
        }
    } else {
        lemma_nearest_is_first_nearest(pal, c, n - 1, i);
        assert(dist_sq(pal[i].color, c) <= dist_sq(pal[n - 1].color, c));
    }
}

/// A bright sample (some channel at least [`DARK_LIMIT`]) whose nearest
/// palette colour (the first of equally near ones) lies within
/// [`MIN_DIST_SQ`] adds one to that colour's count and to no other: the
/// colours stay as they were and every other count is unchanged.
pub proof fn law_absorb_counts_nearest(
    pal: Seq<PaletteEntry>,
    c: SkydimoRgb,
    max_colors: int,
    i: int,
)
    requires
        c.r >= DARK_LIMIT || c.g >= DARK_LIMIT || c.b >= DARK_LIMIT,
        0 <= i < pal.len(),
        forall|j: int|
            0 <= j < pal.len() ==> dist_sq(pal[i].color, c) <= #[trigger] dist_sq(pal[j].color, c),
        forall|j: int| 0 <= j < i ==> dist_sq(pal[i].color, c) < #[trigger] dist_sq(pal[j].color, c),
        dist_sq(pal[i].color, c) < MIN_DIST_SQ,
        pal[i].count < u64::MAX,
    ensures
        absorb(pal, c, max_colors).len() == pal.len(),
        forall|k: int|
            0 <= k < pal.len() ==> (#[trigger] absorb(pal, c, max_colors)[k]).color == pal[k].color,
        absorb(pal, c, max_colors)[i].count == pal[i].count + 1,
        forall|k: int|
            0 <= k < pal.len() && k != i ==> (#[trigger] absorb(pal, c, max_colors)[k]).count
                == pal[k].count,
{
    lemma_nearest_is_first_nearest(pal, c, pal.len() as int, i);
}

/// A bright sample at least [`MIN_DIST_SQ`] from every palette colour becomes
/// a new colour with a count of one while there is room, and is dropped
/// otherwise; a dark sample (every channel below [`DARK_LIMIT`]) never changes
/// the palette.
pub proof fn law_absorb_far_or_dark(pal: Seq<PaletteEntry>, c: SkydimoRgb, max_colors: int)
    ensures
        c.r < DARK_LIMIT && c.g < DARK_LIMIT && c.b < DARK_LIMIT ==> absorb(pal, c, max_colors)
            == pal,
        (c.r >= DARK_LIMIT || c.g >= DARK_LIMIT || c.b >= DARK_LIMIT) && (forall|j: int|
            0 <= j < pal.len() ==> #[trigger] dist_sq(pal[j].color, c) >= MIN_DIST_SQ)
            ==> absorb(pal, c, max_colors) == if pal.len() < max_colors {
            pal.push(PaletteEntry { color: c, count: 1 })
        } else {
            pal
        },
{
    lemma_nearest_in(pal, c, pal.len() as int);
}

/// Sum of the counts of a palette.
pub open spec fn total_count(p: Seq<PaletteEntry>) -> int
    decreases p.len(),
{
    if p.len() == 0 {
        0
    } else {
        total_count(p.drop_last()) + p.last().count
    }
}

/// Number of samples that are present and bright.
pub open spec fn bright_count(samples: Seq<Option<SkydimoRgb>>) -> int
    decreases samples.len(),
{
    if samples.len() == 0 {
        0
    } else {
        bright_count(samples.drop_last()) + match samples.last() {
            Some(c) => if is_dark(c) {
                0int
            } else {
                1int
            },
            None => 0int,
        }
    }
}

proof fn lemma_total_count_update(p: Seq<PaletteEntry>, i: int, e: PaletteEntry)
    requires
        0 <= i < p.len(),
    ensures
        total_count(p.update(i, e)) == total_count(p) - p[i].count + e.count,
    decreases p.len(),
{
    let q = p.update(i, e);
    if i == p.len() - 1 {
        assert(q.drop_last() =~= p.drop_last());
    } else {
        assert(q.drop_last() =~= p.drop_last().update(i, e));
        lemma_total_count_update(p.drop_last(), i, e);
    }
}

/// Every present bright sample is counted once in the palette it builds, as
/// long as none is dropped for want of room: the counts add up to the number
/// of bright samples when `max_colors` is at least the number of samples, and
/// never to more. Each count stays within the number of samples.
pub proof fn law_cluster_counts_samples(samples: Seq<Option<SkydimoRgb>>, max_colors: int)
    requires
        samples.len() < u64::MAX,
    ensures
        total_count(cluster(samples, max_colors)) <= bright_count(samples),
        max_colors >= samples.len() ==> total_count(cluster(samples, max_colors)) == bright_count(
            samples,
        ),
        cluster(samples, max_colors).len() <= samples.len(),
        forall|k: int|
            0 <= k < cluster(samples, max_colors).len() ==> #[trigger] cluster(
                samples,
                max_colors,
            )[k].count <= samples.len(),
    decreases samples.len(),
{
    if samples.len() > 0 {
        let prev = samples.drop_last();
        law_cluster_counts_samples(prev, max_colors);
        let p = cluster(prev, max_colors);
        if let Some(c) = samples.last() {
            if !is_dark(c) {
                lemma_nearest_in(p, c, p.len() as int);
                match nearest_in(p, c, p.len() as int) {
                    Some(i) if dist_sq(p[i].color, c) < MIN_DIST_SQ => {
                        let e = PaletteEntry { color: p[i].color, count: (p[i].count + 1) as u64 };
                        assert(p[i].count <= prev.len());
                        assert(e.count == p[i].count + 1);
                        lemma_total_count_update(p, i, e);
                    },
                    _ => {
                        if p.len() < max_colors {
                            let q = p.push(PaletteEntry { color: c, count: 1 });
                            assert(q.drop_last() =~= p);
                        }
                    },
                }
            }
        }
    }
}

/// Each sample keeps the palette well spaced.
pub proof fn lemma_absorb_spaced(pal: Seq<PaletteEntry>, c: SkydimoRgb, max_colors: int)
    requires
        well_spaced(pal),
    ensures
        well_spaced(absorb(pal, c, max_colors)),
        absorb(pal, c, max_colors).len() <= if pal.len() < max_colors {
            pal.len() + 1int
        } else {
            pal.len() as int
        },
{
    if !is_dark(c) {
        lemma_nearest_in(pal, c, pal.len() as int);
        lemma_nearest_is_nearest(pal, c, pal.len() as int);
        match nearest_in(pal, c, pal.len() as int) {
            Some(i) if dist_sq(pal[i].color, c) < MIN_DIST_SQ => {
                let q = absorb(pal, c, max_colors);
                assert forall|k: int| 0 <= k < q.len() implies #[trigger] q[k].color == pal[k].color by {}
            },
            _ => {
                if pal.len() < max_colors {
                    let q = pal.push(PaletteEntry { color: c, count: 1 });
                    assert forall|a: int, b: int|
                        0 <= a < q.len() && 0 <= b < q.len() && a != b implies dist_sq(
                        #[trigger] q[a].color,
                        #[trigger] q[b].color,
                    ) >= MIN_DIST_SQ by {
                        if a == pal.len() {
                            lemma_dist_sq_symmetric(c, pal[b].color);
                            assert(dist_sq(pal[b].color, c) >= MIN_DIST_SQ);
                        } else if b == pal.len() {
                            assert(dist_sq(pal[a].color, c) >= MIN_DIST_SQ);
                        }
                    }
                }
            },
        }
    }
}

/// The clustered palette is well spaced and holds at most `max_colors` colours.
pub proof fn law_cluster_is_well_spaced(samples: Seq<Option<SkydimoRgb>>, max_colors: int)
    requires
        max_colors >= 0,
    ensures
        well_spaced(cluster(samples, max_colors)),
        cluster(samples, max_colors).len() <= max_colors,
    decreases samples.len(),
{
    if samples.len() > 0 {
        law_cluster_is_well_spaced(samples.drop_last(), max_colors);
        if let Some(c) = samples.last() {
            lemma_absorb_spaced(cluster(samples.drop_last(), max_colors), c, max_colors);
        }
    }
}

/// Every entry of a ranking is an entry of what was ranked.
pub proof fn lemma_ranked_from(s: Seq<PaletteEntry>, k: int)
    requires
        0 <= k < ranked(s).len(),
    ensures
        exists|i: int| 0 <= i < s.len() && #[trigger] s[i] == ranked(s)[k],
{
    broadcast use vstd::seq_lib::group_to_multiset_ensures;

    law_ranking_keeps_entries(s);
    let e = ranked(s)[k];
    assert(ranked(s).contains(e));
    assert(ranked(s).to_multiset().count(e) > 0);
    assert(s.contains(e));
}

/// Ranking keeps a palette well spaced.
pub proof fn law_ranking_keeps_spacing(s: Seq<PaletteEntry>)
    requires
        well_spaced(s),
    ensures
        well_spaced(ranked(s)),
    decreases s.len(),
{
    if s.len() > 0 {
        let sp = s.drop_last();
        let x = s.last();
        assert(well_spaced(sp)) by {
            assert forall|i: int| 0 <= i < sp.len() implies !is_dark(#[trigger] sp[i].color) by {
                assert(sp[i] == s[i]);
            }
            assert forall|i: int, j: int|
                0 <= i < sp.len() && 0 <= j < sp.len() && i != j implies dist_sq(
                #[trigger] sp[i].color,
                #[trigger] sp[j].color,
            ) >= MIN_DIST_SQ by {
                assert(sp[i] == s[i] && sp[j] == s[j]);
            }
        }
        law_ranking_keeps_spacing(sp);
        law_ranking_orders_by_count(sp);
        let t = ranked(sp);
        lemma_count_ge_prefix(t, x.count);
        let k = count_ge_prefix(t, x.count);
        let r = insert_by_count(t, x);
        assert(!is_dark(x.color)) by {
            assert(s[s.len() - 1] == x);
        }
        assert forall|m: int| 0 <= m < t.len() implies dist_sq(#[trigger] t[m].color, x.color)
            >= MIN_DIST_SQ && dist_sq(x.color, t[m].color) >= MIN_DIST_SQ by {
            lemma_ranked_from(sp, m);
            let i = choose|i: int| 0 <= i < sp.len() && #[trigger] sp[i] == t[m];
            assert(sp[i] == s[i]);
            assert(s[s.len() - 1] == x);
            assert(dist_sq(s[i].color, s[s.len() - 1].color) >= MIN_DIST_SQ);
            lemma_dist_sq_symmetric(t[m].color, x.color);
        }
        assert forall|i: int| 0 <= i < r.len() implies !is_dark(#[trigger] r[i].color) by {
            if i < k {
                assert(r[i] == t[i]);
            } else if i > k {
                assert(r[i] == t[i - 1]);
            }
        }
        assert forall|a: int, b: int|
            0 <= a < r.len() && 0 <= b < r.len() && a != b implies dist_sq(
            #[trigger] r[a].color,
            #[trigger] r[b].color,
        ) >= MIN_DIST_SQ by {
            let ta = if a < k {
                a
            } else {
                a - 1
            };
            let tb = if b < k {
                b
            } else {
                b - 1
            };
            if a != k {
                assert(r[a] == t[ta]);
            }
            if b != k {
                assert(r[b] == t[tb]);
            }
            if a != k && b != k {
                assert(ta != tb);
            }
        }
    }
}

/// The palette clusters of an image: none for an empty image or a zero side;
/// otherwise the clusters of its grid samples.
pub open spec fn image_clusters(pixels: Seq<SkydimoRgb>, width: usize, height: usize, max_colors: int) -> Seq<
    PaletteEntry,
> {
    if pixels.len() == 0 || width == 0 || height == 0 {
        Seq::empty()
    } else {
        cluster(grid_samples(pixels, width as int, height as int), max_colors)
    }
}

/// Clusters an image's grid samples, or gives no clusters for an empty image
/// or a zero side.
pub fn cluster_image(pixels: &[SkydimoRgb], width: usize, height: usize, max_colors: usize) -> (pal:
    Vec<PaletteEntry>)
    requires
        3 * width <= usize::MAX,
        3 * height <= usize::MAX,
    ensures
        pal@ == image_clusters(pixels@, width, height, max_colors as int),
{
    if pixels.len() == 0 || width == 0 || height == 0 {
        return Vec::new();
    }
    cluster_grid(pixels, width, height, max_colors)
}

} // verus!
