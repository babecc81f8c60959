//! Splitting a window of samples into frequency-like bands, and mapping
//! screen positions onto bands and samples.
use vstd::prelude::*;

verus! {

/// Width of each band when `len` samples are split into `nbands` bands:
/// an equal share, at least one sample.
pub open spec fn band_width(len: int, nbands: int) -> int {
    if len / nbands >= 1 { len / nbands } else { 1 }
}

/// The half-open sample range `[start, end)` of band `b`, or `None` when the
/// band starts past the end of the window.
pub open spec fn band_range_spec(len: int, nbands: int, b: int) -> Option<(int, int)> {
    let w = band_width(len, nbands);
    if b * w < len {
        Some((b * w, if (b + 1) * w <= len { (b + 1) * w } else { len }))
    } else {
        None
    }
}

proof fn lemma_band_bounds(len: int, nbands: int, b: int)
    requires
        0 <= len,
        0 < nbands,
        0 <= b < nbands,
    ensures
        band_width(len, nbands) >= 1,
        0 <= b * band_width(len, nbands),
        b * band_width(len, nbands) + band_width(len, nbands) == (b + 1) * band_width(len, nbands),
        (b + 1) * band_width(len, nbands) <= if len >= nbands { len } else { nbands },
{
    let w = band_width(len, nbands);
    assert(b * w + w == (b + 1) * w) by (nonlinear_arith);
    if len >= nbands {
        assert(len / nbands >= 1) by (nonlinear_arith)
            requires
                len >= nbands,
                nbands > 0,
        ;
        assert((b + 1) * (len / nbands) <= nbands * (len / nbands)) by (nonlinear_arith)
            requires
                b + 1 <= nbands,
                len / nbands >= 1,
        ;
        assert(nbands * (len / nbands) <= len) by (nonlinear_arith)
            requires
                nbands > 0,
                len >= 0,
        ;
        assert(0 <= b * (len / nbands)) by (nonlinear_arith)
            requires
                b >= 0,
                len / nbands >= 1,
        ;
    } else {
        assert(len / nbands == 0) by (nonlinear_arith)
            requires
                0 <= len < nbands,
        ;
    }
}

/// The sample range of band `b` when a window of `len` samples is split
/// into `nbands` bands; `None` when the window is too short to reach it.
pub fn band_range(len: usize, nbands: usize, b: usize) -> (r: Option<(usize, usize)>)
    requires
        0 < nbands,
        b < nbands,
    ensures
        r matches Some(p) ==> band_range_spec(len as int, nbands as int, b as int) == Some(
            (p.0 as int, p.1 as int),
        ),
        r is None <==> band_range_spec(len as int, nbands as int, b as int) is None,
{
    proof {
        lemma_band_bounds(len as int, nbands as int, b as int);
    }
    let q = len / nbands;
    let w = if q >= 1 { q } else { 1 };
    let start = b * w;
    if start < len {
        let e = (b + 1) * w;
        let end = if e <= len { e } else { len };
        Some((start, end))
    } else {
        None
    }
}

/// Bands are nonempty, lie inside the window, and come one after the other
/// without overlap: a lower band ends where or before a higher one starts.
pub proof fn lemma_bands_disjoint_ordered(len: int, nbands: int, b1: int, b2: int)
    requires
        0 <= len,
        0 < nbands,
        0 <= b1 < b2 < nbands,
        band_range_spec(len, nbands, b1) is Some,
        band_range_spec(len, nbands, b2) is Some,
    ensures
        ({
            let r1 = band_range_spec(len, nbands, b1)->0;
            let r2 = band_range_spec(len, nbands, b2)->0;
            &&& 0 <= r1.0 < r1.1 <= r2.0 < r2.1 <= len
        }),
{
    let w = band_width(len, nbands);
    assert(w >= 1);
    assert((b1 + 1) * w <= b2 * w) by (nonlinear_arith)
        requires
            b1 + 1 <= b2,
            w >= 1,
    ;
    assert(b1 * w < (b1 + 1) * w) by (nonlinear_arith)
        requires
            w >= 1,
    ;
    assert(b2 * w < (b2 + 1) * w) by (nonlinear_arith)
        requires
            w >= 1,
    ;
    assert(0 <= b1 * w) by (nonlinear_arith)
        requires
            w >= 1,
            b1 >= 0,
    ;
}

/// When the window holds at least one sample per band, every band is
/// present and all of them together cover a prefix of the window that
/// leaves out fewer than `nbands` samples.
pub proof fn lemma_bands_cover(len: int, nbands: int)
    requires
        0 < nbands <= len,
    ensures
        forall|b: int| 0 <= b < nbands ==> #[trigger] band_range_spec(len, nbands, b) is Some,
        ({
            let last = band_range_spec(len, nbands, nbands - 1)->0;
            last.1 > len - nbands
        }),
{
    let w = band_width(len, nbands);
    assert(len / nbands >= 1) by (nonlinear_arith)
        requires
            len >= nbands,
            nbands > 0,
    ;
    assert forall|b: int| 0 <= b < nbands implies #[trigger] band_range_spec(len, nbands, b) is Some by {
        lemma_band_bounds(len, nbands, b);
    }
    lemma_band_bounds(len, nbands, nbands - 1);
    assert(nbands * (len / nbands) > len - nbands) by (nonlinear_arith)
        requires
            nbands > 0,
            len >= 0,
    {
        vstd::arithmetic::div_mod::lemma_fundamental_div_mod(len, nbands);
    }
}

/// Stretches position `pos` of a span `span` wide onto `n` slots: the slot
/// under the same fraction of the way across, clamped to the last slot.
pub open spec fn stretch_spec(pos: int, n: int, span: int) -> int {
    if pos * n / span <= n - 1 { pos * n / span } else { n - 1 }
}

/// Maps column `pos` of a row `span` columns wide onto one of `n` slots
/// (bands or waveform samples), as the bar, plasma and waveform screens do.
pub fn stretch_index(pos: usize, n: usize, span: usize) -> (r: usize)
    requires
        0 < n,
        0 < span,
        pos * n <= usize::MAX,
    ensures
        r == stretch_spec(pos as int, n as int, span as int),
        r < n,
{
    let q = pos * n / span;
    if q <= n - 1 { q } else { n - 1 }
}

/// Column `pos` lands in the slot whose share of the row holds it: slot
/// `r` covers the columns from `r * span / n` up to before
/// `(r + 1) * span / n`, measured as `r * span <= pos * n < (r + 1) * span`,
/// except that columns past the row fall in the last slot.
pub proof fn lemma_stretch_share(pos: int, n: int, span: int)
    requires
        0 <= pos,
        0 < n,
        0 < span,
    ensures
        0 <= stretch_spec(pos, n, span) < n,
        stretch_spec(pos, n, span) * span <= pos * n,
        stretch_spec(pos, n, span) == n - 1 || pos * n < (stretch_spec(pos, n, span) + 1) * span,
        pos < span ==> pos * n < (stretch_spec(pos, n, span) + 1) * span,
{
    let q = pos * n / span;
    vstd::arithmetic::div_mod::lemma_fundamental_div_mod(pos * n, span);
    assert(0 <= pos * n) by (nonlinear_arith)
        requires
            0 <= pos,
            0 < n,
    ;
    assert(0 <= q) by (nonlinear_arith)
        requires
            0 <= pos * n,
            0 < span,
            q == pos * n / span,
    ;
    assert(q * span <= pos * n && pos * n < (q + 1) * span) by (nonlinear_arith)
        requires
            pos * n == span * q + (pos * n) % span,
            0 <= (pos * n) % span < span,
    ;
    if pos < span {
        assert(pos * n < span * n) by (nonlinear_arith)
            requires
                0 <= pos < span,
                0 < n,
        ;
        assert(q < n) by (nonlinear_arith)
            requires
                q * span <= pos * n,
                pos * n < span * n,
                0 < span,
        ;
    }
    if q > n - 1 {
        assert((n - 1) * span <= q * span) by (nonlinear_arith)
            requires
                n - 1 <= q,
                0 < span,
        ;
    }
}

/// Columns further right never map to a slot further left.
pub proof fn lemma_stretch_monotone(p1: int, p2: int, n: int, span: int)
    requires
        0 <= p1 <= p2,
        0 < n,
        0 < span,
    ensures
        stretch_spec(p1, n, span) <= stretch_spec(p2, n, span),
{
    assert(p1 * n <= p2 * n) by (nonlinear_arith)
        requires
            0 <= p1 <= p2,
            0 < n,
    ;
    vstd::arithmetic::div_mod::lemma_div_is_ordered(p1 * n, p2 * n, span);
}

/// Stride of the waveform snapshot: an equal share of the window per
/// point, at least one sample.
pub open spec fn snapshot_stride(len: int, points: int) -> int {
    if len / points >= 1 { len / points } else { 1 }
}

/// Index of the window sample that waveform point `i` takes.
pub open spec fn snapshot_index(len: int, points: int, i: int) -> int {
    if i * snapshot_stride(len, points) <= len - 1 {
        i * snapshot_stride(len, points)
    } else {
        len - 1
    }
}

/// Fills every point of `wave` with a sample of `window`, taken at an even
/// stride from its start (the last sample once the stride runs past it).
pub fn snapshot<T: Copy>(window: &[T], wave: &mut Vec<T>)
    requires
        window@.len() > 0,
        old(wave)@.len() > 0,
    ensures
        final(wave)@.len() == old(wave)@.len(),
        forall|i: int|
            0 <= i < final(wave)@.len() ==> #[trigger] final(wave)@[i] == window@[snapshot_index(
                window@.len() as int,
                old(wave)@.len() as int,
                i,
            )],
{
    let len = window.len();
    let points = wave.len();
    let q = len / points;
    let stride = if q >= 1 { q } else { 1 };
    let ghost old_len = wave@.len();
    let mut i: usize = 0;
    while i < points
        invariant
            len == window@.len(),
            len > 0,
            points == old_len,
            wave@.len() == old_len,
            points > 0,
            i <= points,
            stride == snapshot_stride(len as int, points as int),
            forall|k: int|
                0 <= k < i ==> #[trigger] wave@[k] == window@[snapshot_index(
                    len as int,
                    points as int,
                    k,
                )],
        decreases points - i,
    {
        proof {
            if len >= points {
                assert(i * (len / points) <= points * (len / points)) by (nonlinear_arith)
                    requires
                        i <= points,
                        len / points >= 0,
                ;
                assert(points * (len / points) <= len) by (nonlinear_arith)
                    requires
                        points > 0,
                        len >= 0,
                ;
                assert(len / points >= 1) by (nonlinear_arith)
                    requires
                        len >= points,
                        points > 0,
                ;
            } else {
                assert(len / points == 0) by (nonlinear_arith)
                    requires
                        0 <= len < points,
                ;
            }
        }
        let p = i * stride;
        let k = if p <= len - 1 { p } else { len - 1 };
        let v = window[k];
        wave.set(i, v);
        i = i + 1;
    }
}

} // verus!
