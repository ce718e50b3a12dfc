//! The binary patcher: finds every `cdc_` marker in a driver image and
//! overwrites the eighteen bytes that follow it with letters.
//!
//! The scan runs over the image as it was read; the rewrite goes to a copy.
//! Windows of neighbouring markers may overlap, and then the marker found
//! later has the last word. A window that would run past the end of the image
//! is cut off there, so the patched image always has the length of the
//! image that was read.

use vstd::prelude::*;
use crate::entropy::random_below;

verus! {

/// Length of the marker `cdc_`.
pub const MARKER_LEN: usize = 4;

/// Number of bytes after a marker that are overwritten.
pub const WINDOW_LEN: usize = 18;

/// Number of letters in the alphabet `a..z` followed by `A..Z`.
pub const ALPHABET_LEN: usize = 52;

/// Exclusive upper bound of the indices that the sampler draws. It is smaller
/// than the alphabet on purpose: the last four letters are never drawn.
pub const SAMPLE_LIMIT: usize = 48;

/// Whether the four bytes `cdc_` start at position `i` of `image`.
pub open spec fn marker_at(image: Seq<u8>, i: int) -> bool {
    &&& 0 <= i
    &&& i + 4 <= image.len()
    &&& image[i] == 0x63
    &&& image[i + 1] == 0x64
    &&& image[i + 2] == 0x63
    &&& image[i + 3] == 0x5f
}

/// The positions below `end` at which a marker starts, in ascending order.
pub open spec fn markers_below(image: Seq<u8>, end: int) -> Seq<int>
    decreases end,
{
    if end <= 0 {
        Seq::empty()
    } else if marker_at(image, end - 1) {
        markers_below(image, end - 1).push(end - 1)
    } else {
        markers_below(image, end - 1)
    }
}

/// All positions of `image` at which a marker starts, in ascending order.
pub open spec fn markers(image: Seq<u8>) -> Seq<int> {
    markers_below(image, image.len() as int)
}

/// Whether position `x` lies in the window that follows a marker at `p`.
pub open spec fn covers(p: int, x: int) -> bool {
    p + 4 <= x < p + 22
}

/// Whether position `x` lies in the window of some marker of `image`.
pub open spec fn in_window(image: Seq<u8>, x: int) -> bool {
    exists|p: int| marker_at(image, p) && covers(p, x)
}

/// The greatest marker position below `bound` whose window holds `x`.
pub open spec fn cover_below(image: Seq<u8>, x: int, bound: int) -> Option<int>
    decreases bound,
{
    if bound <= 0 {
        None
    } else if marker_at(image, bound - 1) && covers(bound - 1, x) {
        Some(bound - 1)
    } else {
        cover_below(image, x, bound - 1)
    }
}

/// The marker that decides the byte at `x`: the last one whose window holds
/// `x`, if there is any.
pub open spec fn last_cover(image: Seq<u8>, x: int) -> Option<int> {
    cover_below(image, x, image.len() as int)
}

/// The letter at `index` of the alphabet `a..z` followed by `A..Z`.
pub open spec fn letter(index: int) -> u8 {
    if index < 26 {
        (0x61 + index) as u8
    } else {
        (0x41 + (index - 26)) as u8
    }
}

/// Whether `c` is one of `a..z` or `A..Z`.
pub open spec fn is_letter(c: u8) -> bool {
    (0x61 <= c <= 0x7a) || (0x41 <= c <= 0x5a)
}

/// Whether `c` is a letter that the sampler can draw: `a..z` or `A..V`.
pub open spec fn is_sampled_letter(c: u8) -> bool {
    (0x61 <= c <= 0x7a) || (0x41 <= c <= 0x56)
}

/// Where in the sequence of draws the byte at `x` finds its index, when the
/// marker at `p` decides it: each marker owns eighteen draws, in scan order.
pub open spec fn draw_slot(image: Seq<u8>, p: int, x: int) -> int {
    18 * markers_below(image, p).len() + (x - p - 4)
}

/// Whether `draws` holds eighteen alphabet indices for every marker of `image`.
pub open spec fn draws_fit(image: Seq<u8>, draws: Seq<usize>) -> bool {
    &&& draws.len() == 18 * markers(image).len()
    &&& forall|k: int| 0 <= k < draws.len() ==> #[trigger] draws[k] < 52
}

/// Whether every index in `draws` is one that the sampler can draw.
pub open spec fn draws_sampled(draws: Seq<usize>) -> bool {
    forall|k: int| 0 <= k < draws.len() ==> #[trigger] draws[k] < 48
}

/// The byte at `x` once the markers below `bound` have been rewritten.
pub open spec fn patched_byte_below(image: Seq<u8>, draws: Seq<usize>, x: int, bound: int) -> u8 {
    match cover_below(image, x, bound) {
        None => image[x],
        Some(p) => letter(draws[draw_slot(image, p, x)] as int),
    }
}

/// The byte at `x` of the patched image.
pub open spec fn patched_byte(image: Seq<u8>, draws: Seq<usize>, x: int) -> u8 {
    patched_byte_below(image, draws, x, image.len() as int)
}

/// The patched image: every byte in a window is the letter its draw selects,
/// every other byte is the one that was read.
pub open spec fn patched(image: Seq<u8>, draws: Seq<usize>) -> Seq<u8> {
    Seq::new(image.len(), |x: int| patched_byte(image, draws, x))
}

/// What every patched image has in common with the image it was made from,
/// whatever was drawn: the length, the bytes outside all windows, and sampled
/// letters inside them.
pub open spec fn is_patch_of(image: Seq<u8>, out: Seq<u8>) -> bool {
    &&& out.len() == image.len()
    &&& forall|x: int| 0 <= x < image.len() && !in_window(image, x) ==> #[trigger] out[x] == image[x]
    &&& forall|x: int| 0 <= x < image.len() && in_window(image, x) ==> is_sampled_letter(#[trigger] out[x])
}

/// The marker positions as mathematical integers.
pub open spec fn positions(found: Seq<usize>) -> Seq<int> {
    found.map_values(|p: usize| p as int)
}

/// `markers_below` grows with its bound, one position at a time.
pub proof fn lemma_markers_below_grows(image: Seq<u8>, lo: int, hi: int)
    requires
        lo <= hi,
    ensures
        markers_below(image, lo).len() <= markers_below(image, hi).len(),
        markers_below(image, lo) == markers_below(image, hi).take(
            markers_below(image, lo).len() as int,
        ),
    decreases hi - lo,
{
    if lo < hi {
        lemma_markers_below_grows(image, lo, hi - 1);
        if hi > 0 {
            let low = markers_below(image, lo);
            assert(low =~= markers_below(image, hi).take(low.len() as int));
        } else {
            assert(markers_below(image, lo) =~= markers_below(image, hi).take(0));
        }
    } else {
        assert(markers_below(image, lo) =~= markers_below(image, hi).take(
            markers_below(image, lo).len() as int,
        ));
    }
}

/// Every entry of `markers_below` is a marker position below the bound, and
/// a marker at `p` sits at the index that counts the markers before it.
pub proof fn lemma_markers_below_entries(image: Seq<u8>, end: int)
    ensures
        forall|j: int|
            0 <= j < markers_below(image, end).len() ==> {
                &&& marker_at(image, #[trigger] markers_below(image, end)[j])
                &&& markers_below(image, end)[j] < end
                &&& markers_below(image, markers_below(image, end)[j]).len() == j
            },
    decreases end,
{
    if end > 0 {
        lemma_markers_below_entries(image, end - 1);
        let shorter = markers_below(image, end - 1);
        let all = markers_below(image, end);
        assert forall|j: int| 0 <= j < all.len() implies {
            &&& marker_at(image, #[trigger] all[j])
            &&& all[j] < end
            &&& markers_below(image, all[j]).len() == j
        } by {
            if j < shorter.len() {
                assert(all[j] == shorter[j]);
            } else {
                assert(all[j] == end - 1);
            }
        }
    }
}

/// A stretch without markers changes neither the list nor the cover.
pub proof fn lemma_no_marker_between(image: Seq<u8>, x: int, lo: int, hi: int)
    requires
        lo <= hi,
        markers_below(image, lo).len() == markers_below(image, hi).len(),
    ensures
        cover_below(image, x, hi) == cover_below(image, x, lo),
        forall|q: int| lo <= q < hi ==> !marker_at(image, q),
    decreases hi - lo,
{
    if lo < hi {
        lemma_markers_below_grows(image, lo, hi - 1);
        lemma_markers_below_grows(image, hi - 1, hi);
        if hi > 0 {
            assert(!marker_at(image, hi - 1));
        }
        lemma_no_marker_between(image, x, lo, hi - 1);
    }
}

/// What `cover_below` returns is a marker whose window holds `x`, the
/// greatest such below the bound; it returns nothing only where no marker
/// below the bound covers `x`.
pub proof fn lemma_cover_below(image: Seq<u8>, x: int, bound: int)
    ensures
        match cover_below(image, x, bound) {
            Some(p) => {
                &&& p < bound
                &&& marker_at(image, p)
                &&& covers(p, x)
                &&& forall|q: int| p < q < bound && marker_at(image, q) ==> !covers(q, x)
            },
            None => forall|q: int| q < bound && marker_at(image, q) ==> !covers(q, x),
        },
    decreases bound,
{
    if bound > 0 {
        lemma_cover_below(image, x, bound - 1);
    }
}

/// Whether a marker starts at position `i` of `image`.
pub fn has_marker_at(image: &Vec<u8>, i: usize) -> (r: bool)
    ensures
        r == marker_at(image@, i as int),
{
    let n = image.len();
    if n < 4 || i > n - 4 {
        return false;
    }
    image[i] == 0x63 && image[i + 1] == 0x64 && image[i + 2] == 0x63 && image[i + 3] == 0x5f
}

/// Scans `image` and lists every position at which a marker starts, in
/// ascending order.
pub fn find_markers(image: &Vec<u8>) -> (found: Vec<usize>)
    ensures
        positions(found@) == markers(image@),
{
    let n = image.len();
    let mut found: Vec<usize> = Vec::new();
    let mut i: usize = 0;
    while i < n
        invariant
            i <= n,
            n == image.len(),
            positions(found@) == markers_below(image@, i as int),
        decreases n - i,
    {
        let hit = has_marker_at(image, i);
        proof {
            let before = positions(found@);
            if hit {
                assert(positions(found@.push(i)) =~= before.push(i as int));
            }
        }
        if hit {
            found.push(i);
        }
        i += 1;
    }
    found
}

/// The letter at `index` of the alphabet.
pub fn letter_at(index: usize) -> (c: u8)
    requires
        index < 52,
    ensures
        c == letter(index as int),
        is_letter(c),
        index < 48 ==> is_sampled_letter(c),
{
    if index < 26 {
        0x61u8 + (index as u8)
    } else {
        0x41u8 + ((index - 26) as u8)
    }
}

/// Draws eighteen alphabet indices for each of `count` markers.
pub fn draw_indices(count: usize) -> (draws: Vec<usize>)
    ensures
        draws@.len() == 18 * count,
        draws_sampled(draws@),
{
    let mut draws: Vec<usize> = Vec::new();
    let mut j: usize = 0;
    while j < count
        invariant
            j <= count,
            draws@.len() == 18 * j,
            draws_sampled(draws@),
        decreases count - j,
    {
        let mut o: usize = 0;
        while o < WINDOW_LEN
            invariant
                o <= 18,
                draws@.len() == 18 * j + o,
                draws_sampled(draws@),
            decreases 18 - o,
        {
            let index = random_below(0, SAMPLE_LIMIT);
            draws.push(index);
            o += 1;
        }
        j += 1;
    }
    draws
}

/// Whether `draws` holds eighteen alphabet indices for each of `count` markers.
fn draws_match(draws: &Vec<usize>, count: usize) -> (r: bool)
    ensures
        r == {
            &&& draws@.len() == 18 * count
            &&& forall|k: int| 0 <= k < draws@.len() ==> #[trigger] draws@[k] < 52
        },
{
    let total = draws.len();
    if total % WINDOW_LEN != 0 || total / WINDOW_LEN != count {
        return false;
    }
    let mut k: usize = 0;
    while k < total
        invariant
            k <= total,
            total == draws@.len(),
            forall|i: int| 0 <= i < k ==> #[trigger] draws@[i] < 52,
        decreases total - k,
    {
        if draws[k] >= ALPHABET_LEN {
            return false;
        }
        k += 1;
    }
    true
}

/// Rewrites the window of the marker at `p`, the `j`-th of the image, in
/// `out`, which holds the image with the markers below `bound` rewritten.
fn rewrite_window(
    image: &Vec<u8>,
    draws: &Vec<usize>,
    out: &mut Vec<u8>,
    p: usize,
    j: usize,
    Ghost(bound): Ghost<int>,
)
    requires
        draws_fit(image@, draws@),
        old(out)@.len() == image@.len(),
        marker_at(image@, p as int),
        0 <= bound <= p,
        markers_below(image@, bound).len() == j,
        markers_below(image@, p as int).len() == j,
        j < markers(image@).len(),
        forall|x: int|
            0 <= x < image@.len() ==> #[trigger] old(out)@[x] == patched_byte_below(
                image@,
                draws@,
                x,
                bound,
            ),
    ensures
        final(out)@.len() == image@.len(),
        forall|x: int|
            0 <= x < image@.len() ==> #[trigger] final(out)@[x] == patched_byte_below(
                image@,
                draws@,
                x,
                p + 1,
            ),
{
    let n = image.len();
    let start = p + MARKER_LEN;
    let room = n - start;
    let mut o: usize = 0;
    while o < WINDOW_LEN
        invariant
            o <= 18,
            n == image@.len(),
            start == p + 4,
            start <= n,
            room == n - start,
            out@.len() == n,
            draws_fit(image@, draws@),
            j < markers(image@).len(),
            18 * j + 18 <= draws.len(),
            forall|x: int|
                0 <= x < n ==> #[trigger] out@[x] == if start <= x < start + o {
                    letter(draws@[18 * j + (x - start)] as int)
                } else {
                    patched_byte_below(image@, draws@, x, bound)
                },
        decreases 18 - o,
    {
        if o < room {
            let c = letter_at(draws[18 * j + o]);
            out.set(start + o, c);
        }
        o += 1;
    }
    proof {
        assert forall|x: int| 0 <= x < n implies #[trigger] out@[x] == patched_byte_below(
            image@,
            draws@,
            x,
            p + 1,
        ) by {
            lemma_no_marker_between(image@, x, bound, p as int);
            assert(cover_below(image@, x, p + 1) == if covers(p as int, x) {
                Some(p as int)
            } else {
                cover_below(image@, x, p as int)
            });
        }
    }
}

/// Patches `image` with the letters that `draws` selects: the `k`-th byte of
/// the `j`-th marker's window becomes the letter at index `draws[18 * j + k]`.
/// Gives nothing unless `draws` holds exactly eighteen alphabet indices for
/// each marker.
pub fn patch_with(image: &Vec<u8>, draws: &Vec<usize>) -> (r: Option<Vec<u8>>)
    ensures
        match r {
            Some(out) => draws_fit(image@, draws@) && out@ == patched(image@, draws@),
            None => !draws_fit(image@, draws@),
        },
{
    let found = find_markers(image);
    let count = found.len();
    assert(count == markers(image@).len()) by {
        assert(positions(found@).len() == found@.len());
    }
    if !draws_match(draws, count) {
        return None;
    }
    let n = image.len();
    let mut out = image.clone();
    let ghost mut bound: int = 0;
    let mut j: usize = 0;
    while j < count
        invariant
            j <= count,
            count == found@.len(),
            n == image@.len(),
            out@.len() == n,
            positions(found@) == markers(image@),
            draws_fit(image@, draws@),
            0 <= bound <= n,
            j > 0 ==> bound == found@[j - 1] + 1,
            markers_below(image@, bound).len() == j,
            forall|x: int|
                0 <= x < n ==> #[trigger] out@[x] == patched_byte_below(image@, draws@, x, bound),
        decreases count - j,
    {
        let p = found[j];
        proof {
            lemma_markers_below_entries(image@, n as int);
            assert(positions(found@)[j as int] == p as int);
            assert(markers(image@)[j as int] == p as int);
            assert(marker_at(image@, p as int));
            assert(markers_below(image@, p as int).len() == j);
            if bound > p {
                lemma_markers_below_grows(image@, p as int, bound - 1);
                lemma_markers_below_grows(image@, p as int + 1, bound);
            }
        }
        rewrite_window(image, draws, &mut out, p, j, Ghost(bound));
        proof {
            bound = p + 1;
        }
        j += 1;
    }
    proof {
        assert forall|x: int| 0 <= x < n implies #[trigger] out@[x] == patched_byte(
            image@,
            draws@,
            x,
        ) by {
            lemma_no_marker_between(image@, x, bound, n as int);
        }
        assert(out@ =~= patched(image@, draws@));
    }
    Some(out)
}

/// Patches `image` with freshly drawn letters.
pub fn patch(image: &Vec<u8>) -> (out: Vec<u8>)
    ensures
        is_patch_of(image@, out@),
        exists|draws: Seq<usize>|
            draws_fit(image@, draws) && draws_sampled(draws) && out@ == patched(image@, draws),
{
    let found = find_markers(image);
    assert(found@.len() == markers(image@).len()) by {
        assert(positions(found@).len() == found@.len());
    }
    let draws = draw_indices(found.len());
    let r = patch_with(image, &draws);
    proof {
        lemma_patched_is_patch(image@, draws@);
    }
    match r {
        Some(out) => out,
        None => vstd::pervasive::unreached(),
    }
}

/// A marker below the end of the image is counted among the markers before
/// the end, so the draws of its window exist.
pub proof fn lemma_draw_slot_in_range(image: Seq<u8>, p: int, x: int)
    requires
        marker_at(image, p),
        covers(p, x),
    ensures
        0 <= draw_slot(image, p, x) < 18 * markers(image).len(),
{
    lemma_markers_below_grows(image, p + 1, image.len() as int);
    assert(markers_below(image, p + 1).len() == markers_below(image, p).len() + 1);
}

/// The byte at `x` keeps its value exactly when no window holds `x`;
/// otherwise it is the letter of the last marker whose window holds `x`.
pub proof fn lemma_last_cover(image: Seq<u8>, x: int)
    requires
        0 <= x < image.len(),
    ensures
        last_cover(image, x) is None <==> !in_window(image, x),
        last_cover(image, x) matches Some(p) ==> marker_at(image, p) && covers(p, x) && (forall|
            q: int,
        |
            marker_at(image, q) && covers(q, x) ==> q <= p),
{
    lemma_cover_below(image, x, image.len() as int);
}

/// Whatever is drawn, the patched image has the length of the image it was
/// made from, agrees with it outside the windows and holds letters inside
/// them; where the sampler drew, none of them is one of the last four of the
/// alphabet.
pub proof fn lemma_patched_is_patch(image: Seq<u8>, draws: Seq<usize>)
    requires
        draws_fit(image, draws),
    ensures
        patched(image, draws).len() == image.len(),
        forall|x: int|
            0 <= x < image.len() && !in_window(image, x) ==> #[trigger] patched(image, draws)[x]
                == image[x],
        forall|x: int|
            0 <= x < image.len() && in_window(image, x) ==> is_letter(
                #[trigger] patched(image, draws)[x],
            ),
        draws_sampled(draws) ==> is_patch_of(image, patched(image, draws)),
{
    let out = patched(image, draws);
    assert forall|x: int| 0 <= x < image.len() implies (if in_window(image, x) {
        is_letter(#[trigger] out[x]) && (draws_sampled(draws) ==> is_sampled_letter(out[x]))
    } else {
        out[x] == image[x]
    }) by {
        lemma_last_cover(image, x);
        match last_cover(image, x) {
            Some(p) => {
                lemma_draw_slot_in_range(image, p, x);
                let k = draw_slot(image, p, x);
                assert(draws[k] < 52);
                if draws_sampled(draws) {
                    assert(draws[k] < 48);
                }
            },
            None => {},
        }
    }
}

/// Every marker of the image is listed, each once, and nothing else is: the
/// list is strictly ascending, holds only marker positions, and holds each
/// position at which a marker starts.
pub proof fn lemma_scan_is_total(image: Seq<u8>)
    ensures
        forall|j: int|
            0 <= j < markers(image).len() ==> marker_at(image, #[trigger] markers(image)[j]),
        forall|i: int| marker_at(image, i) ==> markers(image).contains(i),
        forall|j: int, k: int|
            0 <= j < k < markers(image).len() ==> markers(image)[j] < markers(image)[k],
{
    let n = image.len() as int;
    let all = markers(image);
    lemma_markers_below_entries(image, n);
    assert forall|i: int| marker_at(image, i) implies all.contains(i) by {
        lemma_markers_below_grows(image, i + 1, n);
        let at = markers_below(image, i).len() as int;
        assert(markers_below(image, i + 1) == markers_below(image, i).push(i));
        assert(markers_below(image, i + 1)[at] == i);
        assert(all.take(markers_below(image, i + 1).len() as int)[at] == all[at]);
        assert(all[at] == i);
    }
    assert forall|j: int, k: int| 0 <= j < k < all.len() implies all[j] < all[k] by {
        let a = all[j];
        let b = all[k];
        if a >= b {
            lemma_markers_below_grows(image, b, a);
        }
    }
}

/// An image without markers is patched to itself.
pub proof fn lemma_marker_free_is_unchanged(image: Seq<u8>, out: Seq<u8>)
    requires
        markers(image).len() == 0,
        is_patch_of(image, out),
    ensures
        out == image,
{
    lemma_scan_is_total(image);
    assert forall|x: int| 0 <= x < image.len() implies out[x] == image[x] by {
        if in_window(image, x) {
            let p = choose|p: int| marker_at(image, p) && covers(p, x);
            assert(markers(image).contains(p));
        }
    }
    assert(out =~= image);
}

} // verus!
