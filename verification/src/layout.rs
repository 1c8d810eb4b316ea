//! The per-frame layout engine: a pure function from the notifications to
//! display, the configuration snapshot, the clock and the measured block
//! heights to an ordered list of drawable blocks, their vertical placement,
//! the click-bounds index and the total content height.
//!
//! Text measurement is a capability of the drawing surface, so it stays with
//! the driver outside the crate: the driver first builds the blocks, measures
//! each markup at the wrap width, and then assembles the frame from the
//! measured heights.

use vstd::prelude::*;
use crate::config::{Config, spec_resolve_background};
use crate::markup::{footer_markup, notification_markup, spec_footer, spec_markup};
use crate::notification::Notification;

verus! {

/// Height in pixels of the separator band between notification blocks.
pub const SEPARATOR_HEIGHT: i32 = 2;

/// One drawable block of the popup.
#[derive(Debug)]
pub struct Block {
    /// Styled markup to draw; empty for separators.
    pub markup: String,
    /// Background override as a hex color string, if any.
    pub bg_color: Option<String>,
    /// Whether this block is a separator band.
    pub is_separator: bool,
    /// Index into the display-order notification list; `None` for
    /// separators and the overflow footer.
    pub original_index: Option<usize>,
}

/// The background override of a block, as a character sequence.
pub open spec fn spec_bg(b: Block) -> Option<Seq<char>> {
    match b.bg_color {
        Some(s) => Some(s@),
        None => None,
    }
}

/// What a notification block must hold for the notification at
/// display-order position `orig`.
pub open spec fn spec_notif_block(
    b: Block,
    n: Notification,
    c: Config,
    now: int,
    orig: int,
) -> bool {
    &&& b.markup@ == spec_markup(n, now)
    &&& spec_bg(b) == spec_resolve_background(c, n)
    &&& !b.is_separator
    &&& b.original_index == Some(orig as usize)
}

/// What a separator block must hold.
pub open spec fn spec_sep_block(b: Block) -> bool {
    &&& b.markup@ == Seq::<char>::empty()
    &&& b.bg_color is None
    &&& b.is_separator
    &&& b.original_index is None
}

/// The shape of a built block list: the notifications in newest-first
/// order at even positions, separators between them, and an overflow footer
/// when more notifications are unread than displayed.
pub open spec fn spec_blocks_built(
    r: Seq<Block>,
    notifications: Seq<Notification>,
    c: Config,
    now: int,
    unread_count: int,
) -> bool {
    let n = notifications.len() as int;
    let over = unread_count > n;
    let base = if n == 0 {
        0
    } else {
        2 * n - 1
    };
    &&& r.len() == base + if n > 0 && over {
        1int
    } else {
        0int
    }
    &&& forall|j: int|
        0 <= j < base ==> (if j % 2 == 0 {
            spec_notif_block(#[trigger] r[j], notifications[n - 1 - j / 2], c, now, n - 1 - j / 2)
        } else {
            spec_sep_block(r[j])
        })
    &&& (n > 0 && over) ==> {
        &&& r[base].markup@ == spec_footer(unread_count - n)
        &&& r[base].bg_color is None
        &&& !r[base].is_separator
        &&& r[base].original_index is None
    }
}

/// Builds the drawable blocks for the given notifications (display order,
/// oldest first, as the manager hands them out): the visual stack shows the
/// newest first, a separator stands between consecutive notifications, and a
/// footer reports how many more notifications are unread than displayed.
pub fn build_blocks(
    notifications: &Vec<Notification>,
    config: &Config,
    now: u64,
    unread_count: usize,
) -> (r: Vec<Block>)
    ensures
        spec_blocks_built(r@, notifications@, *config, now as int, unread_count as int),
{
    let n = notifications.len();
    let mut r: Vec<Block> = Vec::new();
    if n == 0 {
        return r;
    }
    let mut idx: usize = 0;
    #[verifier::loop_isolation(false)]
    while idx < n
        invariant
            1 <= n == notifications@.len(),
            idx <= n,
            r@.len() == if idx < n {
                2 * idx as int
            } else {
                2 * n - 1
            },
            forall|j: int|
                0 <= j < r@.len() ==> (if j % 2 == 0 {
                    spec_notif_block(
                        #[trigger] r@[j],
                        notifications@[n - 1 - j / 2],
                        *config,
                        now as int,
                        n - 1 - j / 2,
                    )
                } else {
                    spec_sep_block(r@[j])
                }),
        decreases n - idx,
    {
        let original_idx = n - 1 - idx;
        let markup = notification_markup(&notifications[original_idx], now);
        let bg_color = config.resolve_background(&notifications[original_idx]);
        r.push(Block { markup, bg_color, is_separator: false, original_index: Some(original_idx) });
        if idx < n - 1 {
            r.push(
                Block {
                    markup: String::new(),
                    bg_color: None,
                    is_separator: true,
                    original_index: None,
                },
            );
        }
        idx = idx + 1;
    }
    if unread_count > n {
        let markup = footer_markup(unread_count - n);
        r.push(Block { markup, bg_color: None, is_separator: false, original_index: None });
    }
    r
}

/// A clickable vertical span of the popup: the pixel rows
/// `y_start..y_end` belong to the displayed notification at `index` in the
/// display-order list.
#[derive(Clone, Copy, Debug, PartialEq, Eq, Structural)]
pub struct Bound {
    /// First pixel row of the span.
    pub y_start: i32,
    /// One past the last pixel row of the span.
    pub y_end: i32,
    /// Index into the display-order notification list.
    pub index: usize,
}

/// The effective height of block `i`: separators have the fixed separator
/// height, every other block its measured height.
pub open spec fn spec_eff_height(blocks: Seq<Block>, heights: Seq<i32>, i: int) -> int {
    if blocks[i].is_separator {
        SEPARATOR_HEIGHT as int
    } else {
        heights[i] as int
    }
}

/// The y offset of block `i`: the sum of the effective heights before it.
pub open spec fn spec_offset(blocks: Seq<Block>, heights: Seq<i32>, i: int) -> int
    decreases i,
{
    if i <= 0 {
        0
    } else {
        spec_offset(blocks, heights, i - 1) + spec_eff_height(blocks, heights, i - 1)
    }
}

/// The click bounds of the first `i` blocks: one bound per block that
/// carries an original index, in order.
pub open spec fn spec_bounds_upto(blocks: Seq<Block>, heights: Seq<i32>, i: int) -> Seq<Bound>
    decreases i,
{
    if i <= 0 {
        Seq::<Bound>::empty()
    } else {
        let head = spec_bounds_upto(blocks, heights, i - 1);
        match blocks[i - 1].original_index {
            Some(idx) => head.push(
                Bound {
                    y_start: spec_offset(blocks, heights, i - 1) as i32,
                    y_end: (spec_offset(blocks, heights, i - 1) + spec_eff_height(
                        blocks,
                        heights,
                        i - 1,
                    )) as i32,
                    index: idx,
                },
            ),
            None => head,
        }
    }
}

/// Offsets grow with the block index when no height is negative.
pub proof fn lemma_offset_mono(blocks: Seq<Block>, heights: Seq<i32>, i: int, j: int)
    requires
        0 <= i <= j <= blocks.len(),
        heights.len() == blocks.len(),
        forall|k: int| 0 <= k < heights.len() ==> heights[k] >= 0,
    ensures
        spec_offset(blocks, heights, i) <= spec_offset(blocks, heights, j),
    decreases j - i,
{
    if i < j {
        lemma_offset_mono(blocks, heights, i, j - 1);
    }
}

/// Click bounds never overlap: walking top to bottom, each bound ends
/// before the next begins.
pub open spec fn spec_bounds_disjoint(bounds: Seq<Bound>) -> bool {
    forall|a: int, b: int|
        0 <= a < b < bounds.len() ==> #[trigger] bounds[a].y_end <= #[trigger] bounds[b].y_start
}

/// Every bound of the first `i` blocks lies within `0..offset(i)`, is
/// non-empty-or-forward, and the bounds are pairwise disjoint in order.
pub proof fn lemma_bounds_props(blocks: Seq<Block>, heights: Seq<i32>, i: int)
    requires
        0 <= i <= blocks.len(),
        heights.len() == blocks.len(),
        forall|k: int| 0 <= k < heights.len() ==> heights[k] >= 0,
        spec_offset(blocks, heights, blocks.len() as int) <= i32::MAX,
    ensures
        spec_bounds_disjoint(spec_bounds_upto(blocks, heights, i)),
        forall|a: int|
            0 <= a < spec_bounds_upto(blocks, heights, i).len() ==> {
                let bd = #[trigger] spec_bounds_upto(blocks, heights, i)[a];
                0 <= bd.y_start && bd.y_start <= bd.y_end && bd.y_end <= spec_offset(
                    blocks,
                    heights,
                    i,
                )
            },
    decreases i,
{
    if i > 0 {
        lemma_bounds_props(blocks, heights, i - 1);
        lemma_offset_mono(blocks, heights, 0, i - 1);
        lemma_offset_mono(blocks, heights, i, blocks.len() as int);
        let head = spec_bounds_upto(blocks, heights, i - 1);
        let off = spec_offset(blocks, heights, i - 1);
        let eff = spec_eff_height(blocks, heights, i - 1);
        assert(0 <= off && off + eff <= i32::MAX);
        match blocks[i - 1].original_index {
            Some(idx) => {
                let bd = Bound { y_start: off as i32, y_end: (off + eff) as i32, index: idx };
                assert(spec_bounds_upto(blocks, heights, i) == head.push(bd));
            },
            None => {},
        }
    }
}

/// The assembled frame: the y offset of every block, the click-bounds
/// index, and the total content height.
#[derive(Debug)]
pub struct Layout {
    /// y offset of each block, parallel to the block list.
    pub offsets: Vec<i32>,
    /// Click bounds of the displayed notifications, top to bottom.
    pub bounds: Vec<Bound>,
    /// Total content height.
    pub total_height: i32,
}

/// The shape of an assembled layout for the given blocks and measured
/// heights.
pub open spec fn spec_layout_built(l: Layout, blocks: Seq<Block>, heights: Seq<i32>) -> bool {
    &&& l.offsets@.len() == blocks.len()
    &&& forall|i: int|
        0 <= i < blocks.len() ==> l.offsets@[i] == spec_offset(blocks, heights, i)
    &&& l.bounds@ == spec_bounds_upto(blocks, heights, blocks.len() as int)
    &&& l.total_height == spec_offset(blocks, heights, blocks.len() as int)
}

/// Assembles the frame from the blocks and their measured heights:
/// prefix-sums the effective heights into per-block y offsets, records one
/// click bound per displayed notification, and totals the content height.
///
/// The click bounds come out pairwise disjoint and within the content, so a
/// pixel row resolves to at most one notification.
pub fn assemble_layout(blocks: &Vec<Block>, heights: &Vec<i32>) -> (l: Layout)
    requires
        heights@.len() == blocks@.len(),
        forall|k: int| 0 <= k < heights@.len() ==> heights@[k] >= 0,
        spec_offset(blocks@, heights@, blocks@.len() as int) <= i32::MAX,
    ensures
        spec_layout_built(l, blocks@, heights@),
        spec_bounds_disjoint(l.bounds@),
        forall|a: int|
            0 <= a < l.bounds@.len() ==> {
                let bd = #[trigger] l.bounds@[a];
                0 <= bd.y_start && bd.y_start <= bd.y_end && bd.y_end <= l.total_height
            },
{
    let m = blocks.len();
    let mut offsets: Vec<i32> = Vec::new();
    let mut bounds: Vec<Bound> = Vec::new();
    let mut y: i32 = 0;
    let mut i: usize = 0;
    #[verifier::loop_isolation(false)]
    while i < m
        invariant
            i <= m,
            y == spec_offset(blocks@, heights@, i as int),
            offsets@.len() == i,
            forall|k: int| 0 <= k < i ==> offsets@[k] == spec_offset(blocks@, heights@, k),
            bounds@ == spec_bounds_upto(blocks@, heights@, i as int),
        decreases m - i,
    {
        proof {
            lemma_offset_mono(blocks@, heights@, i + 1, m as int);
            lemma_offset_mono(blocks@, heights@, 0, i as int);
        }
        let eff: i32 = if blocks[i].is_separator {
            SEPARATOR_HEIGHT
        } else {
            heights[i]
        };
        offsets.push(y);
        if let Some(idx) = blocks[i].original_index {
            bounds.push(Bound { y_start: y, y_end: y + eff, index: idx });
        }
        y = y + eff;
        i = i + 1;
    }
    proof {
        lemma_bounds_props(blocks@, heights@, m as int);
    }
    Layout { offsets, bounds, total_height: y }
}

/// Law: the layout engine is deterministic. Two block lists built from the
/// same notifications, configuration, clock and unread count agree on every
/// observable field, and two layouts assembled from the same blocks and
/// heights are equal.
pub proof fn lemma_layout_deterministic(
    r1: Seq<Block>,
    r2: Seq<Block>,
    l1: Layout,
    l2: Layout,
    notifications: Seq<Notification>,
    c: Config,
    now: int,
    unread_count: int,
    heights: Seq<i32>,
)
    requires
        spec_blocks_built(r1, notifications, c, now, unread_count),
        spec_blocks_built(r2, notifications, c, now, unread_count),
        spec_layout_built(l1, r1, heights),
        spec_layout_built(l2, r1, heights),
    ensures
        r1.len() == r2.len(),
        forall|j: int|
            0 <= j < r1.len() ==> {
                &&& (#[trigger] r1[j]).markup@ == (#[trigger] r2[j]).markup@
                &&& spec_bg(r1[j]) == spec_bg(r2[j])
                &&& r1[j].is_separator == r2[j].is_separator
                &&& r1[j].original_index == r2[j].original_index
            },
        l1.offsets@ == l2.offsets@,
        l1.bounds@ == l2.bounds@,
        l1.total_height == l2.total_height,
{
    let n = notifications.len() as int;
    let base = if n == 0 {
        0int
    } else {
        2 * n - 1
    };
    assert forall|j: int| 0 <= j < r1.len() implies {
        &&& (#[trigger] r1[j]).markup@ == (#[trigger] r2[j]).markup@
        &&& spec_bg(r1[j]) == spec_bg(r2[j])
        &&& r1[j].is_separator == r2[j].is_separator
        &&& r1[j].original_index == r2[j].original_index
    } by {
        if j < base {
            if j % 2 == 0 {
                assert(spec_notif_block(r1[j], notifications[n - 1 - j / 2], c, now, n - 1 - j / 2));
                assert(spec_notif_block(r2[j], notifications[n - 1 - j / 2], c, now, n - 1 - j / 2));
            }
        }
    }
    assert forall|i: int| 0 <= i < l1.offsets@.len() implies l1.offsets@[i] == l2.offsets@[i] by {
        assert(l1.offsets@[i] == spec_offset(r1, heights, i));
        assert(l2.offsets@[i] == spec_offset(r1, heights, i));
    }
    assert(l1.offsets@ =~= l2.offsets@);
}

} // verus!
