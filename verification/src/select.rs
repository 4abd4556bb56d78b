use vstd::prelude::*;
use vstd::arithmetic::div_mod::{
    lemma_add_mod_noop_right,
    lemma_mod_multiples_vanish,
    lemma_small_mod,
};
use crate::backend::Backend;
use crate::error::ErrorKind;
use crate::events::{KeyCode, KeyEvent};
use crate::layout::Layout;
use crate::widget::{Widget, WidgetSpec};

verus! {

// --- Navigation over a selectability mask -------------------------------
//
// The engine's cursor motion is specified over the list's selectability mask
// alone: a sequence of booleans, true where an entry can be hovered.

/// The first selectable index at or after `i`, if any.
pub open spec fn first_sel_from(s: Seq<bool>, i: int) -> Option<int>
    decreases s.len() - i when 0 <= i <= s.len()
{
    if i >= s.len() {
        None
    } else if s[i] {
        Some(i)
    } else {
        first_sel_from(s, i + 1)
    }
}

/// The last selectable index at or before `i`, if any.
pub open spec fn last_sel_before(s: Seq<bool>, i: int) -> Option<int>
    decreases i + 1 when -1 <= i < s.len()
{
    if i < 0 {
        None
    } else if s[i] {
        Some(i)
    } else {
        last_sel_before(s, i - 1)
    }
}

/// Where one "next" move lands from hover position `c`: the next selectable
/// index below, wrapping past the end when `should_loop`; `c` itself when
/// there is nowhere to go.
pub open spec fn next_sel(s: Seq<bool>, c: int, should_loop: bool) -> int {
    match first_sel_from(s, c + 1) {
        Some(j) => j,
        None => if should_loop {
            match first_sel_from(s, 0) {
                Some(j) => j,
                None => c,
            }
        } else {
            c
        },
    }
}

/// Where one "previous" move lands from hover position `c`.
pub open spec fn prev_sel(s: Seq<bool>, c: int, should_loop: bool) -> int {
    match last_sel_before(s, c - 1) {
        Some(j) => j,
        None => if should_loop {
            match last_sel_before(s, s.len() - 1) {
                Some(j) => j,
                None => c,
            }
        } else {
            c
        },
    }
}

/// How many entries of the mask are selectable.
pub open spec fn sel_count(s: Seq<bool>) -> int
    decreases s.len(),
{
    if s.len() == 0 {
        0
    } else {
        sel_count(s.drop_last()) + if s.last() {
            1int
        } else {
            0int
        }
    }
}

/// The rank of position `i`: how many selectable entries sit strictly
/// before it.
pub open spec fn sel_rank(s: Seq<bool>, i: int) -> int {
    sel_count(s.take(i))
}

/// The hover position after `n` consecutive "next" moves in a looping list.
pub open spec fn iter_next(s: Seq<bool>, c: int, n: nat) -> int
    decreases n,
{
    if n == 0 {
        c
    } else {
        iter_next(s, next_sel(s, c, true), (n - 1) as nat)
    }
}

/// The hover position after `n` consecutive "next" moves in a non-looping
/// list.
pub open spec fn iter_next_nowrap(s: Seq<bool>, c: int, n: nat) -> int
    decreases n,
{
    if n == 0 {
        c
    } else {
        iter_next_nowrap(s, next_sel(s, c, false), (n - 1) as nat)
    }
}

proof fn lemma_sel_count_nonneg(s: Seq<bool>)
    ensures
        0 <= sel_count(s),
    decreases s.len(),
{
    if s.len() > 0 {
        lemma_sel_count_nonneg(s.drop_last());
    }
}

/// Extending a prefix by one entry adds that entry's selectability.
proof fn lemma_sel_count_step(s: Seq<bool>, i: int)
    requires
        0 <= i < s.len(),
    ensures
        sel_count(s.take(i + 1)) == sel_count(s.take(i)) + if s[i] {
            1int
        } else {
            0int
        },
{
    assert(s.take(i + 1).drop_last() =~= s.take(i));
    assert(s.take(i + 1).last() == s[i]);
}

/// Over a stretch with no selectable entries, the prefix count stays put.
proof fn lemma_sel_count_flat(s: Seq<bool>, a: int, b: int)
    requires
        0 <= a <= b <= s.len(),
        forall|k: int| a <= k < b ==> !s[k],
    ensures
        sel_count(s.take(b)) == sel_count(s.take(a)),
    decreases b - a,
{
    if a < b {
        lemma_sel_count_flat(s, a, b - 1);
        lemma_sel_count_step(s, b - 1);
    }
}

proof fn lemma_sel_count_whole(s: Seq<bool>)
    ensures
        sel_count(s.take(s.len() as int)) == sel_count(s),
{
    assert(s.take(s.len() as int) =~= s);
}

/// What `first_sel_from` finds: a selectable index with nothing selectable
/// in between, or a certificate that nothing at or after `i` is selectable.
proof fn lemma_first_sel_from(s: Seq<bool>, i: int)
    requires
        0 <= i <= s.len(),
    ensures
        match first_sel_from(s, i) {
            Some(j) => i <= j < s.len() && s[j] && forall|k: int| i <= k < j ==> !s[k],
            None => forall|k: int| i <= k < s.len() ==> !s[k],
        },
    decreases s.len() - i,
{
    if i < s.len() && !s[i] {
        lemma_first_sel_from(s, i + 1);
    }
}

/// What `last_sel_before` finds, symmetrically.
proof fn lemma_last_sel_before(s: Seq<bool>, i: int)
    requires
        -1 <= i < s.len(),
    ensures
        match last_sel_before(s, i) {
            Some(j) => 0 <= j <= i && s[j] && forall|k: int| j < k <= i ==> !s[k],
            None => forall|k: int| 0 <= k <= i ==> !s[k],
        },
    decreases i + 1,
{
    if i >= 0 && !s[i] {
        lemma_last_sel_before(s, i - 1);
    }
}

/// Ranks are strictly monotone over selectable indices, so a rank pins down
/// the index.
proof fn lemma_rank_injective(s: Seq<bool>, i: int, j: int)
    requires
        0 <= i < s.len(),
        0 <= j < s.len(),
        s[i],
        s[j],
        sel_rank(s, i) == sel_rank(s, j),
    ensures
        i == j,
{
    if i < j {
        lemma_sel_count_step(s, i);
        lemma_sel_count_mono(s, i + 1, j);
        assert(false);
    } else if j < i {
        lemma_sel_count_step(s, j);
        lemma_sel_count_mono(s, j + 1, i);
        assert(false);
    }
}

/// Prefix counts never decrease as the prefix grows.
proof fn lemma_sel_count_mono(s: Seq<bool>, a: int, b: int)
    requires
        0 <= a <= b <= s.len(),
    ensures
        sel_count(s.take(a)) <= sel_count(s.take(b)),
    decreases b - a,
{
    if a < b {
        lemma_sel_count_mono(s, a, b - 1);
        lemma_sel_count_step(s, b - 1);
    }
}

/// A selectable index has a rank strictly below the total count.
proof fn lemma_rank_bound(s: Seq<bool>, i: int)
    requires
        0 <= i < s.len(),
    ensures
        0 <= sel_rank(s, i),
        s[i] ==> sel_rank(s, i) < sel_count(s),
    decreases s.len(),
{
    lemma_sel_count_nonneg(s.take(i));
    if s[i] {
        lemma_sel_count_step(s, i);
        lemma_sel_count_mono(s, i + 1, s.len() as int);
        lemma_sel_count_whole(s);
    }
}

/// One looping "next" move from a selectable index advances the rank by one,
/// modulo the number of selectable entries.
proof fn lemma_next_sel_rank(s: Seq<bool>, c: int)
    requires
        0 <= c < s.len(),
        s[c],
    ensures
        ({
            let n = next_sel(s, c, true);
            &&& 0 <= n < s.len()
            &&& s[n]
            &&& sel_rank(s, n) == (sel_rank(s, c) + 1) % sel_count(s)
        }),
{
    let cnt = sel_count(s);
    lemma_rank_bound(s, c);
    assert(cnt >= 1);
    lemma_first_sel_from(s, c + 1);
    match first_sel_from(s, c + 1) {
        Some(j) => {
            // rank(j) == rank(c) + 1, and it is below the total count.
            lemma_sel_count_step(s, c);
            lemma_sel_count_flat(s, c + 1, j);
            lemma_rank_bound(s, j);
            lemma_small_mod((sel_rank(s, c) + 1) as nat, cnt as nat);
        },
        None => {
            // `c` is the last selectable entry: its rank is the top one, and
            // the move wraps to the first selectable entry, of rank zero.
            lemma_sel_count_step(s, c);
            lemma_sel_count_flat(s, c + 1, s.len() as int);
            lemma_sel_count_whole(s);
            assert(sel_rank(s, c) == cnt - 1);
            lemma_first_sel_from(s, 0);
            match first_sel_from(s, 0) {
                Some(j0) => {
                    lemma_sel_count_flat(s, 0, j0);
                    assert(s.take(0) =~= Seq::<bool>::empty());
                    assert(sel_rank(s, j0) == 0);
                    lemma_mod_multiples_vanish(1, 0, cnt);
                },
                None => {
                    assert(!s[c]);
                    assert(false);
                },
            }
        },
    }
}

/// After `n` looping "next" moves from a selectable index, the hover sits on
/// the selectable entry whose rank is `n` further on, modulo the count.
proof fn lemma_iter_next_rank(s: Seq<bool>, c: int, n: nat)
    requires
        0 <= c < s.len(),
        s[c],
    ensures
        ({
            let e = iter_next(s, c, n);
            &&& 0 <= e < s.len()
            &&& s[e]
            &&& sel_rank(s, e) == (sel_rank(s, c) + n) % sel_count(s)
        }),
    decreases n,
{
    let cnt = sel_count(s);
    lemma_rank_bound(s, c);
    if n == 0 {
        lemma_small_mod(sel_rank(s, c) as nat, cnt as nat);
    } else {
        let m = next_sel(s, c, true);
        lemma_next_sel_rank(s, c);
        lemma_iter_next_rank(s, m, (n - 1) as nat);
        // (((rank(c) + 1) % cnt) + (n - 1)) % cnt == (rank(c) + n) % cnt
        lemma_add_mod_noop_right(n - 1, sel_rank(s, c) + 1, cnt);
    }
}

/// Wraparound law, looping half: in a looping list with `N` selectable
/// entries, `N` consecutive "next" moves from any selectable hover position
/// land back on that same position.
pub proof fn lemma_wraparound_loop(s: Seq<bool>, c: int)
    requires
        0 <= c < s.len(),
        s[c],
    ensures
        iter_next(s, c, sel_count(s) as nat) == c,
{
    let cnt = sel_count(s);
    lemma_rank_bound(s, c);
    lemma_iter_next_rank(s, c, cnt as nat);
    let e = iter_next(s, c, cnt as nat);
    // (rank(c) + cnt) % cnt == rank(c)
    lemma_mod_multiples_vanish(1, sel_rank(s, c), cnt);
    lemma_small_mod(sel_rank(s, c) as nat, cnt as nat);
    lemma_rank_injective(s, e, c);
}

/// Wraparound law, non-looping half: with looping disabled, any number of
/// "next" moves from the last selectable position stay exactly there.
pub proof fn lemma_wraparound_clamp(s: Seq<bool>, c: int, n: nat)
    requires
        0 <= c < s.len(),
        s[c],
        forall|k: int| c < k < s.len() ==> !s[k],
    ensures
        iter_next_nowrap(s, c, n) == c,
    decreases n,
{
    if n > 0 {
        lemma_first_sel_from(s, c + 1);
        match first_sel_from(s, c + 1) {
            Some(j) => {
                assert(!s[j]);
                assert(false);
            },
            None => {},
        }
        assert(next_sel(s, c, false) == c);
        lemma_wraparound_clamp(s, c, (n - 1) as nat);
    }
}

// --- The list contract ----------------------------------------------------

/// The specification side of what a paginated list exposes: length, per-item
/// selectability and height, page size and wraparound flag.
pub trait ListSpec: Sized {
    spec fn wf(&self) -> bool;

    spec fn spec_len(&self) -> usize;

    spec fn spec_selectable(&self, i: int) -> bool;

    spec fn spec_page_size(&self) -> usize;

    spec fn spec_should_loop(&self) -> bool;

    /// The rows entry `i` renders as. Entries know their own height; the
    /// engine only ever adds these up.
    spec fn spec_height_at(&self, i: int) -> u16;

    /// A page is at least five rows and small enough that a few pages of rows
    /// still fit in a row counter; every entry is at least one row tall.
    proof fn list_bounds(&self)
        requires
            self.wf(),
        ensures
            5 <= self.spec_page_size() <= 4096,
            forall|i: int| 0 <= i < self.spec_len() ==> 1 <= #[trigger] self.spec_height_at(i),
    ;

    fn len(&self) -> (n: usize)
        requires
            self.wf(),
        ensures
            n == self.spec_len(),
    ;

    fn is_selectable(&self, i: usize) -> (r: bool)
        requires
            self.wf(),
            i < self.spec_len(),
        ensures
            r == self.spec_selectable(i as int),
    ;

    fn page_size(&self) -> (p: usize)
        requires
            self.wf(),
        ensures
            p == self.spec_page_size(),
    ;

    fn should_loop(&self) -> (b: bool)
        requires
            self.wf(),
        ensures
            b == self.spec_should_loop(),
    ;

    fn height_at(&self, i: usize) -> (h: u16)
        requires
            self.wf(),
            i < self.spec_len(),
        ensures
            h == self.spec_height_at(i as int),
    ;
}

/// A paginated list that can draw its entries on a backend. The engine stays
/// generic over what the entries actually render as.
pub trait List<B: Backend>: ListSpec {
    /// Draw entry `i` into `layout`, with a hover marker iff `hovered`. The
    /// cursor starts on the entry's first row and ends on its last.
    fn render_item(&self, i: usize, hovered: bool, layout: Layout, b: &mut B) -> (r: Result<
        (),
        ErrorKind,
    >)
        requires
            self.wf(),
            layout.wf(),
            i < self.spec_len(),
            old(b).inv(),
            old(b).term_size().width == layout.width,
            old(b).term_size().height == layout.height,
            old(b).cursor().1 == layout.offset_y,
            layout.offset_y + self.spec_height_at(i as int) <= layout.height,
        ensures
            r matches Err(e) ==> e == ErrorKind::Io,
            final(b).inv(),
            final(b).term_size() == old(b).term_size(),
            final(b).raw_mode() == old(b).raw_mode(),
            final(b).cursor_visible() == old(b).cursor_visible(),
            r is Ok ==> final(b).cursor().1 == layout.offset_y + self.spec_height_at(i as int)
                - 1,
    ;
}

/// The selectability mask of a list.
pub open spec fn sel_mask<L: ListSpec>(l: &L) -> Seq<bool> {
    Seq::new(l.spec_len() as nat, |i: int| l.spec_selectable(i))
}

/// The rendered rows of entries `a .. b`.
pub open spec fn rows_between<L: ListSpec>(l: &L, a: int, b: int) -> int
    decreases b - a when a <= b
{
    if a >= b {
        0
    } else {
        l.spec_height_at(a) + rows_between(l, a + 1, b)
    }
}

pub proof fn lemma_rows_split<L: ListSpec>(l: &L, a: int, m: int, b: int)
    requires
        a <= m <= b,
    ensures
        rows_between(l, a, b) == rows_between(l, a, m) + rows_between(l, m, b),
    decreases m - a,
{
    if a < m {
        lemma_rows_split(l, a + 1, m, b);
    }
}

pub proof fn lemma_rows_bounds<L: ListSpec>(l: &L, a: int, b: int)
    requires
        l.wf(),
        0 <= a <= b <= l.spec_len(),
    ensures
        b - a <= rows_between(l, a, b),
        0 <= rows_between(l, a, b),
    decreases b - a,
{
    if a < b {
        l.list_bounds();
        lemma_rows_bounds(l, a + 1, b);
    }
}

// --- The visible window ---------------------------------------------------
//
// The window is derived, never stored: given the hover position, the page
// size and the per-entry heights, it is the contiguous run of entries that
// gets rendered. It always contains the hovered entry, stays within the page
// budget (or the hovered entry's own height, if that alone is bigger), and
// prefers to keep the hovered entry vertically centered: first half the
// leftover budget is spent upwards, then everything left downwards, then any
// remainder upwards again.

/// Grow the window upward from `lo` while the next entry above fits in
/// `budget`.
pub open spec fn extend_up<L: ListSpec>(l: &L, lo: int, budget: int) -> int
    decreases lo when 0 <= lo
{
    if lo > 0 && l.spec_height_at(lo - 1) <= budget {
        extend_up(l, lo - 1, budget - l.spec_height_at(lo - 1))
    } else {
        lo
    }
}

/// Grow the window downward from `hi` while the next entry below fits in
/// `budget`.
pub open spec fn extend_down<L: ListSpec>(l: &L, hi: int, budget: int) -> int
    decreases l.spec_len() - hi when hi <= l.spec_len()
{
    if hi < l.spec_len() && l.spec_height_at(hi) <= budget {
        extend_down(l, hi + 1, budget - l.spec_height_at(hi))
    } else {
        hi
    }
}

/// The entry the window is anchored on: the hovered entry, or the last entry
/// while the hover position is the out-of-range sentinel.
pub open spec fn spec_anchor<L: ListSpec>(l: &L, at: int) -> int {
    if at < l.spec_len() {
        at
    } else {
        l.spec_len() - 1
    }
}

/// The row budget of one rendered page.
pub open spec fn spec_budget<L: ListSpec>(l: &L, at: int) -> int {
    let h0 = l.spec_height_at(spec_anchor(l, at)) as int;
    if h0 > l.spec_page_size() {
        h0
    } else {
        l.spec_page_size() as int
    }
}

/// The window of entries `[lo, hi)` that a render pass shows.
pub open spec fn spec_window<L: ListSpec>(l: &L, at: int) -> (int, int) {
    if l.spec_len() == 0 {
        (0, 0)
    } else {
        let anchor = spec_anchor(l, at);
        let h0 = l.spec_height_at(anchor);
        let budget = spec_budget(l, at);
        let lo1 = extend_up(l, anchor, (budget - h0) / 2);
        let used1 = h0 + rows_between(l, lo1, anchor);
        let hi = extend_down(l, anchor + 1, budget - used1);
        let used2 = used1 + rows_between(l, anchor + 1, hi);
        let lo = extend_up(l, lo1, budget - used2);
        (lo, hi)
    }
}

proof fn lemma_extend_up<L: ListSpec>(l: &L, lo: int, budget: int)
    requires
        l.wf(),
        0 <= lo <= l.spec_len(),
        0 <= budget,
    ensures
        0 <= extend_up(l, lo, budget) <= lo,
        rows_between(l, extend_up(l, lo, budget), lo) <= budget,
    decreases lo,
{
    if lo > 0 && l.spec_height_at(lo - 1) <= budget {
        l.list_bounds();
        lemma_extend_up(l, lo - 1, budget - l.spec_height_at(lo - 1));
        lemma_rows_split(l, extend_up(l, lo, budget), lo - 1, lo);
        assert(rows_between(l, lo - 1, lo) == l.spec_height_at(lo - 1) + rows_between(l, lo, lo));
    }
}

proof fn lemma_extend_down<L: ListSpec>(l: &L, hi: int, budget: int)
    requires
        l.wf(),
        0 <= hi <= l.spec_len(),
        0 <= budget,
    ensures
        hi <= extend_down(l, hi, budget) <= l.spec_len(),
        rows_between(l, hi, extend_down(l, hi, budget)) <= budget,
    decreases l.spec_len() - hi,
{
    if hi < l.spec_len() && l.spec_height_at(hi) <= budget {
        l.list_bounds();
        lemma_extend_down(l, hi + 1, budget - l.spec_height_at(hi));
        lemma_rows_split(l, hi, hi + 1, extend_down(l, hi, budget));
        assert(rows_between(l, hi, hi + 1) == l.spec_height_at(hi) + rows_between(l, hi + 1, hi + 1));
    }
}

/// The window always contains its anchor and never renders more rows than
/// its budget: one page, or the single hovered entry if that alone is
/// taller.
pub proof fn lemma_window_bounds<L: ListSpec>(l: &L, at: int)
    requires
        l.wf(),
        0 <= at,
        1 <= l.spec_len(),
    ensures
        ({
            let (lo, hi) = spec_window(l, at);
            &&& 0 <= lo <= spec_anchor(l, at) < hi <= l.spec_len()
            &&& 1 <= rows_between(l, lo, hi) <= spec_budget(l, at)
        }),
{
    let anchor = spec_anchor(l, at);
    let h0 = l.spec_height_at(anchor);
    let budget = spec_budget(l, at);
    l.list_bounds();
    let lo1 = extend_up(l, anchor, (budget - h0) / 2);
    lemma_extend_up(l, anchor, (budget - h0) / 2);
    let used1 = h0 + rows_between(l, lo1, anchor);
    let hi = extend_down(l, anchor + 1, budget - used1);
    lemma_extend_down(l, anchor + 1, budget - used1);
    let used2 = used1 + rows_between(l, anchor + 1, hi);
    let lo = extend_up(l, lo1, budget - used2);
    lemma_extend_up(l, lo1, budget - used2);
    lemma_rows_bounds(l, lo, lo1);
    lemma_rows_bounds(l, lo1, anchor);
    lemma_rows_bounds(l, anchor + 1, hi);
    lemma_rows_split(l, lo, lo1, anchor);
    lemma_rows_split(l, lo, anchor, anchor + 1);
    lemma_rows_split(l, lo, anchor + 1, hi);
    assert(rows_between(l, anchor, anchor + 1) == h0 + rows_between(l, anchor + 1, anchor + 1));
}

/// A list whose entries each fit on one page renders as at most one page of
/// rows, and never as zero rows.
pub proof fn lemma_select_height_bound<L: ListSpec>(s: &Select<L>, layout: Layout)
    requires
        s.wf(),
        forall|i: int|
            0 <= i < s.spec_list().spec_len() ==> #[trigger] s.spec_list().spec_height_at(i)
                <= s.spec_list().spec_page_size(),
    ensures
        1 <= s.spec_height(layout) <= 4096,
{
    s.spec_list().list_bounds();
    if s.spec_list().spec_len() > 0 {
        lemma_window_bounds(&s.spec_list(), s.spec_at() as int);
        assert(0 <= spec_anchor(&s.spec_list(), s.spec_at() as int) < s.spec_list().spec_len());
    }
}

proof fn lemma_extend_down_complete<L: ListSpec>(l: &L, hi: int, budget: int)
    requires
        l.wf(),
        0 <= hi <= l.spec_len(),
        rows_between(l, hi, l.spec_len() as int) <= budget,
    ensures
        extend_down(l, hi, budget) == l.spec_len(),
    decreases l.spec_len() - hi,
{
    let len = l.spec_len() as int;
    if hi < len {
        l.list_bounds();
        lemma_rows_split(l, hi, hi + 1, len);
        lemma_rows_bounds(l, hi + 1, len);
        assert(rows_between(l, hi, hi + 1) == l.spec_height_at(hi) + rows_between(l, hi + 1, hi + 1));
        lemma_extend_down_complete(l, hi + 1, budget - l.spec_height_at(hi));
    }
}

proof fn lemma_extend_up_complete<L: ListSpec>(l: &L, lo: int, budget: int)
    requires
        l.wf(),
        0 <= lo <= l.spec_len(),
        rows_between(l, 0, lo) <= budget,
    ensures
        extend_up(l, lo, budget) == 0,
    decreases lo,
{
    if lo > 0 {
        l.list_bounds();
        lemma_rows_split(l, 0, lo - 1, lo);
        lemma_rows_bounds(l, 0, lo - 1);
        assert(rows_between(l, lo - 1, lo) == l.spec_height_at(lo - 1) + rows_between(l, lo, lo));
        lemma_extend_up_complete(l, lo - 1, budget - l.spec_height_at(lo - 1));
    }
}

/// A list whose rendered rows all fit within one page is shown whole: the
/// window is the entire list, wherever the hover sits.
pub proof fn lemma_window_full_when_fits<L: ListSpec>(l: &L, at: int)
    requires
        l.wf(),
        0 <= at,
        1 <= l.spec_len(),
        rows_between(l, 0, l.spec_len() as int) <= l.spec_page_size(),
    ensures
        spec_window(l, at) == (0int, l.spec_len() as int),
{
    let len = l.spec_len() as int;
    let page = l.spec_page_size() as int;
    let anchor = spec_anchor(l, at);
    let h0 = l.spec_height_at(anchor) as int;
    l.list_bounds();
    // The hovered entry alone fits on the page, so the budget is the page.
    lemma_rows_split(l, 0, anchor, anchor + 1);
    lemma_rows_split(l, 0, anchor + 1, len);
    lemma_rows_bounds(l, 0, anchor);
    lemma_rows_bounds(l, anchor + 1, len);
    assert(rows_between(l, anchor, anchor + 1) == h0 + rows_between(l, anchor + 1, anchor + 1));
    assert(spec_budget(l, at) == page);
    let lo1 = extend_up(l, anchor, (page - h0) / 2);
    lemma_extend_up(l, anchor, (page - h0) / 2);
    let used1 = h0 + rows_between(l, lo1, anchor);
    // Everything below the anchor still fits in what is left of the page.
    lemma_rows_split(l, 0, lo1, anchor);
    lemma_rows_split(l, lo1, anchor, anchor + 1);
    lemma_rows_split(l, lo1, anchor + 1, len);
    lemma_rows_bounds(l, 0, lo1);
    lemma_extend_down_complete(l, anchor + 1, page - used1);
    let used2 = used1 + rows_between(l, anchor + 1, len);
    // And so does everything above the upper extension.
    lemma_extend_up_complete(l, lo1, page - used2);
}

// --- Hover-motion targets ---------------------------------------------------

/// Where "down" moves the hover from position `at` (the length sentinel means
/// "no hover": the move enters the list at its first selectable entry).
pub open spec fn spec_down<L: ListSpec>(l: &L, at: int) -> int {
    if at < l.spec_len() {
        next_sel(sel_mask(l), at, l.spec_should_loop())
    } else {
        match first_sel_from(sel_mask(l), 0) {
            Some(j) => j,
            None => at,
        }
    }
}

/// Where "up" moves the hover from position `at`.
pub open spec fn spec_up<L: ListSpec>(l: &L, at: int) -> int {
    if at < l.spec_len() {
        prev_sel(sel_mask(l), at, l.spec_should_loop())
    } else {
        match last_sel_before(sel_mask(l), l.spec_len() - 1) {
            Some(j) => j,
            None => at,
        }
    }
}

/// Where "home" moves the hover: the first selectable entry.
pub open spec fn spec_home<L: ListSpec>(l: &L, at: int) -> int {
    match first_sel_from(sel_mask(l), 0) {
        Some(j) => j,
        None => at,
    }
}

/// Where "end" moves the hover: the last selectable entry.
pub open spec fn spec_end<L: ListSpec>(l: &L, at: int) -> int {
    if l.spec_len() == 0 {
        at
    } else {
        match last_sel_before(sel_mask(l), l.spec_len() - 1) {
            Some(j) => j,
            None => at,
        }
    }
}

/// Walk downward from entry `j`, taking entries while their rendered rows fit
/// in `budget`.
pub open spec fn walk_down<L: ListSpec>(l: &L, j: int, budget: int) -> int
    decreases l.spec_len() - j when 0 <= j < l.spec_len()
{
    if j + 1 < l.spec_len() && l.spec_height_at(j + 1) <= budget {
        walk_down(l, j + 1, budget - l.spec_height_at(j + 1))
    } else {
        j
    }
}

/// Walk upward from entry `j`, symmetrically.
pub open spec fn walk_up<L: ListSpec>(l: &L, j: int, budget: int) -> int
    decreases j when 0 <= j < l.spec_len()
{
    if j >= 1 && l.spec_height_at(j - 1) <= budget {
        walk_up(l, j - 1, budget - l.spec_height_at(j - 1))
    } else {
        j
    }
}

/// Where "page down" moves the hover: about one page's worth of rendered rows
/// further down, snapped forward to a selectable entry (backward only when
/// nothing selectable lies below).
pub open spec fn spec_page_down<L: ListSpec>(l: &L, at: int) -> int {
    if l.spec_len() == 0 {
        at
    } else {
        let t = walk_down(l, spec_anchor(l, at), l.spec_page_size() as int);
        match first_sel_from(sel_mask(l), t) {
            Some(j) => j,
            None => match last_sel_before(sel_mask(l), t) {
                Some(j) => j,
                None => at,
            },
        }
    }
}

/// Where "page up" moves the hover, symmetrically (snapped backward first).
pub open spec fn spec_page_up<L: ListSpec>(l: &L, at: int) -> int {
    if l.spec_len() == 0 {
        at
    } else {
        let t = walk_up(l, spec_anchor(l, at), l.spec_page_size() as int);
        match last_sel_before(sel_mask(l), t) {
            Some(j) => j,
            None => match first_sel_from(sel_mask(l), t) {
                Some(j) => j,
                None => at,
            },
        }
    }
}

/// Where one key event moves the hover; keys the engine does not know leave
/// it in place.
pub open spec fn spec_nav_target<L: ListSpec>(l: &L, at: int, key: KeyEvent) -> int {
    match key.code {
        KeyCode::Up => spec_up(l, at),
        KeyCode::Down => spec_down(l, at),
        KeyCode::Home => spec_home(l, at),
        KeyCode::End => spec_end(l, at),
        KeyCode::PageUp => spec_page_up(l, at),
        KeyCode::PageDown => spec_page_down(l, at),
        _ => at,
    }
}

// --- The engine -------------------------------------------------------------

/// The paginated-list engine: selection, hover, wraparound and the scrolling
/// window, generic over anything that exposes the [`List`] contract.
///
/// The hover position is the engine's only state; the visible window is
/// derived from it on every render. The position always references a
/// selectable entry once one has been hovered; the list's length serves as an
/// explicit "nothing hovered" sentinel.
pub struct Select<L> {
    list: L,
    at: usize,
}

impl<L: ListSpec> Select<L> {
    pub closed spec fn spec_list(&self) -> L {
        self.list
    }

    pub closed spec fn spec_at(&self) -> usize {
        self.at
    }

    /// A new engine over `list`, hovering its first selectable entry, or
    /// carrying the sentinel when nothing is selectable.
    pub fn new(list: L) -> (s: Select<L>)
        requires
            list.wf(),
        ensures
            s.wf(),
            s.spec_list() == list,
            s.spec_at() as int == (match first_sel_from(sel_mask(&list), 0) {
                Some(j) => j,
                None => list.spec_len() as int,
            }),
            s.spec_at() < list.spec_len() ==> list.spec_selectable(s.spec_at() as int),
    {
        let mut s = Select { list, at: 0 };
        let t = match s.first_selectable_from(0) {
            Some(j) => j,
            None => s.list.len(),
        };
        s.at = t;
        s
    }

    pub fn list(&self) -> (r: &L)
        ensures
            r == self.spec_list(),
    {
        &self.list
    }

    /// Hand the underlying list back.
    pub fn into_inner(self) -> (r: L)
        ensures
            r == self.spec_list(),
    {
        self.list
    }

    pub fn get_at(&self) -> (r: usize)
        ensures
            r == self.spec_at(),
    {
        self.at
    }

    /// Borrow the underlying list mutably. The engine's hover position stays
    /// where it was, so a caller that changes the list's length must park the
    /// hover again itself.
    pub fn list_mut(&mut self) -> (r: &mut L)
        ensures
            *r == old(self).spec_list(),
            final(self).spec_list() == *final(r),
            final(self).spec_at() == old(self).spec_at(),
    {
        &mut self.list
    }

    /// Move the hover. The list's length is the "nothing hovered" sentinel.
    pub fn set_at(&mut self, at: usize)
        requires
            old(self).spec_list().wf(),
            at <= old(self).spec_list().spec_len(),
        ensures
            final(self).wf(),
            final(self).spec_list() == old(self).spec_list(),
            final(self).spec_at() == at,
    {
        self.at = at;
    }

    /// The first selectable entry at or after `start`, scanning forward.
    #[verifier::loop_isolation(false)]
    fn first_selectable_from(&self, start: usize) -> (r: Option<usize>)
        requires
            self.list.wf(),
            start <= self.list.spec_len(),
        ensures
            match r {
                Some(j) => first_sel_from(sel_mask(&self.list), start as int) == Some(j as int)
                    && j < self.list.spec_len() && self.list.spec_selectable(j as int),
                None => first_sel_from(sel_mask(&self.list), start as int) is None,
            },
    {
        let ghost s = sel_mask(&self.list);
        let len = self.list.len();
        let mut i = start;
        while i < len
            invariant
                self.list.wf(),
                s == sel_mask(&self.list),
                len == self.list.spec_len(),
                start <= i <= len,
                first_sel_from(s, start as int) == first_sel_from(s, i as int),
            decreases len - i,
        {
            if self.list.is_selectable(i) {
                return Some(i);
            }
            i = i + 1;
        }
        None
    }

    /// The last selectable entry at or before `start`, scanning backward.
    #[verifier::loop_isolation(false)]
    fn last_selectable_from(&self, start: usize) -> (r: Option<usize>)
        requires
            self.list.wf(),
            start < self.list.spec_len(),
        ensures
            match r {
                Some(j) => last_sel_before(sel_mask(&self.list), start as int) == Some(j as int)
                    && j < self.list.spec_len() && self.list.spec_selectable(j as int),
                None => last_sel_before(sel_mask(&self.list), start as int) is None,
            },
    {
        let ghost s = sel_mask(&self.list);
        let mut i = start;
        loop
            invariant
                self.list.wf(),
                s == sel_mask(&self.list),
                0 <= i <= start < self.list.spec_len(),
                last_sel_before(s, start as int) == last_sel_before(s, i as int),
            decreases i,
        {
            if self.list.is_selectable(i) {
                return Some(i);
            }
            if i == 0 {
                proof {
                    assert(!s[0]);
                    assert(last_sel_before(s, 0) == last_sel_before(s, -1));
                    assert(last_sel_before(s, -1) is None);
                }
                return None;
            }
            i = i - 1;
        }
    }

    fn down_target(&self) -> (r: usize)
        requires
            self.wf(),
        ensures
            r as int == spec_down(&self.list, self.at as int),
            r != self.spec_at() ==> r < self.list.spec_len() && self.list.spec_selectable(r as int),
    {
        let len = self.list.len();
        if self.at >= len {
            match self.first_selectable_from(0) {
                Some(j) => j,
                None => self.at,
            }
        } else {
            match self.first_selectable_from(self.at + 1) {
                Some(j) => j,
                None => {
                    if self.list.should_loop() {
                        match self.first_selectable_from(0) {
                            Some(j) => j,
                            None => self.at,
                        }
                    } else {
                        self.at
                    }
                },
            }
        }
    }

    fn up_target(&self) -> (r: usize)
        requires
            self.wf(),
        ensures
            r as int == spec_up(&self.list, self.at as int),
            r != self.spec_at() ==> r < self.list.spec_len() && self.list.spec_selectable(r as int),
    {
        let len = self.list.len();
        if self.at >= len {
            if len == 0 {
                self.at
            } else {
                match self.last_selectable_from(len - 1) {
                    Some(j) => j,
                    None => self.at,
                }
            }
        } else if self.at == 0 {
            if self.list.should_loop() {
                match self.last_selectable_from(len - 1) {
                    Some(j) => j,
                    None => self.at,
                }
            } else {
                self.at
            }
        } else {
            match self.last_selectable_from(self.at - 1) {
                Some(j) => j,
                None => {
                    if self.list.should_loop() {
                        match self.last_selectable_from(len - 1) {
                            Some(j) => j,
                            None => self.at,
                        }
                    } else {
                        self.at
                    }
                },
            }
        }
    }

    #[verifier::loop_isolation(false)]
    fn page_down_target(&self) -> (r: usize)
        requires
            self.wf(),
        ensures
            r as int == spec_page_down(&self.list, self.at as int),
            r != self.spec_at() ==> r < self.list.spec_len() && self.list.spec_selectable(r as int),
    {
        let len = self.list.len();
        if len == 0 {
            return self.at;
        }
        proof {
            self.list.list_bounds();
        }
        let start = if self.at < len {
            self.at
        } else {
            len - 1
        };
        let page = self.list.page_size();
        let ghost page0 = page as int;
        let mut j = start;
        let mut b: u32 = page as u32;
        while j + 1 < len && self.list.height_at(j + 1) as u32 <= b
            invariant
                self.wf(),
                len == self.list.spec_len(),
                start <= j < len,
                walk_down(&self.list, start as int, page0) == walk_down(&self.list, j as int, b as int),
            decreases len - j,
        {
            b = b - self.list.height_at(j + 1) as u32;
            j = j + 1;
        }
        match self.first_selectable_from(j) {
            Some(t) => t,
            None => match self.last_selectable_from(j) {
                Some(t) => t,
                None => self.at,
            },
        }
    }

    #[verifier::loop_isolation(false)]
    fn page_up_target(&self) -> (r: usize)
        requires
            self.wf(),
        ensures
            r as int == spec_page_up(&self.list, self.at as int),
            r != self.spec_at() ==> r < self.list.spec_len() && self.list.spec_selectable(r as int),
    {
        let len = self.list.len();
        if len == 0 {
            return self.at;
        }
        proof {
            self.list.list_bounds();
        }
        let start = if self.at < len {
            self.at
        } else {
            len - 1
        };
        let page = self.list.page_size();
        let ghost page0 = page as int;
        let mut j = start;
        let mut b: u32 = page as u32;
        while j >= 1 && self.list.height_at(j - 1) as u32 <= b
            invariant
                self.wf(),
                len == self.list.spec_len(),
                0 <= j <= start < len,
                walk_up(&self.list, start as int, page0) == walk_up(&self.list, j as int, b as int),
            decreases j,
        {
            b = b - self.list.height_at(j - 1) as u32;
            j = j - 1;
        }
        match self.last_selectable_from(j) {
            Some(t) => t,
            None => match self.first_selectable_from(j) {
                Some(t) => t,
                None => self.at,
            },
        }
    }

    /// Consume one navigation key: Up, Down, Home, End, PageUp, PageDown.
    /// Returns true iff the hover moved; at a boundary of a non-looping list
    /// the key is a no-op and reported unhandled.
    pub fn handle_nav_key(&mut self, key: KeyEvent) -> (changed: bool)
        requires
            old(self).wf(),
        ensures
            final(self).wf(),
            final(self).spec_list() == old(self).spec_list(),
            final(self).spec_at() as int == spec_nav_target(
                &old(self).spec_list(),
                old(self).spec_at() as int,
                key,
            ),
            changed == (final(self).spec_at() != old(self).spec_at()),
            changed ==> final(self).spec_at() < old(self).spec_list().spec_len() && old(
                self,
            ).spec_list().spec_selectable(final(self).spec_at() as int),
            !changed ==> *final(self) == *old(self),
    {
        let t: usize = match key.code {
            KeyCode::Up => self.up_target(),
            KeyCode::Down => self.down_target(),
            KeyCode::Home => {
                match self.first_selectable_from(0) {
                    Some(j) => j,
                    None => self.at,
                }
            },
            KeyCode::End => {
                let len = self.list.len();
                if len == 0 {
                    self.at
                } else {
                    match self.last_selectable_from(len - 1) {
                        Some(j) => j,
                        None => self.at,
                    }
                }
            },
            KeyCode::PageUp => self.page_up_target(),
            KeyCode::PageDown => self.page_down_target(),
            _ => self.at,
        };
        if t != self.at {
            self.at = t;
            true
        } else {
            false
        }
    }

    /// The window of entries a render pass shows, with its total rendered
    /// rows: `(low, high, rows)`.
    #[verifier::loop_isolation(false)]
    fn visible_window(&self) -> (w: (usize, usize, u16))
        requires
            self.wf(),
            1 <= self.list.spec_len(),
        ensures
            ({
                let (lo, hi) = spec_window(&self.list, self.at as int);
                &&& w.0 == lo
                &&& w.1 == hi
                &&& w.2 == rows_between(&self.list, lo, hi)
            }),
    {
        proof {
            self.list.list_bounds();
            lemma_window_bounds(&self.list, self.at as int);
        }
        let len = self.list.len();
        let anchor = if self.at < len {
            self.at
        } else {
            len - 1
        };
        let h0 = self.list.height_at(anchor);
        let page = self.list.page_size();
        let budget: u32 = if h0 as u32 > page as u32 {
            h0 as u32
        } else {
            page as u32
        };
        proof {
            assert(budget as int == spec_budget(&self.list, self.at as int));
        }
        // First, spend half the leftover budget upward of the anchor.
        let mut lo: usize = anchor;
        let mut b1: u32 = (budget - h0 as u32) / 2;
        let ghost b1_0 = b1 as int;
        proof {
            lemma_extend_up(&self.list, lo as int, b1 as int);
        }
        while lo > 0 && self.list.height_at(lo - 1) as u32 <= b1
            invariant
                self.wf(),
                len == self.list.spec_len(),
                0 <= lo <= anchor < len,
                b1 <= b1_0,
                extend_up(&self.list, anchor as int, b1_0) == extend_up(&self.list, lo as int, b1 as int),
                b1 as int == b1_0 - rows_between(&self.list, lo as int, anchor as int),
            decreases lo,
        {
            proof {
                lemma_rows_split(&self.list, lo as int - 1, lo as int, anchor as int);
                assert(rows_between(&self.list, lo as int - 1, lo as int) == self.list.spec_height_at(
                    lo as int - 1,
                ) + rows_between(&self.list, lo as int, lo as int));
            }
            b1 = b1 - self.list.height_at(lo - 1) as u32;
            lo = lo - 1;
        }
        let used1: u32 = h0 as u32 + ((budget - h0 as u32) / 2 - b1);
        let ghost lo1 = lo as int;
        // Then spend what is left downward.
        let mut hi: usize = anchor + 1;
        let mut b2: u32 = budget - used1;
        let b2_start = b2;
        let ghost b2_0 = b2 as int;
        while hi < len && self.list.height_at(hi) as u32 <= b2
            invariant
                self.wf(),
                len == self.list.spec_len(),
                anchor < hi <= len,
                b2 <= b2_0,
                extend_down(&self.list, anchor as int + 1, b2_0) == extend_down(&self.list, hi as int, b2 as int),
                b2 as int == b2_0 - rows_between(&self.list, anchor as int + 1, hi as int),
            decreases len - hi,
        {
            proof {
                lemma_rows_split(&self.list, anchor as int + 1, hi as int, hi as int + 1);
                assert(rows_between(&self.list, hi as int, hi as int + 1) == self.list.spec_height_at(
                    hi as int,
                ) + rows_between(&self.list, hi as int + 1, hi as int + 1));
            }
            b2 = b2 - self.list.height_at(hi) as u32;
            hi = hi + 1;
        }
        // Finally, spend any remainder upward again.
        let used2: u32 = used1 + (b2_start - b2);
        let mut b3: u32 = budget - used2;
        let ghost b3_0 = b3 as int;
        let ghost lo_mid = lo as int;
        while lo > 0 && self.list.height_at(lo - 1) as u32 <= b3
            invariant
                self.wf(),
                len == self.list.spec_len(),
                0 <= lo <= lo_mid <= anchor < len,
                b3 <= b3_0,
                extend_up(&self.list, lo_mid, b3_0) == extend_up(&self.list, lo as int, b3 as int),
                b3 as int == b3_0 - rows_between(&self.list, lo as int, lo_mid),
            decreases lo,
        {
            proof {
                lemma_rows_split(&self.list, lo as int - 1, lo as int, lo_mid);
                assert(rows_between(&self.list, lo as int - 1, lo as int) == self.list.spec_height_at(
                    lo as int - 1,
                ) + rows_between(&self.list, lo as int, lo as int));
            }
            b3 = b3 - self.list.height_at(lo - 1) as u32;
            lo = lo - 1;
        }
        let rows: u32 = budget - b3;
        proof {
            lemma_rows_split(&self.list, lo as int, lo_mid, anchor as int);
            lemma_rows_split(&self.list, lo as int, anchor as int, anchor as int + 1);
            lemma_rows_split(&self.list, lo as int, anchor as int + 1, hi as int);
            assert(rows_between(&self.list, anchor as int, anchor as int + 1) == h0
                + rows_between(&self.list, anchor as int + 1, anchor as int + 1));
        }
        (lo, hi, rows as u16)
    }
}

impl<L: ListSpec> WidgetSpec for Select<L> {
    open spec fn wf(&self) -> bool {
        &&& self.spec_list().wf()
        &&& self.spec_at() <= self.spec_list().spec_len()
    }

    open spec fn spec_height(&self, layout: Layout) -> u16 {
        if self.spec_list().spec_len() == 0 {
            1
        } else {
            rows_between(
                &self.spec_list(),
                spec_window(&self.spec_list(), self.spec_at() as int).0,
                spec_window(&self.spec_list(), self.spec_at() as int).1,
            ) as u16
        }
    }

    proof fn height_bounds(&self, layout: Layout) {
        if self.list.spec_len() > 0 {
            self.list.list_bounds();
            lemma_window_bounds(&self.list, self.at as int);
        }
    }

    proof fn height_ignores_position(&self, a: Layout, b: Layout) {
    }
}

impl<L: List<B>, B: Backend> Widget<B> for Select<L> {
    fn height(&self, layout: Layout) -> (h: u16) {
        let len = self.list.len();
        if len == 0 {
            1
        } else {
            proof {
                self.list.list_bounds();
                lemma_window_bounds(&self.list, self.at as int);
            }
            let (_, _, rows) = self.visible_window();
            rows
        }
    }

    #[verifier::loop_isolation(false)]
    fn render(&self, layout: Layout, b: &mut B) -> (r: Result<(), ErrorKind>) {
        let len = self.list.len();
        if len == 0 {
            return Ok(());
        }
        proof {
            self.list.list_bounds();
            lemma_window_bounds(&self.list, self.at as int);
        }
        let (lo, hi, rows) = self.visible_window();
        let ghost l = &self.list;
        let mut row: u16 = layout.offset_y;
        let mut i = lo;
        while i < hi
            invariant
                self.wf(),
                layout.wf(),
                len == self.list.spec_len(),
                (lo as int, hi as int) == spec_window(&self.list, self.at as int),
                0 <= lo <= i <= hi <= len,
                lo < hi,
                rows == rows_between(&self.list, lo as int, hi as int),
                layout.offset_y + rows <= layout.height,
                row as int == layout.offset_y + rows_between(&self.list, lo as int, i as int),
                b.inv(),
                b.term_size() == old(b).term_size(),
                b.raw_mode() == old(b).raw_mode(),
                b.cursor_visible() == old(b).cursor_visible(),
                i > lo ==> b.cursor().1 == row - 1,
                i == lo ==> b.cursor().1 == layout.offset_y,
            decreases hi - i,
        {
            proof {
                lemma_rows_split(&self.list, lo as int, i as int, hi as int);
                lemma_rows_split(&self.list, i as int, i as int + 1, hi as int);
                lemma_rows_bounds(&self.list, i as int + 1, hi as int);
                lemma_rows_bounds(&self.list, lo as int, i as int);
                assert(rows_between(&self.list, i as int, i as int + 1) == self.list.spec_height_at(
                    i as int,
                ) + rows_between(&self.list, i as int + 1, i as int + 1));
            }
            let h = self.list.height_at(i);
            b.move_cursor_to(layout.offset_x, row)?;
            let item_layout = Layout { offset_y: row, ..layout };
            self.list.render_item(i, i == self.at, item_layout, b)?;
            proof {
                lemma_rows_split(&self.list, lo as int, i as int, i as int + 1);
            }
            row = row + h - 1 + 1;
            i = i + 1;
        }
        Ok(())
    }

    fn handle_key(&mut self, key: KeyEvent) -> (changed: bool) {
        self.handle_nav_key(key)
    }

    fn cursor_pos(&self, layout: Layout) -> (pos: (u16, u16)) {
        let len = self.list.len();
        if len == 0 {
            (0, 0)
        } else {
            proof {
                self.list.list_bounds();
                lemma_window_bounds(&self.list, self.at as int);
            }
            let (_, _, rows) = self.visible_window();
            (0, rows - 1)
        }
    }
}

} // verus!
