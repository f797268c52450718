//! Page numbering: a NewNumber control resets the page number once, on the
//! page where its owning paragraph first appears; every other page takes the
//! previous number plus one.
//!
//! A paragraph first appears on a page that holds it whole, its first lines,
//! a table it owns, the first rows of such a table, or a shape it owns.

use std::collections::HashSet;

use crate::renderer::pagination::{PageContent, PageItem};
use vstd::prelude::*;

verus! {

broadcast use vstd::std_specs::hash::group_hash_axioms;

/// Assigns page numbers: one-shot NewNumber resets, then one more per page.
pub struct PageNumberAssigner<'a> {
    new_page_numbers: &'a [(usize, u16)],
    consumed: HashSet<usize>,
    counter: u32,
    /// Some NewNumber has fired; until then pages of a document that has
    /// NewNumbers show no number.
    numbering_started: bool,
}

/// An item shows that paragraph `pi` first appears on its page.
pub open spec fn item_starts(item: PageItem, pi: usize) -> bool {
    match item {
        PageItem::FullParagraph { para_index } => para_index == pi,
        PageItem::PartialParagraph { para_index, start_line, .. } => para_index == pi && start_line
            == 0,
        PageItem::Table { para_index, .. } => para_index == pi,
        PageItem::PartialTable { para_index, is_continuation, .. } => para_index == pi
            && !is_continuation,
        PageItem::Shape { para_index, .. } => para_index == pi,
        PageItem::EndnoteSeparator { .. } => false,
    }
}

/// Paragraph `pi` first appears on `page`.
pub open spec fn first_appears(page: PageContent, pi: usize) -> bool {
    exists|c: int, i: int|
        0 <= c < page.column_contents@.len() && 0 <= i < page.column_contents@[c].items@.len()
            && item_starts(#[trigger] page.column_contents@[c].items@[i], pi)
}

impl<'a> PageNumberAssigner<'a> {
    /// The NewNumbers, as (owning paragraph, new number).
    pub closed spec fn new_numbers(&self) -> Seq<(usize, u16)> {
        self.new_page_numbers@
    }

    /// The NewNumbers already applied, by index.
    pub closed spec fn consumed_set(&self) -> Set<usize> {
        self.consumed@
    }

    /// The number the next page gets unless a NewNumber fires on it.
    pub closed spec fn counter_value(&self) -> u32 {
        self.counter
    }

    /// Some NewNumber has fired.
    pub closed spec fn started(&self) -> bool {
        self.numbering_started
    }

    /// NewNumber `i` fires on `page`: not applied yet, and its paragraph
    /// first appears there.
    pub open spec fn fires(&self, page: PageContent, i: int) -> bool {
        0 <= i < self.new_numbers().len() && !self.consumed_set().contains(i as usize)
            && first_appears(page, self.new_numbers()[i].0)
    }

    /// The number set by the first `n` NewNumbers on `page`: the last one
    /// that fires wins, else the running counter.
    pub open spec fn number_after(&self, page: PageContent, n: int) -> u32
        decreases n,
    {
        if n <= 0 {
            self.counter_value()
        } else if self.fires(page, n - 1) {
            self.new_numbers()[n - 1].1 as u32
        } else {
            self.number_after(page, n - 1)
        }
    }

    /// The number `page` receives.
    pub open spec fn page_number(&self, page: PageContent) -> u32 {
        self.number_after(page, self.new_numbers().len() as int)
    }

    /// Some NewNumber fires on `page`.
    pub open spec fn any_fires(&self, page: PageContent) -> bool {
        exists|i: int| #[trigger] self.fires(page, i)
    }

    /// `after` is `before` once `page` has been numbered `r`.
    pub open spec fn assigned(before: Self, page: PageContent, after: Self, r: u32) -> bool {
        &&& r == before.page_number(page)
        &&& after.new_numbers() == before.new_numbers()
        &&& after.counter_value() == r + 1
        &&& after.consumed_set() == before.consumed_set().union(
            Set::new(|k: usize| before.fires(page, k as int)),
        )
        &&& after.started() == (before.started() || before.any_fires(page))
    }

    /// An assigner starting at `initial`, with nothing applied yet.
    pub fn new(new_page_numbers: &'a [(usize, u16)], initial: u32) -> (r: Self)
        ensures
            r.new_numbers() == new_page_numbers@,
            r.consumed_set() == Set::<usize>::empty(),
            r.counter_value() == initial,
            !r.started(),
    {
        PageNumberAssigner {
            new_page_numbers,
            consumed: HashSet::new(),
            counter: initial,
            numbering_started: false,
        }
    }

    /// Numbers `page` and moves the counter on by one. When several
    /// NewNumbers fire on one page the last of them applies.
    pub fn assign(&mut self, page: &PageContent) -> (r: u32)
        requires
            old(self).page_number(*page) < u32::MAX,
        ensures
            Self::assigned(*old(self), *page, *final(self), r),
    {
        let ghost before = *self;
        let n = self.new_page_numbers.len();
        for idx in 0..n
            invariant
                n == before.new_numbers().len(),
                self.new_page_numbers@ == before.new_page_numbers@,
                self.counter == before.number_after(*page, idx as int),
                self.consumed@ == before.consumed@.union(
                    Set::new(|k: usize| (k as int) < idx && before.fires(*page, k as int)),
                ),
                self.numbering_started == (before.numbering_started || exists|k: int|
                    0 <= k < idx && #[trigger] before.fires(*page, k)),
        {
            let (nn_pi, nn_num) = self.new_page_numbers[idx];
            let ghost prev_consumed = self.consumed@;
            if !self.consumed.contains(&idx) {
                proof {
                    assert(!before.consumed@.contains(idx));
                }
                if Self::para_first_appears(page, nn_pi) {
                    self.counter = nn_num as u32;
                    self.consumed.insert(idx);
                    self.numbering_started = true;
                }
            } else {
                proof {
                    assert(before.consumed@.contains(idx) || (idx as int) < idx);
                }
            }
            proof {
                assert(self.consumed@ =~= before.consumed@.union(
                    Set::new(|k: usize| (k as int) < idx + 1 && before.fires(*page, k as int)),
                ));
            }
        }
        proof {
            assert(self.consumed@ =~= before.consumed@.union(
                Set::new(|k: usize| before.fires(*page, k as int)),
            ));
            if before.any_fires(*page) {
                let k = choose|k: int| #[trigger] before.fires(*page, k);
                assert(0 <= k < n);
            }
        }
        let assigned = self.counter;
        self.counter += 1;
        assigned
    }

    /// The number the next page gets (carried into the next section).
    pub fn next_counter(&self) -> (r: u32)
        ensures
            r == self.counter_value(),
    {
        self.counter
    }

    /// The page shows no number: there are NewNumbers and none has fired yet.
    pub fn should_hide_page_number(&self) -> (r: bool)
        ensures
            r == (self.new_numbers().len() > 0 && !self.started()),
    {
        self.new_page_numbers.len() > 0 && !self.numbering_started
    }

    fn para_first_appears(page: &PageContent, target_pi: usize) -> (r: bool)
        ensures
            r == first_appears(*page, target_pi),
    {
        for c in 0..page.column_contents.len()
            invariant
                forall|c2: int, i2: int|
                    0 <= c2 < c && 0 <= i2 < page.column_contents@[c2].items@.len() ==> !item_starts(
                        #[trigger] page.column_contents@[c2].items@[i2],
                        target_pi,
                    ),
        {
            let col = &page.column_contents[c];
            for i in 0..col.items.len()
                invariant
                    c < page.column_contents@.len(),
                    *col == page.column_contents@[c as int],
                    forall|c2: int, i2: int|
                        0 <= c2 < c && 0 <= i2 < page.column_contents@[c2].items@.len()
                            ==> !item_starts(
                            #[trigger] page.column_contents@[c2].items@[i2],
                            target_pi,
                        ),
                    forall|i2: int|
                        0 <= i2 < i ==> !item_starts(#[trigger] col.items@[i2], target_pi),
            {
                let hit = match &col.items[i] {
                    PageItem::FullParagraph { para_index } => *para_index == target_pi,
                    PageItem::PartialParagraph { para_index, start_line, .. } => *para_index
                        == target_pi && *start_line == 0,
                    PageItem::Table { para_index, .. } => *para_index == target_pi,
                    PageItem::PartialTable { para_index, is_continuation, .. } => *para_index
                        == target_pi && !*is_continuation,
                    PageItem::Shape { para_index, .. } => *para_index == target_pi,
                    PageItem::EndnoteSeparator { .. } => false,
                };
                if hit {
                    assert(item_starts(page.column_contents@[c as int].items@[i as int], target_pi));
                    return true;
                }
            }
        }
        false
    }
}

/// A NewNumber applies at most once: one that fired on a page never fires
/// again, on any later page.
pub proof fn law_new_number_applies_once(
    a0: PageNumberAssigner,
    page: PageContent,
    a1: PageNumberAssigner,
    r: u32,
    later: PageContent,
    i: usize,
)
    requires
        PageNumberAssigner::assigned(a0, page, a1, r),
        a0.fires(page, i as int),
    ensures
        !a1.fires(later, i as int),
{
    assert(a1.consumed_set().contains(i));
}

/// Applied NewNumbers stay applied.
pub proof fn law_consumed_grows(a0: PageNumberAssigner, page: PageContent, a1: PageNumberAssigner, r: u32)
    requires
        PageNumberAssigner::assigned(a0, page, a1, r),
    ensures
        a0.consumed_set().subset_of(a1.consumed_set()),
{
}

/// A page on which no NewNumber fires gets the previous page's number plus one.
pub proof fn law_plain_page_counts_on(
    a0: PageNumberAssigner,
    p1: PageContent,
    a1: PageNumberAssigner,
    r1: u32,
    p2: PageContent,
    a2: PageNumberAssigner,
    r2: u32,
)
    requires
        PageNumberAssigner::assigned(a0, p1, a1, r1),
        PageNumberAssigner::assigned(a1, p2, a2, r2),
        !a1.any_fires(p2),
    ensures
        r2 == r1 + 1,
{
    lemma_number_after_plain(a1, p2, a1.new_numbers().len() as int);
}

proof fn lemma_number_after_plain(a: PageNumberAssigner, page: PageContent, n: int)
    requires
        !a.any_fires(page),
    ensures
        a.number_after(page, n) == a.counter_value(),
    decreases n,
{
    if n > 0 {
        assert(!a.fires(page, n - 1));
        lemma_number_after_plain(a, page, n - 1);
    }
}

/// When NewNumbers fire on a page, the page gets the number of the last one
/// that fires.
pub proof fn law_last_new_number_wins(a: PageNumberAssigner, page: PageContent, i: int)
    requires
        a.fires(page, i),
        forall|j: int| i < j ==> !#[trigger] a.fires(page, j),
    ensures
        a.page_number(page) == a.new_numbers()[i].1 as u32,
{
    lemma_number_after_last(a, page, i, a.new_numbers().len() as int);
}

proof fn lemma_number_after_last(a: PageNumberAssigner, page: PageContent, i: int, n: int)
    requires
        a.fires(page, i),
        i < n,
        forall|j: int| i < j ==> !#[trigger] a.fires(page, j),
    ensures
        a.number_after(page, n) == a.new_numbers()[i].1 as u32,
    decreases n,
{
    if n - 1 > i {
        assert(!a.fires(page, n - 1));
        lemma_number_after_last(a, page, i, n - 1);
    }
}

/// Once a NewNumber has fired, page numbers are shown from then on.
pub proof fn law_numbering_stays_started(
    a0: PageNumberAssigner,
    page: PageContent,
    a1: PageNumberAssigner,
    r: u32,
)
    requires
        PageNumberAssigner::assigned(a0, page, a1, r),
        a0.started() || a0.any_fires(page),
    ensures
        a1.started(),
{
}


/// The page number is hidden: there are NewNumbers and none has fired.
pub open spec fn number_hidden(a: PageNumberAssigner) -> bool {
    a.new_numbers().len() > 0 && !a.started()
}

/// Numbering a page hides the next page's number exactly when it was hidden
/// and no NewNumber fired on the page: the number stays hidden until the
/// first NewNumber fires, and is never hidden again after.
pub proof fn law_hidden_until_a_new_number_fires(
    a0: PageNumberAssigner,
    page: PageContent,
    a1: PageNumberAssigner,
    r: u32,
)
    requires
        PageNumberAssigner::assigned(a0, page, a1, r),
    ensures
        number_hidden(a1) == (number_hidden(a0) && !a0.any_fires(page)),
        !number_hidden(a0) ==> !number_hidden(a1),
{
}

/// Over a sequence of pages: with `states[k]` the assigner before page `k`
/// and `states[k + 1]` the one after it, the number is hidden before page
/// `k` exactly when it was hidden at the start and no NewNumber fired on an
/// earlier page.
pub proof fn law_hidden_over_pages(
    states: Seq<PageNumberAssigner>,
    pages: Seq<PageContent>,
    numbers: Seq<u32>,
    k: int,
)
    requires
        states.len() == pages.len() + 1,
        numbers.len() == pages.len(),
        forall|j: int|
            0 <= j < pages.len() ==> PageNumberAssigner::assigned(
                states[j],
                #[trigger] pages[j],
                states[j + 1],
                numbers[j],
            ),
        0 <= k <= pages.len(),
    ensures
        number_hidden(states[k]) == (number_hidden(states[0]) && forall|j: int|
            0 <= j < k ==> !#[trigger] states[j].any_fires(pages[j])),
    decreases k,
{
    if k > 0 {
        law_hidden_over_pages(states, pages, numbers, k - 1);
        law_hidden_until_a_new_number_fires(states[k - 1], pages[k - 1], states[k], numbers[k - 1]);
    }
}


/// An item is a first appearance of paragraph `pi`: the whole paragraph, its
/// first lines, a table of it, the first rows of a table of it, or a shape
/// of it; never later lines, a continued table or the endnote rule.
pub proof fn law_first_appearance_items(page: PageContent, pi: usize)
    ensures
        first_appears(page, pi) <==> exists|c: int, i: int|
            0 <= c < page.column_contents@.len() && 0 <= i < page.column_contents@[c].items@.len() && {
                let item = #[trigger] page.column_contents@[c].items@[i];
                ||| item == (PageItem::FullParagraph { para_index: pi })
                ||| item matches PageItem::PartialParagraph { para_index, start_line, .. } && para_index == pi
                    && start_line == 0
                ||| item matches PageItem::Table { para_index, .. } && para_index == pi
                ||| item matches PageItem::PartialTable { para_index, is_continuation, .. } && para_index == pi
                    && !is_continuation
                ||| item matches PageItem::Shape { para_index, .. } && para_index == pi
            },
{
}

/// A page holding a paragraph whole fires the paragraph's pending
/// NewNumber: when NewNumber `k` (paragraph `p`, number `n`) has not been
/// applied, the page holds `FullParagraph { para_index: p }`, and no later
/// NewNumber fires there, the page is numbered `n` and numbering has
/// started, so page numbers show from then on.
pub proof fn law_whole_paragraph_fires_its_new_number(
    a0: PageNumberAssigner,
    page: PageContent,
    a1: PageNumberAssigner,
    r: u32,
    k: int,
    c: int,
    i: int,
)
    requires
        PageNumberAssigner::assigned(a0, page, a1, r),
        0 <= k < a0.new_numbers().len(),
        !a0.consumed_set().contains(k as usize),
        0 <= c < page.column_contents@.len(),
        0 <= i < page.column_contents@[c].items@.len(),
        page.column_contents@[c].items@[i] == (PageItem::FullParagraph { para_index: a0.new_numbers()[k].0 }),
        forall|j: int| k < j ==> !#[trigger] a0.fires(page, j),
    ensures
        r == a0.new_numbers()[k].1 as u32,
        a1.started(),
        !number_hidden(a1),
{
    assert(item_starts(page.column_contents@[c].items@[i], a0.new_numbers()[k].0));
    assert(a0.fires(page, k));
    law_last_new_number_wins(a0, page, k);
}

} // verus!
