//! What holds of the page table over several operations.

use vstd::prelude::*;

use crate::page_table::{
    is_eviction, is_listing, listed_before, older, texts, PageEntry, Pages, Parked, MAX_PAGES,
};
use crate::text::{lemma_text_before_total, text_before};

verus! {

proof fn lemma_remove_keys_len<S>(pages: Pages<S>, gone: Seq<Seq<char>>)
    requires
        pages.dom().finite(),
        gone.no_duplicates(),
        forall|i: int| 0 <= i < gone.len() ==> pages.dom().contains(#[trigger] gone[i]),
    ensures
        pages.remove_keys(gone.to_set()).dom().finite(),
        pages.remove_keys(gone.to_set()).len() == pages.len() - gone.len(),
    decreases gone.len(),
{
    if gone.len() == 0 {
        assert(gone.to_set() =~= Set::empty());
        assert(pages.remove_keys(gone.to_set()) =~= pages);
    } else {
        let init = gone.drop_last();
        assert forall|i: int| 0 <= i < init.len() implies pages.dom().contains(
            #[trigger] init[i],
        ) by {
            assert(init[i] == gone[i]);
        }
        lemma_remove_keys_len(pages, init);
        let most = pages.remove_keys(init.to_set());
        assert(!init.contains(gone.last()));
        assert(most.dom().contains(gone.last()));
        assert forall|page: Seq<char>| #[trigger] gone.contains(page) == (init.contains(page)
            || page == gone.last()) by {
            if gone.contains(page) {
                let i = choose|i: int| 0 <= i < gone.len() && gone[i] == page;
                if i < init.len() {
                    assert(init[i] == page);
                }
            }
            if init.contains(page) {
                let i = choose|i: int| 0 <= i < init.len() && init[i] == page;
                assert(gone[i] == page);
            }
            if page == gone.last() {
                assert(gone[gone.len() - 1] == page);
            }
        }
        assert(pages.remove_keys(gone.to_set()) =~= most.remove(gone.last()));
        assert(pages.remove_keys(gone.to_set()).dom() =~= most.dom().remove(gone.last()));
    }
}

proof fn lemma_evicted_distinct<S>(
    before: Pages<S>,
    keep: Seq<char>,
    evicted: Seq<Seq<char>>,
    after: Pages<S>,
)
    requires
        is_eviction(before, keep, evicted, after),
    ensures
        evicted.no_duplicates(),
{
    assert forall|i: int, j: int|
        0 <= i < evicted.len() && 0 <= j < evicted.len() && i != j implies evicted[i]
        != evicted[j] by {
        lemma_text_before_total(evicted[i], evicted[j]);
        if i < j {
            assert(older(before, evicted[i], evicted[j]));
        } else {
            assert(older(before, evicted[j], evicted[i]));
        }
    }
}

/// At most `MAX_PAGES` pages are open after an eviction, and exactly so many where
/// there were that many before.
pub proof fn law_capacity<S>(
    before: Pages<S>,
    keep: Seq<char>,
    evicted: Seq<Seq<char>>,
    after: Pages<S>,
)
    requires
        before.dom().finite(),
        is_eviction(before, keep, evicted, after),
    ensures
        after.dom().finite(),
        after.len() == if before.len() > MAX_PAGES {
            MAX_PAGES as nat
        } else {
            before.len()
        },
{
    lemma_evicted_distinct(before, keep, evicted, after);
    lemma_remove_keys_len(before, evicted);
}

/// While there is room, no page is closed.
pub proof fn law_no_page_is_closed_while_there_is_room<S>(
    before: Pages<S>,
    keep: Seq<char>,
    evicted: Seq<Seq<char>>,
    after: Pages<S>,
)
    requires
        before.len() <= MAX_PAGES,
        is_eviction(before, keep, evicted, after),
    ensures
        evicted.len() == 0,
        after == before,
{
    assert(evicted.to_set() =~= Set::empty());
    assert(after =~= before);
}

/// A page that has just been parked is open, with the session and the tick that it
/// was parked with, so that taking it gives back that session.
pub proof fn law_parked_page_is_given_back<S>(
    before: Pages<S>,
    page: Seq<char>,
    slot: Parked<S>,
    evicted: Seq<Seq<char>>,
    after: Pages<S>,
)
    requires
        is_eviction(before.insert(page, slot), page, evicted, after),
    ensures
        after.dom().contains(page),
        after[page] == slot,
{
}

/// Parking a page does not touch the other pages: each is as it was, or closed.
pub proof fn law_other_pages_are_kept_or_closed<S>(
    before: Pages<S>,
    page: Seq<char>,
    slot: Parked<S>,
    evicted: Seq<Seq<char>>,
    after: Pages<S>,
    other: Seq<char>,
)
    requires
        is_eviction(before.insert(page, slot), page, evicted, after),
        other != page,
    ensures
        after.dom().contains(other) <==> before.dom().contains(other) && !evicted.contains(other),
        after.dom().contains(other) ==> after[other] == before[other],
{
}

/// Using a page that is open, which takes it out and parks it again, closes no page
/// of a table that is not over capacity.
pub proof fn law_using_an_open_page_closes_none<S>(
    before: Pages<S>,
    page: Seq<char>,
    slot: Parked<S>,
    evicted: Seq<Seq<char>>,
    after: Pages<S>,
)
    requires
        before.dom().finite(),
        before.len() <= MAX_PAGES,
        before.dom().contains(page),
        is_eviction(before.remove(page).insert(page, slot), page, evicted, after),
    ensures
        evicted.len() == 0,
        after == before.insert(page, slot),
        after.dom() == before.dom(),
{
    let again = before.remove(page).insert(page, slot);
    assert(again =~= before.insert(page, slot));
    assert(again.dom() =~= before.dom());
    law_no_page_is_closed_while_there_is_room(again, page, evicted, after);
}

/// Which pages are closed, and in which order, follows from the table and the page
/// that is kept.
pub proof fn law_eviction_is_determined<S>(
    before: Pages<S>,
    keep: Seq<char>,
    evicted: Seq<Seq<char>>,
    after: Pages<S>,
    evicted2: Seq<Seq<char>>,
    after2: Pages<S>,
)
    requires
        is_eviction(before, keep, evicted, after),
        is_eviction(before, keep, evicted2, after2),
    ensures
        evicted == evicted2,
        after == after2,
{
    lemma_eviction_prefix(before, keep, evicted, after, evicted2, after2, evicted.len() as int);
    assert(evicted =~= evicted2);
}

proof fn lemma_eviction_prefix<S>(
    before: Pages<S>,
    keep: Seq<char>,
    evicted: Seq<Seq<char>>,
    after: Pages<S>,
    evicted2: Seq<Seq<char>>,
    after2: Pages<S>,
    n: int,
)
    requires
        is_eviction(before, keep, evicted, after),
        is_eviction(before, keep, evicted2, after2),
        0 <= n <= evicted.len(),
    ensures
        forall|i: int| 0 <= i < n ==> evicted[i] == evicted2[i],
    decreases n,
{
    if n > 0 {
        let k = n - 1;
        lemma_eviction_prefix(before, keep, evicted, after, evicted2, after2, k);
        if evicted[k] != evicted2[k] {
            lemma_evicted_no_later(before, keep, evicted, after, evicted2, after2, k);
            lemma_evicted_no_later(before, keep, evicted2, after2, evicted, after, k);
            lemma_text_before_total(evicted[k], evicted2[k]);
        }
    }
}

proof fn lemma_evicted_no_later<S>(
    before: Pages<S>,
    keep: Seq<char>,
    evicted: Seq<Seq<char>>,
    after: Pages<S>,
    evicted2: Seq<Seq<char>>,
    after2: Pages<S>,
    k: int,
)
    requires
        is_eviction(before, keep, evicted, after),
        is_eviction(before, keep, evicted2, after2),
        0 <= k < evicted.len(),
        evicted[k] != evicted2[k],
        forall|i: int| 0 <= i < k ==> evicted[i] == evicted2[i],
    ensures
        older(before, evicted[k], evicted2[k]),
{
    lemma_evicted_distinct(before, keep, evicted2, after2);
    if evicted.contains(evicted2[k]) {
        let j = choose|j: int| 0 <= j < evicted.len() && evicted[j] == evicted2[k];
        if j < k {
            assert(evicted2[j] == evicted2[k]);
        }
        assert(older(before, evicted[k], evicted[j]));
    } else {
        assert(before.dom().contains(evicted2[k]) && evicted2[k] != keep);
        assert(older(before, evicted[k], evicted2[k]));
    }
}

/// Whether each page has a tick that was given out, none of them to two pages: ticks
/// count from one and none lies ahead of the clock.
pub open spec fn well_stamped<S>(pages: Pages<S>, clock: u64) -> bool {
    &&& forall|page: Seq<char>| #[trigger]
        pages.dom().contains(page) ==> 1 <= pages[page].last_used <= clock
    &&& forall|a: Seq<char>, b: Seq<char>|
        #![trigger pages.dom().contains(a), pages.dom().contains(b)]
        pages.dom().contains(a) && pages.dom().contains(b) && a != b ==> pages[a].last_used
            != pages[b].last_used
}

/// What holds of the table between calls: no more pages are open than may be, and
/// their ticks are in order.
pub open spec fn settled<S>(pages: Pages<S>, clock: u64) -> bool {
    &&& pages.dom().finite()
    &&& pages.len() <= MAX_PAGES
    &&& well_stamped(pages, clock)
}

/// A table without pages is settled.
pub proof fn law_empty_table_is_settled<S>(clock: u64)
    ensures
        settled(Map::<Seq<char>, Parked<S>>::empty(), clock),
{
    assert(Map::<Seq<char>, Parked<S>>::empty().dom() =~= Set::empty());
}

/// A settled table stays settled when a page is taken or closed.
pub proof fn law_table_stays_settled_when_a_page_is_taken<S>(
    before: Pages<S>,
    clock: u64,
    page: Seq<char>,
)
    requires
        settled(before, clock),
    ensures
        settled(before.remove(page), clock),
{
    assert(before.remove(page).dom() =~= before.dom().remove(page));
}

/// A settled table is settled again when a page was parked with the next tick.
pub proof fn law_table_stays_settled_when_a_page_is_parked<S>(
    before: Pages<S>,
    clock: u64,
    page: Seq<char>,
    slot: Parked<S>,
    evicted: Seq<Seq<char>>,
    after: Pages<S>,
)
    requires
        settled(before, clock),
        clock < u64::MAX,
        slot.last_used == clock + 1,
        is_eviction(before.insert(page, slot), page, evicted, after),
    ensures
        settled(after, (clock + 1) as u64),
        evicted.len() <= 1,
{
    let more = before.insert(page, slot);
    assert(more.dom() =~= before.dom().insert(page));
    law_capacity(more, page, evicted, after);
    assert forall|a: Seq<char>| #[trigger] after.dom().contains(a) implies 1
        <= after[a].last_used <= clock + 1 by {
        assert(a == page || before.dom().contains(a));
    }
    assert forall|a: Seq<char>, b: Seq<char>|
        #![trigger after.dom().contains(a), after.dom().contains(b)]
        after.dom().contains(a) && after.dom().contains(b) && a != b implies after[a].last_used
        != after[b].last_used by {
        assert(a == page || before.dom().contains(a));
        assert(b == page || before.dom().contains(b));
    }
}

/// A page is closed only where parking left `MAX_PAGES` pages open, each of which was
/// used after it.
pub proof fn law_closed_page_is_outlived_by_newer_pages<S>(
    before: Pages<S>,
    clock: u64,
    page: Seq<char>,
    slot: Parked<S>,
    evicted: Seq<Seq<char>>,
    after: Pages<S>,
    closed: Seq<char>,
    open: Seq<char>,
)
    requires
        settled(before, clock),
        clock < u64::MAX,
        slot.last_used == clock + 1,
        is_eviction(before.insert(page, slot), page, evicted, after),
        evicted.contains(closed),
        after.dom().contains(open),
    ensures
        after.len() == MAX_PAGES,
        before.dom().contains(closed),
        before[closed].last_used < after[open].last_used,
{
    let more = before.insert(page, slot);
    assert(more.dom() =~= before.dom().insert(page));
    law_capacity(more, page, evicted, after);
    let i = choose|i: int| 0 <= i < evicted.len() && evicted[i] == closed;
    assert(more.dom().contains(evicted[i]) && evicted[i] != page);
    if open != page {
        assert(more.dom().contains(open) && !evicted.contains(open));
        assert(older(more, evicted[i], open));
        assert(before.dom().contains(open));
    }
}

/// Each closed page was used strictly before each page that stays open.
pub proof fn law_closed_pages_were_used_earlier<S>(
    before: Pages<S>,
    clock: u64,
    keep: Seq<char>,
    evicted: Seq<Seq<char>>,
    after: Pages<S>,
    closed: Seq<char>,
    open: Seq<char>,
)
    requires
        well_stamped(before, clock),
        is_eviction(before, keep, evicted, after),
        evicted.contains(closed),
        after.dom().contains(open),
        open != keep,
    ensures
        before[closed].last_used < before[open].last_used,
{
    let i = choose|i: int| 0 <= i < evicted.len() && evicted[i] == closed;
    assert(before.dom().contains(evicted[i]));
    assert(before.dom().contains(open) && !evicted.contains(open));
    assert(older(before, evicted[i], open));
}

/// The page that was parked last is listed first.
pub proof fn law_last_used_page_is_listed_first<S>(
    before: Pages<S>,
    clock: u64,
    page: Seq<char>,
    slot: Parked<S>,
    evicted: Seq<Seq<char>>,
    after: Pages<S>,
    entries: Seq<PageEntry>,
)
    requires
        well_stamped(before, clock),
        clock < u64::MAX,
        slot.last_used == clock + 1,
        is_eviction(before.insert(page, slot), page, evicted, after),
        is_listing(after, entries),
    ensures
        entries.len() > 0,
        entries[0].page@ == page,
        entries[0].last_used == clock + 1,
{
    law_parked_page_is_given_back(before, page, slot, evicted, after);
    let i = choose|i: int| 0 <= i < entries.len() && (#[trigger] entries[i]).page@ == page;
    if i > 0 {
        assert(listed_before(entries[0], entries[i]));
        assert(after.dom().contains(entries[0].page@));
        lemma_text_before_total(page, page);
        assert(entries[0].page@ == page || before.dom().contains(entries[0].page@));
    }
}

/// Two listings of the same pages name the same pages in the same order.
pub proof fn law_listing_is_determined<S>(
    pages: Pages<S>,
    entries: Seq<PageEntry>,
    entries2: Seq<PageEntry>,
)
    requires
        is_listing(pages, entries),
        is_listing(pages, entries2),
    ensures
        entries.len() == entries2.len(),
        forall|i: int|
            0 <= i < entries.len() ==> (#[trigger] entries[i]).page@ == entries2[i].page@
                && entries[i].last_used == entries2[i].last_used,
{
    lemma_listing_prefix(pages, entries, entries2, entries.len() as int);
}

proof fn lemma_listing_prefix<S>(
    pages: Pages<S>,
    entries: Seq<PageEntry>,
    entries2: Seq<PageEntry>,
    n: int,
)
    requires
        is_listing(pages, entries),
        is_listing(pages, entries2),
        0 <= n <= entries.len(),
    ensures
        forall|i: int|
            0 <= i < n ==> (#[trigger] entries[i]).page@ == entries2[i].page@
                && entries[i].last_used == entries2[i].last_used,
    decreases n,
{
    if n > 0 {
        let k = n - 1;
        lemma_listing_prefix(pages, entries, entries2, k);
        lemma_listed_no_later(pages, entries, entries2, k);
        lemma_listed_no_later(pages, entries2, entries, k);
        lemma_text_before_total(entries[k].page@, entries2[k].page@);
    }
}

proof fn lemma_listed_no_later<S>(
    pages: Pages<S>,
    entries: Seq<PageEntry>,
    entries2: Seq<PageEntry>,
    k: int,
)
    requires
        is_listing(pages, entries),
        is_listing(pages, entries2),
        0 <= k < entries.len(),
        forall|i: int| 0 <= i < k ==> (#[trigger] entries[i]).page@ == entries2[i].page@,
    ensures
        entries[k].page@ == entries2[k].page@ || listed_before(entries[k], entries2[k]),
        entries[k].last_used == pages[entries[k].page@].last_used,
        entries2[k].last_used == pages[entries2[k].page@].last_used,
{
    let page = entries2[k].page@;
    assert(pages.dom().contains(page));
    let j = choose|j: int| 0 <= j < entries.len() && (#[trigger] entries[j]).page@ == page;
    if j < k {
        assert(entries[j].page@ == entries2[j].page@);
        assert(listed_before(entries2[j], entries2[k]));
        lemma_text_before_total(page, page);
        assert(false);
    } else if j > k {
        assert(listed_before(entries[k], entries[j]));
    }
}

/// A closed page was used before each page that stays open, or at the same tick with a
/// name that comes first; the page that is kept is not asked.
pub proof fn law_least_recently_used_pages_are_closed<S>(
    before: Pages<S>,
    keep: Seq<char>,
    evicted: Seq<Seq<char>>,
    after: Pages<S>,
    closed: Seq<char>,
    open: Seq<char>,
)
    requires
        is_eviction(before, keep, evicted, after),
        evicted.contains(closed),
        after.dom().contains(open),
        open != keep,
    ensures
        before[closed].last_used < before[open].last_used || (before[closed].last_used
            == before[open].last_used && text_before(closed, open)),
{
    let i = choose|i: int| 0 <= i < evicted.len() && evicted[i] == closed;
    assert(before.dom().contains(open) && !evicted.contains(open));
    assert(older(before, evicted[i], open));
}

/// The closed pages are named in the order of their last use, and by name where they were
/// used at the same tick.
pub proof fn law_closed_pages_are_named_oldest_first<S>(
    before: Pages<S>,
    keep: Seq<char>,
    evicted: Seq<Seq<char>>,
    after: Pages<S>,
    i: int,
    j: int,
)
    requires
        is_eviction(before, keep, evicted, after),
        0 <= i < j < evicted.len(),
    ensures
        before[evicted[i]].last_used < before[evicted[j]].last_used || (
        before[evicted[i]].last_used == before[evicted[j]].last_used && text_before(
            evicted[i],
            evicted[j],
        )),
{
    assert(older(before, evicted[i], evicted[j]));
}

/// An eviction closes the pages that it names, all of which were open and none of which
/// is the page to keep, and leaves every other page as it was.
pub proof fn law_eviction_closes_what_it_names<S>(
    before: Pages<S>,
    keep: Seq<char>,
    evicted: Seq<Seq<char>>,
    after: Pages<S>,
    page: Seq<char>,
)
    requires
        is_eviction(before, keep, evicted, after),
    ensures
        evicted.contains(page) ==> before.dom().contains(page) && page != keep
            && !after.dom().contains(page),
        after.dom().contains(page) <==> before.dom().contains(page) && !evicted.contains(page),
        after.dom().contains(page) ==> after[page] == before[page],
        before.dom().contains(keep) ==> after.dom().contains(keep),
{
    if evicted.contains(page) {
        let i = choose|i: int| 0 <= i < evicted.len() && evicted[i] == page;
        assert(before.dom().contains(evicted[i]));
    }
    if evicted.contains(keep) {
        let i = choose|i: int| 0 <= i < evicted.len() && evicted[i] == keep;
        assert(evicted[i] != keep);
    }
}

/// Names are listed one by one, as they are.
pub proof fn law_names_are_listed_as_they_are(names: Seq<String>)
    ensures
        texts(names).len() == names.len(),
        forall|i: int| 0 <= i < names.len() ==> #[trigger] texts(names)[i] == names[i]@,
{
}

} // verus!
