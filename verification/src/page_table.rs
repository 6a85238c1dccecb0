//! The pages that are kept open between calls, at most `MAX_PAGES` of them.

use vstd::prelude::*;

use crate::page_laws::{law_capacity, law_parked_page_is_given_back};
use crate::text::{
    is_before, lemma_text_before_total, lemma_text_before_transitive, same_text, text_before,
};

verus! {

/// How many pages stay open; beyond this the least recently used ones are closed.
pub const MAX_PAGES: usize = 16;

/// A page that is not in use, with the tick at which it last was.
struct PageSlot<S> {
    page: String,
    session: S,
    last_used: u64,
}

/// The pages that are open and not in use, with the clock that stamps them.
pub struct PageTable<S> {
    slots: Vec<PageSlot<S>>,
    clock: u64,
}

/// What the table holds for a page.
pub struct Parked<S> {
    pub session: S,
    pub last_used: u64,
}

/// The open pages by name.
pub type Pages<S> = Map<Seq<char>, Parked<S>>;

spec fn distinct_pages<S>(slots: Seq<PageSlot<S>>) -> bool {
    forall|i: int, j: int| 0 <= i < j < slots.len() ==> slots[i].page@ != slots[j].page@
}

spec fn parked<S>(slot: PageSlot<S>) -> Parked<S> {
    Parked { session: slot.session, last_used: slot.last_used }
}

spec fn slot_map<S>(slots: Seq<PageSlot<S>>) -> Pages<S>
    decreases slots.len(),
{
    if slots.len() == 0 {
        Map::empty()
    } else {
        slot_map(slots.drop_last()).insert(slots.last().page@, parked(slots.last()))
    }
}

proof fn lemma_slot_map<S>(slots: Seq<PageSlot<S>>)
    requires
        distinct_pages(slots),
    ensures
        slot_map(slots).dom().finite(),
        slot_map(slots).len() == slots.len(),
        forall|i: int|
            0 <= i < slots.len() ==> {
                &&& slot_map(slots).dom().contains((#[trigger] slots[i]).page@)
                &&& slot_map(slots)[slots[i].page@] == parked(slots[i])
            },
        forall|page: Seq<char>| #[trigger]
            slot_map(slots).dom().contains(page) ==> exists|i: int|
                0 <= i < slots.len() && (#[trigger] slots[i]).page@ == page,
    decreases slots.len(),
{
    if slots.len() > 0 {
        let init = slots.drop_last();
        lemma_slot_map(init);
        assert forall|i: int| 0 <= i < slots.len() implies {
            &&& slot_map(slots).dom().contains((#[trigger] slots[i]).page@)
            &&& slot_map(slots)[slots[i].page@] == parked(slots[i])
        } by {
            if i < init.len() {
                assert(init[i] == slots[i]);
            }
        }
        assert(!slot_map(init).dom().contains(slots.last().page@));
        assert forall|page: Seq<char>| #[trigger]
            slot_map(slots).dom().contains(page) implies exists|i: int|
            0 <= i < slots.len() && (#[trigger] slots[i]).page@ == page by {
            if slot_map(init).dom().contains(page) {
                let i = choose|i: int| 0 <= i < init.len() && (#[trigger] init[i]).page@ == page;
                assert(slots[i].page@ == page);
            } else {
                assert(slots[slots.len() - 1].page@ == page);
            }
        }
    }
}

proof fn lemma_slot_map_remove<S>(slots: Seq<PageSlot<S>>, n: int)
    requires
        distinct_pages(slots),
        0 <= n < slots.len(),
    ensures
        distinct_pages(slots.remove(n)),
        slot_map(slots.remove(n)) == slot_map(slots).remove(slots[n].page@),
{
    let rest = slots.remove(n);
    assert forall|i: int, j: int| 0 <= i < j < rest.len() implies rest[i].page@
        != rest[j].page@ by {
        let k = if i < n { i } else { i + 1 };
        let l = if j < n { j } else { j + 1 };
        assert(rest[i] == slots[k] && rest[j] == slots[l]);
    }
    lemma_slot_map(slots);
    lemma_slot_map(rest);
    let whole = slot_map(slots).remove(slots[n].page@);
    assert forall|page: Seq<char>|
        #![trigger slot_map(rest).dom().contains(page)]
        #![trigger whole.dom().contains(page)]
        #![trigger whole[page]]
        slot_map(rest).dom().contains(page) == whole.dom().contains(page) && (
        whole.dom().contains(page) ==> slot_map(rest)[page] == whole[page]) by {
        if whole.dom().contains(page) {
            let k = choose|k: int| 0 <= k < slots.len() && (#[trigger] slots[k]).page@ == page;
            let i = if k < n { k } else { k - 1 };
            assert(rest[i] == slots[k]);
        }
        if slot_map(rest).dom().contains(page) {
            let i = choose|i: int| 0 <= i < rest.len() && (#[trigger] rest[i]).page@ == page;
            let k = if i < n { i } else { i + 1 };
            assert(rest[i] == slots[k]);
            assert(k != n);
        }
    }
    assert(slot_map(rest) =~= whole);
}

proof fn lemma_slot_map_push<S>(slots: Seq<PageSlot<S>>, slot: PageSlot<S>)
    requires
        distinct_pages(slots),
        !slot_map(slots).dom().contains(slot.page@),
    ensures
        distinct_pages(slots.push(slot)),
        slot_map(slots.push(slot)) == slot_map(slots).insert(slot.page@, parked(slot)),
{
    assert(slots.push(slot).drop_last() == slots);
    lemma_slot_map(slots);
}

impl<S> PageTable<S> {
    /// Each page has one slot.
    pub closed spec fn wf(self) -> bool {
        distinct_pages(self.slots@)
    }

    /// The pages that are open and not in use.
    pub closed spec fn pages(self) -> Pages<S> {
        slot_map(self.slots@)
    }

    /// The tick that was given out last.
    pub closed spec fn clock(self) -> u64 {
        self.clock
    }

    /// A table without pages, before the first tick.
    pub fn new() -> (r: Self)
        ensures
            r.wf(),
            r.pages() == Map::<Seq<char>, Parked<S>>::empty(),
            r.clock() == 0,
    {
        PageTable { slots: Vec::new(), clock: 0 }
    }

    /// How many pages the table holds.
    pub fn len(&self) -> (r: usize)
        requires
            self.wf(),
        ensures
            r == self.pages().len(),
            self.pages().dom().finite(),
    {
        proof {
            lemma_slot_map(self.slots@);
        }
        self.slots.len()
    }

    /// The tick that was given out last.
    pub fn last_tick(&self) -> (r: u64)
        ensures
            r == self.clock(),
    {
        self.clock
    }

    /// Advances the clock and gives out the new tick.
    pub fn tick(&mut self) -> (r: u64)
        requires
            old(self).clock() < u64::MAX,
        ensures
            r == old(self).clock() + 1,
            final(self).clock() == r,
            final(self).pages() == old(self).pages(),
            old(self).wf() ==> final(self).wf(),
    {
        self.clock = self.clock + 1;
        self.clock
    }

    /// The slot of a page.
    fn position(&self, page: &str) -> (r: Option<usize>)
        requires
            self.wf(),
        ensures
            match r {
                Some(i) => i < self.slots@.len() && self.slots@[i as int].page@ == page@,
                None => !self.pages().dom().contains(page@),
            },
    {
        let mut i: usize = 0;
        while i < self.slots.len()
            invariant
                i <= self.slots.len(),
                forall|j: int| 0 <= j < i ==> (#[trigger] self.slots@[j]).page@ != page@,
            decreases self.slots.len() - i,
        {
            if same_text(self.slots[i].page.as_str(), page) {
                return Some(i);
            }
            i = i + 1;
        }
        proof {
            lemma_slot_map(self.slots@);
        }
        None
    }

    /// Takes a page out of the table, to be used or to be closed.
    pub fn take_page(&mut self, page: &str) -> (r: Option<S>)
        requires
            old(self).wf(),
        ensures
            final(self).wf(),
            final(self).pages() == old(self).pages().remove(page@),
            final(self).clock() == old(self).clock(),
            r == if old(self).pages().dom().contains(page@) {
                Some(old(self).pages()[page@].session)
            } else {
                None
            },
    {
        proof {
            lemma_slot_map(self.slots@);
        }
        match self.position(page) {
            Some(i) => {
                proof {
                    lemma_slot_map_remove(self.slots@, i as int);
                }
                let slot = self.slots.remove(i);
                Some(slot.session)
            },
            None => {
                assert(self.pages().remove(page@) =~= self.pages());
                None
            },
        }
    }
}

/// Whether page `a` was used before page `b`. Pages with the same tick go by name.
pub open spec fn older<S>(pages: Pages<S>, a: Seq<char>, b: Seq<char>) -> bool {
    pages[a].last_used < pages[b].last_used || (pages[a].last_used == pages[b].last_used
        && text_before(a, b))
}

proof fn lemma_older_total<S>(pages: Pages<S>, a: Seq<char>, b: Seq<char>)
    ensures
        older(pages, a, b) ==> !older(pages, b, a),
        a != b ==> older(pages, a, b) || older(pages, b, a),
        !older(pages, a, a),
{
    lemma_text_before_total(a, b);
}

proof fn lemma_older_transitive<S>(pages: Pages<S>, a: Seq<char>, b: Seq<char>, c: Seq<char>)
    requires
        older(pages, a, b),
        older(pages, b, c),
    ensures
        older(pages, a, c),
{
    if text_before(a, b) && text_before(b, c) {
        lemma_text_before_transitive(a, b, c);
    }
}

/// The characters of each string of a list.
pub open spec fn texts(strings: Seq<String>) -> Seq<Seq<char>> {
    Seq::new(strings.len(), |i: int| strings[i]@)
}

/// What it is to close the least recently used pages beyond `MAX_PAGES`, the page
/// `keep` excepted: `evicted` lists the closed pages, the oldest first, each of
/// them is older than each page that stays, and no more are closed than need be.
pub open spec fn is_eviction<S>(
    before: Pages<S>,
    keep: Seq<char>,
    evicted: Seq<Seq<char>>,
    after: Pages<S>,
) -> bool {
    &&& evicted.len() == if before.len() > MAX_PAGES {
        before.len() - MAX_PAGES
    } else {
        0
    }
    &&& forall|i: int|
        0 <= i < evicted.len() ==> before.dom().contains(#[trigger] evicted[i]) && evicted[i]
            != keep
    &&& forall|i: int, j: int|
        0 <= i < j < evicted.len() ==> older(before, #[trigger] evicted[i], #[trigger] evicted[j])
    &&& forall|i: int, page: Seq<char>|
        0 <= i < evicted.len() && before.dom().contains(page) && page != keep
            && !evicted.contains(page) ==> #[trigger] older(before, evicted[i], page)
    &&& after == before.remove_keys(evicted.to_set())
}

impl<S> PageTable<S> {
    /// The slot of the page that was used least recently, `keep` excepted.
    fn oldest_but(&self, keep: &str) -> (r: usize)
        requires
            self.wf(),
            self.slots@.len() >= 2,
        ensures
            r < self.slots@.len(),
            self.slots@[r as int].page@ != keep@,
            forall|page: Seq<char>|
                self.pages().dom().contains(page) && page != keep@ && page
                    != self.slots@[r as int].page@ ==> #[trigger] older(
                    self.pages(),
                    self.slots@[r as int].page@,
                    page,
                ),
    {
        let ghost pages = self.pages();
        let ghost slots = self.slots@;
        proof {
            lemma_slot_map(slots);
        }
        let mut best: usize = 0;
        if same_text(self.slots[0].page.as_str(), keep) {
            assert(slots[0].page@ != slots[1].page@);
            best = 1;
        }
        let mut i: usize = best + 1;
        while i < self.slots.len()
            invariant
                self.slots@ == slots,
                pages == slot_map(slots),
                distinct_pages(slots),
                best < i <= slots.len(),
                slots[best as int].page@ != keep@,
                forall|j: int|
                    0 <= j < slots.len() ==> {
                        &&& pages.dom().contains((#[trigger] slots[j]).page@)
                        &&& pages[slots[j].page@] == parked(slots[j])
                    },
                forall|j: int|
                    0 <= j < i && (#[trigger] slots[j]).page@ != keep@ && j != best ==> older(
                        pages,
                        slots[best as int].page@,
                        slots[j].page@,
                    ),
            decreases slots.len() - i,
        {
            let slot = &self.slots[i];
            let oldest = &self.slots[best];
            if !same_text(slot.page.as_str(), keep) {
                proof {
                    assert(slots[best as int].page@ != slots[i as int].page@);
                    lemma_older_total(pages, slots[best as int].page@, slots[i as int].page@);
                }
                if slot.last_used < oldest.last_used || (slot.last_used == oldest.last_used
                    && is_before(slot.page.as_str(), oldest.page.as_str())) {
                    assert forall|j: int|
                        0 <= j < i + 1 && (#[trigger] slots[j]).page@ != keep@ && j
                            != i implies older(pages, slots[i as int].page@, slots[j].page@) by {
                        if j != best {
                            lemma_older_transitive(
                                pages,
                                slots[i as int].page@,
                                slots[best as int].page@,
                                slots[j].page@,
                            );
                        }
                    }
                    best = i;
                }
            }
            i = i + 1;
        }
        assert forall|page: Seq<char>|
            pages.dom().contains(page) && page != keep@ && page
                != slots[best as int].page@ implies #[trigger] older(
            pages,
            slots[best as int].page@,
            page,
        ) by {
            let j = choose|j: int| 0 <= j < slots.len() && (#[trigger] slots[j]).page@ == page;
            assert(slots[j].page@ == page);
        }
        best
    }

    /// Closes the least recently used pages until at most `MAX_PAGES` are left, and
    /// never the page `keep`. Names the closed pages, the oldest first.
    pub fn evict_least_recently_used_beyond_capacity(&mut self, keep: &str) -> (r: Vec<String>)
        requires
            old(self).wf(),
        ensures
            final(self).wf(),
            is_eviction(old(self).pages(), keep@, texts(r@), final(self).pages()),
            final(self).clock() == old(self).clock(),
            old(self).pages().dom().finite(),
            final(self).pages().len() <= 16,
            old(self).pages().len() <= 16 ==> r@.len() == 0,
    {
        let ghost before = self.pages();
        let mut evicted: Vec<String> = Vec::new();
        proof {
            lemma_slot_map(self.slots@);
            assert(texts(evicted@).to_set() =~= Set::empty());
            assert(self.pages() =~= before.remove_keys(texts(evicted@).to_set()));
        }
        while self.slots.len() > MAX_PAGES
            invariant
                self.wf(),
                self.clock == old(self).clock,
                before.dom().finite(),
                before == old(self).pages(),
                self.pages() == before.remove_keys(texts(evicted@).to_set()),
                self.slots@.len() + evicted@.len() == before.len(),
                evicted@.len() > 0 ==> self.slots@.len() >= MAX_PAGES,
                forall|i: int|
                    0 <= i < evicted@.len() ==> before.dom().contains(
                        #[trigger] texts(evicted@)[i],
                    ) && texts(evicted@)[i] != keep@,
                forall|i: int, j: int|
                    0 <= i < j < evicted@.len() ==> older(
                        before,
                        #[trigger] texts(evicted@)[i],
                        #[trigger] texts(evicted@)[j],
                    ),
                forall|i: int, page: Seq<char>|
                    0 <= i < evicted@.len() && self.pages().dom().contains(page) && page
                        != keep@ ==> #[trigger] older(before, texts(evicted@)[i], page),
            decreases self.slots@.len(),
        {
            let ghost now = self.pages();
            let ghost slots = self.slots@;
            let ghost gone = texts(evicted@);
            let oldest = self.oldest_but(keep);
            proof {
                lemma_slot_map(slots);
                lemma_slot_map_remove(slots, oldest as int);
            }
            let slot = self.slots.remove(oldest);
            let ghost page = slot.page@;
            evicted.push(slot.page);
            proof {
                let more = texts(evicted@);
                assert(more =~= gone.push(page));
                assert(now.dom().contains(page));
                assert(more.to_set() =~= gone.to_set().insert(page)) by {
                    assert forall|x: Seq<char>| gone.contains(x) || x == page implies
                        #[trigger] more.contains(x) by {
                        if x == page {
                            assert(more[gone.len() as int] == x);
                        } else {
                            let i = choose|i: int| 0 <= i < gone.len() && gone[i] == x;
                            assert(more[i] == x);
                        }
                    }
                }
                assert(self.pages() =~= before.remove_keys(more.to_set()));
                assert forall|i: int, other: Seq<char>|
                    0 <= i < evicted@.len() && self.pages().dom().contains(other) && other
                        != keep@ implies #[trigger] older(before, more[i], other) by {
                    if i < gone.len() {
                        assert(older(before, gone[i], other));
                    } else {
                        assert(older(now, page, other));
                    }
                }
            }
        }
        proof {
            lemma_slot_map(self.slots@);
            assert forall|i: int, page: Seq<char>|
                0 <= i < evicted@.len() && before.dom().contains(page) && page != keep@
                    && !texts(evicted@).contains(page) implies #[trigger] older(
                before,
                texts(evicted@)[i],
                page,
            ) by {
                assert(self.pages().dom().contains(page));
            }
            law_capacity(before, keep@, texts(evicted@), self.pages());
        }
        evicted
    }

    /// Puts a page that was used back into the table, as the one that was used last,
    /// and closes the pages that are then too many. Names the closed pages.
    pub fn park_page(&mut self, page: &str, session: S) -> (r: Vec<String>)
        requires
            old(self).wf(),
            old(self).clock() < u64::MAX,
        ensures
            final(self).wf(),
            final(self).clock() == old(self).clock() + 1,
            old(self).pages().dom().finite(),
            is_eviction(
                old(self).pages().insert(
                    page@,
                    (Parked { session, last_used: (old(self).clock() + 1) as u64 }),
                ),
                page@,
                texts(r@),
                final(self).pages(),
            ),
            final(self).pages().dom().contains(page@),
            final(self).pages()[page@].session == session,
            final(self).pages()[page@].last_used == old(self).clock() + 1,
            final(self).pages().len() <= 16,
    {
        let ghost before = self.pages();
        proof {
            lemma_slot_map(self.slots@);
        }
        let last_used = self.tick();
        self.take_page(page);
        let slot = PageSlot { page: page.to_string(), session, last_used };
        proof {
            lemma_slot_map_push(self.slots@, slot);
            assert(before.remove(page@).insert(page@, parked(slot)) =~= before.insert(
                page@,
                parked(slot),
            ));
        }
        self.slots.push(slot);
        let evicted = self.evict_least_recently_used_beyond_capacity(page);
        proof {
            law_parked_page_is_given_back(
                before,
                page@,
                parked(slot),
                texts(evicted@),
                self.pages(),
            );
        }
        evicted
    }
}

/// What is told of an open page.
#[derive(Debug, PartialEq, Eq)]
pub struct PageEntry {
    pub page: String,
    pub url: Option<String>,
    pub last_used: u64,
}

/// Whether `a` is listed before `b`: the page that was used last comes first, pages
/// with the same tick go by name.
pub open spec fn listed_before(a: PageEntry, b: PageEntry) -> bool {
    a.last_used > b.last_used || (a.last_used == b.last_used && text_before(a.page@, b.page@))
}

/// Whether the entries tell of each open page once, in the order of a listing.
pub open spec fn is_listing<S>(pages: Pages<S>, entries: Seq<PageEntry>) -> bool {
    &&& entries.len() == pages.len()
    &&& forall|i: int|
        0 <= i < entries.len() ==> {
            &&& pages.dom().contains((#[trigger] entries[i]).page@)
            &&& pages[entries[i].page@].last_used == entries[i].last_used
        }
    &&& forall|i: int, j: int|
        0 <= i < j < entries.len() ==> listed_before(#[trigger] entries[i], #[trigger] entries[j])
    &&& forall|page: Seq<char>| #[trigger]
        pages.dom().contains(page) ==> exists|i: int|
            0 <= i < entries.len() && (#[trigger] entries[i]).page@ == page
}

spec fn names_page(entries: Seq<PageEntry>, page: Seq<char>) -> bool {
    exists|i: int| 0 <= i < entries.len() && (#[trigger] entries[i]).page@ == page
}

spec fn holds_page<S>(slots: Seq<PageSlot<S>>, page: Seq<char>) -> bool {
    exists|i: int| 0 <= i < slots.len() && (#[trigger] slots[i]).page@ == page
}

/// Where an entry belongs in a list that is in order and does not name its page.
fn listing_place(entries: &Vec<PageEntry>, entry: &PageEntry) -> (r: usize)
    requires
        forall|i: int, j: int|
            0 <= i < j < entries@.len() ==> listed_before(
                #[trigger] entries@[i],
                #[trigger] entries@[j],
            ),
        forall|i: int| 0 <= i < entries@.len() ==> (#[trigger] entries@[i]).page@ != entry.page@,
    ensures
        r <= entries@.len(),
        forall|i: int| 0 <= i < r ==> listed_before(#[trigger] entries@[i], *entry),
        forall|i: int| r <= i < entries@.len() ==> listed_before(*entry, #[trigger] entries@[i]),
{
    let mut place: usize = 0;
    while place < entries.len()
        invariant
            place <= entries@.len(),
            forall|i: int| 0 <= i < place ==> listed_before(#[trigger] entries@[i], *entry),
            forall|i: int, j: int|
                0 <= i < j < entries@.len() ==> listed_before(
                    #[trigger] entries@[i],
                    #[trigger] entries@[j],
                ),
            forall|i: int|
                0 <= i < entries@.len() ==> (#[trigger] entries@[i]).page@ != entry.page@,
        decreases entries@.len() - place,
    {
        let other = &entries[place];
        proof {
            lemma_text_before_total(entry.page@, other.page@);
        }
        if entry.last_used > other.last_used || (entry.last_used == other.last_used && is_before(
            entry.page.as_str(),
            other.page.as_str(),
        )) {
            assert forall|i: int| place <= i < entries@.len() implies listed_before(
                *entry,
                #[trigger] entries@[i],
            ) by {
                if i > place {
                    lemma_listed_before_transitive(*entry, *other, entries@[i]);
                }
            }
            return place;
        }
        place = place + 1;
    }
    place
}

proof fn lemma_listing_grows<S>(
    slots: Seq<PageSlot<S>>,
    n: int,
    entries: Seq<PageEntry>,
    place: int,
    entry: PageEntry,
)
    requires
        0 <= n < slots.len(),
        entries.len() == n,
        0 <= place <= n,
        entry.page@ == slots[n].page@,
        forall|i: int, j: int|
            0 <= i < j < n ==> listed_before(#[trigger] entries[i], #[trigger] entries[j]),
        forall|i: int| 0 <= i < place ==> listed_before(#[trigger] entries[i], entry),
        forall|i: int| place <= i < n ==> listed_before(entry, #[trigger] entries[i]),
        forall|i: int| 0 <= i < n ==> #[trigger] holds_page(slots.take(n), entries[i].page@),
        forall|j: int| 0 <= j < n ==> #[trigger] names_page(entries, slots[j].page@),
    ensures
        ({
            let more = entries.insert(place, entry);
            &&& forall|i: int, j: int|
                0 <= i < j < n + 1 ==> listed_before(#[trigger] more[i], #[trigger] more[j])
            &&& forall|i: int|
                0 <= i < n + 1 ==> #[trigger] holds_page(slots.take(n + 1), more[i].page@)
            &&& forall|j: int| 0 <= j < n + 1 ==> #[trigger] names_page(more, slots[j].page@)
        }),
{
    let more = entries.insert(place, entry);
    assert forall|i: int, j: int| 0 <= i < j < n + 1 implies listed_before(
        #[trigger] more[i],
        #[trigger] more[j],
    ) by {
        let k = if i < place { i } else { i - 1 };
        let l = if j < place { j } else { j - 1 };
        if i != place {
            assert(more[i] == entries[k]);
        }
        if j != place {
            assert(more[j] == entries[l]);
        }
    }
    assert forall|i: int| 0 <= i < n + 1 implies #[trigger] holds_page(
        slots.take(n + 1),
        more[i].page@,
    ) by {
        if i == place {
            assert(slots.take(n + 1)[n].page@ == more[i].page@);
        } else {
            let k = if i < place { i } else { i - 1 };
            assert(more[i] == entries[k]);
            assert(holds_page(slots.take(n), entries[k].page@));
            let j = choose|j: int|
                0 <= j < n && (#[trigger] slots.take(n)[j]).page@ == entries[k].page@;
            assert(slots.take(n + 1)[j].page@ == more[i].page@);
        }
    }
    assert forall|j: int| 0 <= j < n + 1 implies #[trigger] names_page(more, slots[j].page@) by {
        if j == n {
            assert(more[place].page@ == slots[j].page@);
        } else {
            assert(names_page(entries, slots[j].page@));
            let k = choose|k: int| 0 <= k < n && (#[trigger] entries[k]).page@ == slots[j].page@;
            let i = if k < place { k } else { k + 1 };
            assert(more[i] == entries[k]);
        }
    }
}

proof fn lemma_listed_before_transitive(a: PageEntry, b: PageEntry, c: PageEntry)
    requires
        listed_before(a, b),
        listed_before(b, c),
    ensures
        listed_before(a, c),
{
    if text_before(a.page@, b.page@) && text_before(b.page@, c.page@) {
        lemma_text_before_transitive(a.page@, b.page@, c.page@);
    }
}

impl<S> PageTable<S> {
    /// Tells of each open page, the one that was used last first. `url_of` reads the
    /// address that a session shows.
    pub fn list_pages<F: Fn(&S) -> Option<String>>(&self, url_of: F) -> (r: Vec<PageEntry>)
        requires
            self.wf(),
            forall|page: Seq<char>| #[trigger]
                self.pages().dom().contains(page) ==> call_requires(
                    url_of,
                    (&self.pages()[page].session,),
                ),
        ensures
            is_listing(self.pages(), r@),
            forall|i: int|
                0 <= i < r@.len() ==> call_ensures(
                    url_of,
                    (&self.pages()[(#[trigger] r@[i]).page@].session,),
                    r@[i].url,
                ),
            self.pages().dom().finite(),
    {
        let ghost pages = self.pages();
        let ghost slots = self.slots@;
        proof {
            lemma_slot_map(slots);
        }
        let mut entries: Vec<PageEntry> = Vec::new();
        let mut n: usize = 0;
        while n < self.slots.len()
            invariant
                self.slots@ == slots,
                pages == slot_map(slots),
                distinct_pages(slots),
                n <= slots.len(),
                entries@.len() == n,
                forall|j: int|
                    0 <= j < slots.len() ==> {
                        &&& pages.dom().contains((#[trigger] slots[j]).page@)
                        &&& pages[slots[j].page@] == parked(slots[j])
                    },
                forall|page: Seq<char>| #[trigger]
                    pages.dom().contains(page) ==> call_requires(url_of, (&pages[page].session,)),
                forall|i: int|
                    0 <= i < n ==> {
                        &&& pages.dom().contains((#[trigger] entries@[i]).page@)
                        &&& pages[entries@[i].page@].last_used == entries@[i].last_used
                        &&& call_ensures(
                            url_of,
                            (&pages[entries@[i].page@].session,),
                            entries@[i].url,
                        )
                    },
                forall|i: int|
                    0 <= i < n ==> #[trigger] holds_page(
                        slots.take(n as int),
                        entries@[i].page@,
                    ),
                forall|i: int, j: int|
                    0 <= i < j < n ==> listed_before(
                        #[trigger] entries@[i],
                        #[trigger] entries@[j],
                    ),
                forall|j: int| 0 <= j < n ==> #[trigger] names_page(entries@, slots[j].page@),
            decreases slots.len() - n,
        {
            let slot = &self.slots[n];
            assert(*slot == slots[n as int]);
            assert(pages.dom().contains(slots[n as int].page@));
            let entry = PageEntry {
                page: slot.page.clone(),
                url: url_of(&slot.session),
                last_used: slot.last_used,
            };
            let ghost before = entries@;
            let ghost new = entry;
            assert forall|i: int| 0 <= i < entries@.len() implies (#[trigger] entries@[i]).page@
                != entry.page@ by {
                assert(holds_page(slots.take(n as int), entries@[i].page@));
            }
            let place = listing_place(&entries, &entry);
            entries.insert(place, entry);
            proof {
                lemma_listing_grows(slots, n as int, before, place as int, new);
                assert forall|i: int| 0 <= i < n + 1 implies {
                    &&& pages.dom().contains((#[trigger] entries@[i]).page@)
                    &&& pages[entries@[i].page@].last_used == entries@[i].last_used
                    &&& call_ensures(url_of, (&pages[entries@[i].page@].session,), entries@[i].url)
                } by {
                    if i != place {
                        let k = if i < place { i } else { i - 1 };
                        assert(entries@[i] == before[k]);
                    }
                }
            }
            n = n + 1;
        }
        assert forall|page: Seq<char>| #[trigger] pages.dom().contains(page) implies exists|i: int|
            0 <= i < entries@.len() && (#[trigger] entries@[i]).page@ == page by {
            let j = choose|j: int| 0 <= j < slots.len() && (#[trigger] slots[j]).page@ == page;
            assert(names_page(entries@, slots[j].page@));
        }
        entries
    }
}

} // verus!
