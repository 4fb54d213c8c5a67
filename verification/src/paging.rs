//! How a fetch walks through the pages of an endpoint, and why it stops.
//!
//! Xero's only reliable end-of-data signal on a page-numbered endpoint is an
//! empty page; a short page is none. The offset endpoint ends on an empty page
//! or when the offset no longer advances. A cap on the number of pages bounds
//! both, and a fetch that ran into it is suspect: it may have been cut short.

use vstd::prelude::*;

use crate::text::{
    all_digits, digits_read_as_their_number, numeral, numerals_read_back, parse_unsigned,
    unsigned_value,
};

verus! {

/// Why a paginated fetch stopped. Surfaced for monitoring, so that a fetch that
/// was cut short is visible.
#[derive(Debug, Clone, Copy, PartialEq, Eq, Structural)]
pub enum TerminationReason {
    /// Healthy: Xero returned an empty page, so everything was fetched.
    EndedOnEmptyPage,
    /// Suspect: the cap on pages was reached before an empty page was seen.
    HitMaxPagesCap,
    /// Healthy, on the offset endpoint: the offset failed to advance.
    OffsetNotAdvancing,
}

impl TerminationReason {
    pub open spec fn name(self) -> Seq<char> {
        match self {
            TerminationReason::EndedOnEmptyPage => "ended_on_empty_page"@,
            TerminationReason::HitMaxPagesCap => "hit_max_pages_cap"@,
            TerminationReason::OffsetNotAdvancing => "offset_not_advancing"@,
        }
    }

    pub fn as_str(&self) -> (r: &'static str)
        ensures
            r@ == self.name(),
    {
        match self {
            TerminationReason::EndedOnEmptyPage => "ended_on_empty_page",
            TerminationReason::HitMaxPagesCap => "hit_max_pages_cap",
            TerminationReason::OffsetNotAdvancing => "offset_not_advancing",
        }
    }

    /// Whether the fetch was possibly cut short.
    pub fn is_suspect(&self) -> (r: bool)
        ensures
            r == (*self == TerminationReason::HitMaxPagesCap),
    {
        match self {
            TerminationReason::HitMaxPagesCap => true,
            _ => false,
        }
    }
}

/// How a paginated fetch ended: pages consumed, and why it stopped.
#[derive(Debug, Clone, Copy, PartialEq, Eq, Structural)]
pub struct PaginationOutcome {
    pub pages_fetched: u32,
    pub termination: TerminationReason,
}

impl PaginationOutcome {
    /// Outcome of an endpoint without pages: one page, healthy stop.
    pub fn single_page() -> (r: PaginationOutcome)
        ensures
            r.pages_fetched == 1,
            r.termination == TerminationReason::EndedOnEmptyPage,
    {
        PaginationOutcome { pages_fetched: 1, termination: TerminationReason::EndedOnEmptyPage }
    }
}

/// Whether paging stops after a page with so many records.
pub fn should_stop_page_pagination(records_on_page: usize) -> (r: bool)
    ensures
        r == (records_on_page == 0),
{
    records_on_page == 0
}

/// Whether offset paging stops after a page with so many records: on an empty
/// page, or where the offset fails to advance.
pub fn should_stop_offset_pagination(
    records_on_page: usize,
    current_offset: i64,
    next_offset: i64,
) -> (r: bool)
    ensures
        r == (records_on_page == 0 || next_offset <= current_offset),
{
    records_on_page == 0 || next_offset <= current_offset
}

/// The cap on pages that a setting asks for: a positive number, else none, that
/// is the largest there is.
pub open spec fn page_cap(setting: Option<Seq<char>>) -> nat {
    match setting {
        Some(text) => match unsigned_value(text, u32::MAX as nat) {
            Ok(n) => if n > 0 {
                n
            } else {
                u32::MAX as nat
            },
            Err(_) => u32::MAX as nat,
        },
        None => u32::MAX as nat,
    }
}

/// The cap on pages, from the setting `XERO_MAX_PAGES_PER_ENTITY`.
pub fn max_pages_per_entity(setting: Option<&str>) -> (r: u32)
    ensures
        r == page_cap(
            match setting {
                Some(s) => Some(s@),
                None => None,
            },
        ),
        r > 0,
{
    if let Some(text) = setting {
        if let Ok(n) = parse_unsigned(text, u32::MAX as u64) {
            if n > 0 {
                return n as u32;
            }
        }
    }
    u32::MAX
}

/// How an endpoint hands out its records.
#[derive(Debug, Clone, Copy, PartialEq, Eq, Structural)]
pub enum PageMode {
    /// All at once.
    Single,
    /// By page number, from one.
    Numbered,
    /// By offset, from zero.
    Offset,
}

/// The next page to ask for.
#[derive(Debug, Clone, Copy, PartialEq, Eq, Structural)]
pub enum Pick {
    Whole,
    Page(u32),
    /// Offset, and how many pages have been asked for with this one.
    Offset(i64, u32),
}

/// A place in the pages of an endpoint.
#[derive(Debug, Clone, Copy, PartialEq, Eq, Structural)]
pub struct Cursor {
    mode: PageMode,
    cap: u32,
    fetched: u32,
    offset: i64,
    end: Option<TerminationReason>,
}

/// The mathematical value of a [`Cursor`].
pub struct CursorView {
    pub mode: PageMode,
    /// Pages that may be asked for.
    pub cap: nat,
    /// Pages consumed. The empty page that ends a numbered walk is not counted.
    pub fetched: nat,
    pub offset: i64,
    pub end: Option<TerminationReason>,
}

impl CursorView {
    /// The start of the pages.
    pub open spec fn start(mode: PageMode, cap: nat) -> CursorView {
        CursorView {
            mode,
            cap,
            fetched: 0,
            offset: 0,
            end: if mode != PageMode::Single && cap == 0 {
                Some(TerminationReason::HitMaxPagesCap)
            } else {
                None
            },
        }
    }

    /// The next page to ask for, while the walk has not ended.
    pub open spec fn pick(self) -> Option<Pick> {
        if self.end is Some {
            None
        } else {
            match self.mode {
                PageMode::Single => Some(Pick::Whole),
                PageMode::Numbered => Some(Pick::Page((self.fetched + 1) as u32)),
                PageMode::Offset => Some(Pick::Offset(self.offset, (self.fetched + 1) as u32)),
            }
        }
    }

    /// The cap's verdict after a page that does not end the walk by itself.
    pub open spec fn capped(self) -> Option<TerminationReason> {
        if self.fetched >= self.cap {
            Some(TerminationReason::HitMaxPagesCap)
        } else {
            None
        }
    }

    /// The place after a page with `count` records, of which `journal` is the
    /// largest journal number.
    pub open spec fn after(self, count: nat, journal: Option<i64>) -> CursorView {
        let one_more = CursorView { fetched: self.fetched + 1, ..self };
        match self.mode {
            PageMode::Single => CursorView {
                end: Some(TerminationReason::EndedOnEmptyPage),
                ..one_more
            },
            PageMode::Numbered => if count == 0 {
                CursorView { end: Some(TerminationReason::EndedOnEmptyPage), ..self }
            } else {
                CursorView { end: one_more.capped(), ..one_more }
            },
            PageMode::Offset => {
                let next = match journal {
                    Some(n) => n,
                    None => self.offset,
                };
                if count == 0 {
                    CursorView { end: Some(TerminationReason::EndedOnEmptyPage), ..one_more }
                } else if next <= self.offset {
                    CursorView { end: Some(TerminationReason::OffsetNotAdvancing), ..one_more }
                } else {
                    CursorView { offset: next, end: one_more.capped(), ..one_more }
                }
            },
        }
    }

    /// What holds of every place that a walk reaches.
    pub open spec fn wf(self) -> bool {
        &&& self.cap <= u32::MAX
        &&& self.fetched <= u32::MAX
        &&& self.mode != PageMode::Single ==> self.fetched <= self.cap && (self.fetched == self.cap
            ==> self.end is Some)
        &&& self.mode == PageMode::Single ==> self.fetched <= 1 && (self.fetched == 1
            ==> self.end is Some)
    }

    /// How the walk ended, once it has.
    pub open spec fn outcome(self) -> Option<PaginationOutcome> {
        match self.end {
            Some(termination) => Some(
                PaginationOutcome { pages_fetched: self.fetched as u32, termination },
            ),
            None => None,
        }
    }
}

impl View for Cursor {
    type V = CursorView;

    closed spec fn view(&self) -> CursorView {
        CursorView {
            mode: self.mode,
            cap: self.cap as nat,
            fetched: self.fetched as nat,
            offset: self.offset,
            end: self.end,
        }
    }
}

impl Cursor {
    #[verifier::type_invariant]
    pub open spec fn inv(self) -> bool {
        self@.wf()
    }

    /// The start of the pages.
    pub fn new(mode: PageMode, cap: u32) -> (r: Cursor)
        ensures
            r@ == CursorView::start(mode, cap as nat),
            r@.wf(),
    {
        let end = if mode != PageMode::Single && cap == 0 {
            Some(TerminationReason::HitMaxPagesCap)
        } else {
            None
        };
        Cursor { mode, cap, fetched: 0, offset: 0, end }
    }

    /// The next page to ask for, while the walk has not ended.
    pub fn next(&self) -> (r: Option<Pick>)
        ensures
            r == self@.pick(),
    {
        proof {
            use_type_invariant(self);
        }
        if self.end.is_some() {
            return None;
        }
        match self.mode {
            PageMode::Single => Some(Pick::Whole),
            PageMode::Numbered => Some(Pick::Page(self.fetched + 1)),
            PageMode::Offset => Some(Pick::Offset(self.offset, self.fetched + 1)),
        }
    }

    /// The place after a page with `count` records, of which `journal` is the
    /// largest journal number.
    pub fn advanced(&self, count: usize, journal: Option<i64>) -> (r: Cursor)
        requires
            self@.end is None,
        ensures
            r@ == self@.after(count as nat, journal),
            r@.wf(),
    {
        proof {
            use_type_invariant(self);
        }
        let fetched: u32 = self.fetched + 1;
        let capped = if fetched >= self.cap {
            Some(TerminationReason::HitMaxPagesCap)
        } else {
            None
        };
        let ended = Some(TerminationReason::EndedOnEmptyPage);
        match self.mode {
            PageMode::Single => Cursor {
                mode: self.mode,
                cap: self.cap,
                fetched,
                offset: self.offset,
                end: ended,
            },
            PageMode::Numbered => if should_stop_page_pagination(count) {
                Cursor {
                    mode: self.mode,
                    cap: self.cap,
                    fetched: self.fetched,
                    offset: self.offset,
                    end: ended,
                }
            } else {
                Cursor {
                    mode: self.mode,
                    cap: self.cap,
                    fetched,
                    offset: self.offset,
                    end: capped,
                }
            },
            PageMode::Offset => {
                let next: i64 = match journal {
                    Some(n) => n,
                    None => self.offset,
                };
                if count == 0 {
                    Cursor {
                        mode: self.mode,
                        cap: self.cap,
                        fetched,
                        offset: self.offset,
                        end: ended,
                    }
                } else if should_stop_offset_pagination(count, self.offset, next) {
                    Cursor {
                        mode: self.mode,
                        cap: self.cap,
                        fetched,
                        offset: self.offset,
                        end: Some(TerminationReason::OffsetNotAdvancing),
                    }
                } else {
                    Cursor { mode: self.mode, cap: self.cap, fetched, offset: next, end: capped }
                }
            },
        }
    }

    /// Pages that may be asked for.
    pub fn cap(&self) -> (r: u32)
        ensures
            r == self@.cap,
    {
        self.cap
    }

    /// How the walk ended, once it has.
    pub fn outcome(&self) -> (r: Option<PaginationOutcome>)
        ensures
            r == self@.outcome(),
    {
        match self.end {
            Some(termination) => Some(
                PaginationOutcome { pages_fetched: self.fetched, termination },
            ),
            None => None,
        }
    }
}

/// What a page reports: number of records, and largest journal number.
pub type PageReport = (nat, Option<i64>);

/// The place reached from the start by the given pages, in order.
pub open spec fn walk(mode: PageMode, cap: nat, pages: Seq<PageReport>) -> CursorView
    decreases pages.len(),
{
    if pages.len() == 0 {
        CursorView::start(mode, cap)
    } else {
        walk(mode, cap, pages.drop_last()).after(pages.last().0, pages.last().1)
    }
}

/// Whether the pages are those of one walk: each was asked for.
pub open spec fn is_walk(mode: PageMode, cap: nat, pages: Seq<PageReport>) -> bool {
    forall|n: int| 0 <= n < pages.len() ==> (#[trigger] walk(mode, cap, pages.take(n))).end is None
}

/// Every walk ends: no more pages are asked for than the cap allows, and a walk
/// keeps its bounds.
pub proof fn walk_ends(mode: PageMode, cap: nat, pages: Seq<PageReport>)
    requires
        cap <= u32::MAX,
        is_walk(mode, cap, pages),
    ensures
        walk(mode, cap, pages).wf(),
        walk(mode, cap, pages).mode == mode,
        walk(mode, cap, pages).cap == cap,
        mode == PageMode::Single ==> pages.len() <= 1,
        mode != PageMode::Single ==> pages.len() <= cap,
        walk(mode, cap, pages).end is None ==> walk(mode, cap, pages).fetched == pages.len(),
    decreases pages.len(),
{
    if pages.len() > 0 {
        let front = pages.drop_last();
        assert(front =~= pages.take(pages.len() - 1));
        assert forall|n: int| 0 <= n < front.len() implies (#[trigger] walk(
            mode,
            cap,
            front.take(n),
        )).end is None by {
            assert(front.take(n) =~= pages.take(n));
        }
        walk_ends(mode, cap, front);
        assert(walk(mode, cap, pages.take(pages.len() - 1)).end is None);
    }
}

/// A page-numbered walk goes on until an empty page or the cap: a short page
/// never ends it, and it is suspect exactly when it ended without an empty page.
pub proof fn numbered_walk_ends_on_empty_page(cap: nat, pages: Seq<PageReport>)
    requires
        cap <= u32::MAX,
        pages.len() > 0,
        is_walk(PageMode::Numbered, cap, pages),
    ensures
        ({
            let w = walk(PageMode::Numbered, cap, pages);
            &&& w.end == Some(TerminationReason::EndedOnEmptyPage) <==> pages.last().0 == 0
            &&& w.end == Some(TerminationReason::HitMaxPagesCap) <==> pages.last().0 > 0
                && pages.len() == cap
            &&& w.end is None <==> pages.last().0 > 0 && pages.len() < cap
            &&& w.fetched == (if pages.last().0 == 0 {
                pages.len() - 1
            } else {
                pages.len() as int
            })
        }),
        forall|n: int| 0 <= n < pages.len() - 1 ==> (#[trigger] pages[n]).0 > 0,
{
    walk_ends(PageMode::Numbered, cap, pages);
    let front = pages.drop_last();
    assert(front =~= pages.take(pages.len() - 1));
    assert forall|n: int| 0 <= n < front.len() implies (#[trigger] walk(
        PageMode::Numbered,
        cap,
        front.take(n),
    )).end is None by {
        assert(front.take(n) =~= pages.take(n));
    }
    walk_ends(PageMode::Numbered, cap, front);
    assert(walk(PageMode::Numbered, cap, pages.take(pages.len() - 1)).end is None);
    assert forall|n: int| 0 <= n < pages.len() - 1 implies (#[trigger] pages[n]).0 > 0 by {
        let upto = pages.take(n + 1);
        assert(walk(PageMode::Numbered, cap, upto).end is None);
        assert(upto.drop_last() =~= pages.take(n));
        assert(upto.last() == pages[n]);
    }
}

/// The offset asked for grows from page to page, so an offset walk cannot go
/// round in circles.
pub proof fn offset_advances(place: CursorView, count: nat, journal: Option<i64>)
    requires
        place.mode == PageMode::Offset,
        place.after(count, journal).end is None,
    ensures
        place.after(count, journal).offset > place.offset,
        journal == Some(place.after(count, journal).offset),
        count > 0,
{
}

/// One more page that was asked for makes a longer walk.
pub proof fn walk_extends(mode: PageMode, cap: nat, pages: Seq<PageReport>, next: PageReport)
    requires
        is_walk(mode, cap, pages),
        walk(mode, cap, pages).end is None,
    ensures
        is_walk(mode, cap, pages.push(next)),
        walk(mode, cap, pages.push(next)) == walk(mode, cap, pages).after(next.0, next.1),
{
    let longer = pages.push(next);
    assert(longer.drop_last() =~= pages);
    assert forall|n: int| 0 <= n < longer.len() implies (#[trigger] walk(
        mode,
        cap,
        longer.take(n),
    )).end is None by {
        if n < pages.len() {
            assert(longer.take(n) =~= pages.take(n));
        } else {
            assert(longer.take(n) =~= pages);
        }
    }
}

/// A positive number caps the pages at that number; anything else, and nothing, sets no
/// cap below the largest there is.
pub proof fn caps_are_positive_numbers(setting: Seq<char>, n: nat)
    ensures
        0 < n <= u32::MAX ==> page_cap(Some(numeral(n))) == n,
        page_cap(Some(numeral(0))) == u32::MAX,
        page_cap(None) == u32::MAX,
        page_cap(Some(setting)) > 0,
        !all_digits(setting) && setting[0] != '+' ==> page_cap(Some(setting)) == u32::MAX,
        setting.len() == 0 ==> page_cap(Some(setting)) == u32::MAX,
{
    numerals_read_back(n, u32::MAX as nat);
    numerals_read_back(0, u32::MAX as nat);
    digits_read_as_their_number(setting, u32::MAX as nat);
}

/// The pages of a numbered walk are asked for in turn, from one on, as long as none was
/// empty and the cap is not reached.
pub proof fn numbered_pages_are_asked_in_turn(cap: nat, pages: Seq<PageReport>)
    requires
        cap <= u32::MAX,
        is_walk(PageMode::Numbered, cap, pages),
    ensures
        ({
            let w = walk(PageMode::Numbered, cap, pages);
            &&& pages.len() < cap && (pages.len() == 0 || pages.last().0 > 0) ==> w.pick() == Some(
                Pick::Page((pages.len() + 1) as u32),
            )
            &&& w.pick() is Some ==> pages.len() < cap
            &&& pages.len() > 0 && pages.last().0 == 0 ==> w.pick() is None
        }),
{
    walk_ends(PageMode::Numbered, cap, pages);
    if pages.len() > 0 {
        numbered_walk_ends_on_empty_page(cap, pages);
    }
}

/// An endpoint without pages is asked once, and the one reply is a healthy end however
/// many records it has and whatever the cap.
pub proof fn single_walk_is_one_request(cap: nat, count: nat, journal: Option<i64>)
    ensures
        CursorView::start(PageMode::Single, cap).pick() == Some(Pick::Whole),
        CursorView::start(PageMode::Single, cap).after(count, journal).pick() is None,
        CursorView::start(PageMode::Single, cap).after(count, journal).outcome() == Some(
            PaginationOutcome {
                pages_fetched: 1,
                termination: TerminationReason::EndedOnEmptyPage,
            },
        ),
{
}

/// An offset walk starts at offset zero and goes on from the largest journal number of
/// each page. It ends on an empty page, on a page whose journal numbers do not go
/// beyond the offset, or at the cap, and counts every page.
pub proof fn offset_walk_follows_journals(cap: nat, pages: Seq<PageReport>)
    requires
        cap <= u32::MAX,
        is_walk(PageMode::Offset, cap, pages),
    ensures
        pages.len() == 0 && cap > 0 ==> walk(PageMode::Offset, cap, pages).pick() == Some(
            Pick::Offset(0, 1),
        ),
        pages.len() > 0 ==> ({
            let w = walk(PageMode::Offset, cap, pages);
            let before = walk(PageMode::Offset, cap, pages.drop_last()).offset;
            let last = pages.last();
            let goes_on = last.0 > 0 && (last.1 matches Some(n) && n > before);
            &&& w.fetched == pages.len()
            &&& w.end == Some(TerminationReason::EndedOnEmptyPage) <==> last.0 == 0
            &&& w.end == Some(TerminationReason::OffsetNotAdvancing) <==> last.0 > 0 && !goes_on
            &&& w.end == Some(TerminationReason::HitMaxPagesCap) <==> goes_on && pages.len() == cap
            &&& w.end is None <==> goes_on && pages.len() < cap
            &&& goes_on && pages.len() < cap ==> w.pick() == Some(
                Pick::Offset(last.1->0, (pages.len() + 1) as u32),
            )
        }),
{
    walk_ends(PageMode::Offset, cap, pages);
    if pages.len() > 0 {
        let front = pages.drop_last();
        assert(front =~= pages.take(pages.len() - 1));
        assert(walk(PageMode::Offset, cap, pages.take(pages.len() - 1)).end is None);
        assert forall|n: int| 0 <= n < front.len() implies (#[trigger] walk(
            PageMode::Offset,
            cap,
            front.take(n),
        )).end is None by {
            assert(front.take(n) =~= pages.take(n));
        }
        walk_ends(PageMode::Offset, cap, front);
    }
}

/// A walk has an outcome if and only if it asks for no more; the outcome counts its
/// pages and says why it ended.
pub proof fn outcomes_come_at_the_end(place: CursorView)
    requires
        place.wf(),
    ensures
        place.outcome() is Some <==> place.pick() is None,
        place.outcome() matches Some(o) ==> o.pages_fetched == place.fetched && place.end == Some(
            o.termination,
        ),
{
}

/// A cap of zero leaves nothing to ask for, except of an endpoint without pages, and
/// such a walk is suspect.
pub proof fn zero_cap_asks_for_nothing(mode: PageMode)
    requires
        mode != PageMode::Single,
    ensures
        CursorView::start(mode, 0).outcome() == Some(
            PaginationOutcome { pages_fetched: 0, termination: TerminationReason::HitMaxPagesCap },
        ),
{
}

/// The reasons have different names.
pub proof fn termination_names_differ(a: TerminationReason, b: TerminationReason)
    requires
        a.name() == b.name(),
    ensures
        a == b,
{
    reveal_strlit("ended_on_empty_page");
    reveal_strlit("hit_max_pages_cap");
    reveal_strlit("offset_not_advancing");
    assert("ended_on_empty_page"@.len() == 19);
    assert("hit_max_pages_cap"@.len() == 17);
    assert("offset_not_advancing"@.len() == 20);
}

/// A page with records never ends a numbered walk below the cap, whatever else it holds: the
/// next page is asked for. An empty one ends it and is not counted.
pub proof fn full_pages_lead_on(place: CursorView, count: nat, journal: Option<i64>)
    requires
        place.wf(),
        place.mode == PageMode::Numbered,
        place.end is None,
    ensures
        place.pick() == Some(Pick::Page((place.fetched + 1) as u32)),
        count > 0 && place.fetched + 1 < place.cap ==> place.after(count, journal).pick() == Some(
            Pick::Page((place.fetched + 2) as u32),
        ),
        count > 0 && place.fetched + 1 == place.cap ==> place.after(count, journal).outcome()
            == Some(
            PaginationOutcome {
                pages_fetched: place.cap as u32,
                termination: TerminationReason::HitMaxPagesCap,
            },
        ),
        count == 0 ==> place.after(count, journal).outcome() == Some(
            PaginationOutcome {
                pages_fetched: place.fetched as u32,
                termination: TerminationReason::EndedOnEmptyPage,
            },
        ),
{
}

} // verus!
