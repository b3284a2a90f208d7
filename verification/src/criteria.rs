//! Criteria on records, the visible set that a filter leaves of a store,
//! and the match list that a search finds in the visible set.

use crate::level::Level;
use crate::record::Log;
use crate::text::{contains_ci, empty_is_substring, has_substring, lowercase, to_lower};
use vstd::prelude::*;

verus! {

/// A predicate on records: one flag for each known level and three
/// case-insensitive substring tests. The filter and the search each hold one.
#[derive(Debug)]
pub struct Criteria {
    pub level_debug: bool,
    pub level_info: bool,
    pub level_warning: bool,
    pub level_error: bool,
    pub level_panic: bool,
    pub message: String,
    pub payload: String,
    pub caller: String,
}

impl Clone for Criteria {
    fn clone(&self) -> (r: Self)
        ensures
            r == *self,
    {
        Criteria {
            level_debug: self.level_debug,
            level_info: self.level_info,
            level_warning: self.level_warning,
            level_error: self.level_error,
            level_panic: self.level_panic,
            message: self.message.clone(),
            payload: self.payload.clone(),
            caller: self.caller.clone(),
        }
    }
}

impl Criteria {
    /// The level gate: `Unknown` always passes, a known level passes when
    /// its flag is set.
    pub open spec fn level_ok(self, level: Level) -> bool {
        match level {
            Level::Unknown => true,
            Level::Debug => self.level_debug,
            Level::Info => self.level_info,
            Level::Warning => self.level_warning,
            Level::Error => self.level_error,
            Level::Panic => self.level_panic,
        }
    }

    /// A record passes when it passes the level gate and each of the three
    /// text gates.
    pub open spec fn accepts(self, row: Log) -> bool {
        &&& self.level_ok(row.level)
        &&& contains_ci(row.message@, self.message@)
        &&& contains_ci(row.payload@, self.payload@)
        &&& contains_ci(row.caller@, self.caller@)
    }

    /// No flag is set and no text is asked for.
    pub open spec fn is_idle(self) -> bool {
        &&& !self.level_debug
        &&& !self.level_info
        &&& !self.level_warning
        &&& !self.level_error
        &&& !self.level_panic
        &&& self.message@.len() == 0
        &&& self.payload@.len() == 0
        &&& self.caller@.len() == 0
    }

    /// Every flag is set and no text is asked for.
    pub open spec fn is_open(self) -> bool {
        &&& self.level_debug
        &&& self.level_info
        &&& self.level_warning
        &&& self.level_error
        &&& self.level_panic
        &&& self.message@.len() == 0
        &&& self.payload@.len() == 0
        &&& self.caller@.len() == 0
    }

    /// The criteria that let every record pass: where a filter starts.
    pub fn open() -> (r: Criteria)
        ensures
            r.is_open(),
    {
        Criteria {
            level_debug: true,
            level_info: true,
            level_warning: true,
            level_error: true,
            level_panic: true,
            message: String::new(),
            payload: String::new(),
            caller: String::new(),
        }
    }

    /// The criteria that ask for nothing: where a search starts.
    pub fn idle() -> (r: Criteria)
        ensures
            r.is_idle(),
    {
        Criteria {
            level_debug: false,
            level_info: false,
            level_warning: false,
            level_error: false,
            level_panic: false,
            message: String::new(),
            payload: String::new(),
            caller: String::new(),
        }
    }

    /// The criteria with the flag of a known level turned over; `Unknown`
    /// has no flag and leaves them as they are.
    pub open spec fn toggled(self, level: Level) -> Criteria {
        match level {
            Level::Unknown => self,
            Level::Debug => Criteria { level_debug: !self.level_debug, ..self },
            Level::Info => Criteria { level_info: !self.level_info, ..self },
            Level::Warning => Criteria { level_warning: !self.level_warning, ..self },
            Level::Error => Criteria { level_error: !self.level_error, ..self },
            Level::Panic => Criteria { level_panic: !self.level_panic, ..self },
        }
    }

    /// Turns the flag of a level over.
    pub fn toggle(&mut self, level: Level)
        ensures
            *final(self) == old(self).toggled(level),
    {
        match level {
            Level::Unknown => {},
            Level::Debug => {
                self.level_debug = !self.level_debug;
            },
            Level::Info => {
                self.level_info = !self.level_info;
            },
            Level::Warning => {
                self.level_warning = !self.level_warning;
            },
            Level::Error => {
                self.level_error = !self.level_error;
            },
            Level::Panic => {
                self.level_panic = !self.level_panic;
            },
        }
    }

    /// Whether the criteria ask for nothing.
    pub fn check_idle(&self) -> (r: bool)
        ensures
            r == self.is_idle(),
    {
        !self.level_debug && !self.level_info && !self.level_warning && !self.level_error
            && !self.level_panic && self.message.as_str().is_empty()
            && self.payload.as_str().is_empty() && self.caller.as_str().is_empty()
    }

    /// Whether a level passes the level gate.
    pub fn check_level(&self, level: Level) -> (r: bool)
        ensures
            r == self.level_ok(level),
    {
        match level {
            Level::Unknown => true,
            Level::Debug => self.level_debug,
            Level::Info => self.level_info,
            Level::Warning => self.level_warning,
            Level::Error => self.level_error,
            Level::Panic => self.level_panic,
        }
    }

    /// The three texts in lower case, ready for many tests.
    fn folded(&self) -> (r: Needles)
        ensures
            r.of(*self),
    {
        Needles {
            message: to_lower(self.message.as_str()),
            payload: to_lower(self.payload.as_str()),
            caller: to_lower(self.caller.as_str()),
        }
    }

    /// Tests one record.
    pub fn check(&self, row: &Log) -> (r: bool)
        ensures
            r == self.accepts(*row),
    {
        let needles = self.folded();
        self.check_folded(&needles, row)
    }

    /// Tests one record against texts that were put in lower case before.
    fn check_folded(&self, needles: &Needles, row: &Log) -> (r: bool)
        requires
            needles.of(*self),
        ensures
            r == self.accepts(*row),
    {
        self.check_level(row.level)
            && has_substring(to_lower(row.message.as_str()).as_str(), needles.message.as_str())
            && has_substring(to_lower(row.payload.as_str()).as_str(), needles.payload.as_str())
            && has_substring(to_lower(row.caller.as_str()).as_str(), needles.caller.as_str())
    }

    /// Open criteria accept every record.
    proof fn open_accepts_all(self, needles: Needles, row: Log)
        requires
            self.is_open(),
            needles.of(self),
        ensures
            self.accepts(row),
    {
        empty_is_substring(lowercase(row.message@));
        empty_is_substring(lowercase(row.payload@));
        empty_is_substring(lowercase(row.caller@));
        assert(lowercase(self.message@) =~= Seq::<char>::empty());
        assert(lowercase(self.payload@) =~= Seq::<char>::empty());
        assert(lowercase(self.caller@) =~= Seq::<char>::empty());
    }
}

/// The three texts of some criteria in lower case.
struct Needles {
    message: String,
    payload: String,
    caller: String,
}

impl Needles {
    /// These are the texts of `criteria` in lower case.
    spec fn of(self, criteria: Criteria) -> bool {
        &&& self.message@ == lowercase(criteria.message@)
        &&& self.payload@ == lowercase(criteria.payload@)
        &&& self.caller@ == lowercase(criteria.caller@)
        &&& criteria.message@.len() == 0 ==> self.message@.len() == 0
        &&& criteria.payload@.len() == 0 ==> self.payload@.len() == 0
        &&& criteria.caller@.len() == 0 ==> self.caller@.len() == 0
    }
}

/// The records of `store` that `filter` accepts, in the order of the store.
pub open spec fn visible_rows(store: Seq<Log>, filter: Criteria) -> Seq<Log> {
    store.filter(|row: Log| filter.accepts(row))
}

/// The positions below `upto` at which `rows` holds a record that `search`
/// accepts, in rising order.
pub open spec fn accepted_below(rows: Seq<Log>, search: Criteria, upto: nat) -> Seq<usize>
    decreases upto,
{
    if upto == 0 {
        Seq::empty()
    } else {
        let before = accepted_below(rows, search, (upto - 1) as nat);
        if upto <= rows.len() && search.accepts(rows[upto - 1]) {
            before.push((upto - 1) as usize)
        } else {
            before
        }
    }
}

/// The positions that a search finds: none while the search is idle, else
/// every position whose record it accepts, in rising order.
pub open spec fn found_rows(rows: Seq<Log>, search: Criteria) -> Seq<usize> {
    if search.is_idle() {
        Seq::empty()
    } else {
        accepted_below(rows, search, rows.len())
    }
}

/// A record is visible exactly when the store holds it and the filter
/// accepts it: the level gate and the three text gates all hold.
pub proof fn visible_rows_membership(store: Seq<Log>, filter: Criteria, row: Log)
    ensures
        visible_rows(store, filter).contains(row) <==> store.contains(row) && {
            &&& filter.level_ok(row.level)
            &&& contains_ci(row.message@, filter.message@)
            &&& contains_ci(row.payload@, filter.payload@)
            &&& contains_ci(row.caller@, filter.caller@)
        },
    decreases store.len(),
{
    reveal(Seq::filter);
    let accepts = |r: Log| filter.accepts(r);
    if store.len() > 0 {
        let head = store.drop_last();
        visible_rows_membership(head, filter, row);
        let kept = head.filter(accepts);
        if store.contains(row) {
            let at = choose|at: int| 0 <= at < store.len() && store[at] == row;
            if at < store.len() - 1 {
                assert(head[at] == row);
            }
        }
        if head.contains(row) {
            let at = choose|at: int| 0 <= at < head.len() && head[at] == row;
            assert(store[at] == row);
        }
        if filter.accepts(store.last()) {
            let all = kept.push(store.last());
            assert(all.last() == store.last());
            if kept.contains(row) {
                let at = choose|at: int| 0 <= at < kept.len() && kept[at] == row;
                assert(all[at] == row);
            }
            if all.contains(row) {
                let at = choose|at: int| 0 <= at < all.len() && all[at] == row;
                if at < kept.len() {
                    assert(kept[at] == row);
                }
            }
            assert(store[store.len() - 1] == store.last());
        }
    }
}

/// The visible set keeps the order of the store: it is the store where the
/// filter accepts every record of it.
pub proof fn visible_rows_of_accepted(store: Seq<Log>, filter: Criteria)
    requires
        forall|i: int| 0 <= i < store.len() ==> filter.accepts(#[trigger] store[i]),
    ensures
        visible_rows(store, filter) == store,
    decreases store.len(),
{
    reveal(Seq::filter);
    if store.len() > 0 {
        let head = store.drop_last();
        assert forall|i: int| 0 <= i < head.len() implies filter.accepts(#[trigger] head[i]) by {
            assert(head[i] == store[i]);
        }
        visible_rows_of_accepted(head, filter);
        assert(filter.accepts(store[store.len() - 1]));
        assert(head.push(store.last()) =~= store);
    } else {
        assert(visible_rows(store, filter) =~= store);
    }
}

/// What a search finds below a bound: rising positions below the bound,
/// each of a record that the search accepts, and none such left out.
pub proof fn accepted_below_holds(rows: Seq<Log>, search: Criteria, upto: nat)
    requires
        upto <= rows.len(),
        rows.len() <= usize::MAX,
    ensures
        forall|k: int|
            0 <= k < accepted_below(rows, search, upto).len() ==> {
                &&& (#[trigger] accepted_below(rows, search, upto)[k]) < upto
                &&& search.accepts(rows[accepted_below(rows, search, upto)[k] as int])
            },
        forall|k: int, l: int|
            0 <= k < l < accepted_below(rows, search, upto).len() ==> (#[trigger] accepted_below(
                rows,
                search,
                upto,
            )[k]) < (#[trigger] accepted_below(rows, search, upto)[l]),
        forall|i: int|
            0 <= i < upto && search.accepts(#[trigger] rows[i]) ==> accepted_below(
                rows,
                search,
                upto,
            ).contains(i as usize),
    decreases upto,
{
    if upto > 0 {
        let before = accepted_below(rows, search, (upto - 1) as nat);
        let all = accepted_below(rows, search, upto);
        accepted_below_holds(rows, search, (upto - 1) as nat);
        assert forall|i: int| 0 <= i < upto && search.accepts(#[trigger] rows[i]) implies all.contains(
            i as usize,
        ) by {
            if i < upto - 1 {
                assert(before.contains(i as usize));
                let at = choose|at: int| 0 <= at < before.len() && before[at] == i as usize;
                assert(all[at] == i as usize);
            } else {
                assert(all.last() == i as usize);
            }
        }
    }
}

/// An idle search finds nothing, whatever is visible.
pub proof fn idle_search_finds_nothing(rows: Seq<Log>, search: Criteria)
    requires
        search.is_idle(),
    ensures
        found_rows(rows, search) == Seq::<usize>::empty(),
{
}

/// The visible set: the records of the store that pass the filter. With open
/// criteria it is the store itself.
pub fn visible(store: &Vec<Log>, filter: &Criteria) -> (r: Vec<Log>)
    ensures
        r@ == visible_rows(store@, *filter),
        filter.is_open() ==> r@ == store@,
{
    let needles = filter.folded();
    let mut out: Vec<Log> = Vec::new();
    let mut i: usize = 0;
    proof {
        reveal(Seq::filter);
        assert(store@.subrange(0, 0) =~= Seq::<Log>::empty());
    }
    while i < store.len()
        invariant
            i <= store.len(),
            needles.of(*filter),
            out@ == visible_rows(store@.subrange(0, i as int), *filter),
            filter.is_open() ==> out@ == store@.subrange(0, i as int),
        decreases store.len() - i,
    {
        let keep = filter.check_folded(&needles, &store[i]);
        proof {
            reveal(Seq::filter);
            let next = store@.subrange(0, i + 1);
            assert(next.drop_last() =~= store@.subrange(0, i as int));
            assert(next.last() == store@[i as int]);
            if filter.is_open() {
                filter.open_accepts_all(needles, store@[i as int]);
                assert(next =~= store@.subrange(0, i as int).push(store@[i as int]));
            }
        }
        if keep {
            out.push(store[i].clone());
        }
        i += 1;
    }
    proof {
        assert(store@.subrange(0, store.len() as int) =~= store@);
    }
    out
}

/// The match list of a search over the visible set.
pub fn matches(rows: &Vec<Log>, search: &Criteria) -> (r: Vec<usize>)
    ensures
        r@ == found_rows(rows@, *search),
        search.is_idle() ==> r@.len() == 0,
{
    let mut out: Vec<usize> = Vec::new();
    if search.check_idle() {
        return out;
    }
    let needles = search.folded();
    let mut i: usize = 0;
    while i < rows.len()
        invariant
            i <= rows.len(),
            needles.of(*search),
            out@ == accepted_below(rows@, *search, i as nat),
        decreases rows.len() - i,
    {
        if search.check_folded(&needles, &rows[i]) {
            out.push(i);
        }
        i += 1;
    }
    out
}

} // verus!
