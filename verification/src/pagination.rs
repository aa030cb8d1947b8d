//! Keyset pagination over internal keys.
//!
//! A listing is cut into pages by key, never by offset. A request names a
//! direction, a page size and up to two cursors, each the external id of
//! an entity. The [`Paginator`] decides what has to be done for a request,
//! one step at a time: which cursor to look up next, which range of keys
//! to fetch, and what page the fetched rows make. Looking up and fetching
//! are left to whoever holds the data.

use vstd::prelude::*;
use vstd::string::StrSliceExecFns;

verus! {

/// The page size of a request that names none.
pub const DEFAULT_LIMIT: i64 = 10;

/// The smallest page size.
pub const MIN_LIMIT: i64 = 1;

/// The largest page size.
pub const MAX_LIMIT: i64 = 100;

/// The direction of a listing, by internal key.
#[derive(Debug, Clone, Copy, PartialEq, Eq, Structural)]
pub enum SortOrder {
    Ascending,
    Descending,
}

impl SortOrder {
    /// The direction that a request asks for: ascending where it says
    /// `asc`, descending where it says anything else or nothing.
    pub open spec fn spec_from_param(order: Option<Seq<char>>) -> SortOrder {
        if order == Some("asc"@) {
            SortOrder::Ascending
        } else {
            SortOrder::Descending
        }
    }

    /// The direction that a request asks for.
    pub fn from_param(order: Option<&str>) -> (direction: SortOrder)
        ensures
            direction == Self::spec_from_param(
                match order {
                    Some(text) => Some(text@),
                    None => None,
                },
            ),
    {
        match order {
            Some(text) => {
                proof {
                    reveal_strlit("asc");
                }
                if text.unicode_len() == 3 && text.get_char(0) == 'a' && text.get_char(1) == 's'
                    && text.get_char(2) == 'c' {
                    assert(text@ =~= "asc"@);
                    SortOrder::Ascending
                } else {
                    SortOrder::Descending
                }
            },
            None => SortOrder::Descending,
        }
    }

    /// Whether `key` comes after `other` in a listing of this direction.
    pub open spec fn follows(self, key: i64, other: i64) -> bool {
        match self {
            SortOrder::Ascending => key > other,
            SortOrder::Descending => key < other,
        }
    }
}

/// The page size that a request gets: what it asks for, or
/// [`DEFAULT_LIMIT`], brought into the range from [`MIN_LIMIT`] to
/// [`MAX_LIMIT`].
pub open spec fn spec_clamp_limit(requested: Option<i64>) -> i64 {
    let wanted = match requested {
        Some(limit) => limit,
        None => DEFAULT_LIMIT,
    };
    if wanted < MIN_LIMIT {
        MIN_LIMIT
    } else if wanted > MAX_LIMIT {
        MAX_LIMIT
    } else {
        wanted
    }
}

/// The page size that a request gets.
pub fn clamp_limit(requested: Option<i64>) -> (limit: i64)
    ensures
        limit == spec_clamp_limit(requested),
        MIN_LIMIT <= limit <= MAX_LIMIT,
{
    let wanted = match requested {
        Some(limit) => limit,
        None => DEFAULT_LIMIT,
    };
    if wanted < MIN_LIMIT {
        MIN_LIMIT
    } else if wanted > MAX_LIMIT {
        MAX_LIMIT
    } else {
        wanted
    }
}

/// A range of keys, open at both ends: the keys greater than `above` and
/// less than `below`, where a bound that is `None` does not bind.
#[derive(Debug, Clone, Copy, PartialEq, Eq, Structural)]
pub struct KeyWindow {
    pub above: Option<i64>,
    pub below: Option<i64>,
}

impl KeyWindow {
    /// Whether a key lies in the range.
    pub open spec fn spec_contains(self, key: i64) -> bool {
        &&& self.above matches Some(bound) ==> key > bound
        &&& self.below matches Some(bound) ==> key < bound
    }

    /// Whether a key lies in the range.
    pub fn contains(&self, key: i64) -> (inside: bool)
        ensures
            inside == self.spec_contains(key),
    {
        let over = match self.above {
            Some(bound) => key > bound,
            None => true,
        };
        let under = match self.below {
            Some(bound) => key < bound,
            None => true,
        };
        over && under
    }
}

/// The range of keys that two resolved cursors leave.
pub open spec fn spec_key_window(
    order: SortOrder,
    after: Option<i64>,
    before: Option<i64>,
) -> KeyWindow {
    match order {
        SortOrder::Ascending => KeyWindow { above: after, below: before },
        SortOrder::Descending => KeyWindow { above: before, below: after },
    }
}

/// The range of keys that two resolved cursors leave: the keys that
/// follow `after` and that `before` follows, in the direction of the
/// listing.
pub fn key_window(order: SortOrder, after: Option<i64>, before: Option<i64>) -> (window: KeyWindow)
    ensures
        window == spec_key_window(order, after, before),
{
    match order {
        SortOrder::Ascending => KeyWindow { above: after, below: before },
        SortOrder::Descending => KeyWindow { above: before, below: after },
    }
}

/// A key is in the window of two cursors exactly if it comes after the
/// `after` cursor and before the `before` cursor in the direction of the
/// listing; both hold of a cursor that is not there.
pub proof fn window_holds_what_the_cursors_leave(
    order: SortOrder,
    after: Option<i64>,
    before: Option<i64>,
    key: i64,
)
    ensures
        spec_key_window(order, after, before).spec_contains(key) <==> {
            &&& after matches Some(cursor) ==> order.follows(key, cursor)
            &&& before matches Some(cursor) ==> order.follows(cursor, key)
        },
{
}

/// One bounded, ordered fetch: the rows of `scope` (of every scope where
/// it is `None`) whose keys lie in `window`, in `order`, the first `limit`
/// of them.
#[derive(Debug, Clone, Copy, PartialEq, Eq, Structural)]
pub struct RangeQuery {
    pub scope: Option<i64>,
    pub window: KeyWindow,
    pub order: SortOrder,
    pub limit: i64,
}

/// Which of the two cursors of a request.
#[derive(Debug, Clone, Copy, PartialEq, Eq, Structural)]
pub enum CursorKind {
    After,
    Before,
}

/// A cursor of the request names no entity.
#[derive(Debug, Clone, Copy, PartialEq, Eq, Structural)]
pub enum InvalidCursorError {
    After,
    Before,
}

impl InvalidCursorError {
    /// The error for a cursor.
    pub open spec fn of(cursor: CursorKind) -> InvalidCursorError {
        match cursor {
            CursorKind::After => InvalidCursorError::After,
            CursorKind::Before => InvalidCursorError::Before,
        }
    }

    /// What [`InvalidCursorError::message`] returns, as a sequence of characters.
    pub open spec fn spec_message(self) -> Seq<char> {
        match self {
            InvalidCursorError::After => "Invalid after id"@,
            InvalidCursorError::Before => "Invalid before id"@,
        }
    }

    /// The error in words.
    pub fn message(&self) -> (text: String)
        ensures
            text@ == self.spec_message(),
    {
        match self {
            InvalidCursorError::After => "Invalid after id".to_string(),
            InvalidCursorError::Before => "Invalid before id".to_string(),
        }
    }
}

/// Whether more rows lie beyond a page, at either end.
#[derive(Debug, Clone, Copy, PartialEq, Eq, Structural)]
pub struct PaginationResponse {
    pub has_more_before: bool,
    pub has_more_after: bool,
}

/// The two flags of a page. Only the direction of the listing is probed:
/// a descending listing reports more rows after the page, an ascending
/// one before it, and the other flag is always `false`.
pub open spec fn spec_page_flags(order: SortOrder, has_more: bool) -> PaginationResponse {
    match order {
        SortOrder::Descending => PaginationResponse {
            has_more_before: false,
            has_more_after: has_more,
        },
        SortOrder::Ascending => PaginationResponse {
            has_more_before: has_more,
            has_more_after: false,
        },
    }
}

/// The two flags of a page, where `has_more` says whether the fetch
/// brought a row beyond the page.
pub fn page_flags(order: SortOrder, has_more: bool) -> (flags: PaginationResponse)
    ensures
        flags == spec_page_flags(order, has_more),
{
    match order {
        SortOrder::Descending => PaginationResponse {
            has_more_before: false,
            has_more_after: has_more,
        },
        SortOrder::Ascending => PaginationResponse {
            has_more_before: has_more,
            has_more_after: false,
        },
    }
}

/// One page of a listing.
#[derive(Debug)]
pub struct Page<T> {
    /// The rows of the page, in the order of the listing.
    pub items: Vec<T>,
    pub pagination: PaginationResponse,
}

/// How many of `fetched` rows a page of `limit` rows shows.
pub open spec fn page_len(fetched: nat, limit: i64) -> nat {
    if fetched > limit {
        limit as nat
    } else {
        fetched
    }
}

/// What a listing request carries, as it comes in.
#[derive(Debug)]
pub struct ListFilesQuery {
    /// The external id of the scope to list; every scope where it is `None`.
    pub tenant_id: Option<String>,
    pub limit: Option<i64>,
    pub order: Option<String>,
    pub before: Option<String>,
    pub after: Option<String>,
}

/// What a paginator is, to its callers.
pub ghost struct PaginatorState {
    pub order: SortOrder,
    /// The page size, clamped.
    pub limit: i64,
    /// The internal key of the scope to list.
    pub scope: Option<i64>,
    /// The `after` cursor of the request.
    pub after: Option<Seq<char>>,
    /// The `before` cursor of the request.
    pub before: Option<Seq<char>>,
    /// The key that the `after` cursor was resolved to.
    pub after_key: Option<i64>,
    /// The key that the `before` cursor was resolved to.
    pub before_key: Option<i64>,
}

impl PaginatorState {
    /// What every paginator satisfies: the page size is in range, only a
    /// cursor of the request is resolved, and `after` before `before`.
    pub open spec fn valid(self) -> bool {
        &&& MIN_LIMIT <= self.limit <= MAX_LIMIT
        &&& self.after_key is Some ==> self.after is Some
        &&& self.before_key is Some ==> self.before is Some
        &&& self.before_key is Some && self.after is Some ==> self.after_key is Some
    }

    /// The cursor that is to be looked up next.
    pub open spec fn pending(self) -> Option<CursorKind> {
        if self.after is Some && self.after_key is None {
            Some(CursorKind::After)
        } else if self.before is Some && self.before_key is None {
            Some(CursorKind::Before)
        } else {
            None
        }
    }

    /// How many cursors are still to be looked up.
    pub open spec fn unresolved(self) -> nat {
        let after: nat = if self.after is Some && self.after_key is None {
            1
        } else {
            0
        };
        let before: nat = if self.before is Some && self.before_key is None {
            1
        } else {
            0
        };
        after + before
    }

    /// The fetch that the request comes to, once its cursors are
    /// resolved: one row more than the page holds.
    pub open spec fn query(self) -> RangeQuery {
        RangeQuery {
            scope: self.scope,
            window: spec_key_window(self.order, self.after_key, self.before_key),
            order: self.order,
            limit: (self.limit + 1) as i64,
        }
    }

    /// The state after the pending cursor was resolved to `key`.
    pub open spec fn resolved(self, key: i64) -> PaginatorState {
        match self.pending() {
            Some(CursorKind::After) => PaginatorState { after_key: Some(key), ..self },
            Some(CursorKind::Before) => PaginatorState { before_key: Some(key), ..self },
            None => self,
        }
    }
}

/// What is to be done next for a request.
#[derive(Debug)]
pub enum PageAction {
    /// Look up the entity with the external id `id`, and hand its key, or
    /// `None`, to [`Paginator::resolve`].
    Resolve { cursor: CursorKind, id: String },
    /// Fetch the rows of the query, and hand them to [`Paginator::finish`].
    Fetch(RangeQuery),
}

/// The course of one listing request.
pub struct Paginator {
    order: SortOrder,
    limit: i64,
    scope: Option<i64>,
    after: Option<String>,
    before: Option<String>,
    after_key: Option<i64>,
    before_key: Option<i64>,
}

/// The text of an optional string.
pub open spec fn text_of(text: Option<String>) -> Option<Seq<char>> {
    match text {
        Some(text) => Some(text@),
        None => None,
    }
}

impl View for Paginator {
    type V = PaginatorState;

    closed spec fn view(&self) -> PaginatorState {
        PaginatorState {
            order: self.order,
            limit: self.limit,
            scope: self.scope,
            after: text_of(self.after),
            before: text_of(self.before),
            after_key: self.after_key,
            before_key: self.before_key,
        }
    }
}

impl Paginator {
    #[verifier::type_invariant]
    spec fn well_formed(&self) -> bool {
        self@.valid()
    }

    /// The start of a listing request. `scope` is the internal key of the
    /// scope that `query.tenant_id` names.
    pub fn new(query: ListFilesQuery, scope: Option<i64>) -> (paginator: Paginator)
        ensures
            paginator@.valid(),
            paginator@ == (PaginatorState {
                order: SortOrder::spec_from_param(text_of(query.order)),
                limit: spec_clamp_limit(query.limit),
                scope,
                after: text_of(query.after),
                before: text_of(query.before),
                after_key: None,
                before_key: None,
            }),
    {
        let order = match &query.order {
            Some(text) => SortOrder::from_param(Some(text.as_str())),
            None => SortOrder::from_param(None),
        };
        Paginator {
            order,
            limit: clamp_limit(query.limit),
            scope,
            after: query.after,
            before: query.before,
            after_key: None,
            before_key: None,
        }
    }

    /// What is to be done next: the `after` cursor is looked up first,
    /// then the `before` cursor, then the rows are fetched.
    pub fn next_action(&self) -> (action: PageAction)
        ensures
            self@.valid(),
            match action {
                PageAction::Resolve { cursor, id } => self@.pending() == Some(cursor) && Some(id@)
                    == (match cursor {
                    CursorKind::After => self@.after,
                    CursorKind::Before => self@.before,
                }),
                PageAction::Fetch(query) => self@.pending() is None && query == self@.query(),
            },
    {
        proof {
            use_type_invariant(self);
        }
        if self.after_key.is_none() {
            if let Some(id) = &self.after {
                return PageAction::Resolve { cursor: CursorKind::After, id: id.clone() };
            }
        }
        if self.before_key.is_none() {
            if let Some(id) = &self.before {
                return PageAction::Resolve { cursor: CursorKind::Before, id: id.clone() };
            }
        }
        PageAction::Fetch(
            RangeQuery {
                scope: self.scope,
                window: key_window(self.order, self.after_key, self.before_key),
                order: self.order,
                limit: self.limit + 1,
            },
        )
    }

    /// Takes the outcome of the lookup that [`Paginator::next_action`]
    /// asked for: the key of the entity, or `None` where there is no such
    /// entity, which ends the request. Where no lookup is pending nothing
    /// changes.
    pub fn resolve(&mut self, found: Option<i64>) -> (outcome: Result<(), InvalidCursorError>)
        ensures
            final(self)@.valid(),
            match outcome {
                Ok(()) => match old(self)@.pending() {
                    Some(cursor) => found matches Some(key) && final(self)@ == old(self)@.resolved(
                        key,
                    ),
                    None => final(self)@ == old(self)@,
                },
                Err(error) => {
                    &&& found is None
                    &&& old(self)@.pending() matches Some(cursor) && error
                        == InvalidCursorError::of(cursor)
                    &&& final(self)@ == old(self)@
                },
            },
            outcome is Ok ==> final(self)@.unresolved() == old(self)@.unresolved() - (if old(
                self,
            )@.pending() is Some {
                1nat
            } else {
                0nat
            }),
    {
        proof {
            use_type_invariant(&*self);
        }
        if self.after.is_some() && self.after_key.is_none() {
            match found {
                Some(key) => {
                    self.after_key = Some(key);
                    Ok(())
                },
                None => Err(InvalidCursorError::After),
            }
        } else if self.before.is_some() && self.before_key.is_none() {
            match found {
                Some(key) => {
                    self.before_key = Some(key);
                    Ok(())
                },
                None => Err(InvalidCursorError::Before),
            }
        } else {
            Ok(())
        }
    }

    /// The page that the fetched rows make: the rows up to the page size,
    /// in the order they came in, and the two flags. There are more rows
    /// beyond the page exactly if the fetch brought more than the page
    /// holds.
    pub fn finish<T>(&self, rows: Vec<T>) -> (page: Page<T>)
        ensures
            self@.valid(),
            page.items@ == rows@.take(page_len(rows@.len(), self@.limit) as int),
            page.pagination == spec_page_flags(self@.order, rows@.len() > self@.limit),
    {
        proof {
            use_type_invariant(self);
        }
        let mut items = rows;
        let limit: usize = self.limit as usize;
        let has_more = items.len() > limit;
        if has_more {
            items.truncate(limit);
        }
        assert(items@ =~= rows@.take(page_len(rows@.len(), self@.limit) as int));
        Page { items, pagination: page_flags(self.order, has_more) }
    }
}

} // verus!
