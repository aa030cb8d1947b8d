//! Rows held in memory, in key order, and the listing requests run on
//! them: the cursor lookup, the bounded range fetch, and a whole request
//! from its parameters to its page.

use crate::pagination::{
    page_len, spec_clamp_limit, spec_page_flags, text_of, window_holds_what_the_cursors_leave,
    InvalidCursorError, ListFilesQuery, Page, PageAction, PaginationResponse, Paginator,
    PaginatorState, RangeQuery, SortOrder,
};
use vstd::prelude::*;

verus! {

/// What a listing knows of an entity.
#[derive(Debug)]
pub struct Row {
    /// The internal key.
    pub key: i64,
    /// The external id.
    pub id: String,
    /// The internal key of the scope that the entity belongs to.
    pub scope: i64,
}

impl Clone for Row {
    fn clone(&self) -> (copy: Row)
        ensures
            copy == *self,
    {
        Row { key: self.key, id: self.id.clone(), scope: self.scope }
    }
}

/// Whether the keys of the rows strictly increase.
pub open spec fn keys_increase(rows: Seq<Row>) -> bool {
    forall|i: int, j: int| 0 <= i < j < rows.len() ==> rows[i].key < rows[j].key
}

/// Whether the keys of the rows strictly increase in the direction of a listing.
pub open spec fn keys_follow(rows: Seq<Row>, order: SortOrder) -> bool {
    forall|i: int, j: int| 0 <= i < j < rows.len() ==> order.follows(rows[j].key, rows[i].key)
}

/// Whether a row bears the key.
pub open spec fn has_key(rows: Seq<Row>, key: i64) -> bool {
    exists|i: int| 0 <= i < rows.len() && rows[i].key == key
}

/// The key of the first row that bears the external id, if there is one.
pub open spec fn key_of(rows: Seq<Row>, id: Seq<char>) -> Option<i64>
    decreases rows.len(),
{
    if rows.len() == 0 {
        None
    } else if rows[0].id@ == id {
        Some(rows[0].key)
    } else {
        key_of(rows.drop_first(), id)
    }
}

/// Whether a fetch takes a row: its key lies in the window, and it
/// belongs to the scope where the fetch names one.
pub open spec fn selects(query: RangeQuery, row: Row) -> bool {
    &&& query.window.spec_contains(row.key)
    &&& query.scope matches Some(scope) ==> row.scope == scope
}

/// [`selects`], as a predicate on rows.
pub open spec fn selector(query: RangeQuery) -> spec_fn(Row) -> bool {
    |row: Row| selects(query, row)
}

/// Rows that are in ascending key order, put in the order of a listing.
pub open spec fn in_order(rows: Seq<Row>, order: SortOrder) -> Seq<Row> {
    match order {
        SortOrder::Ascending => rows,
        SortOrder::Descending => rows.reverse(),
    }
}

/// The rows that a fetch takes, all of them, in the order of the listing.
pub open spec fn matching_rows(rows: Seq<Row>, query: RangeQuery) -> Seq<Row> {
    in_order(rows, query.order).filter(selector(query))
}

/// How many of `available` rows a fetch with the limit `limit` brings.
pub open spec fn fetch_len(available: nat, limit: i64) -> nat {
    if limit <= 0 {
        0
    } else if available > limit {
        limit as nat
    } else {
        available
    }
}

/// The rows that a fetch brings: the first `query.limit` of the rows it takes.
pub open spec fn query_rows(rows: Seq<Row>, query: RangeQuery) -> Seq<Row> {
    let matching = matching_rows(rows, query);
    matching.take(fetch_len(matching.len(), query.limit) as int)
}

/// A page, as a value.
pub ghost struct PageView {
    pub items: Seq<Row>,
    pub pagination: PaginationResponse,
}

/// The cursor keys that a request resolves to on given rows, or the
/// error that ends it: the `after` cursor is looked up first.
pub open spec fn resolve_cursors(rows: Seq<Row>, start: PaginatorState) -> Result<
    PaginatorState,
    InvalidCursorError,
> {
    let after_key = match start.after {
        Some(id) => key_of(rows, id),
        None => None,
    };
    let before_key = match start.before {
        Some(id) => key_of(rows, id),
        None => None,
    };
    if start.after is Some && after_key is None {
        Err(InvalidCursorError::After)
    } else if start.before is Some && before_key is None {
        Err(InvalidCursorError::Before)
    } else {
        Ok(PaginatorState { after_key, before_key, ..start })
    }
}

/// The page of a request whose cursors are resolved.
pub open spec fn page_of(rows: Seq<Row>, state: PaginatorState) -> PageView {
    let fetched = query_rows(rows, state.query());
    PageView {
        items: fetched.take(page_len(fetched.len(), state.limit) as int),
        pagination: spec_page_flags(state.order, fetched.len() > state.limit),
    }
}

/// What a listing request comes to on given rows.
pub open spec fn spec_paginate(rows: Seq<Row>, query: ListFilesQuery, scope: Option<i64>) -> Result<
    PageView,
    InvalidCursorError,
> {
    let start = PaginatorState {
        order: SortOrder::spec_from_param(text_of(query.order)),
        limit: spec_clamp_limit(query.limit),
        scope,
        after: text_of(query.after),
        before: text_of(query.before),
        after_key: None,
        before_key: None,
    };
    match resolve_cursors(rows, start) {
        Ok(state) => Ok(page_of(rows, state)),
        Err(error) => Err(error),
    }
}

/// A lookup finds the first row that bears the id, and finds none only
/// where no row bears it.
pub proof fn lookup_finds_the_first_bearer(rows: Seq<Row>, id: Seq<char>)
    ensures
        match key_of(rows, id) {
            Some(key) => exists|at: int|
                {
                    &&& 0 <= at < rows.len()
                    &&& #[trigger] rows[at].id@ == id
                    &&& rows[at].key == key
                    &&& forall|i: int| 0 <= i < at ==> #[trigger] rows[i].id@ != id
                },
            None => forall|i: int| 0 <= i < rows.len() ==> #[trigger] rows[i].id@ != id,
        },
    decreases rows.len(),
{
    if rows.len() == 0 {
    } else if rows[0].id@ == id {
        assert(rows[0].id@ == id && rows[0].key == key_of(rows, id).unwrap());
    } else {
        let rest = rows.drop_first();
        lookup_finds_the_first_bearer(rest, id);
        assert(forall|i: int| 0 <= i < rest.len() ==> rest[i] == rows[i + 1]);
        match key_of(rest, id) {
            Some(key) => {
                let at = choose|at: int|
                    {
                        &&& 0 <= at < rest.len()
                        &&& #[trigger] rest[at].id@ == id
                        &&& rest[at].key == key
                        &&& forall|i: int| 0 <= i < at ==> #[trigger] rest[i].id@ != id
                    };
                assert(rows[at + 1].id@ == id && rows[at + 1].key == key);
                assert forall|i: int| 0 <= i < at + 1 implies #[trigger] rows[i].id@ != id by {
                    if i > 0 {
                        assert(rest[i - 1].id@ != id);
                    }
                }
            },
            None => {
                assert forall|i: int| 0 <= i < rows.len() implies #[trigger] rows[i].id@ != id by {
                    if i > 0 {
                        assert(rest[i - 1].id@ != id);
                    }
                }
            },
        }
    }
}

/// Rows in ascending key order, put in the order of a listing, follow
/// its direction.
proof fn listing_follows_direction(rows: Seq<Row>, order: SortOrder)
    requires
        keys_increase(rows),
    ensures
        keys_follow(in_order(rows, order), order),
{
}

/// Leaving rows out keeps the others in their order.
proof fn filter_keeps_direction(listed: Seq<Row>, order: SortOrder, take: spec_fn(Row) -> bool)
    requires
        keys_follow(listed, order),
    ensures
        keys_follow(listed.filter(take), order),
    decreases listed.len(),
{
    reveal(Seq::filter);
    if listed.len() > 0 {
        let front = listed.drop_last();
        filter_keeps_direction(front, order, take);
        let kept = front.filter(take);
        let all = listed.filter(take);
        assert forall|i: int, j: int| 0 <= i < j < all.len() implies order.follows(
            all[j].key,
            all[i].key,
        ) by {
            if j < kept.len() {
                assert(all[i] == kept[i] && all[j] == kept[j]);
            } else {
                assert(all[j] == listed.last());
                assert(all[i] == kept[i]);
                assert(kept.contains(kept[i]));
                front.lemma_filter_contains_rev(take, kept[i]);
                let k = choose|k: int| 0 <= k < front.len() && front[k] == kept[i];
                assert(listed[k] == kept[i]);
            }
        }
    }
}

/// All the rows that a fetch takes come in the direction of the listing.
proof fn matching_rows_follow_direction(rows: Seq<Row>, query: RangeQuery)
    requires
        keys_increase(rows),
    ensures
        keys_follow(matching_rows(rows, query), query.order),
{
    listing_follows_direction(rows, query.order);
    filter_keeps_direction(in_order(rows, query.order), query.order, selector(query));
}

/// A row is among the rows that a fetch takes exactly if it is a row of
/// the catalog that the query selects.
proof fn matching_rows_are_the_selected_rows(rows: Seq<Row>, query: RangeQuery, row: Row)
    ensures
        matching_rows(rows, query).contains(row) <==> rows.contains(row) && selects(query, row),
{
    let listed = in_order(rows, query.order);
    let take = selector(query);
    let matching = listed.filter(take);
    assert(listed.contains(row) <==> rows.contains(row)) by {
        if listed.contains(row) {
            let i = choose|i: int| 0 <= i < listed.len() && listed[i] == row;
            match query.order {
                SortOrder::Ascending => {},
                SortOrder::Descending => {
                    assert(rows[rows.len() - 1 - i] == row);
                },
            }
        }
        if rows.contains(row) {
            let i = choose|i: int| 0 <= i < rows.len() && rows[i] == row;
            match query.order {
                SortOrder::Ascending => {},
                SortOrder::Descending => {
                    assert(listed[rows.len() - 1 - i] == row);
                },
            }
        }
    }
    if matching.contains(row) {
        listed.lemma_filter_contains_rev(take, row);
        let i = choose|i: int| 0 <= i < matching.len() && matching[i] == row;
        listed.lemma_filter_pred(take, i);
    }
    if listed.contains(row) && selects(query, row) {
        let i = choose|i: int| 0 <= i < listed.len() && listed[i] == row;
        listed.lemma_filter_contains(take, i);
    }
}

/// The rows of a fetch come in key order, in the direction of the
/// listing.
pub proof fn fetched_rows_are_in_key_order(rows: Seq<Row>, query: RangeQuery)
    requires
        keys_increase(rows),
    ensures
        keys_follow(query_rows(rows, query), query.order),
{
    matching_rows_follow_direction(rows, query);
}

/// Every row of a fetch is a row of the catalog that the query selects,
/// and a fetch brings no more rows than its limit.
pub proof fn fetched_rows_are_selected_rows(rows: Seq<Row>, query: RangeQuery)
    ensures
        forall|i: int|
            0 <= i < query_rows(rows, query).len() ==> {
                &&& rows.contains(#[trigger] query_rows(rows, query)[i])
                &&& selects(query, query_rows(rows, query)[i])
            },
        query_rows(rows, query).len() <= query.limit || query_rows(rows, query).len() == 0,
{
    let matching = matching_rows(rows, query);
    let fetched = query_rows(rows, query);
    assert forall|i: int| 0 <= i < fetched.len() implies rows.contains(#[trigger] fetched[i])
        && selects(query, fetched[i]) by {
        assert(matching[i] == fetched[i]);
        matching_rows_are_the_selected_rows(rows, query, fetched[i]);
    }
}

/// A fetch leaves no gap: a selected row of the catalog that the fetch
/// did not bring lies beyond every row that it brought, and the fetch is
/// as long as its limit lets it be.
pub proof fn fetch_leaves_no_gap(rows: Seq<Row>, query: RangeQuery, row: Row)
    requires
        keys_increase(rows),
        rows.contains(row),
        selects(query, row),
        !query_rows(rows, query).contains(row),
    ensures
        query_rows(rows, query).len() == (if query.limit > 0 {
            query.limit as int
        } else {
            0
        }),
        forall|i: int|
            0 <= i < query_rows(rows, query).len() ==> query.order.follows(
                row.key,
                #[trigger] query_rows(rows, query)[i].key,
            ),
{
    let matching = matching_rows(rows, query);
    let fetched = query_rows(rows, query);
    matching_rows_are_the_selected_rows(rows, query, row);
    matching_rows_follow_direction(rows, query);
    let at = choose|at: int| 0 <= at < matching.len() && matching[at] == row;
    if at < fetched.len() {
        assert(fetched[at] == row);
    }
    assert forall|i: int| 0 <= i < fetched.len() implies query.order.follows(
        row.key,
        #[trigger] fetched[i].key,
    ) by {
        assert(fetched[i] == matching[i]);
    }
}

/// A page is the head of the listing: the first rows, up to the page
/// size, of all the rows that the request selects, in key order; and it
/// reports more rows exactly if the request selects more rows than the
/// page holds.
pub proof fn page_is_the_head_of_the_listing(rows: Seq<Row>, state: PaginatorState)
    requires
        keys_increase(rows),
        state.valid(),
    ensures
        page_of(rows, state).items == matching_rows(rows, state.query()).take(
            page_len(matching_rows(rows, state.query()).len(), state.limit) as int,
        ),
        page_of(rows, state).pagination == spec_page_flags(
            state.order,
            matching_rows(rows, state.query()).len() > state.limit,
        ),
        keys_follow(page_of(rows, state).items, state.order),
{
    matching_rows_follow_direction(rows, state.query());
}

/// Behind the row at `split - 1` of the rows that `take` keeps, the rows
/// that `take` keeps are those that `beyond` keeps, where `beyond` keeps
/// of the rows of `take` those that follow that row.
proof fn rows_beyond_a_row(
    listed: Seq<Row>,
    order: SortOrder,
    take: spec_fn(Row) -> bool,
    beyond: spec_fn(Row) -> bool,
    split: int,
)
    requires
        keys_follow(listed, order),
        0 < split <= listed.filter(take).len(),
        forall|i: int|
            0 <= i < listed.len() ==> (beyond(#[trigger] listed[i]) <==> take(listed[i])
                && order.follows(listed[i].key, listed.filter(take)[split - 1].key)),
    ensures
        listed.filter(beyond) == listed.filter(take).skip(split),
    decreases listed.len(),
{
    reveal(Seq::filter);
    let kept = listed.filter(take);
    let pivot = kept[split - 1];
    let front = listed.drop_last();
    let last = listed.last();
    let front_kept = front.filter(take);
    assert(forall|i: int| 0 <= i < front.len() ==> front[i] == listed[i]);
    if take(last) && split == kept.len() {
        assert(pivot == last);
        assert(!beyond(last));
        assert forall|i: int| 0 <= i < front.len() implies !order.follows(
            #[trigger] front[i].key,
            last.key,
        ) by {
            assert(order.follows(listed[listed.len() - 1].key, listed[i].key));
        }
        rows_before_a_row(front, order, beyond, last.key);
        assert(listed.filter(beyond) == kept.skip(split));
    } else {
        assert(front_kept[split - 1] == pivot);
        rows_beyond_a_row(front, order, take, beyond, split);
        if take(last) {
            assert(front_kept.contains(pivot));
            front.lemma_filter_contains_rev(take, pivot);
            let k = choose|k: int| 0 <= k < front.len() && front[k] == pivot;
            assert(listed[k] == pivot);
            assert(order.follows(last.key, pivot.key));
            assert(beyond(last));
            assert(front_kept.skip(split).push(last) == kept.skip(split));
        }
    }
}

/// Rows none of which follows `key` hold no row that `beyond` keeps,
/// where `beyond` keeps only rows that follow `key`.
proof fn rows_before_a_row(
    listed: Seq<Row>,
    order: SortOrder,
    beyond: spec_fn(Row) -> bool,
    key: i64,
)
    requires
        forall|i: int| 0 <= i < listed.len() ==> !order.follows(#[trigger] listed[i].key, key),
        forall|i: int|
            0 <= i < listed.len() ==> (beyond(#[trigger] listed[i]) ==> order.follows(
                listed[i].key,
                key,
            )),
    ensures
        listed.filter(beyond) == Seq::<Row>::empty(),
    decreases listed.len(),
{
    reveal(Seq::filter);
    if listed.len() > 0 {
        let front = listed.drop_last();
        assert(forall|i: int| 0 <= i < front.len() ==> front[i] == listed[i]);
        rows_before_a_row(front, order, beyond, key);
        assert(!beyond(listed.last()));
    }
}

/// Paging on leaves no gap and no overlap: with the last row of a page
/// as the `after` cursor, the next request selects the rows of the
/// listing that lie behind the page, all of them and no others.
pub proof fn next_page_continues_the_listing(rows: Seq<Row>, state: PaginatorState, id: Seq<char>)
    requires
        keys_increase(rows),
        state.valid(),
        page_of(rows, state).items.len() > 0,
    ensures
        ({
            let page = page_of(rows, state).items;
            let next = PaginatorState { after: Some(id), after_key: Some(page.last().key), ..state };
            matching_rows(rows, next.query()) == matching_rows(rows, state.query()).skip(
                page.len() as int,
            )
        }),
{
    let page = page_of(rows, state).items;
    let next = PaginatorState { after: Some(id), after_key: Some(page.last().key), ..state };
    let listed = in_order(rows, state.order);
    let matching = matching_rows(rows, state.query());
    let split = page.len() as int;
    let pivot = matching[split - 1];
    assert(page.last() == pivot);
    listing_follows_direction(rows, state.order);
    listed.lemma_filter_pred(selector(state.query()), split - 1);
    assert(selects(state.query(), pivot));
    assert forall|i: int| 0 <= i < listed.len() implies (selector(next.query())(
        #[trigger] listed[i],
    ) <==> selector(state.query())(listed[i]) && state.order.follows(listed[i].key, pivot.key)) by {
        window_holds_what_the_cursors_leave(
            state.order,
            state.after_key,
            state.before_key,
            listed[i].key,
        );
        window_holds_what_the_cursors_leave(
            state.order,
            state.after_key,
            state.before_key,
            pivot.key,
        );
        window_holds_what_the_cursors_leave(
            state.order,
            Some(pivot.key),
            state.before_key,
            listed[i].key,
        );
    }
    rows_beyond_a_row(
        listed,
        state.order,
        selector(state.query()),
        selector(next.query()),
        split,
    );
}

/// Where no two rows bear one external id, the id of a row resolves to
/// the key of that row.
pub proof fn lookup_of_a_unique_id(rows: Seq<Row>, at: int)
    requires
        0 <= at < rows.len(),
        forall|i: int, j: int|
            0 <= i < rows.len() && 0 <= j < rows.len() && i != j ==> rows[i].id@ != rows[j].id@,
    ensures
        key_of(rows, rows[at].id@) == Some(rows[at].key),
{
    lookup_finds_the_first_bearer(rows, rows[at].id@);
    match key_of(rows, rows[at].id@) {
        Some(key) => {
            let found = choose|found: int|
                {
                    &&& 0 <= found < rows.len()
                    &&& #[trigger] rows[found].id@ == rows[at].id@
                    &&& rows[found].key == key
                    &&& forall|i: int| 0 <= i < found ==> #[trigger] rows[i].id@ != rows[at].id@
                };
            assert(found == at);
        },
        None => {
            assert(rows[at].id@ != rows[at].id@);
        },
    }
}

/// Rows in ascending key order, no key twice.
pub struct Catalog {
    rows: Vec<Row>,
}

impl View for Catalog {
    type V = Seq<Row>;

    closed spec fn view(&self) -> Seq<Row> {
        self.rows@
    }
}

impl Catalog {
    #[verifier::type_invariant]
    spec fn well_formed(&self) -> bool {
        keys_increase(self@)
    }

    /// A catalog without rows.
    pub fn new() -> (catalog: Catalog)
        ensures
            catalog@ == Seq::<Row>::empty(),
    {
        Catalog { rows: Vec::new() }
    }

    /// The number of rows.
    pub fn len(&self) -> (len: usize)
        ensures
            len == self@.len(),
            keys_increase(self@),
    {
        proof {
            use_type_invariant(self);
        }
        self.rows.len()
    }

    /// Puts a row at its place in key order. A row whose key is there
    /// already is not taken, and `false` comes back.
    pub fn insert(&mut self, row: Row) -> (inserted: bool)
        ensures
            keys_increase(final(self)@),
            inserted == !has_key(old(self)@, row.key),
            inserted ==> exists|at: int|
                0 <= at <= old(self)@.len() && final(self)@ == #[trigger] old(self)@.insert(at, row),
            !inserted ==> final(self)@ == old(self)@,
    {
        proof {
            use_type_invariant(&*self);
        }
        let mut at: usize = 0;
        while at < self.rows.len() && self.rows[at].key < row.key
            invariant
                self.rows@ == old(self).rows@,
                at <= self.rows.len(),
                forall|i: int| 0 <= i < at ==> self.rows@[i].key < row.key,
            decreases self.rows.len() - at,
        {
            at = at + 1;
        }
        if at < self.rows.len() && self.rows[at].key == row.key {
            return false;
        }
        assert(!has_key(self@, row.key)) by {
            assert forall|i: int| 0 <= i < self@.len() implies self@[i].key != row.key by {
                if i >= at {
                    assert(self@[at as int].key <= self@[i].key);
                }
            }
        }
        let ghost before = self.rows@;
        let mut rows: Vec<Row> = Vec::new();
        std::mem::swap(&mut self.rows, &mut rows);
        rows.insert(at, row);
        assert(rows@ == before.insert(at as int, row));
        assert(keys_increase(rows@)) by {
            assert forall|i: int, j: int| 0 <= i < j < rows@.len() implies rows@[i].key
                < rows@[j].key by {
                if j < at {
                    assert(rows@[i] == before[i] && rows@[j] == before[j]);
                } else if j == at {
                    assert(rows@[i] == before[i]);
                } else if i < at {
                    assert(rows@[i] == before[i] && rows@[j] == before[j - 1]);
                    assert(before[at as int].key <= before[j - 1].key);
                } else if i == at {
                    assert(rows@[j] == before[j - 1]);
                    assert(before[at as int].key <= before[j - 1].key);
                } else {
                    assert(rows@[i] == before[i - 1] && rows@[j] == before[j - 1]);
                }
            }
        }
        self.rows = rows;
        true
    }

    /// The key of the entity with the external id, or `None` where no row
    /// bears the id. Nothing changes by looking.
    pub fn find_by_external_id(&self, id: &String) -> (found: Option<i64>)
        ensures
            found == key_of(self@, id@),
    {
        let mut at: usize = 0;
        assert(self.rows@.skip(0) == self.rows@);
        while at < self.rows.len()
            invariant
                at <= self.rows.len(),
                key_of(self.rows@, id@) == key_of(self.rows@.skip(at as int), id@),
            decreases self.rows.len() - at,
        {
            let ghost rest = self.rows@.skip(at as int);
            assert(rest[0] == self.rows@[at as int]);
            assert(rest.drop_first() == self.rows@.skip(at + 1));
            if self.rows[at].id == *id {
                return Some(self.rows[at].key);
            }
            at = at + 1;
        }
        assert(self.rows@.skip(at as int).len() == 0);
        None
    }

    /// The rows of a fetch: those that the query takes, in its order, the
    /// first `query.limit` of them.
    pub fn query(&self, query: &RangeQuery) -> (fetched: Vec<Row>)
        ensures
            fetched@ == query_rows(self@, *query),
            keys_increase(self@),
    {
        proof {
            use_type_invariant(self);
        }
        let ghost listed = in_order(self.rows@, query.order);
        let ghost take = selector(*query);
        let len = self.rows.len();
        let mut fetched: Vec<Row> = Vec::new();
        let mut seen: usize = 0;
        assert(listed.take(0).filter(take) == Seq::<Row>::empty());
        while seen < len && query.limit > 0 && (fetched.len() as u64) < (query.limit as u64)
            invariant
                len == self.rows.len(),
                listed == in_order(self.rows@, query.order),
                listed.len() == len,
                take == selector(*query),
                seen <= len,
                fetched@ == listed.take(seen as int).filter(take),
                query.limit > 0 ==> fetched.len() <= query.limit,
                query.limit <= 0 ==> seen == 0,
            decreases len - seen,
        {
            let at = match query.order {
                SortOrder::Ascending => seen,
                SortOrder::Descending => len - 1 - seen,
            };
            let row = &self.rows[at];
            assert(*row == listed[seen as int]);
            let taken = query.window.contains(row.key) && match query.scope {
                Some(scope) => row.scope == scope,
                None => true,
            };
            assert(taken == take(*row));
            proof {
                let shorter = listed.take(seen as int);
                let longer = listed.take(seen + 1);
                assert(longer.drop_last() == shorter);
                assert(longer.last() == *row);
                reveal(Seq::filter);
            }
            if taken {
                fetched.push(row.clone());
            }
            seen = seen + 1;
        }
        proof {
            let all = listed.filter(take);
            let head = listed.take(seen as int);
            let tail = listed.skip(seen as int);
            assert(listed == head + tail);
            Seq::filter_distributes_over_add(head, tail, take);
            assert(all == fetched@ + tail.filter(take));
            if query.limit <= 0 {
                assert(fetched@ == all.take(0));
            } else if seen == len {
                assert(tail.filter(take).len() == 0) by {
                    reveal(Seq::filter);
                }
                assert(all == fetched@);
                assert(fetched@ == all.take(all.len() as int));
            } else {
                assert(fetched@.len() == query.limit);
                assert(fetched@ == all.take(query.limit as int));
            }
        }
        fetched
    }

    /// One listing request, from its parameters to its page: resolves the
    /// cursors, fetches one row more than the page holds, and cuts the
    /// page. `scope` is the internal key of the scope that
    /// `request.tenant_id` names.
    pub fn paginate(&self, request: ListFilesQuery, scope: Option<i64>) -> (outcome: Result<
        Page<Row>,
        InvalidCursorError,
    >)
        ensures
            match outcome {
                Ok(page) => spec_paginate(self@, request, scope) == Ok::<
                    PageView,
                    InvalidCursorError,
                >(PageView { items: page.items@, pagination: page.pagination }),
                Err(error) => spec_paginate(self@, request, scope) == Err::<
                    PageView,
                    InvalidCursorError,
                >(error),
            },
    {
        let mut paginator = Paginator::new(request, scope);
        let ghost start = paginator@;
        loop
            invariant
                paginator@.valid(),
                start.after_key is None,
                start.before_key is None,
                paginator@ == (PaginatorState {
                    after_key: paginator@.after_key,
                    before_key: paginator@.before_key,
                    ..start
                }),
                paginator@.after_key matches Some(key) ==> start.after is Some && key_of(
                    self@,
                    start.after.unwrap(),
                ) == Some(key),
                paginator@.before_key matches Some(key) ==> start.before is Some && key_of(
                    self@,
                    start.before.unwrap(),
                ) == Some(key),
                spec_paginate(self@, request, scope) == (match resolve_cursors(self@, start) {
                    Ok(state) => Ok::<PageView, InvalidCursorError>(page_of(self@, state)),
                    Err(error) => Err(error),
                }),
            decreases paginator@.unresolved(),
        {
            match paginator.next_action() {
                PageAction::Resolve { cursor, id } => {
                    let found = self.find_by_external_id(&id);
                    match paginator.resolve(found) {
                        Ok(()) => {},
                        Err(error) => {
                            return Err(error);
                        },
                    }
                },
                PageAction::Fetch(query) => {
                    let fetched = self.query(&query);
                    let page = paginator.finish(fetched);
                    assert(resolve_cursors(self@, start) == Ok::<
                        PaginatorState,
                        InvalidCursorError,
                    >(paginator@));
                    return Ok(page);
                },
            }
        }
    }
}

} // verus!
