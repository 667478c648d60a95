//! The update cursor: the next update identifier to ask the service for.
//!
//! The cursor starts undefined, which asks for everything that is queued.
//! Observing updates moves it just past the highest identifier seen. It never
//! moves back, so no update at or below an observed identifier is asked for
//! again.

use vstd::prelude::*;

verus! {

/// The later of two offsets. An undefined offset is earlier than every
/// defined one.
pub open spec fn later(a: Option<int>, b: Option<int>) -> Option<int> {
    match (a, b) {
        (Some(x), Some(y)) => if x >= y {
            Some(x)
        } else {
            Some(y)
        },
        (Some(x), None) => Some(x),
        (None, _) => b,
    }
}

/// Whether offset `a` is at or before offset `b`.
pub open spec fn at_or_before(a: Option<int>, b: Option<int>) -> bool {
    match (a, b) {
        (Some(x), Some(y)) => x <= y,
        (Some(_), None) => false,
        (None, _) => true,
    }
}

/// Whether a request at `offset` leaves out the update `id`: it does when the
/// offset is defined and greater than `id`.
pub open spec fn excludes(offset: Option<int>, id: int) -> bool {
    offset matches Some(next) && id < next
}

/// Where a cursor at `cursor` stands after it has moved past `id`: just past
/// `id`, unless it already stood later.
pub open spec fn moved_past(cursor: Option<int>, id: int) -> int {
    match cursor {
        Some(next) => if next > id {
            next
        } else {
            id + 1
        },
        None => id + 1,
    }
}

/// The offset just past every identifier of `ids`: the highest of them plus
/// one, or undefined when there is none.
pub open spec fn past_all(ids: Seq<int>) -> Option<int>
    decreases ids.len(),
{
    if ids.len() == 0 {
        None
    } else {
        later(past_all(ids.drop_last()), Some(ids.last() + 1))
    }
}

/// Where a cursor at `cursor` stands after it has observed `ids`.
pub open spec fn advanced(cursor: Option<int>, ids: Seq<int>) -> Option<int> {
    later(cursor, past_all(ids))
}

/// Identifiers as mathematical integers.
pub open spec fn as_ints(ids: Seq<i32>) -> Seq<int> {
    ids.map_values(|id: i32| id as int)
}

/// `past_all` is the highest identifier plus one: some identifier of `ids` is
/// one below it, and none is at or above it.
pub proof fn lemma_past_all_is_highest(ids: Seq<int>)
    ensures
        past_all(ids) is None <==> ids.len() == 0,
        ids.len() > 0 ==> exists|i: int|
            0 <= i < ids.len() && #[trigger] ids[i] + 1 == past_all(ids)->0,
        forall|i: int| 0 <= i < ids.len() ==> excludes(past_all(ids), #[trigger] ids[i]),
    decreases ids.len(),
{
    if ids.len() > 0 {
        let front = ids.drop_last();
        lemma_past_all_is_highest(front);
        let last = ids.len() - 1;
        if past_all(ids) != Some(ids[last] + 1) {
            let i = choose|i: int|
                0 <= i < front.len() && #[trigger] front[i] + 1 == past_all(front)->0;
            assert(ids[i] == front[i]);
        }
        assert forall|i: int| 0 <= i < ids.len() implies excludes(
            past_all(ids),
            #[trigger] ids[i],
        ) by {
            if i < last {
                assert(ids[i] == front[i]);
            }
        }
    }
}

/// Just past a single identifier is that identifier plus one.
pub proof fn lemma_past_one(id: int)
    ensures
        past_all(seq![id]) == Some(id + 1),
{
    assert(seq![id].drop_last() =~= Seq::<int>::empty());
    assert(past_all(Seq::<int>::empty()) is None);
}

/// Observing one more identifier after `ids` is observing `ids` and then that
/// identifier.
pub proof fn lemma_advanced_push(cursor: Option<int>, ids: Seq<int>, id: int)
    ensures
        advanced(cursor, ids.push(id)) == Some(moved_past(advanced(cursor, ids), id)),
        advanced(cursor, ids.push(id)) == advanced(advanced(cursor, ids), seq![id]),
{
    assert(ids.push(id).drop_last() =~= ids);
    lemma_past_one(id);
}

/// A cursor never moves back, and after observing `ids` it excludes each of
/// them: once an identifier has been observed, neither it nor a lower one is
/// asked for again.
pub proof fn lemma_advanced_excludes(cursor: Option<int>, ids: Seq<int>)
    ensures
        at_or_before(cursor, advanced(cursor, ids)),
        forall|i: int| 0 <= i < ids.len() ==> excludes(advanced(cursor, ids), #[trigger] ids[i]),
        forall|i: int, lower: int|
            0 <= i < ids.len() && lower <= #[trigger] ids[i] ==> #[trigger] excludes(
                advanced(cursor, ids),
                lower,
            ),
        forall|id: int| excludes(cursor, id) ==> excludes(advanced(cursor, ids), id),
{
    lemma_past_all_is_highest(ids);
}

/// From an undefined cursor, or from one that stands no later, observing a
/// non-empty `ids` leaves the cursor exactly at the highest identifier plus
/// one.
pub proof fn lemma_advanced_fresh(cursor: Option<int>, ids: Seq<int>)
    requires
        ids.len() > 0,
        at_or_before(cursor, past_all(ids)),
    ensures
        advanced(cursor, ids) == past_all(ids),
        advanced(None, ids) == past_all(ids),
{
    lemma_past_all_is_highest(ids);
}

/// The next update identifier to request.
#[derive(Debug)]
pub struct UpdateCursor {
    next: Option<i64>,
}

impl View for UpdateCursor {
    type V = Option<int>;

    closed spec fn view(&self) -> Option<int> {
        match self.next {
            Some(next) => Some(next as int),
            None => None,
        }
    }
}

impl UpdateCursor {
    /// A cursor that is still undefined.
    pub fn new() -> (cursor: UpdateCursor)
        ensures
            cursor@ is None,
    {
        UpdateCursor { next: None }
    }

    /// The offset to request next, if any update has been observed.
    pub fn current(&self) -> (offset: Option<i64>)
        ensures
            match offset {
                Some(next) => self@ == Some(next as int),
                None => self@ is None,
            },
    {
        self.next
    }

    /// Moves the cursor just past `id`, unless it already stands later, and
    /// gives the offset it then stands at.
    pub fn advance_past(&mut self, id: i32) -> (offset: i64)
        ensures
            offset == moved_past(old(self)@, id as int),
            final(self)@ == Some(offset as int),
            final(self)@ == advanced(old(self)@, seq![id as int]),
    {
        proof {
            lemma_past_one(id as int);
        }
        let past: i64 = id as i64 + 1;
        let offset: i64 = match self.next {
            Some(next) => if next < past {
                past
            } else {
                next
            },
            None => past,
        };
        self.next = Some(offset);
        offset
    }

    /// Moves the cursor just past the highest of `update_ids`, unless it
    /// already stands later; leaves it unchanged when there are none.
    pub fn observe(&mut self, update_ids: &[i32])
        ensures
            final(self)@ == advanced(old(self)@, as_ints(update_ids@)),
            update_ids@.len() == 0 ==> final(self)@ == old(self)@,
            update_ids@.len() > 0 && at_or_before(old(self)@, past_all(as_ints(update_ids@)))
                ==> final(self)@ == past_all(as_ints(update_ids@)),
    {
        let ghost ids = as_ints(update_ids@);
        let mut i: usize = 0;
        while i < update_ids.len()
            invariant
                0 <= i <= update_ids.len(),
                ids == as_ints(update_ids@),
                self@ == advanced(old(self)@, ids.take(i as int)),
            decreases update_ids.len() - i,
        {
            proof {
                lemma_advanced_push(old(self)@, ids.take(i as int), ids[i as int]);
                assert(ids.take(i as int).push(ids[i as int]) =~= ids.take(i + 1));
            }
            self.advance_past(update_ids[i]);
            i = i + 1;
        }
        proof {
            assert(ids.take(i as int) =~= ids);
            if ids.len() > 0 && at_or_before(old(self)@, past_all(ids)) {
                lemma_advanced_fresh(old(self)@, ids);
            }
        }
    }
}

} // verus!
