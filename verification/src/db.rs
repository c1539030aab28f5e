//! The card store: one record per tag, and a log of the taps that were let in.
//!
//! The store lives in memory. Its records are numbered from 1 in the order in
//! which they were made, as the rows of a table with a counting key are. A
//! host that keeps its cards elsewhere takes the decision from
//! [`check_counter`] and carries it out there, inside one transaction.

use crate::error::DenyReason;
use vstd::prelude::*;

verus! {

/// The largest read counter a tag can show: 24 bits.
pub const MAX_READ_COUNTER: u32 = 0xFF_FFFF;

/// The most records that either list of the store can hold.
pub const MAX_ROWS: usize = 0x7FFF_FFFF;

/// A tag known to the store, with the last read counter accepted from it.
#[derive(Clone, Copy, Debug, PartialEq, Eq)]
pub struct Card {
    pub id: i32,
    pub uid: [u8; 7],
    pub read_counter: u32,
}

/// What is needed to make a [`Card`]: the store gives the number.
#[derive(Clone, Copy, Debug, PartialEq, Eq)]
pub struct NewCard {
    pub uid: [u8; 7],
    pub read_counter: u32,
}

/// One accepted tap of the card with number `card_id`.
#[derive(Clone, Copy, Debug, PartialEq, Eq)]
pub struct Visit {
    pub id: i32,
    pub card_id: i32,
}

/// What is needed to make a [`Visit`]: the store gives the number.
#[derive(Clone, Copy, Debug, PartialEq, Eq)]
pub struct NewVisit {
    pub card_id: i32,
}

/// What has to be written once a counter was found fresh.
#[derive(Clone, Copy, Debug, PartialEq, Eq, Structural)]
pub enum CounterWrite {
    /// The tag is seen for the first time: make its record.
    Insert,
    /// The tag is known: move its record forward.
    Update,
}

/// A [`Card`] as contracts see it.
pub struct CardView {
    pub id: i32,
    pub uid: Seq<u8>,
    pub read_counter: u32,
}

impl View for Card {
    type V = CardView;

    open spec fn view(&self) -> CardView {
        CardView { id: self.id, uid: self.uid@, read_counter: self.read_counter }
    }
}

/// The store as contracts see it: both lists, oldest record first.
pub struct DbView {
    pub cards: Seq<CardView>,
    pub visits: Seq<Visit>,
}

/// The decision on a read counter, given the last one accepted from the same
/// tag, if there is any.
pub open spec fn counter_verdict(last: Option<u32>, counter: u32) -> Result<
    CounterWrite,
    DenyReason,
> {
    if counter > MAX_READ_COUNTER {
        Err(DenyReason::MalformedInput)
    } else {
        match last {
            None => Ok(CounterWrite::Insert),
            Some(seen) => if counter > seen {
                Ok(CounterWrite::Update)
            } else {
                Err(DenyReason::ReplayDetected)
            },
        }
    }
}

/// Whether `cards` holds a record of the tag `uid`.
pub open spec fn has_card(cards: Seq<CardView>, uid: Seq<u8>) -> bool {
    exists|i: int| 0 <= i < cards.len() && (#[trigger] cards[i]).uid == uid
}

/// Where in `cards` the record of the tag `uid` stands, if it has one.
pub open spec fn card_position(cards: Seq<CardView>, uid: Seq<u8>) -> Option<int> {
    if has_card(cards, uid) {
        Some(choose|i: int| 0 <= i < cards.len() && (#[trigger] cards[i]).uid == uid)
    } else {
        None
    }
}

/// The record of the tag `uid`, if the store has one.
pub open spec fn card_of(db: DbView, uid: Seq<u8>) -> Option<CardView> {
    match card_position(db.cards, uid) {
        Some(i) => Some(db.cards[i]),
        None => None,
    }
}

/// The read counter last accepted from the tag `uid`, if any was.
pub open spec fn last_counter(db: DbView, uid: Seq<u8>) -> Option<u32> {
    match card_of(db, uid) {
        Some(card) => Some(card.read_counter),
        None => None,
    }
}

/// The well-formed stores: records are numbered by their place, no tag has
/// two records, no counter exceeds 24 bits, and each visit names a record.
pub open spec fn valid_db(db: DbView) -> bool {
    &&& db.cards.len() <= MAX_ROWS
    &&& db.visits.len() <= MAX_ROWS
    &&& forall|i: int|
        0 <= i < db.cards.len() ==> (#[trigger] db.cards[i]).id == i + 1 && db.cards[i].read_counter
            <= MAX_READ_COUNTER
    &&& forall|i: int, j: int|
        0 <= i < j < db.cards.len() ==> (#[trigger] db.cards[i]).uid != (#[trigger] db.cards[j]).uid
    &&& forall|k: int|
        0 <= k < db.visits.len() ==> (#[trigger] db.visits[k]).id == k + 1 && 1
            <= db.visits[k].card_id <= db.cards.len()
}

/// The store with one more visit, of the record at place `i`.
pub open spec fn with_visit(db: DbView, i: int) -> DbView {
    DbView {
        cards: db.cards,
        visits: db.visits.push(Visit { id: (db.visits.len() + 1) as i32, card_id: db.cards[i].id }),
    }
}

/// What [`Db::register_visit`] answers for the tag `uid`.
pub open spec fn visit_verdict(db: DbView, uid: Seq<u8>) -> Result<(), DenyReason> {
    if has_card(db.cards, uid) && db.visits.len() < MAX_ROWS {
        Ok(())
    } else {
        Err(DenyReason::StorageError)
    }
}

/// The store after [`Db::register_visit`] for the tag `uid`.
pub open spec fn after_visit(db: DbView, uid: Seq<u8>) -> DbView {
    match (visit_verdict(db, uid), card_position(db.cards, uid)) {
        (Ok(_), Some(i)) => with_visit(db, i),
        _ => db,
    }
}

/// What [`Db::register_card`] answers for the tag `uid` showing `counter`.
pub open spec fn register_verdict(db: DbView, uid: Seq<u8>, counter: u32) -> Result<
    (),
    DenyReason,
> {
    match counter_verdict(last_counter(db, uid), counter) {
        Err(reason) => Err(reason),
        Ok(CounterWrite::Update) => if db.visits.len() < MAX_ROWS {
            Ok(())
        } else {
            Err(DenyReason::StorageError)
        },
        Ok(CounterWrite::Insert) => if db.visits.len() < MAX_ROWS && db.cards.len() < MAX_ROWS {
            Ok(())
        } else {
            Err(DenyReason::StorageError)
        },
    }
}

/// The store after [`Db::register_card`] for the tag `uid` showing `counter`:
/// unchanged unless the answer is `Ok`; else the tag's record holds `counter`
/// and the log has one more visit of it.
pub open spec fn after_register(db: DbView, uid: Seq<u8>, counter: u32) -> DbView {
    if register_verdict(db, uid, counter) is Err {
        db
    } else {
        match card_position(db.cards, uid) {
            Some(i) => with_visit(
                DbView {
                    cards: db.cards.update(
                        i,
                        CardView { id: db.cards[i].id, uid: uid, read_counter: counter },
                    ),
                    visits: db.visits,
                },
                i,
            ),
            None => with_visit(
                DbView {
                    cards: db.cards.push(
                        CardView { id: (db.cards.len() + 1) as i32, uid: uid, read_counter: counter },
                    ),
                    visits: db.visits,
                },
                db.cards.len() as int,
            ),
        }
    }
}

/// Decides on a read counter, given the last one accepted from the same tag.
///
/// A counter over 24 bits is malformed. The first counter of a tag is taken
/// as it is; a later one only if it is greater than the last.
pub fn check_counter(last: Option<u32>, counter: u32) -> (verdict: Result<
    CounterWrite,
    DenyReason,
>)
    ensures
        verdict == counter_verdict(last, counter),
{
    if counter > MAX_READ_COUNTER {
        return Err(DenyReason::MalformedInput);
    }
    match last {
        None => Ok(CounterWrite::Insert),
        Some(seen) => {
            if counter > seen {
                Ok(CounterWrite::Update)
            } else {
                Err(DenyReason::ReplayDetected)
            }
        },
    }
}

/// Whether two UIDs are the same.
pub fn same_uid(a: &[u8; 7], b: &[u8; 7]) -> (same: bool)
    ensures
        same == (a@ == b@),
{
    let mut same = true;
    let mut i: usize = 0;
    while i < 7
        invariant
            i <= 7,
            same == (forall|k: int| 0 <= k < i ==> a[k] == b[k]),
        decreases 7 - i,
    {
        if a[i] != b[i] {
            same = false;
        }
        i += 1;
    }
    proof {
        assert(same == (a@ =~= b@));
    }
    same
}

/// In a well-formed store a tag's record is found at the one place that
/// holds its UID.
pub proof fn lemma_card_position(db: DbView, uid: Seq<u8>, i: int)
    requires
        valid_db(db),
        0 <= i < db.cards.len(),
        db.cards[i].uid == uid,
    ensures
        has_card(db.cards, uid),
        card_position(db.cards, uid) == Some(i),
        card_of(db, uid) == Some(db.cards[i]),
{
    assert(has_card(db.cards, uid));
    let j = choose|j: int| 0 <= j < db.cards.len() && (#[trigger] db.cards[j]).uid == uid;
    if j < i {
        assert(db.cards[j].uid != db.cards[i].uid);
    } else if i < j {
        assert(db.cards[i].uid != db.cards[j].uid);
    }
}

/// The card store.
pub struct Db {
    cards: Vec<Card>,
    visits: Vec<Visit>,
}

impl View for Db {
    type V = DbView;

    closed spec fn view(&self) -> DbView {
        DbView {
            cards: Seq::new(self.cards@.len(), |i: int| self.cards@[i]@),
            visits: self.visits@,
        }
    }
}

impl Db {
    /// Whether the store is well-formed. Every store made by [`Db::new`] and
    /// changed through the methods below is.
    pub open spec fn wf(&self) -> bool {
        valid_db(self@)
    }

    /// An empty store.
    pub fn new() -> (db: Db)
        ensures
            db.wf(),
            db@.cards.len() == 0,
            db@.visits.len() == 0,
    {
        Db { cards: Vec::new(), visits: Vec::new() }
    }

    /// The place of the record of the tag `uid`.
    fn find(&self, uid: &[u8; 7]) -> (place: Option<usize>)
        requires
            self.wf(),
        ensures
            match place {
                Some(i) => card_position(self@.cards, uid@) == Some(i as int) && i
                    < self.cards@.len(),
                None => card_position(self@.cards, uid@) is None,
            },
    {
        let mut i: usize = 0;
        while i < self.cards.len()
            invariant
                i <= self.cards.len(),
                self.wf(),
                forall|k: int| 0 <= k < i ==> (#[trigger] self@.cards[k]).uid != uid@,
            decreases self.cards.len() - i,
        {
            if same_uid(&self.cards[i].uid, uid) {
                proof {
                    lemma_card_position(self@, uid@, i as int);
                }
                return Some(i);
            }
            i += 1;
        }
        None
    }

    /// The record of the tag `uid`, if the store has one.
    pub fn get_card(&self, uid: &[u8; 7]) -> (card: Option<Card>)
        requires
            self.wf(),
        ensures
            match card {
                Some(card) => card_of(self@, uid@) == Some(card@),
                None => card_of(self@, uid@) is None,
            },
    {
        match self.find(uid) {
            Some(i) => Some(self.cards[i]),
            None => None,
        }
    }

    /// How many taps were let in so far.
    pub fn visit_count(&self) -> (n: usize)
        ensures
            n == self@.visits.len(),
    {
        self.visits.len()
    }

    /// Logs a visit of the tag `uid`.
    ///
    /// Fails with `StorageError`, and changes nothing, if the tag has no
    /// record or the log is full.
    pub fn register_visit(&mut self, uid: &[u8; 7]) -> (done: Result<(), DenyReason>)
        requires
            old(self).wf(),
        ensures
            final(self).wf(),
            done == visit_verdict(old(self)@, uid@),
            final(self)@ == after_visit(old(self)@, uid@),
    {
        let place = self.find(uid);
        match place {
            None => Err(DenyReason::StorageError),
            Some(i) => {
                if self.visits.len() >= MAX_ROWS {
                    return Err(DenyReason::StorageError);
                }
                self.log_visit(NewVisit { card_id: self.cards[i].id });
                Ok(())
            },
        }
    }

    /// Appends a visit to the log and numbers it.
    fn log_visit(&mut self, visit: NewVisit)
        requires
            old(self).wf(),
            old(self)@.visits.len() < MAX_ROWS,
            1 <= visit.card_id <= old(self)@.cards.len(),
        ensures
            final(self).wf(),
            final(self)@.cards == old(self)@.cards,
            final(self)@.visits == old(self)@.visits.push(
                Visit { id: (old(self)@.visits.len() + 1) as i32, card_id: visit.card_id },
            ),
    {
        let id: i32 = (self.visits.len() + 1) as i32;
        self.visits.push(Visit { id, card_id: visit.card_id });
        assert(self@.cards =~= old(self)@.cards);
    }

    /// Registers a tap of the tag `uid` that shows `read_counter`.
    ///
    /// A counter over 24 bits is `MalformedInput`. A tag without a record gets
    /// one that holds the counter. A tag with a record is let in only with a
    /// counter greater than the recorded one, which then takes its place;
    /// any other is `ReplayDetected`. A tap that is let in is logged as a
    /// visit. Where the store has no room for what it would have to write,
    /// the answer is `StorageError`. Unless the answer is `Ok`, the store
    /// stays as it was.
    pub fn register_card(&mut self, uid: &[u8; 7], read_counter: u32) -> (done: Result<
        (),
        DenyReason,
    >)
        requires
            old(self).wf(),
        ensures
            final(self).wf(),
            done == register_verdict(old(self)@, uid@, read_counter),
            final(self)@ == after_register(old(self)@, uid@, read_counter),
    {
        let place = self.find(uid);
        let last: Option<u32> = match place {
            Some(i) => Some(self.cards[i].read_counter),
            None => None,
        };
        let write = match check_counter(last, read_counter) {
            Ok(write) => write,
            Err(reason) => {
                return Err(reason);
            },
        };
        if self.visits.len() >= MAX_ROWS {
            return Err(DenyReason::StorageError);
        }
        match place {
            Some(i) => {
                let id: i32 = self.cards[i].id;
                self.cards.set(i, Card { id, uid: *uid, read_counter });
                assert(self@.cards =~= old(self)@.cards.update(
                    i as int,
                    CardView { id, uid: uid@, read_counter },
                ));
                assert(valid_db(self@)) by {
                    assert forall|a: int, b: int| 0 <= a < b < self@.cards.len() implies (
                    #[trigger] self@.cards[a]).uid != (#[trigger] self@.cards[b]).uid by {
                        assert(old(self)@.cards[a].uid != old(self)@.cards[b].uid);
                    }
                }
                self.log_visit(NewVisit { card_id: id });
                Ok(())
            },
            None => {
                if self.cards.len() >= MAX_ROWS {
                    return Err(DenyReason::StorageError);
                }
                let id: i32 = self.insert_card(NewCard { uid: *uid, read_counter });
                self.log_visit(NewVisit { card_id: id });
                Ok(())
            },
        }
    }

    /// Appends a record and numbers it; returns the number.
    fn insert_card(&mut self, card: NewCard) -> (id: i32)
        requires
            old(self).wf(),
            old(self)@.cards.len() < MAX_ROWS,
            !has_card(old(self)@.cards, card.uid@),
            card.read_counter <= MAX_READ_COUNTER,
        ensures
            final(self).wf(),
            id == old(self)@.cards.len() + 1,
            final(self)@.visits == old(self)@.visits,
            final(self)@.cards == old(self)@.cards.push(
                CardView { id, uid: card.uid@, read_counter: card.read_counter },
            ),
    {
        let id: i32 = (self.cards.len() + 1) as i32;
        self.cards.push(Card { id, uid: card.uid, read_counter: card.read_counter });
        assert(self@.cards =~= old(self)@.cards.push(
            CardView { id, uid: card.uid@, read_counter: card.read_counter },
        ));
        assert(valid_db(self@)) by {
            assert forall|a: int, b: int| 0 <= a < b < self@.cards.len() implies (
            #[trigger] self@.cards[a]).uid != (#[trigger] self@.cards[b]).uid by {
                if b < old(self)@.cards.len() {
                    assert(old(self)@.cards[a].uid != old(self)@.cards[b].uid);
                } else {
                    assert(old(self)@.cards[a].uid != card.uid@);
                }
            }
        }
        id
    }
}

/// What one tap does to the store, seen from any tag.
///
/// A well-formed store stays well-formed. A tap that is turned down leaves
/// the store as it was. A tap that is let in leaves its counter as the tag's
/// last one. The record of every other tag keeps its counter.
pub proof fn lemma_after_register(db: DbView, uid: Seq<u8>, counter: u32)
    requires
        valid_db(db),
    ensures
        valid_db(after_register(db, uid, counter)),
        register_verdict(db, uid, counter) is Err ==> after_register(db, uid, counter) == db,
        register_verdict(db, uid, counter) is Ok ==> last_counter(
            after_register(db, uid, counter),
            uid,
        ) == Some(counter),
        forall|other: Seq<u8>|
            other != uid ==> #[trigger] last_counter(after_register(db, uid, counter), other)
                == last_counter(db, other),
{
    let after = after_register(db, uid, counter);
    if register_verdict(db, uid, counter) is Ok {
        match card_position(db.cards, uid) {
            Some(i) => {
                assert(0 <= i < db.cards.len() && db.cards[i].uid == uid);
                assert(valid_db(after)) by {
                    assert forall|a: int, b: int| 0 <= a < b < after.cards.len() implies (
                    #[trigger] after.cards[a]).uid != (#[trigger] after.cards[b]).uid by {
                        assert(db.cards[a].uid != db.cards[b].uid);
                    }
                }
                lemma_card_position(after, uid, i);
            },
            None => {
                let n = db.cards.len() as int;
                assert(valid_db(after)) by {
                    assert forall|a: int, b: int| 0 <= a < b < after.cards.len() implies (
                    #[trigger] after.cards[a]).uid != (#[trigger] after.cards[b]).uid by {
                        if b < n {
                            assert(db.cards[a].uid != db.cards[b].uid);
                        } else {
                            assert(db.cards[a].uid != uid);
                        }
                    }
                }
                lemma_card_position(after, uid, n);
            },
        }
        assert forall|other: Seq<u8>| other != uid implies #[trigger] last_counter(after, other)
            == last_counter(db, other) by {
            if has_card(db.cards, other) {
                let j = choose|j: int| 0 <= j < db.cards.len() && (#[trigger] db.cards[j]).uid == other;
                lemma_card_position(db, other, j);
                assert(after.cards[j] == db.cards[j]);
                lemma_card_position(after, other, j);
            } else if has_card(after.cards, other) {
                let j = choose|j: int|
                    0 <= j < after.cards.len() && (#[trigger] after.cards[j]).uid == other;
                assert(j < db.cards.len());
                assert(db.cards[j].uid == other);
            }
        }
    }
}

/// Replay protection, for a tag that the store has not seen: whatever 24-bit
/// counter it shows is let in and recorded, as long as the store has room
/// for one more record and one more visit.
pub proof fn lemma_first_tap_is_recorded(db: DbView, uid: Seq<u8>, counter: u32)
    requires
        valid_db(db),
        last_counter(db, uid) is None,
        counter <= MAX_READ_COUNTER,
        db.cards.len() < MAX_ROWS,
        db.visits.len() < MAX_ROWS,
    ensures
        register_verdict(db, uid, counter) is Ok,
        last_counter(after_register(db, uid, counter), uid) == Some(counter),
{
    lemma_after_register(db, uid, counter);
}

/// Replay protection, for a tag that the store knows: a counter that is not
/// greater than the recorded one is turned down as a replay and the store
/// stays as it was; a greater one is let in and takes its place, as long as
/// the log has room for one more visit.
pub proof fn lemma_replay_monotonicity(db: DbView, uid: Seq<u8>, seen: u32, counter: u32)
    requires
        valid_db(db),
        last_counter(db, uid) == Some(seen),
        counter <= MAX_READ_COUNTER,
    ensures
        counter <= seen ==> register_verdict(db, uid, counter) == Err::<(), DenyReason>(
            DenyReason::ReplayDetected,
        ) && after_register(db, uid, counter) == db,
        counter > seen && db.visits.len() < MAX_ROWS ==> register_verdict(db, uid, counter) is Ok
            && last_counter(after_register(db, uid, counter), uid) == Some(counter),
{
    lemma_after_register(db, uid, counter);
}

/// No tap ever moves a recorded counter backward or removes a record,
/// whether it is let in or not, and whichever tag it comes from.
pub proof fn lemma_counter_never_regresses(
    db: DbView,
    uid: Seq<u8>,
    counter: u32,
    watched: Seq<u8>,
    seen: u32,
)
    requires
        valid_db(db),
        last_counter(db, watched) == Some(seen),
    ensures
        last_counter(after_register(db, uid, counter), watched) matches Some(now) && now >= seen,
{
    lemma_after_register(db, uid, counter);
}

/// The counter that a tag's record holds once two taps of it, showing
/// `low < high`, were both handled on `db`: `high`, unless the record
/// already held a counter that `high` does not exceed.
pub open spec fn settled_counter(db: DbView, uid: Seq<u8>, high: u32) -> u32 {
    match last_counter(db, uid) {
        Some(seen) => if seen >= high {
            seen
        } else {
            high
        },
        None => high,
    }
}

/// Two taps of one tag that show the counters `low < high` leave the same
/// counter in the tag's record in whichever order they are handled, as long
/// as the store has room for one more record and two more visits. Where
/// the record held less than `high` before, or did not exist, that counter
/// is `high`.
pub proof fn lemma_arrival_order_is_irrelevant(db: DbView, uid: Seq<u8>, low: u32, high: u32)
    requires
        valid_db(db),
        low < high <= MAX_READ_COUNTER,
        db.cards.len() < MAX_ROWS,
        db.visits.len() + 1 < MAX_ROWS,
    ensures
        last_counter(after_register(after_register(db, uid, low), uid, high), uid) == Some(
            settled_counter(db, uid, high),
        ),
        last_counter(after_register(after_register(db, uid, high), uid, low), uid) == Some(
            settled_counter(db, uid, high),
        ),
{
    let low_first = after_register(db, uid, low);
    let high_first = after_register(db, uid, high);
    lemma_after_register(db, uid, low);
    lemma_after_register(db, uid, high);
    lemma_after_register(low_first, uid, high);
    lemma_after_register(high_first, uid, low);
}


} // verus!
