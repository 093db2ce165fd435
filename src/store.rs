//! The shared game store: the phase, the name entries, the guess bits, and
//! the notifications that every change publishes.
//!
//! `after` states what each operation does as one indivisible step on a
//! `StoreView`; `GameStore` is an in-memory store held to it.
//!
//! A server backed by Redis runs these operations as Lua scripts inside the
//! Redis server instead, and those scripts are not held to `after`. They
//! differ from it in three ways: adding or removing a name does not check
//! the phase (Redis refuses it only through the key's type), the playing
//! transition shuffles with Lua's `math.random` rather than `draws_of`, and
//! the epoch counter is not bounded by `u32::MAX`.

use vstd::prelude::*;
use crate::bits::{bit_of, byte_len, fit_guesses, fitted, lemma_fitted_bit, lemma_with_bit, with_bit, write_bit, MAX_GUESS_INDEX};
use crate::game::{Epoch, GameState, NameId};
use crate::notify::{cache_after, Notification, StoreCache};
use crate::shuffle::{
    draws_fit, draws_of, fisher_yates, lemma_fisher_yates_permutes, random_seed, seeded_draws,
    shuffle_with,
};
use crate::wire::texts;

verus! {

/// Why the store refused an operation; a refused operation changes nothing.
#[derive(Clone, Copy, Debug, PartialEq, Eq, Hash, Structural)]
pub enum StoreError {
    /// Names are added, removed and shuffled only while submitting.
    WrongPhase,
    /// The epoch counter has reached its largest value.
    EpochExhausted,
    /// The guess index lies past the largest bit string the store keeps.
    IndexTooLarge,
}

/// The store's contents as plain values.
pub struct StoreView {
    pub playing: bool,
    /// The epoch of the latest submitting phase; it persists while playing.
    pub epoch: u32,
    /// While submitting: the entries `(id, text)`, in no meaningful order.
    pub entries: Seq<(u128, Seq<char>)>,
    /// While playing: the frozen order of the names.
    pub frozen: Seq<Seq<char>>,
    pub guesses: Seq<u8>,
    /// Notifications published and not yet handed out.
    pub outbox: Seq<Notification>,
}

impl StoreView {
    pub open spec fn state(self) -> GameState {
        if self.playing {
            GameState::Playing
        } else {
            GameState::Submitting(Epoch(self.epoch))
        }
    }

    pub open spec fn ids(self) -> Seq<u128> {
        self.entries.map_values(|e: (u128, Seq<char>)| e.0)
    }

    /// The names as a reader sees them.
    pub open spec fn names(self) -> Seq<Seq<char>> {
        if self.playing {
            self.frozen
        } else {
            self.entries.map_values(|e: (u128, Seq<char>)| e.1)
        }
    }

    pub open spec fn count(self) -> nat {
        self.names().len()
    }

    /// Ids are unique, and only the collection of the current phase holds names.
    pub open spec fn consistent(self) -> bool {
        &&& self.ids().no_duplicates()
        &&& self.playing ==> self.entries.len() == 0
        &&& !self.playing ==> self.frozen.len() == 0
    }

    pub open spec fn published(self, n: Notification) -> StoreView {
        StoreView { outbox: self.outbox.push(n), ..self }
    }
}

/// The operations of the store.
pub enum StoreOp {
    AddName(u128, Seq<char>),
    RemoveName(u128),
    Guess(usize),
    Unguess(usize),
    ToSubmitting,
    /// Enter the playing phase with the names in the given order.
    ToPlaying(Seq<Seq<char>>),
    TakeNotifications,
}

/// The store when submitting starts for the first time.
pub open spec fn initial_view() -> StoreView {
    StoreView {
        playing: false,
        epoch: 0,
        entries: seq![],
        frozen: seq![],
        guesses: seq![],
        outbox: seq![],
    }
}

/// The entries with `(id, text)` set: an existing id keeps its place.
pub open spec fn entries_with(v: StoreView, id: u128, text: Seq<char>) -> Seq<(u128, Seq<char>)> {
    if v.ids().contains(id) {
        v.entries.update(v.ids().index_of(id), (id, text))
    } else {
        v.entries.push((id, text))
    }
}

/// The entries without `id`.
pub open spec fn entries_without(v: StoreView, id: u128) -> Seq<(u128, Seq<char>)> {
    if v.ids().contains(id) {
        v.entries.remove(v.ids().index_of(id))
    } else {
        v.entries
    }
}

/// The store after one operation, done as one indivisible step together
/// with the notification it publishes. A refused operation leaves it as it was.
pub open spec fn after(v: StoreView, op: StoreOp) -> StoreView {
    match op {
        StoreOp::AddName(id, text) => if v.playing {
            v
        } else {
            let entries = entries_with(v, id, text);
            StoreView { entries, ..v }.published(Notification::NameCount(entries.len() as usize))
        },
        StoreOp::RemoveName(id) => if v.playing {
            v
        } else {
            let entries = entries_without(v, id);
            StoreView { entries, ..v }.published(Notification::NameCount(entries.len() as usize))
        },
        StoreOp::Guess(i) => if i > MAX_GUESS_INDEX {
            v
        } else {
            StoreView { guesses: with_bit(v.guesses, i as nat, true), ..v }.published(
                Notification::Guessed(i),
            )
        },
        StoreOp::Unguess(i) => if i > MAX_GUESS_INDEX {
            v
        } else {
            StoreView { guesses: with_bit(v.guesses, i as nat, false), ..v }.published(
                Notification::Unguessed(i),
            )
        },
        StoreOp::ToSubmitting => if v.epoch == u32::MAX {
            v
        } else {
            let e = (v.epoch + 1) as u32;
            StoreView {
                playing: false,
                epoch: e,
                entries: seq![],
                frozen: seq![],
                guesses: seq![],
                outbox: v.outbox,
            }.published(Notification::Submitting(Epoch(e)))
        },
        StoreOp::ToPlaying(order) => if v.playing {
            v
        } else {
            StoreView { playing: true, entries: seq![], frozen: order, ..v }.published(
                Notification::Playing,
            )
        },
        StoreOp::TakeNotifications => StoreView { outbox: seq![], ..v },
    }
}

/// The playing transition may freeze any arrangement of the submitted names,
/// and no other order.
pub open spec fn admissible(v: StoreView, op: StoreOp) -> bool {
    match op {
        StoreOp::ToPlaying(order) => order.to_multiset() == v.names().to_multiset(),
        _ => true,
    }
}

proof fn lemma_entries_parts(v: StoreView, id: u128, text: Seq<char>)
    requires
        v.consistent(),
    ensures
        entries_with(v, id, text).map_values(|e: (u128, Seq<char>)| e.0) == (if v.ids().contains(
            id,
        ) {
            v.ids()
        } else {
            v.ids().push(id)
        }),
        entries_without(v, id).map_values(|e: (u128, Seq<char>)| e.0) == (if v.ids().contains(
            id,
        ) {
            v.ids().remove(v.ids().index_of(id))
        } else {
            v.ids()
        }),
{
    let ids = v.ids();
    if ids.contains(id) {
        let k = ids.index_of(id);
        assert(entries_with(v, id, text).map_values(|e: (u128, Seq<char>)| e.0) =~= ids);
        assert(entries_without(v, id).map_values(|e: (u128, Seq<char>)| e.0) =~= ids.remove(k));
    } else {
        assert(entries_with(v, id, text).map_values(|e: (u128, Seq<char>)| e.0) =~= ids.push(id));
    }
}

/// Every operation keeps the store consistent.
pub proof fn lemma_after_consistent(v: StoreView, op: StoreOp)
    requires
        v.consistent(),
        admissible(v, op),
    ensures
        after(v, op).consistent(),
{
    match op {
        StoreOp::AddName(id, text) => {
            lemma_entries_parts(v, id, text);
            if !v.playing && !v.ids().contains(id) {
                let ids = v.ids().push(id);
                assert forall|a: int, b: int| 0 <= a < b < ids.len() implies ids[a] != ids[b] by {
                    if b == ids.len() - 1 {
                        assert(v.ids().contains(v.ids()[a]));
                    }
                }
            }
        },
        StoreOp::RemoveName(id) => {
            lemma_entries_parts(v, id, seq![]);
            if !v.playing && v.ids().contains(id) {
                let k = v.ids().index_of(id);
                let ids = v.ids().remove(k);
                assert forall|a: int, b: int| 0 <= a < b < ids.len() implies ids[a] != ids[b] by {
                    let a2 = if a < k {
                        a
                    } else {
                        a + 1
                    };
                    let b2 = if b < k {
                        b
                    } else {
                        b + 1
                    };
                    assert(ids[a] == v.ids()[a2] && ids[b] == v.ids()[b2]);
                }
            }
        },
        StoreOp::ToSubmitting => {
            if v.epoch != u32::MAX {
                assert(after(v, op).ids() =~= seq![]);
            }
        },
        StoreOp::ToPlaying(_) => {
            if !v.playing {
                assert(after(v, op).ids() =~= seq![]);
            }
        },
        _ => {},
    }
}

/// While submitting, the name count is the number of distinct ids present.
pub proof fn lemma_count_is_number_of_ids(v: StoreView)
    requires
        v.consistent(),
        !v.playing,
    ensures
        v.count() == v.ids().to_set().len(),
{
    v.ids().unique_seq_to_set();
}

/// Within one playing phase the order of the names never changes: an
/// operation that leaves the store playing leaves the names as they were.
pub proof fn lemma_order_kept_while_playing(v: StoreView, op: StoreOp)
    requires
        v.playing,
        after(v, op).playing,
    ensures
        after(v, op).names() == v.names(),
{
}

/// No operation lowers the epoch, and a new submitting phase raises it by
/// one, with no names and no guess bits.
pub proof fn lemma_new_round(v: StoreView, op: StoreOp)
    ensures
        v.epoch <= after(v, op).epoch,
        v.epoch < u32::MAX ==> ({
            let w = after(v, StoreOp::ToSubmitting);
            &&& w.epoch == v.epoch + 1
            &&& w.state() == GameState::Submitting(Epoch(w.epoch))
            &&& w.count() == 0
            &&& w.guesses.len() == 0
        }),
{
    if v.epoch < u32::MAX {
        assert(after(v, StoreOp::ToSubmitting).names() =~= seq![]);
    }
}

/// The store after a sequence of operations, applied in order.
pub open spec fn after_all(v: StoreView, ops: Seq<StoreOp>) -> StoreView
    decreases ops.len(),
{
    if ops.len() == 0 {
        v
    } else {
        after(after_all(v, ops.drop_last()), ops.last())
    }
}

/// Epochs along a run of operations: no store passed on the way has a
/// greater epoch than the store at the end, and a run that ends by starting
/// a new submitting phase ends strictly above every epoch passed before.
pub proof fn lemma_epochs_along_run(v: StoreView, ops: Seq<StoreOp>, k: int)
    requires
        0 <= k <= ops.len(),
    ensures
        after_all(v, ops.take(k)).epoch <= after_all(v, ops).epoch,
        k < ops.len() && ops.last() is ToSubmitting && after_all(v, ops.drop_last()).epoch
            < u32::MAX ==> after_all(v, ops.take(k)).epoch < after_all(v, ops).epoch,
    decreases ops.len(),
{
    if k == ops.len() {
        assert(ops.take(k) =~= ops);
    } else {
        let init = ops.drop_last();
        assert(ops.take(k) =~= init.take(k));
        lemma_epochs_along_run(v, init, k);
        lemma_new_round(after_all(v, init), ops.last());
    }
}

/// A guess sets its bit and an unguess clears it, at any index up to the
/// store's limit and whatever the number of names; other bits and the names
/// stay as they were. A reader sees the bit while it lies within the bytes
/// that the names need.
pub proof fn lemma_guess_bits(v: StoreView, i: usize, j: int)
    requires
        i <= MAX_GUESS_INDEX,
    ensures
        bit_of(after(v, StoreOp::Guess(i)).guesses, i as int),
        !bit_of(after(v, StoreOp::Unguess(i)).guesses, i as int),
        j != i ==> bit_of(after(v, StoreOp::Guess(i)).guesses, j) == bit_of(v.guesses, j),
        j != i ==> bit_of(after(v, StoreOp::Unguess(i)).guesses, j) == bit_of(v.guesses, j),
        after(v, StoreOp::Guess(i)).names() == v.names(),
        after(v, StoreOp::Unguess(i)).names() == v.names(),
        bit_of(fitted(after(v, StoreOp::Guess(i)).guesses, v.count()), i as int) == (i < byte_len(
            v.count(),
        ) * 8),
        !bit_of(fitted(after(v, StoreOp::Unguess(i)).guesses, v.count()), i as int),
{
    lemma_with_bit(v.guesses, i as nat, true, i as int);
    lemma_with_bit(v.guesses, i as nat, false, i as int);
    lemma_with_bit(v.guesses, i as nat, true, j);
    lemma_with_bit(v.guesses, i as nat, false, j);
    lemma_fitted_bit(with_bit(v.guesses, i as nat, true), v.count(), i as int);
    lemma_fitted_bit(with_bit(v.guesses, i as nat, false), v.count(), i as int);
}

/// Relies on uuid's `Uuid::new_v4`: a fresh random UUID.
#[verifier::external_body]
fn fresh_name_id() -> NameId {
    NameId(uuid::Uuid::new_v4().as_u128())
}

/// An in-memory store: every operation runs as one step under `&mut`, and the
/// cached phase and count follow the published notifications.
pub struct GameStore {
    playing: bool,
    epoch: u32,
    entries: Vec<(NameId, String)>,
    frozen: Vec<String>,
    guesses: Vec<u8>,
    cache: StoreCache,
    outbox: Vec<Notification>,
}

impl View for GameStore {
    type V = StoreView;

    closed spec fn view(&self) -> StoreView {
        StoreView {
            playing: self.playing,
            epoch: self.epoch,
            entries: self.entries@.map_values(|e: (NameId, String)| (e.0.0, e.1@)),
            frozen: texts(self.frozen@),
            guesses: self.guesses@,
            outbox: self.outbox@,
        }
    }
}

impl GameStore {
    /// The store is consistent and its cache agrees with its contents.
    pub closed spec fn wf(&self) -> bool {
        &&& self@.consistent()
        &&& self.cache.state == self@.state()
        &&& self.cache.name_count == self@.count()
    }

    /// A store with no recorded state: submitting, epoch 0, nothing in it.
    pub fn new() -> (s: GameStore)
        ensures
            s.wf(),
            s@ == initial_view(),
    {
        let s = GameStore {
            playing: false,
            epoch: 0,
            entries: Vec::new(),
            frozen: Vec::new(),
            guesses: Vec::new(),
            cache: StoreCache { state: GameState::Submitting(Epoch(0)), name_count: 0 },
            outbox: Vec::new(),
        };
        assert(s@.entries =~= seq![]);
        assert(s@.frozen =~= seq![]);
        s
    }

    /// The current phase, as the cache has it.
    pub fn state(&self) -> (r: GameState)
        requires
            self.wf(),
        ensures
            r == self@.state(),
    {
        self.cache.state
    }

    /// The current number of names, as the cache has it.
    pub fn name_count(&self) -> (r: usize)
        requires
            self.wf(),
        ensures
            r == self@.count(),
    {
        self.cache.name_count
    }

    fn publish(&mut self, n: Notification)
        ensures
            final(self).outbox@ == old(self).outbox@.push(n),
            final(self).cache == cache_after(old(self).cache, n),
            final(self).playing == old(self).playing,
            final(self).epoch == old(self).epoch,
            final(self).entries == old(self).entries,
            final(self).frozen == old(self).frozen,
            final(self).guesses == old(self).guesses,
    {
        self.outbox.push(n);
        self.cache.apply(n);
    }

    fn find(&self, id: NameId) -> (r: Option<usize>)
        requires
            self@.consistent(),
        ensures
            match r {
                Some(k) => self@.ids().contains(id.0) && k == self@.ids().index_of(id.0) && k
                    < self.entries@.len(),
                None => !self@.ids().contains(id.0),
            },
    {
        let mut k: usize = 0;
        while k < self.entries.len()
            invariant
                k <= self.entries@.len(),
                self@.consistent(),
                forall|t: int| 0 <= t < k ==> self@.ids()[t] != id.0,
            decreases self.entries@.len() - k,
        {
            if self.entries[k].0 == id {
                assert(self@.ids()[k as int] == id.0);
                assert(self@.ids().contains(id.0));
                let ghost j = self@.ids().index_of(id.0);
                assert(0 <= j < self@.ids().len() && self@.ids()[j] == id.0);
                assert(j == k as int);
                return Some(k);
            }
            k = k + 1;
        }
        None
    }

    /// Sets the text of `id`, adding the entry if it is new, and publishes the
    /// new count. Refused while playing.
    pub fn add_name_with_id(&mut self, id: NameId, name: &str) -> (r: Result<(), StoreError>)
        requires
            old(self).wf(),
        ensures
            final(self).wf(),
            final(self)@ == after(old(self)@, StoreOp::AddName(id.0, name@)),
            r is Err <==> old(self)@.playing,
            r is Err ==> r == Err::<(), StoreError>(StoreError::WrongPhase),
    {
        if self.playing {
            return Err(StoreError::WrongPhase);
        }
        let ghost v = self@;
        match self.find(id) {
            Some(k) => {
                self.entries.set(k, (id, name.to_owned()));
            },
            None => {
                self.entries.push((id, name.to_owned()));
            },
        }
        assert(self@.entries =~= entries_with(v, id.0, name@));
        let count = self.entries.len();
        self.publish(Notification::NameCount(count));
        proof {
            lemma_after_consistent(v, StoreOp::AddName(id.0, name@));
        }
        Ok(())
    }

    /// Adds a name under a freshly generated id and publishes the new count.
    /// Refused while playing.
    pub fn add_name(&mut self, name: &str) -> (r: Result<NameId, StoreError>)
        requires
            old(self).wf(),
        ensures
            final(self).wf(),
            match r {
                Ok(id) => !old(self)@.playing && final(self)@ == after(
                    old(self)@,
                    StoreOp::AddName(id.0, name@),
                ),
                Err(e) => old(self)@.playing && e == StoreError::WrongPhase && final(self)@ == old(
                    self,
                )@,
            },
    {
        if self.playing {
            return Err(StoreError::WrongPhase);
        }
        let id = fresh_name_id();
        let _ = self.add_name_with_id(id, name);
        Ok(id)
    }

    /// Removes the entry of `id`, if there is one, and publishes the new count.
    /// Refused while playing.
    pub fn remove_name(&mut self, id: NameId) -> (r: Result<(), StoreError>)
        requires
            old(self).wf(),
        ensures
            final(self).wf(),
            final(self)@ == after(old(self)@, StoreOp::RemoveName(id.0)),
            r is Err <==> old(self)@.playing,
            r is Err ==> r == Err::<(), StoreError>(StoreError::WrongPhase),
    {
        if self.playing {
            return Err(StoreError::WrongPhase);
        }
        let ghost v = self@;
        match self.find(id) {
            Some(k) => {
                let _ = self.entries.remove(k);
            },
            None => {},
        }
        assert(self@.entries =~= entries_without(v, id.0));
        let count = self.entries.len();
        self.publish(Notification::NameCount(count));
        proof {
            lemma_after_consistent(v, StoreOp::RemoveName(id.0));
        }
        Ok(())
    }

    fn toggle(&mut self, index: usize, on: bool) -> (r: Result<(), StoreError>)
        requires
            old(self).wf(),
        ensures
            final(self).wf(),
            final(self)@ == after(
                old(self)@,
                if on {
                    StoreOp::Guess(index)
                } else {
                    StoreOp::Unguess(index)
                },
            ),
            r is Err <==> index > MAX_GUESS_INDEX,
            r is Err ==> r == Err::<(), StoreError>(StoreError::IndexTooLarge),
    {
        if index > MAX_GUESS_INDEX {
            return Err(StoreError::IndexTooLarge);
        }
        write_bit(&mut self.guesses, index, on);
        if on {
            self.publish(Notification::Guessed(index));
        } else {
            self.publish(Notification::Unguessed(index));
        }
        Ok(())
    }

    /// Sets guess bit `index` and publishes it. The index is not checked
    /// against the number of names; an index past `MAX_GUESS_INDEX` is
    /// refused, since a bit string holds at most 2^32 bits, the same bound
    /// as Redis's bit offsets.
    pub fn guess_name(&mut self, index: usize) -> (r: Result<(), StoreError>)
        requires
            old(self).wf(),
        ensures
            final(self).wf(),
            final(self)@ == after(old(self)@, StoreOp::Guess(index)),
            r is Err <==> index > MAX_GUESS_INDEX,
            r is Err ==> r == Err::<(), StoreError>(StoreError::IndexTooLarge),
    {
        self.toggle(index, true)
    }

    /// Clears guess bit `index` and publishes it. The index is not checked
    /// against the number of names; an index past `MAX_GUESS_INDEX` is
    /// refused, as for `guess_name`.
    pub fn unguess_name(&mut self, index: usize) -> (r: Result<(), StoreError>)
        requires
            old(self).wf(),
        ensures
            final(self).wf(),
            final(self)@ == after(old(self)@, StoreOp::Unguess(index)),
            r is Err <==> index > MAX_GUESS_INDEX,
            r is Err ==> r == Err::<(), StoreError>(StoreError::IndexTooLarge),
    {
        self.toggle(index, false)
    }

    /// The names as they stand (in no fixed order while submitting, in the
    /// frozen order while playing) and the guess bits, cut or zero-padded to
    /// the bytes that the names need.
    pub fn names_and_guesses(&self) -> (r: (Vec<String>, Vec<u8>))
        requires
            self.wf(),
        ensures
            texts(r.0@) == self@.names(),
            r.1@ == fitted(self@.guesses, self@.count()),
    {
        let mut names: Vec<String> = Vec::new();
        if self.playing {
            let mut k: usize = 0;
            while k < self.frozen.len()
                invariant
                    k <= self.frozen@.len(),
                    texts(names@) =~= texts(self.frozen@).subrange(0, k as int),
                decreases self.frozen@.len() - k,
            {
                let ghost prev = names@;
                names.push(self.frozen[k].clone());
                assert(texts(names@) =~= texts(prev).push(texts(self.frozen@)[k as int]));
                k = k + 1;
            }
        } else {
            let mut k: usize = 0;
            while k < self.entries.len()
                invariant
                    k <= self.entries@.len(),
                    texts(names@) =~= self@.entries.map_values(|e: (u128, Seq<char>)| e.1).subrange(
                        0,
                        k as int,
                    ),
                decreases self.entries@.len() - k,
            {
                let ghost prev = names@;
                names.push(self.entries[k].1.clone());
                assert(texts(names@) =~= texts(prev).push(
                    self@.entries.map_values(|e: (u128, Seq<char>)| e.1)[k as int],
                ));
                k = k + 1;
            }
        }
        assert(texts(names@) =~= self@.names());
        let guesses = fit_guesses(&self.guesses, names.len());
        (names, guesses)
    }

    /// Starts a new round: clears the names and the guess bits, records the
    /// submitting phase, raises the epoch by one and publishes it. Refused
    /// once the epoch has reached its largest value.
    pub fn change_state_to_submitting(&mut self) -> (r: Result<(), StoreError>)
        requires
            old(self).wf(),
        ensures
            final(self).wf(),
            final(self)@ == after(old(self)@, StoreOp::ToSubmitting),
            r is Err <==> old(self)@.epoch == u32::MAX,
            r is Err ==> r == Err::<(), StoreError>(StoreError::EpochExhausted),
    {
        if self.epoch == u32::MAX {
            return Err(StoreError::EpochExhausted);
        }
        let ghost v = self@;
        self.entries.clear();
        self.frozen.clear();
        self.guesses.clear();
        self.playing = false;
        self.epoch = self.epoch + 1;
        let e = Epoch(self.epoch);
        self.publish(Notification::Submitting(e));
        assert(self@.entries =~= seq![]);
        assert(self@.frozen =~= seq![]);
        assert(self@ =~= after(v, StoreOp::ToSubmitting));
        Ok(())
    }

    /// Freezes the names in the order that Fisher–Yates with `draws` gives
    /// them, records the playing phase and publishes it. Refused while
    /// already playing.
    pub fn change_state_to_playing_with_draws(&mut self, draws: &Vec<usize>) -> (r: Result<
        (),
        StoreError,
    >)
        requires
            old(self).wf(),
            draws_fit(draws@, old(self)@.count()),
        ensures
            final(self).wf(),
            final(self)@ == after(
                old(self)@,
                StoreOp::ToPlaying(fisher_yates(old(self)@.names(), draws@)),
            ),
            r is Err <==> old(self)@.playing,
            r is Err ==> r == Err::<(), StoreError>(StoreError::WrongPhase),
    {
        if self.playing {
            return Err(StoreError::WrongPhase);
        }
        let ghost v = self@;
        let names = self.entry_texts();
        let mut names = names;
        shuffle_with(&mut names, draws);
        self.entries.clear();
        self.frozen = names;
        self.playing = true;
        self.publish(Notification::Playing);
        assert(self@.entries =~= seq![]);
        assert(self@.frozen == fisher_yates(v.names(), draws@));
        assert(self@ =~= after(v, StoreOp::ToPlaying(self@.frozen)));
        proof {
            lemma_after_consistent(v, StoreOp::ToPlaying(self@.frozen));
        }
        Ok(())
    }

    fn entry_texts(&self) -> (r: Vec<String>)
        requires
            !self@.playing,
            self@.consistent(),
        ensures
            texts(r@) == self@.names(),
    {
        let mut names: Vec<String> = Vec::new();
        let mut k: usize = 0;
        while k < self.entries.len()
            invariant
                k <= self.entries@.len(),
                texts(names@) =~= self@.entries.map_values(|e: (u128, Seq<char>)| e.1).subrange(
                    0,
                    k as int,
                ),
            decreases self.entries@.len() - k,
        {
            let ghost prev = names@;
            names.push(self.entries[k].1.clone());
            assert(texts(names@) =~= texts(prev).push(
                self@.entries.map_values(|e: (u128, Seq<char>)| e.1)[k as int],
            ));
            k = k + 1;
        }
        assert(texts(names@) =~= self@.names());
        names
    }

    /// Freezes the names in the order that the draws seeded with `seed` give
    /// them, records the playing phase and publishes it: the same seed and
    /// the same names freeze the same order. Refused while already playing.
    pub fn change_state_to_playing_with_seed(&mut self, seed: u32) -> (r: Result<(), StoreError>)
        requires
            old(self).wf(),
        ensures
            final(self).wf(),
            final(self)@ == after(
                old(self)@,
                StoreOp::ToPlaying(
                    fisher_yates(old(self)@.names(), draws_of(seed as u64, old(self)@.count())),
                ),
            ),
            admissible(old(self)@, StoreOp::ToPlaying(final(self)@.frozen)),
            r is Err <==> old(self)@.playing,
            r is Err ==> r == Err::<(), StoreError>(StoreError::WrongPhase),
    {
        if self.playing {
            return Err(StoreError::WrongPhase);
        }
        let draws = seeded_draws(seed as u64, self.entries.len());
        assert(self@.count() == self.entries@.len());
        let r = self.change_state_to_playing_with_draws(&draws);
        proof {
            lemma_fisher_yates_permutes(old(self)@.names(), draws@);
        }
        r
    }

    /// Enters the playing phase with a randomly drawn seed.
    pub fn change_state_to_playing(&mut self) -> (r: Result<(), StoreError>)
        requires
            old(self).wf(),
        ensures
            final(self).wf(),
            final(self)@ == after(old(self)@, StoreOp::ToPlaying(final(self)@.frozen)),
            admissible(old(self)@, StoreOp::ToPlaying(final(self)@.frozen)),
            r is Err <==> old(self)@.playing,
            r is Err ==> r == Err::<(), StoreError>(StoreError::WrongPhase),
    {
        let seed = random_seed();
        self.change_state_to_playing_with_seed(seed)
    }

    /// Hands out the notifications published since the last call, oldest first.
    pub fn take_notifications(&mut self) -> (r: Vec<Notification>)
        requires
            old(self).wf(),
        ensures
            final(self).wf(),
            r@ == old(self)@.outbox,
            final(self)@ == after(old(self)@, StoreOp::TakeNotifications),
    {
        let mut r: Vec<Notification> = Vec::new();
        core::mem::swap(&mut r, &mut self.outbox);
        assert(self@ =~= after(old(self)@, StoreOp::TakeNotifications));
        r
    }
}

/// A well-formed store is consistent, so the lemmas on `StoreView` apply to it.
pub proof fn lemma_wf_consistent(s: &GameStore)
    requires
        s.wf(),
    ensures
        s@.consistent(),
{
}

} // verus!
