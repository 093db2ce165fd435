//! Change notifications of the shared store: what travels on each channel,
//! how a raw channel message is read, and how the cached phase and name
//! count follow the notifications.

use vstd::prelude::*;
use vstd::utf8::encode_utf8;
use crate::game::{Epoch, GameState};

verus! {

/// Channel on which the store announces the new number of names.
pub const NUM_NAMES_CHANNEL: &'static str = "numNames";

/// Channel on which the store announces a newly guessed index.
pub const GUESS_CHANNEL: &'static str = "guess";

/// Channel on which the store announces a newly unguessed index.
pub const UNGUESS_CHANNEL: &'static str = "unguess";

/// Channel on which the store announces a new submitting phase and its epoch.
pub const STATE_SUBMITTING_CHANNEL: &'static str = "stateSubmitting";

/// Channel on which the store announces the playing phase.
pub const STATE_PLAYING_CHANNEL: &'static str = "statePlaying";

/// One change that the store has published.
#[derive(Clone, Copy, Debug, PartialEq, Eq, Hash, Structural)]
pub enum Notification {
    NameCount(usize),
    Guessed(usize),
    Unguessed(usize),
    Submitting(Epoch),
    Playing,
}

/// Why a channel message was dropped.
#[derive(Clone, Copy, Debug, PartialEq, Eq, Hash, Structural)]
pub enum NotificationError {
    /// The message came on a channel that carries no game notification.
    UnknownChannel,
    /// The channel calls for a number and the payload is not one that fits.
    NotANumber,
}

pub open spec fn is_digit(b: u8) -> bool {
    48 <= b <= 57
}

/// The value of a string of decimal digits.
pub open spec fn digits_value(s: Seq<u8>) -> nat
    decreases s.len(),
{
    if s.len() == 0 {
        0
    } else {
        digits_value(s.drop_last()) * 10 + (s.last() - 48) as nat
    }
}

/// A decimal number as the standard library reads an unsigned integer:
/// an optional `+` and at least one digit, nothing else.
pub open spec fn decimal_of(s: Seq<u8>) -> Option<nat> {
    let d = unsigned_part(s);
    if d.len() > 0 && all_digits(d) {
        Some(digits_value(d))
    } else {
        None
    }
}

/// The text after an optional leading `+`.
pub open spec fn unsigned_part(s: Seq<u8>) -> Seq<u8> {
    if s.len() > 0 && s[0] == 43 {
        s.drop_first()
    } else {
        s
    }
}

pub open spec fn all_digits(d: Seq<u8>) -> bool {
    forall|i: int| 0 <= i < d.len() ==> is_digit(#[trigger] d[i])
}

/// The decimal number in `s` when it is at most `max`.
pub open spec fn decimal_up_to(s: Seq<u8>, max: u64) -> Option<u64> {
    match decimal_of(s) {
        Some(v) => if v <= max {
            Some(v as u64)
        } else {
            None
        },
        None => None,
    }
}

proof fn lemma_digits_prefix_le(s: Seq<u8>, k: int)
    requires
        0 <= k <= s.len(),
        forall|i: int| 0 <= i < s.len() ==> is_digit(#[trigger] s[i]),
    ensures
        digits_value(s.subrange(0, k)) <= digits_value(s),
    decreases s.len(),
{
    if k < s.len() {
        let t = s.drop_last();
        assert(t.subrange(0, k) =~= s.subrange(0, k));
        lemma_digits_prefix_le(t, k);
    } else {
        assert(s.subrange(0, k) =~= s);
    }
}

/// Reads an unsigned decimal number no greater than `max`.
pub fn parse_decimal(s: &[u8], max: u64) -> (r: Option<u64>)
    ensures
        r == decimal_up_to(s@, max),
{
    let n = s.len();
    let start: usize = if n > 0 && s[0] == 43 {
        1
    } else {
        0
    };
    let ghost d = unsigned_part(s@);
    assert(d =~= s@.subrange(start as int, n as int));
    if start >= n {
        return None;
    }
    let mut acc: u64 = 0;
    let mut i: usize = start;
    while i < n
        invariant
            start <= i <= n,
            n == s@.len(),
            d == s@.subrange(start as int, n as int),
            d == unsigned_part(s@),
            acc == digits_value(d.subrange(0, i - start)),
            acc <= max,
            forall|k: int| 0 <= k < i - start ==> is_digit(#[trigger] d[k]),
        decreases n - i,
    {
        let c = s[i];
        assert(d[i - start] == c);
        if c < 48 || c > 57 {
            assert(!is_digit(d[i - start]));
            assert(!all_digits(d));
            return None;
        }
        let ghost prefix = d.subrange(0, i + 1 - start);
        assert(prefix.drop_last() =~= d.subrange(0, i - start));
        assert(prefix.last() == c);
        assert(digits_value(prefix) == acc * 10 + (c - 48));
        let next = match acc.checked_mul(10) {
            Some(t) => t.checked_add((c - 48) as u64),
            None => None,
        };
        match next {
            Some(v) if v <= max => {
                assert(forall|k: int| 0 <= k < i + 1 - start ==> is_digit(#[trigger] d[k]));
                acc = v;
                i = i + 1;
            },
            _ => {
                proof {
                    if all_digits(d) {
                        lemma_digits_prefix_le(d, i + 1 - start);
                    }
                    assert(digits_value(prefix) > max);
                }
                return None;
            },
        }
    }
    assert(d.subrange(0, n - start) =~= d);
    Some(acc)
}

fn bytes_equal(a: &[u8], b: &[u8]) -> (r: bool)
    ensures
        r == (a@ == b@),
{
    if a.len() != b.len() {
        return false;
    }
    let mut i: usize = 0;
    while i < a.len()
        invariant
            i <= a@.len(),
            a@.len() == b@.len(),
            a@.subrange(0, i as int) == b@.subrange(0, i as int),
        decreases a@.len() - i,
    {
        if a[i] != b[i] {
            assert(a@[i as int] != b@[i as int]);
            return false;
        }
        assert(a@.subrange(0, i + 1) =~= a@.subrange(0, i as int).push(a@[i as int]));
        assert(b@.subrange(0, i + 1) =~= b@.subrange(0, i as int).push(b@[i as int]));
        i = i + 1;
    }
    assert(a@ =~= a@.subrange(0, i as int));
    assert(b@ =~= b@.subrange(0, i as int));
    true
}

/// What a message on a store channel announces.
pub open spec fn notification_meaning(channel: Seq<u8>, payload: Seq<u8>) -> Result<
    Notification,
    NotificationError,
> {
    let index = decimal_up_to(payload, usize::MAX as u64);
    if channel == encode_utf8(NUM_NAMES_CHANNEL@) {
        match index {
            Some(n) => Ok(Notification::NameCount(n as usize)),
            None => Err(NotificationError::NotANumber),
        }
    } else if channel == encode_utf8(GUESS_CHANNEL@) {
        match index {
            Some(n) => Ok(Notification::Guessed(n as usize)),
            None => Err(NotificationError::NotANumber),
        }
    } else if channel == encode_utf8(UNGUESS_CHANNEL@) {
        match index {
            Some(n) => Ok(Notification::Unguessed(n as usize)),
            None => Err(NotificationError::NotANumber),
        }
    } else if channel == encode_utf8(STATE_SUBMITTING_CHANNEL@) {
        match decimal_up_to(payload, u32::MAX as u64) {
            Some(e) => Ok(Notification::Submitting(Epoch(e as u32))),
            None => Err(NotificationError::NotANumber),
        }
    } else if channel == encode_utf8(STATE_PLAYING_CHANNEL@) {
        Ok(Notification::Playing)
    } else {
        Err(NotificationError::UnknownChannel)
    }
}

impl Notification {
    /// Reads a message that arrived on a store channel. Numbers travel as
    /// decimal text; the playing announcement carries nothing of interest.
    pub fn decode(channel: &[u8], payload: &[u8]) -> (r: Result<Notification, NotificationError>)
        ensures
            r == notification_meaning(channel@, payload@),
    {
        let max_index = usize::MAX as u64;
        if bytes_equal(channel, NUM_NAMES_CHANNEL.as_bytes()) {
            match parse_decimal(payload, max_index) {
                Some(n) => Ok(Notification::NameCount(n as usize)),
                None => Err(NotificationError::NotANumber),
            }
        } else if bytes_equal(channel, GUESS_CHANNEL.as_bytes()) {
            match parse_decimal(payload, max_index) {
                Some(n) => Ok(Notification::Guessed(n as usize)),
                None => Err(NotificationError::NotANumber),
            }
        } else if bytes_equal(channel, UNGUESS_CHANNEL.as_bytes()) {
            match parse_decimal(payload, max_index) {
                Some(n) => Ok(Notification::Unguessed(n as usize)),
                None => Err(NotificationError::NotANumber),
            }
        } else if bytes_equal(channel, STATE_SUBMITTING_CHANNEL.as_bytes()) {
            match parse_decimal(payload, u32::MAX as u64) {
                Some(e) => Ok(Notification::Submitting(Epoch(e as u32))),
                None => Err(NotificationError::NotANumber),
            }
        } else if bytes_equal(channel, STATE_PLAYING_CHANNEL.as_bytes()) {
            Ok(Notification::Playing)
        } else {
            Err(NotificationError::UnknownChannel)
        }
    }
}

/// The values that a process keeps from the notifications it has seen:
/// the current phase and the current number of names.
#[derive(Clone, Copy, Debug, PartialEq, Eq, Structural)]
pub struct StoreCache {
    pub state: GameState,
    pub name_count: usize,
}

/// The cache after one notification. A new submitting phase empties the
/// name collection, so the count drops to 0 with it.
pub open spec fn cache_after(c: StoreCache, n: Notification) -> StoreCache {
    match n {
        Notification::NameCount(k) => StoreCache { name_count: k, ..c },
        Notification::Submitting(e) => StoreCache { state: GameState::Submitting(e), name_count: 0 },
        Notification::Playing => StoreCache { state: GameState::Playing, ..c },
        Notification::Guessed(_) => c,
        Notification::Unguessed(_) => c,
    }
}

impl StoreCache {
    /// Takes one notification into account.
    pub fn apply(&mut self, n: Notification)
        ensures
            *final(self) == cache_after(*old(self), n),
    {
        match n {
            Notification::NameCount(k) => {
                self.name_count = k;
            },
            Notification::Submitting(e) => {
                self.state = GameState::Submitting(e);
                self.name_count = 0;
            },
            Notification::Playing => {
                self.state = GameState::Playing;
            },
            Notification::Guessed(_) => {},
            Notification::Unguessed(_) => {},
        }
    }
}

} // verus!
