//! The lock handle and the acquisition protocol.
//!
//! A handle owns a derived lock identifier: the caller's name behind a fixed
//! namespace prefix. Acquisition is a read-verify-write sequence against the
//! storage cell for that identifier: read the existing marker; if it parses
//! to a timestamp younger than the staleness threshold, the lock is held and
//! the attempt fails with `WouldBlock`; otherwise write the current time as a
//! fresh marker and read it back — acquisition succeeds exactly when the
//! readback parses to the value just written, the best-effort proof that this
//! writer won any concurrent race. Release removes the marker
//! unconditionally.
//!
//! The clock is an input: every operation takes the current time in
//! milliseconds since a fixed epoch, supplied by the caller, so the protocol
//! is verified for every reading the clock could give.

use vstd::prelude::*;
use crate::error::Error;
use crate::marker::{
    dec_digits, format_marker, lemma_parse_format_round_trip, parse_marker, parse_spec,
};
use crate::store::MarkerStore;

verus! {

/// Milliseconds after which an unreleased marker is treated as abandoned.
pub const STALE_TIMEOUT_MS: u64 = 30000;

/// The fixed namespace token prefixed to every lock name. Identical across
/// cooperating instances, so independently built deployments contend on the
/// same stored cell.
pub const LOCK_PREFIX: &'static str = "named_lock_";

/// The namespace prefix as a character sequence.
pub open spec fn prefix_spec() -> Seq<char> {
    "named_lock_"@
}

/// A character acceptable in a lock name: path separators and the NUL
/// character would be misread by a filesystem medium, so names carrying them
/// are rejected at construction.
pub open spec fn valid_name_char(c: char) -> bool {
    c != '/' && c != '\\' && c != '\u{0}'
}

/// Every character of the name is acceptable to the backing media.
pub open spec fn valid_name(s: Seq<char>) -> bool {
    forall|i: int| 0 <= i < s.len() ==> valid_name_char(#[trigger] s[i])
}

/// A marker with timestamp `t` still represents a live holder at time `now`:
/// its age is under the staleness threshold. A marker from the clock's
/// future has not aged at all and counts as live.
pub open spec fn live_at(t: u64, now: u64) -> bool {
    now < t + STALE_TIMEOUT_MS
}

/// The lock appears held at time `now`: a marker is stored, it parses to a
/// timestamp, and that timestamp is live. An absent, unparseable, or stale
/// marker leaves the holder position open.
pub open spec fn held_spec(m: Option<Seq<char>>, now: u64) -> bool {
    match m {
        Some(s) => match parse_spec(s) {
            Some(t) => live_at(t, now),
            None => false,
        },
        None => false,
    }
}

/// What a single acquisition attempt at time `now` returns, given the marker
/// stored when it starts.
pub open spec fn try_lock_result_spec(m: Option<Seq<char>>, now: u64) -> Result<(), Error> {
    if held_spec(m, now) {
        Err(Error::WouldBlock)
    } else {
        Ok(())
    }
}

/// What a single acquisition attempt at time `now` leaves stored: a held
/// lock is not touched; an open position receives the claimant's own
/// timestamp.
pub open spec fn try_lock_marker_spec(m: Option<Seq<char>>, now: u64) -> Option<Seq<char>> {
    if held_spec(m, now) {
        m
    } else {
        Some(dec_digits(now as nat))
    }
}

/// What a release returns: removal never fails on the model medium, and an
/// already-absent marker is an already-released state, not an error.
pub open spec fn unlock_result_spec(m: Option<Seq<char>>) -> Result<(), Error> {
    Ok(())
}

/// What a release leaves stored: nothing.
pub open spec fn unlock_marker_spec(m: Option<Seq<char>>) -> Option<Seq<char>> {
    None
}

/// Whether the stored marker content represents a live holder at `now`.
pub fn marker_is_live(content: &str, now: u64) -> (r: bool)
    ensures
        r == held_spec(Some(content@), now),
{
    match parse_marker(content) {
        Some(t) => {
            if t > now {
                true
            } else {
                now - t < STALE_TIMEOUT_MS
            }
        },
        None => false,
    }
}

/// Whether the marker read back after a claim carries exactly the timestamp
/// this claimant wrote — the evidence that its write won the race.
pub fn readback_confirms(content: &str, now: u64) -> (r: bool)
    ensures
        r == (parse_spec(content@) == Some(now)),
{
    match parse_marker(content) {
        Some(t) => t == now,
        None => false,
    }
}

/// Whether a blocking acquisition should retry after this failure: only a
/// lock merely held by a live owner is worth waiting for; every other error
/// is propagated.
pub fn should_retry(e: &Error) -> (r: bool)
    ensures
        r == (e is WouldBlock),
{
    match e {
        Error::WouldBlock => true,
        _ => false,
    }
}

/// A handle on one named lock: the owner of the derived lock identifier.
pub struct NamedLock {
    id: String,
}

impl View for NamedLock {
    type V = Seq<char>;

    closed spec fn view(&self) -> Seq<char> {
        self.id@
    }
}

impl NamedLock {
    /// Construct a handle for `name`. Rejects, before any storage is
    /// touched, a name with a character the backing media cannot accept;
    /// otherwise the handle's identifier is the name behind the fixed
    /// namespace prefix.
    pub fn create(name: &str) -> (r: Result<NamedLock, Error>)
        ensures
            r is Ok <==> valid_name(name@),
            r matches Ok(h) ==> h@ == prefix_spec() + name@,
            r matches Err(e) ==> e == Error::InvalidCharacter,
    {
        let n = name.unicode_len();
        let mut i: usize = 0;
        while i < n
            invariant
                n == name@.len(),
                i <= n,
                forall|j: int| 0 <= j < i ==> valid_name_char(#[trigger] name@[j]),
            decreases n - i,
        {
            let c = name.get_char(i);
            if c == '/' || c == '\\' || c == '\u{0}' {
                return Err(Error::InvalidCharacter);
            }
            i += 1;
        }
        let id = String::from_str(LOCK_PREFIX).concat(name);
        Ok(NamedLock { id })
    }

    /// The derived lock identifier, under which the backing medium keys this
    /// lock's marker.
    pub fn id(&self) -> (r: &String)
        ensures
            r@ == self@,
    {
        &self.id
    }

    /// One non-blocking acquisition attempt at time `now`. Returns
    /// `WouldBlock`, leaving the marker alone, exactly when the stored
    /// marker shows a live holder; otherwise claims the open position by
    /// writing `now` and verifying the readback.
    pub fn try_lock(&self, store: &mut MarkerStore, now: u64) -> (r: Result<(), Error>)
        ensures
            r == try_lock_result_spec(old(store)@, now),
            final(store)@ == try_lock_marker_spec(old(store)@, now),
    {
        let existing = store.read_marker();
        if let Some(content) = &existing {
            if marker_is_live(content.as_str(), now) {
                return Err(Error::WouldBlock);
            }
        }
        let fresh = format_marker(now);
        store.write_marker(fresh);
        let back = store.read_marker();
        proof {
            lemma_parse_format_round_trip(now);
        }
        match &back {
            Some(content) => {
                if readback_confirms(content.as_str(), now) {
                    Ok(())
                } else {
                    Err(Error::LockFailed)
                }
            },
            None => Err(Error::LockFailed),
        }
    }

    /// Release the lock by removing its marker, unconditionally: any party
    /// that can name the lock can release it, which lets a watchdog reclaim
    /// a stuck lock. Removing an already-absent marker is an
    /// already-released state, not an error.
    pub fn unlock(&self, store: &mut MarkerStore) -> (r: Result<(), Error>)
        ensures
            r == unlock_result_spec(old(store)@),
            final(store)@ == unlock_marker_spec(old(store)@),
    {
        store.remove_marker();
        Ok(())
    }
}

/// Mutual exclusion: of two acquisition attempts on the same lock within one
/// staleness window, at most one succeeds — if the first claims the lock at
/// `now1`, an attempt at any `now2` less than a staleness threshold later
/// finds a live marker and returns `WouldBlock`.
pub proof fn lemma_mutual_exclusion(m: Option<Seq<char>>, now1: u64, now2: u64)
    requires
        try_lock_result_spec(m, now1) is Ok,
        now1 <= now2,
        now2 < now1 + STALE_TIMEOUT_MS,
    ensures
        try_lock_result_spec(try_lock_marker_spec(m, now1), now2) == Err::<(), Error>(
            Error::WouldBlock,
        ),
{
    lemma_parse_format_round_trip(now1);
}

/// Eventual acquisition: once the holder releases — whatever marker `m` was
/// stored — the very next acquisition attempt succeeds, at any time, and
/// stores the new claimant's own timestamp.
pub proof fn lemma_eventual_acquisition(m: Option<Seq<char>>, now: u64)
    ensures
        try_lock_result_spec(unlock_marker_spec(m), now) is Ok,
        try_lock_marker_spec(unlock_marker_spec(m), now) == Some(dec_digits(now as nat)),
{
}

/// Staleness reclaim: a marker whose timestamp `t` lies a full staleness
/// threshold or more in the past is treated as abandoned — an acquisition
/// attempt succeeds without any release having happened, and the new marker
/// carries the claimant's time, not the old holder's.
pub proof fn lemma_staleness_reclaim(s: Seq<char>, t: u64, now: u64)
    requires
        parse_spec(s) == Some(t),
        t + STALE_TIMEOUT_MS <= now,
    ensures
        try_lock_result_spec(Some(s), now) is Ok,
        try_lock_marker_spec(Some(s), now) == Some(dec_digits(now as nat)),
{
}

/// Idempotent unlock: releasing an already-released lock succeeds and leaves
/// the same state as the first release — the second call is
/// indistinguishable from the first.
pub proof fn lemma_idempotent_unlock(m: Option<Seq<char>>)
    ensures
        unlock_result_spec(m) is Ok,
        unlock_result_spec(unlock_marker_spec(m)) == unlock_result_spec(m),
        unlock_marker_spec(unlock_marker_spec(m)) == unlock_marker_spec(m),
{
}

} // verus!
