//! The event log of a run: numbered from one, each event sealed with the hash
//! of the one before.
use vstd::prelude::*;

use crate::domain::hash;
use crate::encoding;
use crate::ids::Uuid;
use crate::store::{digest_array, StoreError};
use crate::text;

verus! {

/// The longest payload of an event.
pub const EVENT_BYTES: usize = 16_384;

/// Where the log of a run stands: the number of the next event, and the hash
/// of the last one.
#[derive(Debug)]
pub struct EventHead {
    pub next_seq: i64,
    pub last_hash: Vec<u8>,
}

/// An event to be appended.
#[derive(Debug)]
pub struct EventPlan {
    pub seq: i64,
    pub previous: [u8; 32],
    pub hash: [u8; 32],
    /// The number of the event after this one.
    pub next_seq: i64,
}

/// An event of this kind with this payload may be appended.
pub open spec fn is_event(kind: Seq<char>, payload: Seq<u8>) -> bool {
    &&& 1 <= text::utf8(kind).len() <= 128
    &&& payload.len() <= EVENT_BYTES
}

impl EventHead {
    /// The head of a log: a positive number with a successor, and a whole hash.
    pub open spec fn is_sound(self) -> bool {
        &&& 0 < self.next_seq < i64::MAX
        &&& self.last_hash@.len() == 32
    }
}

impl EventPlan {
    /// The head of the log once the event is appended.
    pub open spec fn follows(self, head: EventHead) -> bool {
        &&& self.seq == head.next_seq
        &&& self.previous@ == head.last_hash@
        &&& self.next_seq == self.seq + 1
    }
}

/// Seal an event behind the head of its run's log.
pub fn append_event(
    tenant: Uuid,
    run: Uuid,
    head: Option<EventHead>,
    kind: &str,
    payload: &[u8],
) -> (r: Result<EventPlan, StoreError>)
    ensures
        match r {
            Ok(plan) => {
                &&& is_event(kind@, payload@)
                &&& head is Some
                &&& head->0.is_sound()
                &&& plan.follows(head->0)
                &&& plan.hash@ == encoding::sha256(
                    hash::event_message(
                        tenant,
                        run,
                        plan.seq as u64,
                        plan.previous@,
                        kind@,
                        payload@,
                    ),
                )
            },
            Err(error) => if !is_event(kind@, payload@) {
                error.refuses("invalid event kind or payload size"@)
            } else if head is None {
                error is RunNotFound
            } else {
                error is CorruptEventHead && !head->0.is_sound()
            },
        },
{
    let length: usize = text::byte_len(kind);
    if length == 0 || length > 128 || payload.len() > EVENT_BYTES {
        return Err(StoreError::Configuration("invalid event kind or payload size"));
    }
    let head = match head {
        Some(head) => head,
        None => return Err(StoreError::RunNotFound),
    };
    if head.next_seq <= 0 || head.next_seq == i64::MAX {
        return Err(StoreError::CorruptEventHead);
    }
    let previous = match digest_array(head.last_hash.as_slice()) {
        Some(previous) => previous,
        None => return Err(StoreError::CorruptEventHead),
    };
    let hash = hash::event(tenant, run, head.next_seq as u64, &previous, kind, payload);
    Ok(EventPlan { seq: head.next_seq, previous, hash, next_seq: head.next_seq + 1 })
}

/// An event as it stands in a log.
pub struct LoggedEvent {
    pub kind: Seq<char>,
    pub payload: Seq<u8>,
}

/// The hash that seals a log: that of its last event, which covers the hash of
/// the one before, down to the hash that the log began with.
pub open spec fn log_hash(
    tenant: Uuid,
    run: Uuid,
    origin: Seq<u8>,
    log: Seq<LoggedEvent>,
) -> Seq<u8>
    decreases log.len(),
{
    if log.len() == 0 {
        origin
    } else {
        encoding::sha256(last_message(tenant, run, origin, log))
    }
}

/// What is hashed to seal a log that is not empty.
pub open spec fn last_message(
    tenant: Uuid,
    run: Uuid,
    origin: Seq<u8>,
    log: Seq<LoggedEvent>,
) -> Seq<u8>
    decreases log.len(), 0int,
{
    if log.len() == 0 {
        origin
    } else {
        hash::event_message(
            tenant,
            run,
            log.len() as u64,
            log_hash(tenant, run, origin, log.drop_last()),
            log.last().kind,
            log.last().payload,
        )
    }
}

/// Every event of the log may have been appended.
pub open spec fn is_log(log: Seq<LoggedEvent>) -> bool {
    &&& log.len() < i64::MAX
    &&& forall|i: int| 0 <= i < log.len() ==> #[trigger] is_event(log[i].kind, log[i].payload)
}

/// Two different messages with the same hash.
pub open spec fn is_collision(a: Seq<u8>, b: Seq<u8>) -> bool {
    a != b && encoding::sha256(a) == encoding::sha256(b)
}

/// Every hash in a log is whole.
pub open spec fn hashes_are_whole(
    tenant: Uuid,
    run: Uuid,
    origin: Seq<u8>,
    log: Seq<LoggedEvent>,
) -> bool {
    forall|n: int| 0 <= n <= log.len() ==> #[trigger] log_hash(tenant, run, origin, log.take(n)).len() == 32
}

/// What seals the first events of the one log and of the other differs, but has
/// the same hash.
pub open spec fn collides_at(
    tenant: Uuid,
    run: Uuid,
    origin: Seq<u8>,
    a: Seq<LoggedEvent>,
    b: Seq<LoggedEvent>,
    n: int,
) -> bool {
    is_collision(
        last_message(tenant, run, origin, a.take(n)),
        last_message(tenant, run, origin, b.take(n)),
    )
}

/// The last hash tells the whole history: two logs of a run with the same
/// number of events and the same last hash hold the same events, unless SHA-256
/// gives one hash to two different messages that the two logs themselves hold.
pub proof fn last_hash_tells_the_history(
    tenant: Uuid,
    run: Uuid,
    origin: Seq<u8>,
    a: Seq<LoggedEvent>,
    b: Seq<LoggedEvent>,
)
    requires
        is_log(a),
        is_log(b),
        hashes_are_whole(tenant, run, origin, a),
        hashes_are_whole(tenant, run, origin, b),
        a.len() == b.len(),
        log_hash(tenant, run, origin, a) == log_hash(tenant, run, origin, b),
    ensures
        a == b || exists|n: int|
            1 <= n <= a.len() && #[trigger] collides_at(tenant, run, origin, a, b, n),
    decreases a.len(),
{
    if a.len() == 0 {
        assert(a =~= b);
    } else {
        let x = last_message(tenant, run, origin, a);
        let y = last_message(tenant, run, origin, b);
        if x != y {
            assert(a.take(a.len() as int) =~= a && b.take(b.len() as int) =~= b);
            assert(collides_at(tenant, run, origin, a, b, a.len() as int));
        } else {
            let n = a.len() - 1;
            let p = log_hash(tenant, run, origin, a.drop_last());
            let q = log_hash(tenant, run, origin, b.drop_last());
            assert(a.take(n) =~= a.drop_last() && b.take(n) =~= b.drop_last());
            assert(log_hash(tenant, run, origin, a.take(n)).len() == 32);
            assert(log_hash(tenant, run, origin, b.take(n)).len() == 32);
            assert(is_event(a[n].kind, a[n].payload) && is_event(b[n].kind, b[n].payload));
            hash::event_message_is_injective(
                tenant,
                run,
                a.len() as u64,
                p,
                a.last().kind,
                a.last().payload,
                tenant,
                run,
                b.len() as u64,
                q,
                b.last().kind,
                b.last().payload,
            );
            assert forall|i: int| 0 <= i < n implies #[trigger] is_event(
                a.drop_last()[i].kind,
                a.drop_last()[i].payload,
            ) by {
                assert(is_event(a[i].kind, a[i].payload));
            }
            assert forall|i: int| 0 <= i < n implies #[trigger] is_event(
                b.drop_last()[i].kind,
                b.drop_last()[i].payload,
            ) by {
                assert(is_event(b[i].kind, b[i].payload));
            }
            assert forall|k: int| 0 <= k <= n implies #[trigger] log_hash(
                tenant,
                run,
                origin,
                a.drop_last().take(k),
            ).len() == 32 by {
                assert(a.drop_last().take(k) =~= a.take(k));
                assert(log_hash(tenant, run, origin, a.take(k)).len() == 32);
            }
            assert forall|k: int| 0 <= k <= n implies #[trigger] log_hash(
                tenant,
                run,
                origin,
                b.drop_last().take(k),
            ).len() == 32 by {
                assert(b.drop_last().take(k) =~= b.take(k));
                assert(log_hash(tenant, run, origin, b.take(k)).len() == 32);
            }
            last_hash_tells_the_history(tenant, run, origin, a.drop_last(), b.drop_last());
            if a.drop_last() == b.drop_last() {
                assert(a.last() == b.last());
                assert(a =~= a.drop_last().push(a.last()));
                assert(b =~= b.drop_last().push(b.last()));
            } else {
                let k = choose|k: int|
                    1 <= k <= n && #[trigger] collides_at(
                        tenant,
                        run,
                        origin,
                        a.drop_last(),
                        b.drop_last(),
                        k,
                    );
                assert(a.drop_last().take(k) =~= a.take(k));
                assert(b.drop_last().take(k) =~= b.take(k));
                assert(collides_at(tenant, run, origin, a, b, k));
            }
        }
    }
}

/// Appending an event to a log gives the log's next hash: the plan made on the
/// head of a log seals the log with the event at its end.
pub proof fn appended_event_seals_the_log(
    tenant: Uuid,
    run: Uuid,
    origin: Seq<u8>,
    log: Seq<LoggedEvent>,
    event: LoggedEvent,
    head: EventHead,
    plan: EventPlan,
)
    requires
        head.is_sound(),
        head.next_seq == log.len() + 1,
        head.last_hash@ == log_hash(tenant, run, origin, log),
        plan.follows(head),
        plan.hash@ == encoding::sha256(
            hash::event_message(
                tenant,
                run,
                plan.seq as u64,
                plan.previous@,
                event.kind,
                event.payload,
            ),
        ),
    ensures
        plan.hash@ == log_hash(tenant, run, origin, log.push(event)),
        plan.next_seq == log.push(event).len() + 1,
{
    assert(log.push(event).drop_last() =~= log);
    assert(log.push(event).last() == event);
}

/// An event has a kind of 1 to 128 bytes and a payload of up to 16 KiB, and every
/// such event may be appended.
pub proof fn events_are_bounded(kind: Seq<char>, payload: Seq<u8>)
    ensures
        is_event(kind, payload) <==> 0 < text::utf8(kind).len() < 129 && payload.len() <= 16_384,
{
}

/// A log's head is sound exactly where its number counts from one and can grow,
/// and its hash has 32 bytes; the plan on it takes both over, and leaves the next
/// number.
pub proof fn plans_go_on_from_the_head(head: EventHead, plan: EventPlan)
    ensures
        head.is_sound() <==> 1 <= head.next_seq < 9_223_372_036_854_775_807
            && head.last_hash@.len() == 32,
        plan.follows(head) ==> plan.seq == head.next_seq && plan.next_seq == head.next_seq + 1
            && plan.previous@ == head.last_hash@,
        head.is_sound() && plan.follows(head) ==> plan.next_seq > plan.seq,
{
}

/// A log is sealed with its last event, at the number that counts it, over the
/// hash of the log before.
pub proof fn logs_are_sealed_with_their_last_event(
    tenant: Uuid,
    run: Uuid,
    origin: Seq<u8>,
    log: Seq<LoggedEvent>,
    next: LoggedEvent,
)
    ensures
        last_message(tenant, run, origin, log.push(next)) == hash::event_message(
            tenant,
            run,
            (log.len() + 1) as u64,
            log_hash(tenant, run, origin, log),
            next.kind,
            next.payload,
        ),
        last_message(tenant, run, origin, Seq::empty()) == origin,
{
    assert(log.push(next).drop_last() =~= log);
}

} // verus!
