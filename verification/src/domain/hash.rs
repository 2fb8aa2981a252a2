//! Identity digests. The digested bytes are exact: each message opens with a
//! tag that ends in a single NUL, and every part of varying length is framed.
use vstd::prelude::*;

use crate::bytes;
use crate::bytes::{frame, push_be128, push_be64, push_bytes};
use crate::domain::grants::Authority;
use crate::domain::types;
use crate::domain::types::{EffectRequest, NormalizedRun};
use crate::encoding;
use crate::encoding::sha256_digest;
use crate::ids::Uuid;
use crate::names::NameSet;
use crate::text;

verus! {

/// The tag that opens the messages of a kind.
pub open spec fn tag(kind: Seq<char>) -> Seq<u8> {
    text::utf8(kind)
}

/// The digested bytes of a run.
pub open spec fn run_message(request: NormalizedRun) -> Seq<u8> {
    tag("effectlatch/run/v1\0"@) + (request.module_digest@ + (bytes::be128(request.grant_id.value)
        + (bytes::framed(request.input@) + (bytes::be64(request.limits.fuel) + (bytes::be64(
        request.limits.memory_bytes,
    ) + (bytes::be64(request.limits.wall_ms) + bytes::be64(request.limits.max_effects)))))))
}

/// The digested bytes of an effect: what is asked for, not at which position.
pub open spec fn effect_message(request: types::EffectView) -> Seq<u8> {
    tag("effectlatch/effect/v1\0"@) + (bytes::framed(text::utf8(request.action)) + (bytes::framed(
        text::utf8(request.destination),
    ) + (bytes::framed(text::utf8(request.arguments.project)) + (bytes::framed(
        text::utf8(request.arguments.title),
    ) + bytes::framed(text::utf8(request.arguments.body))))))
}

/// The digested bytes of the key under which a provider knows an effect.
pub open spec fn provider_message(tenant: Uuid, run: Uuid, ordinal: u64) -> Seq<u8> {
    tag("effectlatch/provider/v1\0"@) + (bytes::be128(tenant.value) + (bytes::be128(run.value)
        + bytes::be64(ordinal)))
}

/// The digested bytes of an event, which hold the digest of the one before it.
pub open spec fn event_message(
    tenant: Uuid,
    run: Uuid,
    seq: u64,
    previous: Seq<u8>,
    kind: Seq<char>,
    payload: Seq<u8>,
) -> Seq<u8> {
    tag("effectlatch/event/v1\0"@) + (bytes::be128(tenant.value) + (bytes::be128(run.value) + (
    bytes::be64(seq) + (previous + (bytes::framed(text::utf8(kind)) + bytes::framed(payload))))))
}

/// The bytes of a checkpoint.
pub open spec fn checkpoint_message(
    tenant: Uuid,
    run: Uuid,
    seq: u64,
    terminal: Seq<u8>,
) -> Seq<u8> {
    tag("effectlatch/checkpoint/v1\0"@) + (bytes::be128(tenant.value) + (bytes::be128(run.value) + (
    bytes::be64(seq) + terminal)))
}

/// The framed names of a set, one after the other.
pub open spec fn framed_names(names: Seq<Seq<char>>) -> Seq<u8>
    decreases names.len(),
{
    if names.len() == 0 {
        Seq::empty()
    } else {
        bytes::framed(text::utf8(names[0])) + framed_names(names.drop_first())
    }
}

/// A set of names: how many, then each one framed, in ascending order.
pub open spec fn name_set_bytes(names: Seq<Seq<char>>) -> Seq<u8> {
    bytes::be64(names.len() as u64) + framed_names(names)
}

/// The parent of a grant: a mark, and the identifier where there is a parent.
pub open spec fn parent_bytes(parent: Option<Uuid>) -> Seq<u8> {
    match parent {
        Some(parent) => seq![1u8] + bytes::be128(parent.value),
        None => seq![0u8],
    }
}

/// The digested bytes of a grant's creation.
pub open spec fn grant_message(parent: Option<Uuid>, authority: Authority) -> Seq<u8> {
    tag("effectlatch/grant/v1\0"@) + (parent_bytes(parent) + (name_set_bytes(authority.actions@) + (
    name_set_bytes(authority.destinations@) + (name_set_bytes(authority.projects@) + (bytes::be64(
        authority.expires_at_ms as u64,
    ) + bytes::be64(authority.max_effects))))))
}

/// The digested bytes of a grant's revocation.
pub open spec fn revocation_message(grant: Uuid, reason: Seq<char>) -> Seq<u8> {
    tag("effectlatch/grant-revocation/v1\0"@) + (bytes::be128(grant.value) + bytes::framed(
        text::utf8(reason),
    ))
}

fn tagged(kind: &str) -> (r: Vec<u8>)
    ensures
        r@ == tag(kind@),
{
    bytes::copy_bytes(kind.as_bytes())
}

fn push_digit(out: &mut String, nibble: u8)
    requires
        nibble < 16,
    ensures
        final(out)@ == old(out)@.push(types::hex_byte(nibble) as char),
{
    let digit = match nibble {
        0 => "0",
        1 => "1",
        2 => "2",
        3 => "3",
        4 => "4",
        5 => "5",
        6 => "6",
        7 => "7",
        8 => "8",
        9 => "9",
        10 => "a",
        11 => "b",
        12 => "c",
        13 => "d",
        14 => "e",
        _ => "f",
    };
    proof {
        reveal_strlit("0");
        reveal_strlit("1");
        reveal_strlit("2");
        reveal_strlit("3");
        reveal_strlit("4");
        reveal_strlit("5");
        reveal_strlit("6");
        reveal_strlit("7");
        reveal_strlit("8");
        reveal_strlit("9");
        reveal_strlit("a");
        reveal_strlit("b");
        reveal_strlit("c");
        reveal_strlit("d");
        reveal_strlit("e");
        reveal_strlit("f");
    }
    out.append(digit);
    assert(out@ =~= old(out)@.push(types::hex_byte(nibble) as char));
}

/// The lower-case hexadecimal text of a byte string.
pub fn hex(input: &[u8]) -> (r: String)
    ensures
        r@ == types::hex_text(input@),
        text::utf8(r@) == types::hex_bytes(input@),
{
    let mut out = String::new();
    let mut i: usize = 0;
    while i < input.len()
        invariant
            i <= input.len(),
            out@.len() == 2 * i,
            forall|k: int| 0 <= k < 2 * i ==> #[trigger] out@[k] == types::hex_text(input@)[k],
        decreases input.len() - i,
    {
        push_digit(&mut out, input[i] / 16);
        push_digit(&mut out, input[i] % 16);
        i = i + 1;
    }
    assert(out@ =~= types::hex_text(input@));
    proof {
        types::hex_text_is_ascii(input@);
    }
    out
}

/// The identity of an admitted run.
pub fn run(request: &NormalizedRun) -> (r: [u8; 32])
    ensures
        r@ == encoding::sha256(run_message(*request)),
{
    let mut message = tagged("effectlatch/run/v1\0");
    push_bytes(&mut message, request.module_digest.as_slice());
    push_be128(&mut message, request.grant_id.value);
    frame(&mut message, request.input.as_slice());
    push_be64(&mut message, request.limits.fuel);
    push_be64(&mut message, request.limits.memory_bytes);
    push_be64(&mut message, request.limits.wall_ms);
    push_be64(&mut message, request.limits.max_effects);
    assert(message@ =~= run_message(*request));
    sha256_digest(message.as_slice())
}

/// The identity of what an effect asks for.
pub fn effect(request: &EffectRequest) -> (r: [u8; 32])
    ensures
        r@ == encoding::sha256(effect_message(request@)),
{
    let mut message = tagged("effectlatch/effect/v1\0");
    frame(&mut message, request.action.as_str().as_bytes());
    frame(&mut message, request.destination.as_str().as_bytes());
    frame(&mut message, request.arguments.project.as_str().as_bytes());
    frame(&mut message, request.arguments.title.as_str().as_bytes());
    frame(&mut message, request.arguments.body.as_str().as_bytes());
    assert(message@ =~= effect_message(request@));
    sha256_digest(message.as_slice())
}

/// The key under which a provider knows an effect.
pub fn provider(tenant: Uuid, run: Uuid, ordinal: u64) -> (r: [u8; 32])
    ensures
        r@ == encoding::sha256(provider_message(tenant, run, ordinal)),
{
    let mut message = tagged("effectlatch/provider/v1\0");
    push_be128(&mut message, tenant.value);
    push_be128(&mut message, run.value);
    push_be64(&mut message, ordinal);
    assert(message@ =~= provider_message(tenant, run, ordinal));
    sha256_digest(message.as_slice())
}

/// The digest of an event, chained to the one before it.
pub fn event(
    tenant: Uuid,
    run: Uuid,
    seq: u64,
    previous: &[u8; 32],
    kind: &str,
    payload: &[u8],
) -> (r: [u8; 32])
    ensures
        r@ == encoding::sha256(event_message(tenant, run, seq, previous@, kind@, payload@)),
{
    let mut message = tagged("effectlatch/event/v1\0");
    push_be128(&mut message, tenant.value);
    push_be128(&mut message, run.value);
    push_be64(&mut message, seq);
    push_bytes(&mut message, previous.as_slice());
    frame(&mut message, kind.as_bytes());
    frame(&mut message, payload);
    assert(message@ =~= event_message(tenant, run, seq, previous@, kind@, payload@));
    sha256_digest(message.as_slice())
}

/// The bytes of a checkpoint of a run's events.
pub fn checkpoint(tenant: Uuid, run: Uuid, seq: u64, terminal: &[u8; 32]) -> (r: Vec<u8>)
    ensures
        r@ == checkpoint_message(tenant, run, seq, terminal@),
{
    let mut message = tagged("effectlatch/checkpoint/v1\0");
    push_be128(&mut message, tenant.value);
    push_be128(&mut message, run.value);
    push_be64(&mut message, seq);
    push_bytes(&mut message, terminal.as_slice());
    assert(message@ =~= checkpoint_message(tenant, run, seq, terminal@));
    message
}

fn push_names(out: &mut Vec<u8>, names: &NameSet)
    ensures
        final(out)@ == old(out)@ + name_set_bytes(names@),
{
    push_be64(out, names.len() as u64);
    let ghost start = out@;
    assert(names@.skip(0) =~= names@);
    let mut i: usize = 0;
    while i < names.len()
        invariant
            i <= names@.len(),
            start + framed_names(names@) == out@ + framed_names(names@.skip(i as int)),
        decreases names@.len() - i,
    {
        let ghost before = out@;
        frame(out, names.get(i).as_bytes());
        proof {
            assert(names@.skip(i as int).drop_first() =~= names@.skip(i + 1));
            assert(before + framed_names(names@.skip(i as int)) =~= out@ + framed_names(
                names@.skip(i + 1),
            ));
        }
        i = i + 1;
    }
    assert(names@.skip(i as int).len() == 0);
    assert(out@ =~= start + framed_names(names@));
    assert(out@ =~= old(out)@ + name_set_bytes(names@));
}

/// The digest recorded when a grant is created.
pub fn grant(parent: Option<Uuid>, authority: &Authority) -> (r: [u8; 32])
    ensures
        r@ == encoding::sha256(grant_message(parent, *authority)),
{
    let mut message = tagged("effectlatch/grant/v1\0");
    match parent {
        Some(parent) => {
            message.push(1);
            push_be128(&mut message, parent.value);
        },
        None => {
            message.push(0);
        },
    }
    assert(message@ =~= tag("effectlatch/grant/v1\0"@) + parent_bytes(parent));
    push_names(&mut message, &authority.actions);
    push_names(&mut message, &authority.destinations);
    push_names(&mut message, &authority.projects);
    push_be64(&mut message, authority.expires_at_ms as u64);
    push_be64(&mut message, authority.max_effects);
    assert(message@ =~= grant_message(parent, *authority));
    sha256_digest(message.as_slice())
}

/// The digest recorded when a grant is revoked.
pub fn grant_revocation(grant: Uuid, reason: &str) -> (r: [u8; 32])
    ensures
        r@ == encoding::sha256(revocation_message(grant, reason@)),
{
    let mut message = tagged("effectlatch/grant-revocation/v1\0");
    push_be128(&mut message, grant.value);
    frame(&mut message, reason.as_bytes());
    assert(message@ =~= revocation_message(grant, reason@));
    sha256_digest(message.as_slice())
}

/// Runs with the same digested bytes are the same request.
pub proof fn run_message_is_injective(a: NormalizedRun, b: NormalizedRun)
    requires
        a.input@.len() <= u64::MAX,
        b.input@.len() <= u64::MAX,
        run_message(a) == run_message(b),
    ensures
        a.module_digest@ == b.module_digest@,
        a.grant_id == b.grant_id,
        a.input@ == b.input@,
        a.limits == b.limits,
{
    let limits = |r: NormalizedRun|
        bytes::be64(r.limits.fuel) + (bytes::be64(r.limits.memory_bytes) + (bytes::be64(
            r.limits.wall_ms,
        ) + bytes::be64(r.limits.max_effects)));
    let t = tag("effectlatch/run/v1\0"@);
    let a3 = bytes::framed(a.input@) + limits(a);
    let b3 = bytes::framed(b.input@) + limits(b);
    let a2 = bytes::be128(a.grant_id.value) + a3;
    let b2 = bytes::be128(b.grant_id.value) + b3;
    bytes::split_prefix(t, t, a.module_digest@ + a2, b.module_digest@ + b2);
    bytes::split_prefix(a.module_digest@, b.module_digest@, a2, b2);
    bytes::split_prefix(bytes::be128(a.grant_id.value), bytes::be128(b.grant_id.value), a3, b3);
    bytes::be128_is_injective(a.grant_id.value, b.grant_id.value);
    bytes::split_framed(a.input@, b.input@, limits(a), limits(b));
    let a5 = bytes::be64(a.limits.wall_ms) + bytes::be64(a.limits.max_effects);
    let b5 = bytes::be64(b.limits.wall_ms) + bytes::be64(b.limits.max_effects);
    let a4 = bytes::be64(a.limits.memory_bytes) + a5;
    let b4 = bytes::be64(b.limits.memory_bytes) + b5;
    bytes::split_prefix(bytes::be64(a.limits.fuel), bytes::be64(b.limits.fuel), a4, b4);
    bytes::split_prefix(
        bytes::be64(a.limits.memory_bytes),
        bytes::be64(b.limits.memory_bytes),
        a5,
        b5,
    );
    bytes::split_prefix(
        bytes::be64(a.limits.wall_ms),
        bytes::be64(b.limits.wall_ms),
        bytes::be64(a.limits.max_effects),
        bytes::be64(b.limits.max_effects),
    );
    bytes::be64_is_injective(a.limits.fuel, b.limits.fuel);
    bytes::be64_is_injective(a.limits.memory_bytes, b.limits.memory_bytes);
    bytes::be64_is_injective(a.limits.wall_ms, b.limits.wall_ms);
    bytes::be64_is_injective(a.limits.max_effects, b.limits.max_effects);
}

/// A text whose length in bytes fits a frame.
pub open spec fn fits(text: Seq<char>) -> bool {
    text::utf8(text).len() <= u64::MAX
}

/// Two framed texts in front of what follows split off.
proof fn split_text(a: Seq<char>, b: Seq<char>, x: Seq<u8>, y: Seq<u8>)
    requires
        fits(a),
        fits(b),
        bytes::framed(text::utf8(a)) + x == bytes::framed(text::utf8(b)) + y,
    ensures
        a == b,
        x == y,
{
    bytes::split_framed(text::utf8(a), text::utf8(b), x, y);
    text::utf8_is_injective(a, b);
}

/// Effects with the same digested bytes ask for the same.
pub proof fn effect_message_is_injective(a: types::EffectView, b: types::EffectView)
    requires
        fits(a.action) && fits(a.destination) && fits(a.arguments.project) && fits(
            a.arguments.title,
        ) && fits(a.arguments.body),
        fits(b.action) && fits(b.destination) && fits(b.arguments.project) && fits(
            b.arguments.title,
        ) && fits(b.arguments.body),
        effect_message(a) == effect_message(b),
    ensures
        a.action == b.action,
        a.destination == b.destination,
        a.arguments == b.arguments,
{
    let t = tag("effectlatch/effect/v1\0"@);
    let f = |s: Seq<char>| bytes::framed(text::utf8(s));
    let a4 = f(a.arguments.title) + f(a.arguments.body);
    let b4 = f(b.arguments.title) + f(b.arguments.body);
    let a3 = f(a.arguments.project) + a4;
    let b3 = f(b.arguments.project) + b4;
    let a2 = f(a.destination) + a3;
    let b2 = f(b.destination) + b3;
    bytes::split_prefix(t, t, f(a.action) + a2, f(b.action) + b2);
    split_text(a.action, b.action, a2, b2);
    split_text(a.destination, b.destination, a3, b3);
    split_text(a.arguments.project, b.arguments.project, a4, b4);
    split_text(a.arguments.title, b.arguments.title, f(a.arguments.body), f(b.arguments.body));
    assert(f(a.arguments.body) =~= f(a.arguments.body) + Seq::<u8>::empty());
    assert(f(b.arguments.body) =~= f(b.arguments.body) + Seq::<u8>::empty());
    split_text(a.arguments.body, b.arguments.body, Seq::empty(), Seq::empty());
}

/// Two identifiers in front of what follows split off.
proof fn split_ids(
    t: Seq<u8>,
    a1: Uuid,
    a2: Uuid,
    x: Seq<u8>,
    b1: Uuid,
    b2: Uuid,
    y: Seq<u8>,
)
    requires
        t + (bytes::be128(a1.value) + (bytes::be128(a2.value) + x)) == t + (bytes::be128(b1.value)
            + (bytes::be128(b2.value) + y)),
    ensures
        a1 == b1,
        a2 == b2,
        x == y,
{
    bytes::split_prefix(
        t,
        t,
        bytes::be128(a1.value) + (bytes::be128(a2.value) + x),
        bytes::be128(b1.value) + (bytes::be128(b2.value) + y),
    );
    bytes::split_prefix(
        bytes::be128(a1.value),
        bytes::be128(b1.value),
        bytes::be128(a2.value) + x,
        bytes::be128(b2.value) + y,
    );
    bytes::split_prefix(bytes::be128(a2.value), bytes::be128(b2.value), x, y);
    bytes::be128_is_injective(a1.value, b1.value);
    bytes::be128_is_injective(a2.value, b2.value);
}

/// Each effect of each run of each tenant has provider bytes of its own.
pub proof fn provider_message_is_injective(
    tenant1: Uuid,
    run1: Uuid,
    ordinal1: u64,
    tenant2: Uuid,
    run2: Uuid,
    ordinal2: u64,
)
    requires
        provider_message(tenant1, run1, ordinal1) == provider_message(tenant2, run2, ordinal2),
    ensures
        tenant1 == tenant2,
        run1 == run2,
        ordinal1 == ordinal2,
{
    split_ids(
        tag("effectlatch/provider/v1\0"@),
        tenant1,
        run1,
        bytes::be64(ordinal1),
        tenant2,
        run2,
        bytes::be64(ordinal2),
    );
    bytes::be64_is_injective(ordinal1, ordinal2);
}

/// Events with the same digested bytes are the same event with the same past.
pub proof fn event_message_is_injective(
    tenant1: Uuid,
    run1: Uuid,
    seq1: u64,
    previous1: Seq<u8>,
    kind1: Seq<char>,
    payload1: Seq<u8>,
    tenant2: Uuid,
    run2: Uuid,
    seq2: u64,
    previous2: Seq<u8>,
    kind2: Seq<char>,
    payload2: Seq<u8>,
)
    requires
        previous1.len() == 32,
        previous2.len() == 32,
        fits(kind1),
        fits(kind2),
        payload1.len() <= u64::MAX,
        payload2.len() <= u64::MAX,
        event_message(tenant1, run1, seq1, previous1, kind1, payload1) == event_message(
            tenant2,
            run2,
            seq2,
            previous2,
            kind2,
            payload2,
        ),
    ensures
        tenant1 == tenant2,
        run1 == run2,
        seq1 == seq2,
        previous1 == previous2,
        kind1 == kind2,
        payload1 == payload2,
{
    let a2 = bytes::framed(text::utf8(kind1)) + bytes::framed(payload1);
    let b2 = bytes::framed(text::utf8(kind2)) + bytes::framed(payload2);
    split_ids(
        tag("effectlatch/event/v1\0"@),
        tenant1,
        run1,
        bytes::be64(seq1) + (previous1 + a2),
        tenant2,
        run2,
        bytes::be64(seq2) + (previous2 + b2),
    );
    bytes::split_prefix(bytes::be64(seq1), bytes::be64(seq2), previous1 + a2, previous2 + b2);
    bytes::be64_is_injective(seq1, seq2);
    bytes::split_prefix(previous1, previous2, a2, b2);
    split_text(kind1, kind2, bytes::framed(payload1), bytes::framed(payload2));
    assert(bytes::framed(payload1) =~= bytes::framed(payload1) + Seq::<u8>::empty());
    assert(bytes::framed(payload2) =~= bytes::framed(payload2) + Seq::<u8>::empty());
    bytes::split_framed(payload1, payload2, Seq::empty(), Seq::empty());
}

/// A checkpoint tells its run, its place and the digest it seals.
pub proof fn checkpoint_message_is_injective(
    tenant1: Uuid,
    run1: Uuid,
    seq1: u64,
    terminal1: Seq<u8>,
    tenant2: Uuid,
    run2: Uuid,
    seq2: u64,
    terminal2: Seq<u8>,
)
    requires
        checkpoint_message(tenant1, run1, seq1, terminal1) == checkpoint_message(
            tenant2,
            run2,
            seq2,
            terminal2,
        ),
    ensures
        tenant1 == tenant2,
        run1 == run2,
        seq1 == seq2,
        terminal1 == terminal2,
{
    split_ids(
        tag("effectlatch/checkpoint/v1\0"@),
        tenant1,
        run1,
        bytes::be64(seq1) + terminal1,
        tenant2,
        run2,
        bytes::be64(seq2) + terminal2,
    );
    bytes::split_prefix(bytes::be64(seq1), bytes::be64(seq2), terminal1, terminal2);
    bytes::be64_is_injective(seq1, seq2);
}

/// A revocation tells its grant and its reason.
pub proof fn revocation_message_is_injective(
    grant1: Uuid,
    reason1: Seq<char>,
    grant2: Uuid,
    reason2: Seq<char>,
)
    requires
        fits(reason1),
        fits(reason2),
        revocation_message(grant1, reason1) == revocation_message(grant2, reason2),
    ensures
        grant1 == grant2,
        reason1 == reason2,
{
    let t = tag("effectlatch/grant-revocation/v1\0"@);
    let a = bytes::framed(text::utf8(reason1));
    let b = bytes::framed(text::utf8(reason2));
    bytes::split_prefix(t, t, bytes::be128(grant1.value) + a, bytes::be128(grant2.value) + b);
    bytes::split_prefix(bytes::be128(grant1.value), bytes::be128(grant2.value), a, b);
    bytes::be128_is_injective(grant1.value, grant2.value);
    assert(a =~= a + Seq::<u8>::empty());
    assert(b =~= b + Seq::<u8>::empty());
    split_text(reason1, reason2, Seq::empty(), Seq::empty());
}

/// A set of names whose count and lengths fit their frames.
pub open spec fn set_fits(names: Seq<Seq<char>>) -> bool {
    &&& names.len() <= u64::MAX
    &&& forall|i: int| 0 <= i < names.len() ==> fits(#[trigger] names[i])
}

proof fn split_framed_names(a: Seq<Seq<char>>, b: Seq<Seq<char>>, x: Seq<u8>, y: Seq<u8>)
    requires
        a.len() == b.len(),
        set_fits(a),
        set_fits(b),
        framed_names(a) + x == framed_names(b) + y,
    ensures
        a == b,
        x == y,
    decreases a.len(),
{
    if a.len() == 0 {
        assert(a =~= b);
        assert(framed_names(a) + x =~= x);
        assert(framed_names(b) + y =~= y);
    } else {
        let a1 = framed_names(a.drop_first()) + x;
        let b1 = framed_names(b.drop_first()) + y;
        assert(framed_names(a) + x =~= bytes::framed(text::utf8(a[0])) + a1);
        assert(framed_names(b) + y =~= bytes::framed(text::utf8(b[0])) + b1);
        split_text(a[0], b[0], a1, b1);
        assert forall|i: int| 0 <= i < a.len() - 1 implies fits(#[trigger] a.drop_first()[i]) by {
            assert(fits(a[i + 1]));
        }
        assert forall|i: int| 0 <= i < b.len() - 1 implies fits(#[trigger] b.drop_first()[i]) by {
            assert(fits(b[i + 1]));
        }
        split_framed_names(a.drop_first(), b.drop_first(), x, y);
        assert(a =~= seq![a[0]] + a.drop_first());
        assert(b =~= seq![b[0]] + b.drop_first());
    }
}

proof fn split_name_set(a: Seq<Seq<char>>, b: Seq<Seq<char>>, x: Seq<u8>, y: Seq<u8>)
    requires
        set_fits(a),
        set_fits(b),
        name_set_bytes(a) + x == name_set_bytes(b) + y,
    ensures
        a == b,
        x == y,
{
    assert(name_set_bytes(a) + x =~= bytes::be64(a.len() as u64) + (framed_names(a) + x));
    assert(name_set_bytes(b) + y =~= bytes::be64(b.len() as u64) + (framed_names(b) + y));
    bytes::split_prefix(
        bytes::be64(a.len() as u64),
        bytes::be64(b.len() as u64),
        framed_names(a) + x,
        framed_names(b) + y,
    );
    bytes::be64_is_injective(a.len() as u64, b.len() as u64);
    split_framed_names(a, b, x, y);
}

proof fn split_parent(a: Option<Uuid>, b: Option<Uuid>, x: Seq<u8>, y: Seq<u8>)
    requires
        parent_bytes(a) + x == parent_bytes(b) + y,
    ensures
        a == b,
        x == y,
{
    assert((parent_bytes(a) + x)[0] == parent_bytes(a)[0]);
    assert((parent_bytes(b) + y)[0] == parent_bytes(b)[0]);
    bytes::split_prefix(parent_bytes(a), parent_bytes(b), x, y);
    if a is Some && b is Some {
        bytes::split_prefix(
            seq![1u8],
            seq![1u8],
            bytes::be128(a->0.value),
            bytes::be128(b->0.value),
        );
        bytes::be128_is_injective(a->0.value, b->0.value);
    }
}

/// A grant's creation record tells its parent and all of its authority.
pub proof fn grant_message_is_injective(
    parent1: Option<Uuid>,
    a: Authority,
    parent2: Option<Uuid>,
    b: Authority,
)
    requires
        set_fits(a.actions@) && set_fits(a.destinations@) && set_fits(a.projects@),
        set_fits(b.actions@) && set_fits(b.destinations@) && set_fits(b.projects@),
        grant_message(parent1, a) == grant_message(parent2, b),
    ensures
        parent1 == parent2,
        a.same_as(b),
{
    let t = tag("effectlatch/grant/v1\0"@);
    let a4 = bytes::be64(a.expires_at_ms as u64) + bytes::be64(a.max_effects);
    let b4 = bytes::be64(b.expires_at_ms as u64) + bytes::be64(b.max_effects);
    let a3 = name_set_bytes(a.projects@) + a4;
    let b3 = name_set_bytes(b.projects@) + b4;
    let a2 = name_set_bytes(a.destinations@) + a3;
    let b2 = name_set_bytes(b.destinations@) + b3;
    let a1 = name_set_bytes(a.actions@) + a2;
    let b1 = name_set_bytes(b.actions@) + b2;
    bytes::split_prefix(t, t, parent_bytes(parent1) + a1, parent_bytes(parent2) + b1);
    split_parent(parent1, parent2, a1, b1);
    split_name_set(a.actions@, b.actions@, a2, b2);
    split_name_set(a.destinations@, b.destinations@, a3, b3);
    split_name_set(a.projects@, b.projects@, a4, b4);
    bytes::split_prefix(
        bytes::be64(a.expires_at_ms as u64),
        bytes::be64(b.expires_at_ms as u64),
        bytes::be64(a.max_effects),
        bytes::be64(b.max_effects),
    );
    bytes::be64_is_injective(a.expires_at_ms as u64, b.expires_at_ms as u64);
    bytes::be64_is_injective(a.max_effects, b.max_effects);
    let p = a.expires_at_ms;
    let q = b.expires_at_ms;
    assert(p == q) by (bit_vector)
        requires
            p as u64 == q as u64,
    ;
}

/// The tags of the seven kinds of message.
pub open spec fn kinds() -> Seq<Seq<char>> {
    seq![
        "effectlatch/run/v1\0"@,
        "effectlatch/effect/v1\0"@,
        "effectlatch/provider/v1\0"@,
        "effectlatch/event/v1\0"@,
        "effectlatch/checkpoint/v1\0"@,
        "effectlatch/grant/v1\0"@,
        "effectlatch/grant-revocation/v1\0"@,
    ]
}

proof fn reveal_kinds()
    ensures
        forall|i: int|
            0 <= i < 7 ==> vstd::utf8::is_ascii_chars(#[trigger] kinds()[i]) && kinds()[i].len()
                > 17,
        kinds()[0][12] == 'r',
        kinds()[1][12] == 'e' && kinds()[1][13] == 'f',
        kinds()[2][12] == 'p',
        kinds()[3][12] == 'e' && kinds()[3][13] == 'v',
        kinds()[4][12] == 'c',
        kinds()[5][12] == 'g' && kinds()[5][17] == '/',
        kinds()[6][12] == 'g' && kinds()[6][17] == '-',
{
    reveal_strlit("effectlatch/run/v1\0");
    reveal_strlit("effectlatch/effect/v1\0");
    reveal_strlit("effectlatch/provider/v1\0");
    reveal_strlit("effectlatch/event/v1\0");
    reveal_strlit("effectlatch/checkpoint/v1\0");
    reveal_strlit("effectlatch/grant/v1\0");
    reveal_strlit("effectlatch/grant-revocation/v1\0");
}

/// Messages of different kinds never have the same bytes, whatever follows their tags.
pub proof fn kinds_never_collide(i: int, j: int, x: Seq<u8>, y: Seq<u8>)
    requires
        0 <= i < 7,
        0 <= j < 7,
        i != j,
    ensures
        tag(kinds()[i]) + x != tag(kinds()[j]) + y,
{
    reveal_kinds();
    let a = kinds()[i];
    let b = kinds()[j];
    vstd::utf8::is_ascii_chars_encode_utf8(a);
    vstd::utf8::is_ascii_chars_encode_utf8(b);
    let k: int = if a[12] != b[12] {
        12
    } else if a[13] != b[13] {
        13
    } else {
        17
    };
    assert(a[k] != b[k]);
    assert((tag(a) + x)[k] == a[k] as u8);
    assert((tag(b) + y)[k] == b[k] as u8);
}

/// What is digested of a run, place by place: its tag, its module's digest, its
/// grant, its framed input, and its four limits.
pub proof fn run_message_has_its_parts_in_place(request: NormalizedRun)
    requires
        request.input@.len() <= u64::MAX,
    ensures
        ({
            let message = run_message(request);
            let n = request.input@.len() as int;
            &&& message.len() == 19 + 32 + 16 + 8 + n + 32
            &&& message.subrange(0, 19) == text::utf8("effectlatch/run/v1\0"@)
            &&& message.subrange(19, 51) == request.module_digest@
            &&& message.subrange(51, 67) == bytes::be128(request.grant_id.value)
            &&& message.subrange(67, 75) == bytes::be64(request.input@.len() as u64)
            &&& message.subrange(75, 75 + n) == request.input@
            &&& message.subrange(75 + n, 83 + n) == bytes::be64(request.limits.fuel)
            &&& message.subrange(83 + n, 91 + n) == bytes::be64(request.limits.memory_bytes)
            &&& message.subrange(91 + n, 99 + n) == bytes::be64(request.limits.wall_ms)
            &&& message.subrange(99 + n, 107 + n) == bytes::be64(request.limits.max_effects)
        }),
{
    reveal_strlit("effectlatch/run/v1\0");
    vstd::utf8::is_ascii_chars_encode_utf8("effectlatch/run/v1\0"@);
    let message = run_message(request);
    let n = request.input@.len() as int;
    assert(message.subrange(0, 19) =~= text::utf8("effectlatch/run/v1\0"@));
    assert(message.subrange(19, 51) =~= request.module_digest@);
    assert(message.subrange(51, 67) =~= bytes::be128(request.grant_id.value));
    assert(message.subrange(67, 75) =~= bytes::be64(request.input@.len() as u64));
    assert(message.subrange(75, 75 + n) =~= request.input@);
    assert(message.subrange(75 + n, 83 + n) =~= bytes::be64(request.limits.fuel));
    assert(message.subrange(83 + n, 91 + n) =~= bytes::be64(request.limits.memory_bytes));
    assert(message.subrange(91 + n, 99 + n) =~= bytes::be64(request.limits.wall_ms));
    assert(message.subrange(99 + n, 107 + n) =~= bytes::be64(request.limits.max_effects));
}

/// The position of an effect has no part in what is digested of it: the same
/// request at another position has the same identity.
pub proof fn effects_are_digested_without_their_position(
    request: types::EffectView,
    ordinal: u64,
)
    ensures
        effect_message(types::EffectView { ordinal, ..request }) == effect_message(request),
        effect_message(request).len() >= 22,
        effect_message(request).take(22) == text::utf8("effectlatch/effect/v1\0"@),
{
    reveal_strlit("effectlatch/effect/v1\0");
    vstd::utf8::is_ascii_chars_encode_utf8("effectlatch/effect/v1\0"@);
    assert(effect_message(request).take(22) =~= text::utf8("effectlatch/effect/v1\0"@));
}

/// What is digested of a provider's key and of a checkpoint, place by place: a
/// tag, the tenant, the run, a number, and of a checkpoint the last hash.
pub proof fn keys_and_checkpoints_have_their_parts_in_place(
    tenant: Uuid,
    run: Uuid,
    number: u64,
    last: Seq<u8>,
)
    ensures
        ({
            let key = provider_message(tenant, run, number);
            &&& key.len() == 24 + 16 + 16 + 8
            &&& key.subrange(0, 24) == text::utf8("effectlatch/provider/v1\0"@)
            &&& key.subrange(24, 40) == bytes::be128(tenant.value)
            &&& key.subrange(40, 56) == bytes::be128(run.value)
            &&& key.subrange(56, 64) == bytes::be64(number)
        }),
        ({
            let mark = checkpoint_message(tenant, run, number, last);
            &&& mark.len() == 26 + 16 + 16 + 8 + last.len()
            &&& mark.subrange(0, 26) == text::utf8("effectlatch/checkpoint/v1\0"@)
            &&& mark.subrange(26, 42) == bytes::be128(tenant.value)
            &&& mark.subrange(42, 58) == bytes::be128(run.value)
            &&& mark.subrange(58, 66) == bytes::be64(number)
            &&& mark.skip(66) == last
        }),
{
    reveal_strlit("effectlatch/provider/v1\0");
    vstd::utf8::is_ascii_chars_encode_utf8("effectlatch/provider/v1\0"@);
    reveal_strlit("effectlatch/checkpoint/v1\0");
    vstd::utf8::is_ascii_chars_encode_utf8("effectlatch/checkpoint/v1\0"@);
    let key = provider_message(tenant, run, number);
    assert(key.subrange(0, 24) =~= text::utf8("effectlatch/provider/v1\0"@));
    assert(key.subrange(24, 40) =~= bytes::be128(tenant.value));
    assert(key.subrange(40, 56) =~= bytes::be128(run.value));
    assert(key.subrange(56, 64) =~= bytes::be64(number));
    let mark = checkpoint_message(tenant, run, number, last);
    assert(mark.subrange(0, 26) =~= text::utf8("effectlatch/checkpoint/v1\0"@));
    assert(mark.subrange(26, 42) =~= bytes::be128(tenant.value));
    assert(mark.subrange(42, 58) =~= bytes::be128(run.value));
    assert(mark.subrange(58, 66) =~= bytes::be64(number));
    assert(mark.skip(66) =~= last);
}

/// What is digested of an event, place by place: its tag, the tenant, the run,
/// its number, the hash of the event before, its framed kind and its framed
/// payload.
pub proof fn event_message_has_its_parts_in_place(
    tenant: Uuid,
    run: Uuid,
    seq: u64,
    previous: Seq<u8>,
    kind: Seq<char>,
    payload: Seq<u8>,
)
    requires
        previous.len() == 32,
        text::utf8(kind).len() <= u64::MAX,
        payload.len() <= u64::MAX,
    ensures
        ({
            let message = event_message(tenant, run, seq, previous, kind, payload);
            let k = text::utf8(kind).len() as int;
            &&& message.subrange(0, 21) == text::utf8("effectlatch/event/v1\0"@)
            &&& message.subrange(21, 37) == bytes::be128(tenant.value)
            &&& message.subrange(37, 53) == bytes::be128(run.value)
            &&& message.subrange(53, 61) == bytes::be64(seq)
            &&& message.subrange(61, 93) == previous
            &&& message.subrange(101, 101 + k) == text::utf8(kind)
            &&& message.skip(109 + k) == payload
        }),
{
    reveal_strlit("effectlatch/event/v1\0");
    vstd::utf8::is_ascii_chars_encode_utf8("effectlatch/event/v1\0"@);
    let message = event_message(tenant, run, seq, previous, kind, payload);
    let k = text::utf8(kind).len() as int;
    assert(message.subrange(0, 21) =~= text::utf8("effectlatch/event/v1\0"@));
    assert(message.subrange(21, 37) =~= bytes::be128(tenant.value));
    assert(message.subrange(37, 53) =~= bytes::be128(run.value));
    assert(message.subrange(53, 61) =~= bytes::be64(seq));
    assert(message.subrange(61, 93) =~= previous);
    assert(message.subrange(101, 101 + k) =~= text::utf8(kind));
    assert(message.skip(109 + k) =~= payload);
}

/// A root is marked with a zero alone, a child with a one before its parent's
/// sixteen bytes.
pub proof fn parents_are_marked(parent: Uuid)
    ensures
        parent_bytes(None) == seq![0u8],
        parent_bytes(Some(parent)).len() == 17,
        parent_bytes(Some(parent))[0] == 1,
        parent_bytes(Some(parent)).skip(1) == bytes::be128(parent.value),
{
    assert(parent_bytes(Some(parent)).skip(1) =~= bytes::be128(parent.value));
}

/// A set of names is written as its number and then each name with its length,
/// in order.
pub proof fn names_are_written_one_by_one(first: Seq<char>, rest: Seq<Seq<char>>)
    ensures
        framed_names(Seq::empty()) == Seq::<u8>::empty(),
        framed_names(seq![first] + rest) == bytes::framed(text::utf8(first)) + framed_names(rest),
        name_set_bytes(rest) == bytes::be64(rest.len() as u64) + framed_names(rest),
{
    assert((seq![first] + rest).drop_first() =~= rest);
}

} // verus!
