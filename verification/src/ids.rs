//! Identifiers of tenants, runs and grants, and sets of them.
use vstd::prelude::*;

use crate::text;

verus! {

/// A 128-bit universally unique identifier.
#[derive(Clone, Copy, Debug, PartialEq, Eq, Structural)]
pub struct Uuid {
    pub value: u128,
}

/// The character of a lower-case hexadecimal digit.
pub open spec fn hex_char(digit: u128) -> char {
    if digit < 10 {
        (0x30 + digit) as char
    } else {
        (0x57 + digit) as char
    }
}

/// The hexadecimal digit of a 128-bit value at a place, the first being the highest.
pub open spec fn digit_at(value: u128, place: int) -> u128 {
    (value >> ((124 - 4 * place) as u128)) & 0xf
}

/// The canonical text of an identifier: five groups of lower-case
/// hexadecimal digits of lengths 8, 4, 4, 4 and 12, joined by hyphens.
pub open spec fn hyphenated(value: u128) -> Seq<char> {
    Seq::new(
        36,
        |i: int|
            if i == 8 || i == 13 || i == 18 || i == 23 {
                '-'
            } else {
                let hyphens: int = if i < 8 {
                    0
                } else if i < 13 {
                    1
                } else if i < 18 {
                    2
                } else if i < 23 {
                    3
                } else {
                    4
                };
                hex_char(digit_at(value, i - hyphens))
            },
    )
}

/// The value behind an optional identifier.
pub open spec fn optional_value(id: Option<Uuid>) -> Option<u128> {
    match id {
        Some(id) => Some(id.value),
        None => None,
    }
}

/// What `uuid::Uuid::parse_str` reads from a text, as a 128-bit value.
pub uninterp spec fn parsed_uuid(text: Seq<char>) -> Option<u128>;

/// Calls `uuid::Uuid::parse_str`. Claimed: the result is a function of the
/// text, and the hyphenated lower-case text of an identifier is read as that
/// identifier.
#[verifier::external_body]
pub(crate) fn parse_uuid(text: &str) -> (r: Option<u128>)
    ensures
        r == parsed_uuid(text@),
        forall|value: u128| text@ == #[trigger] hyphenated(value) ==> r == Some(value),
{
    uuid::Uuid::parse_str(text).ok().map(|id| id.as_u128())
}

/// Calls `uuid::Uuid::from_u128` and its `Display`. Claimed: the text is the
/// hyphenated lower-case form.
#[verifier::external_body]
fn uuid_text(value: u128) -> (r: String)
    ensures
        r@ == hyphenated(value),
{
    uuid::Uuid::from_u128(value).to_string()
}

impl Uuid {
    /// The identifier with a given 128-bit value.
    pub fn from_u128(value: u128) -> (r: Uuid)
        ensures
            r == (Uuid { value }),
    {
        Uuid { value }
    }

    /// The canonical text.
    pub fn to_text(&self) -> (r: String)
        ensures
            r@ == hyphenated(self.value),
    {
        uuid_text(self.value)
    }
}

/// Whether a text is the canonical text of some identifier.
pub open spec fn is_canonical_id(text: Seq<char>) -> bool {
    exists|value: u128| text == #[trigger] hyphenated(value)
}

/// The identifier that a text denotes, where the text is its canonical form.
pub fn canonical_id(value: &str) -> (r: Option<Uuid>)
    ensures
        r is Some <==> is_canonical_id(value@),
        r matches Some(id) ==> value@ == hyphenated(id.value),
{
    match parse_uuid(value) {
        Some(id) => {
            let canonical = uuid_text(id);
            if text::text_equal(canonical.as_str(), value) {
                Some(Uuid { value: id })
            } else {
                None
            }
        },
        None => None,
    }
}

proof fn hex_char_is_injective(a: u128, b: u128)
    requires
        a < 16,
        b < 16,
        hex_char(a) == hex_char(b),
    ensures
        a == b,
{
}

/// Two identifiers with the same canonical text are the same.
pub proof fn canonical_text_determines_id(a: u128, b: u128)
    requires
        hyphenated(a) == hyphenated(b),
    ensures
        a == b,
{
    assert forall|place: int| 0 <= place < 32 implies digit_at(a, place) == digit_at(b, place) by {
        let hyphens: int = if place < 8 {
            0
        } else if place < 12 {
            1
        } else if place < 16 {
            2
        } else if place < 20 {
            3
        } else {
            4
        };
        let i = place + hyphens;
        assert(i - hyphens == place);
        assert(hyphenated(a)[i] == hex_char(digit_at(a, place)));
        assert(hyphenated(b)[i] == hex_char(digit_at(b, place)));
        let shift = (124 - 4 * place) as u128;
        assert((a >> shift) & 0xf < 16) by (bit_vector);
        assert((b >> shift) & 0xf < 16) by (bit_vector);
        hex_char_is_injective(digit_at(a, place), digit_at(b, place));
    }
    equal_digits_equal_values(a, b);
}

/// The value is the sum of its digits at their places.
proof fn equal_digits_equal_values(a: u128, b: u128)
    requires
        forall|place: int| 0 <= place < 32 ==> digit_at(a, place) == digit_at(b, place),
    ensures
        a == b,
{
    equal_digits_equal_prefixes(a, b, 32);
    assert(a >> 0u128 == a) by (bit_vector);
    assert(b >> 0u128 == b) by (bit_vector);
}

/// Values that agree on their first `n` digits agree once the others are shifted out.
proof fn equal_digits_equal_prefixes(a: u128, b: u128, n: int)
    requires
        1 <= n <= 32,
        forall|place: int| 0 <= place < 32 ==> digit_at(a, place) == digit_at(b, place),
    ensures
        a >> ((128 - 4 * n) as u128) == b >> ((128 - 4 * n) as u128),
    decreases n,
{
    assert(digit_at(a, n - 1) == digit_at(b, n - 1));
    let s = (128 - 4 * n) as u128;
    if n == 1 {
        assert(a >> 124u128 == b >> 124u128) by (bit_vector)
            requires
                (a >> 124u128) & 0xf == (b >> 124u128) & 0xf,
        ;
    } else {
        equal_digits_equal_prefixes(a, b, n - 1);
        let t = (s + 4) as u128;
        assert(a >> s == b >> s) by (bit_vector)
            requires
                s <= 120,
                t == s + 4,
                a >> t == b >> t,
                (a >> s) & 0xf == (b >> s) & 0xf,
        ;
    }
}

/// Strictly ascending identifiers.
pub open spec fn ascending(ids: Seq<Uuid>) -> bool {
    forall|i: int, j: int| 0 <= i < j < ids.len() ==> ids[i].value < ids[j].value
}

/// A set of identifiers. Its view lists them in ascending order.
#[derive(Debug)]
pub struct IdSet {
    ids: Vec<Uuid>,
}

impl View for IdSet {
    type V = Seq<Uuid>;

    closed spec fn view(&self) -> Seq<Uuid> {
        self.ids@
    }
}

impl IdSet {
    #[verifier::type_invariant]
    closed spec fn sorted(self) -> bool {
        ascending(self.ids@)
    }

    /// The empty set.
    pub fn new() -> (r: IdSet)
        ensures
            r@ == Seq::<Uuid>::empty(),
    {
        IdSet { ids: Vec::new() }
    }

    /// How many identifiers the set holds.
    pub fn len(&self) -> (r: usize)
        ensures
            r == self@.len(),
    {
        self.ids.len()
    }

    pub fn is_empty(&self) -> (r: bool)
        ensures
            r == (self@.len() == 0),
    {
        self.ids.len() == 0
    }

    /// Whether the set holds an identifier.
    pub fn contains(&self, id: Uuid) -> (r: bool)
        ensures
            r == self@.contains(id),
    {
        holds_id(self.ids.as_slice(), id)
    }

    /// The identifiers in ascending order.
    pub fn to_vec(&self) -> (r: Vec<Uuid>)
        ensures
            r@ == self@,
            ascending(r@),
    {
        proof {
            use_type_invariant(self);
        }
        copy_ids(self.ids.as_slice())
    }

    /// Add an identifier; `false` where the set held it already.
    pub fn insert(&mut self, id: Uuid) -> (r: bool)
        ensures
            r == !old(self)@.contains(id),
            !r ==> final(self)@ == old(self)@,
            r ==> exists|at: int|
                0 <= at <= old(self)@.len() && final(self)@ == #[trigger] old(self)@.insert(at, id),
            forall|other: Uuid| #[trigger]
                final(self)@.contains(other) <==> other == id || old(self)@.contains(other),
            ascending(final(self)@),
    {
        proof {
            use_type_invariant(&*self);
        }
        let ghost before = self@;
        let mut at: usize = 0;
        while at < self.ids.len() && self.ids[at].value < id.value
            invariant
                at <= self.ids.len(),
                self@ == before,
                ascending(before),
                forall|k: int| 0 <= k < at ==> before[k].value < id.value,
            decreases self.ids.len() - at,
        {
            at = at + 1;
        }
        if at < self.ids.len() && self.ids[at].value == id.value {
            assert(before[at as int] == id);
            return false;
        }
        assert(forall|k: int| 0 <= k < before.len() ==> before[k] != id);
        let mut ids: Vec<Uuid> = Vec::new();
        std::mem::swap(&mut ids, &mut self.ids);
        ids.insert(at, id);
        assert(ids@ =~= before.insert(at as int, id));
        self.ids = ids;
        proof {
            let after = self@;
            assert forall|other: Uuid| #[trigger] after.contains(other) <==> other == id
                || before.contains(other) by {
                if before.contains(other) {
                    let k = choose|k: int| 0 <= k < before.len() && before[k] == other;
                    let m = if k < at { k } else { k + 1 };
                    assert(after[m] == other);
                }
                if other == id {
                    assert(after[at as int] == other);
                }
                if after.contains(other) {
                    let k = choose|k: int| 0 <= k < after.len() && after[k] == other;
                    if k < at {
                        assert(before[k] == other);
                    } else if k > at {
                        assert(before[k - 1] == other);
                    }
                }
            }
        }
        true
    }
}

impl Clone for IdSet {
    fn clone(&self) -> (r: IdSet)
        ensures
            r@ == self@,
    {
        proof {
            use_type_invariant(self);
        }
        IdSet { ids: copy_ids(self.ids.as_slice()) }
    }
}

/// Whether a list holds an identifier.
pub fn holds_id(ids: &[Uuid], id: Uuid) -> (r: bool)
    ensures
        r == ids@.contains(id),
{
    let mut i: usize = 0;
    while i < ids.len()
        invariant
            i <= ids.len(),
            forall|k: int| 0 <= k < i ==> ids@[k] != id,
        decreases ids.len() - i,
    {
        if ids[i] == id {
            return true;
        }
        i = i + 1;
    }
    false
}

/// A copy of a list of identifiers.
pub fn copy_ids(ids: &[Uuid]) -> (r: Vec<Uuid>)
    ensures
        r@ == ids@,
{
    let mut out: Vec<Uuid> = Vec::new();
    let mut i: usize = 0;
    while i < ids.len()
        invariant
            i <= ids.len(),
            out@ == ids@.subrange(0, i as int),
        decreases ids.len() - i,
    {
        out.push(ids[i]);
        i = i + 1;
        assert(ids@.subrange(0, i as int) =~= ids@.subrange(0, i - 1).push(ids@[i - 1]));
    }
    assert(out@ =~= ids@);
    out
}

/// The text of an identifier has 36 characters: hyphens at four places, and
/// lower-case hexadecimal digits at all others.
pub proof fn canonical_texts_have_five_groups(value: u128, i: int)
    requires
        0 <= i < 36,
    ensures
        hyphenated(value).len() == 36,
        hyphenated(value)[i] == '-' <==> i == 8 || i == 13 || i == 18 || i == 23,
        hyphenated(value)[i] != '-' ==> '0' <= hyphenated(value)[i] <= '9' || 'a' <= hyphenated(
            value,
        )[i] <= 'f',
{
    let hyphens: int = if i < 8 {
        0
    } else if i < 13 {
        1
    } else if i < 18 {
        2
    } else if i < 23 {
        3
    } else {
        4
    };
    let shift = (124 - 4 * (i - hyphens)) as u128;
    assert((value >> shift) & 0xf < 16) by (bit_vector);
}

/// A list of identifiers is ascending exactly where each is smaller than the next
/// of any later place; none occurs twice in it.
pub proof fn ascending_identifiers_are_different(ids: Seq<Uuid>, i: int, j: int)
    requires
        ascending(ids),
        0 <= i < ids.len(),
        0 <= j < ids.len(),
    ensures
        i < j <==> ids[i].value < ids[j].value,
        i == j <==> ids[i] == ids[j],
{
    if j < i {
        assert(ids[j].value < ids[i].value);
    }
}

} // verus!
