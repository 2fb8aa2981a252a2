//! Sets of names, kept in ascending byte order without repetition.
use vstd::prelude::*;

use crate::text;

verus! {

/// Strictly ascending, hence free of repetition.
pub open spec fn ascending(names: Seq<Seq<char>>) -> bool {
    forall|i: int, j: int| 0 <= i < j < names.len() ==> text::text_less(names[i], names[j])
}

/// No name occurs twice in an ascending list.
proof fn ascending_is_free_of_repetition(names: Seq<Seq<char>>)
    requires
        ascending(names),
    ensures
        names.no_duplicates(),
{
    assert forall|i: int, j: int|
        0 <= i < names.len() && 0 <= j < names.len() && i != j implies names[i] != names[j] by {
        let (a, b) = if i < j { (i, j) } else { (j, i) };
        assert(text::text_less(names[a], names[b]));
        text::bytes_less_is_irreflexive(text::utf8(names[a]));
    }
}

/// The texts behind a vector of strings.
pub open spec fn texts(names: Seq<String>) -> Seq<Seq<char>> {
    Seq::new(names.len(), |i: int| names[i]@)
}

/// A set of names. Its view lists them in ascending order.
#[derive(Debug)]
pub struct NameSet {
    names: Vec<String>,
}

impl View for NameSet {
    type V = Seq<Seq<char>>;

    closed spec fn view(&self) -> Seq<Seq<char>> {
        texts(self.names@)
    }
}

impl NameSet {
    #[verifier::type_invariant]
    closed spec fn sorted(self) -> bool {
        ascending(texts(self.names@))
    }

    /// Every name of this set is one of the other's.
    pub open spec fn subset_of(self, other: NameSet) -> bool {
        forall|name: Seq<char>| self@.contains(name) ==> #[trigger] other@.contains(name)
    }

    /// The empty set.
    pub fn new() -> (r: NameSet)
        ensures
            r@ == Seq::<Seq<char>>::empty(),
    {
        let names: Vec<String> = Vec::new();
        let r = NameSet { names };
        assert(r@ =~= Seq::<Seq<char>>::empty());
        r
    }

    /// The set of the names in a list.
    pub fn from_texts(list: Vec<String>) -> (r: NameSet)
        ensures
            forall|name: Seq<char>| #[trigger] r@.contains(name) <==> texts(list@).contains(name),
            ascending(r@),
            texts(list@).no_duplicates() ==> r@.len() == list@.len(),
    {
        let mut set = NameSet::new();
        let ghost all = texts(list@);
        let mut i: usize = 0;
        while i < list.len()
            invariant
                i <= list.len(),
                all == texts(list@),
                ascending(set@),
                forall|name: Seq<char>| #[trigger]
                    set@.contains(name) <==> exists|k: int| 0 <= k < i && all[k] == name,
            decreases list.len() - i,
        {
            let _new = set.insert(text::copy_text(list[i].as_str()));
            assert(all[i as int] == list@[i as int]@);
            i = i + 1;
        }
        proof {
            if all.no_duplicates() {
                ascending_is_free_of_repetition(set@);
                set@.unique_seq_to_set();
                all.unique_seq_to_set();
                assert(set@.to_set() =~= all.to_set());
            }
        }
        set
    }

    /// The names in ascending order.
    pub fn to_texts(&self) -> (r: Vec<String>)
        ensures
            texts(r@) == self@,
    {
        copy_texts(self.names.as_slice())
    }

    /// How many names the set holds.
    pub fn len(&self) -> (r: usize)
        ensures
            r == self@.len(),
    {
        self.names.len()
    }

    pub fn is_empty(&self) -> (r: bool)
        ensures
            r == (self@.len() == 0),
    {
        self.names.len() == 0
    }

    /// The name at a position of the ascending order.
    pub fn get(&self, index: usize) -> (r: &str)
        requires
            index < self@.len(),
        ensures
            r@ == self@[index as int],
    {
        self.names[index].as_str()
    }

    /// Whether the set holds a name.
    pub fn contains(&self, name: &str) -> (r: bool)
        ensures
            r == self@.contains(name@),
    {
        let mut i: usize = 0;
        while i < self.names.len()
            invariant
                i <= self.names.len(),
                forall|k: int| 0 <= k < i ==> self@[k] != name@,
            decreases self.names.len() - i,
        {
            if text::text_equal(self.names[i].as_str(), name) {
                assert(self@[i as int] == name@);
                return true;
            }
            i = i + 1;
        }
        false
    }

    /// Whether every name of this set is one of the other's.
    pub fn is_subset(&self, other: &NameSet) -> (r: bool)
        ensures
            r == self.subset_of(*other),
    {
        let mut i: usize = 0;
        while i < self.names.len()
            invariant
                i <= self.names.len(),
                forall|k: int| 0 <= k < i ==> other@.contains(#[trigger] self@[k]),
            decreases self.names.len() - i,
        {
            if !other.contains(self.names[i].as_str()) {
                assert(self@.contains(self@[i as int]));
                return false;
            }
            i = i + 1;
        }
        true
    }

    /// Add a name; `false` where the set held it already.
    pub fn insert(&mut self, name: String) -> (r: bool)
        ensures
            r == !old(self)@.contains(name@),
            !r ==> final(self)@ == old(self)@,
            r ==> exists|at: int|
                0 <= at <= old(self)@.len() && final(self)@ == #[trigger] old(self)@.insert(
                    at,
                    name@,
                ),
            forall|other: Seq<char>| #[trigger]
                final(self)@.contains(other) <==> other == name@ || old(self)@.contains(other),
            ascending(final(self)@),
    {
        proof {
            use_type_invariant(&*self);
        }
        let ghost before = self@;
        let mut at: usize = 0;
        while at < self.names.len() && text::is_text_less(self.names[at].as_str(), name.as_str())
            invariant
                at <= self.names.len(),
                self@ == before,
                ascending(before),
                forall|k: int| 0 <= k < at ==> text::text_less(before[k], name@),
            decreases self.names.len() - at,
        {
            at = at + 1;
        }
        if at < self.names.len() && text::text_equal(self.names[at].as_str(), name.as_str()) {
            assert(before[at as int] == name@);
            return false;
        }
        let mut names: Vec<String> = Vec::new();
        std::mem::swap(&mut names, &mut self.names);
        let ghost old_names = names@;
        proof {
            assert(before =~= texts(old_names));
            assert forall|k: int| at <= k < before.len() implies text::text_less(
                name@,
                #[trigger] before[k],
            ) by {
                text::bytes_less_is_total(text::utf8(name@), text::utf8(before[at as int]));
                text::utf8_is_injective(name@, before[at as int]);
                if k > at {
                    assert(text::text_less(before[at as int], before[k]));
                    text::bytes_less_is_transitive(
                        text::utf8(name@),
                        text::utf8(before[at as int]),
                        text::utf8(before[k]),
                    );
                }
            }
            assert forall|k: int| 0 <= k < before.len() implies before[k] != name@ by {
                text::bytes_less_is_irreflexive(text::utf8(name@));
            }
        }
        let ghost text = name@;
        names.insert(at, name);
        proof {
            assert(texts(names@) =~= before.insert(at as int, text));
            assert forall|i: int, j: int| 0 <= i < j < names@.len() implies text::text_less(
                texts(names@)[i],
                texts(names@)[j],
            ) by {
                let a = if i < at { i } else { i - 1 };
                let b = if j < at { j } else { j - 1 };
                if i != at && j != at {
                    assert(text::text_less(before[a], before[b]));
                }
            }
        }
        self.names = names;
        proof {
            let after = self@;
            assert(after =~= before.insert(at as int, text));
            assert forall|other: Seq<char>| #[trigger] after.contains(other) <==> other == text
                || before.contains(other) by {
                if before.contains(other) {
                    let k = choose|k: int| 0 <= k < before.len() && before[k] == other;
                    let m = if k < at { k } else { k + 1 };
                    assert(after[m] == other);
                }
                if other == text {
                    assert(after[at as int] == other);
                }
                if after.contains(other) {
                    let k = choose|k: int| 0 <= k < after.len() && after[k] == other;
                    if k < at {
                        assert(before[k] == other);
                    } else if k > at {
                        assert(before[k - 1] == other);
                    }
                }
            }
        }
        true
    }
}

impl Clone for NameSet {
    fn clone(&self) -> (r: NameSet)
        ensures
            r@ == self@,
    {
        proof {
            use_type_invariant(self);
        }
        let names = copy_texts(self.names.as_slice());
        assert(texts(names@) =~= self@);
        NameSet { names }
    }
}

/// A copy of a list of texts.
pub fn copy_texts(names: &[String]) -> (r: Vec<String>)
    ensures
        texts(r@) == texts(names@),
{
    let mut out: Vec<String> = Vec::new();
    let mut i: usize = 0;
    while i < names.len()
        invariant
            i <= names.len(),
            out@.len() == i,
            forall|k: int| 0 <= k < i ==> out@[k]@ == names@[k]@,
        decreases names.len() - i,
    {
        out.push(text::copy_text(names[i].as_str()));
        i = i + 1;
    }
    assert(texts(out@) =~= texts(names@));
    out
}

/// Whether no name of a list occurs twice.
pub fn are_distinct(names: &[String]) -> (r: bool)
    ensures
        r == texts(names@).no_duplicates(),
{
    let mut i: usize = 0;
    while i < names.len()
        invariant
            i <= names.len(),
            forall|j: int, k: int| 0 <= j < k < i ==> texts(names@)[j] != texts(names@)[k],
        decreases names.len() - i,
    {
        let mut j: usize = 0;
        while j < i
            invariant
                j <= i < names.len(),
                forall|k: int| 0 <= k < j ==> texts(names@)[k] != texts(names@)[i as int],
            decreases i - j,
        {
            if text::text_equal(names[j].as_str(), names[i].as_str()) {
                assert(texts(names@)[j as int] == texts(names@)[i as int]);
                return false;
            }
            j = j + 1;
        }
        i = i + 1;
    }
    true
}

/// A set is within another exactly where the other holds each of its names; and
/// being within carries over from set to set.
pub proof fn subsets_hold_no_other_name(some: NameSet, others: NameSet, all: NameSet, i: int)
    requires
        some.subset_of(others),
    ensures
        0 <= i < some@.len() ==> others@.contains(some@[i]),
        others.subset_of(all) ==> some.subset_of(all),
        some@.len() > 0 ==> others@.len() > 0,
        some.subset_of(some),
{
    if 0 <= i < some@.len() {
        assert(some@.contains(some@[i]));
    }
    if some@.len() > 0 {
        assert(some@.contains(some@[0]));
        assert(others@.contains(some@[0]));
    }
    assert forall|name: Seq<char>| some@.contains(name) && others.subset_of(
        all,
    ) implies #[trigger] all@.contains(name) by {
        assert(others@.contains(name));
    }
}

/// A set all of whose names another holds is within it.
pub proof fn sets_of_held_names_are_subsets(some: NameSet, all: NameSet)
    requires
        forall|i: int| 0 <= i < some@.len() ==> all@.contains(#[trigger] some@[i]),
    ensures
        some.subset_of(all),
{
    assert forall|name: Seq<char>| some@.contains(name) implies #[trigger] all@.contains(name) by {
        let i = choose|i: int| 0 <= i < some@.len() && some@[i] == name;
        assert(all@.contains(some@[i]));
    }
}

/// The texts of a list are those of its places, in order.
pub proof fn texts_keep_their_places(names: Seq<String>, i: int)
    requires
        0 <= i < names.len(),
    ensures
        texts(names).len() == names.len(),
        texts(names)[i] == names[i]@,
        texts(names).contains(names[i]@),
{
    assert(texts(names)[i] == names[i]@);
}

} // verus!
