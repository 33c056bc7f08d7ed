//! Header entries and the comparison of header names.

use vstd::prelude::*;
use vstd::std_specs::iter::IteratorSpec;

verus! {

/// A header entry as a pair of texts.
pub struct HeaderView {
    pub name: Seq<char>,
    pub value: Seq<char>,
}

/// One entry of a header list.
#[derive(Debug, PartialEq, Eq)]
pub struct Header {
    pub name: String,
    pub value: String,
}

impl View for Header {
    type V = HeaderView;

    open spec fn view(&self) -> HeaderView {
        HeaderView { name: self.name@, value: self.value@ }
    }
}

impl Clone for Header {
    fn clone(&self) -> (copy: Header)
        ensures
            copy@ == self@,
    {
        Header { name: self.name.clone(), value: self.value.clone() }
    }
}

/// The code of a character with the upper-case ASCII letters folded onto the
/// lower-case ones.
pub open spec fn folded_code(c: char) -> int {
    if 'A' <= c && c <= 'Z' {
        (c as u32) as int + 32
    } else {
        (c as u32) as int
    }
}

/// Header names are compared without regard to the case of ASCII letters.
pub open spec fn same_name(a: Seq<char>, b: Seq<char>) -> bool {
    &&& a.len() == b.len()
    &&& forall|i: int| 0 <= i < a.len() ==> folded_code(#[trigger] a[i]) == folded_code(b[i])
}

/// The views of the entries of a list, in order.
pub open spec fn views_of(entries: Seq<Header>) -> Seq<HeaderView> {
    Seq::new(entries.len(), |i: int| entries[i]@)
}

/// How many entries of a list carry the given name.
pub open spec fn count_named(entries: Seq<HeaderView>, name: Seq<char>) -> nat
    decreases entries.len(),
{
    if entries.len() == 0 {
        0
    } else {
        count_named(entries.drop_last(), name) + if same_name(entries.last().name, name) {
            1nat
        } else {
            0nat
        }
    }
}

/// The entries of a list that do not carry the given name, in order.
pub open spec fn without_named(entries: Seq<HeaderView>, name: Seq<char>) -> Seq<HeaderView>
    decreases entries.len(),
{
    if entries.len() == 0 {
        Seq::empty()
    } else if same_name(entries.last().name, name) {
        without_named(entries.drop_last(), name)
    } else {
        without_named(entries.drop_last(), name).push(entries.last())
    }
}

/// The index of the first entry that carries the given name, or the length
/// of the list where none does.
pub open spec fn first_named(entries: Seq<HeaderView>, name: Seq<char>) -> int
    decreases entries.len(),
{
    if entries.len() == 0 {
        0
    } else if same_name(entries.first().name, name) {
        0
    } else {
        1 + first_named(entries.drop_first(), name)
    }
}

/// A list after a header is set on it. Where no entry carries the name, the
/// header is added at the end. Otherwise the first entry that carries it
/// takes the new value, keeping its place and its spelling of the name, and
/// the later entries with that name leave the list.
pub open spec fn with_header_set(
    entries: Seq<HeaderView>,
    name: Seq<char>,
    value: Seq<char>,
) -> Seq<HeaderView> {
    let at = first_named(entries, name);
    if at == entries.len() {
        entries.push(HeaderView { name, value })
    } else {
        entries.take(at).push(HeaderView { name: entries[at].name, value }) + without_named(
            entries.skip(at + 1),
            name,
        )
    }
}

/// The value of the first entry that carries the given name, if there is
/// one.
pub open spec fn value_named(entries: Seq<HeaderView>, name: Seq<char>) -> Option<Seq<char>> {
    let at = first_named(entries, name);
    if at < entries.len() {
        Some(entries[at].value)
    } else {
        None
    }
}

/// Every name is the same name as itself.
pub proof fn lemma_same_name_reflexive(a: Seq<char>)
    ensures
        same_name(a, a),
{
}

/// Whether two names are the same does not depend on their order.
pub proof fn lemma_same_name_symmetric(a: Seq<char>, b: Seq<char>)
    requires
        same_name(a, b),
    ensures
        same_name(b, a),
{
    assert forall|i: int| 0 <= i < b.len() implies folded_code(#[trigger] b[i]) == folded_code(
        a[i],
    ) by {
        assert(folded_code(a[i]) == folded_code(b[i]));
    }
}

/// Two names that are each the same as a third are the same.
pub proof fn lemma_same_name_transitive(a: Seq<char>, b: Seq<char>, c: Seq<char>)
    requires
        same_name(a, b),
        same_name(b, c),
    ensures
        same_name(a, c),
{
    assert forall|i: int| 0 <= i < a.len() implies folded_code(#[trigger] a[i]) == folded_code(
        c[i],
    ) by {
        assert(folded_code(a[i]) == folded_code(b[i]));
        assert(folded_code(b[i]) == folded_code(c[i]));
    }
}

/// An entry that carries one of two different names does not carry the
/// other.
pub proof fn lemma_names_apart(held: Seq<char>, name: Seq<char>, other: Seq<char>)
    requires
        same_name(held, name),
        !same_name(name, other),
    ensures
        !same_name(held, other),
{
    if same_name(held, other) {
        lemma_same_name_symmetric(held, name);
        lemma_same_name_transitive(name, held, other);
    }
}

/// The first index that carries a name lies within the list or at its end;
/// the entry there carries the name, and no entry before it does.
pub proof fn lemma_first_named_is_first(entries: Seq<HeaderView>, name: Seq<char>)
    ensures
        0 <= first_named(entries, name) <= entries.len(),
        first_named(entries, name) < entries.len() ==> same_name(
            entries[first_named(entries, name)].name,
            name,
        ),
        forall|j: int|
            0 <= j < first_named(entries, name) ==> !same_name(#[trigger] entries[j].name, name),
    decreases entries.len(),
{
    if entries.len() > 0 && !same_name(entries.first().name, name) {
        let rest = entries.drop_first();
        lemma_first_named_is_first(rest, name);
        assert forall|j: int| 0 <= j < first_named(entries, name) implies !same_name(
            #[trigger] entries[j].name,
            name,
        ) by {
            if j > 0 {
                assert(entries[j] == rest[j - 1]);
            }
        }
    }
}

/// Where no entry before `at` carries the name and the entry at `at` does,
/// `at` is the first index that carries it; where no entry at all carries
/// it, that index is the length of the list.
pub proof fn lemma_first_named_at(entries: Seq<HeaderView>, name: Seq<char>, at: int)
    requires
        0 <= at <= entries.len(),
        forall|j: int| 0 <= j < at ==> !same_name(#[trigger] entries[j].name, name),
        at < entries.len() ==> same_name(entries[at].name, name),
    ensures
        first_named(entries, name) == at,
    decreases at,
{
    if at > 0 {
        let rest = entries.drop_first();
        assert(!same_name(entries[0].name, name));
        assert forall|j: int| 0 <= j < at - 1 implies !same_name(
            #[trigger] rest[j].name,
            name,
        ) by {
            assert(rest[j] == entries[j + 1]);
        }
        lemma_first_named_at(rest, name, at - 1);
    }
}

/// In two lists joined, the first entry with a name is the first one of the
/// front list where that list has one, else the first one of the back list.
pub proof fn lemma_first_named_joined(
    front: Seq<HeaderView>,
    back: Seq<HeaderView>,
    name: Seq<char>,
)
    ensures
        first_named(front + back, name) == if first_named(front, name) < front.len() {
            first_named(front, name)
        } else {
            front.len() + first_named(back, name)
        },
        value_named(front + back, name) == if first_named(front, name) < front.len() {
            value_named(front, name)
        } else {
            value_named(back, name)
        },
    decreases front.len(),
{
    lemma_first_named_is_first(front, name);
    lemma_first_named_is_first(back, name);
    if front.len() == 0 {
        assert(front + back =~= back);
    } else {
        assert((front + back).drop_first() =~= front.drop_first() + back);
        assert((front + back).first() == front.first());
        lemma_first_named_joined(front.drop_first(), back, name);
        lemma_first_named_is_first(front.drop_first(), name);
    }
}

/// Two lists joined hold a name as often as the two together.
pub proof fn lemma_count_joined(front: Seq<HeaderView>, back: Seq<HeaderView>, name: Seq<char>)
    ensures
        count_named(front + back, name) == count_named(front, name) + count_named(back, name),
    decreases back.len(),
{
    if back.len() == 0 {
        assert(front + back =~= front);
    } else {
        assert((front + back).drop_last() =~= front + back.drop_last());
        assert((front + back).last() == back.last());
        lemma_count_joined(front, back.drop_last(), name);
    }
}

/// A list of which no entry carries a name holds that name zero times.
pub proof fn lemma_count_absent(entries: Seq<HeaderView>, name: Seq<char>)
    requires
        forall|j: int| 0 <= j < entries.len() ==> !same_name(#[trigger] entries[j].name, name),
    ensures
        count_named(entries, name) == 0,
    decreases entries.len(),
{
    if entries.len() > 0 {
        assert(!same_name(entries[entries.len() - 1].name, name));
        lemma_count_absent(entries.drop_last(), name);
    }
}

/// Removing the entries with a name from two lists joined is removing them
/// from each.
pub proof fn lemma_without_joined(front: Seq<HeaderView>, back: Seq<HeaderView>, name: Seq<char>)
    ensures
        without_named(front + back, name) == without_named(front, name) + without_named(
            back,
            name,
        ),
    decreases back.len(),
{
    if back.len() == 0 {
        assert(front + back =~= front);
        assert(without_named(front, name) + without_named(back, name) =~= without_named(
            front,
            name,
        ));
    } else {
        assert((front + back).drop_last() =~= front + back.drop_last());
        assert((front + back).last() == back.last());
        lemma_without_joined(front, back.drop_last(), name);
        assert(without_named(front + back, name) =~= without_named(front, name) + without_named(
            back,
            name,
        ));
    }
}

/// A list of one entry: it holds a name once or not at all, and removing
/// a name leaves it whole or empty.
pub proof fn lemma_single_entry(entry: HeaderView, name: Seq<char>)
    ensures
        count_named(seq![entry], name) == if same_name(entry.name, name) {
            1nat
        } else {
            0nat
        },
        first_named(seq![entry], name) == if same_name(entry.name, name) {
            0int
        } else {
            1int
        },
        value_named(seq![entry], name) == if same_name(entry.name, name) {
            Some(entry.value)
        } else {
            None
        },
        without_named(seq![entry], name) == if same_name(entry.name, name) {
            Seq::<HeaderView>::empty()
        } else {
            seq![entry]
        },
{
    let alone = seq![entry];
    assert(alone.drop_last() =~= Seq::<HeaderView>::empty());
    assert(alone.drop_first() =~= Seq::<HeaderView>::empty());
    assert(alone.last() == entry && alone.first() == entry);
    assert(count_named(alone.drop_last(), name) == 0);
    assert(first_named(alone.drop_first(), name) == 0);
    assert(without_named(alone.drop_last(), name) =~= Seq::<HeaderView>::empty());
    if !same_name(entry.name, name) {
        assert(without_named(alone, name) =~= alone);
    }
}

/// What is left after the entries with a name are removed holds that name
/// zero times.
pub proof fn lemma_without_named_gone(entries: Seq<HeaderView>, name: Seq<char>)
    ensures
        count_named(without_named(entries, name), name) == 0,
    decreases entries.len(),
{
    if entries.len() > 0 {
        lemma_without_named_gone(entries.drop_last(), name);
        if !same_name(entries.last().name, name) {
            let kept = without_named(entries.drop_last(), name);
            assert(kept.push(entries.last()).drop_last() =~= kept);
        }
    }
}

/// What is left after the entries with a name are removed holds every other
/// name as often, and with the same first value, as before.
pub proof fn lemma_without_named_others(
    entries: Seq<HeaderView>,
    name: Seq<char>,
    other: Seq<char>,
)
    requires
        !same_name(name, other),
    ensures
        count_named(without_named(entries, name), other) == count_named(entries, other),
        value_named(without_named(entries, name), other) == value_named(entries, other),
    decreases entries.len(),
{
    if entries.len() > 0 {
        let head = entries.first();
        let rest = entries.drop_first();
        let alone = seq![head];
        assert(entries =~= alone + rest);
        lemma_single_entry(head, name);
        lemma_single_entry(head, other);
        lemma_without_named_others(rest, name, other);
        lemma_without_joined(alone, rest, name);
        lemma_count_joined(alone, rest, other);
        lemma_first_named_joined(alone, rest, other);
        if same_name(head.name, name) {
            lemma_names_apart(head.name, name, other);
            assert(without_named(entries, name) =~= without_named(rest, name));
        } else {
            lemma_count_joined(alone, without_named(rest, name), name);
            lemma_count_joined(alone, without_named(rest, name), other);
            lemma_first_named_joined(alone, without_named(rest, name), other);
        }
    }
}

fn fold(c: char) -> (code: u32)
    ensures
        code == folded_code(c),
{
    let code: u32 = c as u32;
    if 'A' <= c && c <= 'Z' {
        code + 32
    } else {
        code
    }
}

/// Tells whether two header names are the same name.
pub fn names_match(a: &str, b: &str) -> (same: bool)
    ensures
        same == same_name(a@, b@),
{
    broadcast use vstd::string::group_string_axioms;

    let mut left = a.chars();
    let mut right = b.chars();
    let ghost mut seen: int = 0;
    loop
        invariant
            left.obeys_prophetic_iter_laws(),
            right.obeys_prophetic_iter_laws(),
            0 <= seen <= a@.len(),
            seen <= b@.len(),
            left.remaining() == a@.skip(seen),
            right.remaining() == b@.skip(seen),
            forall|i: int| 0 <= i < seen ==> folded_code(#[trigger] a@[i]) == folded_code(b@[i]),
        decreases a@.len() - seen,
    {
        match (left.next(), right.next()) {
            (Some(c), Some(d)) => {
                assert(c == a@.skip(seen)[0] && d == b@.skip(seen)[0]);
                if fold(c) != fold(d) {
                    assert(folded_code(a@[seen]) != folded_code(b@[seen]));
                    return false;
                }
                proof {
                    assert(a@.skip(seen).drop_first() =~= a@.skip(seen + 1));
                    assert(b@.skip(seen).drop_first() =~= b@.skip(seen + 1));
                    seen = seen + 1;
                }
            },
            (None, None) => {
                assert(a@.skip(seen).len() == 0 && b@.skip(seen).len() == 0);
                return true;
            },
            (Some(_), None) => {
                assert(a@.skip(seen).len() > 0 && b@.skip(seen).len() == 0);
                return false;
            },
            (None, Some(_)) => {
                assert(a@.skip(seen).len() == 0 && b@.skip(seen).len() > 0);
                return false;
            },
        }
    }
}

} // verus!
