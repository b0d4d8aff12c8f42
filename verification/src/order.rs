//! The order in which names are listed, and sorting by name.

use vstd::prelude::*;

use crate::text::chars_of;

verus! {

/// `a` stands no later than `b` in a listing: character by character, by code
/// point, a text before every text that it begins.
pub open spec fn text_le(a: Seq<char>, b: Seq<char>) -> bool
    decreases a.len(),
{
    if a.len() == 0 {
        true
    } else if b.len() == 0 {
        false
    } else if a.first() == b.first() {
        text_le(a.drop_first(), b.drop_first())
    } else {
        a.first() < b.first()
    }
}

/// The texts of a listing, each no later than those that follow it.
pub open spec fn text_sorted(names: Seq<Seq<char>>) -> bool {
    forall|i: int, j: int| 0 <= i < j < names.len() ==> text_le(#[trigger] names[i], #[trigger] names[j])
}

/// The names of a list of named items.
pub open spec fn names_of<T>(items: Seq<(String, T)>) -> Seq<Seq<char>> {
    items.map_values(|item: (String, T)| item.0@)
}

/// Of two texts, one stands no later than the other.
pub proof fn text_le_total(a: Seq<char>, b: Seq<char>)
    ensures
        text_le(a, b) || text_le(b, a),
    decreases a.len(),
{
    if a.len() > 0 && b.len() > 0 && a.first() == b.first() {
        text_le_total(a.drop_first(), b.drop_first());
    }
}

/// Two texts that stand no later than each other are the same text.
pub proof fn text_le_antisymmetric(a: Seq<char>, b: Seq<char>)
    requires
        text_le(a, b),
        text_le(b, a),
    ensures
        a == b,
    decreases a.len(),
{
    if a.len() == 0 || b.len() == 0 {
        assert(a =~= b);
    } else {
        text_le_antisymmetric(a.drop_first(), b.drop_first());
        assert(a =~= seq![a.first()] + a.drop_first());
        assert(b =~= seq![b.first()] + b.drop_first());
    }
}

/// What stands no later than a second text stands no later than a third that
/// the second precedes.
pub proof fn text_le_transitive(a: Seq<char>, b: Seq<char>, c: Seq<char>)
    requires
        text_le(a, b),
        text_le(b, c),
    ensures
        text_le(a, c),
    decreases a.len(),
{
    if a.len() > 0 && b.len() > 0 && c.len() > 0 {
        if a.first() == b.first() && b.first() == c.first() {
            text_le_transitive(a.drop_first(), b.drop_first(), c.drop_first());
        }
    }
}

/// Sorting leaves no choice: two sorted listings of the same names, each name once,
/// are the same listing.
pub proof fn sorted_listing_is_unique(a: Seq<Seq<char>>, b: Seq<Seq<char>>)
    requires
        text_sorted(a),
        text_sorted(b),
        a.no_duplicates(),
        b.no_duplicates(),
        a.to_set() == b.to_set(),
    ensures
        a == b,
    decreases a.len(),
{
    if a.len() == 0 {
        if b.len() > 0 {
            assert(b.to_set().contains(b[0]));
            assert(a.contains(b[0]));
        }
        assert(a =~= b);
    } else {
        assert(a.to_set().contains(a[0]));
        assert(b.contains(a[0]));
        assert(b.to_set().contains(b[0]));
        assert(a.contains(b[0]));
        let i = a.index_of(b[0]);
        let k = b.index_of(a[0]);
        if i > 0 && k > 0 {
            assert(text_le(a[0], a[i]));
            assert(text_le(b[0], b[k]));
            text_le_antisymmetric(a[0], b[0]);
        }
        let rest_a = a.drop_first();
        let rest_b = b.drop_first();
        lemma_tail_without_first(a);
        lemma_tail_without_first(b);
        sorted_listing_is_unique(rest_a, rest_b);
        assert(a =~= seq![a[0]] + rest_a);
        assert(b =~= seq![b[0]] + rest_b);
    }
}

proof fn lemma_tail_without_first(a: Seq<Seq<char>>)
    requires
        a.len() > 0,
        a.no_duplicates(),
        text_sorted(a),
    ensures
        a.drop_first().no_duplicates(),
        text_sorted(a.drop_first()),
        a.drop_first().to_set() == a.to_set().remove(a[0]),
{
    let rest = a.drop_first();
    assert forall|i: int, j: int| 0 <= i < j < rest.len() implies text_le(
        #[trigger] rest[i],
        #[trigger] rest[j],
    ) by {
        assert(text_le(a[i + 1], a[j + 1]));
    }
    assert forall|x: Seq<char>| #[trigger]
        rest.contains(x) == (a.contains(x) && x != a[0]) by {
        if rest.contains(x) {
            let i = rest.index_of(x);
            assert(a[i + 1] == x);
        }
        if a.contains(x) && x != a[0] {
            let i = a.index_of(x);
            assert(rest[i - 1] == x);
        }
    }
    assert(rest.to_set() =~= a.to_set().remove(a[0]));
}

/// Says whether `a` stands no later than `b` in a listing.
pub fn no_later(a: &str, b: &str) -> (r: bool)
    ensures
        r == text_le(a@, b@),
{
    let x = chars_of(a);
    let y = chars_of(b);
    let mut i: usize = 0;
    assert(x@.skip(0) =~= x@);
    assert(y@.skip(0) =~= y@);
    while i < x.len() && i < y.len()
        invariant
            x@ == a@,
            y@ == b@,
            i <= x@.len(),
            i <= y@.len(),
            text_le(a@, b@) == text_le(x@.skip(i as int), y@.skip(i as int)),
        decreases x@.len() - i,
    {
        assert(x@.skip(i as int).first() == x@[i as int]);
        assert(y@.skip(i as int).first() == y@[i as int]);
        if x[i] != y[i] {
            return x[i] < y[i];
        }
        assert(x@.skip(i as int).drop_first() =~= x@.skip(i as int + 1));
        assert(y@.skip(i as int).drop_first() =~= y@.skip(i as int + 1));
        i += 1;
    }
    i == x.len()
}

proof fn lemma_insert_keeps_items<T>(s: Seq<T>, at: int, item: T)
    requires
        0 <= at <= s.len(),
    ensures
        s.insert(at, item).to_multiset() == s.to_multiset().insert(item),
{
    broadcast use vstd::seq_lib::group_to_multiset_ensures;

    let grown = s.insert(at, item);
    assert(grown.remove(at) =~= s);
    assert(grown[at] == item);
    assert(grown.contains(item));
    assert(grown.remove(at).to_multiset() == grown.to_multiset().remove(grown[at]));
    assert(grown.to_multiset().count(item) > 0);
    assert(grown.to_multiset() =~= s.to_multiset().insert(item));
}

/// Two lists of the same items hold the same names; where no name occurs twice in
/// the one, none does in the other.
pub proof fn same_items_have_the_same_names<T>(a: Seq<(String, T)>, b: Seq<(String, T)>)
    requires
        a.to_multiset() == b.to_multiset(),
        names_of(a).no_duplicates(),
    ensures
        forall|i: int| 0 <= i < b.len() ==> a.contains(#[trigger] b[i]),
        names_of(b).no_duplicates(),
        names_of(b).to_set() == names_of(a).to_set(),
{
    broadcast use vstd::seq_lib::group_to_multiset_ensures;

    assert forall|i: int| 0 <= i < b.len() implies a.contains(#[trigger] b[i]) by {
        assert(b.contains(b[i]));
        assert(b.to_multiset().count(b[i]) > 0);
    }
    assert forall|i: int| 0 <= i < a.len() implies b.contains(#[trigger] a[i]) by {
        assert(a.contains(a[i]));
        assert(a.to_multiset().count(a[i]) > 0);
    }
    assert(a.no_duplicates()) by {
        assert forall|i: int, j: int| 0 <= i < a.len() && 0 <= j < a.len() && i != j implies a[i]
            != a[j] by {
            assert(names_of(a)[i] != names_of(a)[j]);
        }
    }
    a.lemma_multiset_has_no_duplicates();
    b.lemma_multiset_has_no_duplicates_conv();
    assert forall|i: int, j: int| 0 <= i < b.len() && 0 <= j < b.len() && i != j implies names_of(
        b,
    )[i] != names_of(b)[j] by {
        let k = a.index_of(b[i]);
        let l = a.index_of(b[j]);
        assert(b[i] != b[j]);
        assert(a.contains(b[i]) && a.contains(b[j]));
        assert(names_of(a)[k] != names_of(a)[l]);
    }
    assert forall|name: Seq<char>| #[trigger]
        names_of(b).contains(name) == names_of(a).contains(name) by {
        if names_of(b).contains(name) {
            let i = names_of(b).index_of(name);
            assert(a.contains(b[i]));
            assert(names_of(a)[a.index_of(b[i])] == name);
        }
        if names_of(a).contains(name) {
            let i = names_of(a).index_of(name);
            assert(b.contains(a[i]));
            assert(names_of(b)[b.index_of(a[i])] == name);
        }
    }
    assert(names_of(b).to_set() =~= names_of(a).to_set());
}

/// Sorts named items by name.
pub fn sort_by_name<T>(items: Vec<(String, T)>) -> (r: Vec<(String, T)>)
    ensures
        r@.to_multiset() == items@.to_multiset(),
        text_sorted(names_of(r@)),
{
    broadcast use vstd::seq_lib::group_to_multiset_ensures;

    let mut left = items;
    let mut r: Vec<(String, T)> = Vec::new();
    assert(r@.to_multiset() =~= vstd::multiset::Multiset::<(String, T)>::empty());
    assert(left@.to_multiset().add(r@.to_multiset()) =~= items@.to_multiset());
    while left.len() > 0
        invariant
            left@.to_multiset().add(r@.to_multiset()) == items@.to_multiset(),
            text_sorted(names_of(r@)),
        decreases left@.len(),
    {
        let ghost before = left@;
        let ghost listed = r@;
        let item = match left.pop() {
            Some(item) => item,
            None => {
                return r;
            },
        };
        let mut at: usize = 0;
        let n: usize = r.len();
        while at < n && !no_later(item.0.as_str(), r[at].0.as_str())
            invariant
                n == r@.len(),
                at <= n,
                r@ == listed,
                forall|k: int| 0 <= k < at ==> text_le(#[trigger] names_of(r@)[k], item.0@),
            decreases n - at,
        {
            proof {
                text_le_total(item.0@, r@[at as int].0@);
            }
            at += 1;
        }
        proof {
            let old_names = names_of(listed);
            let new_names = names_of(listed.insert(at as int, item));
            assert(new_names =~= old_names.insert(at as int, item.0@));
            assert forall|i: int, j: int| 0 <= i < j < new_names.len() implies text_le(
                #[trigger] new_names[i],
                #[trigger] new_names[j],
            ) by {
                let oi = if i < at { i } else { i - 1 };
                let oj = if j < at { j } else { j - 1 };
                if i != at && j != at {
                    assert(text_le(old_names[oi], old_names[oj]));
                } else if j == at {
                    assert(text_le(old_names[oi], item.0@));
                } else {
                    assert(text_le(item.0@, old_names[at as int]));
                    if oj > at {
                        assert(text_le(old_names[at as int], old_names[oj]));
                        text_le_transitive(item.0@, old_names[at as int], old_names[oj]);
                    }
                }
            }
            lemma_insert_keeps_items(listed, at as int, item);
            vstd::seq_lib::to_multiset_build(left@, item);
            assert(before =~= left@.push(item));
            assert(before.to_multiset() == left@.to_multiset().insert(item));
            assert(left@.to_multiset().add(listed.insert(at as int, item).to_multiset())
                =~= before.to_multiset().add(listed.to_multiset()));
        }
        r.insert(at, item);
    }
    assert(left@ =~= Seq::<(String, T)>::empty());
    assert(left@.to_multiset() =~= vstd::multiset::Multiset::<(String, T)>::empty());
    assert(left@.to_multiset().add(r@.to_multiset()) =~= r@.to_multiset());
    r
}

} // verus!
