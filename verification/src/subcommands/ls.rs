//! `ls`: the branches in alphabetical order, without regard to case.

use crate::git::texts;
use crate::text::chars_of;
use vstd::prelude::*;

verus! {

/// A string in lower case: the answer of `str::to_lowercase`, which goes by
/// the Unicode rules for lower case.
pub uninterp spec fn lowercase(s: Seq<char>) -> Seq<char>;

/// `str::to_lowercase` of the standard library.  Nothing is claimed about
/// the lower case of any string, only that it depends on the string alone.
pub assume_specification[ str::to_lowercase ](s: &str) -> (r: String)
    ensures
        r@ == lowercase(s@),
;

/// `a` stands before `b`, or is equal to it, in the order of a dictionary:
/// the first character in which they differ decides, and a string stands
/// before every string that it starts.  This is the order of strings in
/// Rust.
pub open spec fn precedes(a: Seq<char>, b: Seq<char>) -> bool
    decreases a.len(),
{
    if a.len() == 0 {
        true
    } else if b.len() == 0 {
        false
    } else if a[0] != b[0] {
        a[0] < b[0]
    } else {
        precedes(a.drop_first(), b.drop_first())
    }
}

/// The names stand in the order of their lower case.
pub open spec fn in_order(names: Seq<Seq<char>>) -> bool {
    forall|i: int, j: int|
        0 <= i < j < names.len() ==> precedes(
            lowercase(#[trigger] names[i]),
            lowercase(#[trigger] names[j]),
        )
}

/// The names whose lower case is `key`, in their order.
pub open spec fn with_key(names: Seq<Seq<char>>, key: Seq<char>) -> Seq<Seq<char>> {
    names.filter(|name: Seq<char>| lowercase(name) == key)
}

/// Of two strings, one precedes the other.
pub proof fn lemma_precedes_total(a: Seq<char>, b: Seq<char>)
    ensures
        precedes(a, b) || precedes(b, a),
    decreases a.len(),
{
    if a.len() > 0 && b.len() > 0 && a[0] == b[0] {
        lemma_precedes_total(a.drop_first(), b.drop_first());
    }
}

/// What precedes a string precedes all that the string precedes.
pub proof fn lemma_precedes_transitive(a: Seq<char>, b: Seq<char>, c: Seq<char>)
    requires
        precedes(a, b),
        precedes(b, c),
    ensures
        precedes(a, c),
    decreases a.len(),
{
    if a.len() > 0 && b.len() > 0 && c.len() > 0 && a[0] == b[0] && b[0] == c[0] {
        lemma_precedes_transitive(a.drop_first(), b.drop_first(), c.drop_first());
    }
}

/// Every string precedes itself.
pub proof fn lemma_precedes_reflexive(a: Seq<char>)
    ensures
        precedes(a, a),
    decreases a.len(),
{
    if a.len() > 0 {
        lemma_precedes_reflexive(a.drop_first());
    }
}

/// Whether `a` precedes `b`.
fn before(a: &Vec<char>, b: &Vec<char>) -> (r: bool)
    ensures
        r == precedes(a@, b@),
{
    let mut i: usize = 0;
    assert(a@.skip(0) =~= a@ && b@.skip(0) =~= b@);
    while i < a.len() && i < b.len() && a[i] == b[i]
        invariant
            i <= a.len(),
            i <= b.len(),
            precedes(a@, b@) == precedes(a@.skip(i as int), b@.skip(i as int)),
        decreases a.len() - i,
    {
        assert(a@.skip(i as int).drop_first() =~= a@.skip(i + 1));
        assert(b@.skip(i as int).drop_first() =~= b@.skip(i + 1));
        i += 1;
    }
    if i == a.len() {
        true
    } else if i == b.len() {
        false
    } else {
        a[i] < b[i]
    }
}

/// What filtering by a key makes of a sequence with one more name in it.
proof fn lemma_with_key_insert(names: Seq<Seq<char>>, at: int, name: Seq<char>, key: Seq<char>)
    requires
        0 <= at <= names.len(),
    ensures
        with_key(names.insert(at, name), key) == with_key(names.take(at), key) + (if lowercase(name)
            == key {
            seq![name]
        } else {
            Seq::empty()
        }) + with_key(names.skip(at), key),
        with_key(names, key) == with_key(names.take(at), key) + with_key(names.skip(at), key),
{
    let keyed = |n: Seq<char>| lowercase(n) == key;
    let front = names.take(at);
    let back = names.skip(at);
    assert(names.insert(at, name) =~= front.push(name) + back);
    assert(names =~= front + back);
    Seq::filter_distributes_over_add(front.push(name), back, keyed);
    Seq::filter_distributes_over_add(front, back, keyed);
    front.lemma_filter_push(name, keyed);
    if lowercase(name) == key {
        assert(front.filter(keyed).push(name) =~= front.filter(keyed) + seq![name]);
    } else {
        assert(front.filter(keyed) + Seq::<Seq<char>>::empty() =~= front.filter(keyed));
    }
}

/// Names with other keys leave nothing when filtered by a key.
proof fn lemma_with_key_none(names: Seq<Seq<char>>, key: Seq<char>)
    requires
        forall|i: int| 0 <= i < names.len() ==> lowercase(#[trigger] names[i]) != key,
    ensures
        with_key(names, key) == Seq::<Seq<char>>::empty(),
{
    let keyed = |n: Seq<char>| lowercase(n) == key;
    assert(names.all(|n: Seq<char>| !keyed(n)));
    names.lemma_all_neg_filter_empty(keyed);
    assert(names.filter(keyed) =~= Seq::<Seq<char>>::empty());
}

/// The branches in the order of their lower case.  Branches that differ in
/// case only keep the order in which they were given, so the result is the
/// one that a stable sort gives: it is in order, and for every key it holds
/// the same names with that key, in the same order, as the input.
pub fn exec(branches: &Vec<String>) -> (sorted: Vec<String>)
    ensures
        sorted@.len() == branches@.len(),
        in_order(texts(sorted@)),
        forall|key: Seq<char>|
            #[trigger] with_key(texts(sorted@), key) == with_key(texts(branches@), key),
{
    let mut sorted: Vec<String> = Vec::new();
    let mut keys: Vec<Vec<char>> = Vec::new();
    let mut i: usize = 0;
    assert(texts(branches@).take(0) =~= texts(sorted@));
    while i < branches.len()
        invariant
            i <= branches.len(),
            sorted@.len() == i,
            keys@.len() == i,
            forall|k: int| 0 <= k < i ==> (#[trigger] keys@[k])@ == lowercase(sorted@[k]@),
            in_order(texts(sorted@)),
            forall|key: Seq<char>|
                #[trigger] with_key(texts(sorted@), key) == with_key(
                    texts(branches@).take(i as int),
                    key,
                ),
        decreases branches.len() - i,
    {
        let name = branches[i].clone();
        let lower = name.as_str().to_lowercase();
        let name_key = chars_of(lower.as_str());
        let mut at: usize = 0;
        while at < keys.len() && before(&keys[at], &name_key)
            invariant
                at <= keys.len(),
                forall|k: int| 0 <= k < at ==> precedes((#[trigger] keys@[k])@, name_key@),
            decreases keys.len() - at,
        {
            at += 1;
        }
        let ghost old_names = texts(sorted@);
        let ghost seen = texts(branches@).take(i as int);
        let ghost old_keys = keys@;
        proof {
            assert forall|k: int| 0 <= k < at implies precedes(
                lowercase(#[trigger] old_names[k]),
                name_key@,
            ) by {
                assert(keys@[k]@ == lowercase(old_names[k]));
            }
            assert forall|k: int| at <= k < old_names.len() implies !precedes(
                lowercase(#[trigger] old_names[k]),
                name_key@,
            ) by {
                if precedes(lowercase(old_names[k]), name_key@) {
                    if k > at {
                        assert(precedes(lowercase(old_names[at as int]), lowercase(old_names[k])));
                    } else {
                        lemma_precedes_reflexive(lowercase(old_names[k]));
                    }
                    lemma_precedes_transitive(
                        lowercase(old_names[at as int]),
                        lowercase(old_names[k]),
                        name_key@,
                    );
                    assert(keys@[at as int]@ == lowercase(old_names[at as int]));
                }
            }
        }
        sorted.insert(at, name);
        keys.insert(at, name_key);
        proof {
            let new_names = texts(sorted@);
            assert(new_names =~= old_names.insert(at as int, name@));
            assert(texts(branches@).take(i + 1) =~= seen.push(name@));
            assert(keys@ =~= old_keys.insert(at as int, name_key));
            assert forall|k: int| 0 <= k < i + 1 implies (#[trigger] keys@[k])@ == lowercase(
                sorted@[k]@,
            ) by {
                if k < at {
                    assert(keys@[k] == old_keys[k]);
                } else if k > at {
                    assert(keys@[k] == old_keys[k - 1]);
                }
            }
            assert forall|a: int, b: int| 0 <= a < b < new_names.len() implies precedes(
                lowercase(#[trigger] new_names[a]),
                lowercase(#[trigger] new_names[b]),
            ) by {
                if b == at {
                    assert(new_names[a] == old_names[a]);
                } else if a == at {
                    assert(new_names[b] == old_names[b - 1]);
                    lemma_precedes_total(lowercase(old_names[b - 1]), name_key@);
                } else {
                    let x = if a < at { a } else { a - 1 };
                    let y = if b < at { b } else { b - 1 };
                    assert(precedes(lowercase(old_names[x]), lowercase(old_names[y])));
                }
            }
            assert forall|key: Seq<char>|
                #[trigger] with_key(new_names, key) == with_key(seen.push(name@), key) by {
                lemma_with_key_insert(old_names, at as int, name@, key);
                seen.lemma_filter_push(name@, |n: Seq<char>| lowercase(n) == key);
                assert(with_key(old_names, key) == with_key(seen, key));
                let back = old_names.skip(at as int);
                if lowercase(name@) == key {
                    assert forall|k: int| 0 <= k < back.len() implies lowercase(
                        #[trigger] back[k],
                    ) != key by {
                        lemma_precedes_reflexive(key);
                        assert(back[k] == old_names[at + k]);
                    }
                    lemma_with_key_none(back, key);
                    assert(with_key(new_names, key) =~= with_key(seen, key).push(name@));
                } else {
                    assert(with_key(new_names, key) =~= with_key(old_names, key));
                }
            }
        }
        i += 1;
    }
    assert(texts(branches@).take(branches.len() as int) =~= texts(branches@));
    sorted
}

} // verus!
