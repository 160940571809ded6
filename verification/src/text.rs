//! Texts as sequences of characters, and the order in which keys stand.

use vstd::prelude::*;

verus! {

/// Whether the text `a` comes before the text `b`: the first character in
/// which they differ decides, and a text comes before every longer text
/// that begins with it. This is the order of strings.
pub open spec fn key_before(a: Seq<char>, b: Seq<char>) -> bool
    decreases a.len(),
{
    if b.len() == 0 {
        false
    } else if a.len() == 0 {
        true
    } else if a[0] != b[0] {
        a[0] < b[0]
    } else {
        key_before(a.skip(1), b.skip(1))
    }
}

/// Whether each text of a sequence comes before all that follow it.
pub open spec fn ascending(keys: Seq<Seq<char>>) -> bool {
    forall|i: int, j: int| 0 <= i < j < keys.len() ==> key_before(#[trigger] keys[i], #[trigger] keys[j])
}

/// No text comes before itself.
pub proof fn lemma_before_irreflexive(a: Seq<char>)
    ensures
        !key_before(a, a),
    decreases a.len(),
{
    if a.len() > 0 {
        lemma_before_irreflexive(a.skip(1));
    }
}

/// Of two different texts one comes before the other.
pub proof fn lemma_before_total(a: Seq<char>, b: Seq<char>)
    ensures
        a == b || key_before(a, b) || key_before(b, a),
    decreases a.len(),
{
    if a.len() > 0 && b.len() > 0 && a[0] == b[0] {
        lemma_before_total(a.skip(1), b.skip(1));
        if a.skip(1) == b.skip(1) {
            assert(a =~= seq![a[0]] + a.skip(1));
            assert(b =~= seq![b[0]] + b.skip(1));
        }
    } else if a.len() == 0 && b.len() == 0 {
        assert(a =~= b);
    }
}

/// What comes before a text comes before all that the text comes before.
pub proof fn lemma_before_transitive(a: Seq<char>, b: Seq<char>, c: Seq<char>)
    requires
        key_before(a, b),
        key_before(b, c),
    ensures
        key_before(a, c),
    decreases a.len(),
{
    if a.len() > 0 && a[0] == b[0] && b[0] == c[0] {
        lemma_before_transitive(a.skip(1), b.skip(1), c.skip(1));
    }
}

/// Texts in ascending order are all different.
pub proof fn lemma_ascending_distinct(keys: Seq<Seq<char>>)
    requires
        ascending(keys),
    ensures
        keys.no_duplicates(),
{
    assert forall|i: int, j: int| 0 <= i < keys.len() && 0 <= j < keys.len() && i != j implies keys[i]
        != keys[j] by {
        lemma_before_irreflexive(keys[i]);
        if i < j {
            assert(key_before(keys[i], keys[j]));
        } else {
            assert(key_before(keys[j], keys[i]));
        }
    }
}

/// Two ascending sequences that hold the same texts are the same sequence.
pub proof fn lemma_ascending_unique(x: Seq<Seq<char>>, y: Seq<Seq<char>>)
    requires
        ascending(x),
        ascending(y),
        forall|k: Seq<char>| x.contains(k) <==> y.contains(k),
    ensures
        x == y,
    decreases x.len(),
{
    if x.len() == 0 {
        if y.len() > 0 {
            assert(y.contains(y[0]));
        }
        assert(x =~= y);
    } else {
        assert(x.contains(x[0]));
        let j = choose|j: int| 0 <= j < y.len() && y[j] == x[0];
        assert(y.contains(y[0]));
        let i = choose|i: int| 0 <= i < x.len() && x[i] == y[0];
        lemma_before_irreflexive(x[0]);
        if j > 0 {
            assert(key_before(y[0], y[j]));
            if i > 0 {
                assert(key_before(x[0], x[i]));
                lemma_before_transitive(x[0], y[0], x[0]);
            }
        }
        let xs = x.skip(1);
        let ys = y.skip(1);
        assert forall|k: Seq<char>| xs.contains(k) <==> ys.contains(k) by {
            if xs.contains(k) {
                let a = choose|a: int| 0 <= a < xs.len() && xs[a] == k;
                assert(x[a + 1] == k);
                assert(key_before(x[0], x[a + 1]));
                assert(x.contains(k));
                let b = choose|b: int| 0 <= b < y.len() && y[b] == k;
                assert(ys[b - 1] == k);
            }
            if ys.contains(k) {
                let b = choose|b: int| 0 <= b < ys.len() && ys[b] == k;
                assert(y[b + 1] == k);
                assert(key_before(y[0], y[b + 1]));
                assert(y.contains(k));
                let a = choose|a: int| 0 <= a < x.len() && x[a] == k;
                assert(xs[a - 1] == k);
            }
        }
        assert forall|a: int, b: int| 0 <= a < b < xs.len() implies key_before(
            #[trigger] xs[a],
            #[trigger] xs[b],
        ) by {
            assert(key_before(x[a + 1], x[b + 1]));
        }
        assert forall|a: int, b: int| 0 <= a < b < ys.len() implies key_before(
            #[trigger] ys[a],
            #[trigger] ys[b],
        ) by {
            assert(key_before(y[a + 1], y[b + 1]));
        }
        lemma_ascending_unique(xs, ys);
        assert(x =~= seq![x[0]] + xs);
        assert(y =~= seq![y[0]] + ys);
    }
}

/// A text put between all that come before it and all that it comes
/// before keeps the order ascending.
pub proof fn lemma_ascending_insert(keys: Seq<Seq<char>>, at: int, key: Seq<char>)
    requires
        ascending(keys),
        0 <= at <= keys.len(),
        forall|i: int| 0 <= i < at ==> key_before(#[trigger] keys[i], key),
        at < keys.len() ==> key_before(key, keys[at]),
    ensures
        ascending(keys.insert(at, key)),
{
    let grown = keys.insert(at, key);
    assert forall|i: int, j: int| 0 <= i < j < grown.len() implies key_before(
        #[trigger] grown[i],
        #[trigger] grown[j],
    ) by {
        if j == at {
            assert(grown[i] == keys[i]);
        } else if i == at {
            assert(grown[j] == keys[j - 1]);
            if j - 1 > at {
                assert(key_before(keys[at], keys[j - 1]));
                lemma_before_transitive(key, keys[at], keys[j - 1]);
            }
        } else {
            let from = if i < at { i } else { i - 1 };
            let to = if j < at { j } else { j - 1 };
            assert(grown[i] == keys[from]);
            assert(grown[j] == keys[to]);
            assert(key_before(keys[from], keys[to]));
        }
    }
}

/// The characters of a text.
pub fn chars_of(text: &str) -> (chars: Vec<char>)
    ensures
        chars@ == text@,
{
    let mut chars: Vec<char> = Vec::new();
    for c in it: text.chars()
        invariant
            chars@ == it.seq().take(it.index() as int),
            it.seq() == text@,
    {
        chars.push(c);
    }
    chars
}

/// Whether the text `a` comes before the text `b`.
pub fn comes_before(a: &str, b: &str) -> (r: bool)
    ensures
        r == key_before(a@, b@),
{
    let x = chars_of(a);
    let y = chars_of(b);
    let mut i: usize = 0;
    assert(a@.skip(0) =~= a@);
    assert(b@.skip(0) =~= b@);
    while i < x.len() && i < y.len()
        invariant
            x@ == a@,
            y@ == b@,
            i <= x.len(),
            i <= y.len(),
            key_before(a@, b@) == key_before(a@.skip(i as int), b@.skip(i as int)),
        decreases x.len() - i,
    {
        if x[i] != y[i] {
            return x[i] < y[i];
        }
        assert(a@.skip(i as int).skip(1) =~= a@.skip(i + 1));
        assert(b@.skip(i as int).skip(1) =~= b@.skip(i + 1));
        i += 1;
    }
    i < y.len()
}

} // verus!
