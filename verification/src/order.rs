//! The order of text, as `String`'s `Ord` has it, and sorting by it.
use vstd::prelude::*;

verus! {

/// Whether `a` comes no later than `b`: character by character, by code point,
/// a prefix first. This is the order of `String` (its UTF-8 bytes compare as
/// the code points do).
pub open spec fn text_le(a: Seq<char>, b: Seq<char>) -> bool
    decreases a.len(),
{
    if a.len() == 0 {
        true
    } else if b.len() == 0 {
        false
    } else if a[0] != b[0] {
        a[0] < b[0]
    } else {
        text_le(a.drop_first(), b.drop_first())
    }
}

/// Any two texts compare one way or the other.
pub proof fn lemma_text_le_total(a: Seq<char>, b: Seq<char>)
    ensures
        text_le(a, b) || text_le(b, a),
    decreases a.len(),
{
    if a.len() > 0 && b.len() > 0 && a[0] == b[0] {
        lemma_text_le_total(a.drop_first(), b.drop_first());
    }
}

/// The order is transitive.
pub proof fn lemma_text_le_trans(a: Seq<char>, b: Seq<char>, c: Seq<char>)
    requires
        text_le(a, b),
        text_le(b, c),
    ensures
        text_le(a, c),
    decreases a.len(),
{
    if a.len() > 0 && b.len() > 0 && c.len() > 0 && a[0] == b[0] && b[0] == c[0] {
        lemma_text_le_trans(a.drop_first(), b.drop_first(), c.drop_first());
    }
}

/// Two texts that each come no later than the other are equal.
pub proof fn lemma_text_le_antisym(a: Seq<char>, b: Seq<char>)
    requires
        text_le(a, b),
        text_le(b, a),
    ensures
        a == b,
    decreases a.len(),
{
    if a.len() > 0 && b.len() > 0 {
        lemma_text_le_antisym(a.drop_first(), b.drop_first());
        assert(a =~= seq![a[0]] + a.drop_first());
        assert(b =~= seq![b[0]] + b.drop_first());
    }
}

/// Every text comes no later than itself.
pub proof fn lemma_text_le_refl(a: Seq<char>)
    ensures
        text_le(a, a),
    decreases a.len(),
{
    if a.len() > 0 {
        lemma_text_le_refl(a.drop_first());
    }
}

/// Whether `a` comes no later than `b`.
pub fn text_le_exec(a: &str, b: &str) -> (r: bool)
    ensures
        r == text_le(a@, b@),
{
    let av = crate::text::chars_of(a);
    let bv = crate::text::chars_of(b);
    let mut i: usize = 0;
    assert(a@.skip(0) =~= a@ && b@.skip(0) =~= b@);
    while i < av.len() && i < bv.len() && av[i] == bv[i]
        invariant
            av@ == a@,
            bv@ == b@,
            i <= av.len(),
            i <= bv.len(),
            text_le(a@, b@) == text_le(a@.skip(i as int), b@.skip(i as int)),
        decreases av.len() - i,
    {
        proof {
            let x = a@.skip(i as int);
            let y = b@.skip(i as int);
            assert(x.drop_first() =~= a@.skip(i + 1));
            assert(y.drop_first() =~= b@.skip(i + 1));
        }
        i = i + 1;
    }
    let ghost x = a@.skip(i as int);
    let ghost y = b@.skip(i as int);
    if i == av.len() {
        assert(x.len() == 0);
        true
    } else if i == bv.len() {
        assert(y.len() == 0 && x.len() > 0);
        false
    } else {
        assert(x[0] == av@[i as int] && y[0] == bv@[i as int]);
        av[i] < bv[i]
    }
}

/// Whether the keys are in order.
pub open spec fn keys_sorted(keys: Seq<Seq<char>>) -> bool {
    forall|i: int, j: int| 0 <= i < j < keys.len() ==> text_le(#[trigger] keys[i], #[trigger] keys[j])
}

/// Where to insert `key` among sorted `keys`: after every key that comes no later.
pub fn insertion_point(keys: &Vec<String>, key: &String) -> (r: usize)
    requires
        keys_sorted(crate::text::views(keys@)),
    ensures
        r <= keys.len(),
        forall|i: int| 0 <= i < r ==> text_le(#[trigger] keys@[i]@, key@),
        forall|i: int| r <= i < keys.len() ==> text_le(key@, #[trigger] keys@[i]@),
{
    let ghost ks = crate::text::views(keys@);
    let mut r: usize = 0;
    while r < keys.len() && text_le_exec(keys[r].as_str(), key.as_str())
        invariant
            r <= keys.len(),
            ks == crate::text::views(keys@),
            keys_sorted(ks),
            forall|i: int| 0 <= i < r ==> text_le(#[trigger] keys@[i]@, key@),
        decreases keys.len() - r,
    {
        r = r + 1;
    }
    proof {
        if r < keys.len() {
            assert(!text_le(keys@[r as int]@, key@));
            lemma_text_le_total(keys@[r as int]@, key@);
            assert forall|i: int| r <= i < keys.len() implies text_le(key@, #[trigger] keys@[i]@) by {
                if i > r {
                    assert(ks[r as int] == keys@[r as int]@ && ks[i] == keys@[i]@);
                    lemma_text_le_trans(key@, keys@[r as int]@, keys@[i]@);
                }
            }
        }
    }
    r
}

/// Inserting `key` at its insertion point keeps the keys sorted.
pub proof fn lemma_insert_sorted(keys: Seq<Seq<char>>, r: int, key: Seq<char>)
    requires
        keys_sorted(keys),
        0 <= r <= keys.len(),
        forall|i: int| 0 <= i < r ==> text_le(#[trigger] keys[i], key),
        forall|i: int| r <= i < keys.len() ==> text_le(key, #[trigger] keys[i]),
    ensures
        keys_sorted(keys.insert(r, key)),
{
    let k2 = keys.insert(r, key);
    assert forall|i: int, j: int| 0 <= i < j < k2.len() implies text_le(#[trigger] k2[i], #[trigger] k2[j]) by {
        if j < r {
            assert(k2[i] == keys[i] && k2[j] == keys[j]);
        } else if j == r {
            assert(k2[i] == keys[i]);
        } else if i == r {
            assert(k2[j] == keys[j - 1]);
        } else if i < r {
            assert(k2[i] == keys[i] && k2[j] == keys[j - 1]);
            lemma_text_le_trans(keys[i], key, keys[j - 1]);
        } else {
            assert(k2[i] == keys[i - 1] && k2[j] == keys[j - 1]);
        }
    }
}

} // verus!
