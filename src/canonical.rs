//! Canonical encoding of a solution path and its seed.

use vstd::prelude::*;
use vstd::utf8::{encode_utf8, encode_utf8_decode_utf8};

verus! {

/// The text of each label of a path.
pub open spec fn labels(path: Seq<String>) -> Seq<Seq<char>> {
    path.map_values(|s: String| s@)
}

/// The delimiter placed between consecutive labels.
pub open spec fn delimiter() -> Seq<char> {
    seq!['-', '>']
}

/// The labels in their given order, separated by the delimiter.
pub open spec fn joined(path: Seq<Seq<char>>) -> Seq<char>
    decreases path.len(),
{
    if path.len() == 0 {
        Seq::empty()
    } else if path.len() == 1 {
        path[0]
    } else {
        joined(path.drop_last()) + delimiter() + path.last()
    }
}

/// The canonical text: the joined path, with the seed right after it.
pub open spec fn canonical_text(path: Seq<Seq<char>>, seed: Seq<char>) -> Seq<char> {
    joined(path) + seed
}

/// The canonical bytes: the UTF-8 encoding of the canonical text.
pub open spec fn canonical_bytes(path: Seq<Seq<char>>, seed: Seq<char>) -> Seq<u8> {
    encode_utf8(canonical_text(path, seed))
}

/// Joining two non-empty paths puts one delimiter between their joins.
pub proof fn lemma_joined_concat(a: Seq<Seq<char>>, b: Seq<Seq<char>>)
    requires
        a.len() > 0,
        b.len() > 0,
    ensures
        joined(a + b) == joined(a) + delimiter() + joined(b),
    decreases b.len(),
{
    if b.len() == 1 {
        assert((a + b).drop_last() =~= a);
    } else {
        assert((a + b).drop_last() =~= a + b.drop_last());
        lemma_joined_concat(a, b.drop_last());
        assert(joined(a + b) =~= joined(a) + delimiter() + joined(b));
    }
}

/// The joined path splits around any one label: what precedes it and what
/// follows it do not depend on the label itself.
proof fn lemma_joined_around(path: Seq<Seq<char>>, i: int)
    requires
        0 <= i < path.len(),
    ensures
        joined(path) == joined_before(path, i) + path[i] + joined_after(path, i),
{
    let pre = path.subrange(0, i);
    let post = path.subrange(i + 1, path.len() as int);
    let mid = seq![path[i]];
    assert(joined(mid) == path[i]);
    if pre.len() == 0 && post.len() == 0 {
        assert(path =~= mid);
    } else if pre.len() == 0 {
        assert(path =~= mid + post);
        lemma_joined_concat(mid, post);
        assert(joined(path) =~= path[i] + joined_after(path, i));
    } else if post.len() == 0 {
        assert(path =~= pre + mid);
        lemma_joined_concat(pre, mid);
        assert(joined(path) =~= joined_before(path, i) + path[i]);
    } else {
        assert(path =~= (pre + mid) + post);
        lemma_joined_concat(pre + mid, post);
        lemma_joined_concat(pre, mid);
        assert(joined(path) =~= joined_before(path, i) + path[i] + joined_after(path, i));
    }
}

/// What the join of `path` holds before its label at `i`.
spec fn joined_before(path: Seq<Seq<char>>, i: int) -> Seq<char> {
    if i == 0 {
        Seq::empty()
    } else {
        joined(path.subrange(0, i)) + delimiter()
    }
}

/// What the join of `path` holds after its label at `i`.
spec fn joined_after(path: Seq<Seq<char>>, i: int) -> Seq<char> {
    if i + 1 == path.len() {
        Seq::empty()
    } else {
        delimiter() + joined(path.subrange(i + 1, path.len() as int))
    }
}

/// Distinct texts have distinct UTF-8 encodings.
proof fn lemma_encoding_injective(a: Seq<char>, b: Seq<char>)
    requires
        a != b,
    ensures
        encode_utf8(a) != encode_utf8(b),
{
    encode_utf8_decode_utf8(a);
    encode_utf8_decode_utf8(b);
}

/// With an empty path the canonical bytes are the seed's bytes alone.
pub proof fn lemma_empty_path_is_seed(seed: Seq<char>)
    ensures
        canonical_text(Seq::empty(), seed) == seed,
        canonical_bytes(Seq::empty(), seed) == encode_utf8(seed),
{
    assert(canonical_text(Seq::empty(), seed) =~= seed);
}

/// Two different seeds give different canonical bytes for the same path.
pub proof fn lemma_canonical_distinguishes_seeds(
    path: Seq<Seq<char>>,
    seed1: Seq<char>,
    seed2: Seq<char>,
)
    requires
        seed1 != seed2,
    ensures
        canonical_bytes(path, seed1) != canonical_bytes(path, seed2),
{
    let j = joined(path);
    if canonical_text(path, seed1) == canonical_text(path, seed2) {
        assert((j + seed1).subrange(j.len() as int, (j + seed1).len() as int) =~= seed1);
        assert((j + seed2).subrange(j.len() as int, (j + seed2).len() as int) =~= seed2);
    }
    lemma_encoding_injective(canonical_text(path, seed1), canonical_text(path, seed2));
}

/// Replacing one label of a path by a different one changes the canonical
/// bytes, whatever the seed.
pub proof fn lemma_canonical_distinguishes_labels(
    path: Seq<Seq<char>>,
    i: int,
    label: Seq<char>,
    seed: Seq<char>,
)
    requires
        0 <= i < path.len(),
        label != path[i],
    ensures
        canonical_bytes(path.update(i, label), seed) != canonical_bytes(path, seed),
{
    let changed = path.update(i, label);
    lemma_joined_around(path, i);
    lemma_joined_around(changed, i);
    assert(changed.subrange(0, i) =~= path.subrange(0, i));
    assert(changed.subrange(i + 1, path.len() as int) =~= path.subrange(i + 1, path.len() as int));
    let pre = joined_before(path, i);
    let post = joined_after(path, i) + seed;
    let t1 = canonical_text(path, seed);
    let t2 = canonical_text(changed, seed);
    assert(t1 =~= pre + path[i] + post);
    assert(t2 =~= pre + label + post);
    if t1 == t2 {
        assert(path[i].len() == label.len());
        assert forall|k: int| 0 <= k < label.len() implies label[k] == path[i][k] by {
            assert(t1[pre.len() + k] == path[i][k]);
            assert(t2[pre.len() + k] == label[k]);
        }
        assert(label =~= path[i]);
    }
    lemma_encoding_injective(t2, t1);
}

/// Whether a text holds the delimiter `->` somewhere.
pub open spec fn has_delimiter(s: Seq<char>) -> bool {
    exists|k: int| 0 <= k && k + 1 < s.len() && s[k] == '-' && #[trigger] s[k + 1] == '>'
}

/// Whether no label of a path holds the delimiter.
pub open spec fn free_of_delimiter(path: Seq<Seq<char>>) -> bool {
    forall|i: int| 0 <= i < path.len() ==> !has_delimiter(#[trigger] path[i])
}

/// A path of two or more labels joins as its first label, the delimiter,
/// and the join of the rest.
proof fn lemma_joined_front(path: Seq<Seq<char>>)
    requires
        path.len() >= 2,
    ensures
        joined(path) == path[0] + delimiter() + joined(path.drop_first()),
{
    assert(path =~= seq![path[0]] + path.drop_first());
    lemma_joined_concat(seq![path[0]], path.drop_first());
    assert(joined(seq![path[0]]) == path[0]);
}

/// The first label of `longer` cannot run past where the first delimiter of
/// `shorter` starts, when both join to the same text and no label holds the
/// delimiter.
proof fn lemma_first_labels_not_shorter(p1: Seq<Seq<char>>, p2: Seq<Seq<char>>)
    requires
        p1.len() >= 2,
        p2.len() >= 2,
        !has_delimiter(p1[0]),
        !has_delimiter(p2[0]),
        joined(p1) == joined(p2),
    ensures
        p2[0].len() <= p1[0].len(),
{
    lemma_joined_front(p1);
    lemma_joined_front(p2);
    let a = p1[0];
    let b = p2[0];
    let t = joined(p1);
    let k = a.len() as int;
    if b.len() > k {
        assert(t[k] == '-');
        assert(t[k + 1] == '>');
        assert(b[k] == t[k]);
        if k + 1 < b.len() {
            assert(b[k + 1] == t[k + 1]);
            assert(has_delimiter(b));
        } else {
            assert(t[b.len() as int] == '-');
        }
    }
}

/// Paths of the same length whose labels hold no delimiter are told apart
/// by their joins.
proof fn lemma_joined_injective(p1: Seq<Seq<char>>, p2: Seq<Seq<char>>)
    requires
        p1.len() == p2.len(),
        p1.len() > 0,
        free_of_delimiter(p1),
        free_of_delimiter(p2),
        joined(p1) == joined(p2),
    ensures
        p1 == p2,
    decreases p1.len(),
{
    if p1.len() == 1 {
        assert(p1 =~= p2);
    } else {
        assert(!has_delimiter(p1[0]));
        assert(!has_delimiter(p2[0]));
        lemma_first_labels_not_shorter(p1, p2);
        lemma_first_labels_not_shorter(p2, p1);
        lemma_joined_front(p1);
        lemma_joined_front(p2);
        let a = p1[0];
        let b = p2[0];
        let t = joined(p1);
        assert(a =~= t.subrange(0, a.len() as int));
        assert(b =~= t.subrange(0, b.len() as int));
        let start = a.len() as int + 2;
        assert(joined(p1.drop_first()) =~= t.subrange(start, t.len() as int));
        assert(joined(p2.drop_first()) =~= t.subrange(start, t.len() as int));
        assert forall|i: int| 0 <= i < p1.drop_first().len() implies !has_delimiter(
            #[trigger] p1.drop_first()[i],
        ) by {
            assert(p1.drop_first()[i] == p1[i + 1]);
        }
        assert forall|i: int| 0 <= i < p2.drop_first().len() implies !has_delimiter(
            #[trigger] p2.drop_first()[i],
        ) by {
            assert(p2.drop_first()[i] == p2[i + 1]);
        }
        lemma_joined_injective(p1.drop_first(), p2.drop_first());
        assert(p1 =~= seq![a] + p1.drop_first());
        assert(p2 =~= seq![b] + p2.drop_first());
    }
}

/// Two different paths of the same length, whose labels hold no `->`, have
/// different canonical bytes under the same seed. In particular, putting
/// such labels in another order that makes a different sequence changes the
/// canonical bytes.
pub proof fn lemma_canonical_distinguishes_paths(
    path1: Seq<Seq<char>>,
    path2: Seq<Seq<char>>,
    seed: Seq<char>,
)
    requires
        path1.len() == path2.len(),
        path1 != path2,
        free_of_delimiter(path1),
        free_of_delimiter(path2),
    ensures
        canonical_bytes(path1, seed) != canonical_bytes(path2, seed),
{
    let t1 = canonical_text(path1, seed);
    let t2 = canonical_text(path2, seed);
    if t1 == t2 {
        let j1 = joined(path1);
        let j2 = joined(path2);
        assert(j1 =~= t1.subrange(0, j1.len() as int));
        assert(j2 =~= t2.subrange(0, j2.len() as int));
        if path1.len() == 0 {
            assert(path1 =~= path2);
        }
        lemma_joined_injective(path1, path2);
    }
    lemma_encoding_injective(t1, t2);
}

/// Encodes a path and a seed canonically: the labels in order, separated by
/// `->`, then the seed, as UTF-8 bytes.
pub fn canonicalize(path: &Vec<String>, seed: &String) -> (r: Vec<u8>)
    ensures
        r@ == canonical_bytes(labels(path@), seed@),
{
    let ghost all = labels(path@);
    let mut text = String::new();
    let mut i: usize = 0;
    proof {
        reveal_strlit("->");
        assert(all.subrange(0, 0) =~= Seq::<Seq<char>>::empty());
    }
    while i < path.len()
        invariant
            i <= path@.len(),
            all == labels(path@),
            text@ == joined(all.subrange(0, i as int)),
            "->"@ == delimiter(),
        decreases path@.len() - i,
    {
        if i > 0 {
            text.append("->");
        }
        text.append(path[i].as_str());
        proof {
            let next = all.subrange(0, i + 1);
            assert(next.drop_last() =~= all.subrange(0, i as int));
            assert(next.last() == path@[i as int]@);
            assert(text@ =~= joined(next));
        }
        i = i + 1;
    }
    assert(all.subrange(0, path@.len() as int) =~= all);
    text.append(seed.as_str());
    text.as_str().as_bytes_vec()
}

} // verus!
