//! The catalog: the files found under the root, shortest path first.

use crate::config::CATALOG_LIMIT;
use crate::finder::{
    entries, is_first_hit, lemma_first_hit_resolves, lemma_hit_has_first, occurs_at, occurs_in,
    resolve,
};
use vstd::prelude::*;
use vstd::string::StringSliceAdditionalSpecFns;
use vstd::utf8::{
    encode_utf8, encode_utf8_decode_utf8, encode_utf8_first_scalar, encode_utf8_valid_utf8,
    is_char_boundary, pop_first_scalar,
};

verus! {

/// The length of a text in bytes, by which a catalog is ordered.
pub open spec fn byte_len(text: Seq<char>) -> nat {
    encode_utf8(text).len()
}

/// No entry is shorter than one before it.
pub open spec fn ordered(catalog: Seq<Seq<char>>) -> bool {
    forall|i: int, j: int|
        0 <= i <= j < catalog.len() ==> byte_len(#[trigger] catalog[i]) <= byte_len(
            #[trigger] catalog[j],
        )
}

/// The entries of `list` that are `n` bytes long, in the order of `list`.
pub open spec fn of_len(list: Seq<Seq<char>>, n: nat) -> Seq<Seq<char>> {
    list.filter(|text: Seq<char>| byte_len(text) == n)
}

/// `catalog` holds what `found` holds, shortest first, and entries of one
/// length in the order in which they were found.
pub open spec fn is_catalog_of(found: Seq<Seq<char>>, catalog: Seq<Seq<char>>) -> bool {
    &&& catalog.len() == found.len()
    &&& ordered(catalog)
    &&& forall|n: nat| #[trigger] of_len(catalog, n) == of_len(found, n)
}

/// The two characters that name the root at the head of every path found.
pub open spec fn root_prefix() -> Seq<char> {
    seq!['.', '/']
}

/// The path starts with the root prefix.
pub open spec fn under_root(path: Seq<char>) -> bool {
    &&& path.len() >= 2
    &&& path[0] == '.'
    &&& path[1] == '/'
}

/// The path `path` without its first two bytes, which name the root: a path
/// that starts with the root prefix gives what follows it.
pub fn relative(path: &str) -> (rest: String)
    requires
        is_char_boundary(path.spec_bytes(), 2),
    ensures
        encode_utf8(rest@) == path.spec_bytes().skip(2),
        under_root(path@) ==> rest@ == path@.skip(2),
{
    let (_, tail) = path.split_at(2);
    let rest = tail.to_owned();
    proof {
        if under_root(path@) {
            assert(path@ =~= root_prefix() + path@.skip(2));
            lemma_root_prefix_is_two_bytes();
            lemma_split_behind_head(root_prefix(), path@.skip(2));
            encode_utf8_decode_utf8(rest@);
            encode_utf8_decode_utf8(path@.skip(2));
        }
    }
    rest
}

/// The root prefix is two bytes long.
pub proof fn lemma_root_prefix_is_two_bytes()
    ensures
        byte_len(root_prefix()) == 2,
{
    let head = root_prefix();
    let next = head.drop_first();
    assert(next.len() == 1);
    assert(next.drop_first().len() == 0);
    assert(head[0] as u32 == 0x2E);
    assert(next[0] as u32 == 0x2F);
    assert(encode_utf8(next.drop_first()).len() == 0);
    assert(encode_utf8(next).len() == 1);
}

/// A text splits behind its head: the bytes of the head end on a character
/// boundary, and the bytes that follow are those of the rest.
pub proof fn lemma_split_behind_head(head: Seq<char>, tail: Seq<char>)
    ensures
        is_char_boundary(encode_utf8(head + tail), byte_len(head) as int),
        encode_utf8(head + tail).skip(byte_len(head) as int) == encode_utf8(tail),
    decreases head.len(),
{
    let chars = head + tail;
    let bytes = encode_utf8(chars);
    encode_utf8_valid_utf8(chars);
    if head.len() == 0 {
        assert(chars =~= tail);
        assert(bytes.skip(0) =~= bytes);
    } else {
        let less = head.drop_first();
        assert(chars.drop_first() =~= less + tail);
        assert(chars[0] == head[0]);
        encode_utf8_first_scalar(chars);
        assert(pop_first_scalar(bytes) =~= encode_utf8(less + tail));
        lemma_split_behind_head(less, tail);
        lemma_byte_len_concat(head, tail);
        assert(bytes.skip(byte_len(head) as int) =~= encode_utf8(less + tail).skip(
            byte_len(less) as int,
        ));
    }
}

/// A path that starts with the root prefix can be cut behind it.
pub proof fn lemma_root_prefix_is_boundary(path: Seq<char>)
    requires
        under_root(path),
    ensures
        is_char_boundary(encode_utf8(path), 2),
{
    assert(path =~= root_prefix() + path.skip(2));
    lemma_root_prefix_is_two_bytes();
    lemma_split_behind_head(root_prefix(), path.skip(2));
}

/// The length of `text` in bytes.
pub fn size_of(text: &str) -> (size: usize)
    ensures
        size == byte_len(text@),
{
    text.as_bytes().len()
}

/// Filtering a list that ends in `last`.
proof fn lemma_of_len_push(list: Seq<Seq<char>>, last: Seq<char>, n: nat)
    ensures
        of_len(list.push(last), n) == if byte_len(last) == n {
            of_len(list, n).push(last)
        } else {
            of_len(list, n)
        },
{
    reveal(Seq::filter);
    assert(list.push(last).drop_last() =~= list);
}

/// Where no entry is `n` bytes long, none is left.
proof fn lemma_of_len_none(list: Seq<Seq<char>>, n: nat)
    requires
        forall|i: int| 0 <= i < list.len() ==> byte_len(#[trigger] list[i]) != n,
    ensures
        of_len(list, n) == Seq::<Seq<char>>::empty(),
    decreases list.len(),
{
    reveal(Seq::filter);
    if list.len() > 0 {
        lemma_of_len_none(list.drop_last(), n);
    }
}

/// Putting `text` behind all entries that are no longer than it, and before
/// all that are longer, adds it at the end of the entries of its length and
/// leaves those of every other length as they were.
proof fn lemma_of_len_insert(list: Seq<Seq<char>>, at: int, text: Seq<char>, n: nat)
    requires
        0 <= at <= list.len(),
        forall|i: int| at <= i < list.len() ==> byte_len(#[trigger] list[i]) > byte_len(text),
    ensures
        of_len(list.insert(at, text), n) == if byte_len(text) == n {
            of_len(list, n).push(text)
        } else {
            of_len(list, n)
        },
{
    let pred = |t: Seq<char>| byte_len(t) == n;
    let head = list.subrange(0, at);
    let tail = list.subrange(at, list.len() as int);
    assert(list =~= head + tail);
    assert(list.insert(at, text) =~= head.push(text) + tail);
    Seq::filter_distributes_over_add(head, tail, pred);
    Seq::filter_distributes_over_add(head.push(text), tail, pred);
    lemma_of_len_push(head, text, n);
    if byte_len(text) == n {
        lemma_of_len_none(tail, n);
        assert(of_len(head, n) + Seq::<Seq<char>>::empty() =~= of_len(head, n));
        assert(of_len(head, n).push(text) + Seq::<Seq<char>>::empty() =~= of_len(head, n).push(
            text,
        ));
    }
}

/// Puts what was found in the order of the catalog: shortest path first,
/// paths of one length in the order in which they were found.
pub fn ls(found: Vec<String>) -> (catalog: Vec<String>)
    requires
        found@.len() < CATALOG_LIMIT,
    ensures
        is_catalog_of(entries(found@), entries(catalog@)),
{
    let mut catalog: Vec<String> = Vec::new();
    let mut taken: usize = 0;
    while taken < found.len()
        invariant
            taken <= found.len(),
            catalog.len() == taken,
            ordered(entries(catalog@)),
            forall|n: nat| #[trigger]
                of_len(entries(catalog@), n) == of_len(entries(found@).take(taken as int), n),
        decreases found.len() - taken,
    {
        let text = found[taken].clone();
        let size: usize = size_of(text.as_str());
        let mut at: usize = catalog.len();
        while at > 0 && size_of(catalog[at - 1].as_str()) > size
            invariant
                at <= catalog.len(),
                size == byte_len(text@),
                forall|i: int|
                    at <= i < catalog.len() ==> byte_len(#[trigger] entries(catalog@)[i]) > size,
            decreases at,
        {
            at -= 1;
        }
        let ghost before = entries(catalog@);
        let ghost after = before.insert(at as int, text@);
        proof {
            let seen = entries(found@).take(taken as int);
            assert(entries(found@).take(taken + 1) =~= seen.push(text@));
            assert forall|n: nat| #[trigger]
                of_len(after, n) == of_len(entries(found@).take(taken + 1), n) by {
                lemma_of_len_insert(before, at as int, text@, n);
                lemma_of_len_push(seen, text@, n);
            }
            assert(ordered(after)) by {
                assert forall|i: int, j: int| 0 <= i <= j < after.len() implies byte_len(
                    #[trigger] after[i],
                ) <= byte_len(#[trigger] after[j]) by {
                    let a = if i < at { i } else { i - 1 };
                    let b = if j < at { j } else { j - 1 };
                    if i != at && j != at {
                        assert(after[i] == before[a]);
                        assert(after[j] == before[b]);
                    } else if i == at && j != at {
                        assert(after[j] == before[b]);
                    } else if i != at && j == at {
                        assert(after[i] == before[a]);
                        if at > 0 {
                            assert(byte_len(before[a]) <= byte_len(before[at - 1]));
                        }
                    }
                }
            }
        }
        catalog.insert(at, text);
        assert(entries(catalog@) =~= after);
        taken += 1;
    }
    assert(entries(found@).take(taken as int) =~= entries(found@));
    catalog
}

/// Where an entry of length `n` is left, the list holds one.
proof fn lemma_of_len_some(list: Seq<Seq<char>>, n: nat)
    requires
        of_len(list, n).len() > 0,
    ensures
        exists|i: int| 0 <= i < list.len() && byte_len(#[trigger] list[i]) == n,
{
    if forall|i: int| 0 <= i < list.len() ==> byte_len(#[trigger] list[i]) != n {
        lemma_of_len_none(list, n);
    }
}

/// Dropping the last entry of an ordered list keeps the order.
proof fn lemma_drop_last_keeps_order(list: Seq<Seq<char>>)
    requires
        list.len() > 0,
        ordered(list),
    ensures
        ordered(list.drop_last()),
{
    let less = list.drop_last();
    assert forall|i: int, j: int| 0 <= i <= j < less.len() implies byte_len(#[trigger] less[i])
        <= byte_len(#[trigger] less[j]) by {
        assert(less[i] == list[i] && less[j] == list[j]);
    }
}

/// Two ordered lists that agree on the entries of every length, in their
/// order, are one list.
proof fn lemma_same_classes_same_list(a: Seq<Seq<char>>, b: Seq<Seq<char>>)
    requires
        a.len() == b.len(),
        ordered(a),
        ordered(b),
        forall|n: nat| #[trigger] of_len(a, n) == of_len(b, n),
    ensures
        a == b,
    decreases a.len(),
{
    if a.len() == 0 {
        assert(a =~= b);
    } else {
        let x = a.last();
        let y = b.last();
        let k = byte_len(x);
        let m = byte_len(y);
        let a0 = a.drop_last();
        let b0 = b.drop_last();
        assert(a =~= a0.push(x));
        assert(b =~= b0.push(y));
        lemma_of_len_push(a0, x, k);
        lemma_of_len_push(b0, y, m);
        lemma_of_len_push(a0, x, m);
        lemma_of_len_push(b0, y, k);
        assert(of_len(a, k) == of_len(b, k));
        assert(of_len(a, m) == of_len(b, m));
        assert(k == m) by {
            lemma_of_len_some(b, k);
            let i = choose|i: int| 0 <= i < b.len() && byte_len(#[trigger] b[i]) == k;
            assert(byte_len(b[i]) <= byte_len(b[b.len() - 1]));
            lemma_of_len_some(a, m);
            let j = choose|j: int| 0 <= j < a.len() && byte_len(#[trigger] a[j]) == m;
            assert(byte_len(a[j]) <= byte_len(a[a.len() - 1]));
        }
        assert(x == y) by {
            assert(of_len(a, k).last() == x);
            assert(of_len(b, k).last() == y);
        }
        assert forall|n: nat| #[trigger] of_len(a0, n) == of_len(b0, n) by {
            lemma_of_len_push(a0, x, n);
            lemma_of_len_push(b0, y, n);
            assert(of_len(a, n) == of_len(b, n));
            if n == k {
                assert(of_len(a0, n) =~= of_len(a, n).drop_last());
                assert(of_len(b0, n) =~= of_len(b, n).drop_last());
            }
        }
        lemma_drop_last_keeps_order(a);
        lemma_drop_last_keeps_order(b);
        lemma_same_classes_same_list(a0, b0);
    }
}

/// What was found has one catalog only: the order of a catalog leaves
/// nothing open.
pub proof fn lemma_catalog_is_unique(
    found: Seq<Seq<char>>,
    first: Seq<Seq<char>>,
    second: Seq<Seq<char>>,
)
    requires
        is_catalog_of(found, first),
        is_catalog_of(found, second),
    ensures
        first == second,
{
    assert forall|n: nat| #[trigger] of_len(first, n) == of_len(second, n) by {
        assert(of_len(first, n) == of_len(found, n));
        assert(of_len(second, n) == of_len(found, n));
    }
    lemma_same_classes_same_list(first, second);
}

/// The bytes of two texts, one behind the other, are as many as those of
/// each taken together.
proof fn lemma_byte_len_concat(a: Seq<char>, b: Seq<char>)
    ensures
        byte_len(a + b) == byte_len(a) + byte_len(b),
    decreases a.len(),
{
    if a.len() == 0 {
        assert(a + b =~= b);
    } else {
        assert((a + b).drop_first() =~= a.drop_first() + b);
        assert((a + b)[0] == a[0]);
        lemma_byte_len_concat(a.drop_first(), b);
    }
}

/// A text has at least one byte for each of its characters.
proof fn lemma_byte_len_covers_chars(text: Seq<char>)
    ensures
        byte_len(text) >= text.len(),
    decreases text.len(),
{
    if text.len() > 0 {
        lemma_byte_len_covers_chars(text.drop_first());
    }
}

/// A text that holds another is no shorter than it, and of the same length
/// only where the two are one text.
pub proof fn lemma_holder_is_no_shorter(needle: Seq<char>, hay: Seq<char>)
    requires
        occurs_in(needle, hay),
    ensures
        byte_len(needle) <= byte_len(hay),
        byte_len(needle) == byte_len(hay) ==> needle == hay,
{
    let at = choose|at: int| occurs_at(needle, hay, at);
    let before = hay.subrange(0, at);
    let behind = hay.subrange(at + needle.len(), hay.len() as int);
    assert(hay =~= (before + needle) + behind);
    lemma_byte_len_concat(before + needle, behind);
    lemma_byte_len_concat(before, needle);
    lemma_byte_len_covers_chars(before);
    lemma_byte_len_covers_chars(behind);
    if byte_len(needle) == byte_len(hay) {
        assert(before.len() == 0 && behind.len() == 0);
        assert(hay =~= needle);
    }
}

/// In an ordered catalog every entry stands for itself: looked up as a text,
/// it resolves to no other entry.
pub proof fn lemma_entry_resolves_to_itself(catalog: Seq<Seq<char>>, at: int)
    requires
        ordered(catalog),
        0 <= at < catalog.len(),
    ensures
        resolve(catalog, catalog[at]) == catalog[at],
{
    let text = catalog[at];
    assert(occurs_at(text, text, 0)) by {
        assert(text.subrange(0, text.len() as int) =~= text);
    }
    lemma_hit_has_first(catalog, text, at);
    let first = choose|first: int| 0 <= first <= at && is_first_hit(catalog, text, first);
    lemma_first_hit_resolves(catalog, text, first);
    assert(byte_len(catalog[first]) <= byte_len(catalog[at]));
    lemma_holder_is_no_shorter(text, catalog[first]);
}

} // verus!
