//! Finding the entry of a catalog that a typed text stands for.

use vstd::prelude::*;

verus! {

/// `needle` stands in `hay` from position `at` on.
pub open spec fn occurs_at(needle: Seq<char>, hay: Seq<char>, at: int) -> bool {
    &&& 0 <= at
    &&& at + needle.len() <= hay.len()
    &&& hay.subrange(at, at + needle.len()) == needle
}

/// `needle` stands somewhere in `hay`.
pub open spec fn occurs_in(needle: Seq<char>, hay: Seq<char>) -> bool {
    exists|at: int| occurs_at(needle, hay, at)
}

/// The characters of `s`, in order.
pub fn chars_of(s: &str) -> (v: Vec<char>)
    ensures
        v@ == s@,
{
    let mut v: Vec<char> = Vec::new();
    for ch in it: s.chars()
        invariant
            it.seq() == s@,
            v@ == it.seq().take(it.index() as int),
    {
        v.push(ch);
    }
    v
}

/// Whether `needle` stands in `hay` from position `at` on.
fn matches_at(needle: &Vec<char>, hay: &Vec<char>, at: usize) -> (hit: bool)
    requires
        at + needle@.len() <= hay@.len(),
    ensures
        hit == occurs_at(needle@, hay@, at as int),
{
    let mut k: usize = 0;
    while k < needle.len()
        invariant
            k <= needle.len(),
            at + needle.len() <= hay.len(),
            forall|j: int| 0 <= j < k ==> hay@[at + j] == needle@[j],
        decreases needle@.len() - k,
    {
        if hay[at + k] != needle[k] {
            proof {
                let part = hay@.subrange(at as int, at + needle@.len());
                assert(part[k as int] == hay@[at + k]);
            }
            return false;
        }
        k += 1;
    }
    assert(hay@.subrange(at as int, at + needle@.len()) =~= needle@);
    true
}

/// Whether `needle` stands somewhere in `hay`.
fn stands_in(needle: &Vec<char>, hay: &Vec<char>) -> (hit: bool)
    ensures
        hit == occurs_in(needle@, hay@),
{
    if needle.len() > hay.len() {
        return false;
    }
    let last: usize = hay.len() - needle.len();
    let mut at: usize = 0;
    loop
        invariant
            last == hay@.len() - needle@.len(),
            at <= last,
            forall|j: int| 0 <= j < at ==> !occurs_at(needle@, hay@, j),
        decreases last - at,
    {
        if matches_at(needle, hay, at) {
            return true;
        }
        if at == last {
            return false;
        }
        at += 1;
    }
}

/// Whether `needle` stands somewhere in `hay`, character by character. The
/// empty text stands in every text.
pub fn contains(hay: &str, needle: &str) -> (hit: bool)
    ensures
        hit == occurs_in(needle@, hay@),
{
    let n = chars_of(needle);
    let h = chars_of(hay);
    stands_in(&n, &h)
}

/// The texts of a list of entries, in order.
pub open spec fn entries(files: Seq<String>) -> Seq<Seq<char>> {
    files.map_values(|f: String| f@)
}

/// Some entry of `catalog` holds `query`.
pub open spec fn has_hit(catalog: Seq<Seq<char>>, query: Seq<char>) -> bool {
    exists|at: int| 0 <= at < catalog.len() && occurs_in(query, #[trigger] catalog[at])
}

/// The entry at `at` holds `query`, and no entry before it does.
pub open spec fn is_first_hit(catalog: Seq<Seq<char>>, query: Seq<char>, at: int) -> bool {
    &&& 0 <= at < catalog.len()
    &&& occurs_in(query, catalog[at])
    &&& forall|i: int| 0 <= i < at ==> !occurs_in(query, #[trigger] catalog[i])
}

/// The place of the first entry that holds `query`, where there is one.
pub open spec fn first_hit(catalog: Seq<Seq<char>>, query: Seq<char>) -> int {
    choose|at: int| is_first_hit(catalog, query, at)
}

/// What `query` stands for: the first entry that holds it, or, where none
/// does, the text itself.
pub open spec fn resolve(catalog: Seq<Seq<char>>, query: Seq<char>) -> Seq<char> {
    if has_hit(catalog, query) {
        catalog[first_hit(catalog, query)]
    } else {
        query
    }
}

/// There is at most one first hit.
pub proof fn lemma_first_hit_is_unique(catalog: Seq<Seq<char>>, query: Seq<char>, a: int, b: int)
    requires
        is_first_hit(catalog, query, a),
        is_first_hit(catalog, query, b),
    ensures
        a == b,
{
    if a < b {
        assert(!occurs_in(query, catalog[a]));
    } else if b < a {
        assert(!occurs_in(query, catalog[b]));
    }
}

/// A first hit at `at` is what [`first_hit`] names, and its entry is what the
/// text resolves to.
pub proof fn lemma_first_hit_resolves(catalog: Seq<Seq<char>>, query: Seq<char>, at: int)
    requires
        is_first_hit(catalog, query, at),
    ensures
        has_hit(catalog, query),
        first_hit(catalog, query) == at,
        resolve(catalog, query) == catalog[at],
{
    lemma_first_hit_is_unique(catalog, query, at, first_hit(catalog, query));
}

/// The place of the first entry of `files` that holds `s`.
pub fn position(s: &String, files: &Vec<String>) -> (found: Option<usize>)
    ensures
        match found {
            Some(at) => is_first_hit(entries(files@), s@, at as int),
            None => !has_hit(entries(files@), s@),
        },
{
    let needle = chars_of(s.as_str());
    let mut at: usize = 0;
    while at < files.len()
        invariant
            at <= files@.len(),
            needle@ == s@,
            forall|i: int| 0 <= i < at ==> !occurs_in(s@, #[trigger] entries(files@)[i]),
        decreases files@.len() - at,
    {
        let hay = chars_of(files[at].as_str());
        if stands_in(&needle, &hay) {
            return Some(at);
        }
        at += 1;
    }
    None
}

/// The first entry of `files` that holds `s`, or, where none does, `s` itself.
pub fn c(s: &String, files: &Vec<String>) -> (found: String)
    ensures
        found@ == resolve(entries(files@), s@),
{
    match position(s, files) {
        Some(at) => {
            proof {
                lemma_first_hit_resolves(entries(files@), s@, at as int);
            }
            files[at].clone()
        },
        None => s.clone(),
    }
}

/// A text that some entry holds resolves to an entry that holds it, and to
/// the first such entry in the order of the catalog.
pub proof fn lemma_resolve_finds_first(catalog: Seq<Seq<char>>, query: Seq<char>)
    requires
        has_hit(catalog, query),
    ensures
        is_first_hit(catalog, query, first_hit(catalog, query)),
        resolve(catalog, query) == catalog[first_hit(catalog, query)],
        occurs_in(query, resolve(catalog, query)),
{
    let some = choose|at: int| 0 <= at < catalog.len() && occurs_in(query, #[trigger] catalog[at]);
    lemma_hit_has_first(catalog, query, some);
}

/// Where the entry at `upto` holds `query`, there is a first hit at or before it.
pub proof fn lemma_hit_has_first(catalog: Seq<Seq<char>>, query: Seq<char>, upto: int)
    requires
        0 <= upto < catalog.len(),
        occurs_in(query, catalog[upto]),
    ensures
        exists|at: int| 0 <= at <= upto && is_first_hit(catalog, query, at),
    decreases upto,
{
    if exists|i: int| 0 <= i < upto && occurs_in(query, #[trigger] catalog[i]) {
        let i = choose|i: int| 0 <= i < upto && occurs_in(query, #[trigger] catalog[i]);
        lemma_hit_has_first(catalog, query, i);
    } else {
        assert(is_first_hit(catalog, query, upto));
    }
}

/// A text that no entry holds resolves to itself.
pub proof fn lemma_resolve_miss_is_literal(catalog: Seq<Seq<char>>, query: Seq<char>)
    requires
        !has_hit(catalog, query),
    ensures
        resolve(catalog, query) == query,
{
}

} // verus!
