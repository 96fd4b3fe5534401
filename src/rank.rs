use vstd::multiset::Multiset;
use vstd::prelude::*;
use vstd::string::StrSliceExecFns;

verus! {

/// Whether `s` begins with `p`.
pub open spec fn starts_with(s: Seq<char>, p: Seq<char>) -> bool {
    p.len() <= s.len() && s.subrange(0, p.len() as int) == p
}

/// The items whose flag equals `want`, in their order.
pub open spec fn keep(items: Seq<usize>, flags: Seq<bool>, want: bool) -> Seq<usize>
    decreases items.len(),
{
    if items.len() == 0 {
        seq![]
    } else {
        let n = items.len() - 1;
        keep(items.take(n), flags, want) + if flags[n] == want {
            seq![items[n]]
        } else {
            seq![]
        }
    }
}

/// The flagged items first, then the others, each group in its order.
pub open spec fn flagged_first(items: Seq<usize>, flags: Seq<bool>) -> Seq<usize> {
    keep(items, flags, true) + keep(items, flags, false)
}

/// For each code, whether it begins with `query`.
pub open spec fn prefix_flags(codes: Seq<Seq<char>>, query: Seq<char>) -> Seq<bool> {
    Seq::new(codes.len(), |i: int| starts_with(codes[i], query))
}

/// Whether `s` begins with `p`.
pub fn has_prefix(s: &str, p: &str) -> (r: bool)
    ensures
        r == starts_with(s@, p@),
{
    let n = p.unicode_len();
    if n > s.unicode_len() {
        return false;
    }
    let mut i: usize = 0;
    while i < n
        invariant
            n == p@.len(),
            n <= s@.len(),
            i <= n,
            forall|k: int| 0 <= k < i ==> s@[k] == p@[k],
        decreases n - i,
    {
        if s.get_char(i) != p.get_char(i) {
            return false;
        }
        i = i + 1;
    }
    proof {
        assert(s@.subrange(0, n as int) =~= p@);
    }
    true
}

/// Reorders `page` so that the entries whose code begins with `query` come
/// first; both groups keep their order. `codes[i]` is the code of `page[i]`.
pub fn prefix_first(page: &Vec<usize>, codes: &Vec<String>, query: &str) -> (r: Vec<usize>)
    requires
        codes@.len() == page@.len(),
    ensures
        r@ == flagged_first(
            page@,
            prefix_flags(codes@.map_values(|c: String| c@), query@),
        ),
{
    let ghost flags = prefix_flags(codes@.map_values(|c: String| c@), query@);
    let mut hits: Vec<usize> = Vec::new();
    let mut rest: Vec<usize> = Vec::new();
    let mut i: usize = 0;
    while i < page.len()
        invariant
            codes@.len() == page@.len(),
            flags == prefix_flags(codes@.map_values(|c: String| c@), query@),
            i <= page@.len(),
            hits@ == keep(page@.take(i as int), flags, true),
            rest@ == keep(page@.take(i as int), flags, false),
        decreases page.len() - i,
    {
        let hit = has_prefix(codes[i].as_str(), query);
        proof {
            assert(page@.take(i + 1).take(i as int) =~= page@.take(i as int));
            assert(flags[i as int] == hit);
        }
        if hit {
            hits.push(page[i]);
        } else {
            rest.push(page[i]);
        }
        i = i + 1;
    }
    proof {
        assert(page@.take(page@.len() as int) =~= page@);
    }
    let mut j: usize = 0;
    while j < rest.len()
        invariant
            0 <= j <= rest@.len(),
            hits@ == keep(page@, flags, true) + rest@.take(j as int),
        decreases rest.len() - j,
    {
        hits.push(rest[j]);
        proof {
            assert(rest@.take(j + 1) =~= rest@.take(j as int).push(rest@[j as int]));
        }
        j = j + 1;
    }
    proof {
        assert(rest@.take(rest@.len() as int) =~= rest@);
    }
    hits
}

proof fn lemma_keep_split(items: Seq<usize>, flags: Seq<bool>)
    ensures
        keep(items, flags, true).to_multiset().add(keep(items, flags, false).to_multiset())
            == items.to_multiset(),
    decreases items.len(),
{
    broadcast use {vstd::seq_lib::group_to_multiset_ensures, vstd::multiset::group_multiset_axioms};

    if items.len() == 0 {
        assert(keep(items, flags, true).to_multiset() =~= Multiset::empty());
        assert(keep(items, flags, false).to_multiset() =~= Multiset::empty());
        assert(items.to_multiset() =~= Multiset::empty());
    } else {
        let n = items.len() - 1;
        let front = items.take(n);
        lemma_keep_split(front, flags);
        assert(items =~= front.push(items[n]));
        vstd::seq_lib::lemma_multiset_commutative(keep(front, flags, true), seq![items[n]]);
        vstd::seq_lib::lemma_multiset_commutative(keep(front, flags, false), seq![items[n]]);
        vstd::seq_lib::lemma_multiset_commutative(keep(front, flags, true), seq![]);
        vstd::seq_lib::lemma_multiset_commutative(keep(front, flags, false), seq![]);
        assert(seq![items[n]].to_multiset() =~= Multiset::singleton(items[n])) by {
            assert(seq![items[n]] =~= Seq::<usize>::empty().push(items[n]));
        }
        assert(Seq::<usize>::empty().to_multiset() =~= Multiset::empty());
        assert(keep(items, flags, true).to_multiset().add(keep(items, flags, false).to_multiset())
            =~= items.to_multiset());
    }
}

/// Putting the flagged entries first neither drops nor repeats an entry: the
/// result holds each entry as often as the page does.
pub proof fn lemma_flagged_first_permutes(items: Seq<usize>, flags: Seq<bool>)
    ensures
        flagged_first(items, flags).to_multiset() == items.to_multiset(),
        flagged_first(items, flags).len() == items.len(),
{
    broadcast use vstd::seq_lib::group_to_multiset_ensures;

    lemma_keep_split(items, flags);
    vstd::seq_lib::lemma_multiset_commutative(keep(items, flags, true), keep(items, flags, false));
    assert(flagged_first(items, flags).to_multiset().len() == items.to_multiset().len());
}

} // verus!
