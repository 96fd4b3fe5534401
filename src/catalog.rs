use std::cmp::Ordering;
use vstd::multiset::Multiset;
use vstd::prelude::*;

use crate::course::Class;

verus! {


/// How natord's natural ordering places one code against another.
pub uninterp spec fn natural_order(a: Seq<char>, b: Seq<char>) -> Ordering;

/// Relies on natord::compare: the result is natural_order of the two strings,
/// and comparing them the other way round gives the reverse result (the
/// comparison treats both sides alike).
#[verifier::external_body]
fn compare_codes(a: &str, b: &str) -> (r: Ordering)
    ensures
        r == natural_order(a@, b@),
        r == Ordering::Less <==> natural_order(b@, a@) == Ordering::Greater,
        r == Ordering::Greater <==> natural_order(b@, a@) == Ordering::Less,
        r == Ordering::Equal <==> natural_order(b@, a@) == Ordering::Equal,
{
    natord::compare(a, b)
}

/// No course stands after its successor in the natural order of codes.
pub open spec fn in_code_order(s: Seq<Class>) -> bool {
    forall|i: int|
        0 <= i < s.len() - 1 ==> natural_order((#[trigger] s[i]).code@, s[i + 1].code@)
            != Ordering::Greater
}

broadcast use {vstd::seq_lib::group_to_multiset_ensures, vstd::multiset::group_multiset_axioms};

/// Inserts `x` into `out` after every record whose code is not after its own,
/// keeping `out` in code order.
#[verifier::rlimit(50)]
fn insert_in_order(out: &mut Vec<Class>, x: Class)
    requires
        in_code_order(old(out)@),
    ensures
        final(out)@.to_multiset() == old(out)@.to_multiset().insert(x),
        in_code_order(final(out)@),
{
    let mut j: usize = out.len();
    while j > 0
        invariant
            j <= out.len(),
            j < out.len() ==> natural_order(out@[j as int].code@, x.code@) == Ordering::Greater
                && natural_order(x.code@, out@[j as int].code@) == Ordering::Less,
            in_code_order(out@),
        ensures
            j <= out.len(),
            j < out.len() ==> natural_order(out@[j as int].code@, x.code@) == Ordering::Greater
                && natural_order(x.code@, out@[j as int].code@) == Ordering::Less,
            j > 0 ==> natural_order(out@[j - 1].code@, x.code@) != Ordering::Greater,
        decreases j,
    {
        match compare_codes(out[j - 1].code.as_str(), x.code.as_str()) {
            Ordering::Greater => {},
            _ => break,
        }
        j = j - 1;
    }
    let ghost prev = out@;
    out.insert(j, x);
    proof {
        let n = out@;
        assert(n == prev.insert(j as int, x));
        vstd::seq_lib::to_multiset_insert(prev, j as int, x);
        assert forall|i: int| 0 <= i < n.len() - 1 implies natural_order(
            (#[trigger] n[i]).code@,
            n[i + 1].code@,
        ) != Ordering::Greater by {
            if i < j - 1 {
                assert(n[i] == prev[i] && n[i + 1] == prev[i + 1]);
            } else if i == j - 1 {
                assert(n[i] == prev[i] && n[i + 1] == x);
            } else if i == j {
                assert(n[i] == x && n[i + 1] == prev[i]);
            } else {
                assert(n[i] == prev[i - 1] && n[i + 1] == prev[i]);
            }
        }
    }
}

/// The course catalog: the records in natural order of their codes, each
/// addressed by its position.
pub struct Catalog {
    courses: Vec<Class>,
}

impl Catalog {
    /// The records, by position.
    pub closed spec fn records(&self) -> Seq<Class> {
        self.courses@
    }

    /// Builds the catalog from the records as loaded, ordering them by code
    /// with numeric runs compared by value; records with equal codes keep
    /// their order.
    pub fn load(raw: Vec<Class>) -> (c: Catalog)
        ensures
            c.records().to_multiset() == raw@.to_multiset(),
            in_code_order(c.records()),
    {
        let ghost orig = raw@;
        let mut rest = raw;
        let mut out: Vec<Class> = Vec::new();
        proof {
            assert(out@.to_multiset() =~= Multiset::empty());
            assert(out@.to_multiset().add(rest@.to_multiset()) =~= orig.to_multiset());
        }
        while rest.len() > 0
            invariant
                out@.to_multiset().add(rest@.to_multiset()) == orig.to_multiset(),
                in_code_order(out@),
            decreases rest.len(),
        {
            let ghost before = rest@;
            let ghost done = out@;
            let x = rest.remove(0);
            insert_in_order(&mut out, x);
            proof {
                assert(before.remove(0) == rest@);
                assert(before.to_multiset() == rest@.to_multiset().insert(x)) by {
                    assert(before[0] == x);
                    assert(before.to_multiset().remove(x).insert(x) =~= before.to_multiset());
                }
                assert(out@.to_multiset().add(rest@.to_multiset()) =~= done.to_multiset().add(
                    before.to_multiset(),
                ));
            }
        }
        proof {
            assert(rest@.to_multiset() =~= Multiset::empty());
            assert(out@.to_multiset().add(rest@.to_multiset()) =~= out@.to_multiset());
        }
        Catalog { courses: out }
    }

    /// The number of records.
    pub fn len(&self) -> (n: usize)
        ensures
            n == self.records().len(),
    {
        self.courses.len()
    }

    /// The record at `pos`, or `None` where `pos` is past the last record.
    pub fn get(&self, pos: usize) -> (r: Option<&Class>)
        ensures
            pos < self.records().len() ==> r == Some(&self.records()[pos as int]),
            pos >= self.records().len() ==> r is None,
    {
        if pos < self.courses.len() {
            Some(&self.courses[pos])
        } else {
            None
        }
    }

    /// All records, in catalog order.
    pub fn courses(&self) -> (r: &Vec<Class>)
        ensures
            r@ == self.records(),
    {
        &self.courses
    }
}

} // verus!
