//! Names and shapes shared by the database layer.

use vstd::prelude::*;

verus! {

/// The relational databases of the service.
#[derive(Debug, Clone, Copy, PartialEq, Eq, Structural)]
pub enum SQLDBName {
    Main,
    Search,
}

impl SQLDBName {
    /// The name of the database.
    pub fn as_str(&self) -> (r: &'static str)
        ensures
            r@ == match *self {
                SQLDBName::Main => "main"@,
                SQLDBName::Search => "search"@,
            },
    {
        match self {
            SQLDBName::Main => "main",
            SQLDBName::Search => "search",
        }
    }
}

/// A row count.
#[derive(Debug, Clone, Copy, PartialEq, Eq, Structural)]
pub struct DBCount {
    pub count: u32,
}

/// The direction of an ordering.
#[derive(Debug, Clone, Copy, PartialEq, Eq, Structural)]
pub enum DBOrderDirection {
    ASC,
    DESC,
}

impl DBOrderDirection {
    /// The SQL keyword of the direction.
    pub fn as_str(&self) -> (r: &'static str)
        ensures
            r@ == match *self {
                DBOrderDirection::ASC => "ASC"@,
                DBOrderDirection::DESC => "DESC"@,
            },
    {
        match self {
            DBOrderDirection::ASC => "ASC",
            DBOrderDirection::DESC => "DESC",
        }
    }
}

/// Sorts identifiers ascending and removes duplicates.
pub fn sort_and_dedup_vec(vec: &mut Vec<u32>)
    ensures
        forall|i: int, j: int| 0 <= i < j < final(vec)@.len() ==> final(vec)@[i] < final(vec)@[j],
        final(vec)@.to_set() == old(vec)@.to_set(),
{
    let mut out: Vec<u32> = Vec::new();
    let mut i: usize = 0;
    while i < vec.len()
        invariant
            i <= vec@.len(),
            vec@ == old(vec)@,
            forall|a: int, b: int| 0 <= a < b < out@.len() ==> out@[a] < out@[b],
            out@.to_set() == vec@.take(i as int).to_set(),
        decreases vec@.len() - i,
    {
        let x = vec[i];
        let mut p: usize = 0;
        while p < out.len() && out[p] < x
            invariant
                p <= out@.len(),
                forall|a: int| 0 <= a < p ==> out@[a] < x,
            decreases out@.len() - p,
        {
            p = p + 1;
        }
        let ghost prev = out@;
        proof {
            assert(vec@.take(i as int + 1) =~= vec@.take(i as int).push(x));
            vec@.take(i as int).lemma_push_to_set_commute(x);
        }
        if p < out.len() && out[p] == x {
            proof {
                assert(prev.to_set().contains(x));
                assert(out@.to_set() =~= vec@.take(i as int + 1).to_set());
            }
        } else {
            out.insert(p, x);
            proof {
                assert forall|m: int| 0 <= m < out@.len() implies out@[m] == if m < p {
                    prev[m]
                } else if m == p {
                    x
                } else {
                    prev[m - 1]
                } by {}
                assert forall|a: int, b: int| 0 <= a < b < out@.len() implies out@[a] < out@[b] by {
                    if a < p && b > p {
                        assert(prev[a] < x);
                    }
                    if a == p && b > p {
                        assert(prev[p as int] != x);
                        assert(prev[p as int] >= x);
                        assert(prev[p as int] <= prev[b - 1]);
                    }
                }
                assert forall|y: u32| out@.to_set().contains(y) <==> prev.to_set().insert(x).contains(y) by {
                    if out@.to_set().contains(y) {
                        let m = choose|m: int| 0 <= m < out@.len() && out@[m] == y;
                        if m < p {
                            assert(prev[m] == y);
                        } else if m > p {
                            assert(prev[m - 1] == y);
                        }
                    }
                    if prev.to_set().contains(y) {
                        let m = choose|m: int| 0 <= m < prev.len() && prev[m] == y;
                        if m < p {
                            assert(out@[m] == y);
                        } else {
                            assert(out@[m + 1] == y);
                        }
                    }
                    if y == x {
                        assert(out@[p as int] == x);
                    }
                }
                assert(out@.to_set() =~= vec@.take(i as int + 1).to_set());
            }
        }
        i = i + 1;
    }
    proof {
        assert(vec@.take(i as int) =~= vec@);
    }
    *vec = out;
}

} // verus!
