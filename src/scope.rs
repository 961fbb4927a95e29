//! The repository scope of an issue query: the distinct repository ids of a
//! workspace, written as a comma-separated list of decimal numbers.
use vstd::prelude::*;
use crate::model::Repository;

verus! {

/// The character of a decimal digit.
pub open spec fn digit_char(d: nat) -> char {
    if d == 0 {
        '0'
    } else if d == 1 {
        '1'
    } else if d == 2 {
        '2'
    } else if d == 3 {
        '3'
    } else if d == 4 {
        '4'
    } else if d == 5 {
        '5'
    } else if d == 6 {
        '6'
    } else if d == 7 {
        '7'
    } else if d == 8 {
        '8'
    } else {
        '9'
    }
}

/// The decimal form of `n`, without leading zeros.
pub open spec fn decimal(n: nat) -> Seq<char>
    decreases n,
{
    if n < 10 {
        seq![digit_char(n)]
    } else {
        decimal(n / 10).push(digit_char(n % 10))
    }
}

/// The ids of `repos`, in order.
pub open spec fn repository_ids(repos: Seq<Repository>) -> Seq<u64> {
    repos.map_values(|r: Repository| r.id)
}

/// `ids` with every repeated id left out after its first occurrence.
pub open spec fn first_occurrences(ids: Seq<u64>) -> Seq<u64>
    decreases ids.len(),
{
    if ids.len() == 0 {
        Seq::empty()
    } else {
        let rest = first_occurrences(ids.drop_last());
        if rest.contains(ids.last()) {
            rest
        } else {
            rest.push(ids.last())
        }
    }
}

/// The decimal forms of `ids`, joined by commas.
pub open spec fn joined_decimals(ids: Seq<u64>) -> Seq<char>
    decreases ids.len(),
{
    if ids.len() == 0 {
        Seq::empty()
    } else if ids.len() == 1 {
        decimal(ids[0] as nat)
    } else {
        joined_decimals(ids.drop_last()) + seq![','] + decimal(ids.last() as nat)
    }
}

fn digit_str(d: u64) -> (s: &'static str)
    requires
        d < 10,
    ensures
        s@ == seq![digit_char(d as nat)],
{
    proof {
        reveal_strlit("0");
        reveal_strlit("1");
        reveal_strlit("2");
        reveal_strlit("3");
        reveal_strlit("4");
        reveal_strlit("5");
        reveal_strlit("6");
        reveal_strlit("7");
        reveal_strlit("8");
        reveal_strlit("9");
    }
    if d == 0 {
        "0"
    } else if d == 1 {
        "1"
    } else if d == 2 {
        "2"
    } else if d == 3 {
        "3"
    } else if d == 4 {
        "4"
    } else if d == 5 {
        "5"
    } else if d == 6 {
        "6"
    } else if d == 7 {
        "7"
    } else if d == 8 {
        "8"
    } else {
        "9"
    }
}

/// Appends the decimal form of `n` to `out`.
pub fn push_decimal(out: &mut String, n: u64)
    ensures
        final(out)@ == old(out)@ + decimal(n as nat),
    decreases n,
{
    if n >= 10 {
        push_decimal(out, n / 10);
    }
    out.append(digit_str(n % 10));
    proof {
        if n >= 10 {
            assert(decimal(n as nat) == decimal((n / 10) as nat).push(digit_char((n % 10) as nat)));
        }
    }
    assert(out@ =~= old(out)@ + decimal(n as nat));
}

fn contains_id(ids: &Vec<u64>, id: u64) -> (r: bool)
    ensures
        r == ids@.contains(id),
{
    let mut k: usize = 0;
    while k < ids.len()
        invariant
            k <= ids.len(),
            forall|j: int| 0 <= j < k ==> ids@[j] != id,
        decreases ids.len() - k,
    {
        if ids[k] == id {
            return true;
        }
        k = k + 1;
    }
    false
}

/// The distinct ids of `repos`, each at the place of its first occurrence.
pub fn repository_scope(repos: &Vec<Repository>) -> (r: Vec<u64>)
    ensures
        r@ == first_occurrences(repository_ids(repos@)),
        r@.no_duplicates(),
        r@.to_set() == repository_ids(repos@).to_set(),
        r@.len() == repository_ids(repos@).to_set().len(),
{
    let ghost ids = repository_ids(repos@);
    let mut scope: Vec<u64> = Vec::new();
    for k in 0..repos.len()
        invariant
            ids == repository_ids(repos@),
            scope@ == first_occurrences(ids.take(k as int)),
    {
        let id = repos[k].id;
        assert(ids.take(k + 1).drop_last() =~= ids.take(k as int));
        assert(ids[k as int] == id);
        assert(ids.take(k + 1).last() == id);
        if !contains_id(&scope, id) {
            scope.push(id);
        }
    }
    assert(ids.take(repos.len() as int) =~= ids);
    proof {
        lemma_first_occurrences(ids);
        scope@.unique_seq_to_set();
    }
    scope
}

/// Leaving out repeated ids keeps every id once and no other.
pub proof fn lemma_first_occurrences(ids: Seq<u64>)
    ensures
        first_occurrences(ids).no_duplicates(),
        first_occurrences(ids).to_set() == ids.to_set(),
    decreases ids.len(),
{
    if ids.len() > 0 {
        let rest = ids.drop_last();
        lemma_first_occurrences(rest);
        let d = first_occurrences(rest);
        assert(ids =~= rest.push(ids.last()));
        assert(ids.to_set() =~= rest.to_set().insert(ids.last())) by {
            rest.lemma_push_to_set_commute(ids.last());
        }
        if !d.contains(ids.last()) {
            d.lemma_push_to_set_commute(ids.last());
            assert forall|a: int, b: int|
                0 <= a < b < d.push(ids.last()).len() implies d.push(ids.last())[a] != d.push(
                    ids.last(),
                )[b] by {
                if b == d.len() {
                    assert(d.push(ids.last())[a] == d[a]);
                }
            }
        } else {
            assert(d.to_set().contains(ids.last()));
            assert(d.to_set() =~= d.to_set().insert(ids.last()));
        }
    }
}

/// The decimal forms of `ids`, joined by commas.
pub fn join_ids(ids: &Vec<u64>) -> (r: String)
    ensures
        r@ == joined_decimals(ids@),
{
    let mut out = String::new();
    for k in 0..ids.len()
        invariant
            out@ == joined_decimals(ids@.take(k as int)),
    {
        let ghost before = ids@.take(k as int);
        assert(ids@.take(k + 1).drop_last() =~= before);
        if k > 0 {
            proof {
                reveal_strlit(",");
            }
            out.append(",");
        }
        push_decimal(&mut out, ids[k]);
        proof {
            if k == 0 {
                assert(out@ =~= decimal(ids@[0] as nat));
            } else {
                assert(out@ =~= joined_decimals(before) + seq![','] + decimal(ids@[k as int] as nat));
            }
        }
    }
    assert(ids@.take(ids.len() as int) =~= ids@);
    out
}

/// The repository scope of `repos` as the value of a query parameter: the
/// distinct ids in the order of their first occurrence, joined by commas.
pub fn scope_string(repos: &Vec<Repository>) -> (r: String)
    ensures
        r@ == joined_decimals(first_occurrences(repository_ids(repos@))),
{
    let ids = repository_scope(repos);
    join_ids(&ids)
}

} // verus!
