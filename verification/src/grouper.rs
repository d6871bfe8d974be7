//! The row grouper: trims the sheet's boilerplate and splits the data rows
//! into family groups — maximal runs of rows whose first cell is non-empty,
//! separated by blank-first-cell rows.

use vstd::prelude::*;

verus! {

broadcast use vstd::std_specs::vec::vec_clone_deep_view_proof;

/// Rows above this count carry data; at or below it the sheet is only
/// boilerplate.  Two header rows and three footer rows are trimmed.
pub open spec fn spec_min_rows() -> int {
    5
}

/// Whether a row separates two family groups: its first cell is empty, or
/// it has no cells at all.
pub open spec fn is_separator(row: Seq<Seq<char>>) -> bool {
    row.len() == 0 || row[0].len() == 0
}

/// Splits `rows` into maximal runs of non-separator rows, `cur` being the
/// run already open.  Separator rows are dropped; empty runs are discarded.
pub open spec fn split_rec(rows: Seq<Seq<Seq<char>>>, cur: Seq<Seq<Seq<char>>>) -> Seq<
    Seq<Seq<Seq<char>>>,
>
    decreases rows.len(),
{
    if rows.len() == 0 {
        if cur.len() == 0 {
            Seq::empty()
        } else {
            seq![cur]
        }
    } else if is_separator(rows.first()) {
        if cur.len() == 0 {
            split_rec(rows.drop_first(), cur)
        } else {
            seq![cur] + split_rec(rows.drop_first(), Seq::empty())
        }
    } else {
        split_rec(rows.drop_first(), cur.push(rows.first()))
    }
}

/// The family groups of a trimmed row sequence.
pub open spec fn split_groups(rows: Seq<Seq<Seq<char>>>) -> Seq<Seq<Seq<Seq<char>>>> {
    split_rec(rows, Seq::empty())
}

/// The grouper's outcome: the family groups, and whether the sheet had too
/// few rows to carry any data.  The latter is a condition to report, not a
/// fatal error: the build then runs on no groups and yields the roots-only
/// graph.
pub struct GroupOutcome {
    pub groups: Vec<Vec<Vec<String>>>,
    pub insufficient: bool,
}

/// Trims the fixed header and footer and splits the remaining rows into
/// family groups, preserving row order within and across groups.  A sheet
/// of at most [`spec_min_rows`] rows yields no groups and reports the
/// shortfall instead.
#[verifier::loop_isolation(false)]
pub fn group_rows(rows: &Vec<Vec<String>>) -> (r: GroupOutcome)
    ensures
        r.insufficient == (rows@.len() <= spec_min_rows()),
        rows@.len() <= spec_min_rows() ==> r.groups@.len() == 0,
        rows@.len() > spec_min_rows() ==> r.groups.deep_view() == split_groups(
            rows.deep_view().subrange(2, rows.deep_view().len() - 3),
        ),
{
    if rows.len() <= 5 {
        return GroupOutcome { groups: Vec::new(), insufficient: true };
    }
    let end: usize = rows.len() - 3;
    let ghost body = rows.deep_view().subrange(2, end as int);
    let mut groups: Vec<Vec<Vec<String>>> = Vec::new();
    let mut cur: Vec<Vec<String>> = Vec::new();
    proof {
        assert(groups.deep_view() =~= Seq::<Seq<Seq<Seq<char>>>>::empty());
        assert(cur.deep_view() =~= Seq::<Seq<Seq<char>>>::empty());
        assert(body.skip(0) =~= body);
    }
    for i in 2..end
        invariant
            2 <= i <= end,
            split_groups(body) == groups.deep_view() + split_rec(
                body.skip(i - 2),
                cur.deep_view(),
            ),
    {
        let ghost rest = body.skip(i - 2);
        proof {
            assert(rest.first() == rows.deep_view()[i as int]);
            assert(rows.deep_view()[i as int] == rows@[i as int].deep_view());
            assert(rest.drop_first() =~= body.skip(i - 2 + 1));
        }
        let row = &rows[i];
        let separator = row.len() == 0 || row[0].as_str().is_empty();
        if separator {
            if cur.len() > 0 {
                let ghost gprev = groups.deep_view();
                let ghost cprev = cur.deep_view();
                groups.push(cur);
                cur = Vec::new();
                proof {
                    assert(groups.deep_view() =~= gprev.push(cprev));
                    assert(cur.deep_view() =~= Seq::<Seq<Seq<char>>>::empty());
                    assert(gprev + (seq![cprev] + split_rec(rest.drop_first(), Seq::empty()))
                        =~= gprev.push(cprev) + split_rec(rest.drop_first(), Seq::empty()));
                }
            }
        } else {
            let ghost cprev = cur.deep_view();
            cur.push(row.clone());
            proof {
                assert(cur.deep_view() =~= cprev.push(rest.first()));
            }
        }
    }
    proof {
        assert(body.skip(end - 2) =~= Seq::<Seq<Seq<char>>>::empty());
    }
    if cur.len() > 0 {
        let ghost gprev = groups.deep_view();
        let ghost cprev = cur.deep_view();
        groups.push(cur);
        proof {
            assert(groups.deep_view() =~= gprev.push(cprev));
            assert(gprev + seq![cprev] =~= gprev.push(cprev));
        }
    } else {
        proof {
            assert(groups.deep_view() + Seq::<Seq<Seq<Seq<char>>>>::empty() =~= groups.deep_view());
        }
    }
    GroupOutcome { groups, insufficient: false }
}

} // verus!
