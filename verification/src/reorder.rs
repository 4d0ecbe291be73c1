//! The billing summary does not depend on the order of the charges.

use vstd::prelude::*;
use crate::billing::{
    BillingRecord, BreakdownKind, any_cash, group_filter, group_names, lemma_any_cash_push,
    record_tokens, tally, tally_positions,
};
use crate::billing::{
    BillingBreakdown, BillingSummary, lemma_names_distinct, listed_before, summarizes, today_filter,
    top_groups, window_filter,
};
use crate::dates::Timestamp;
use crate::ranking::{lemma_ranks_before_strict, lemma_ranks_before_transitive, ranks_before};

verus! {

/// Whether `p` maps each position of `rs2` to a distinct position of `rs`
/// holding the same charge.
pub open spec fn maps_into(rs2: Seq<BillingRecord>, rs: Seq<BillingRecord>, p: Seq<int>) -> bool {
    &&& rs2.len() == rs.len() == p.len()
    &&& forall|i: int| 0 <= i < p.len() ==> 0 <= #[trigger] p[i] < rs.len() && rs2[i] == rs[p[i]]
    &&& forall|i: int, j: int| 0 <= i < j < p.len() ==> p[i] != p[j]
}

/// The tokens a charge adds to a total that `keep` selects.
pub open spec fn share(r: BillingRecord, keep: spec_fn(BillingRecord) -> bool) -> int {
    if keep(r) {
        record_tokens(r)
    } else {
        0
    }
}

proof fn lemma_tally_remove(rs: Seq<BillingRecord>, keep: spec_fn(BillingRecord) -> bool, x: int)
    requires
        0 <= x < rs.len(),
    ensures
        tally(rs, keep) == tally(rs.remove(x), keep) + share(rs[x], keep),
    decreases rs.len(),
{
    if x == rs.len() - 1 {
        assert(rs.remove(x) =~= rs.drop_last());
    } else {
        lemma_tally_remove(rs.drop_last(), keep, x);
        assert(rs.remove(x).drop_last() =~= rs.drop_last().remove(x));
        assert(rs.remove(x).last() == rs.last());
    }
}

/// Reordering the charges keeps every total.
pub proof fn lemma_tally_reorder(
    rs2: Seq<BillingRecord>,
    rs: Seq<BillingRecord>,
    p: Seq<int>,
    keep: spec_fn(BillingRecord) -> bool,
)
    requires
        maps_into(rs2, rs, p),
    ensures
        tally(rs2, keep) == tally(rs, keep),
    decreases rs.len(),
{
    if rs.len() > 0 {
        let n = rs.len() as int;
        let x = p[n - 1];
        let rs1 = rs.remove(x);
        let p1 = Seq::new((n - 1) as nat, |i: int| if p[i] < x { p[i] } else { p[i] - 1 });
        let rs21 = rs2.drop_last();
        assert forall|i: int| 0 <= i < p1.len() implies 0 <= #[trigger] p1[i] < rs1.len() && rs21[i]
            == rs1[p1[i]] by {
            assert(p[i] != x);
            assert(rs2[i] == rs[p[i]]);
        }
        assert forall|i: int, j: int| 0 <= i < j < p1.len() implies p1[i] != p1[j] by {
            assert(p[i] != p[j]);
            assert(p[i] != x);
            assert(p[j] != x);
        }
        lemma_tally_reorder(rs21, rs1, p1, keep);
        lemma_tally_remove(rs, keep, x);
        assert(rs2.last() == rs[x]);
    }
}

/// Whether `p` reorders the charges `rs` and their cash flags `cash` into
/// `rs2` and `cash2`: every position of `rs` is reached exactly once.
pub open spec fn reorders(
    rs2: Seq<BillingRecord>,
    cash2: Seq<bool>,
    rs: Seq<BillingRecord>,
    cash: Seq<bool>,
    p: Seq<int>,
) -> bool {
    &&& maps_into(rs2, rs, p)
    &&& cash.len() == rs.len() && cash2.len() == rs2.len()
    &&& forall|i: int| 0 <= i < p.len() ==> cash2[i] == cash[#[trigger] p[i]]
    &&& forall|k: int| 0 <= k < rs.len() ==> #[trigger] reaches(p, k)
}

/// Whether some position maps to `k`.
pub open spec fn reaches(p: Seq<int>, k: int) -> bool {
    exists|i: int| 0 <= i < p.len() && #[trigger] p[i] == k
}

/// Whether `keep` selects some charge of `rs`.
pub open spec fn selects(rs: Seq<BillingRecord>, keep: spec_fn(BillingRecord) -> bool) -> bool {
    exists|i: int| 0 <= i < rs.len() && #[trigger] keep(rs[i])
}

/// Whether `keep` selects some charge of `rs` that carries cash.
pub open spec fn selects_cash(rs: Seq<BillingRecord>, cash: Seq<bool>, keep: spec_fn(BillingRecord) -> bool) -> bool {
    exists|i: int| 0 <= i < rs.len() && #[trigger] keep(rs[i]) && cash[i]
}

proof fn lemma_any_cash_selects(rs: Seq<BillingRecord>, cash: Seq<bool>, keep: spec_fn(BillingRecord) -> bool)
    requires
        rs.len() <= cash.len(),
        rs.len() <= usize::MAX,
    ensures
        any_cash(tally_positions(rs, keep), cash) == selects_cash(rs, cash, keep),
    decreases rs.len(),
{
    if rs.len() > 0 {
        let n = rs.len() as int;
        let prev = rs.drop_last();
        lemma_any_cash_selects(prev, cash, keep);
        if keep(rs[n - 1]) {
            lemma_any_cash_push(tally_positions(prev, keep), cash, (n - 1) as usize);
        }
        if selects_cash(prev, cash, keep) {
            let i = choose|i: int| 0 <= i < prev.len() && #[trigger] keep(prev[i]) && cash[i];
            assert(keep(rs[i]));
        }
        if selects_cash(rs, cash, keep) {
            let i = choose|i: int| 0 <= i < rs.len() && #[trigger] keep(rs[i]) && cash[i];
            if i < n - 1 {
                assert(keep(prev[i]));
            }
        }
    } else {
        assert(tally_positions(rs, keep) =~= Seq::<usize>::empty());
    }
}

proof fn lemma_names_select(rs: Seq<BillingRecord>, now: Timestamp, kind: BreakdownKind, g: Seq<char>)
    ensures
        group_names(rs, now, kind).contains(g) == selects(rs, group_filter(now, kind, g)),
    decreases rs.len(),
{
    let keep = group_filter(now, kind, g);
    if rs.len() > 0 {
        let n = rs.len() as int;
        let prev = rs.drop_last();
        lemma_names_select(prev, now, kind, g);
        let pn = group_names(prev, now, kind);
        let cur = group_names(rs, now, kind);
        if pn.contains(g) {
            let k = choose|k: int| 0 <= k < pn.len() && pn[k] == g;
            assert(cur[k] == g);
            let i = choose|i: int| 0 <= i < prev.len() && #[trigger] keep(prev[i]);
            assert(keep(rs[i]));
        }
        if keep(rs[n - 1]) && !pn.contains(g) {
            assert(cur[cur.len() - 1] == g);
        }
        if selects(rs, keep) && !keep(rs[n - 1]) {
            let i = choose|i: int| 0 <= i < rs.len() && #[trigger] keep(rs[i]);
            assert(keep(prev[i]));
        }
    }
}

proof fn lemma_selects_reorder(
    rs2: Seq<BillingRecord>,
    cash2: Seq<bool>,
    rs: Seq<BillingRecord>,
    cash: Seq<bool>,
    p: Seq<int>,
    keep: spec_fn(BillingRecord) -> bool,
)
    requires
        reorders(rs2, cash2, rs, cash, p),
    ensures
        selects(rs2, keep) == selects(rs, keep),
        selects_cash(rs2, cash2, keep) == selects_cash(rs, cash, keep),
{
    if selects(rs2, keep) {
        let i = choose|i: int| 0 <= i < rs2.len() && #[trigger] keep(rs2[i]);
        assert(keep(rs[p[i]]));
    }
    if selects(rs, keep) {
        let k = choose|k: int| 0 <= k < rs.len() && #[trigger] keep(rs[k]);
        assert(reaches(p, k));
        let i = choose|i: int| 0 <= i < p.len() && #[trigger] p[i] == k;
        assert(keep(rs2[i]));
    }
    if selects_cash(rs2, cash2, keep) {
        let i = choose|i: int| 0 <= i < rs2.len() && #[trigger] keep(rs2[i]) && cash2[i];
        assert(keep(rs[p[i]]) && cash[p[i]]);
    }
    if selects_cash(rs, cash, keep) {
        let k = choose|k: int| 0 <= k < rs.len() && #[trigger] keep(rs[k]) && cash[k];
        assert(reaches(p, k));
        let i = choose|i: int| 0 <= i < p.len() && #[trigger] p[i] == k;
        assert(keep(rs2[i]) && cash2[i]);
    }
}

/// When `topA` and `topB` agree before position `i` and differ at it, and
/// the name at `topA[i]` is a group of `rsB` with the same total, `topB`'s
/// entry at `i` ranks before it.
proof fn lemma_top_rival(
    top_a: Seq<BillingBreakdown>,
    rs_a: Seq<BillingRecord>,
    cash_a: Seq<bool>,
    top_b: Seq<BillingBreakdown>,
    rs_b: Seq<BillingRecord>,
    cash_b: Seq<bool>,
    now: Timestamp,
    kind: BreakdownKind,
    i: int,
)
    requires
        top_groups(top_a, rs_a, cash_a, now, kind),
        top_groups(top_b, rs_b, cash_b, now, kind),
        top_a.len() == top_b.len(),
        0 <= i < top_a.len(),
        forall|k: int| 0 <= k < i ==> top_a[k].name@ == top_b[k].name@,
        top_a[i].name@ != top_b[i].name@,
        group_names(rs_b, now, kind).contains(top_a[i].name@),
        tally(rs_b, group_filter(now, kind, top_a[i].name@)) == tally(
            rs_a,
            group_filter(now, kind, top_a[i].name@),
        ),
    ensures
        ranks_before(
            top_b[i].tokens as int,
            top_b[i].name@,
            top_a[i].tokens as int,
            top_a[i].name@,
        ),
{
    let a = top_a[i];
    let b = top_b[i];
    let n = top_b.len() as int;
    assert(a.tokens == tally(rs_a, group_filter(now, kind, a.name@)));
    if exists|k: int| 0 <= k < n && #[trigger] top_b[k].name@ == a.name@ {
        let k = choose|k: int| 0 <= k < n && #[trigger] top_b[k].name@ == a.name@;
        assert(top_b[k].tokens == tally(rs_b, group_filter(now, kind, top_b[k].name@)));
        if k < i {
            assert(top_a[k].name@ == a.name@);
            assert(top_a[k].tokens == tally(rs_a, group_filter(now, kind, top_a[k].name@)));
            assert(listed_before(top_a[k], top_a[i]));
            lemma_ranks_before_strict(a.tokens as int, a.name@, a.tokens as int, a.name@);
        }
        assert(k != i);
        assert(listed_before(top_b[i], top_b[k]));
    } else {
        let last = top_b[n - 1];
        assert(ranks_before(
            last.tokens as int,
            last.name@,
            tally(rs_b, group_filter(now, kind, a.name@)),
            a.name@,
        ));
        if i < n - 1 {
            assert(listed_before(b, last));
            lemma_ranks_before_transitive(
                b.tokens as int,
                b.name@,
                last.tokens as int,
                last.name@,
                a.tokens as int,
                a.name@,
            );
        }
    }
}

/// Whether two lists of breakdowns agree entry by entry in name, tokens
/// and whether they carry cash.
pub open spec fn same_ranking(a: Seq<BillingBreakdown>, b: Seq<BillingBreakdown>) -> bool {
    &&& a.len() == b.len()
    &&& forall|i: int|
        0 <= i < a.len() ==> #[trigger] a[i].name@ == b[i].name@ && a[i].tokens == b[i].tokens
            && a[i].has_cash == b[i].has_cash
}

proof fn lemma_same_names_upto(
    top1: Seq<BillingBreakdown>,
    rs: Seq<BillingRecord>,
    cash: Seq<bool>,
    top2: Seq<BillingBreakdown>,
    rs2: Seq<BillingRecord>,
    cash2: Seq<bool>,
    now: Timestamp,
    kind: BreakdownKind,
    i: int,
)
    requires
        top_groups(top1, rs, cash, now, kind),
        top_groups(top2, rs2, cash2, now, kind),
        top1.len() == top2.len(),
        0 <= i <= top1.len(),
        forall|g: Seq<char>|
            #![trigger group_names(rs, now, kind).contains(g)]
            #![trigger group_names(rs2, now, kind).contains(g)]
            group_names(rs, now, kind).contains(g) == group_names(rs2, now, kind).contains(g),
        forall|g: Seq<char>|
            #![trigger tally(rs, group_filter(now, kind, g))]
            #![trigger tally(rs2, group_filter(now, kind, g))]
            tally(rs, group_filter(now, kind, g)) == tally(rs2, group_filter(now, kind, g)),
    ensures
        forall|k: int| 0 <= k < i ==> top1[k].name@ == top2[k].name@,
    decreases i,
{
    if i > 0 {
        lemma_same_names_upto(top1, rs, cash, top2, rs2, cash2, now, kind, i - 1);
        let j = i - 1;
        if top1[j].name@ != top2[j].name@ {
            let n1 = top1[j].name@;
            let n2 = top2[j].name@;
            assert(group_names(rs, now, kind).contains(n1));
            assert(group_names(rs2, now, kind).contains(n2));
            assert(tally(rs, group_filter(now, kind, n1)) == tally(rs2, group_filter(now, kind, n1)));
            assert(tally(rs, group_filter(now, kind, n2)) == tally(rs2, group_filter(now, kind, n2)));
            lemma_top_rival(top1, rs, cash, top2, rs2, cash2, now, kind, j);
            lemma_top_rival(top2, rs2, cash2, top1, rs, cash, now, kind, j);
            lemma_ranks_before_strict(
                top1[j].tokens as int,
                n1,
                top2[j].tokens as int,
                n2,
            );
        }
    }
}

/// The top groups of reordered charges agree with those of the charges.
proof fn lemma_same_top(
    top1: Seq<BillingBreakdown>,
    rs: Seq<BillingRecord>,
    cash: Seq<bool>,
    top2: Seq<BillingBreakdown>,
    rs2: Seq<BillingRecord>,
    cash2: Seq<bool>,
    p: Seq<int>,
    now: Timestamp,
    kind: BreakdownKind,
)
    requires
        rs.len() <= usize::MAX,
        reorders(rs2, cash2, rs, cash, p),
        top_groups(top1, rs, cash, now, kind),
        top_groups(top2, rs2, cash2, now, kind),
    ensures
        same_ranking(top1, top2),
{
    let names1 = group_names(rs, now, kind);
    let names2 = group_names(rs2, now, kind);
    assert forall|g: Seq<char>| #![auto] names1.contains(g) == names2.contains(g) by {
        lemma_names_select(rs, now, kind, g);
        lemma_names_select(rs2, now, kind, g);
        lemma_selects_reorder(rs2, cash2, rs, cash, p, group_filter(now, kind, g));
    }
    assert forall|g: Seq<char>| #![auto]
        tally(rs, group_filter(now, kind, g)) == tally(rs2, group_filter(now, kind, g)) by {
        lemma_tally_reorder(rs2, rs, p, group_filter(now, kind, g));
    }
    lemma_names_distinct(rs, now, kind);
    lemma_names_distinct(rs2, now, kind);
    names1.unique_seq_to_set();
    names2.unique_seq_to_set();
    assert(names1.to_set() =~= names2.to_set());
    assert(top1.len() == top2.len());
    lemma_same_names_upto(top1, rs, cash, top2, rs2, cash2, now, kind, top1.len() as int);
    assert forall|i: int| 0 <= i < top1.len() implies #[trigger] top1[i].name@ == top2[i].name@
        && top1[i].tokens == top2[i].tokens && top1[i].has_cash == top2[i].has_cash by {
        let g = top1[i].name@;
        let keep = group_filter(now, kind, g);
        assert(top1[i].name@ == top2[i].name@);
        assert(names1.contains(top1[i].name@));
        assert(names2.contains(top2[i].name@));
        lemma_any_cash_selects(rs, cash, keep);
        lemma_any_cash_selects(rs2, cash2, keep);
        lemma_selects_reorder(rs2, cash2, rs, cash, p, keep);
    }
}

/// The summary of the billing history does not depend on the order of the
/// charges: reordering them, each with its cash flag, leaves the token
/// totals, whether cash was spent, and the top methods and models (name,
/// tokens and whether they carry cash, position by position) unchanged.
pub proof fn law_summary_ignores_order(
    rs: Seq<BillingRecord>,
    cash: Seq<bool>,
    rs2: Seq<BillingRecord>,
    cash2: Seq<bool>,
    p: Seq<int>,
    now: Timestamp,
    s1: BillingSummary,
    s2: BillingSummary,
)
    requires
        rs.len() <= usize::MAX,
        reorders(rs2, cash2, rs, cash, p),
        summarizes(s1, rs, cash, now),
        summarizes(s2, rs2, cash2, now),
    ensures
        s2.today_tokens == s1.today_tokens,
        s2.last_30_days_tokens == s1.last_30_days_tokens,
        s2.today_has_cash == s1.today_has_cash,
        s2.last_30_days_has_cash == s1.last_30_days_has_cash,
        same_ranking(s1.top_methods@, s2.top_methods@),
        same_ranking(s1.top_models@, s2.top_models@),
{
    lemma_tally_reorder(rs2, rs, p, today_filter(now));
    lemma_tally_reorder(rs2, rs, p, window_filter(now));
    lemma_any_cash_selects(rs, cash, today_filter(now));
    lemma_any_cash_selects(rs2, cash2, today_filter(now));
    lemma_selects_reorder(rs2, cash2, rs, cash, p, today_filter(now));
    lemma_any_cash_selects(rs, cash, window_filter(now));
    lemma_any_cash_selects(rs2, cash2, window_filter(now));
    lemma_selects_reorder(rs2, cash2, rs, cash, p, window_filter(now));
    lemma_same_top(s1.top_methods@, rs, cash, s2.top_methods@, rs2, cash2, p, now, BreakdownKind::Method);
    lemma_same_top(s1.top_models@, rs, cash, s2.top_models@, rs2, cash2, p, now, BreakdownKind::Model);
}

} // verus!
