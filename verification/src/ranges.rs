//! Range expressions. A listing leaves an ordered candidate list behind;
//! an expression such as `0,2`, `1-3` or `*` picks indices out of it.
//! Terms are separated by commas; a term is a single index, a dash-joined
//! inclusive span, or the wildcard `*`.

use vstd::prelude::*;

use crate::errors::SelectionError;
use crate::strings::{
    all_dec_digits, dec_val, find_char, first_pos, parse_u64_digits, push_char, str_eq,
};

verus! {

/// The pieces of `s` between commas; empty pieces are kept.
pub open spec fn comma_split(s: Seq<char>) -> Seq<Seq<char>>
    decreases s.len(),
{
    if s.len() == 0 {
        seq![Seq::<char>::empty()]
    } else {
        let rest = comma_split(s.drop_first());
        if s[0] == ',' {
            seq![Seq::<char>::empty()] + rest
        } else {
            seq![seq![s[0]] + rest[0]] + rest.drop_first()
        }
    }
}

pub proof fn lemma_comma_split_nonempty(s: Seq<char>)
    ensures
        comma_split(s).len() > 0,
    decreases s.len(),
{
    if s.len() > 0 {
        lemma_comma_split_nonempty(s.drop_first());
    }
}

/// Split `s` at commas, keeping empty pieces.
pub fn split_commas(s: &str) -> (r: Vec<String>)
    ensures
        r.deep_view() == comma_split(s@),
    decreases s@.len(),
{
    let len = s.unicode_len();
    if len == 0 {
        let mut r: Vec<String> = Vec::new();
        r.push(String::new());
        proof {
            assert(r.deep_view() =~= comma_split(s@));
        }
        return r;
    }
    let c = s.get_char(0);
    let rest_str = s.substring_char(1, len);
    proof {
        assert(rest_str@ =~= s@.drop_first());
    }
    let mut rtoks = split_commas(rest_str);
    proof {
        lemma_comma_split_nonempty(s@.drop_first());
    }
    if c == ',' {
        rtoks.insert(0, String::new());
        proof {
            assert(rtoks.deep_view() =~= comma_split(s@));
        }
        rtoks
    } else {
        let first = rtoks.remove(0);
        let mut t = String::new();
        push_char(&mut t, c);
        t.append(first.as_str());
        rtoks.insert(0, t);
        proof {
            assert(t@ =~= seq![s@[0]] + comma_split(s@.drop_first())[0]);
            assert(rtoks.deep_view() =~= comma_split(s@));
        }
        rtoks
    }
}

/// The position of the first `-` in `t`, or `t.len()` when there is none.
pub open spec fn dash_pos(t: Seq<char>) -> int {
    first_pos(t, '-')
}

pub open spec fn is_index_str(t: Seq<char>) -> bool {
    t.len() > 0 && all_dec_digits(t)
}

/// Whether one term of a range expression is well-formed against a
/// candidate list of the given length.
pub open spec fn term_valid(t: Seq<char>, len: nat) -> bool {
    if t == seq!['*'] {
        true
    } else if dash_pos(t) == t.len() {
        is_index_str(t) && dec_val(t) < len
    } else {
        let a = t.take(dash_pos(t));
        let b = t.skip(dash_pos(t) + 1);
        is_index_str(a) && is_index_str(b) && dec_val(a) <= dec_val(b) < len
    }
}

/// Whether one term selects index `i`.
pub open spec fn term_selects(t: Seq<char>, i: int) -> bool {
    if t == seq!['*'] {
        true
    } else if dash_pos(t) == t.len() {
        i == dec_val(t)
    } else {
        dec_val(t.take(dash_pos(t))) <= i <= dec_val(t.skip(dash_pos(t) + 1))
    }
}

/// Whether one of the first `upto` terms of `expr` selects index `i`.
pub open spec fn any_term_selects(expr: Seq<char>, upto: int, i: int) -> bool {
    exists|k: int| 0 <= k < upto && term_selects(#[trigger] comma_split(expr)[k], i)
}

/// A range expression is valid against a candidate list when the list is
/// not empty and every term of the expression is well-formed.
pub open spec fn expr_valid(expr: Seq<char>, len: nat) -> bool {
    len > 0 && forall|k: int|
        0 <= k < comma_split(expr).len() ==> term_valid(#[trigger] comma_split(expr)[k], len)
}

/// Whether the whole expression selects index `i`.
pub open spec fn expr_selects(expr: Seq<char>, i: int) -> bool {
    any_term_selects(expr, comma_split(expr).len() as int, i)
}

/// The selected indices below `k`, in ascending order.
pub open spec fn selected_below(expr: Seq<char>, k: nat) -> Seq<int>
    decreases k,
{
    if k == 0 {
        Seq::empty()
    } else {
        selected_below(expr, (k - 1) as nat) + if expr_selects(expr, k - 1) {
            seq![(k - 1) as int]
        } else {
            Seq::<int>::empty()
        }
    }
}

/// What a valid expression resolves to: the indices it selects, ascending.
pub open spec fn range_indices(expr: Seq<char>, len: nat) -> Seq<int> {
    selected_below(expr, len)
}

pub proof fn lemma_selected_below_bounds(expr: Seq<char>, k: nat)
    ensures
        forall|j: int|
            0 <= j < selected_below(expr, k).len() ==> {
                &&& 0 <= #[trigger] selected_below(expr, k)[j] < k
                &&& expr_selects(expr, selected_below(expr, k)[j])
            },
    decreases k,
{
    if k > 0 {
        lemma_selected_below_bounds(expr, (k - 1) as nat);
        let prev = selected_below(expr, (k - 1) as nat);
        assert forall|j: int| 0 <= j < selected_below(expr, k).len() implies {
            &&& 0 <= #[trigger] selected_below(expr, k)[j] < k
            &&& expr_selects(expr, selected_below(expr, k)[j])
        } by {
            if j < prev.len() {
                assert(selected_below(expr, k)[j] == prev[j]);
            } else {
                assert(selected_below(expr, k)[j] == k - 1);
            }
        }
    }
}

/// The resolved indices come in strictly ascending order.
pub proof fn lemma_range_indices_ascending(expr: Seq<char>, len: nat)
    ensures
        forall|j1: int, j2: int|
            0 <= j1 < j2 < range_indices(expr, len).len() ==> #[trigger] range_indices(
                expr,
                len,
            )[j1] < #[trigger] range_indices(expr, len)[j2],
    decreases len,
{
    if len > 0 {
        lemma_range_indices_ascending(expr, (len - 1) as nat);
        lemma_selected_below_bounds(expr, (len - 1) as nat);
        let prev = selected_below(expr, (len - 1) as nat);
        assert forall|j1: int, j2: int|
            0 <= j1 < j2 < range_indices(expr, len).len() implies #[trigger] range_indices(
            expr,
            len,
        )[j1] < #[trigger] range_indices(expr, len)[j2] by {
            if j2 < prev.len() {
                assert(range_indices(expr, len)[j1] == prev[j1]);
                assert(range_indices(expr, len)[j2] == prev[j2]);
                assert(range_indices(expr, (len - 1) as nat)[j1] < range_indices(
                    expr,
                    (len - 1) as nat,
                )[j2]);
            } else {
                assert(range_indices(expr, len)[j2] == len - 1);
                assert(range_indices(expr, len)[j1] == prev[j1]);
                assert(prev[j1] < len - 1);
            }
        }
    }
}

/// The resolved indices are exactly those the expression selects.
pub proof fn lemma_range_indices_exact(expr: Seq<char>, len: nat, i: int)
    ensures
        range_indices(expr, len).contains(i) <==> (0 <= i < len && expr_selects(expr, i)),
    decreases len,
{
    lemma_selected_below_bounds(expr, len);
    if len > 0 {
        lemma_range_indices_exact(expr, (len - 1) as nat, i);
        if 0 <= i < len && expr_selects(expr, i) {
            if i == len - 1 {
                assert(range_indices(expr, len).last() == i);
                assert(range_indices(expr, len).contains(i));
            } else {
                let j = choose|j: int|
                    0 <= j < selected_below(expr, (len - 1) as nat).len()
                        && #[trigger] selected_below(expr, (len - 1) as nat)[j] == i;
                assert(range_indices(expr, len)[j] == i);
                assert(range_indices(expr, len).contains(i));
            }
        }
        if range_indices(expr, len).contains(i) {
            assert(0 <= i < len && expr_selects(expr, i));
        }
    }
}

/// Every valid term selects at least one index below `len`.
pub proof fn lemma_term_selects_witness(t: Seq<char>, len: nat)
    requires
        term_valid(t, len),
        len > 0,
    ensures
        exists|i: int| 0 <= i < len && #[trigger] term_selects(t, i),
{
    if t == seq!['*'] {
        assert(term_selects(t, 0));
    } else if dash_pos(t) == t.len() {
        assert(term_selects(t, dec_val(t) as int));
    } else {
        assert(term_selects(t, dec_val(t.take(dash_pos(t))) as int));
    }
}

/// A valid expression resolves to a non-empty range.
pub proof fn lemma_range_indices_nonempty(expr: Seq<char>, len: nat)
    requires
        expr_valid(expr, len),
    ensures
        range_indices(expr, len).len() > 0,
{
    lemma_comma_split_nonempty(expr);
    let t = comma_split(expr)[0];
    lemma_term_selects_witness(t, len);
    let i = choose|i: int| 0 <= i < len && #[trigger] term_selects(t, i);
    assert(expr_selects(expr, i));
    lemma_range_indices_exact(expr, len, i);
    assert(range_indices(expr, len).contains(i));
}

/// Resolving an expression is a pure function of the expression and the
/// candidate list: resolving twice against the same list yields the same
/// indices.
pub proof fn lemma_resolve_idempotent(expr: Seq<char>, len: nat)
    ensures
        range_indices(expr, len) == range_indices(expr, len),
{
}

/// Mark every index in `[lo, hi]` as selected.
fn mark_span(sel: &mut Vec<bool>, lo: usize, hi: usize)
    requires
        lo <= hi < old(sel).len(),
    ensures
        final(sel)@.len() == old(sel)@.len(),
        forall|i: int|
            0 <= i < old(sel)@.len() ==> final(sel)@[i] == (old(sel)@[i] || lo <= i <= hi),
{
    let mut j: usize = lo;
    loop
        invariant_except_break
            lo <= j <= hi,
            hi < sel@.len(),
            sel@.len() == old(sel)@.len(),
            forall|i: int|
                0 <= i < old(sel)@.len() ==> sel@[i] == (old(sel)@[i] || lo <= i < j),
        ensures
            sel@.len() == old(sel)@.len(),
            forall|i: int|
                0 <= i < old(sel)@.len() ==> sel@[i] == (old(sel)@[i] || lo <= i <= hi),
        decreases hi - j,
    {
        sel.set(j, true);
        if j == hi {
            break;
        }
        j += 1;
    }
}

/// Resolve a range expression against a candidate list of length `len`:
/// the selected indices in ascending order, or `InvalidRange` when the
/// list is empty or the expression is not valid against it.
pub fn resolve_indices(expr: &str, len: usize) -> (r: Result<Vec<usize>, SelectionError>)
    ensures
        match r {
            Ok(v) => {
                &&& expr_valid(expr@, len as nat)
                &&& v@.map_values(|u: usize| u as int) == range_indices(expr@, len as nat)
            },
            Err(e) => e is InvalidRange && !expr_valid(expr@, len as nat),
        },
{
    if len == 0 {
        return Err(SelectionError::InvalidRange);
    }
    let terms = split_commas(expr);
    let ghost split = comma_split(expr@);
    proof {
        assert(terms.deep_view().len() == split.len());
    }
    let mut sel: Vec<bool> = Vec::new();
    let mut f: usize = 0;
    while f < len
        invariant
            sel@.len() == f <= len,
            forall|i: int| 0 <= i < f ==> !(#[trigger] sel@[i]),
        decreases len - f,
    {
        sel.push(false);
        f += 1;
    }
    let mut k: usize = 0;
    while k < terms.len()
        invariant
            len > 0,
            terms.deep_view() == split,
            split == comma_split(expr@),
            0 <= k <= terms@.len(),
            sel@.len() == len,
            forall|j: int| 0 <= j < k ==> term_valid(#[trigger] split[j], len as nat),
            forall|i: int|
                0 <= i < len ==> #[trigger] sel@[i] == any_term_selects(expr@, k as int, i),
        decreases terms@.len() - k,
    {
        let t: &str = terms[k].as_str();
        proof {
            assert(t@ == split[k as int]);
        }
        let tlen = t.unicode_len();
        let dash = find_char(t, '-');
        let ghost pre_sel = sel@;
        if str_eq(t, "*") {
            proof {
                reveal_strlit("*");
                assert(t@ =~= seq!['*']);
                assert(term_valid(split[k as int], len as nat));
            }
            mark_span(&mut sel, 0, len - 1);
            proof {
                assert forall|i: int| 0 <= i < len implies #[trigger] sel@[i]
                    == any_term_selects(expr@, k + 1, i) by {
                    assert(term_selects(split[k as int], i));
                }
            }
        } else if dash == tlen {
            proof {
                reveal_strlit("*");
                assert("*"@ =~= seq!['*']);
            }
            let v = match parse_u64_digits(t) {
                Some(v) => v,
                None => {
                    proof {
                        assert(!term_valid(split[k as int], len as nat));
                    }
                    return Err(SelectionError::InvalidRange);
                },
            };
            if v >= len as u64 {
                proof {
                    assert(!term_valid(split[k as int], len as nat));
                }
                return Err(SelectionError::InvalidRange);
            }
            let vi = v as usize;
            mark_span(&mut sel, vi, vi);
            proof {
                assert(term_valid(split[k as int], len as nat));
                assert forall|i: int| 0 <= i < len implies #[trigger] sel@[i]
                    == any_term_selects(expr@, k + 1, i) by {
                    if i == vi {
                        assert(term_selects(split[k as int], i));
                    } else {
                        assert(!term_selects(split[k as int], i));
                    }
                }
            }
        } else {
            proof {
                reveal_strlit("*");
                assert("*"@ =~= seq!['*']);
            }
            let a = t.substring_char(0, dash);
            let b = t.substring_char(dash + 1, tlen);
            proof {
                assert(a@ =~= t@.take(dash_pos(t@)));
                assert(b@ =~= t@.skip(dash_pos(t@) + 1));
            }
            let va = match parse_u64_digits(a) {
                Some(v) => v,
                None => {
                    proof {
                        assert(!term_valid(split[k as int], len as nat));
                    }
                    return Err(SelectionError::InvalidRange);
                },
            };
            let vb = match parse_u64_digits(b) {
                Some(v) => v,
                None => {
                    proof {
                        assert(!term_valid(split[k as int], len as nat));
                    }
                    return Err(SelectionError::InvalidRange);
                },
            };
            if !(va <= vb && vb < len as u64) {
                proof {
                    assert(!term_valid(split[k as int], len as nat));
                }
                return Err(SelectionError::InvalidRange);
            }
            mark_span(&mut sel, va as usize, vb as usize);
            proof {
                assert(term_valid(split[k as int], len as nat));
                assert forall|i: int| 0 <= i < len implies #[trigger] sel@[i]
                    == any_term_selects(expr@, k + 1, i) by {
                    if va <= i <= vb {
                        assert(term_selects(split[k as int], i));
                    } else {
                        assert(!term_selects(split[k as int], i));
                    }
                }
            }
        }
        k += 1;
    }
    proof {
        assert forall|i: int| 0 <= i < len implies #[trigger] sel@[i] == expr_selects(
            expr@,
            i,
        ) by {
            assert(sel@[i] == any_term_selects(expr@, split.len() as int, i));
        }
        assert(expr_valid(expr@, len as nat));
    }
    let mut out: Vec<usize> = Vec::new();
    let mut i: usize = 0;
    while i < len
        invariant
            len > 0,
            sel@.len() == len,
            0 <= i <= len,
            forall|j: int| 0 <= j < len ==> #[trigger] sel@[j] == expr_selects(expr@, j),
            out@.map_values(|u: usize| u as int) =~= selected_below(expr@, i as nat),
        decreases len - i,
    {
        if sel[i] {
            out.push(i);
        }
        proof {
            assert(out@.map_values(|u: usize| u as int) =~= selected_below(expr@, (i + 1) as nat));
        }
        i += 1;
    }
    Ok(out)
}

} // verus!
