//! Choosing which unspent outputs fund a transaction.
use vstd::prelude::*;
use crate::types::{Utxo, WalletError};

verus! {

/// The largest value among `utxos`, or 0 for none.
pub open spec fn max_value(utxos: Seq<Utxo>) -> int
    decreases utxos.len(),
{
    if utxos.len() == 0 {
        0
    } else {
        let m = max_value(utxos.drop_last());
        let v = utxos.last().value as int;
        if v > m { v } else { m }
    }
}

pub proof fn lemma_max_value(utxos: Seq<Utxo>)
    ensures
        forall|j: int| 0 <= j < utxos.len() ==> utxos[j].value <= max_value(utxos),
        utxos.len() > 0 ==> exists|j: int| 0 <= j < utxos.len() && utxos[j].value == max_value(utxos),
        0 <= max_value(utxos) <= u64::MAX,
    decreases utxos.len(),
{
    if utxos.len() > 0 {
        let init = utxos.drop_last();
        lemma_max_value(init);
        assert forall|j: int| 0 <= j < init.len() implies utxos[j] == init[j] by {}
        if init.len() > 0 && max_value(init) >= utxos.last().value {
            let j = choose|j: int| 0 <= j < init.len() && init[j].value == max_value(init);
            assert(utxos[j].value == max_value(utxos));
        } else {
            assert(utxos[utxos.len() - 1].value == max_value(utxos));
        }
    }
}

/// `i` is the smallest output of `utxos` whose value reaches `target`,
/// the earliest one among equals.
pub open spec fn is_smallest_sufficient(utxos: Seq<Utxo>, target: int, i: int) -> bool {
    &&& 0 <= i < utxos.len()
    &&& utxos[i].value >= target
    &&& forall|j: int|
        0 <= j < utxos.len() && utxos[j].value >= target ==> utxos[i].value < utxos[j].value
            || (utxos[i].value == utxos[j].value && i <= j)
}

/// Picks exactly one output whose value covers `amount + fee`: the smallest
/// such output, the earliest among equals. Without one, reports how far the
/// largest output falls short.
pub fn select_one_utxo(utxos: &Vec<Utxo>, amount: u64, fee: u64) -> (r: Result<Vec<Utxo>, WalletError>)
    ensures
        match r {
            Ok(sel) => sel@.len() == 1 && exists|i: int|
                #[trigger] is_smallest_sufficient(utxos@, amount + fee, i) && sel@[0] == utxos@[i],
            Err(e) => e == WalletError::InsufficientFunds {
                shortfall: (amount + fee - max_value(utxos@)) as u128,
            },
        },
        r is Err <==> forall|j: int| 0 <= j < utxos@.len() ==> utxos@[j].value < amount + fee,
{
    let target: u128 = amount as u128 + fee as u128;
    let n = utxos.len();
    let mut best: usize = n;
    let mut max: u64 = 0;
    let mut k: usize = 0;
    while k < n
        invariant
            k <= n == utxos@.len(),
            target == amount + fee,
            max == max_value(utxos@.take(k as int)),
            best == n || (best < k && is_smallest_sufficient(utxos@.take(k as int), target as int, best as int)),
            best == n <==> forall|j: int| 0 <= j < k ==> utxos@[j].value < target,
        decreases n - k,
    {
        let v = utxos[k].value;
        assert(utxos@.take(k + 1).drop_last() == utxos@.take(k as int));
        if v > max {
            max = v;
        }
        if v as u128 >= target && (best == n || v < utxos[best].value) {
            best = k;
        }
        k += 1;
    }
    assert(utxos@.take(n as int) == utxos@);
    if best == n {
        proof { lemma_max_value(utxos@); }
        Err(WalletError::InsufficientFunds { shortfall: target - max as u128 })
    } else {
        let mut sel: Vec<Utxo> = Vec::new();
        sel.push(utxos[best]);
        Ok(sel)
    }
}

/// Sum of the values of `utxos`, in satoshis.
pub open spec fn total_value(utxos: Seq<Utxo>) -> int
    decreases utxos.len(),
{
    if utxos.len() == 0 {
        0
    } else {
        total_value(utxos.drop_last()) + utxos.last().value
    }
}

/// Sum of the values of the outputs among the first `k` of `utxos` that
/// are not marked in `taken`.
pub open spec fn untaken_sum(utxos: Seq<Utxo>, taken: Seq<bool>, k: int) -> int
    decreases k,
{
    if k <= 0 {
        0
    } else {
        untaken_sum(utxos, taken, k - 1) + if taken[k - 1] { 0 } else { utxos[k - 1].value as int }
    }
}

/// `x` comes before `y` in byte-wise lexicographic order.
pub open spec fn bytes_before(x: Seq<u8>, y: Seq<u8>) -> bool
    decreases x.len(),
{
    if x.len() == 0 || y.len() == 0 {
        false
    } else {
        x[0] < y[0] || (x[0] == y[0] && bytes_before(x.drop_first(), y.drop_first()))
    }
}

/// Outpoint order: transaction id byte by byte, then output index.
pub open spec fn outpoint_before(a: Utxo, b: Utxo) -> bool {
    bytes_before(a.txid@, b.txid@) || (a.txid@ == b.txid@ && a.vout < b.vout)
}

/// Output `a` comes before output `b` in greedy order: larger value first,
/// then earlier outpoint, then (for a repeated outpoint) lower position.
pub open spec fn ranks_before(utxos: Seq<Utxo>, a: int, b: int) -> bool {
    ||| utxos[a].value > utxos[b].value
    ||| utxos[a].value == utxos[b].value && outpoint_before(utxos[a], utxos[b])
    ||| utxos[a].value == utxos[b].value && utxos[a].txid@ == utxos[b].txid@ && utxos[a].vout == utxos[b].vout && a < b
}

proof fn lemma_bytes_order(x: Seq<u8>, y: Seq<u8>, z: Seq<u8>)
    requires
        x.len() == y.len() == z.len(),
    ensures
        bytes_before(x, y) ==> !bytes_before(y, x),
        bytes_before(x, y) || bytes_before(y, x) || x == y,
        bytes_before(x, y) && bytes_before(y, z) ==> bytes_before(x, z),
    decreases x.len(),
{
    if x.len() > 0 {
        lemma_bytes_order(x.drop_first(), y.drop_first(), z.drop_first());
        if x.drop_first() == y.drop_first() && x[0] == y[0] {
            assert forall|k: int| 0 <= k < x.len() implies x[k] == y[k] by {
                if k > 0 {
                    assert(x[k] == x.drop_first()[k - 1]);
                    assert(y[k] == y.drop_first()[k - 1]);
                }
            }
            assert(x =~= y);
        }
    } else {
        assert(x =~= y);
    }
}

/// Greedy order is a strict total order on positions.
proof fn lemma_ranks_order(utxos: Seq<Utxo>, a: int, b: int, c: int)
    requires
        0 <= a < utxos.len(),
        0 <= b < utxos.len(),
        0 <= c < utxos.len(),
    ensures
        ranks_before(utxos, a, b) ==> !ranks_before(utxos, b, a),
        a != b ==> ranks_before(utxos, a, b) || ranks_before(utxos, b, a),
        ranks_before(utxos, a, b) && ranks_before(utxos, b, c) ==> ranks_before(utxos, a, c),
{
    lemma_bytes_order(utxos[a].txid@, utxos[b].txid@, utxos[c].txid@);
    lemma_bytes_order(utxos[b].txid@, utxos[a].txid@, utxos[c].txid@);
    lemma_bytes_order(utxos[a].txid@, utxos[c].txid@, utxos[b].txid@);
}

proof fn lemma_bytes_before_skip(x: Seq<u8>, y: Seq<u8>, i: int)
    requires
        x.len() == y.len(),
        0 <= i <= x.len(),
        forall|k: int| 0 <= k < i ==> x[k] == y[k],
    ensures
        bytes_before(x, y) == bytes_before(x.skip(i), y.skip(i)),
    decreases i,
{
    if i > 0 {
        lemma_bytes_before_skip(x, y, i - 1);
        assert(x.skip(i - 1).drop_first() =~= x.skip(i));
        assert(y.skip(i - 1).drop_first() =~= y.skip(i));
    } else {
        assert(x.skip(0) =~= x);
        assert(y.skip(0) =~= y);
    }
}

/// Whether `a`'s outpoint comes before `b`'s.
pub fn outpoint_less(a: &Utxo, b: &Utxo) -> (r: bool)
    ensures
        r == outpoint_before(*a, *b),
{
    let mut i: usize = 0;
    while i < 32
        invariant
            i <= 32,
            forall|k: int| 0 <= k < i ==> a.txid@[k] == b.txid@[k],
        decreases 32 - i,
    {
        if a.txid[i] != b.txid[i] {
            proof {
                lemma_bytes_before_skip(a.txid@, b.txid@, i as int);
                let (xs, ys) = (a.txid@.skip(i as int), b.txid@.skip(i as int));
                assert(xs[0] == a.txid@[i as int] && ys[0] == b.txid@[i as int]);
                assert(a.txid@ != b.txid@);
                lemma_bytes_order(a.txid@, b.txid@, b.txid@);
            }
            return a.txid[i] < b.txid[i];
        }
        i += 1;
    }
    proof {
        assert(a.txid@ =~= b.txid@);
        lemma_bytes_order(a.txid@, b.txid@, b.txid@);
    }
    a.vout < b.vout
}

/// `sel` is what greedy selection picks from `utxos` for `target`: the
/// outputs at the distinct positions `picks`, taken in greedy order, each
/// ranking before every output left out, stopping as soon as the running
/// sum reaches `target`.
pub open spec fn is_greedy_selection(utxos: Seq<Utxo>, target: int, picks: Seq<usize>, sel: Seq<Utxo>) -> bool {
    &&& picks.len() == sel.len()
    &&& forall|k: int| 0 <= k < picks.len() ==> #[trigger] picks[k] < utxos.len()
    &&& forall|k: int| 0 <= k < picks.len() ==> #[trigger] sel[k] == utxos[picks[k] as int]
    &&& forall|a: int, b: int| 0 <= a < b < picks.len() ==> ranks_before(utxos, picks[a] as int, picks[b] as int)
    &&& forall|k: int, j: int|
        0 <= k < picks.len() && 0 <= j < utxos.len() && !picks.contains(j as usize)
            ==> ranks_before(utxos, picks[k] as int, j)
    &&& total_value(sel) >= target
    &&& sel.len() > 0 ==> total_value(sel.drop_last()) < target
}

/// Some choice of positions makes `sel` the greedy selection from `utxos`.
pub open spec fn greedy_selects(utxos: Seq<Utxo>, target: int, sel: Seq<Utxo>) -> bool {
    exists|picks: Seq<usize>| #[trigger] is_greedy_selection(utxos, target, picks, sel)
}

proof fn lemma_total_bounds(utxos: Seq<Utxo>)
    ensures
        0 <= total_value(utxos) <= utxos.len() * (u64::MAX as int),
    decreases utxos.len(),
{
    if utxos.len() > 0 {
        lemma_total_bounds(utxos.drop_last());
        assert((utxos.len() - 1) * (u64::MAX as int) + u64::MAX == utxos.len() * (u64::MAX as int))
            by (nonlinear_arith);
    }
}

proof fn lemma_untaken_none(utxos: Seq<Utxo>, taken: Seq<bool>, k: int)
    requires
        0 <= k <= utxos.len(),
        k <= taken.len(),
        forall|j: int| 0 <= j < k ==> !taken[j],
    ensures
        untaken_sum(utxos, taken, k) == total_value(utxos.take(k)),
    decreases k,
{
    if k > 0 {
        lemma_untaken_none(utxos, taken, k - 1);
        assert(utxos.take(k).drop_last() == utxos.take(k - 1));
    }
}

proof fn lemma_untaken_take(utxos: Seq<Utxo>, taken: Seq<bool>, b: int, k: int)
    requires
        0 <= b < k <= taken.len(),
        k <= utxos.len(),
        !taken[b],
    ensures
        untaken_sum(utxos, taken.update(b, true), k) == untaken_sum(utxos, taken, k) - utxos[b].value,
    decreases k,
{
    if k - 1 > b {
        lemma_untaken_take(utxos, taken, b, k - 1);
    } else {
        lemma_untaken_same(utxos, taken, taken.update(b, true), k - 1);
    }
}

proof fn lemma_untaken_same(utxos: Seq<Utxo>, t1: Seq<bool>, t2: Seq<bool>, k: int)
    requires
        0 <= k,
        k <= t1.len(),
        k <= t2.len(),
        forall|j: int| 0 <= j < k ==> t1[j] == t2[j],
    ensures
        untaken_sum(utxos, t1, k) == untaken_sum(utxos, t2, k),
    decreases k,
{
    if k > 0 {
        lemma_untaken_same(utxos, t1, t2, k - 1);
    }
}

proof fn lemma_untaken_positive(utxos: Seq<Utxo>, taken: Seq<bool>, k: int)
    requires
        0 <= k <= taken.len(),
        k <= utxos.len(),
    ensures
        untaken_sum(utxos, taken, k) >= 0,
        untaken_sum(utxos, taken, k) > 0 ==> exists|j: int| 0 <= j < k && !taken[j] && utxos[j].value > 0,
    decreases k,
{
    if k > 0 {
        lemma_untaken_positive(utxos, taken, k - 1);
    }
}

/// Sum of the values of `utxos`.
pub fn sum_values(utxos: &Vec<Utxo>) -> (r: u128)
    ensures
        r == total_value(utxos@),
{
    let n = utxos.len();
    let mut total: u128 = 0;
    let mut k: usize = 0;
    while k < n
        invariant
            k <= n == utxos@.len(),
            total == total_value(utxos@.take(k as int)),
        decreases n - k,
    {
        proof {
            assert(utxos@.take(k + 1).drop_last() == utxos@.take(k as int));
            lemma_total_bounds(utxos@.take(k + 1));
            assert((k + 1) * (u64::MAX as int) <= usize::MAX * (u64::MAX as int)) by (nonlinear_arith)
                requires k + 1 <= usize::MAX;
        }
        total = total + utxos[k].value as u128;
        k += 1;
    }
    assert(utxos@.take(n as int) == utxos@);
    total
}

/// `r` is the outcome of greedy selection from `utxos` for `amount + fee`.
pub open spec fn greedy_outcome(utxos: Seq<Utxo>, amount: u64, fee: u64, r: Result<Vec<Utxo>, WalletError>) -> bool {
    &&& match r {
        Ok(sel) => greedy_selects(utxos, amount + fee, sel@),
        Err(e) => e == WalletError::InsufficientFunds { shortfall: (amount + fee - total_value(utxos)) as u128 },
    }
    &&& (r is Err <==> total_value(utxos) < amount + fee)
}

/// Greedy selection is sufficient: when the outputs together cover
/// `amount + fee`, it returns outputs of the set whose values reach that
/// sum; when they do not, it fails and reports exactly the shortfall.
pub proof fn lemma_selector_sufficiency(utxos: Seq<Utxo>, amount: u64, fee: u64, r: Result<Vec<Utxo>, WalletError>)
    requires
        greedy_outcome(utxos, amount, fee, r),
    ensures
        total_value(utxos) >= amount + fee ==> (r matches Ok(sel) && total_value(sel@) >= amount + fee
            && forall|k: int| 0 <= k < sel@.len() ==> utxos.contains(#[trigger] sel@[k])),
        total_value(utxos) < amount + fee ==> r == Err::<Vec<Utxo>, WalletError>(
            WalletError::InsufficientFunds { shortfall: (amount + fee - total_value(utxos)) as u128 }),
{
    if let Ok(sel) = r {
        let picks = choose|picks: Seq<usize>| #[trigger] is_greedy_selection(utxos, amount + fee, picks, sel@);
        assert forall|k: int| 0 <= k < sel@.len() implies utxos.contains(#[trigger] sel@[k]) by {
            assert(utxos[picks[k] as int] == sel@[k]);
        }
    }
}

proof fn lemma_total_prefix(s: Seq<Utxo>, i: int, j: int)
    requires
        0 <= i <= j <= s.len(),
    ensures
        total_value(s.take(i)) <= total_value(s.take(j)),
    decreases j - i,
{
    if i < j {
        lemma_total_prefix(s, i, j - 1);
        assert(s.take(j).drop_last() == s.take(j - 1));
    }
}

proof fn lemma_greedy_same_prefix(utxos: Seq<Utxo>, target: int, p: Seq<usize>, s1: Seq<Utxo>, q: Seq<usize>, s2: Seq<Utxo>, k: int)
    requires
        is_greedy_selection(utxos, target, p, s1),
        is_greedy_selection(utxos, target, q, s2),
        0 <= k <= p.len(),
        k <= q.len(),
    ensures
        forall|j: int| 0 <= j < k ==> p[j] == q[j],
    decreases k,
{
    if k > 0 {
        lemma_greedy_same_prefix(utxos, target, p, s1, q, s2, k - 1);
        let (a, b) = (p[k - 1], q[k - 1]);
        if a != b {
            lemma_ranks_order(utxos, a as int, b as int, a as int);
            lemma_ranks_order(utxos, a as int, a as int, a as int);
            lemma_ranks_order(utxos, b as int, b as int, b as int);
            // Each of the two ranks before the other.
            if p.contains(b) {
                let m = choose|m: int| 0 <= m < p.len() && p[m] == b;
                if m < k - 1 {
                    assert(q[m] == b);
                    assert(ranks_before(utxos, q[m] as int, q[k - 1] as int));
                }
                assert(m != k - 1);
                assert(ranks_before(utxos, a as int, b as int));
            } else {
                assert(q[k - 1] < utxos.len());
                assert(!p.contains((b as int) as usize));
                assert(ranks_before(utxos, p[k - 1] as int, b as int));
            }
            if q.contains(a) {
                let m = choose|m: int| 0 <= m < q.len() && q[m] == a;
                if m < k - 1 {
                    assert(p[m] == a);
                    assert(ranks_before(utxos, p[m] as int, p[k - 1] as int));
                }
                assert(m != k - 1);
                assert(ranks_before(utxos, b as int, a as int));
            } else {
                assert(p[k - 1] < utxos.len());
                assert(!q.contains((a as int) as usize));
                assert(ranks_before(utxos, q[k - 1] as int, a as int));
            }
        }
    }
}

proof fn lemma_greedy_shorter(utxos: Seq<Utxo>, target: int, p: Seq<usize>, s1: Seq<Utxo>, q: Seq<usize>, s2: Seq<Utxo>)
    requires
        is_greedy_selection(utxos, target, p, s1),
        is_greedy_selection(utxos, target, q, s2),
    ensures
        p.len() >= q.len(),
{
    if p.len() >= q.len() {
        return;
    }
    lemma_greedy_same_prefix(utxos, target, p, s1, q, s2, p.len() as int);
    assert(s1 == s2.take(p.len() as int));
    lemma_total_prefix(s2, p.len() as int, q.len() - 1);
    assert(s2.take(q.len() - 1) == s2.drop_last());
}

/// Greedy selection is deterministic: for given outputs and target, only
/// one selection meets its description.
pub proof fn lemma_greedy_unique(utxos: Seq<Utxo>, target: int, s1: Seq<Utxo>, s2: Seq<Utxo>)
    requires
        greedy_selects(utxos, target, s1),
        greedy_selects(utxos, target, s2),
    ensures
        s1 == s2,
{
    let p = choose|p: Seq<usize>| #[trigger] is_greedy_selection(utxos, target, p, s1);
    let q = choose|q: Seq<usize>| #[trigger] is_greedy_selection(utxos, target, q, s2);
    lemma_greedy_shorter(utxos, target, p, s1, q, s2);
    lemma_greedy_shorter(utxos, target, q, s2, p, s1);
    lemma_greedy_same_prefix(utxos, target, p, s1, q, s2, p.len() as int);
    assert forall|k: int| 0 <= k < s1.len() implies s1[k] == s2[k] by {
        assert(p[k] == q[k]);
    }
    assert(s1 =~= s2);
}

/// Picking a single output is deterministic: at most one position is the
/// smallest sufficient one.
pub proof fn lemma_smallest_sufficient_unique(utxos: Seq<Utxo>, target: int, i: int, j: int)
    requires
        is_smallest_sufficient(utxos, target, i),
        is_smallest_sufficient(utxos, target, j),
    ensures
        i == j,
{
}

/// Greedy selection: outputs in descending order of value (earliest
/// outpoint first among equals) are taken until their sum reaches
/// `amount + fee`. Fails with the shortfall when all outputs together fall
/// short.
pub fn select_utxos_greedy(utxos: &Vec<Utxo>, amount: u64, fee: u64) -> (r: Result<Vec<Utxo>, WalletError>)
    ensures
        greedy_outcome(utxos@, amount, fee, r),
{
    let target: u128 = amount as u128 + fee as u128;
    let n = utxos.len();
    let total = sum_values(utxos);
    if total < target {
        return Err(WalletError::InsufficientFunds { shortfall: target - total });
    }
    let mut taken: Vec<bool> = Vec::new();
    let mut k: usize = 0;
    while k < n
        invariant
            k <= n == utxos@.len(),
            taken@.len() == k,
            forall|j: int| 0 <= j < k ==> !taken@[j],
        decreases n - k,
    {
        taken.push(false);
        k += 1;
    }
    proof {
        lemma_untaken_none(utxos@, taken@, n as int);
        assert(utxos@.take(n as int) == utxos@);
    }
    let mut picks: Vec<usize> = Vec::new();
    let mut sel: Vec<Utxo> = Vec::new();
    let mut acc: u128 = 0;
    while acc < target
        invariant
            n == utxos@.len() == taken@.len(),
            target == amount + fee,
            total == total_value(utxos@) >= target,
            picks@.len() == sel@.len(),
            forall|k: int| 0 <= k < picks@.len() ==> #[trigger] picks@[k] < n,
            forall|k: int| 0 <= k < picks@.len() ==> #[trigger] sel@[k] == utxos@[picks@[k] as int],
            forall|j: int| 0 <= j < n ==> (taken@[j] <==> picks@.contains(j as usize)),
            forall|a: int, b: int| 0 <= a < b < picks@.len() ==> ranks_before(utxos@, picks@[a] as int, picks@[b] as int),
            forall|k: int, j: int|
                0 <= k < picks@.len() && 0 <= j < n && !taken@[j] ==> ranks_before(utxos@, picks@[k] as int, j),
            acc == total_value(sel@),
            acc + untaken_sum(utxos@, taken@, n as int) == total,
            sel@.len() > 0 ==> total_value(sel@.drop_last()) < target,
        decreases untaken_sum(utxos@, taken@, n as int),
    {
        proof { lemma_untaken_positive(utxos@, taken@, n as int); }
        let mut best: usize = n;
        let mut j: usize = 0;
        while j < n
            invariant
                j <= n == utxos@.len() == taken@.len(),
                best == n || (best < j && !taken@[best as int] && forall|i: int|
                    0 <= i < j && !taken@[i] && i != best ==> ranks_before(utxos@, best as int, i)),
                best == n ==> forall|i: int| 0 <= i < j ==> taken@[i],
            decreases n - j,
        {
            let ghost prev = best;
            if !taken[j] && (best == n || utxos[j].value > utxos[best].value
                || (utxos[j].value == utxos[best].value && outpoint_less(&utxos[j], &utxos[best]))) {
                best = j;
            }
            proof {
                if prev != n && !taken@[j as int] {
                    lemma_ranks_order(utxos@, j as int, prev as int, j as int);
                    if best == j {
                        assert forall|i: int| 0 <= i < j + 1 && !taken@[i] && i != best implies ranks_before(utxos@, best as int, i) by {
                            if i != prev {
                                lemma_ranks_order(utxos@, j as int, prev as int, i);
                            }
                        }
                    }
                }
            }
            j += 1;
        }
        let ghost old_taken = taken@;
        let ghost old_picks = picks@;
        let ghost old_sel = sel@;
        let u = utxos[best];
        proof {
            lemma_untaken_take(utxos@, taken@, best as int, n as int);
            lemma_untaken_positive(utxos@, taken@.update(best as int, true), n as int);
            let w = choose|w: int| 0 <= w < n && !old_taken[w] && utxos@[w].value > 0;
            assert(w == best || ranks_before(utxos@, best as int, w));
        }
        taken.set(best, true);
        picks.push(best);
        sel.push(u);
        acc = acc + u.value as u128;
        proof {
            assert(picks@ == old_picks.push(best));
            assert(sel@ == old_sel.push(u));
            assert(u == utxos@[best as int]);
            assert(picks@[old_picks.len() as int] == best);
            assert(sel@.drop_last() == old_sel);
            assert forall|k: int| 0 <= k < picks@.len() implies #[trigger] sel@[k] == utxos@[picks@[k] as int] by {
                if k < old_picks.len() {
                    assert(sel@[k] == old_sel[k]);
                    assert(picks@[k] == old_picks[k]);
                }
            }
            assert forall|j: int| 0 <= j < n implies (taken@[j] <==> picks@.contains(j as usize)) by {
                if taken@[j] && j != best {
                    let q = choose|q: int| 0 <= q < old_picks.len() && old_picks[q] == j as usize;
                    assert(picks@[q] == j as usize);
                }
                if picks@.contains(j as usize) && j != best {
                    let q = choose|q: int| 0 <= q < picks@.len() && picks@[q] == j as usize;
                    assert(q < old_picks.len());
                    assert(old_picks.contains(j as usize));
                }
            }
            assert forall|a: int, b: int| 0 <= a < b < picks@.len() implies ranks_before(utxos@, picks@[a] as int, picks@[b] as int) by {
                if b == old_picks.len() {
                    assert(old_picks.contains(old_picks[a]));
                }
            }
        }
        assert(sel@.drop_last() == old_sel);
    }
    proof {
        let p = picks@;
        assert forall|k: int, j: int| 0 <= k < p.len() && 0 <= j < utxos@.len() && !p.contains(j as usize)
            implies ranks_before(utxos@, p[k] as int, j) by {
            assert(!taken@[j]);
        }
        assert(total_value(sel@) >= amount + fee);
        assert forall|k: int| 0 <= k < p.len() implies p[k] < utxos@.len() && sel@[k] == utxos@[p[k] as int] by {
            assert(picks@[k] < n);
            assert(sel@[k] == utxos@[picks@[k] as int]);
        }
        assert(is_greedy_selection(utxos@, amount + fee, p, sel@));
        assert(greedy_selects(utxos@, amount + fee, sel@));
    }
    Ok(sel)
}

} // verus!
