//! The decisions of a mixture-of-experts forward pass: shapes, routing and visibility.
use vstd::prelude::*;

verus! {

/// Why a forward pass is refused.
#[derive(Clone, Copy, Debug, PartialEq, Eq, Structural)]
pub enum ForwardError {
    LastDim,
    Tokens,
    Positions,
    Embeds,
    Lengths,
    LogitsRow,
    /// A size does not fit the address type.
    Limits,
}

/// The product of the first `n` sizes.
pub open spec fn product_to(d: Seq<usize>, n: int) -> int
    decreases n,
{
    if n <= 0 { 1 } else { product_to(d, n - 1) * d[n - 1] }
}

/// Every product of leading sizes fits the address type.
pub open spec fn products_fit(d: Seq<usize>, n: int) -> bool
    decreases n,
{
    n <= 0 || (products_fit(d, n - 1) && product_to(d, n) <= usize::MAX)
}

/// The rows of a tensor whose last axis holds a hidden row.
pub fn flat_rows(dims: &Vec<usize>, hidden: usize) -> (r: Result<usize, ForwardError>)
    requires
        dims@.len() > 0,
    ensures
        match r {
            Err(ForwardError::LastDim) => dims@.last() != hidden,
            Err(ForwardError::Limits) => {
                &&& dims@.last() == hidden
                &&& !products_fit(dims@, dims@.len() - 1)
            },
            Err(_) => false,
            Ok(n) => dims@.last() == hidden && n == product_to(dims@, dims@.len() - 1),
        },
{
    let last: usize = dims.len() - 1;
    if dims[last] != hidden {
        return Err(ForwardError::LastDim);
    }
    let mut n: usize = 1;
    let mut i: usize = 0;
    while i < last
        invariant
            i <= last,
            last == dims@.len() - 1,
            dims@.last() == hidden,
            n == product_to(dims@, i as int),
            products_fit(dims@, i as int),
        decreases last - i,
    {
        match n.checked_mul(dims[i]) {
            Some(p) => {
                n = p;
            },
            None => {
                proof {
                    lemma_not_fit(dims@, i + 1, last as int);
                }
                return Err(ForwardError::Limits);
            },
        }
        i = i + 1;
    }
    Ok(n)
}

proof fn lemma_not_fit(d: Seq<usize>, i: int, n: int)
    requires
        0 < i <= n,
        !products_fit(d, i),
    ensures
        !products_fit(d, n),
    decreases n - i,
{
    if i < n {
        lemma_not_fit(d, i, n - 1);
    }
}

/// The places below `n` that are routed to expert `e`, in order.
pub open spec fn slots_of(chosen: Seq<u32>, e: int, n: int) -> Seq<usize>
    decreases n,
{
    if n <= 0 {
        Seq::empty()
    } else {
        let s = slots_of(chosen, e, n - 1);
        if chosen[n - 1] == e { s.push((n - 1) as usize) } else { s }
    }
}

/// The token that a place of the choices belongs to, where every token has `top_k`.
pub fn slot_token(slot: usize, top_k: usize) -> (r: usize)
    requires
        top_k > 0,
    ensures
        r == slot as int / top_k as int,
{
    slot / top_k
}

/// Choice `j` of token `n` belongs to that token.
pub proof fn law_slot_token(n: int, j: int, top_k: int)
    requires
        0 <= n,
        0 <= j < top_k,
    ensures
        (n * top_k + j) / top_k == n,
{
    vstd::arithmetic::div_mod::lemma_fundamental_div_mod_converse(n * top_k + j, top_k, n, j);
}

/// Whether every choice names an expert.
pub open spec fn all_experts(chosen: Seq<u32>, n_experts: int) -> bool {
    forall|i: int| 0 <= i < chosen.len() ==> #[trigger] chosen[i] < n_experts
}

/// Sorts the choices of all tokens by expert. Place `n * k + j` of `chosen` is choice `j` of
/// token `n`. None where a choice names no expert.
pub fn bucket_experts(chosen: &[u32], n_experts: usize) -> (r: Option<Vec<Vec<usize>>>)
    ensures
        r is Some == all_experts(chosen@, n_experts as int),
        r matches Some(v) ==> {
            &&& v@.len() == n_experts
            &&& forall|e: int|
                0 <= e < n_experts ==> (#[trigger] v@[e])@ == slots_of(
                    chosen@,
                    e,
                    chosen@.len() as int,
                )
        },
{
    let mut v: Vec<Vec<usize>> = Vec::new();
    let mut e: usize = 0;
    while e < n_experts
        invariant
            e <= n_experts,
            v@.len() == e,
            forall|j: int| 0 <= j < e ==> (#[trigger] v@[j])@ == Seq::<usize>::empty(),
        decreases n_experts - e,
    {
        v.push(Vec::new());
        e = e + 1;
    }
    let mut i: usize = 0;
    while i < chosen.len()
        invariant
            i <= chosen@.len(),
            v@.len() == n_experts,
            forall|j: int| 0 <= j < i ==> #[trigger] chosen@[j] < n_experts,
            forall|j: int|
                0 <= j < n_experts ==> (#[trigger] v@[j])@ == slots_of(chosen@, j, i as int),
        decreases chosen@.len() - i,
    {
        let e: usize = chosen[i] as usize;
        if e >= n_experts {
            assert(!(chosen@[i as int] < n_experts));
            return None;
        }
        let ghost before = v@;
        let mut rows: Vec<usize> = Vec::new();
        std::mem::swap(&mut rows, &mut v[e]);
        rows.push(i);
        std::mem::swap(&mut rows, &mut v[e]);
        proof {
            assert forall|j: int| 0 <= j < n_experts implies (#[trigger] v@[j])@ == slots_of(
                chosen@,
                j,
                i + 1,
            ) by {
                if j != e {
                    assert(v@[j] == before[j]);
                }
            }
        }
        i = i + 1;
    }
    Some(v)
}

/// Every choice is in the list of its own expert and in no other.
pub proof fn law_bucketed_once(chosen: Seq<u32>, e: int, n: int, slot: int)
    requires
        0 <= slot < n <= chosen.len() <= usize::MAX,
    ensures
        slots_of(chosen, e, n).contains(slot as usize) <==> chosen[slot] == e,
        slots_of(chosen, e, n).no_duplicates(),
{
    lemma_slots(chosen, e, n);
    let s = slots_of(chosen, e, n);
    if chosen[slot] == e {
        lemma_slot_there(chosen, e, n, slot);
    } else if s.contains(slot as usize) {
        let i = choose|i: int| 0 <= i < s.len() && s[i] == slot as usize;
        assert(chosen[s[i] as int] == e);
    }
}

proof fn lemma_slots(chosen: Seq<u32>, e: int, n: int)
    requires
        0 <= n <= chosen.len() <= usize::MAX,
    ensures
        forall|i: int|
            0 <= i < slots_of(chosen, e, n).len() ==> (#[trigger] slots_of(chosen, e, n)[i]) < n
                && chosen[slots_of(chosen, e, n)[i] as int] == e,
        slots_of(chosen, e, n).no_duplicates(),
    decreases n,
{
    if n > 0 {
        lemma_slots(chosen, e, n - 1);
    }
}

proof fn lemma_slot_there(chosen: Seq<u32>, e: int, n: int, slot: int)
    requires
        0 <= slot < n <= chosen.len() <= usize::MAX,
        chosen[slot] == e,
    ensures
        slots_of(chosen, e, n).contains(slot as usize),
    decreases n,
{
    let s = slots_of(chosen, e, n);
    let t = slots_of(chosen, e, n - 1);
    if slot == n - 1 {
        assert(s[t.len() as int] == slot as usize);
    } else {
        lemma_slot_there(chosen, e, n - 1, slot);
        let i = choose|i: int| 0 <= i < t.len() && t[i] == slot as usize;
        assert(s[i] == slot as usize);
    }
}

/// Whether the query at position `q` sees the key at position `k`: none that comes later,
/// and within a window only the last `w` positions.
pub open spec fn sees(q: int, k: int, window: Option<usize>) -> bool {
    k <= q && (window matches Some(w) ==> q - k < w)
}

/// The visibility of `stored` keys, the last of `total` positions, for `seq` queries from
/// position `start` on: row by row, a query to a row.
pub fn attention_mask(
    seq: usize,
    stored: usize,
    start: usize,
    total: usize,
    window: Option<usize>,
) -> (r: Vec<bool>)
    requires
        stored <= total,
        start + seq <= usize::MAX,
        seq * stored <= usize::MAX,
    ensures
        r@.len() == seq * stored,
        forall|i: int, j: int|
            #![trigger r@[i * stored + j]]
            0 <= i < seq && 0 <= j < stored ==> r@[i * stored + j] == sees(
                start + i,
                total - stored + j,
                window,
            ),
{
    let first: usize = total - stored;
    let mut r: Vec<bool> = Vec::new();
    let mut i: usize = 0;
    while i < seq
        invariant
            i <= seq,
            stored <= total,
            first == total - stored,
            start + seq <= usize::MAX,
            seq * stored <= usize::MAX,
            r@.len() == i * stored,
            forall|a: int, b: int|
                #![trigger r@[a * stored + b]]
                0 <= a < i && 0 <= b < stored ==> r@[a * stored + b] == sees(
                    start + a,
                    total - stored + b,
                    window,
                ),
        decreases seq - i,
    {
        let q: usize = start + i;
        let ghost base = i * stored;
        let mut j: usize = 0;
        while j < stored
            invariant
                i < seq,
                j <= stored,
                stored <= total,
                first == total - stored,
                q == start + i,
                base == i * stored,
                r@.len() == base + j,
                forall|a: int, b: int|
                    #![trigger r@[a * stored + b]]
                    0 <= a < i && 0 <= b < stored ==> r@[a * stored + b] == sees(
                        start + a,
                        total - stored + b,
                        window,
                    ),
                forall|b: int|
                    #![trigger r@[base + b]]
                    0 <= b < j ==> r@[base + b] == sees(start + i, total - stored + b, window),
            decreases stored - j,
        {
            let k: usize = first + j;
            let near = match window {
                Some(w) => k <= q && q - k < w,
                None => true,
            };
            let ghost before = r@;
            r.push(k <= q && near);
            proof {
                assert forall|a: int, b: int|
                    #![trigger r@[a * stored + b]]
                    0 <= a < i && 0 <= b < stored implies r@[a * stored + b] == sees(
                    start + a,
                    total - stored + b,
                    window,
                ) by {
                    assert(a * stored + b < i * stored && 0 <= a * stored) by (nonlinear_arith)
                        requires
                            0 <= a < i,
                            0 <= b < stored,
                    ;
                    assert(r@[a * stored + b] == before[a * stored + b]);
                }
                assert forall|b: int|
                    #![trigger r@[base + b]]
                    0 <= b < j + 1 implies r@[base + b] == sees(
                    start + i,
                    total - stored + b,
                    window,
                ) by {
                    if b < j {
                        assert(r@[base + b] == before[base + b]);
                    }
                }
            }
            j = j + 1;
        }
        proof {
            assert((i + 1) * stored == i * stored + stored) by (nonlinear_arith);
            assert forall|a: int, b: int|
                #![trigger r@[a * stored + b]]
                0 <= a < i + 1 && 0 <= b < stored implies r@[a * stored + b] == sees(
                start + a,
                total - stored + b,
                window,
            ) by {
                if a == i {
                    assert(r@[base + b] == sees(start + i, total - stored + b, window));
                }
            }
        }
        i = i + 1;
    }
    r
}

/// A query sees its own position and, within a window, at most `w` keys.
pub proof fn law_sees_itself(q: int, w: usize)
    requires
        w > 0,
    ensures
        sees(q, q, None),
        sees(q, q, Some(w)),
        forall|k: int| #[trigger] sees(q, k, Some(w)) <==> q - w < k <= q,
{
}

/// The key head that each query head reads.
pub fn head_map(n_q: usize, n_kv: usize) -> (r: Vec<u32>)
    requires
        0 < n_kv <= n_q,
    ensures
        r@.len() == n_q,
        forall|h: int| 0 <= h < n_q ==> #[trigger] r@[h] == (h / (n_q as int / n_kv as int)) as u32,
{
    let group: usize = n_q / n_kv;
    assert(group > 0) by (nonlinear_arith)
        requires
            group == n_q / n_kv,
            0 < n_kv <= n_q,
    ;
    let mut r: Vec<u32> = Vec::new();
    let mut h: usize = 0;
    while h < n_q
        invariant
            h <= n_q,
            group > 0,
            group == n_q as int / n_kv as int,
            r@.len() == h,
            forall|j: int| 0 <= j < h ==> #[trigger] r@[j] == (j / (n_q as int / n_kv as int)) as u32,
        decreases n_q - h,
    {
        r.push((h / group) as u32);
        h = h + 1;
    }
    r
}

/// Where the query heads divide evenly, every query head reads a key head that there is.
pub proof fn law_head_map(n_q: int, n_kv: int, h: int)
    requires
        0 < n_kv,
        n_q % n_kv == 0,
        0 <= h < n_q,
    ensures
        0 <= h / (n_q / n_kv) < n_kv,
{
    let g = n_q / n_kv;
    assert(n_q == n_kv * g) by (nonlinear_arith)
        requires
            g == n_q / n_kv,
            n_q % n_kv == 0,
            n_kv > 0,
    ;
    assert(g > 0) by (nonlinear_arith)
        requires
            n_q == n_kv * g,
            n_q > 0,
            n_kv > 0,
    ;
    assert(0 <= h / g < n_kv) by (nonlinear_arith)
        requires
            0 <= h < n_kv * g,
            g > 0,
    ;
}

fn same_dims(a: &Vec<usize>, b: &Vec<usize>) -> (r: bool)
    ensures
        r == (a@ == b@),
{
    if a.len() != b.len() {
        return false;
    }
    let mut i: usize = 0;
    while i < a.len()
        invariant
            i <= a@.len(),
            a@.len() == b@.len(),
            forall|j: int| 0 <= j < i ==> a@[j] == #[trigger] b@[j],
        decreases a@.len() - i,
    {
        if a[i] != b[i] {
            assert(a@[i as int] != b@[i as int]);
            return false;
        }
        i = i + 1;
    }
    assert(a@ =~= b@);
    true
}

/// Whether a loaded tensor has the wanted shape.
pub fn has_shape(got: &Vec<usize>, want: &Vec<usize>) -> (r: bool)
    ensures
        r == (got@ == want@),
{
    same_dims(got, want)
}

/// The length of a prompt part, once its shapes are checked: tokens in one row, a position to
/// a token, and where rows are given in place of embeddings, one to a token.
pub fn check_forward(
    tokens: &Vec<usize>,
    positions: &Vec<usize>,
    embeds: Option<&Vec<usize>>,
    hidden: usize,
) -> (r: Result<usize, ForwardError>)
    ensures
        ({
            let seq = tokens@[1];
            if tokens@.len() != 2 || tokens@[0] != 1 {
                r == Err::<usize, ForwardError>(ForwardError::Tokens)
            } else if positions@ != seq![seq] {
                r == Err::<usize, ForwardError>(ForwardError::Positions)
            } else if (embeds matches Some(e) && e@ != seq![seq, hidden]) {
                r == Err::<usize, ForwardError>(ForwardError::Embeds)
            } else {
                r == Ok::<usize, ForwardError>(seq)
            }
        }),
{
    if tokens.len() != 2 || tokens[0] != 1 {
        return Err(ForwardError::Tokens);
    }
    let seq: usize = tokens[1];
    let want = vec![seq];
    assert(want@ =~= seq![seq]);
    if !same_dims(positions, &want) {
        return Err(ForwardError::Positions);
    }
    match embeds {
        Some(e) => {
            let want = vec![seq, hidden];
            assert(want@ =~= seq![seq, hidden]);
            if !same_dims(e, &want) {
                return Err(ForwardError::Embeds);
            }
        },
        None => {},
    }
    Ok(seq)
}

/// The largest of the first `n` positions.
pub open spec fn last_position(p: Seq<u32>, n: int) -> u32
    decreases n,
{
    if n <= 1 {
        p[0]
    } else if p[n - 1] >= last_position(p, n - 1) {
        p[n - 1]
    } else {
        last_position(p, n - 1)
    }
}

/// The cache that a single pass over these tokens needs: a row for each position up to the
/// largest, and for each token.
pub fn cache_len(tokens: &[u32], positions: &[u32]) -> (r: Result<usize, ForwardError>)
    ensures
        if tokens@.len() == 0 || tokens@.len() != positions@.len() {
            r == Err::<usize, ForwardError>(ForwardError::Lengths)
        } else {
            let most = last_position(positions@, positions@.len() as int);
            match r {
                Ok(n) => most < usize::MAX && n == if most + 1 >= tokens@.len() {
                    most + 1
                } else {
                    tokens@.len() as int
                },
                Err(e) => e == ForwardError::Limits && most >= usize::MAX,
            }
        },
{
    if tokens.len() == 0 || tokens.len() != positions.len() {
        return Err(ForwardError::Lengths);
    }
    let mut most: u32 = positions[0];
    let mut i: usize = 1;
    while i < positions.len()
        invariant
            1 <= i <= positions@.len(),
            most == last_position(positions@, i as int),
        decreases positions@.len() - i,
    {
        if positions[i] >= most {
            most = positions[i];
        }
        i = i + 1;
    }
    if most as usize >= usize::MAX {
        return Err(ForwardError::Limits);
    }
    let need: usize = most as usize + 1;
    if need >= tokens.len() { Ok(need) } else { Ok(tokens.len()) }
}

} // verus!
