use vstd::prelude::*;

verus! {

/// The integers `lo, lo + step, lo + 2 * step, ...` up to and including `hi`.
pub open spec fn progression(lo: int, hi: int, step: int) -> Seq<int> {
    if lo > hi {
        Seq::empty()
    } else {
        Seq::new(((hi - lo) / step + 1) as nat, |k: int| lo + k * step)
    }
}

/// `s` with every value after its first occurrence left out.
pub open spec fn first_occurrences(s: Seq<int>) -> Seq<int>
    decreases s.len(),
{
    if s.len() == 0 {
        s
    } else if s.drop_last().contains(s.last()) {
        first_occurrences(s.drop_last())
    } else {
        first_occurrences(s.drop_last()).push(s.last())
    }
}

/// The histogram bucket boundaries made from `(a, b, c, d, e)`: steps of 10 from
/// `a` to `b`, of 2 from `b` to `c`, of 20 from `c` to `d` and of 100 from `d`
/// to `e`, in that order, each value kept once.
pub open spec fn boundaries_of(a: int, b: int, c: int, d: int, e: int) -> Seq<int> {
    first_occurrences(
        progression(a, b, 10) + progression(b, c, 2) + progression(c, d, 20) + progression(
            d,
            e,
            100,
        ),
    )
}

proof fn lemma_push_contains(s: Seq<int>, y: int, x: int)
    ensures
        s.push(y).contains(x) == (s.contains(x) || y == x),
{
    if s.push(y).contains(x) && y != x {
        let k = choose|k: int| 0 <= k < s.push(y).len() && s.push(y)[k] == x;
        assert(s[k] == x);
    }
    if s.contains(x) {
        let k = choose|k: int| 0 <= k < s.len() && s[k] == x;
        assert(s.push(y)[k] == x);
    }
    if y == x {
        assert(s.push(y)[s.len() as int] == x);
    }
}

proof fn lemma_first_occurrences_contains(s: Seq<int>, x: int)
    ensures
        first_occurrences(s).contains(x) == s.contains(x),
    decreases s.len(),
{
    if s.len() > 0 {
        let d = s.drop_last();
        lemma_first_occurrences_contains(d, x);
        assert(s =~= d.push(s.last()));
        lemma_push_contains(d, s.last(), x);
        if !d.contains(s.last()) {
            lemma_push_contains(first_occurrences(d), s.last(), x);
        }
    }
}

pub open spec fn as_ints(v: Seq<i32>) -> Seq<int> {
    v.map_values(|x: i32| x as int)
}

fn holds(v: &Vec<i32>, x: i32) -> (r: bool)
    ensures
        r == as_ints(v@).contains(x as int),
{
    let mut k: usize = 0;
    while k < v.len()
        invariant
            k <= v.len(),
            forall|m: int| 0 <= m < k ==> v@[m] != x,
        decreases v.len() - k,
    {
        if v[k] == x {
            assert(as_ints(v@)[k as int] == x);
            return true;
        }
        k = k + 1;
    }
    proof {
        if as_ints(v@).contains(x as int) {
            let m = choose|m: int| 0 <= m < as_ints(v@).len() && as_ints(v@)[m] == x;
            assert(v@[m] == x);
        }
    }
    false
}

/// Appends the values `lo, lo + step, ...` up to `hi` that `out` does not hold yet,
/// `out` holding the first occurrences of `prefix`.
fn append_progression(out: &mut Vec<i32>, lo: i32, hi: i32, step: i32, prefix: Ghost<Seq<int>>)
    requires
        step > 0,
        as_ints(old(out)@) == first_occurrences(prefix@),
    ensures
        as_ints(final(out)@) == first_occurrences(
            prefix@ + progression(lo as int, hi as int, step as int),
        ),
{
    let ghost p = progression(lo as int, hi as int, step as int);
    if lo > hi {
        assert(prefix@ + p =~= prefix@);
        return;
    }
    let ghost q = (hi - lo) / (step as int);
    proof {
        vstd::arithmetic::div_mod::lemma_fundamental_div_mod(hi - lo, step as int);
    }
    let mut x: i64 = lo as i64;
    let ghost mut k: int = 0;
    while x <= hi as i64
        invariant
            step > 0,
            lo <= hi,
            q == (hi - lo) / (step as int),
            hi - lo == step * q + (hi - lo) % (step as int),
            0 <= (hi - lo) % (step as int) < step,
            p == progression(lo as int, hi as int, step as int),
            p.len() == q + 1,
            0 <= k,
            x == lo + k * step,
            lo <= x <= hi + step,
            k <= q + 1,
            (x <= hi) == (k <= q),
            as_ints(out@) == first_occurrences(prefix@ + p.subrange(0, k)),
        decreases hi + step - x,
    {
        let ghost before = out@;
        let v = x as i32;
        assert(p[k] == x);
        assert((prefix@ + p.subrange(0, k + 1)).drop_last() =~= prefix@ + p.subrange(0, k));
        assert((prefix@ + p.subrange(0, k + 1)).last() == x);
        proof {
            lemma_first_occurrences_contains(prefix@ + p.subrange(0, k), x as int);
        }
        if !holds(out, v) {
            out.push(v);
            assert(as_ints(out@) =~= as_ints(before).push(v as int));
        }
        x = x + step as i64;
        proof {
            k = k + 1;
            assert(lo + k * step == lo + (k - 1) * step + step) by (nonlinear_arith);
            let r = (hi - lo) % (step as int);
            assert((x <= hi) == (k <= q)) by (nonlinear_arith)
                requires
                    x == lo + k * step,
                    hi - lo == step * q + r,
                    0 <= r < step,
                    step > 0,
            ;
        }
    }
    assert(p.subrange(0, k) =~= p);
}

/// The histogram bucket boundaries for `parts = (a, b, c, d, e)` (see `boundaries_of`).
pub fn generate_boundaries(parts: (i32, i32, i32, i32, i32)) -> (r: Vec<i32>)
    ensures
        as_ints(r@) == boundaries_of(
            parts.0 as int,
            parts.1 as int,
            parts.2 as int,
            parts.3 as int,
            parts.4 as int,
        ),
{
    let (a, b, c, d, e) = parts;
    let mut out: Vec<i32> = Vec::new();
    let ghost p1 = progression(a as int, b as int, 10);
    let ghost p2 = progression(b as int, c as int, 2);
    let ghost p3 = progression(c as int, d as int, 20);
    let ghost p4 = progression(d as int, e as int, 100);
    assert(as_ints(out@) =~= first_occurrences(Seq::<int>::empty()));
    append_progression(&mut out, a, b, 10, Ghost(Seq::empty()));
    assert(Seq::<int>::empty() + p1 =~= p1);
    append_progression(&mut out, b, c, 2, Ghost(p1));
    append_progression(&mut out, c, d, 20, Ghost(p1 + p2));
    append_progression(&mut out, d, e, 100, Ghost(p1 + p2 + p3));
    out
}

} // verus!
