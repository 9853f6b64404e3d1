//! The order in which rows are listed: by a key, rows with equal keys in the order they came.

use vstd::prelude::*;

use crate::text::chars_of;

verus! {

/// `s` with `x` placed before the end part that `x` has to come before.
pub open spec fn placed(s: Seq<int>, x: int, le: spec_fn(int, int) -> bool) -> Seq<int>
    decreases s.len(),
{
    if s.len() == 0 || le(s.last(), x) {
        s.push(x)
    } else {
        placed(s.drop_last(), x, le).push(s.last())
    }
}

/// The numbers of `n` rows in the order `le`, rows that are equal in it in their own order.
pub open spec fn ordering(n: nat, le: spec_fn(int, int) -> bool) -> Seq<int>
    decreases n,
{
    if n == 0 {
        Seq::empty()
    } else {
        placed(ordering((n - 1) as nat, le), n - 1, le)
    }
}

/// Whether text `a` comes before text `b`, or is `b`: by the code points of their characters.
pub open spec fn text_le(a: Seq<char>, b: Seq<char>) -> bool
    decreases a.len(),
{
    if a.len() == 0 {
        true
    } else if b.len() == 0 {
        false
    } else if a[0] == b[0] {
        text_le(a.drop_first(), b.drop_first())
    } else {
        (a[0] as int) < (b[0] as int)
    }
}

/// The order of rows by the texts `keys`.
pub open spec fn by_text(keys: Seq<Seq<char>>) -> spec_fn(int, int) -> bool {
    |i: int, j: int| text_le(keys[i], keys[j])
}

/// The order of rows by the numbers `keys`, smallest first.
pub open spec fn by_number(keys: Seq<i64>) -> spec_fn(int, int) -> bool {
    |i: int, j: int| keys[i] <= keys[j]
}

/// The order of rows by the numbers `keys`, largest first.
pub open spec fn by_number_down(keys: Seq<i64>) -> spec_fn(int, int) -> bool {
    |i: int, j: int| keys[j] <= keys[i]
}

/// The code point of `c`.
fn code(c: char) -> (r: u32)
    ensures
        r == c as int,
{
    c as u32
}

/// Whether `a` comes before `b`, or is `b`.
pub fn at_most(a: &str, b: &str) -> (r: bool)
    ensures
        r == text_le(a@, b@),
{
    let x = chars_of(a);
    let y = chars_of(b);
    let mut i: usize = 0;
    assert(a@.skip(0) =~= a@);
    assert(b@.skip(0) =~= b@);
    while i < x.len() && i < y.len() && x[i] == y[i]
        invariant
            x@ == a@,
            y@ == b@,
            i <= x@.len(),
            i <= y@.len(),
            text_le(a@, b@) == text_le(a@.skip(i as int), b@.skip(i as int)),
        decreases x@.len() - i,
    {
        assert(a@.skip(i as int).drop_first() =~= a@.skip(i + 1));
        assert(b@.skip(i as int).drop_first() =~= b@.skip(i + 1));
        i += 1;
    }
    if i == x.len() {
        true
    } else if i == y.len() {
        false
    } else {
        code(x[i]) < code(y[i])
    }
}

/// The row numbers as mathematical integers.
pub open spec fn ints(v: Seq<usize>) -> Seq<int> {
    Seq::new(v.len(), |i: int| v[i] as int)
}

proof fn lemma_placed(s: Seq<int>, p: int, x: int, le: spec_fn(int, int) -> bool)
    requires
        0 <= p <= s.len(),
        forall|k: int| p <= k < s.len() ==> !le(#[trigger] s[k], x),
        p > 0 ==> le(s[p - 1], x),
    ensures
        placed(s, x, le) == s.insert(p, x),
    decreases s.len(),
{
    if p == s.len() {
        assert(s.insert(p, x) =~= s.push(x));
    } else {
        lemma_placed(s.drop_last(), p, x, le);
        assert(s.insert(p, x) =~= s.drop_last().insert(p, x).push(s.last()));
    }
}

/// The row numbers in the order of the texts `keys`.
pub fn order_by_text(keys: &Vec<&str>) -> (r: Vec<usize>)
    ensures
        ints(r@) == ordering(keys@.len(), by_text(keys.deep_view())),
        r@.len() == keys@.len(),
        forall|k: int| 0 <= k < r@.len() ==> #[trigger] r@[k] < keys@.len(),
{
    let mut out: Vec<usize> = Vec::new();
    let ghost le = by_text(keys.deep_view());
    assert(ints(out@) =~= ordering(0, le));
    for i in 0..keys.len()
        invariant
            le == by_text(keys.deep_view()),
            out@.len() == i,
            forall|k: int| 0 <= k < out@.len() ==> #[trigger] out@[k] < i,
            ints(out@) == ordering(i as nat, le),
    {
        let mut p: usize = out.len();
        while p > 0 && !at_most(keys[out[p - 1]], keys[i])
            invariant
                le == by_text(keys.deep_view()),
                i < keys@.len(),
                p <= out@.len(),
                forall|k: int| 0 <= k < out@.len() ==> #[trigger] out@[k] < i,
                forall|k: int| p <= k < out@.len() ==> !le(#[trigger] ints(out@)[k], i as int),
            decreases p,
        {
            p -= 1;
        }
        proof {
            lemma_placed(ints(out@), p as int, i as int, le);
        }
        let ghost was = out@;
        out.insert(p, i);
        assert(ints(out@) =~= ints(was).insert(p as int, i as int));
    }
    out
}

/// Whether a row with key `a` may come before one with key `b`.
fn in_turn(a: i64, b: i64, down: bool) -> (r: bool)
    ensures
        r == (if down {
            b <= a
        } else {
            a <= b
        }),
{
    if down {
        b <= a
    } else {
        a <= b
    }
}

/// The row numbers in the order of the numbers `keys`, smallest first, or largest first.
pub fn order_by_number(keys: &Vec<i64>, down: bool) -> (r: Vec<usize>)
    ensures
        ints(r@) == ordering(
            keys@.len(),
            if down {
                by_number_down(keys@)
            } else {
                by_number(keys@)
            },
        ),
        r@.len() == keys@.len(),
        forall|k: int| 0 <= k < r@.len() ==> #[trigger] r@[k] < keys@.len(),
{
    let mut out: Vec<usize> = Vec::new();
    let ghost le = if down {
        by_number_down(keys@)
    } else {
        by_number(keys@)
    };
    assert(ints(out@) =~= ordering(0, le));
    for i in 0..keys.len()
        invariant
            le == (if down {
                by_number_down(keys@)
            } else {
                by_number(keys@)
            }),
            out@.len() == i,
            forall|k: int| 0 <= k < out@.len() ==> #[trigger] out@[k] < i,
            ints(out@) == ordering(i as nat, le),
    {
        let mut p: usize = out.len();
        while p > 0 && !in_turn(keys[out[p - 1]], keys[i], down)
            invariant
                le == (if down {
                    by_number_down(keys@)
                } else {
                    by_number(keys@)
                }),
                i < keys@.len(),
                p <= out@.len(),
                forall|k: int| 0 <= k < out@.len() ==> #[trigger] out@[k] < i,
                forall|k: int| p <= k < out@.len() ==> !le(#[trigger] ints(out@)[k], i as int),
            decreases p,
        {
            p -= 1;
        }
        proof {
            lemma_placed(ints(out@), p as int, i as int, le);
        }
        let ghost was = out@;
        out.insert(p, i);
        assert(ints(out@) =~= ints(was).insert(p as int, i as int));
    }
    out
}

/// The rows numbered by `order`, as far as `limit` goes, each as a line.
pub open spec fn lines<T>(
    rows: Seq<T>,
    order: Seq<int>,
    limit: nat,
    line: spec_fn(T) -> Seq<char>,
) -> Seq<Seq<char>> {
    Seq::new(
        if order.len() < limit {
            order.len()
        } else {
            limit
        },
        |i: int| line(rows[order[i]]),
    )
}

/// Whether `le` orders all of `0..n`.
pub open spec fn is_order(n: nat, le: spec_fn(int, int) -> bool) -> bool {
    &&& forall|i: int, j: int|
        0 <= i < n && 0 <= j < n ==> #[trigger] le(i, j) || le(j, i)
    &&& forall|i: int, j: int, k: int|
        0 <= i < n && 0 <= j < n && 0 <= k < n && #[trigger] le(i, j) && #[trigger] le(j, k) ==> le(
            i,
            k,
        )
}

/// Whether `s` lists row numbers below `n`, none twice, in the order `le`, and rows that are equal
/// in it in their own order.
pub open spec fn listed(s: Seq<int>, n: nat, le: spec_fn(int, int) -> bool) -> bool {
    &&& forall|a: int| 0 <= a < s.len() ==> 0 <= #[trigger] s[a] < n
    &&& forall|a: int, b: int| 0 <= a < b < s.len() ==> #[trigger] s[a] != #[trigger] s[b]
    &&& forall|a: int, b: int| 0 <= a < b < s.len() ==> le(#[trigger] s[a], #[trigger] s[b])
    &&& forall|a: int, b: int|
        0 <= a < b < s.len() && le(#[trigger] s[b], #[trigger] s[a]) ==> s[a] < s[b]
}

proof fn lemma_placed_listed(s: Seq<int>, x: int, n: nat, le: spec_fn(int, int) -> bool)
    requires
        is_order(n, le),
        0 <= x < n,
        listed(s, x as nat, le),
    ensures
        listed(placed(s, x, le), n, le),
        placed(s, x, le).len() == s.len() + 1,
        forall|v: int| #[trigger] placed(s, x, le).contains(v) <==> s.contains(v) || v == x,
    decreases s.len(),
{
    let t = placed(s, x, le);
    if s.len() == 0 || le(s.last(), x) {
        assert forall|a: int, b: int| 0 <= a < b < t.len() implies le(#[trigger] t[a], #[trigger] t[b])
            && t[a] != t[b] && (le(t[b], t[a]) ==> t[a] < t[b]) by {
            if b == s.len() {
                if a < s.len() - 1 {
                    assert(le(s[a], s.last()));
                    assert(le(s.last(), x));
                    assert(le(s[a], x));
                }
            }
        }
        assert forall|v: int| s.contains(v) || v == x implies t.contains(v) by {
            if v == x {
                assert(t[s.len() as int] == x);
            } else {
                let k = choose|k: int| 0 <= k < s.len() && s[k] == v;
                assert(t[k] == v);
            }
        }
    } else {
        let u = s.drop_last();
        assert(listed(u, x as nat, le)) by {
            assert forall|a: int, b: int| 0 <= a < b < u.len() implies #[trigger] u[a] != #[trigger] u[b]
                && le(u[a], u[b]) && (le(u[b], u[a]) ==> u[a] < u[b]) by {
                assert(u[a] == s[a] && u[b] == s[b]);
            }
        }
        lemma_placed_listed(u, x, n, le);
        let w = placed(u, x, le);
        let l = s.last();
        assert(t =~= w.push(l));
        assert(le(x, l) || le(l, x));
        assert forall|a: int, b: int| 0 <= a < b < t.len() implies le(#[trigger] t[a], #[trigger] t[b])
            && t[a] != t[b] && (le(t[b], t[a]) ==> t[a] < t[b]) by {
            if b == w.len() {
                assert(t[b] == l);
                assert(w.contains(w[a]));
                if w[a] != x {
                    assert(u.contains(w[a]));
                    let k = choose|k: int| 0 <= k < u.len() && u[k] == w[a];
                    assert(s[k] == w[a]);
                    assert(s[s.len() - 1] == l);
                }
            } else {
                assert(t[a] == w[a] && t[b] == w[b]);
            }
        }
        assert forall|v: int| t.contains(v) <==> s.contains(v) || v == x by {
            if t.contains(v) {
                let k = choose|k: int| 0 <= k < t.len() && t[k] == v;
                if k < w.len() {
                    assert(w.contains(w[k]));
                    if v != x {
                        assert(u.contains(v));
                        let m = choose|m: int| 0 <= m < u.len() && u[m] == v;
                        assert(s[m] == v);
                    }
                } else {
                    assert(s[s.len() - 1] == v);
                }
            }
            if s.contains(v) {
                let k = choose|k: int| 0 <= k < s.len() && s[k] == v;
                if k < u.len() {
                    assert(u[k] == v);
                    assert(u.contains(v));
                    assert(w.contains(v));
                    let m = choose|m: int| 0 <= m < w.len() && w[m] == v;
                    assert(t[m] == v);
                } else {
                    assert(t[w.len() as int] == v);
                }
            }
            if v == x {
                assert(w.contains(x));
                let m = choose|m: int| 0 <= m < w.len() && w[m] == x;
                assert(t[m] == x);
            }
        }
    }
}

/// Every row is listed, none twice, in the order asked for, and rows with equal keys stay in the
/// order they came.
pub proof fn law_ordering(n: nat, m: nat, le: spec_fn(int, int) -> bool)
    requires
        is_order(m, le),
        n <= m,
    ensures
        listed(ordering(n, le), n, le),
        ordering(n, le).len() == n,
        forall|v: int| 0 <= v < n <==> ordering(n, le).contains(v),
    decreases n,
{
    if n > 0 {
        let k = (n - 1) as nat;
        law_ordering(k, m, le);
        assert(is_order(n, le));
        lemma_placed_listed(ordering(k, le), n - 1, n, le);
        assert forall|v: int| 0 <= v < n <==> ordering(n, le).contains(v) by {
            assert(ordering(k, le).contains(v) <==> 0 <= v < k);
        }
    }
}

proof fn lemma_text_total(a: Seq<char>, b: Seq<char>)
    ensures
        text_le(a, b) || text_le(b, a),
    decreases a.len(),
{
    if a.len() > 0 && b.len() > 0 && a[0] == b[0] {
        lemma_text_total(a.drop_first(), b.drop_first());
    }
}

proof fn lemma_text_transitive(a: Seq<char>, b: Seq<char>, c: Seq<char>)
    requires
        text_le(a, b),
        text_le(b, c),
    ensures
        text_le(a, c),
    decreases a.len(),
{
    if a.len() > 0 && b.len() > 0 && c.len() > 0 && a[0] == b[0] && b[0] == c[0] {
        lemma_text_transitive(a.drop_first(), b.drop_first(), c.drop_first());
    }
}

/// The orders that listings use do order all rows.
pub proof fn law_orders(texts: Seq<Seq<char>>, numbers: Seq<i64>)
    ensures
        is_order(texts.len(), by_text(texts)),
        is_order(numbers.len(), by_number(numbers)),
        is_order(numbers.len(), by_number_down(numbers)),
{
    let le = by_text(texts);
    assert forall|i: int, j: int| 0 <= i < texts.len() && 0 <= j < texts.len() implies #[trigger] le(
        i,
        j,
    ) || le(j, i) by {
        lemma_text_total(texts[i], texts[j]);
    }
    assert forall|i: int, j: int, k: int|
        0 <= i < texts.len() && 0 <= j < texts.len() && 0 <= k < texts.len() && #[trigger] le(i, j)
            && #[trigger] le(j, k) implies le(i, k) by {
        lemma_text_transitive(texts[i], texts[j], texts[k]);
    }
}

proof fn lemma_text_le(a: Seq<char>, b: Seq<char>)
    ensures
        text_le(a, b) ==> (a.len() <= b.len() && a == b.take(a.len() as int)) || exists|k: int|
            0 <= k < a.len() && k < b.len() && a.take(k) == b.take(k) && (#[trigger] a[k] as int) < (
            b[k] as int),
    decreases a.len(),
{
    if a.len() == 0 {
        assert(a =~= b.take(0));
    } else if b.len() > 0 {
        if a[0] == b[0] {
            let x = a.drop_first();
            let y = b.drop_first();
            lemma_text_le(x, y);
            if text_le(a, b) {
                if x.len() <= y.len() && x == y.take(x.len() as int) {
                    assert(a =~= b.take(a.len() as int)) by {
                        assert forall|i: int| 0 < i < a.len() implies a[i] == b[i] by {
                            assert(x[i - 1] == y.take(x.len() as int)[i - 1]);
                        }
                    }
                } else {
                    let k = choose|k: int|
                        0 <= k < x.len() && k < y.len() && x.take(k) == y.take(k) && (#[trigger] x[k]
                            as int) < (y[k] as int);
                    assert(a.take(k + 1) =~= b.take(k + 1)) by {
                        assert forall|i: int| 0 < i < k + 1 implies a[i] == b[i] by {
                            assert(x.take(k)[i - 1] == y.take(k)[i - 1]);
                        }
                    }
                    assert((a[k + 1] as int) < (b[k + 1] as int));
                }
            }
        } else {
            assert(a.take(0) =~= b.take(0));
            assert(text_le(a, b) ==> (a[0] as int) < (b[0] as int));
        }
    }
}

/// A text comes before another where it is the beginning of it, or has the smaller character at the
/// first place where the two differ; and nowhere else.
pub proof fn law_text_order(a: Seq<char>, b: Seq<char>, k: int)
    ensures
        text_le(a, b) ==> (a.len() <= b.len() && a == b.take(a.len() as int)) || exists|k: int|
            0 <= k < a.len() && k < b.len() && a.take(k) == b.take(k) && (#[trigger] a[k] as int) < (
            b[k] as int),
        text_le(a, a + b),
        b.len() > 0 ==> !text_le(a + b, a),
        0 <= k < a.len() && k < b.len() && a.take(k) == b.take(k) && (a[k] as int) < (b[k] as int)
            ==> text_le(a, b) && !text_le(b, a),
    decreases a.len(),
{
    lemma_text_le(a, b);
    if a.len() > 0 {
        law_text_order(a.drop_first(), b, 0);
        assert((a + b).drop_first() =~= a.drop_first() + b);
        if 0 < k < a.len() && k < b.len() && a.take(k) == b.take(k) {
            let x = a.drop_first();
            let y = b.drop_first();
            assert(a.take(k)[0] == b.take(k)[0]);
            assert(x.take(k - 1) =~= y.take(k - 1)) by {
                assert forall|i: int| 0 <= i < k - 1 implies x[i] == y[i] by {
                    assert(a.take(k)[i + 1] == b.take(k)[i + 1]);
                }
            }
            law_text_order(x, y, k - 1);
        }
    }
}

/// Rows are ordered by the text of their key, or by the number of it: smallest or greatest first.
pub proof fn law_keys(texts: Seq<Seq<char>>, numbers: Seq<i64>, i: int, j: int)
    ensures
        by_text(texts)(i, j) <==> text_le(texts[i], texts[j]),
        numbers[i] < numbers[j] ==> by_number(numbers)(i, j) && !by_number(numbers)(j, i),
        numbers[i] < numbers[j] ==> by_number_down(numbers)(j, i) && !by_number_down(numbers)(i, j),
        numbers[i] == numbers[j] ==> by_number(numbers)(i, j) && by_number_down(numbers)(i, j),
{
}

/// As many rows are listed as there are, and no more than the limit; each by its own line.
pub proof fn law_lines<T>(rows: Seq<T>, order: Seq<int>, limit: nat, line: spec_fn(T) -> Seq<char>)
    ensures
        ({
            let all = lines(rows, order, limit, line);
            &&& all.len() <= limit
            &&& all.len() <= order.len()
            &&& all.len() == limit || all.len() == order.len()
            &&& forall|i: int| 0 <= i < all.len() ==> #[trigger] all[i] == line(rows[order[i]])
        }),
{
}

} // verus!
