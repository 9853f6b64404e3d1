//! Character sequences: the text operations that the rest of the library is stated with.

use vstd::prelude::*;

verus! {

/// `String::push` appends one character.
pub assume_specification[ String::push ](s: &mut String, c: char)
    ensures
        final(s)@ == old(s)@.push(c),
;

/// The Unicode characters with the property White_Space.
pub open spec fn is_white(c: char) -> bool {
    let n = c as u32;
    ||| 0x09 <= n <= 0x0d
    ||| n == 0x20
    ||| n == 0x85
    ||| n == 0xa0
    ||| n == 0x1680
    ||| 0x2000 <= n <= 0x200a
    ||| n == 0x2028
    ||| n == 0x2029
    ||| n == 0x202f
    ||| n == 0x205f
    ||| n == 0x3000
}

/// Whether `c` is white space.
pub fn white(c: char) -> (r: bool)
    ensures
        r == is_white(c),
{
    let n: u32 = c as u32;
    (0x09 <= n && n <= 0x0d) || n == 0x20 || n == 0x85 || n == 0xa0 || n == 0x1680 || (0x2000 <= n
        && n <= 0x200a) || n == 0x2028 || n == 0x2029 || n == 0x202f || n == 0x205f || n == 0x3000
}

/// The characters of `s`.
pub fn chars_of(s: &str) -> (r: Vec<char>)
    ensures
        r@ == s@,
{
    let mut v: Vec<char> = Vec::new();
    for c in it: s.chars()
        invariant
            v@ == it.seq().take(it.index() as int),
            it.seq() == s@,
    {
        v.push(c);
    }
    v
}

/// `s` without the longest prefix whose characters all satisfy `p`.
pub open spec fn strip_start(s: Seq<char>, p: spec_fn(char) -> bool) -> Seq<char>
    decreases s.len(),
{
    if s.len() > 0 && p(s[0]) {
        strip_start(s.drop_first(), p)
    } else {
        s
    }
}

/// `s` without the longest suffix whose characters all satisfy `p`.
pub open spec fn strip_end(s: Seq<char>, p: spec_fn(char) -> bool) -> Seq<char>
    decreases s.len(),
{
    if s.len() > 0 && p(s.last()) {
        strip_end(s.drop_last(), p)
    } else {
        s
    }
}

/// `s` without white space at either end.
pub open spec fn trimmed(s: Seq<char>) -> Seq<char> {
    strip_end(strip_start(s, |c: char| is_white(c)), |c: char| is_white(c))
}

/// `s` without characters of `set` at either end.
pub open spec fn stripped(s: Seq<char>, set: Seq<char>) -> Seq<char> {
    strip_end(strip_start(s, |c: char| set.contains(c)), |c: char| set.contains(c))
}

/// `s` without white space at either end.
pub fn trim<'a>(s: &'a str) -> (r: &'a str)
    ensures
        r@ == trimmed(s@),
{
    let cs = chars_of(s);
    let n = cs.len();
    let ghost p = |c: char| is_white(c);
    let mut i: usize = 0;
    assert(s@.skip(0) == s@);
    while i < n && white(cs[i])
        invariant
            i <= n,
            n == cs@.len(),
            cs@ == s@,
            p == (|c: char| is_white(c)),
            strip_start(s@, p) == strip_start(s@.skip(i as int), p),
        decreases n - i,
    {
        assert(s@.skip(i as int).drop_first() == s@.skip(i as int + 1));
        i += 1;
    }
    let ghost rest = s@.skip(i as int);
    assert(strip_start(s@, p) == rest);
    let mut j: usize = n;
    assert(s@.subrange(i as int, j as int) == rest);
    while j > i && white(cs[j - 1])
        invariant
            i <= j <= n,
            n == cs@.len(),
            cs@ == s@,
            p == (|c: char| is_white(c)),
            strip_end(rest, p) == strip_end(s@.subrange(i as int, j as int), p),
        decreases j,
    {
        assert(s@.subrange(i as int, j as int).drop_last() == s@.subrange(i as int, j - 1));
        j -= 1;
    }
    s.substring_char(i, j)
}

/// `s` without characters of `set` at either end.
pub fn strip<'a>(s: &'a str, set: &str) -> (r: &'a str)
    ensures
        r@ == stripped(s@, set@),
{
    let cs = chars_of(s);
    let es = chars_of(set);
    let n = cs.len();
    let ghost p = |c: char| set@.contains(c);
    let mut i: usize = 0;
    assert(s@.skip(0) == s@);
    while i < n && holds(&es, cs[i])
        invariant
            i <= n,
            n == cs@.len(),
            cs@ == s@,
            es@ == set@,
            p == (|c: char| set@.contains(c)),
            strip_start(s@, p) == strip_start(s@.skip(i as int), p),
        decreases n - i,
    {
        assert(s@.skip(i as int).drop_first() == s@.skip(i as int + 1));
        i += 1;
    }
    let ghost rest = s@.skip(i as int);
    assert(strip_start(s@, p) == rest);
    let mut j: usize = n;
    assert(s@.subrange(i as int, j as int) == rest);
    while j > i && holds(&es, cs[j - 1])
        invariant
            i <= j <= n,
            n == cs@.len(),
            cs@ == s@,
            es@ == set@,
            p == (|c: char| set@.contains(c)),
            strip_end(rest, p) == strip_end(s@.subrange(i as int, j as int), p),
        decreases j,
    {
        assert(s@.subrange(i as int, j as int).drop_last() == s@.subrange(i as int, j - 1));
        j -= 1;
    }
    s.substring_char(i, j)
}

/// Whether `c` is one of `set`.
fn holds(set: &Vec<char>, c: char) -> (r: bool)
    ensures
        r == set@.contains(c),
{
    for i in 0..set.len()
        invariant
            forall|j: int| 0 <= j < i ==> set@[j] != c,
    {
        if set[i] == c {
            return true;
        }
    }
    false
}

/// Whether two texts are the same.
pub fn same(a: &str, b: &str) -> (r: bool)
    ensures
        r == (a@ == b@),
{
    let x = chars_of(a);
    let y = chars_of(b);
    if x.len() != y.len() {
        return false;
    }
    for i in 0..x.len()
        invariant
            x@ == a@,
            y@ == b@,
            x@.len() == y@.len(),
            forall|j: int| 0 <= j < i ==> x@[j] == y@[j],
    {
        if x[i] != y[i] {
            return false;
        }
    }
    assert(a@ =~= b@);
    true
}

/// Whether `pat` stands in `s` at position `i`.
pub open spec fn occurs_at(s: Seq<char>, pat: Seq<char>, i: int) -> bool {
    0 <= i && i + pat.len() <= s.len() && s.subrange(i, i + pat.len()) == pat
}

/// The first position from `from` on at which `pat` stands in `s`.
pub open spec fn find_from(s: Seq<char>, pat: Seq<char>, from: int) -> Option<int>
    decreases s.len() + 1 - from,
{
    if from + pat.len() > s.len() {
        None
    } else if occurs_at(s, pat, from) {
        Some(from)
    } else {
        find_from(s, pat, from + 1)
    }
}

/// The first position at which `pat` stands in `s`.
pub open spec fn find(s: Seq<char>, pat: Seq<char>) -> Option<int> {
    find_from(s, pat, 0)
}

/// What `find_from` gives is the least position at or after `from` where `pat` stands, and it
/// gives none only where there is none.
pub proof fn lemma_find_from(s: Seq<char>, pat: Seq<char>, from: int)
    requires
        0 <= from,
    ensures
        find_from(s, pat, from) matches Some(i) ==> from <= i && occurs_at(s, pat, i) && (forall|j: int|
            from <= j < i ==> !occurs_at(s, pat, j)),
        find_from(s, pat, from) is None ==> (forall|j: int| from <= j ==> !occurs_at(s, pat, j)),
    decreases s.len() + 1 - from,
{
    if from + pat.len() > s.len() {
    } else if occurs_at(s, pat, from) {
    } else {
        lemma_find_from(s, pat, from + 1);
    }
}

/// Whether `pat` stands in the characters `s` at position `i`.
fn stands_at(s: &Vec<char>, pat: &Vec<char>, i: usize) -> (r: bool)
    requires
        i + pat@.len() <= s@.len(),
    ensures
        r == occurs_at(s@, pat@, i as int),
{
    let n = s.len();
    for k in 0..pat.len()
        invariant
            n == s@.len(),
            i + pat@.len() <= n,
            forall|j: int| 0 <= j < k ==> s@[i + j] == pat@[j],
    {
        if s[i + k] != pat[k] {
            assert(s@.subrange(i as int, i + pat@.len())[k as int] != pat@[k as int]);
            return false;
        }
    }
    assert(s@.subrange(i as int, i + pat@.len()) =~= pat@);
    true
}

/// The first position from `from` on at which `pat` stands in `s`.
fn position(s: &Vec<char>, pat: &Vec<char>, from: usize) -> (r: Option<usize>)
    requires
        from <= s@.len(),
    ensures
        r is Some == find_from(s@, pat@, from as int) is Some,
        r matches Some(i) ==> find_from(s@, pat@, from as int) == Some(i as int) && from <= i
            && occurs_at(s@, pat@, i as int),
{
    let n = s.len();
    let m = pat.len();
    let mut i: usize = from;
    while i <= n && m <= n - i
        invariant
            from <= i <= n + 1,
            n == s@.len(),
            m == pat@.len(),
            from <= n,
            find_from(s@, pat@, from as int) == find_from(s@, pat@, i as int),
        decreases n + 1 - i,
    {
        if stands_at(s, pat, i) {
            return Some(i);
        }
        if i == n {
            assert(find_from(s@, pat@, i + 1) is None);
            return None;
        }
        i += 1;
    }
    None
}

/// Whether `s` contains `pat`.
pub open spec fn includes(s: Seq<char>, pat: Seq<char>) -> bool {
    exists|i: int| occurs_at(s, pat, i)
}

/// Whether `s` contains `pat`.
pub fn contains(s: &str, pat: &str) -> (r: bool)
    ensures
        r == includes(s@, pat@),
{
    let cs = chars_of(s);
    let ps = chars_of(pat);
    proof {
        lemma_find_from(s@, pat@, 0);
    }
    match position(&cs, &ps, 0) {
        Some(_) => true,
        None => false,
    }
}

/// Whether `s` begins with `p`.
pub open spec fn begins(s: Seq<char>, p: Seq<char>) -> bool {
    p.len() <= s.len() && s.take(p.len() as int) == p
}

/// Whether `s` ends with `p`.
pub open spec fn ends(s: Seq<char>, p: Seq<char>) -> bool {
    p.len() <= s.len() && s.skip(s.len() - p.len()) == p
}

/// Whether `s` begins with `p`.
pub fn starts_with(s: &str, p: &str) -> (r: bool)
    ensures
        r == begins(s@, p@),
{
    let cs = chars_of(s);
    let ps = chars_of(p);
    ps.len() <= cs.len() && stands_at(&cs, &ps, 0)
}

/// Whether `s` ends with `p`.
pub fn ends_with(s: &str, p: &str) -> (r: bool)
    ensures
        r == ends(s@, p@),
{
    let cs = chars_of(s);
    let ps = chars_of(p);
    if ps.len() <= cs.len() {
        let k = cs.len() - ps.len();
        assert(cs@.skip(k as int) == cs@.subrange(k as int, k + ps@.len()));
        stands_at(&cs, &ps, k)
    } else {
        false
    }
}

/// The part of `s` before the first `pat`: all of `s` where there is none.
pub open spec fn before(s: Seq<char>, pat: Seq<char>) -> Seq<char> {
    match find(s, pat) {
        Some(i) => s.take(i),
        None => s,
    }
}

/// The part of `s` after the first `pat`: nothing where there is none.
pub open spec fn after(s: Seq<char>, pat: Seq<char>) -> Seq<char> {
    match find(s, pat) {
        Some(i) => s.skip(i + pat.len()),
        None => Seq::empty(),
    }
}

/// The part of `s` before the first `pat`: all of `s` where there is none.
pub fn head<'a>(s: &'a str, pat: &str) -> (r: &'a str)
    ensures
        r@ == before(s@, pat@),
{
    let cs = chars_of(s);
    let ps = chars_of(pat);
    match position(&cs, &ps, 0) {
        Some(i) => s.substring_char(0, i),
        None => s,
    }
}

/// The part of `s` after the first `pat`: nothing where there is none.
pub fn tail<'a>(s: &'a str, pat: &str) -> (r: &'a str)
    ensures
        r@ == after(s@, pat@),
{
    let cs = chars_of(s);
    let ps = chars_of(pat);
    let n = cs.len();
    match position(&cs, &ps, 0) {
        Some(i) => s.substring_char(i + ps.len(), n),
        None => {
            let e = s.substring_char(n, n);
            assert(e@ =~= Seq::<char>::empty());
            e
        },
    }
}

/// The pieces of `s` from position `from` on that `sep` separates, in at most `limit` pieces:
/// the last piece then holds the rest, separators and all.
pub open spec fn pieces_from(s: Seq<char>, sep: Seq<char>, limit: nat, from: int) -> Seq<Seq<char>>
    decreases s.len() - from,
{
    if limit <= 1 || sep.len() == 0 {
        Seq::empty().push(s.skip(from))
    } else {
        match find_from(s, sep, from) {
            Some(i) => if from <= i && i + sep.len() <= s.len() {
                Seq::empty().push(s.subrange(from, i)) + pieces_from(
                    s,
                    sep,
                    (limit - 1) as nat,
                    i + sep.len() as int,
                )
            } else {
                Seq::empty()
            },
            None => Seq::empty().push(s.skip(from)),
        }
    }
}

/// The pieces of `s` that `sep` separates, in at most `limit` pieces.
pub open spec fn pieces_at_most(s: Seq<char>, sep: Seq<char>, limit: nat) -> Seq<Seq<char>> {
    pieces_from(s, sep, limit, 0)
}

/// All the pieces of `s` that `sep` separates.
pub open spec fn pieces(s: Seq<char>, sep: Seq<char>) -> Seq<Seq<char>> {
    pieces_from(s, sep, s.len() + 2, 0)
}

/// There is always a piece.
pub proof fn lemma_pieces_some(s: Seq<char>, sep: Seq<char>)
    requires
        sep.len() > 0,
    ensures
        pieces(s, sep).len() > 0,
{
    lemma_find_from(s, sep, 0);
}

/// A limit above what the rest of `s` can be cut into is no limit.
pub proof fn lemma_limit(s: Seq<char>, sep: Seq<char>, a: nat, b: nat, from: int)
    requires
        sep.len() > 0,
        0 <= from <= s.len(),
        s.len() - from + 2 <= a,
        s.len() - from + 2 <= b,
    ensures
        pieces_from(s, sep, a, from) == pieces_from(s, sep, b, from),
    decreases s.len() - from,
{
    lemma_find_from(s, sep, from);
    match find_from(s, sep, from) {
        Some(i) => {
            lemma_limit(s, sep, (a - 1) as nat, (b - 1) as nat, i + sep.len() as int);
        },
        None => {},
    }
}

/// The pieces of `s` that `sep` separates, in at most `limit` pieces.
pub fn splitn<'a>(s: &'a str, sep: &str, limit: usize) -> (r: Vec<&'a str>)
    requires
        sep@.len() > 0,
        limit > 0,
    ensures
        r.deep_view() == pieces_at_most(s@, sep@, limit as nat),
{
    let cs = chars_of(s);
    let ps = chars_of(sep);
    let n = cs.len();
    let mut out: Vec<&'a str> = Vec::new();
    let mut from: usize = 0;
    let mut left: usize = limit;
    let ghost all = pieces_at_most(s@, sep@, limit as nat);
    assert(out.deep_view() + pieces_from(s@, sep@, left as nat, from as int) =~= all);
    while left > 1
        invariant_except_break
            1 <= left,
            from <= n,
            n == cs@.len(),
            cs@ == s@,
            ps@ == sep@,
            sep@.len() > 0,
            out.deep_view() + pieces_from(s@, sep@, left as nat, from as int) == all,
        ensures
            from <= n,
            out.deep_view().push(s@.skip(from as int)) == all,
        decreases left,
    {
        match position(&cs, &ps, from) {
            Some(i) => {
                let piece = s.substring_char(from, i);
                let ghost was = out.deep_view();
                let ghost now = from as int;
                out.push(piece);
                from = i + ps.len();
                left -= 1;
                proof {
                    assert(out.deep_view() =~= was.push(s@.subrange(now, i as int)));
                    assert(out.deep_view() + pieces_from(s@, sep@, left as nat, from as int) =~= was
                        + pieces_from(s@, sep@, (left + 1) as nat, now));
                }
                if left == 1 {
                    assert(out.deep_view() + pieces_from(s@, sep@, 1, from as int)
                        =~= out.deep_view().push(s@.skip(from as int)));
                }
            },
            None => {
                assert(out.deep_view() + pieces_from(s@, sep@, left as nat, from as int)
                    =~= out.deep_view().push(s@.skip(from as int)));
                break;
            },
        }
    }
    let ghost was = out.deep_view();
    let last = s.substring_char(from, n);
    out.push(last);
    assert(out.deep_view() =~= was.push(s@.skip(from as int)));
    out
}

/// All the pieces of `s` that `sep` separates.
pub fn split<'a>(s: &'a str, sep: &str) -> (r: Vec<&'a str>)
    requires
        sep@.len() > 0,
    ensures
        r.deep_view() == pieces(s@, sep@),
{
    let cs = chars_of(s);
    let ps = chars_of(sep);
    let n = cs.len();
    let mut out: Vec<&'a str> = Vec::new();
    let mut from: usize = 0;
    let ghost all = pieces(s@, sep@);
    let ghost mut left: nat = s@.len() + 2;
    assert(out.deep_view() + pieces_from(s@, sep@, left, from as int) =~= all);
    loop
        invariant_except_break
            from <= n,
            n == cs@.len(),
            cs@ == s@,
            ps@ == sep@,
            sep@.len() > 0,
            left >= n - from + 2,
            out.deep_view() + pieces_from(s@, sep@, left, from as int) == all,
        ensures
            from <= n,
            out.deep_view().push(s@.skip(from as int)) == all,
        decreases n - from,
    {
        match position(&cs, &ps, from) {
            Some(i) => {
                let piece = s.substring_char(from, i);
                let ghost was = out.deep_view();
                let ghost now = from as int;
                out.push(piece);
                from = i + ps.len();
                proof {
                    left = (left - 1) as nat;
                    assert(out.deep_view() =~= was.push(s@.subrange(now, i as int)));
                    assert(out.deep_view() + pieces_from(s@, sep@, left, from as int) =~= was
                        + pieces_from(s@, sep@, left + 1, now));
                }
            },
            None => {
                assert(out.deep_view() + pieces_from(s@, sep@, left, from as int)
                    =~= out.deep_view().push(s@.skip(from as int)));
                break;
            },
        }
    }
    let ghost was = out.deep_view();
    let last = s.substring_char(from, n);
    out.push(last);
    assert(out.deep_view() =~= was.push(s@.skip(from as int)));
    out
}

/// The decimal digit of value `d`.
pub open spec fn digit_char(d: nat) -> char {
    (0x30 + d) as char
}

/// `n` in decimal digits, without leading zeros.
pub open spec fn nat_text(n: nat) -> Seq<char>
    decreases n,
{
    if n < 10 {
        Seq::empty().push(digit_char(n))
    } else {
        nat_text(n / 10).push(digit_char(n % 10))
    }
}

/// `i` in decimal digits, with a minus sign where it is negative.
pub open spec fn int_text(i: int) -> Seq<char> {
    if i < 0 {
        "-"@ + nat_text((-i) as nat)
    } else {
        nat_text(i as nat)
    }
}

/// `n` in decimal digits.
pub fn number(n: u64) -> (r: String)
    ensures
        r@ == nat_text(n as nat),
    decreases n,
{
    let mut s = if n < 10 {
        String::new()
    } else {
        number(n / 10)
    };
    let d: u8 = (n % 10) as u8;
    s.push((48 + d) as char);
    s
}

/// `i` in decimal digits, with a minus sign where it is negative.
pub fn integer(i: i64) -> (r: String)
    ensures
        r@ == int_text(i as int),
{
    if i < 0 {
        let m: i128 = -(i as i128);
        "-".to_string().concat(number(m as u64).as_str())
    } else {
        number(i as u64)
    }
}

/// `n` times the character `c`.
pub open spec fn times(c: char, n: nat) -> Seq<char> {
    Seq::new(n, |i: int| c)
}

/// `n` times the character `c`.
pub fn repeat(c: char, n: usize) -> (r: String)
    ensures
        r@ == times(c, n as nat),
{
    let mut s = String::new();
    for i in 0..n
        invariant
            s@ == times(c, i as nat),
    {
        s.push(c);
        assert(s@ =~= times(c, (i + 1) as nat));
    }
    s
}

/// `s` with blanks behind it up to `width` characters.
pub open spec fn padded(s: Seq<char>, width: nat) -> Seq<char> {
    if s.len() >= width {
        s
    } else {
        s + times(' ', (width - s.len()) as nat)
    }
}

/// `s` with blanks behind it up to `width` characters.
pub fn pad(s: &str, width: usize) -> (r: String)
    ensures
        r@ == padded(s@, width as nat),
{
    let n = s.unicode_len();
    if n >= width {
        s.to_string()
    } else {
        s.to_string().concat(repeat(' ', width - n).as_str())
    }
}

/// The texts of `list`, with `sep` between each two.
pub open spec fn joined(list: Seq<Seq<char>>, sep: Seq<char>) -> Seq<char>
    decreases list.len(),
{
    if list.len() == 0 {
        Seq::empty()
    } else if list.len() == 1 {
        list[0]
    } else {
        joined(list.drop_last(), sep) + sep + list.last()
    }
}

/// The texts of `list`, with `sep` between each two.
pub fn join(list: &Vec<String>, sep: &str) -> (r: String)
    ensures
        r@ == joined(list.deep_view(), sep@),
{
    let mut s = String::new();
    let ghost all = list.deep_view();
    for i in 0..list.len()
        invariant
            all == list.deep_view(),
            s@ == joined(all.take(i as int), sep@),
    {
        assert(all.take(i + 1).drop_last() =~= all.take(i as int));
        if i > 0 {
            s.append(sep);
        } else {
            assert(s@ + all[0] =~= all[0]);
        }
        s.append(list[i].as_str());
    }
    assert(all.take(list@.len() as int) =~= all);
    s
}

/// Whether `c` is a decimal digit.
pub open spec fn is_digit(c: char) -> bool {
    0x30 <= c as u32 <= 0x39
}

/// The number that the digits `s` write in decimal.
pub open spec fn digits_value(s: Seq<char>) -> nat
    decreases s.len(),
{
    if s.len() == 0 {
        0
    } else {
        digits_value(s.drop_last()) * 10 + (s.last() as u32 - 0x30) as nat
    }
}

/// Whether `s` holds digits alone.
pub open spec fn all_digits(s: Seq<char>) -> bool {
    forall|i: int| 0 <= i < s.len() ==> is_digit(#[trigger] s[i])
}

/// `s` without one plus sign at its start.
pub open spec fn without_plus(s: Seq<char>) -> Seq<char> {
    if s.len() > 0 && s[0] == '+' {
        s.drop_first()
    } else {
        s
    }
}

/// The number of one byte that `s` writes: digits, with or without a plus sign before them.
pub open spec fn byte_value(s: Seq<char>) -> Option<u8> {
    let d = without_plus(s);
    if d.len() > 0 && all_digits(d) && digits_value(d) <= 255 {
        Some(digits_value(d) as u8)
    } else {
        None
    }
}

/// The number of one byte that `s` writes: digits, with or without a plus sign before them.
pub fn parse_byte(s: &str) -> (r: Option<u8>)
    ensures
        r == byte_value(s@),
{
    let cs = chars_of(s);
    let n = cs.len();
    let first: usize = if n > 0 && cs[0] == '+' {
        1
    } else {
        0
    };
    let ghost d = s@.skip(first as int);
    proof {
        assert(s@.skip(0) =~= s@);
        if first == 1 {
            assert(s@.skip(1) =~= s@.drop_first());
        }
    }
    if first == n {
        return None;
    }
    let mut acc: u32 = 0;
    let mut i: usize = first;
    assert(d.take(0) =~= Seq::<char>::empty());
    while i < n
        invariant
            first <= i <= n,
            n == cs@.len(),
            cs@ == s@,
            d == s@.skip(first as int),
            d == without_plus(s@),
            acc <= 256,
            digits_value(d.take(i - first)) >= acc,
            acc < 256 ==> digits_value(d.take(i - first)) == acc,
            forall|j: int| 0 <= j < i - first ==> is_digit(d[j]),
        decreases n - i,
    {
        let c: u32 = cs[i] as u32;
        assert(d[i - first] == cs@[i as int]);
        if c < 0x30 || c > 0x39 {
            assert(!is_digit(d[i - first]));
            return None;
        }
        let ghost t = d.take(i + 1 - first);
        assert(t.drop_last() =~= d.take(i - first));
        let next: u32 = acc * 10 + (c - 0x30);
        acc = if next > 256 {
            256
        } else {
            next
        };
        i += 1;
    }
    assert(d.take(n - first) =~= d);
    if acc > 255 {
        None
    } else {
        Some(acc as u8)
    }
}

/// The number that `s` writes in digits alone, where it is not too large for a row.
pub open spec fn number_value(s: Seq<char>) -> Option<i64> {
    if s.len() > 0 && all_digits(s) && digits_value(s) <= i64::MAX {
        Some(digits_value(s) as i64)
    } else {
        None
    }
}

/// The number that `s` writes in digits alone, where it is not too large for a row.
pub fn parse_number(s: &str) -> (r: Option<i64>)
    ensures
        r == number_value(s@),
{
    let cs = chars_of(s);
    let n = cs.len();
    if n == 0 {
        return None;
    }
    let limit: u128 = 0x8000_0000_0000_0000;
    let mut acc: u128 = 0;
    assert(s@.take(0) =~= Seq::<char>::empty());
    for i in 0..n
        invariant
            n == cs@.len(),
            cs@ == s@,
            limit == 0x8000_0000_0000_0000,
            acc <= limit,
            digits_value(s@.take(i as int)) >= acc,
            acc < limit ==> digits_value(s@.take(i as int)) == acc,
            forall|j: int| 0 <= j < i ==> is_digit(#[trigger] s@[j]),
    {
        let c: u32 = cs[i] as u32;
        if c < 0x30 || c > 0x39 {
            assert(!is_digit(s@[i as int]));
            return None;
        }
        assert(s@.take(i + 1).drop_last() =~= s@.take(i as int));
        let next: u128 = acc * 10 + (c - 0x30) as u128;
        acc = if next > limit {
            limit
        } else {
            next
        };
    }
    assert(s@.take(n as int) =~= s@);
    if acc >= limit {
        None
    } else {
        Some(acc as i64)
    }
}

/// The digits of a number write that number.
pub proof fn lemma_nat_text(n: nat)
    ensures
        digits_value(nat_text(n)) == n,
        nat_text(n).len() > 0,
        all_digits(nat_text(n)),
    decreases n,
{
    if n < 10 {
        assert(nat_text(n).drop_last() =~= Seq::<char>::empty());
        assert(digits_value(nat_text(n).drop_last()) == 0);
    } else {
        lemma_nat_text(n / 10);
        assert(nat_text(n).drop_last() =~= nat_text(n / 10));
        assert forall|i: int| 0 <= i < nat_text(n).len() implies is_digit(#[trigger] nat_text(n)[i]) by {
            if i < nat_text(n / 10).len() {
                assert(nat_text(n)[i] == nat_text(n / 10)[i]);
            }
        }
    }
}

/// Whether `c` stands nowhere in `s`.
pub open spec fn lacks(s: Seq<char>, c: char) -> bool {
    forall|i: int| 0 <= i < s.len() ==> #[trigger] s[i] != c
}

/// A pattern of one character stands where that character stands.
pub proof fn lemma_single(s: Seq<char>, pat: Seq<char>, i: int)
    requires
        pat.len() == 1,
    ensures
        occurs_at(s, pat, i) <==> 0 <= i < s.len() && s[i] == pat[0],
{
    if 0 <= i < s.len() {
        let w = s.subrange(i, i + 1);
        assert(w[0] == s[i]);
        if s[i] == pat[0] {
            assert(w =~= pat);
        }
    }
}

/// What is before the first of a character has none of it.
pub proof fn lemma_before_lacks(s: Seq<char>, pat: Seq<char>)
    requires
        pat.len() == 1,
    ensures
        lacks(before(s, pat), pat[0]),
{
    lemma_find_from(s, pat, 0);
    let b = before(s, pat);
    assert forall|i: int| 0 <= i < b.len() implies #[trigger] b[i] != pat[0] by {
        lemma_single(s, pat, i);
    }
}

proof fn lemma_find_shift(pre: Seq<char>, s: Seq<char>, pat: Seq<char>, k: int)
    requires
        0 <= k,
    ensures
        find_from(pre + s, pat, pre.len() + k) == (match find_from(s, pat, k) {
            Some(i) => Some(i + pre.len()),
            None => None,
        }),
    decreases s.len() + 1 - k,
{
    if k + pat.len() <= s.len() {
        assert((pre + s).subrange(pre.len() + k, pre.len() + k + pat.len()) =~= s.subrange(
            k,
            k + pat.len(),
        ));
        if !occurs_at(s, pat, k) {
            lemma_find_shift(pre, s, pat, k + 1);
        }
    }
}

proof fn lemma_pieces_shift(pre: Seq<char>, s: Seq<char>, sep: Seq<char>, limit: nat, k: int)
    requires
        sep.len() > 0,
        0 <= k <= s.len(),
    ensures
        pieces_from(pre + s, sep, limit, pre.len() + k) == pieces_from(s, sep, limit, k),
    decreases s.len() - k,
{
    assert((pre + s).skip(pre.len() + k) =~= s.skip(k));
    if limit > 1 {
        lemma_find_shift(pre, s, sep, k);
        lemma_find_from(s, sep, k);
        match find_from(s, sep, k) {
            Some(i) => {
                assert((pre + s).subrange(pre.len() + k, pre.len() + i) =~= s.subrange(k, i));
                lemma_pieces_shift(pre, s, sep, (limit - 1) as nat, i + sep.len() as int);
            },
            None => {},
        }
    }
}

/// A text without the separator is one piece.
pub proof fn lemma_one_piece(s: Seq<char>, sep: Seq<char>)
    requires
        sep.len() == 1,
        lacks(s, sep[0]),
    ensures
        pieces(s, sep) == Seq::empty().push(s),
{
    lemma_find_from(s, sep, 0);
    if find_from(s, sep, 0) is Some {
        lemma_single(s, sep, find_from(s, sep, 0)->0);
    }
    assert(s.skip(0) =~= s);
}

/// The first place where a pattern stands is where it is found.
pub proof fn lemma_found_at(s: Seq<char>, pat: Seq<char>, from: int, n: int)
    requires
        from <= n,
        occurs_at(s, pat, n),
        forall|j: int| from <= j < n ==> !occurs_at(s, pat, j),
    ensures
        find_from(s, pat, from) == Some(n),
    decreases n - from,
{
    if from < n {
        lemma_found_at(s, pat, from + 1, n);
    }
}

/// The first separator stands behind a text that lacks it.
pub proof fn lemma_first_separator(a: Seq<char>, sep: Seq<char>, rest: Seq<char>)
    requires
        sep.len() == 1,
        lacks(a, sep[0]),
    ensures
        find(a + sep + rest, sep) == Some(a.len() as int),
{
    let s = a + sep + rest;
    let n = a.len() as int;
    assert(occurs_at(s, sep, n)) by {
        assert(s[n] == sep[0]);
        lemma_single(s, sep, n);
    }
    assert forall|j: int| 0 <= j < n implies !occurs_at(s, sep, j) by {
        assert(s[j] == a[j]);
        lemma_single(s, sep, j);
    }
    lemma_found_at(s, sep, 0, n);
}

/// What stands before the first separator is the first piece; the others are those of the rest.
pub proof fn lemma_first_piece(a: Seq<char>, sep: Seq<char>, rest: Seq<char>)
    requires
        sep.len() == 1,
        lacks(a, sep[0]),
    ensures
        pieces(a + sep + rest, sep) == Seq::empty().push(a) + pieces(rest, sep),
{
    let s = a + sep + rest;
    let n = a.len() as int;
    let limit = (s.len() + 1) as nat;
    lemma_first_separator(a, sep, rest);
    assert(s.subrange(0, n) =~= a);
    assert(pieces_from(s, sep, limit, n + 1) == pieces(rest, sep)) by {
        lemma_pieces_shift(a + sep, rest, sep, limit, 0);
        lemma_limit(rest, sep, limit, rest.len() + 2, 0);
    }
}

/// The pieces have no character that the text lacks, nor the separator.
pub proof fn lemma_pieces_lack(s: Seq<char>, sep: Seq<char>, limit: nat, from: int, c: char)
    requires
        sep.len() == 1,
        0 <= from <= s.len(),
        limit >= s.len() - from + 2,
        lacks(s, c) || c == sep[0],
    ensures
        forall|k: int|
            0 <= k < pieces_from(s, sep, limit, from).len() ==> lacks(
                #[trigger] pieces_from(s, sep, limit, from)[k],
                c,
            ),
    decreases s.len() - from,
{
    lemma_find_from(s, sep, from);
    let all = pieces_from(s, sep, limit, from);
    match find_from(s, sep, from) {
        Some(i) => {
            let rest = pieces_from(s, sep, (limit - 1) as nat, i + 1);
            lemma_pieces_lack(s, sep, (limit - 1) as nat, i + 1, c);
            let first = s.subrange(from, i);
            assert forall|j: int| 0 <= j < first.len() implies #[trigger] first[j] != c by {
                assert(first[j] == s[from + j]);
                lemma_single(s, sep, from + j);
            }
            assert forall|k: int| 0 <= k < all.len() implies lacks(#[trigger] all[k], c) by {
                if k > 0 {
                    assert(all[k] == rest[k - 1]);
                }
            }
        },
        None => {
            let last = s.skip(from);
            assert forall|j: int| 0 <= j < last.len() implies #[trigger] last[j] != c by {
                assert(last[j] == s[from + j]);
                lemma_single(s, sep, from + j);
            }
        },
    }
}

/// The white characters are the blank, the tab, the line ends and the other spaces of Unicode.
pub proof fn law_white(c: char)
    ensures
        is_white(c) <==> (c == ' ' || c == '\t' || c == '\n' || c == '\u{b}' || c == '\u{c}' || c
            == '\r' || c == '\u{85}' || c == '\u{a0}' || c == '\u{1680}' || '\u{2000}' as int <= c as int
            <= '\u{200a}' as int || c == '\u{2028}' || c == '\u{2029}' || c == '\u{202f}' || c
            == '\u{205f}' || c == '\u{3000}'),
{
}

proof fn lemma_strip_start(s: Seq<char>, p: spec_fn(char) -> bool) -> (i: int)
    ensures
        0 <= i <= s.len(),
        strip_start(s, p) == s.skip(i),
        forall|k: int| 0 <= k < i ==> p(#[trigger] s[k]),
        i < s.len() ==> !p(s[i]),
    decreases s.len(),
{
    if s.len() > 0 && p(s[0]) {
        let t = s.drop_first();
        let k = lemma_strip_start(t, p);
        assert(t.skip(k) =~= s.skip(k + 1));
        assert forall|m: int| 0 <= m < k + 1 implies p(#[trigger] s[m]) by {
            if m > 0 {
                assert(t[m - 1] == s[m]);
            }
        }
        k + 1
    } else {
        assert(s.skip(0) =~= s);
        0
    }
}

proof fn lemma_strip_end(s: Seq<char>, p: spec_fn(char) -> bool) -> (j: int)
    ensures
        0 <= j <= s.len(),
        strip_end(s, p) == s.take(j),
        forall|k: int| j <= k < s.len() ==> p(#[trigger] s[k]),
        j > 0 ==> !p(s[j - 1]),
    decreases s.len(),
{
    if s.len() > 0 && p(s.last()) {
        let j = lemma_strip_end(s.drop_last(), p);
        assert(s.drop_last().take(j) =~= s.take(j));
        assert forall|k: int| j <= k < s.len() implies p(#[trigger] s[k]) by {
            if k < s.len() - 1 {
                assert(s.drop_last()[k] == s[k]);
            }
        }
        j
    } else {
        assert(s.take(s.len() as int) =~= s);
        s.len() as int
    }
}

proof fn lemma_both_ends(s: Seq<char>, p: spec_fn(char) -> bool) -> (r: (int, int))
    ensures
        0 <= r.0 <= r.1 <= s.len(),
        strip_end(strip_start(s, p), p) == s.subrange(r.0, r.1),
        forall|k: int| 0 <= k < r.0 || r.1 <= k < s.len() ==> p(#[trigger] s[k]),
        r.0 < r.1 ==> !p(s[r.0]) && !p(s[r.1 - 1]),
{
    let i = lemma_strip_start(s, p);
    let t = s.skip(i);
    let j = lemma_strip_end(t, p);
    assert(t.take(j) =~= s.subrange(i, i + j));
    assert forall|k: int| i + j <= k < s.len() implies p(#[trigger] s[k]) by {
        assert(t[k - i] == s[k]);
    }
    (i, i + j)
}

/// Trimming takes away white space at both ends, all of it, and nothing else.
pub proof fn law_trimmed(s: Seq<char>)
    ensures
        exists|i: int, j: int|
            0 <= i <= j <= s.len() && trimmed(s) == #[trigger] s.subrange(i, j) && (forall|k: int|
                0 <= k < i || j <= k < s.len() ==> is_white(#[trigger] s[k])) && (i < j
                ==> !is_white(s[i]) && !is_white(s[j - 1])),
{
    let r = lemma_both_ends(s, |c: char| is_white(c));
    assert(trimmed(s) == s.subrange(r.0, r.1));
}

/// Stripping takes away characters of a set at both ends, all of them, and nothing else.
pub proof fn law_stripped(s: Seq<char>, set: Seq<char>)
    ensures
        exists|i: int, j: int|
            0 <= i <= j <= s.len() && stripped(s, set) == #[trigger] s.subrange(i, j) && (forall|k: int|
                0 <= k < i || j <= k < s.len() ==> set.contains(#[trigger] s[k])) && (i < j
                ==> !set.contains(s[i]) && !set.contains(s[j - 1])),
{
    let r = lemma_both_ends(s, |c: char| set.contains(c));
    assert(stripped(s, set) == s.subrange(r.0, r.1));
}

/// A pattern stands where each of its characters stands.
pub proof fn law_occurs(s: Seq<char>, pat: Seq<char>, i: int)
    ensures
        occurs_at(s, pat, i) <==> 0 <= i && i + pat.len() <= s.len() && forall|k: int|
            0 <= k < pat.len() ==> s[i + k] == #[trigger] pat[k],
{
    if 0 <= i && i + pat.len() <= s.len() {
        let w = s.subrange(i, i + pat.len());
        if forall|k: int| 0 <= k < pat.len() ==> s[i + k] == #[trigger] pat[k] {
            assert(w =~= pat);
        }
        if w == pat {
            assert forall|k: int| 0 <= k < pat.len() implies s[i + k] == #[trigger] pat[k] by {
                assert(w[k] == s[i + k]);
            }
        }
    }
}

/// A text begins with what it is made up of first, and ends with what it is made up of last.
pub proof fn law_begins_and_ends(s: Seq<char>, p: Seq<char>)
    ensures
        begins(s, p) <==> exists|rest: Seq<char>| s == #[trigger] (p + rest),
        ends(s, p) <==> exists|rest: Seq<char>| s == #[trigger] (rest + p),
{
    if begins(s, p) {
        assert(s =~= p + s.skip(p.len() as int));
    }
    if exists|rest: Seq<char>| s == #[trigger] (p + rest) {
        let rest = choose|rest: Seq<char>| s == #[trigger] (p + rest);
        assert(s.take(p.len() as int) =~= p);
    }
    if ends(s, p) {
        assert(s =~= s.take(s.len() - p.len()) + p);
    }
    if exists|rest: Seq<char>| s == #[trigger] (rest + p) {
        let rest = choose|rest: Seq<char>| s == #[trigger] (rest + p);
        assert(s.skip(s.len() - p.len()) =~= p);
    }
}

/// A text is what is before a pattern, the pattern, and what is after it, at the first place where
/// the pattern stands; where it stands nowhere, all of the text is before it.
pub proof fn law_before_and_after(s: Seq<char>, pat: Seq<char>)
    ensures
        includes(s, pat) ==> s == before(s, pat) + pat + after(s, pat) && forall|i: int|
            0 <= i < before(s, pat).len() ==> !occurs_at(s, pat, i),
        !includes(s, pat) ==> before(s, pat) == s && after(s, pat).len() == 0,
{
    lemma_find_from(s, pat, 0);
    match find(s, pat) {
        Some(i) => {
            assert(s =~= s.take(i) + s.subrange(i, i + pat.len()) + s.skip(i + pat.len()));
        },
        None => {},
    }
}

/// How texts are joined: nothing is nothing, one text is itself, and each further one follows a
/// separator.
pub proof fn law_joined(list: Seq<Seq<char>>, x: Seq<char>, sep: Seq<char>)
    ensures
        joined(Seq::empty(), sep).len() == 0,
        joined(list.push(x), sep) == if list.len() == 0 {
            x
        } else {
            joined(list, sep) + sep + x
        },
{
    assert(list.push(x).drop_last() =~= list);
}

proof fn lemma_joined_front(a: Seq<char>, rest: Seq<Seq<char>>, sep: Seq<char>)
    requires
        rest.len() > 0,
    ensures
        joined(Seq::empty().push(a) + rest, sep) == a + sep + joined(rest, sep),
    decreases rest.len(),
{
    let all = Seq::empty().push(a) + rest;
    assert(all.last() == rest.last());
    if rest.len() == 1 {
        assert(all.drop_last() =~= Seq::empty().push(a));
        assert(joined(Seq::empty().push(a), sep) == a);
        assert(joined(rest, sep) == rest[0]);
    } else {
        lemma_joined_front(a, rest.drop_last(), sep);
        assert(all.drop_last() =~= Seq::empty().push(a) + rest.drop_last());
        assert(a + sep + joined(rest.drop_last(), sep) + sep + rest.last() =~= a + sep + joined(
            rest,
            sep,
        ));
    }
}

proof fn lemma_cut(s: Seq<char>, sep: Seq<char>, limit: nat, from: int)
    requires
        sep.len() > 0,
        limit > 0,
        0 <= from <= s.len(),
    ensures
        ({
            let p = pieces_from(s, sep, limit, from);
            &&& 1 <= p.len() <= limit
            &&& joined(p, sep) == s.skip(from)
            &&& forall|k: int|
                0 <= k < p.len() && (k < p.len() - 1 || p.len() < limit) ==> !includes(
                    #[trigger] p[k],
                    sep,
                )
        }),
    decreases s.len() - from,
{
    lemma_find_from(s, sep, from);
    let p = pieces_from(s, sep, limit, from);
    if limit > 1 {
        match find_from(s, sep, from) {
            Some(i) => {
                let first = s.subrange(from, i);
                let next = i + sep.len() as int;
                let rest = pieces_from(s, sep, (limit - 1) as nat, next);
                lemma_cut(s, sep, (limit - 1) as nat, next);
                lemma_joined_front(first, rest, sep);
                assert(s.skip(from) =~= first + s.subrange(i, next) + s.skip(next));
                assert(!includes(first, sep)) by {
                    if includes(first, sep) {
                        let k = choose|k: int| occurs_at(first, sep, k);
                        assert(first.subrange(k, k + sep.len()) =~= s.subrange(
                            from + k,
                            from + k + sep.len(),
                        ));
                        assert(occurs_at(s, sep, from + k));
                    }
                }
                assert forall|k: int|
                    0 <= k < p.len() && (k < p.len() - 1 || p.len() < limit) implies !includes(
                    #[trigger] p[k],
                    sep,
                ) by {
                    if k > 0 {
                        assert(p[k] == rest[k - 1]);
                    }
                }
            },
            None => {
                let last = s.skip(from);
                assert(!includes(last, sep)) by {
                    if includes(last, sep) {
                        let k = choose|k: int| occurs_at(last, sep, k);
                        assert(last.subrange(k, k + sep.len()) =~= s.subrange(
                            from + k,
                            from + k + sep.len(),
                        ));
                        assert(occurs_at(s, sep, from + k));
                    }
                }
            },
        }
    }
}

proof fn lemma_all_cut(s: Seq<char>, sep: Seq<char>, limit: nat, from: int)
    requires
        sep.len() > 0,
        0 <= from <= s.len(),
        limit >= s.len() - from + 2,
    ensures
        pieces_from(s, sep, limit, from).len() < limit,
    decreases s.len() - from,
{
    lemma_find_from(s, sep, from);
    match find_from(s, sep, from) {
        Some(i) => {
            lemma_all_cut(s, sep, (limit - 1) as nat, i + sep.len() as int);
        },
        None => {},
    }
}

/// The pieces of a text, joined again, are the text, and no piece holds the separator.
pub proof fn law_pieces(s: Seq<char>, sep: Seq<char>)
    requires
        sep.len() > 0,
    ensures
        joined(pieces(s, sep), sep) == s,
        forall|k: int| 0 <= k < pieces(s, sep).len() ==> !includes(#[trigger] pieces(s, sep)[k], sep),
{
    lemma_cut(s, sep, s.len() + 2, 0);
    lemma_all_cut(s, sep, s.len() + 2, 0);
    assert(s.skip(0) =~= s);
}

/// At most so many pieces, joined again, are the text; only the last of the most that there may be
/// can hold the separator.
pub proof fn law_pieces_at_most(s: Seq<char>, sep: Seq<char>, limit: nat)
    requires
        sep.len() > 0,
        limit > 0,
    ensures
        ({
            let p = pieces_at_most(s, sep, limit);
            &&& 1 <= p.len() <= limit
            &&& joined(p, sep) == s
            &&& forall|k: int|
                0 <= k < p.len() && (k < p.len() - 1 || p.len() < limit) ==> !includes(
                    #[trigger] p[k],
                    sep,
                )
        }),
{
    lemma_cut(s, sep, limit, 0);
    assert(s.skip(0) =~= s);
}

/// Numbers are written in decimal: a digit is itself, and ten times a number and a digit is that
/// number with the digit behind it.
pub proof fn law_decimal(n: nat, d: nat)
    requires
        d < 10,
    ensures
        nat_text(d) == Seq::empty().push("0123456789"@[d as int]),
        n > 0 ==> nat_text(10 * n + d) == nat_text(n).push("0123456789"@[d as int]),
{
    reveal_strlit("0123456789");
    assert((10 * n + d) / 10 == n);
    assert((10 * n + d) % 10 == d);
}

/// No number but zero begins with a zero.
pub proof fn law_no_leading_zero(n: nat)
    ensures
        nat_text(n)[0] == '0' <==> n == 0,
    decreases n,
{
    if n >= 10 {
        law_no_leading_zero(n / 10);
        lemma_nat_text(n / 10);
        assert(nat_text(n)[0] == nat_text(n / 10)[0]);
    }
}

/// A negative number is written as a minus sign and what it lacks to zero.
pub proof fn law_signed(n: nat)
    ensures
        int_text(n as int) == nat_text(n),
        n > 0 ==> int_text(-(n as int)) == Seq::empty().push('-') + nat_text(n),
{
    reveal_strlit("-");
    assert("-"@ =~= Seq::empty().push('-'));
}

/// Different numbers are written differently.
pub proof fn law_numbers_differ(a: int, b: int)
    requires
        int_text(a) == int_text(b),
    ensures
        a == b,
{
    let x = (if a < 0 {
        -a
    } else {
        a
    }) as nat;
    let y = (if b < 0 {
        -b
    } else {
        b
    }) as nat;
    lemma_nat_text(x);
    lemma_nat_text(y);
    reveal_strlit("-");
    assert(is_digit(nat_text(x)[0]) && is_digit(nat_text(y)[0]));
    if a < 0 && b < 0 {
        assert(int_text(a).skip(1) =~= nat_text(x));
        assert(int_text(b).skip(1) =~= nat_text(y));
    } else if a < 0 {
        assert(int_text(a)[0] == '-');
    } else if b < 0 {
        assert(int_text(b)[0] == '-');
    }
}

/// A text of the given width is the text itself, and blanks behind it as far as it is too short.
pub proof fn law_padded(s: Seq<char>, width: nat)
    ensures
        begins(padded(s, width), s),
        padded(s, width).len() == if s.len() < width {
            width
        } else {
            s.len()
        },
        forall|i: int|
            s.len() <= i < padded(s, width).len() ==> #[trigger] padded(s, width)[i] == ' ',
{
    assert(padded(s, width).take(s.len() as int) =~= s);
}

/// The digits are `0` to `9`.
pub proof fn law_digits(c: char)
    ensures
        is_digit(c) <==> '0' as int <= c as int <= '9' as int,
{
}

/// A number that is written can be read: as a byte where it is no larger than 255, with or without
/// a plus sign, and as a row's number where it fits. What holds anything but digits is no number.
pub proof fn law_numbers_are_read(n: nat, s: Seq<char>, i: int)
    ensures
        byte_value(nat_text(n)) == if n <= 255 {
            Some(n as u8)
        } else {
            None
        },
        byte_value(Seq::empty().push('+') + nat_text(n)) == byte_value(nat_text(n)),
        number_value(nat_text(n)) == if n <= 0x7fff_ffff_ffff_ffff {
            Some(n as i64)
        } else {
            None
        },
        s.len() == 0 ==> byte_value(s) is None && number_value(s) is None,
        0 <= i < s.len() && !('0' as int <= s[i] as int <= '9' as int) ==> number_value(s) is None,
        0 < i < s.len() && !('0' as int <= s[i] as int <= '9' as int) ==> byte_value(s) is None,
        s.len() > 0 && s[0] != '+' && !('0' as int <= s[0] as int <= '9' as int) ==> byte_value(s)
            is None,
{
    lemma_nat_text(n);
    assert(is_digit(nat_text(n)[0]));
    let plus = Seq::empty().push('+') + nat_text(n);
    assert(plus.drop_first() =~= nat_text(n));
    law_digits(s[i]);
    law_digits(s[0]);
    if 0 <= i < s.len() && !is_digit(s[i]) {
        assert(!all_digits(s));
        if i > 0 && s[0] == '+' {
            assert(s.drop_first()[i - 1] == s[i]);
            assert(!all_digits(s.drop_first()));
        }
    }
    if s.len() > 0 && !is_digit(s[0]) {
        assert(!all_digits(s));
    }
}

/// Two texts that are made up of a part without the first character of a separator, the separator,
/// and a rest, are the same only where their parts and their rests are.
pub proof fn lemma_same_parts(
    a: Seq<char>,
    b: Seq<char>,
    sep: Seq<char>,
    x: Seq<char>,
    y: Seq<char>,
)
    requires
        sep.len() > 0,
        lacks(a, sep[0]),
        lacks(b, sep[0]),
        a + sep + x == b + sep + y,
    ensures
        a == b,
        x == y,
{
    let s = a + sep + x;
    let t = b + sep + y;
    if a.len() < b.len() {
        assert(s[a.len() as int] == sep[0]);
        assert(t[a.len() as int] == b[a.len() as int]);
    } else if b.len() < a.len() {
        assert(t[b.len() as int] == sep[0]);
        assert(s[b.len() as int] == a[b.len() as int]);
    }
    assert(s.take(a.len() as int) =~= a);
    assert(t.take(b.len() as int) =~= b);
    assert(s.skip((a + sep).len() as int) =~= x);
    assert(t.skip((b + sep).len() as int) =~= y);
}

/// What is left behind a common start is the same where the whole is.
pub proof fn lemma_same_rest(front: Seq<char>, x: Seq<char>, y: Seq<char>)
    requires
        front + x == front + y,
    ensures
        x == y,
{
    assert((front + x).skip(front.len() as int) =~= x);
    assert((front + y).skip(front.len() as int) =~= y);
}

/// What writes a number has nothing but digits and a minus sign.
pub proof fn lemma_number_lacks(i: int, c: char)
    requires
        c != '-',
        !is_digit(c),
    ensures
        lacks(int_text(i), c),
{
    let n = (if i < 0 {
        -i
    } else {
        i
    }) as nat;
    lemma_nat_text(n);
    reveal_strlit("-");
    let t = int_text(i);
    assert forall|k: int| 0 <= k < t.len() implies #[trigger] t[k] != c by {
        if i < 0 && k > 0 {
            assert(t[k] == nat_text(n)[k - 1]);
        } else if i >= 0 {
            assert(t[k] == nat_text(n)[k]);
        }
    }
}

/// What stands between a common start and a common end is the same where the whole is.
pub proof fn lemma_same_middle(front: Seq<char>, x: Seq<char>, y: Seq<char>, back: Seq<char>)
    requires
        front + x + back == front + y + back,
    ensures
        x == y,
{
    let s = front + x + back;
    let t = front + y + back;
    assert(s.len() == t.len());
    assert(s.subrange(front.len() as int, (front + x).len() as int) =~= x);
    assert(t.subrange(front.len() as int, (front + y).len() as int) =~= y);
}

/// What is left before a common end is the same where the whole is.
pub proof fn lemma_same_front(x: Seq<char>, y: Seq<char>, back: Seq<char>)
    requires
        x + back == y + back,
    ensures
        x == y,
{
    assert((x + back).take(x.len() as int) =~= x);
    assert((y + back).take(y.len() as int) =~= y);
}

/// A text holds what stands in the middle of it.
pub proof fn lemma_middle_included(front: Seq<char>, mid: Seq<char>, back: Seq<char>)
    ensures
        includes(front + mid + back, mid),
{
    let s = front + mid + back;
    assert(s.subrange(front.len() as int, (front + mid).len() as int) =~= mid);
    assert(occurs_at(s, mid, front.len() as int));
}

/// Blanks at the end of a text are trimmed, and no more of it.
pub proof fn lemma_trim_line(s: Seq<char>, blanks: Seq<char>)
    requires
        s.len() > 0,
        !is_white(s[0]),
        !is_white(s.last()),
        forall|i: int| 0 <= i < blanks.len() ==> is_white(#[trigger] blanks[i]),
    ensures
        trimmed(s + blanks) == s,
{
    let t = s + blanks;
    law_trimmed(t);
    let (i, j) = choose|i: int, j: int|
        0 <= i <= j <= t.len() && trimmed(t) == #[trigger] t.subrange(i, j) && (forall|k: int|
            0 <= k < i || j <= k < t.len() ==> is_white(#[trigger] t[k])) && (i < j ==> !is_white(
            t[i],
        ) && !is_white(t[j - 1]));
    assert(t[0] == s[0]);
    assert(i == 0);
    assert(t[s.len() - 1] == s.last());
    assert(j >= s.len());
    if j > s.len() {
        assert(t[j - 1] == blanks[j - 1 - s.len()]);
    }
    assert(t.subrange(0, s.len() as int) =~= s);
}

} // verus!
