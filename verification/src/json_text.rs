//! How JSON answers are laid out for a terminal.

use vstd::prelude::*;

use crate::text;
use crate::text::{
    chars_of, contains, head, join, pad, repeat, split, starts_with, strip, tail, trim,
};

verus! {

/// Whether a text that begins with `s` is inside a quoted string where `s` ends.
pub open spec fn in_quotes(s: Seq<char>) -> bool
    decreases s.len(),
{
    if s.len() == 0 {
        false
    } else if s.last() == '"' {
        !in_quotes(s.drop_last())
    } else {
        in_quotes(s.drop_last())
    }
}

/// Whether `c` opens an object or an array.
pub open spec fn is_open(c: char) -> bool {
    c == '{' || c == '['
}

/// Whether `c` closes an object or an array.
pub open spec fn is_close(c: char) -> bool {
    c == '}' || c == ']'
}

/// How many brackets outside quoted strings are open where `s` ends.
pub open spec fn depth(s: Seq<char>) -> int
    decreases s.len(),
{
    if s.len() == 0 {
        0
    } else if in_quotes(s.drop_last()) {
        depth(s.drop_last())
    } else if is_open(s.last()) {
        depth(s.drop_last()) + 1
    } else if is_close(s.last()) {
        depth(s.drop_last()) - 1
    } else {
        depth(s.drop_last())
    }
}

/// The blanks before a line at depth `d`.
pub open spec fn margin(d: int) -> Seq<char> {
    text::times(' ', (2 * d) as nat)
}

/// What the character `c` is printed as behind the text `s`.
pub open spec fn laid_out_char(s: Seq<char>, c: char) -> Seq<char> {
    if in_quotes(s) {
        Seq::empty().push(c)
    } else if is_open(c) {
        Seq::empty().push(c).push('\n') + margin(depth(s) + 1)
    } else if is_close(c) {
        Seq::empty().push('\n') + margin(depth(s) - 1) + Seq::empty().push(c)
    } else if c == ',' {
        Seq::empty().push(c).push('\n') + margin(depth(s))
    } else if c == ':' {
        Seq::empty().push(':').push(' ')
    } else {
        Seq::empty().push(c)
    }
}

/// `s` with each character laid out.
pub open spec fn laid_out(s: Seq<char>) -> Seq<char>
    decreases s.len(),
{
    if s.len() == 0 {
        Seq::empty()
    } else {
        laid_out(s.drop_last()) + laid_out_char(s.drop_last(), s.last())
    }
}

/// Whether no bracket of `s` closes what was not opened, and the depth can be counted.
pub open spec fn printable(s: Seq<char>) -> bool {
    forall|i: int| 0 <= i <= s.len() ==> 0 <= #[trigger] depth(s.take(i)) <= i32::MAX
}

/// Whether the brackets of `json` nest so that it can be printed.
pub fn pretty_printable(json: &str) -> (r: bool)
    ensures
        r == printable(json@),
{
    let cs = chars_of(json);
    let mut indent: i32 = 0;
    let mut in_str = false;
    assert(json@.take(0) =~= Seq::<char>::empty());
    for i in 0..cs.len()
        invariant
            cs@ == json@,
            indent == depth(json@.take(i as int)),
            in_str == in_quotes(json@.take(i as int)),
            0 <= indent,
            forall|j: int| 0 <= j <= i ==> 0 <= #[trigger] depth(json@.take(j)) <= i32::MAX,
    {
        let c = cs[i];
        assert(json@.take(i + 1).drop_last() =~= json@.take(i as int));
        assert(json@.take(i + 1).last() == c);
        if c == '"' {
            in_str = !in_str;
        } else if !in_str && (c == '{' || c == '[') {
            if indent == i32::MAX {
                assert(depth(json@.take(i + 1)) > i32::MAX);
                return false;
            }
            indent += 1;
        } else if !in_str && (c == '}' || c == ']') {
            if indent == 0 {
                assert(depth(json@.take(i + 1)) < 0);
                return false;
            }
            indent -= 1;
        }
    }
    true
}

/// `json` over several lines, two blanks of margin for each level.
pub fn pretty_print_json(json: &str) -> (r: String)
    requires
        printable(json@),
    ensures
        r@ == laid_out(json@).push('\n'),
{
    let cs = chars_of(json);
    let mut out = String::new();
    let mut indent: i32 = 0;
    let mut in_str = false;
    assert(json@.take(0) =~= Seq::<char>::empty());
    for i in 0..cs.len()
        invariant
            cs@ == json@,
            printable(json@),
            indent == depth(json@.take(i as int)),
            in_str == in_quotes(json@.take(i as int)),
            out@ == laid_out(json@.take(i as int)),
    {
        let c = cs[i];
        let ghost s = json@.take(i as int);
        let ghost was = out@;
        assert(json@.take(i + 1).drop_last() =~= s);
        assert(json@.take(i + 1).last() == c);
        assert(0 <= depth(json@.take(i + 1)) <= i32::MAX);
        if c == '"' {
            in_str = !in_str;
            out.push(c);
        } else if !in_str && (c == '{' || c == '[') {
            indent += 1;
            out.push(c);
            out.push('\n');
            out.append(repeat(' ', 2 * (indent as usize)).as_str());
        } else if !in_str && (c == '}' || c == ']') {
            indent -= 1;
            out.push('\n');
            out.append(repeat(' ', 2 * (indent as usize)).as_str());
            out.push(c);
        } else if !in_str && c == ',' {
            out.push(c);
            out.push('\n');
            out.append(repeat(' ', 2 * (indent as usize)).as_str());
        } else if !in_str && c == ':' {
            out.push(':');
            out.push(' ');
        } else {
            out.push(c);
        }
        assert(out@ =~= was + laid_out_char(s, c));
    }
    assert(json@.take(cs@.len() as int) =~= json@);
    out.push('\n');
    out
}

/// `s` without the blanks and line ends that stand outside quoted strings.
pub open spec fn squeezed(s: Seq<char>) -> Seq<char>
    decreases s.len(),
{
    if s.len() == 0 {
        Seq::empty()
    } else if !in_quotes(s.drop_last()) && (s.last() == ' ' || s.last() == '\n') {
        squeezed(s.drop_last())
    } else {
        squeezed(s.drop_last()).push(s.last())
    }
}

proof fn lemma_push(s: Seq<char>, c: char)
    ensures
        in_quotes(s.push(c)) == (if c == '"' {
            !in_quotes(s)
        } else {
            in_quotes(s)
        }),
        squeezed(s.push(c)) == (if !in_quotes(s) && (c == ' ' || c == '\n') {
            squeezed(s)
        } else {
            squeezed(s).push(c)
        }),
{
    assert(s.push(c).drop_last() =~= s);
}

proof fn lemma_blanks(s: Seq<char>, n: nat)
    requires
        !in_quotes(s),
    ensures
        !in_quotes(s + text::times(' ', n)),
        squeezed(s + text::times(' ', n)) == squeezed(s),
    decreases n,
{
    if n == 0 {
        assert(s + text::times(' ', n) =~= s);
    } else {
        let m = (n - 1) as nat;
        lemma_blanks(s, m);
        assert(s + text::times(' ', n) =~= (s + text::times(' ', m)).push(' '));
        lemma_push(s + text::times(' ', m), ' ');
    }
}

/// The layout adds and drops nothing but blanks and line ends outside quoted strings.
pub proof fn law_layout_keeps_text(s: Seq<char>)
    ensures
        in_quotes(laid_out(s)) == in_quotes(s),
        squeezed(laid_out(s)) == squeezed(s),
    decreases s.len(),
{
    if s.len() > 0 {
        let p = s.drop_last();
        let c = s.last();
        let t = laid_out(p);
        law_layout_keeps_text(p);
        assert(s =~= p.push(c));
        lemma_push(p, c);
        lemma_push(t, c);
        if in_quotes(p) {
            assert(laid_out(s) =~= t.push(c));
        } else if is_open(c) {
            lemma_push(t.push(c), '\n');
            lemma_blanks(t.push(c).push('\n'), (2 * (depth(p) + 1)) as nat);
            assert(laid_out(s) =~= t.push(c).push('\n') + margin(depth(p) + 1));
        } else if is_close(c) {
            lemma_push(t, '\n');
            lemma_blanks(t.push('\n'), (2 * (depth(p) - 1)) as nat);
            let u = t.push('\n') + margin(depth(p) - 1);
            lemma_push(u, c);
            assert(laid_out(s) =~= u.push(c));
        } else if c == ',' {
            lemma_push(t.push(c), '\n');
            lemma_blanks(t.push(c).push('\n'), (2 * depth(p)) as nat);
            assert(laid_out(s) =~= t.push(c).push('\n') + margin(depth(p)));
        } else if c == ':' {
            lemma_push(t.push(c), ' ');
            assert(laid_out(s) =~= t.push(c).push(' '));
        } else {
            assert(laid_out(s) =~= t.push(c));
        }
    }
}

/// The line for one member of an object that is an element of an array.
pub open spec fn element_line(pair: Seq<char>) -> Seq<char> {
    let p = text::stripped(text::trimmed(pair), "\""@);
    if text::find(p, "\":"@) is Some {
        let key = text::stripped(text::before(p, "\":"@), "\""@);
        let value = text::stripped(text::stripped(text::after(p, "\":"@), "\""@), "\\"@);
        "  "@ + text::padded(key + ":"@, 16) + " "@ + value + "\n"@
    } else {
        Seq::empty()
    }
}

/// The line for one member of an object that stands alone.
pub open spec fn member_line(pair: Seq<char>) -> Seq<char> {
    let p = text::trimmed(pair);
    if text::find(p, "\":"@) is Some {
        let key = text::stripped(text::stripped(text::before(p, "\":"@), "\""@), "{"@);
        let value = text::stripped(text::after(p, "\":"@), "\""@);
        "  "@ + text::padded(key + ":"@, 24) + " "@ + value + "\n"@
    } else {
        Seq::empty()
    }
}

/// The lines for the members `pairs` of an element of an array.
pub open spec fn element_lines(pairs: Seq<Seq<char>>) -> Seq<char>
    decreases pairs.len(),
{
    if pairs.len() == 0 {
        Seq::empty()
    } else {
        element_lines(pairs.drop_last()) + element_line(pairs.last())
    }
}

/// The lines for the members `pairs` of an object that stands alone.
pub open spec fn member_lines(pairs: Seq<Seq<char>>) -> Seq<char>
    decreases pairs.len(),
{
    if pairs.len() == 0 {
        Seq::empty()
    } else {
        member_lines(pairs.drop_last()) + member_line(pairs.last())
    }
}

/// The lines for the elements `items` of an array, with a rule before each but the first.
pub open spec fn item_lines(items: Seq<Seq<char>>) -> Seq<char>
    decreases items.len(),
{
    if items.len() == 0 {
        Seq::empty()
    } else {
        item_lines(items.drop_last()) + (if items.len() > 1 {
            "  ---\n"@
        } else {
            Seq::empty()
        }) + element_lines(text::pieces(text::stripped(items.last(), "{}"@), ","@))
    }
}

/// A JSON answer as a table, one line for each member.
pub open spec fn json_table(json: Seq<char>) -> Seq<char> {
    let t = text::trimmed(json);
    if text::begins(t, "["@) {
        let items = text::pieces(text::stripped(t, "[]"@), "},{"@);
        item_lines(items) + (if text::trimmed(items[0]).len() == 0 {
            "  (empty)\n"@
        } else {
            Seq::empty()
        })
    } else {
        member_lines(text::pieces(text::stripped(t, "{}"@), ","@))
    }
}

/// Appends the line for one member of an element of an array.
fn put_element_line(out: &mut String, pair: &str)
    ensures
        final(out)@ == old(out)@ + element_line(pair@),
{
    let ghost was = out@;
    let p = strip(trim(pair), "\"");
    proof {
        text::lemma_find_from(p@, "\":"@, 0);
    }
    if contains(p, "\":") {
        let key = strip(head(p, "\":"), "\"");
        let value = strip(strip(tail(p, "\":"), "\""), "\\");
        let line = "  ".to_string().concat(
            pad(key.to_string().concat(":").as_str(), 16).as_str(),
        ).concat(" ").concat(value).concat("\n");
        out.append(line.as_str());
    } else {
        assert(was + Seq::<char>::empty() =~= was);
    }
}

/// Appends the line for one member of an object that stands alone.
fn put_member_line(out: &mut String, pair: &str)
    ensures
        final(out)@ == old(out)@ + member_line(pair@),
{
    let ghost was = out@;
    let p = trim(pair);
    proof {
        text::lemma_find_from(p@, "\":"@, 0);
    }
    if contains(p, "\":") {
        let key = strip(strip(head(p, "\":"), "\""), "{");
        let value = strip(tail(p, "\":"), "\"");
        let line = "  ".to_string().concat(
            pad(key.to_string().concat(":").as_str(), 24).as_str(),
        ).concat(" ").concat(value).concat("\n");
        out.append(line.as_str());
    } else {
        assert(was + Seq::<char>::empty() =~= was);
    }
}

/// A JSON answer as a table, one line for each member.
pub fn print_json_table(json: &str) -> (r: String)
    ensures
        r@ == json_table(json@),
{
    proof {
        reveal_strlit(",");
        reveal_strlit("},{");
    }
    let t = trim(json);
    let mut out = String::new();
    if starts_with(t, "[") {
        let body = strip(t, "[]");
        let items = split(body, "},{");
        let ghost all = items.deep_view();
        for i in 0..items.len()
            invariant
                all == items.deep_view(),
                ","@.len() > 0,
                out@ == item_lines(all.take(i as int)),
        {
            assert(all.take(i + 1).drop_last() =~= all.take(i as int));
            if i > 0 {
                out.append("  ---\n");
            } else {
                assert(out@ + Seq::<char>::empty() =~= out@);
            }
            let pairs = split(strip(items[i], "{}"), ",");
            let ghost ps = pairs.deep_view();
            let ghost start = out@;
            assert(start + element_lines(ps.take(0)) =~= start);
            for j in 0..pairs.len()
                invariant
                    ps == pairs.deep_view(),
                    out@ == start + element_lines(ps.take(j as int)),
            {
                assert(ps.take(j + 1).drop_last() =~= ps.take(j as int));
                put_element_line(&mut out, pairs[j]);
                assert(out@ =~= start + element_lines(ps.take(j + 1)));
            }
            assert(ps.take(pairs@.len() as int) =~= ps);
        }
        assert(all.take(items@.len() as int) =~= all);
        proof {
            text::lemma_pieces_some(body@, "},{"@);
        }
        if trim(items[0]).is_empty() {
            out.append("  (empty)\n");
        } else {
            assert(out@ + Seq::<char>::empty() =~= out@);
        }
    } else {
        let pairs = split(strip(t, "{}"), ",");
        let ghost ps = pairs.deep_view();
        for j in 0..pairs.len()
            invariant
                ps == pairs.deep_view(),
                out@ == member_lines(ps.take(j as int)),
        {
            assert(ps.take(j + 1).drop_last() =~= ps.take(j as int));
            put_member_line(&mut out, pairs[j]);
        }
        assert(ps.take(pairs@.len() as int) =~= ps);
    }
    out
}

/// A JSON array of the items `list`.
pub open spec fn array(list: Seq<Seq<char>>) -> Seq<char> {
    "["@ + text::joined(list, ","@) + "]"@
}

/// A JSON array of the items `list`.
pub fn json_array(list: &Vec<String>) -> (r: String)
    ensures
        r@ == array(list.deep_view()),
{
    "[".to_string().concat(join(list, ",").as_str()).concat("]")
}

/// A quote opens a string, and the next one closes it; nothing else does.
pub proof fn law_quotes(s: Seq<char>, c: char)
    ensures
        !in_quotes(Seq::empty()),
        in_quotes(s.push('"')) == !in_quotes(s),
        c != '"' ==> in_quotes(s.push(c)) == in_quotes(s),
{
    assert(s.push(c).drop_last() =~= s);
    assert(s.push('"').drop_last() =~= s);
}

/// Outside strings an opening brace or bracket goes one level down, and a closing one goes back up;
/// nothing else does, and inside strings nothing does.
pub proof fn law_depth(s: Seq<char>, c: char)
    ensures
        depth(Seq::empty()) == 0,
        depth(s.push(c)) - depth(s) == if in_quotes(s) {
            0int
        } else if c == '{' || c == '[' {
            1
        } else if c == '}' || c == ']' {
            -1
        } else {
            0
        },
{
    assert(s.push(c).drop_last() =~= s);
}

/// Each character of the text stands in the layout in its turn, and outside strings what opens a
/// level, closes one or parts two members begins a line, two blanks further in for each level.
pub proof fn law_layout(s: Seq<char>, c: char)
    ensures
        laid_out(Seq::empty()).len() == 0,
        in_quotes(s) ==> laid_out(s.push(c)) == laid_out(s).push(c),
        !in_quotes(s) && (c == '{' || c == '[') ==> laid_out(s.push(c)) == laid_out(s) + (
        Seq::empty().push(c).push('\n') + text::times(' ', (2 * depth(s) + 2) as nat)),
        !in_quotes(s) && (c == '}' || c == ']') ==> laid_out(s.push(c)) == laid_out(s) + (
        Seq::empty().push('\n') + text::times(' ', (2 * depth(s) - 2) as nat) + Seq::empty().push(c)),
        !in_quotes(s) ==> laid_out(s.push(',')) == laid_out(s) + (Seq::empty().push(',').push('\n')
            + text::times(' ', (2 * depth(s)) as nat)),
        !in_quotes(s) ==> laid_out(s.push(':')) == laid_out(s).push(':').push(' '),
        !in_quotes(s) && c != '{' && c != '[' && c != '}' && c != ']' && c != ',' && c != ':'
            ==> laid_out(s.push(c)) == laid_out(s).push(c),
{
    assert(s.push(c).drop_last() =~= s);
    assert(s.push(',').drop_last() =~= s);
    assert(s.push(':').drop_last() =~= s);
    assert(laid_out(s) + Seq::empty().push(c) =~= laid_out(s).push(c));
    assert(laid_out(s) + Seq::empty().push(':').push(' ') =~= laid_out(s).push(':').push(' '));
}

/// A text can be laid out as long as no more closes than was opened, and what is open can be
/// counted.
pub proof fn law_printable(s: Seq<char>, c: char)
    ensures
        printable(Seq::empty()),
        printable(s.push(c)) <==> printable(s) && 0 <= depth(s.push(c)) <= 0x7fff_ffff,
{
    assert(Seq::<char>::empty().take(0) =~= Seq::<char>::empty());
    let t = s.push(c);
    assert(t.take(t.len() as int) =~= t);
    assert(s.take(s.len() as int) =~= s);
    assert forall|i: int| 0 <= i <= s.len() implies #[trigger] t.take(i) == s.take(i) by {
        assert(t.take(i) =~= s.take(i));
    }
    if printable(t) {
        assert forall|i: int| 0 <= i <= s.len() implies 0 <= #[trigger] depth(s.take(i))
            <= i32::MAX by {
            assert(t.take(i) == s.take(i));
            assert(0 <= depth(t.take(i)) <= i32::MAX);
        }
        assert(0 <= depth(t.take(t.len() as int)) <= i32::MAX);
    }
    if printable(s) && 0 <= depth(t) <= 0x7fff_ffff {
        assert forall|i: int| 0 <= i <= t.len() implies 0 <= #[trigger] depth(t.take(i))
            <= i32::MAX by {
            if i <= s.len() {
                assert(t.take(i) == s.take(i));
                assert(0 <= depth(s.take(i)) <= i32::MAX);
            }
        }
    }
}

/// A list stands in brackets, with a comma between each two of its items.
pub proof fn law_array(list: Seq<Seq<char>>, x: Seq<char>)
    ensures
        array(Seq::empty()) == "[]"@,
        array(Seq::empty().push(x)) == "["@ + x + "]"@,
        list.len() > 0 ==> array(list.push(x)) == array(list).drop_last() + ","@ + x
            + "]"@,
{
    reveal_strlit("[]");
    reveal_strlit("[");
    reveal_strlit("]");
    assert(array(Seq::empty()) =~= "[]"@);
    text::law_joined(list, x, ","@);
    if list.len() > 0 {
        let j = text::joined(list, ","@);
        assert(array(list).drop_last() =~= "["@ + j);
        assert("["@ + (j + ","@ + x) =~= "["@ + j + ","@ + x);
    }
}

proof fn lemma_strip(front: Seq<char>, mid: Seq<char>, back: Seq<char>, set: Seq<char>)
    requires
        forall|i: int| 0 <= i < front.len() ==> set.contains(#[trigger] front[i]),
        forall|i: int| 0 <= i < back.len() ==> set.contains(#[trigger] back[i]),
        mid.len() > 0,
        !set.contains(mid[0]),
        !set.contains(mid.last()),
    ensures
        text::stripped(front + mid + back, set) == mid,
{
    let s = front + mid + back;
    let a = front.len() as int;
    let b = (front.len() + mid.len()) as int;
    text::law_stripped(s, set);
    let (i, j) = choose|i: int, j: int|
        0 <= i <= j <= s.len() && text::stripped(s, set) == #[trigger] s.subrange(i, j) && (forall|
            k: int,
        |
            0 <= k < i || j <= k < s.len() ==> set.contains(#[trigger] s[k])) && (i < j
            ==> !set.contains(s[i]) && !set.contains(s[j - 1]));
    assert(s[a] == mid[0]);
    assert(s[b - 1] == mid.last());
    assert(i <= a && b <= j);
    if i < a {
        assert(s[i] == front[i]);
    }
    if j > b {
        assert(s[j - 1] == back[j - 1 - b]);
    }
    assert(s.subrange(a, b) =~= mid);
}

proof fn lemma_trim(s: Seq<char>)
    requires
        s.len() > 0,
        !text::is_white(s[0]),
        !text::is_white(s.last()),
    ensures
        text::trimmed(s) == s,
{
    text::law_trimmed(s);
    let (i, j) = choose|i: int, j: int|
        0 <= i <= j <= s.len() && text::trimmed(s) == #[trigger] s.subrange(i, j) && (forall|k: int|
            0 <= k < i || j <= k < s.len() ==> text::is_white(#[trigger] s[k])) && (i < j
            ==> !text::is_white(s[i]) && !text::is_white(s[j - 1]));
    assert(i == 0 && j == s.len());
    assert(s.subrange(0, s.len() as int) =~= s);
}

proof fn lemma_key_ends(a: Seq<char>, rest: Seq<char>)
    requires
        text::lacks(a, ':'),
    ensures
        text::find(a + "\":"@ + rest, "\":"@) is Some,
        text::before(a + "\":"@ + rest, "\":"@) == a,
        text::after(a + "\":"@ + rest, "\":"@) == rest,
{
    reveal_strlit("\":");
    let s = a + "\":"@ + rest;
    let n = a.len() as int;
    assert(s.subrange(n, n + 2) =~= "\":"@);
    assert forall|j: int| 0 <= j < n implies !text::occurs_at(s, "\":"@, j) by {
        if text::occurs_at(s, "\":"@, j) {
            assert(s.subrange(j, j + 2)[1] == ':');
            assert(s[j + 1] == ':');
        }
    }
    text::lemma_found_at(s, "\":"@, 0, n);
    assert(s.take(n) =~= a);
    assert(s.skip(n + 2) =~= rest);
}

/// In a list, a member whose value is a text is shown by its key, in sixteen columns, and its value.
pub proof fn law_element_line(key: Seq<char>, value: Seq<char>)
    requires
        key.len() > 0,
        value.len() > 0,
        text::lacks(key, '"'),
        text::lacks(key, ':'),
        text::lacks(value, '"'),
        text::lacks(value, '\\'),
    ensures
        element_line("\""@ + (key + "\":"@ + ("\""@ + value)) + "\""@) == "  "@ + text::padded(
            key + ":"@,
            16,
        ) + " "@ + value + "\n"@,
{
    reveal_strlit("\"");
    reveal_strlit("\\");
    let q = "\""@;
    let rest = q + value;
    let p = key + "\":"@ + rest;
    let pair = q + p + q;
    text::law_white('"');
    lemma_trim(pair);
    assert(p[0] == key[0]);
    assert(p.last() == value.last());
    assert(q.contains(q[0]));
    assert(!q.contains(key[0]));
    assert(!q.contains(value.last()) && !q.contains(value[0]));
    lemma_strip(q, p, q, q);
    lemma_key_ends(key, rest);
    assert(Seq::empty() + key + Seq::empty() =~= key);
    assert(!q.contains(key.last()));
    lemma_strip(Seq::empty(), key, Seq::empty(), q);
    assert(q + value + Seq::empty() =~= rest);
    lemma_strip(q, value, Seq::empty(), q);
    assert(!"\\"@.contains(value[0]) && !"\\"@.contains(value.last()));
    assert(Seq::empty() + value + Seq::empty() =~= value);
    lemma_strip(Seq::empty(), value, Seq::empty(), "\\"@);
}

/// In a list, a member whose value is a number or a word is shown in the same way.
pub proof fn law_element_line_of_number(key: Seq<char>, value: Seq<char>)
    requires
        key.len() > 0,
        value.len() > 0,
        text::lacks(key, '"'),
        text::lacks(key, ':'),
        text::lacks(value, '"'),
        text::lacks(value, '\\'),
        !text::is_white(value.last()),
    ensures
        element_line("\""@ + (key + "\":"@ + value)) == "  "@ + text::padded(key + ":"@, 16) + " "@
            + value + "\n"@,
{
    reveal_strlit("\"");
    reveal_strlit("\\");
    let q = "\""@;
    let p = key + "\":"@ + value;
    let pair = q + p;
    text::law_white('"');
    assert(pair.last() == value.last());
    lemma_trim(pair);
    assert(p[0] == key[0]);
    assert(p.last() == value.last());
    assert(q.contains(q[0]));
    assert(!q.contains(key[0]));
    assert(!q.contains(value.last()) && !q.contains(value[0]));
    assert(q + p + Seq::empty() =~= pair);
    lemma_strip(q, p, Seq::empty(), q);
    lemma_key_ends(key, value);
    assert(Seq::empty() + key + Seq::empty() =~= key);
    assert(!q.contains(key.last()));
    lemma_strip(Seq::empty(), key, Seq::empty(), q);
    assert(Seq::empty() + value + Seq::empty() =~= value);
    lemma_strip(Seq::empty(), value, Seq::empty(), q);
    assert(!"\\"@.contains(value[0]) && !"\\"@.contains(value.last()));
    lemma_strip(Seq::empty(), value, Seq::empty(), "\\"@);
}

/// In a single object, a member is shown by its key, in twenty-four columns, and its value: without
/// the quotes where it is a text, as it is where it is a number or a word.
pub proof fn law_member_line(key: Seq<char>, value: Seq<char>)
    requires
        key.len() > 0,
        value.len() > 0,
        text::lacks(key, '"'),
        text::lacks(key, ':'),
        text::lacks(key, '{'),
        text::lacks(value, '"'),
        !text::is_white(value.last()),
    ensures
        member_line("\""@ + key + "\":"@ + ("\""@ + value + "\""@)) == "  "@ + text::padded(
            key + ":"@,
            24,
        ) + " "@ + value + "\n"@,
        member_line("\""@ + key + "\":"@ + value) == "  "@ + text::padded(key + ":"@, 24) + " "@
            + value + "\n"@,
{
    reveal_strlit("\"");
    reveal_strlit("{");
    let q = "\""@;
    let pair = q + key + "\":"@ + (q + value + q);
    let bare = q + key + "\":"@ + value;
    text::law_white('"');
    assert(pair[0] == '"' && pair.last() == '"');
    lemma_trim(pair);
    assert(bare[0] == '"' && bare.last() == value.last());
    lemma_trim(bare);
    assert(text::lacks(q + key, ':'));
    lemma_key_ends(q + key, q + value + q);
    lemma_key_ends(q + key, value);
    assert(q.contains(q[0]));
    assert(!q.contains(key[0]) && !q.contains(key.last()));
    assert(!q.contains(value[0]) && !q.contains(value.last()));
    assert(q + key + Seq::empty() =~= q + key);
    lemma_strip(q, key, Seq::empty(), q);
    assert(!"{"@.contains(key[0]) && !"{"@.contains(key.last()));
    assert(Seq::empty() + key + Seq::empty() =~= key);
    lemma_strip(Seq::empty(), key, Seq::empty(), "{"@);
    lemma_strip(q, value, q, q);
    assert(Seq::empty() + value + Seq::empty() =~= value);
    lemma_strip(Seq::empty(), value, Seq::empty(), q);
}

/// What holds no key is not shown; members and items are shown one after the other, with a rule
/// before each item but the first.
pub proof fn law_table_lines(
    pair: Seq<char>,
    pairs: Seq<Seq<char>>,
    item: Seq<char>,
    items: Seq<Seq<char>>,
)
    ensures
        text::lacks(pair, ':') ==> element_line(pair).len() == 0 && member_line(pair).len() == 0,
        element_lines(Seq::empty()).len() == 0,
        element_lines(pairs.push(pair)) == element_lines(pairs) + element_line(pair),
        member_lines(Seq::empty()).len() == 0,
        member_lines(pairs.push(pair)) == member_lines(pairs) + member_line(pair),
        item_lines(Seq::empty()).len() == 0,
        item_lines(Seq::empty().push(item)) == element_lines(
            text::pieces(text::stripped(item, "{}"@), ","@),
        ),
        items.len() > 0 ==> item_lines(items.push(item)) == item_lines(items) + "  ---\n"@
            + element_lines(text::pieces(text::stripped(item, "{}"@), ","@)),
{
    assert(pairs.push(pair).drop_last() =~= pairs);
    assert(items.push(item).drop_last() =~= items);
    let one = Seq::<Seq<char>>::empty().push(item);
    assert(one.drop_last() =~= Seq::empty());
    let shown = element_lines(text::pieces(text::stripped(item, "{}"@), ","@));
    assert(one.last() == item);
    assert(item_lines(one.drop_last()) =~= Seq::empty());
    assert(item_lines(one) == Seq::empty() + Seq::empty() + shown);
    assert(Seq::empty() + Seq::empty() + shown =~= shown);
    if text::lacks(pair, ':') {
        let t = text::trimmed(pair);
        text::law_trimmed(pair);
        assert(text::lacks(t, ':'));
        let p = text::stripped(t, "\""@);
        text::law_stripped(t, "\""@);
        assert(text::lacks(p, ':'));
        lemma_no_key(t);
        lemma_no_key(p);
    }
}

proof fn lemma_no_key(s: Seq<char>)
    requires
        text::lacks(s, ':'),
    ensures
        text::find(s, "\":"@) is None,
{
    reveal_strlit("\":");
    text::lemma_find_from(s, "\":"@, 0);
    if text::find(s, "\":"@) is Some {
        let j = text::find(s, "\":"@)->0;
        assert(s.subrange(j, j + 2)[1] == ':');
        assert(s[j + 1] == ':');
    }
}

/// A list is shown item by item, the items parted between braces, and an empty one is called empty;
/// anything else is shown as one object.
pub proof fn law_table(t: Seq<char>, body: Seq<char>)
    requires
        t.len() > 0,
        !text::is_white(t[0]),
        !text::is_white(t.last()),
    ensures
        t[0] != '[' ==> json_table(t) == member_lines(
            text::pieces(text::stripped(t, "{}"@), ","@),
        ),
        t == "["@ + body + "]"@ && body.len() > 0 && body[0] != '[' && body[0] != ']' && body.last()
            != '[' && body.last() != ']' ==> json_table(t) == item_lines(text::pieces(body, "},{"@)) + (
        if text::trimmed(text::pieces(body, "},{"@)[0]).len() == 0 {
            "  (empty)\n"@
        } else {
            Seq::empty()
        }),
        t == "[]"@ ==> json_table(t) == "  (empty)\n"@,
{
    reveal_strlit("[");
    reveal_strlit("]");
    reveal_strlit("[]");
    lemma_trim(t);
    assert(text::begins(t, "["@) <==> t[0] == '[') by {
        assert(t.take(1)[0] == t[0]);
        if t[0] == '[' {
            assert(t.take(1) =~= "["@);
        }
    }
    let set = "[]"@;
    assert(set.contains(set[0]) && set.contains(set[1]));
    if t == "["@ + body + "]"@ && body.len() > 0 && body[0] != '[' && body[0] != ']' && body.last()
        != '[' && body.last() != ']' {
        lemma_strip("["@, body, "]"@, set);
    }
    if t == "[]"@ {
        text::law_stripped(t, set);
        let (i, j) = choose|i: int, j: int|
            0 <= i <= j <= t.len() && text::stripped(t, set) == #[trigger] t.subrange(i, j) && (
            forall|k: int| 0 <= k < i || j <= k < t.len() ==> set.contains(#[trigger] t[k])) && (i < j
                ==> !set.contains(t[i]) && !set.contains(t[j - 1]));
        assert(i == j) by {
            if i < j {
                assert(set.contains(t[i]));
            }
        }
        let none = Seq::<char>::empty();
        assert(text::stripped(t, set) =~= none);
        lemma_nothing();
    }
}

proof fn lemma_nothing()
    ensures
        ({
            let none = Seq::<char>::empty();
            &&& text::pieces(none, "},{"@) == Seq::empty().push(none)
            &&& item_lines(Seq::empty().push(none)).len() == 0
            &&& text::trimmed(none).len() == 0
        }),
{
    reveal_strlit("},{");
    reveal_strlit(",");
    let none = Seq::<char>::empty();
    assert(text::find_from(none, "},{"@, 0) is None);
    assert(none.skip(0) =~= none);
    assert(text::pieces(none, "},{"@) =~= Seq::empty().push(none));
    text::lemma_one_piece(none, ","@);
    text::law_stripped(none, "{}"@);
    text::law_trimmed(none);
    assert(text::stripped(none, "{}"@) =~= none);
    assert(Seq::<Seq<char>>::empty().push(none) =~= Seq::empty().push(none));
    law_table_lines(none, Seq::empty(), none, Seq::empty());
    assert(element_lines(Seq::empty().push(none)) =~= none);
}

} // verus!
