//! Paths as text: the folder that something lies in, and what it is called there.

use vstd::prelude::*;

use crate::text;
use crate::text::chars_of;

verus! {

/// `s` without slashes at its end, and without dots there that stand for a folder itself.
pub open spec fn tidy(s: Seq<char>) -> Seq<char>
    decreases s.len(),
{
    let n = s.len();
    if n > 1 && s[n - 1] == '/' {
        tidy(s.drop_last())
    } else if n > 1 && s[n - 1] == '.' && s[n - 2] == '/' {
        tidy(s.drop_last())
    } else {
        s
    }
}

/// Where the last part of `s` begins: behind its last slash.
pub open spec fn last_part(s: Seq<char>) -> int
    decreases s.len(),
{
    if s.len() == 0 || s.last() == '/' {
        s.len() as int
    } else {
        last_part(s.drop_last())
    }
}

/// What the path `s` is called in the folder that it lies in: nothing where it does not say.
pub open spec fn name_of(s: Seq<char>) -> Seq<char> {
    let t = tidy(s);
    let name = t.skip(last_part(t));
    if name == "."@ || name == ".."@ {
        Seq::empty()
    } else {
        name
    }
}

/// The folder that the path `s` lies in: the current one where there is none above it.
pub open spec fn folder_of(s: Seq<char>) -> Seq<char> {
    let t = tidy(s);
    let k = last_part(t);
    if t.len() == 0 || t == "/"@ {
        "."@
    } else if k == 0 {
        Seq::empty()
    } else if k == 1 {
        "/"@
    } else {
        tidy(t.take(k - 1))
    }
}

/// How many of the first `end` characters `tidy` keeps.
fn tidy_end(cs: &Vec<char>, end: usize) -> (r: usize)
    requires
        end <= cs@.len(),
    ensures
        r <= end,
        cs@.take(r as int) == tidy(cs@.take(end as int)),
{
    let mut n: usize = end;
    let ghost goal = tidy(cs@.take(end as int));
    while n > 1 && (cs[n - 1] == '/' || (cs[n - 1] == '.' && cs[n - 2] == '/'))
        invariant
            n <= end <= cs@.len(),
            tidy(cs@.take(n as int)) == goal,
        decreases n,
    {
        assert(cs@.take(n as int).drop_last() =~= cs@.take(n - 1));
        n -= 1;
    }
    n
}

/// Where the last part of the first `end` characters begins.
fn part_start(cs: &Vec<char>, end: usize) -> (r: usize)
    requires
        end <= cs@.len(),
    ensures
        r <= end,
        r == last_part(cs@.take(end as int)),
{
    let mut k: usize = end;
    let ghost goal = last_part(cs@.take(end as int));
    while k > 0 && cs[k - 1] != '/'
        invariant
            k <= end <= cs@.len(),
            last_part(cs@.take(k as int)) == goal,
        decreases k,
    {
        assert(cs@.take(k as int).drop_last() =~= cs@.take(k - 1));
        k -= 1;
    }
    k
}

/// What the path `s` is called in the folder that it lies in: nothing where it does not say.
pub fn file_name(s: &str) -> (r: String)
    ensures
        r@ == name_of(s@),
{
    let cs = chars_of(s);
    let len = cs.len();
    assert(s@.take(len as int) =~= s@);
    let n = tidy_end(&cs, len);
    let k = part_start(&cs, n);
    proof {
        assert(cs@.take(n as int).skip(k as int) =~= s@.subrange(k as int, n as int));
    }
    let name = s.substring_char(k, n);
    if text::same(name, ".") || text::same(name, "..") {
        String::new()
    } else {
        name.to_string()
    }
}

/// The folder that the path `s` lies in: the current one where there is none above it.
pub fn parent_dir(s: &str) -> (r: String)
    ensures
        r@ == folder_of(s@),
{
    let cs = chars_of(s);
    let len = cs.len();
    assert(s@.take(len as int) =~= s@);
    let n = tidy_end(&cs, len);
    let k = part_start(&cs, n);
    let ghost t = tidy(s@);
    proof {
        reveal_strlit("/");
        if n == 1 && cs@[0] == '/' {
            assert(t =~= "/"@);
        } else if n > 0 {
            assert(t != "/"@) by {
                if t == "/"@ {
                    assert(t[0] == cs@[0]);
                }
            }
        }
    }
    if n == 0 || (n == 1 && cs[0] == '/') {
        ".".to_string()
    } else if k == 0 {
        String::new()
    } else if k == 1 {
        "/".to_string()
    } else {
        assert(t.take(k - 1) =~= cs@.take(k - 1));
        let m = tidy_end(&cs, k - 1);
        let dir = s.substring_char(0, m);
        assert(dir@ =~= cs@.take(m as int));
        dir.to_string()
    }
}

/// A path that a folder and a plain name make up lies in that folder, under that name.
pub proof fn law_paths(dir: Seq<char>, name: Seq<char>)
    requires
        dir.len() > 0,
        dir != "/"@,
        tidy(dir) == dir,
        name.len() > 0,
        name != "."@,
        name != ".."@,
        forall|i: int| 0 <= i < name.len() ==> #[trigger] name[i] != '/',
    ensures
        name_of(dir + "/"@ + name) == name,
        folder_of(dir + "/"@ + name) == dir,
{
    reveal_strlit("/");
    reveal_strlit(".");
    let s = dir + "/"@ + name;
    let n = s.len();
    assert(s.last() == name.last());
    if s[n - 1] == '.' && s[n - 2] == '/' {
        if name.len() == 1 {
            assert(name =~= "."@);
        } else {
            assert(s[n - 2] == name[name.len() - 2]);
        }
    }
    assert(tidy(s) == s);
    lemma_last_part(dir + "/"@, name);
    assert(last_part(s) == dir.len() + 1);
    assert(s.skip(dir.len() as int + 1) =~= name);
    assert(s.take(dir.len() as int) =~= dir);
    assert(s != "/"@) by {
        assert(s.len() > 1);
    }
}

proof fn lemma_last_part(top: Seq<char>, name: Seq<char>)
    requires
        top.len() > 0,
        top.last() == '/',
        forall|i: int| 0 <= i < name.len() ==> #[trigger] name[i] != '/',
    ensures
        last_part(top + name) == top.len(),
    decreases name.len(),
{
    if name.len() == 0 {
        assert(top + name =~= top);
    } else {
        lemma_last_part(top, name.drop_last());
        assert((top + name).drop_last() =~= top + name.drop_last());
        assert((top + name).last() == name.last());
    }
}

proof fn lemma_no_slash(s: Seq<char>)
    requires
        forall|i: int| 0 <= i < s.len() ==> #[trigger] s[i] != '/',
    ensures
        tidy(s) == s,
        last_part(s) == 0,
    decreases s.len(),
{
    if s.len() > 0 {
        lemma_no_slash(s.drop_last());
    }
}

/// A name without a slash is its own file name, in no directory; one right under the root stands in
/// the root.
pub proof fn law_plain_names(name: Seq<char>)
    requires
        name.len() > 0,
        name != "."@,
        name != ".."@,
        forall|i: int| 0 <= i < name.len() ==> #[trigger] name[i] != '/',
    ensures
        name_of(name) == name,
        folder_of(name).len() == 0,
        name_of("/"@ + name) == name,
        folder_of("/"@ + name) == "/"@,
{
    reveal_strlit("/");
    reveal_strlit(".");
    lemma_no_slash(name);
    assert(name.skip(0) =~= name);
    assert(name != "/"@) by {
        assert(name[0] != "/"@[0]);
    }
    let s = "/"@ + name;
    lemma_last_part("/"@, name);
    assert(s.len() > 1 && s[s.len() - 1] == name.last());
    assert(tidy(s) == s) by {
        if s[s.len() - 1] == '.' && s[s.len() - 2] == '/' {
            if name.len() > 1 {
                assert(s[s.len() - 2] == name[name.len() - 2]);
            } else {
                assert(name =~= "."@);
            }
        }
    }
    assert(s.skip(1) =~= name);
}

/// Slashes at the end of a path, and steps that stay where they are, change neither its file name
/// nor its directory; a step to the directory above has no name; the root and the empty path stand
/// in the current directory.
pub proof fn law_ends_of_paths(s: Seq<char>)
    requires
        s.len() > 0,
    ensures
        name_of(s + "/"@) == name_of(s),
        folder_of(s + "/"@) == folder_of(s),
        name_of(s + "/."@) == name_of(s),
        folder_of(s + "/."@) == folder_of(s),
        name_of(s + "/.."@).len() == 0,
        folder_of("/"@) == "."@,
        folder_of(Seq::empty()) == "."@,
        name_of(".."@).len() == 0,
        name_of("/"@).len() == 0,
{
    reveal_strlit("/");
    reveal_strlit("/.");
    reveal_strlit("/..");
    reveal_strlit("..");
    reveal_strlit(".");
    let a = s + "/"@;
    assert(a.drop_last() =~= s);
    assert(a[a.len() - 1] == '/');
    let b = s + "/."@;
    assert(b.drop_last() =~= a);
    assert(b[b.len() - 1] == '.' && b[b.len() - 2] == '/');
    assert(tidy(b) == tidy(a));
    let c = s + "/.."@;
    assert(c[c.len() - 1] == '.' && c[c.len() - 2] == '.');
    assert(tidy(c) == c);
    lemma_last_part(a, ".."@);
    assert(c =~= a + ".."@);
    assert(c.skip(a.len() as int) =~= ".."@);
    lemma_no_slash(".."@);
    assert(".."@.skip(0) =~= ".."@);
    assert(tidy("/"@) == "/"@);
    assert("/"@.last() == '/');
    assert(last_part("/"@) == 1);
}

/// A file name holds no slash.
pub proof fn law_names_hold_no_slash(s: Seq<char>)
    ensures
        forall|i: int| 0 <= i < name_of(s).len() ==> #[trigger] name_of(s)[i] != '/',
{
    let t = tidy(s);
    lemma_last_part_free(t);
    assert forall|i: int| 0 <= i < name_of(s).len() implies #[trigger] name_of(s)[i] != '/' by {
        assert(name_of(s)[i] == t[last_part(t) + i]);
    }
}

proof fn lemma_last_part_free(s: Seq<char>)
    ensures
        0 <= last_part(s) <= s.len(),
        forall|i: int| last_part(s) <= i < s.len() ==> #[trigger] s[i] != '/',
    decreases s.len(),
{
    if s.len() > 0 && s.last() != '/' {
        lemma_last_part_free(s.drop_last());
        assert forall|i: int| last_part(s) <= i < s.len() implies #[trigger] s[i] != '/' by {
            if i < s.len() - 1 {
                assert(s[i] == s.drop_last()[i]);
            }
        }
    }
}

} // verus!
