//! A path as text: its components, and containment of one path in another.
//!
//! Every function takes the separator of the system the paths belong to.
//! `/` always separates components; `\\` does so only where it is the
//! system's separator, and is an ordinary character of a name elsewhere.
//! Empty components (doubled or trailing separators) are dropped. A path is
//! rooted when its first character is a separator.
use vstd::prelude::*;

verus! {

/// Whether `sep` is the separator of a system this library knows.
pub open spec fn valid_sep(sep: char) -> bool {
    sep == '/' || sep == '\\'
}

/// Whether `c` separates two components of a path on a system whose
/// separator is `sep`.
pub open spec fn is_sep(c: char, sep: char) -> bool {
    c == '/' || c == sep
}

/// Reads `s` from the left: the components already closed by a separator,
/// and the piece that is still open at the end of `s`.
pub open spec fn scan(s: Seq<char>, sep: char) -> (Seq<Seq<char>>, Seq<char>)
    decreases s.len(),
{
    if s.len() == 0 {
        (Seq::empty(), Seq::empty())
    } else {
        let (done, open) = scan(s.drop_last(), sep);
        if is_sep(s.last(), sep) {
            (if open.len() == 0 { done } else { done.push(open) }, Seq::empty())
        } else {
            (done, open.push(s.last()))
        }
    }
}

/// The non-empty components of `s`, in order.
pub open spec fn components(s: Seq<char>, sep: char) -> Seq<Seq<char>> {
    let (done, open) = scan(s, sep);
    if open.len() == 0 {
        done
    } else {
        done.push(open)
    }
}

/// Tells whether `c` is a path separator.
pub fn is_separator(c: char, sep: char) -> (r: bool)
    ensures
        r == is_sep(c, sep),
{
    c == '/' || c == sep
}

/// Splits `s` into its non-empty components.
pub fn components_of(s: &str, sep: char) -> (r: Vec<String>)
    ensures
        r.deep_view() == components(s@, sep),
{
    let n = s.unicode_len();
    let mut done: Vec<String> = Vec::new();
    let mut start: usize = 0;
    let mut i: usize = 0;
    while i < n
        invariant
            n == s@.len(),
            start <= i <= n,
            scan(s@.subrange(0, i as int), sep) == (done.deep_view(), s@.subrange(start as int, i as int)),
        decreases n - i,
    {
        let c = s.get_char(i);
        assert(s@.subrange(0, i + 1).drop_last() =~= s@.subrange(0, i as int));
        if is_separator(c, sep) {
            if start < i {
                let piece = String::from_str(s.substring_char(start, i));
                let ghost before = done.deep_view();
                done.push(piece);
                assert(done.deep_view() =~= before.push(s@.subrange(start as int, i as int)));
            }
            start = i + 1;
            assert(s@.subrange(start as int, i + 1) =~= Seq::<char>::empty());
        } else {
            assert(s@.subrange(start as int, i + 1) =~= s@.subrange(start as int, i as int).push(c));
        }
        i = i + 1;
    }
    assert(s@.subrange(0, n as int) =~= s@);
    if start < n {
        let piece = String::from_str(s.substring_char(start, n));
        let ghost before = done.deep_view();
        done.push(piece);
        assert(done.deep_view() =~= before.push(s@.subrange(start as int, n as int)));
    }
    done
}


/// Whether `s` begins with a separator.
pub open spec fn rooted(s: Seq<char>, sep: char) -> bool {
    s.len() > 0 && is_sep(s[0], sep)
}

/// Whether the sequence `a` is an initial part of the sequence `b`.
pub open spec fn is_prefix(a: Seq<Seq<char>>, b: Seq<Seq<char>>) -> bool {
    a.len() <= b.len() && forall|i: int| 0 <= i < a.len() ==> #[trigger] a[i] == b[i]
}

/// Whether `p` is `root` itself or lies below it: both rooted or both not,
/// and the components of `root` begin those of `p`. `/data2` is not in `/data`.
pub open spec fn contains(root: Seq<char>, p: Seq<char>, sep: char) -> bool {
    rooted(root, sep) == rooted(p, sep) && is_prefix(components(root, sep), components(p, sep))
}

/// Whether `p` lies below `root` and is not `root` itself.
pub open spec fn strictly_contains(root: Seq<char>, p: Seq<char>, sep: char) -> bool {
    contains(root, p, sep) && components(root, sep).len() < components(p, sep).len()
}

/// Whether the component `c` is `.` or `..`.
pub open spec fn is_dot_name(c: Seq<char>) -> bool {
    c == seq!['.'] || c == seq!['.', '.']
}

/// Whether no component of `p` is `.` or `..`, as holds of a canonical path.
pub open spec fn is_plain(p: Seq<char>, sep: char) -> bool {
    forall|i: int|
        0 <= i < components(p, sep).len() ==> !is_dot_name(#[trigger] components(p, sep)[i])
}

/// The length of `s[..k]` without the separators at its end.
pub open spec fn name_end(s: Seq<char>, k: nat, sep: char) -> nat
    decreases k,
{
    if k > 0 && is_sep(s[k - 1], sep) {
        name_end(s, (k - 1) as nat, sep)
    } else {
        k
    }
}

/// The length of `s[..k]` without the non-separators at its end.
pub open spec fn name_start(s: Seq<char>, k: nat, sep: char) -> nat
    decreases k,
{
    if k > 0 && !is_sep(s[k - 1], sep) {
        name_start(s, (k - 1) as nat, sep)
    } else {
        k
    }
}

/// The last name of `s`, trailing separators aside (empty when there is none).
pub open spec fn last_name(s: Seq<char>, sep: char) -> Seq<char> {
    let e = name_end(s, s.len(), sep);
    s.subrange(name_start(s, e, sep) as int, e as int)
}

/// What stands before the last name of `s`; none when `s` holds no name.
pub open spec fn parent_text(s: Seq<char>, sep: char) -> Option<Seq<char>> {
    let e = name_end(s, s.len(), sep);
    if e == 0 {
        None
    } else {
        Some(s.subrange(0, name_start(s, e, sep) as int))
    }
}

/// The name of the file that `s` designates: its last name, unless `s` has
/// none or it is `.` or `..`.
pub open spec fn file_name(s: Seq<char>, sep: char) -> Option<Seq<char>> {
    let n = last_name(s, sep);
    if n.len() == 0 || is_dot_name(n) {
        None
    } else {
        Some(n)
    }
}

/// `name` placed under `base`, with `sep` between them unless `base` is empty
/// or already ends with a separator.
pub open spec fn joined(base: Seq<char>, name: Seq<char>, sep: char) -> Seq<char> {
    if base.len() == 0 || is_sep(base.last(), sep) {
        base + name
    } else {
        base.push(sep) + name
    }
}

/// Tells whether `s` begins with a separator.
pub fn is_rooted(s: &str, sep: char) -> (r: bool)
    ensures
        r == rooted(s@, sep),
{
    let n = s.unicode_len();
    n > 0 && is_separator(s.get_char(0), sep)
}

fn starts_with_components(a: &Vec<String>, b: &Vec<String>) -> (r: bool)
    ensures
        r == is_prefix(a.deep_view(), b.deep_view()),
{
    if a.len() > b.len() {
        return false;
    }
    let mut i: usize = 0;
    while i < a.len()
        invariant
            a.len() <= b.len(),
            i <= a.len(),
            forall|j: int| 0 <= j < i ==> #[trigger] a.deep_view()[j] == b.deep_view()[j],
        decreases a.len() - i,
    {
        if a[i] != b[i] {
            assert(a.deep_view()[i as int] != b.deep_view()[i as int]);
            return false;
        }
        i = i + 1;
    }
    true
}

/// Tells whether `p` is `root` or lies below it, component by component.
pub fn path_contains(root: &str, p: &str, sep: char) -> (r: bool)
    ensures
        r == contains(root@, p@, sep),
{
    if is_rooted(root, sep) != is_rooted(p, sep) {
        return false;
    }
    let rc = components_of(root, sep);
    let pc = components_of(p, sep);
    starts_with_components(&rc, &pc)
}

/// Tells whether `p` lies strictly below `root`.
pub fn path_strictly_contains(root: &str, p: &str, sep: char) -> (r: bool)
    ensures
        r == strictly_contains(root@, p@, sep),
{
    if is_rooted(root, sep) != is_rooted(p, sep) {
        return false;
    }
    let rc = components_of(root, sep);
    let pc = components_of(p, sep);
    rc.len() < pc.len() && starts_with_components(&rc, &pc)
}

fn is_dot(c: &String) -> (r: bool)
    ensures
        r == is_dot_name(c@),
{
    let n = c.as_str().unicode_len();
    if n == 1 {
        let a = c.as_str().get_char(0);
        if a == '.' {
            assert(c@ =~= seq!['.']);
        }
        a == '.'
    } else if n == 2 {
        let a = c.as_str().get_char(0);
        let b = c.as_str().get_char(1);
        if a == '.' && b == '.' {
            assert(c@ =~= seq!['.', '.']);
        }
        a == '.' && b == '.'
    } else {
        false
    }
}

/// Tells whether no component of `p` is `.` or `..`.
pub fn is_plain_path(p: &str, sep: char) -> (r: bool)
    ensures
        r == is_plain(p@, sep),
{
    let pc = components_of(p, sep);
    let mut i: usize = 0;
    while i < pc.len()
        invariant
            i <= pc.len(),
            pc.deep_view() == components(p@, sep),
            forall|j: int| 0 <= j < i ==> !is_dot_name(#[trigger] components(p@, sep)[j]),
        decreases pc.len() - i,
    {
        if is_dot(&pc[i]) {
            assert(is_dot_name(components(p@, sep)[i as int]));
            return false;
        }
        i = i + 1;
    }
    true
}

fn name_bounds(s: &str, sep: char) -> (r: (usize, usize))
    ensures
        r.1 == name_end(s@, s@.len(), sep),
        r.0 == name_start(s@, r.1 as nat, sep),
        r.0 <= r.1 <= s@.len(),
{
    let n = s.unicode_len();
    let mut e: usize = n;
    while e > 0 && is_separator(s.get_char(e - 1), sep)
        invariant
            e <= n == s@.len(),
            name_end(s@, s@.len(), sep) == name_end(s@, e as nat, sep),
        decreases e,
    {
        e = e - 1;
    }
    let mut b: usize = e;
    while b > 0 && !is_separator(s.get_char(b - 1), sep)
        invariant
            b <= e <= n == s@.len(),
            name_end(s@, s@.len(), sep) == e,
            name_start(s@, e as nat, sep) == name_start(s@, b as nat, sep),
        decreases b,
    {
        b = b - 1;
    }
    (b, e)
}

/// The text before the last name of `p`, for looking up its directory.
pub fn parent_of(p: &str, sep: char) -> (r: Option<String>)
    ensures
        r.deep_view() == parent_text(p@, sep),
{
    let (b, e) = name_bounds(p, sep);
    if e == 0 {
        None
    } else {
        Some(String::from_str(p.substring_char(0, b)))
    }
}

/// The name of the file that `p` designates, if it has a usable one.
pub fn file_name_of(p: &str, sep: char) -> (r: Option<String>)
    ensures
        r.deep_view() == file_name(p@, sep),
{
    let (b, e) = name_bounds(p, sep);
    let name = String::from_str(p.substring_char(b, e));
    if b == e || is_dot(&name) {
        None
    } else {
        Some(name)
    }
}

/// Places `name` under `base`, putting `sep` between them where needed.
pub fn join(base: &str, name: &str, sep: char) -> (r: String)
    requires
        valid_sep(sep),
    ensures
        r@ == joined(base@, name@, sep),
{
    let n = base.unicode_len();
    let mut out = String::from_str(base);
    if n > 0 && !is_separator(base.get_char(n - 1), sep) {
        proof {
            reveal_strlit("/");
            reveal_strlit("\\");
        }
        if sep == '/' {
            out.append("/");
        } else {
            out.append("\\");
        }
    }
    out.append(name);
    out
}

/// Whether `name` can stand as one component: non-empty, without separators.
pub open spec fn is_single_name(name: Seq<char>, sep: char) -> bool {
    name.len() > 0 && forall|i: int| 0 <= i < name.len() ==> !is_sep(#[trigger] name[i], sep)
}

proof fn lemma_scan_names(base: Seq<char>, name: Seq<char>, k: int, sep: char)
    requires
        scan(base, sep).1.len() == 0,
        is_single_name(name, sep),
        0 <= k <= name.len(),
    ensures
        scan(base + name.subrange(0, k), sep) == (scan(base, sep).0, name.subrange(0, k)),
    decreases k,
{
    if k == 0 {
        assert(base + name.subrange(0, 0) =~= base);
    } else {
        lemma_scan_names(base, name, k - 1, sep);
        let s = base + name.subrange(0, k);
        assert(s.drop_last() =~= base + name.subrange(0, k - 1));
        assert(s.last() == name[k - 1]);
        assert(name.subrange(0, k) =~= name.subrange(0, k - 1).push(name[k - 1]));
    }
}

/// Putting a single name under a folder adds that name to its components,
/// and keeps it rooted or not as the folder was.
pub proof fn lemma_joined_components(base: Seq<char>, name: Seq<char>, sep: char)
    requires
        valid_sep(sep),
        is_single_name(name, sep),
    ensures
        components(joined(base, name, sep), sep) == components(base, sep).push(name),
        base.len() > 0 ==> rooted(joined(base, name, sep), sep) == rooted(base, sep),
{
    let b = if base.len() == 0 || is_sep(base.last(), sep) {
        base
    } else {
        base.push(sep)
    };
    assert(scan(b, sep).1.len() == 0);
    assert(components(b, sep) == components(base, sep)) by {
        if !(base.len() == 0 || is_sep(base.last(), sep)) {
            assert(b.drop_last() =~= base);
        } else if base.len() > 0 {
            assert(scan(base, sep).1.len() == 0);
        }
    }
    lemma_scan_names(b, name, name.len() as int, sep);
    assert(name.subrange(0, name.len() as int) =~= name);
    assert(joined(base, name, sep) =~= b + name);
    if base.len() > 0 {
        assert((b + name)[0] == base[0]);
    }
}

} // verus!
