//! Lexicographic order on strings, a sort and an exact-match binary search.

use vstd::prelude::*;
use vstd::string::*;

verus! {

/// The code point of a character as a number.
pub open spec fn code(c: char) -> int {
    c as int
}

/// `a` comes before `b` when both agree on the positions below `i`:
/// the first position from `i` on at which they differ decides, and a
/// proper prefix comes first.
pub open spec fn precedes_from(a: Seq<char>, b: Seq<char>, i: int) -> bool
    decreases a.len() - i,
{
    if i >= b.len() {
        false
    } else if i >= a.len() {
        true
    } else if a[i] != b[i] {
        code(a[i]) < code(b[i])
    } else {
        precedes_from(a, b, i + 1)
    }
}

/// Strict lexicographic order by code points.
pub open spec fn precedes(a: Seq<char>, b: Seq<char>) -> bool {
    precedes_from(a, b, 0)
}

/// `a` comes before `b`; where `strict` is false, `a` may also be `b`.
pub open spec fn in_order(a: Seq<char>, b: Seq<char>, strict: bool) -> bool {
    precedes(a, b) || (!strict && a == b)
}

/// Increasing order; where `strict` is false, equal neighbours are allowed.
pub open spec fn sorted(v: Seq<String>, strict: bool) -> bool {
    forall|i: int, j: int|
        0 <= i < j < v.len() ==> in_order(#[trigger] v[i]@, #[trigger] v[j]@, strict)
}

/// `name` is the text of one of the strings of `v`.
pub open spec fn holds(v: Seq<String>, name: Seq<char>) -> bool {
    exists|i: int| 0 <= i < v.len() && #[trigger] v[i]@ == name
}

proof fn lemma_agree_from(a: Seq<char>, b: Seq<char>, i: int)
    requires
        0 <= i <= a.len(),
        i <= b.len(),
        forall|j: int| 0 <= j < i ==> a[j] == b[j],
        !precedes_from(a, b, i),
        !precedes_from(b, a, i),
    ensures
        a == b,
    decreases a.len() - i,
{
    if i >= b.len() || i >= a.len() {
        assert(a =~= b);
    } else {
        if a[i] != b[i] {
            assert(code(a[i]) != code(b[i]));
        } else {
            lemma_agree_from(a, b, i + 1);
        }
    }
}

proof fn lemma_chain_from(a: Seq<char>, b: Seq<char>, c: Seq<char>, i: int)
    requires
        0 <= i,
        precedes_from(a, b, i),
        precedes_from(b, c, i),
    ensures
        precedes_from(a, c, i),
    decreases a.len() - i,
{
    if i < a.len() && i < b.len() && i < c.len() && a[i] == b[i] && b[i] == c[i] {
        lemma_chain_from(a, b, c, i + 1);
    }
}

proof fn lemma_never_self(a: Seq<char>, i: int)
    requires
        0 <= i,
    ensures
        !precedes_from(a, a, i),
    decreases a.len() - i,
{
    if i < a.len() {
        lemma_never_self(a, i + 1);
    }
}

/// Of two different strings one comes before the other.
pub proof fn lemma_precedes_total(a: Seq<char>, b: Seq<char>)
    ensures
        a == b || precedes(a, b) || precedes(b, a),
{
    if !precedes(a, b) && !precedes(b, a) {
        lemma_agree_from(a, b, 0);
    }
}

/// The order is transitive.
pub proof fn lemma_precedes_transitive(a: Seq<char>, b: Seq<char>, c: Seq<char>)
    requires
        precedes(a, b),
        precedes(b, c),
    ensures
        precedes(a, c),
{
    lemma_chain_from(a, b, c, 0);
}

/// No string comes before itself, so of two strings at most one comes
/// before the other.
pub proof fn lemma_precedes_strict(a: Seq<char>, b: Seq<char>)
    ensures
        !precedes(a, a),
        !(precedes(a, b) && precedes(b, a)),
{
    lemma_never_self(a, 0);
    if precedes(a, b) && precedes(b, a) {
        lemma_chain_from(a, b, a, 0);
    }
}

/// Decides whether `a` comes before `b`. Strings of ASCII characters are
/// compared byte by byte.
pub fn str_precedes(a: &str, b: &str) -> (r: bool)
    ensures
        r == precedes(a@, b@),
{
    if a.is_ascii() && b.is_ascii() {
        return ascii_precedes(a, b);
    }
    let la: usize = a.unicode_len();
    let lb: usize = b.unicode_len();
    let mut i: usize = 0;
    while i < la && i < lb
        invariant
            la == a@.len(),
            lb == b@.len(),
            i <= la,
            i <= lb,
            precedes(a@, b@) == precedes_from(a@, b@, i as int),
        decreases la - i,
    {
        let ca: char = a.get_char(i);
        let cb: char = b.get_char(i);
        if ca != cb {
            return (ca as u32) < (cb as u32);
        }
        i = i + 1;
    }
    i < lb
}

fn ascii_precedes(a: &str, b: &str) -> (r: bool)
    requires
        is_ascii(a),
        is_ascii(b),
    ensures
        r == precedes(a@, b@),
{
    broadcast use is_ascii_spec_bytes;

    let xs: &[u8] = a.as_bytes();
    let ys: &[u8] = b.as_bytes();
    let la: usize = xs.len();
    let lb: usize = ys.len();
    let mut i: usize = 0;
    while i < la && i < lb
        invariant
            is_ascii(a),
            is_ascii(b),
            xs@ == a.spec_bytes(),
            ys@ == b.spec_bytes(),
            la == a@.len(),
            lb == b@.len(),
            i <= la,
            i <= lb,
            precedes(a@, b@) == precedes_from(a@, b@, i as int),
        decreases la - i,
    {
        let x: u8 = xs[i];
        let y: u8 = ys[i];
        assert(x == a@[i as int] as u8 && y == b@[i as int] as u8);
        if x != y {
            return x < y;
        }
        i = i + 1;
    }
    i < lb
}

/// The place of `name` in a sorted list: everything below it comes before
/// `name`, nothing from it on does.
pub fn lower_bound(v: &Vec<String>, name: &str) -> (p: usize)
    requires
        sorted(v@, false),
    ensures
        p <= v.len(),
        forall|i: int| 0 <= i < p ==> precedes(#[trigger] v[i]@, name@),
        forall|i: int| p <= i < v.len() ==> !precedes(#[trigger] v[i]@, name@),
{
    let mut lo: usize = 0;
    let mut hi: usize = v.len();
    while lo < hi
        invariant
            lo <= hi <= v.len(),
            sorted(v@, false),
            forall|i: int| 0 <= i < lo ==> precedes(#[trigger] v[i]@, name@),
            forall|i: int| hi <= i < v.len() ==> !precedes(#[trigger] v[i]@, name@),
        decreases hi - lo,
    {
        let mid: usize = lo + (hi - lo) / 2;
        if str_precedes(v[mid].as_str(), name) {
            assert forall|i: int| 0 <= i < mid + 1 implies precedes(#[trigger] v[i]@, name@) by {
                if i < mid {
                    assert(in_order(v[i]@, v[mid as int]@, false));
                    if v[i]@ != v[mid as int]@ {
                        lemma_precedes_transitive(v[i]@, v[mid as int]@, name@);
                    }
                }
            }
            lo = mid + 1;
        } else {
            assert forall|i: int| mid <= i < v.len() implies !precedes(#[trigger] v[i]@, name@) by {
                if mid < i {
                    assert(in_order(v[mid as int]@, v[i]@, false));
                    if v[i]@ != v[mid as int]@ && precedes(v[i]@, name@) {
                        lemma_precedes_transitive(v[mid as int]@, v[i]@, name@);
                    }
                }
            }
            hi = mid;
        }
    }
    lo
}

/// Exact-match binary search in a sorted list.
pub fn binary_search(v: &Vec<String>, name: &str) -> (found: bool)
    requires
        sorted(v@, false),
    ensures
        found == holds(v@, name@),
{
    let p: usize = lower_bound(v, name);
    if p < v.len() {
        let hit: bool = str_precedes(name, v[p].as_str());
        proof {
            lemma_precedes_total(v[p as int]@, name@);
            if hit {
                assert forall|i: int| 0 <= i < v.len() implies #[trigger] v[i]@ != name@ by {
                    lemma_precedes_strict(name@, name@);
                    if p < i {
                        assert(in_order(v[p as int]@, v[i]@, false));
                        if v[i]@ == name@ && v[p as int]@ != v[i]@ {
                            lemma_precedes_strict(name@, v[p as int]@);
                        }
                    }
                }
            }
        }
        !hit
    } else {
        proof {
            assert forall|i: int| 0 <= i < v.len() implies #[trigger] v[i]@ != name@ by {
                lemma_precedes_strict(name@, name@);
            }
        }
        false
    }
}

/// Putting `x` at a place where all before it are in order with it, and it
/// with all after it, keeps a sorted list sorted.
pub proof fn lemma_insert_sorted(v: Seq<String>, p: int, x: String, strict: bool)
    requires
        sorted(v, strict),
        0 <= p <= v.len(),
        forall|i: int| 0 <= i < p ==> in_order(#[trigger] v[i]@, x@, strict),
        forall|i: int| p <= i < v.len() ==> in_order(x@, #[trigger] v[i]@, strict),
    ensures
        sorted(v.insert(p, x), strict),
{
    let w = v.insert(p, x);
    assert forall|i: int, j: int| 0 <= i < j < w.len() implies in_order(
        #[trigger] w[i]@,
        #[trigger] w[j]@,
        strict,
    ) by {
        let a = if i < p { i } else { i - 1 };
        let b = if j < p { j } else { j - 1 };
        if i != p && j != p {
            assert(w[i] == v[a]);
            assert(w[j] == v[b]);
            assert(in_order(v[a]@, v[b]@, strict));
        } else if i == p {
            assert(w[j] == v[b]);
        } else {
            assert(w[i] == v[a]);
        }
    }
}

/// A list with `x` put in holds what it held before, and `x`.
pub proof fn lemma_insert_holds(v: Seq<String>, p: int, x: String, name: Seq<char>)
    requires
        0 <= p <= v.len(),
    ensures
        holds(v.insert(p, x), name) == (holds(v, name) || name == x@),
{
    let w = v.insert(p, x);
    if holds(v, name) {
        let i = choose|i: int| 0 <= i < v.len() && #[trigger] v[i]@ == name;
        let j = if i < p { i } else { i + 1 };
        assert(w[j] == v[i]);
    }
    if name == x@ {
        assert(w[p] == x);
    }
    if holds(w, name) {
        let j = choose|j: int| 0 <= j < w.len() && #[trigger] w[j]@ == name;
        if j != p {
            let i = if j < p { j } else { j - 1 };
            assert(w[j] == v[i]);
        }
    }
}

/// A sorted copy of a list of names: the same names, each as often as
/// before.
pub fn sort_names(v: &Vec<String>) -> (out: Vec<String>)
    ensures
        sorted(out@, false),
        out.len() == v.len(),
        out@.to_multiset() == v@.to_multiset(),
        forall|name: Seq<char>| holds(out@, name) == holds(v@, name),
{
    let mut out: Vec<String> = Vec::new();
    let mut k: usize = 0;
    proof {
        assert(v@.take(0) =~= out@);
    }
    while k < v.len()
        invariant
            k <= v.len(),
            out.len() == k,
            sorted(out@, false),
            out@.to_multiset() == v@.take(k as int).to_multiset(),
            forall|name: Seq<char>| holds(out@, name) == holds(v@.take(k as int), name),
        decreases v.len() - k,
    {
        let x: String = v[k].clone();
        let p: usize = lower_bound(&out, x.as_str());
        proof {
            assert forall|i: int| p <= i < out.len() implies in_order(
                x@,
                #[trigger] out[i]@,
                false,
            ) by {
                lemma_precedes_total(out[i]@, x@);
            }
            lemma_insert_sorted(out@, p as int, x, false);
            let prev = v@.take(k as int);
            let next = v@.take(k + 1);
            assert(next == prev.insert(k as int, x));
            vstd::seq_lib::to_multiset_insert(out@, p as int, x);
            vstd::seq_lib::to_multiset_insert(prev, k as int, x);
            assert forall|name: Seq<char>| holds(out@.insert(p as int, x), name) == holds(
                next,
                name,
            ) by {
                lemma_insert_holds(out@, p as int, x, name);
                lemma_insert_holds(prev, k as int, x, name);
            }
        }
        out.insert(p, x);
        k = k + 1;
    }
    proof {
        assert(v@.take(v.len() as int) == v@);
    }
    out
}

} // verus!
