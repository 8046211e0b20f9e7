//! Comparisons and small utilities on names (strings), verified character by
//! character so that ordering and equality of emitted items is pinned down
//! exactly.

use vstd::prelude::*;

verus! {

/// Lexicographic (code-point) order on character sequences: `a` comes no
/// later than `b` when `a` is a prefix of `b`, or when at the first index
/// where they differ the character of `a` is the smaller one.
pub open spec fn lex_leq(a: Seq<char>, b: Seq<char>) -> bool {
    ||| (a.len() <= b.len() && a == b.subrange(0, a.len() as int))
    ||| (exists |i: int|
        0 <= i < a.len() && i < b.len()
        && a.subrange(0, i) == b.subrange(0, i)
        && (a[i] as u32) < (b[i] as u32))
}

/// Two equal prefixes stay equal when shortened.
proof fn lemma_prefix_shrink(a: Seq<char>, b: Seq<char>, i: int, k: int)
    requires
        0 <= k <= i,
        i <= a.len(),
        i <= b.len(),
        a.subrange(0, i) == b.subrange(0, i),
    ensures
        a.subrange(0, k) == b.subrange(0, k),
{
    assert(a.subrange(0, k) =~= a.subrange(0, i).subrange(0, k));
    assert(b.subrange(0, k) =~= b.subrange(0, i).subrange(0, k));
}

/// The order is total: of any two names one comes no later than the other.
pub proof fn lemma_lex_total(a: Seq<char>, b: Seq<char>)
    ensures
        lex_leq(a, b) || lex_leq(b, a),
    decreases a.len(),
{
    if a.len() == 0 {
        assert(a == b.subrange(0, 0));
    } else if b.len() == 0 {
        assert(b == a.subrange(0, 0));
    } else if (a[0] as u32) < (b[0] as u32) {
        assert(a.subrange(0, 0) == b.subrange(0, 0));
        assert(lex_leq(a, b));
    } else if (b[0] as u32) < (a[0] as u32) {
        assert(b.subrange(0, 0) == a.subrange(0, 0));
        assert(lex_leq(b, a));
    } else {
        vstd::utf8::char_u32_cast(a[0], a[0] as u32);
        vstd::utf8::char_u32_cast(b[0], b[0] as u32);
        assert(a[0] == b[0]);
        let at = a.subrange(1, a.len() as int);
        let bt = b.subrange(1, b.len() as int);
        lemma_lex_total(at, bt);
        if lex_leq(at, bt) {
            lemma_lex_lift(a, b);
        } else {
            lemma_lex_lift(b, a);
        }
    }
}

/// When the first characters agree, the order of two names follows the order
/// of their tails.
proof fn lemma_lex_lift(a: Seq<char>, b: Seq<char>)
    requires
        a.len() > 0,
        b.len() > 0,
        a[0] == b[0],
        lex_leq(a.subrange(1, a.len() as int), b.subrange(1, b.len() as int)),
    ensures
        lex_leq(a, b),
{
    let at = a.subrange(1, a.len() as int);
    let bt = b.subrange(1, b.len() as int);
    if at.len() <= bt.len() && at == bt.subrange(0, at.len() as int) {
        assert(a == b.subrange(0, a.len() as int)) by {
            assert forall|k: int| 0 <= k < a.len() implies a[k] == b.subrange(
                0,
                a.len() as int,
            )[k] by {
                if k > 0 {
                    assert(a[k] == at[k - 1]);
                    assert(at[k - 1] == bt.subrange(0, at.len() as int)[k - 1]);
                }
            }
            assert(a =~= b.subrange(0, a.len() as int));
        }
    } else {
        let i = choose |i: int|
            0 <= i < at.len() && i < bt.len()
            && at.subrange(0, i) == bt.subrange(0, i)
            && (at[i] as u32) < (bt[i] as u32);
        assert(a.subrange(0, i + 1) == b.subrange(0, i + 1)) by {
            assert forall|k: int| 0 <= k < i + 1 implies #[trigger] a.subrange(0, i + 1)[k]
                == b.subrange(0, i + 1)[k] by {
                if k > 0 {
                    assert(at.subrange(0, i)[k - 1] == bt.subrange(0, i)[k - 1]);
                }
            }
            assert(a.subrange(0, i + 1) =~= b.subrange(0, i + 1));
        }
        assert((a[i + 1] as u32) < (b[i + 1] as u32));
        assert(lex_leq(a, b));
    }
}

/// The order is transitive.
pub proof fn lemma_lex_trans(a: Seq<char>, b: Seq<char>, c: Seq<char>)
    requires
        lex_leq(a, b),
        lex_leq(b, c),
    ensures
        lex_leq(a, c),
{
    let a_pre_b = a.len() <= b.len() && a == b.subrange(0, a.len() as int);
    let b_pre_c = b.len() <= c.len() && b == c.subrange(0, b.len() as int);
    if a_pre_b && b_pre_c {
        assert(a == c.subrange(0, a.len() as int)) by {
            assert(b.subrange(0, b.len() as int) =~= b);
            lemma_prefix_shrink(b, c, b.len() as int, a.len() as int);
            assert(a =~= c.subrange(0, a.len() as int));
        }
    } else if a_pre_b {
        let j = choose |j: int|
            0 <= j < b.len() && j < c.len()
            && b.subrange(0, j) == c.subrange(0, j)
            && (b[j] as u32) < (c[j] as u32);
        if j < a.len() {
            assert(a.subrange(0, j) == c.subrange(0, j)) by {
                assert(a.subrange(0, j) =~= b.subrange(0, a.len() as int).subrange(0, j));
                assert(b.subrange(0, a.len() as int).subrange(0, j) =~= b.subrange(0, j));
            }
            assert(a[j] == b.subrange(0, a.len() as int)[j]);
            assert(lex_leq(a, c));
        } else {
            assert(a == c.subrange(0, a.len() as int)) by {
                lemma_prefix_shrink(b, c, j, a.len() as int);
                assert(a =~= b.subrange(0, a.len() as int));
                assert forall|k: int| 0 <= k < a.len() implies #[trigger] a[k] == c.subrange(
                    0,
                    a.len() as int,
                )[k] by {
                    assert(a[k] == b.subrange(0, a.len() as int)[k]);
                    assert(b[k] == b.subrange(0, a.len() as int)[k]);
                    assert(b.subrange(0, a.len() as int)[k] == c.subrange(0, a.len() as int)[k]);
                }
                assert(a =~= c.subrange(0, a.len() as int));
            }
        }
    } else {
        let i = choose |i: int|
            0 <= i < a.len() && i < b.len()
            && a.subrange(0, i) == b.subrange(0, i)
            && (a[i] as u32) < (b[i] as u32);
        if b_pre_c {
            assert(a.subrange(0, i) == c.subrange(0, i)) by {
                assert(b.subrange(0, b.len() as int) =~= b);
                lemma_prefix_shrink(b, c, b.len() as int, i);
            }
            assert(b[i] == c.subrange(0, b.len() as int)[i]);
            assert(lex_leq(a, c));
        } else {
            let j = choose |j: int|
                0 <= j < b.len() && j < c.len()
                && b.subrange(0, j) == c.subrange(0, j)
                && (b[j] as u32) < (c[j] as u32);
            if i <= j {
                assert(a.subrange(0, i) == c.subrange(0, i)) by {
                    lemma_prefix_shrink(b, c, j, i);
                }
                if i < j {
                    assert(b[i] == b.subrange(0, j)[i]);
                    assert(c[i] == c.subrange(0, j)[i]);
                    assert((a[i] as u32) < (c[i] as u32));
                } else {
                    assert((a[i] as u32) < (b[i] as u32) < (c[i] as u32));
                }
                assert(lex_leq(a, c));
            } else {
                assert(a.subrange(0, j) == c.subrange(0, j)) by {
                    lemma_prefix_shrink(a, b, i, j);
                }
                assert(a[j] == a.subrange(0, i)[j]);
                assert(b[j] == b.subrange(0, i)[j]);
                assert((a[j] as u32) < (c[j] as u32));
                assert(lex_leq(a, c));
            }
        }
    }
}

/// Character-wise string equality, decided without trusting any outside
/// comparison.
pub fn str_eq(a: &str, b: &str) -> (r: bool)
    ensures
        r == (a@ == b@),
{
    let alen = a.unicode_len();
    let blen = b.unicode_len();
    if alen != blen {
        return false;
    }
    let mut i: usize = 0;
    while i < alen
        invariant
            i <= alen,
            alen == a@.len(),
            alen == b@.len(),
            forall |k: int| 0 <= k < i ==> a@[k] == b@[k],
        decreases alen - i,
    {
        let ca = a.get_char(i);
        let cb = b.get_char(i);
        if ca != cb {
            return false;
        }
        i = i + 1;
    }
    proof {
        assert(a@ =~= b@);
    }
    true
}

/// Decides `lex_leq` on two strings by comparing code points left to right.
pub fn str_lex_leq(a: &str, b: &str) -> (r: bool)
    ensures
        r == lex_leq(a@, b@),
{
    let alen = a.unicode_len();
    let blen = b.unicode_len();
    let mut i: usize = 0;
    while i < alen && i < blen
        invariant
            i <= alen,
            i <= blen,
            alen == a@.len(),
            blen == b@.len(),
            forall |k: int| 0 <= k < i ==> a@[k] == b@[k],
        decreases alen - i,
    {
        let ca = a.get_char(i);
        let cb = b.get_char(i);
        if (ca as u32) < (cb as u32) {
            proof {
                assert(a@.subrange(0, i as int) =~= b@.subrange(0, i as int));
            }
            return true;
        }
        if (ca as u32) > (cb as u32) {
            proof {
                assert(!(a@.len() <= b@.len() && a@ == b@.subrange(0, a@.len() as int))) by {
                    if a@.len() <= b@.len() && a@ == b@.subrange(0, a@.len() as int) {
                        assert(a@[i as int] == b@.subrange(0, a@.len() as int)[i as int]);
                    }
                }
                assert forall |j: int|
                    !(0 <= j < a@.len() && j < b@.len()
                        && a@.subrange(0, j) == b@.subrange(0, j)
                        && (a@[j] as u32) < (b@[j] as u32)) by {
                    if 0 <= j < a@.len() && j < b@.len()
                        && a@.subrange(0, j) == b@.subrange(0, j) {
                        if j < i {
                            assert(a@[j] == b@[j]);
                        } else if j > i {
                            assert(a@.subrange(0, j)[i as int] == b@.subrange(0, j)[i as int]);
                            assert(a@[i as int] == b@[i as int]);
                        }
                    }
                }
            }
            return false;
        }
        proof {
            vstd::utf8::char_u32_cast(ca, ca as u32);
            vstd::utf8::char_u32_cast(cb, cb as u32);
        }
        i = i + 1;
    }
    if alen <= blen {
        proof {
            assert(a@ =~= b@.subrange(0, a@.len() as int));
        }
        true
    } else {
        proof {
            assert forall |j: int|
                !(0 <= j < a@.len() && j < b@.len()
                    && a@.subrange(0, j) == b@.subrange(0, j)
                    && (a@[j] as u32) < (b@[j] as u32)) by {
                if 0 <= j < a@.len() && j < b@.len() {
                    assert(a@[j] == b@[j]);
                }
            }
        }
        false
    }
}

/// Relies on `String::push_str` from std: appends the characters of `t` to
/// the end of `s`.
#[verifier::external_body]
pub(crate) fn append_str(s: &mut String, t: &str)
    ensures
        final(s)@ == old(s)@ + t@,
{
    s.push_str(t);
}

/// Whether a sequence of names holds the given name.
pub open spec fn seq_contains_str(v: Seq<Seq<char>>, s: Seq<char>) -> bool {
    exists |i: int| 0 <= i < v.len() && v[i] == s
}

/// Decides membership of a name in a list of names.
pub fn contains_name(v: &Vec<String>, s: &str) -> (r: bool)
    ensures
        r == seq_contains_str(v.deep_view(), s@),
{
    let mut i: usize = 0;
    while i < v.len()
        invariant
            i <= v.len(),
            forall |k: int| 0 <= k < i ==> v.deep_view()[k] != s@,
        decreases v.len() - i,
    {
        if str_eq(v[i].as_str(), s) {
            proof {
                assert(v.deep_view()[i as int] == s@);
            }
            return true;
        }
        i = i + 1;
    }
    false
}

/// Clones a list of names.
pub fn clone_names(v: &Vec<String>) -> (r: Vec<String>)
    ensures
        r.deep_view() == v.deep_view(),
{
    let mut r: Vec<String> = Vec::new();
    let mut i: usize = 0;
    while i < v.len()
        invariant
            i <= v@.len(),
            r.deep_view() == v.deep_view().subrange(0, i as int),
        decreases v@.len() - i,
    {
        let ghost before = r.deep_view();
        r.push(v[i].clone());
        proof {
            assert(r.deep_view() =~= before.push(v@[i as int]@));
            assert(r.deep_view() =~= v.deep_view().subrange(0, i + 1));
        }
        i = i + 1;
    }
    proof {
        assert(v.deep_view().subrange(0, v@.len() as int) =~= v.deep_view());
    }
    r
}

/// The view of an optional name.
pub open spec fn opt_view(o: Option<String>) -> Option<Seq<char>> {
    match o {
        Option::Some(s) => Option::Some(s@),
        Option::None => Option::None,
    }
}

} // verus!
