//! Character-level helpers on strings, with their specifications.
use vstd::prelude::*;

verus! {

/// `p` is a prefix of `s`.
pub open spec fn seq_starts_with(s: Seq<char>, p: Seq<char>) -> bool {
    p.len() <= s.len() && s.subrange(0, p.len() as int) == p
}

/// `t` stands in `s` at position `i`.
pub open spec fn occurs_at(s: Seq<char>, t: Seq<char>, i: int) -> bool {
    0 <= i && i + t.len() <= s.len() && s.subrange(i, i + t.len()) == t
}

/// `s` ends with `t`.
pub open spec fn seq_ends_with(s: Seq<char>, t: Seq<char>) -> bool {
    t.len() <= s.len() && s.subrange(s.len() - t.len(), s.len() as int) == t
}

/// Whether `s` begins with `prefix`.
pub fn starts_with(s: &str, prefix: &str) -> (r: bool)
    ensures
        r == seq_starts_with(s@, prefix@),
{
    let n = prefix.unicode_len();
    let m = s.unicode_len();
    if n > m {
        return false;
    }
    let mut i: usize = 0;
    while i < n
        invariant
            n == prefix@.len(),
            m == s@.len(),
            n <= m,
            i <= n,
            forall|j: int| 0 <= j < i ==> s@[j] == prefix@[j],
        decreases n - i,
    {
        if s.get_char(i) != prefix.get_char(i) {
            assert(s@.subrange(0, n as int)[i as int] != prefix@[i as int]);
            return false;
        }
        i += 1;
    }
    assert(s@.subrange(0, n as int) =~= prefix@);
    true
}

/// Whether two strings hold the same characters.
pub fn str_eq(a: &str, b: &str) -> (r: bool)
    ensures
        r == (a@ == b@),
{
    let n = a.unicode_len();
    let m = b.unicode_len();
    if n != m {
        return false;
    }
    let mut i: usize = 0;
    while i < n
        invariant
            n == a@.len(),
            m == b@.len(),
            n == m,
            i <= n,
            forall|j: int| 0 <= j < i ==> a@[j] == b@[j],
        decreases n - i,
    {
        if a.get_char(i) != b.get_char(i) {
            return false;
        }
        i += 1;
    }
    assert(a@ =~= b@);
    true
}

/// The decimal digit for `d < 10`.
pub open spec fn digit_char(d: nat) -> char {
    "0123456789"@[d as int]
}

/// The decimal representation of a number, without leading zeros.
pub open spec fn decimal(n: nat) -> Seq<char>
    decreases n,
{
    if n < 10 {
        seq![digit_char(n)]
    } else {
        decimal(n / 10).push(digit_char(n % 10))
    }
}

/// The decimal representation of `n`.
pub fn u64_to_decimal(n: u64) -> (r: String)
    ensures
        r@ == decimal(n as nat),
    decreases n,
{
    let digits = "0123456789";
    proof {
        reveal_strlit("0123456789");
    }
    let d = (n % 10) as usize;
    let last = digits.substring_char(d, d + 1);
    if n < 10 {
        let r = String::from_str(last);
        assert(r@ =~= seq![digit_char(n as nat)]);
        r
    } else {
        let mut r = u64_to_decimal(n / 10);
        r.append(last);
        assert(r@ =~= decimal((n / 10) as nat).push(digit_char((n % 10) as nat)));
        r
    }
}

/// Strict lexicographic order of texts by character code, the order of UTF-8 strings.
pub open spec fn seq_lt(a: Seq<char>, b: Seq<char>) -> bool
    decreases a.len(),
{
    if a.len() == 0 {
        b.len() > 0
    } else if b.len() == 0 {
        false
    } else if a[0] != b[0] {
        (a[0] as int) < (b[0] as int)
    } else {
        seq_lt(a.drop_first(), b.drop_first())
    }
}

pub proof fn lemma_seq_lt_irreflexive(a: Seq<char>)
    ensures
        !seq_lt(a, a),
    decreases a.len(),
{
    if a.len() > 0 {
        lemma_seq_lt_irreflexive(a.drop_first());
    }
}

pub proof fn lemma_seq_lt_total(a: Seq<char>, b: Seq<char>)
    requires
        a != b,
    ensures
        seq_lt(a, b) || seq_lt(b, a),
    decreases a.len(),
{
    if a.len() > 0 && b.len() > 0 && a[0] == b[0] {
        if a.drop_first() == b.drop_first() {
            assert(a =~= seq![a[0]] + a.drop_first());
            assert(b =~= seq![b[0]] + b.drop_first());
        }
        lemma_seq_lt_total(a.drop_first(), b.drop_first());
    } else if a.len() == 0 && b.len() == 0 {
        assert(a =~= b);
    }
}

pub proof fn lemma_seq_lt_transitive(a: Seq<char>, b: Seq<char>, c: Seq<char>)
    requires
        seq_lt(a, b),
        seq_lt(b, c),
    ensures
        seq_lt(a, c),
    decreases a.len(),
{
    if a.len() > 0 && b.len() > 0 && c.len() > 0 && a[0] == b[0] && b[0] == c[0] {
        lemma_seq_lt_transitive(a.drop_first(), b.drop_first(), c.drop_first());
    }
}

/// Whether `a` comes strictly before `b`.
pub fn str_lt(a: &str, b: &str) -> (r: bool)
    ensures
        r == seq_lt(a@, b@),
{
    let n = a.unicode_len();
    let m = b.unicode_len();
    let mut i: usize = 0;
    assert(a@.skip(0) =~= a@);
    assert(b@.skip(0) =~= b@);
    while i < n && i < m
        invariant
            n == a@.len(),
            m == b@.len(),
            i <= n,
            i <= m,
            seq_lt(a@, b@) == seq_lt(a@.skip(i as int), b@.skip(i as int)),
        decreases n - i,
    {
        let x = a.get_char(i);
        let y = b.get_char(i);
        proof {
            assert(a@.skip(i as int)[0] == x);
            assert(b@.skip(i as int)[0] == y);
            assert(a@.skip(i as int).drop_first() =~= a@.skip(i + 1));
            assert(b@.skip(i as int).drop_first() =~= b@.skip(i + 1));
        }
        if x != y {
            return (x as u32) < (y as u32);
        }
        i += 1;
    }
    proof {
        assert(a@.skip(i as int).len() == n - i);
        assert(b@.skip(i as int).len() == m - i);
    }
    i == n && i < m
}

/// A sequence of texts in strictly increasing order (so each once).
pub open spec fn texts_sorted(s: Seq<Seq<char>>) -> bool {
    forall|i: int, j: int| 0 <= i < j < s.len() ==> seq_lt(#[trigger] s[i], #[trigger] s[j])
}

/// The texts of `v` in increasing order, each once.
pub fn sort_strings(v: Vec<String>) -> (r: Vec<String>)
    ensures
        crate::access_control::rules::strings_view(r@).to_set() == crate::access_control::rules::strings_view(v@).to_set(),
        texts_sorted(crate::access_control::rules::strings_view(r@)),
{
    let ghost all = crate::access_control::rules::strings_view(v@);
    let mut out: Vec<String> = Vec::new();
    let mut i: usize = 0;
    while i < v.len()
        invariant
            i <= v@.len(),
            all == crate::access_control::rules::strings_view(v@),
            crate::access_control::rules::strings_view(out@).to_set() == all.subrange(0, i as int).to_set(),
            texts_sorted(crate::access_control::rules::strings_view(out@)),
        decreases v@.len() - i,
    {
        let ghost before = crate::access_control::rules::strings_view(out@);
        let ghost x = v@[i as int]@;
        proof {
            assert(all.subrange(0, i + 1) =~= all.subrange(0, i as int).push(x));
            all.subrange(0, i as int).lemma_push_to_set_commute(x);
        }
        let mut pos: usize = 0;
        while pos < out.len() && str_lt(out[pos].as_str(), v[i].as_str())
            invariant
                pos <= out@.len(),
                i < v@.len(),
                crate::access_control::rules::strings_view(out@) == before,
                forall|j: int| 0 <= j < pos ==> seq_lt(#[trigger] before[j], x),
                x == v@[i as int]@,
            decreases out@.len() - pos,
        {
            pos += 1;
        }
        let dup = pos < out.len() && str_eq(out[pos].as_str(), v[i].as_str());
        if dup {
            proof {
                assert(before[pos as int] == x);
                assert(before.to_set().contains(x));
                assert(before.to_set().insert(x) =~= before.to_set());
            }
        } else {
            out.insert(pos, v[i].clone());
            proof {
                let after = crate::access_control::rules::strings_view(out@);
                assert(after =~= before.insert(pos as int, x));
                if pos < before.len() {
                    assert(!seq_lt(before[pos as int], x));
                    assert(before[pos as int] != x);
                    lemma_seq_lt_total(before[pos as int], x);
                    assert(seq_lt(x, before[pos as int]));
                }
                assert forall|a: int, b: int| 0 <= a < b < after.len() implies seq_lt(#[trigger] after[a], #[trigger] after[b]) by {
                    if b < pos {
                        assert(after[a] == before[a] && after[b] == before[b]);
                    } else if b == pos {
                        assert(after[a] == before[a]);
                    } else if a < pos {
                        assert(after[a] == before[a] && after[b] == before[b - 1]);
                        if b - 1 == pos {
                            lemma_seq_lt_transitive(before[a], x, before[pos as int]);
                        } else {
                            assert(seq_lt(before[pos as int], before[b - 1]));
                            lemma_seq_lt_transitive(x, before[pos as int], before[b - 1]);
                            lemma_seq_lt_transitive(before[a], x, before[b - 1]);
                        }
                    } else if a == pos {
                        assert(after[b] == before[b - 1]);
                        if b - 1 != pos {
                            assert(seq_lt(before[pos as int], before[b - 1]));
                            lemma_seq_lt_transitive(x, before[pos as int], before[b - 1]);
                        }
                    } else {
                        assert(after[a] == before[a - 1] && after[b] == before[b - 1]);
                    }
                }
                assert(after.to_set() =~= before.to_set().insert(x)) by {
                    assert forall|y: Seq<char>| after.to_set().contains(y) == before.to_set().insert(x).contains(y) by {
                        if after.contains(y) {
                            let j = choose|j: int| 0 <= j < after.len() && after[j] == y;
                            if j < pos {
                                assert(before[j] == y);
                            } else if j > pos {
                                assert(before[j - 1] == y);
                            }
                        }
                        if before.contains(y) {
                            let j = choose|j: int| 0 <= j < before.len() && before[j] == y;
                            if j < pos {
                                assert(after[j] == y);
                            } else {
                                assert(after[j + 1] == y);
                            }
                        }
                        if y == x {
                            assert(after[pos as int] == y);
                        }
                    }
                }
            }
        }
        i += 1;
    }
    proof {
        assert(all.subrange(0, all.len() as int) =~= all);
    }
    out
}

} // verus!
