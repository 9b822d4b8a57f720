//! NEAR account identifiers, held as plain strings.
use vstd::prelude::*;

verus! {

/// A NEAR account name such as `alice.near`.
pub type AccountId = String;

pub open spec fn is_account_separator(c: char) -> bool {
    c == '-' || c == '_' || c == '.'
}

pub open spec fn is_account_char(c: char) -> bool {
    ('a' <= c && c <= 'z') || ('0' <= c && c <= '9') || is_account_separator(c)
}

/// The account-id format: 2 to 64 characters out of `a-z`, `0-9`, `-`, `_`, `.`,
/// where a separator (`-`, `_`, `.`) neither starts nor ends the id and never
/// follows another separator.
pub open spec fn valid_account_id(s: Seq<char>) -> bool {
    &&& 2 <= s.len() <= 64
    &&& forall|i: int| 0 <= i < s.len() ==> is_account_char(#[trigger] s[i])
    &&& !is_account_separator(s[0])
    &&& !is_account_separator(s[s.len() - 1])
    &&& forall|i: int|
        0 <= i < s.len() - 1 ==> !(is_account_separator(#[trigger] s[i]) && is_account_separator(
            s[i + 1],
        ))
}

/// Calls `near_sdk::AccountId::from_str`, which accepts exactly the strings that
/// satisfy [`valid_account_id`] (the checks of `near_account_id::validation::validate`).
#[verifier::external_body]
pub(crate) fn is_valid_account_id(s: &str) -> (r: bool)
    ensures
        r == valid_account_id(s@),
{
    s.parse::<near_sdk::AccountId>().is_ok()
}

/// The parent of an account: what follows its first dot, if it has one.
pub open spec fn parent_account_of(s: Seq<char>) -> Option<Seq<char>>
    decreases s.len(),
{
    if s.len() == 0 {
        None
    } else if s[0] == '.' {
        Some(s.drop_first())
    } else {
        parent_account_of(s.drop_first())
    }
}

proof fn lemma_parent_from(s: Seq<char>, i: int)
    requires
        0 <= i <= s.len(),
        forall|j: int| 0 <= j < i ==> s[j] != '.',
    ensures
        parent_account_of(s) == parent_account_of(s.subrange(i, s.len() as int)),
    decreases i,
{
    if i > 0 {
        assert(s[0] != '.');
        assert(parent_account_of(s) == parent_account_of(s.drop_first()));
        lemma_parent_from(s.drop_first(), i - 1);
        assert(s.drop_first().subrange(i - 1, s.drop_first().len() as int) =~= s.subrange(i, s.len() as int));
    } else {
        assert(s.subrange(0, s.len() as int) =~= s);
    }
}

/// The parent account of an account, as `AccountIdRef::get_parent_account_id`
/// gives it: the part after the first dot; none for a top-level account.
pub fn parent_account_id(account: &str) -> (r: Option<AccountId>)
    ensures
        match r {
            Some(p) => parent_account_of(account@) == Some(p@),
            None => parent_account_of(account@) is None,
        },
{
    let n = account.unicode_len();
    let mut i: usize = 0;
    while i < n
        invariant
            n == account@.len(),
            i <= n,
            forall|j: int| 0 <= j < i ==> account@[j] != '.',
        decreases n - i,
    {
        if account.get_char(i) == '.' {
            proof {
                lemma_parent_from(account@, i as int);
                let t = account@.subrange(i as int, n as int);
                assert(t[0] == '.');
                assert(t.drop_first() =~= account@.subrange(i + 1, n as int));
            }
            return Some(String::from_str(account.substring_char(i + 1, n)));
        }
        i += 1;
    }
    proof {
        lemma_parent_from(account@, n as int);
        assert(account@.subrange(n as int, n as int).len() == 0);
    }
    None
}

} // verus!
