use vstd::prelude::*;
use vstd::string::StrSliceExecFns;

verus! {

/// A separator character inside an account identity.
pub open spec fn is_separator(c: char) -> bool {
    c == '-' || c == '_' || c == '.'
}

/// A character an account identity may contain.
pub open spec fn is_account_char(c: char) -> bool {
    ('a' <= c && c <= 'z') || ('0' <= c && c <= '9') || is_separator(c)
}

/// The account-identity format: 2 to 64 characters, each a lowercase
/// letter, a digit or one of `-`, `_`, `.`; a separator never stands
/// first, last, or next to another separator.
pub open spec fn valid_account_id(s: Seq<char>) -> bool {
    &&& 2 <= s.len() <= 64
    &&& forall|i: int| 0 <= i < s.len() ==> is_account_char(#[trigger] s[i])
    &&& !is_separator(s[0])
    &&& !is_separator(s[s.len() - 1])
    &&& forall|i: int| 0 < i < s.len() ==> !(is_separator(s[i - 1]) && is_separator(#[trigger] s[i]))
}

fn char_is_separator(c: char) -> (r: bool)
    ensures
        r == is_separator(c),
{
    c == '-' || c == '_' || c == '.'
}

fn char_is_account_char(c: char) -> (r: bool)
    ensures
        r == is_account_char(c),
{
    ('a' <= c && c <= 'z') || ('0' <= c && c <= '9') || char_is_separator(c)
}

/// Whether `id` passes the account-identity format validation.
pub fn is_valid_account_id(id: &str) -> (r: bool)
    ensures
        r == valid_account_id(id@),
{
    let n = id.unicode_len();
    if n < 2 || n > 64 {
        return false;
    }
    let mut i: usize = 0;
    let mut prev_sep = false;
    while i < n
        invariant
            2 <= n <= 64,
            n == id@.len(),
            i <= n,
            forall|j: int| 0 <= j < i ==> is_account_char(#[trigger] id@[j]),
            forall|j: int| 0 < j < i ==> !(is_separator(id@[j - 1]) && is_separator(
                #[trigger] id@[j],
            )),
            i > 0 ==> prev_sep == is_separator(id@[i - 1]),
            i > 0 ==> !is_separator(id@[0]),
        decreases n - i,
    {
        let c = id.get_char(i);
        if !char_is_account_char(c) {
            return false;
        }
        let cur_sep = char_is_separator(c);
        if cur_sep && (i == 0 || prev_sep) {
            return false;
        }
        prev_sep = cur_sep;
        i += 1;
    }
    !prev_sep
}

} // verus!
