//! Case-insensitive ordering of interface names: both sides are uppercased
//! and compared lexicographically by code point.

use vstd::prelude::*;
use vstd::string::StrSliceExecFns;

verus! {

/// The uppercase form of a string, as `str::to_uppercase` computes it.
pub uninterp spec fn upper_of(s: Seq<char>) -> Seq<char>;

/// Relies on `str::to_uppercase`: the Unicode uppercase mapping, a function
/// of the characters alone.
#[verifier::external_body]
pub fn to_upper(s: &str) -> (r: String)
    ensures
        r@ == upper_of(s@),
{
    s.to_uppercase()
}

/// Lexicographic at-most on code points, comparing from position `i` on: a
/// proper prefix comes first, otherwise the first differing position decides.
pub open spec fn lex_le_from(a: Seq<char>, b: Seq<char>, i: int) -> bool
    decreases a.len() - i,
{
    if i >= a.len() {
        true
    } else if i >= b.len() {
        false
    } else if (a[i] as int) < (b[i] as int) {
        true
    } else if (b[i] as int) < (a[i] as int) {
        false
    } else {
        lex_le_from(a, b, i + 1)
    }
}

/// Lexicographic at-most on whole character sequences.
pub open spec fn lex_le(a: Seq<char>, b: Seq<char>) -> bool {
    lex_le_from(a, b, 0)
}

/// Case-insensitive at-most: compares the uppercase forms.
pub open spec fn ci_le(a: Seq<char>, b: Seq<char>) -> bool {
    lex_le(upper_of(a), upper_of(b))
}

/// The lexicographic order is total: of any two sequences, one is at most
/// the other.
pub proof fn lemma_lex_le_from_total(a: Seq<char>, b: Seq<char>, i: int)
    ensures
        lex_le_from(a, b, i) || lex_le_from(b, a, i),
    decreases a.len() - i,
{
    if i >= a.len() || i >= b.len() {
    } else if (a[i] as int) < (b[i] as int) || (b[i] as int) < (a[i] as int) {
    } else {
        lemma_lex_le_from_total(a, b, i + 1);
    }
}

/// The lexicographic order is transitive.
pub proof fn lemma_lex_le_from_trans(a: Seq<char>, b: Seq<char>, c: Seq<char>, i: int)
    requires
        lex_le_from(a, b, i),
        lex_le_from(b, c, i),
    ensures
        lex_le_from(a, c, i),
    decreases a.len() - i,
{
    if i >= a.len() {
    } else {
        assert(i < b.len());
        assert(i < c.len());
        if (a[i] as int) < (b[i] as int) {
            assert((a[i] as int) < (c[i] as int));
        } else if (b[i] as int) < (c[i] as int) {
        } else {
            lemma_lex_le_from_trans(a, b, c, i + 1);
        }
    }
}

/// Two sequences each at most the other are equal.
pub proof fn lemma_lex_le_from_antisymmetric(a: Seq<char>, b: Seq<char>, i: int)
    requires
        0 <= i <= a.len(),
        0 <= i <= b.len(),
        lex_le_from(a, b, i),
        lex_le_from(b, a, i),
        a.take(i) == b.take(i),
    ensures
        a == b,
    decreases a.len() - i,
{
    if i >= a.len() {
        assert(i >= b.len());
        assert(a =~= a.take(i));
        assert(b =~= b.take(i));
    } else {
        assert(i < b.len());
        assert(a[i] == b[i]) by {
            assert((a[i] as int) == (b[i] as int));
        }
        assert(a.take(i + 1) =~= a.take(i).push(a[i]));
        assert(b.take(i + 1) =~= b.take(i).push(b[i]));
        lemma_lex_le_from_antisymmetric(a, b, i + 1);
    }
}

/// The case-insensitive order is total.
pub proof fn lemma_ci_le_total(a: Seq<char>, b: Seq<char>)
    ensures
        ci_le(a, b) || ci_le(b, a),
{
    lemma_lex_le_from_total(upper_of(a), upper_of(b), 0);
}

/// The case-insensitive order is transitive.
pub proof fn lemma_ci_le_trans(a: Seq<char>, b: Seq<char>, c: Seq<char>)
    requires
        ci_le(a, b),
        ci_le(b, c),
    ensures
        ci_le(a, c),
{
    lemma_lex_le_from_trans(upper_of(a), upper_of(b), upper_of(c), 0);
}

/// Names that compare at most each other in both directions have the same
/// uppercase form: the order tells apart any two names whose uppercase
/// forms differ.
pub proof fn lemma_ci_le_antisymmetric(a: Seq<char>, b: Seq<char>)
    requires
        ci_le(a, b),
        ci_le(b, a),
    ensures
        upper_of(a) == upper_of(b),
{
    assert(upper_of(a).take(0) =~= upper_of(b).take(0));
    lemma_lex_le_from_antisymmetric(upper_of(a), upper_of(b), 0);
}

/// Compares two strings lexicographically by code point.
pub fn str_le(a: &str, b: &str) -> (r: bool)
    ensures
        r == lex_le(a@, b@),
{
    let a_len = a.unicode_len();
    let b_len = b.unicode_len();
    let mut i: usize = 0;
    loop
        invariant
            i <= a_len,
            i <= b_len,
            a_len == a@.len(),
            b_len == b@.len(),
            lex_le(a@, b@) == lex_le_from(a@, b@, i as int),
        decreases a_len - i,
    {
        if i >= a_len {
            return true;
        }
        if i >= b_len {
            return false;
        }
        let ca = a.get_char(i);
        let cb = b.get_char(i);
        let ca = ca as u32;
        let cb = cb as u32;
        if ca < cb {
            return true;
        }
        if ca > cb {
            return false;
        }
        i = i + 1;
    }
}

/// Compares two names case-insensitively: uppercases both sides, then
/// compares lexicographically by code point.
pub fn name_le(a: &str, b: &str) -> (r: bool)
    ensures
        r == ci_le(a@, b@),
{
    let ua = to_upper(a);
    let ub = to_upper(b);
    str_le(ua.as_str(), ub.as_str())
}

} // verus!
