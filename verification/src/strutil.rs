//! Character and string helpers shared by the validator, the registry and
//! the parser: ASCII lower-casing, character-vector conversions and decimal
//! rendering of small integers.

use vstd::prelude::*;
use vstd::string::StrSliceExecFns;
use vstd::string::StringExecFns;

verus! {

/// The view of an optional string.
pub open spec fn opt_str_view(o: Option<String>) -> Option<Seq<char>> {
    match o {
        Some(s) => Some(s@),
        None => None,
    }
}

/// The views of a sequence of strings.
pub open spec fn str_views(v: Seq<String>) -> Seq<Seq<char>> {
    v.map_values(|s: String| s@)
}

/// ASCII lower-casing of a single character; anything outside `A`..`Z`
/// is left unchanged.
pub open spec fn lower_char(c: char) -> char {
    if 65 <= c as u32 <= 90 {
        ((c as u32 + 32) as u8) as char
    } else {
        c
    }
}

/// ASCII lower-casing of a character sequence, position by position.
pub open spec fn lower_seq(s: Seq<char>) -> Seq<char> {
    s.map_values(|c: char| lower_char(c))
}

/// Lower-casing the same character twice changes nothing more.
pub proof fn lemma_lower_char_idempotent(c: char)
    ensures
        lower_char(lower_char(c)) == lower_char(c),
{
}

/// Lower-casing the same sequence twice changes nothing more.
pub proof fn lemma_lower_seq_idempotent(s: Seq<char>)
    ensures
        lower_seq(lower_seq(s)) == lower_seq(s),
{
    assert forall|i: int| 0 <= i < s.len() implies lower_seq(lower_seq(s))[i] == lower_seq(s)[i] by {
        lemma_lower_char_idempotent(s[i]);
    }
    assert(lower_seq(lower_seq(s)) =~= lower_seq(s));
}

/// Exec counterpart of `lower_char`.
pub fn to_lower_char(c: char) -> (r: char)
    ensures
        r == lower_char(c),
{
    let u = c as u32;
    if 65 <= u && u <= 90 {
        ((u + 32) as u8) as char
    } else {
        c
    }
}

/// The characters of a string slice, in order.
pub fn chars_of(s: &str) -> (v: Vec<char>)
    ensures
        v@ == s@,
{
    let n = s.unicode_len();
    let mut v: Vec<char> = Vec::new();
    for i in 0..n
        invariant
            n == s@.len(),
            v@ == s@.take(i as int),
    {
        v.push(s.get_char(i));
        assert(s@.take(i + 1) =~= s@.take(i as int).push(s@[i as int]));
    }
    assert(v@ =~= s@);
    v
}

/// Relies on `alloc::string::String::push`: appends one character to the
/// end of the string.
#[verifier::external_body]
fn push_char(s: &mut String, c: char)
    ensures
        final(s)@ == old(s)@.push(c),
{
    s.push(c)
}

/// A `String` with exactly the given characters.
pub fn string_of(v: &Vec<char>) -> (s: String)
    ensures
        s@ == v@,
{
    let mut s = String::new();
    for i in 0..v.len()
        invariant
            s@ == v@.take(i as int),
    {
        push_char(&mut s, v[i]);
        assert(v@.take(i + 1) =~= v@.take(i as int).push(v@[i as int]));
    }
    assert(s@ =~= v@);
    s
}

/// Character-vector equality, decided element by element.
pub fn eq_chars(a: &Vec<char>, b: &Vec<char>) -> (r: bool)
    ensures
        r == (a@ == b@),
{
    if a.len() != b.len() {
        assert(a@ !~= b@);
        return false;
    }
    for i in 0..a.len()
        invariant
            a@.len() == b@.len(),
            forall|j: int| 0 <= j < i ==> a@[j] == b@[j],
    {
        if a[i] != b[i] {
            assert(a@ !~= b@);
            return false;
        }
    }
    assert(a@ =~= b@);
    true
}

/// Whether a character vector holds exactly the characters of a literal.
pub fn eq_lit(a: &Vec<char>, lit: &str) -> (r: bool)
    ensures
        r == (a@ == lit@),
{
    let l = chars_of(lit);
    eq_chars(a, &l)
}

/// String-slice equality, decided through `String` comparison.
pub fn str_eq(a: &str, b: &str) -> (r: bool)
    ensures
        r == (a@ == b@),
{
    let sa = String::from_str(a);
    let sb = String::from_str(b);
    sa == sb
}

/// Exec counterpart of `lower_seq` on character vectors.
pub fn lower_chars(v: &Vec<char>) -> (r: Vec<char>)
    ensures
        r@ == lower_seq(v@),
{
    let mut r: Vec<char> = Vec::new();
    for i in 0..v.len()
        invariant
            r@ == lower_seq(v@.take(i as int)),
    {
        r.push(to_lower_char(v[i]));
        assert(lower_seq(v@.take(i + 1)) =~= lower_seq(v@.take(i as int)).push(lower_char(v@[i as int])));
    }
    assert(lower_seq(v@.take(v@.len() as int)) =~= lower_seq(v@));
    r
}

/// Lower-cased copy of a string slice.
pub fn lower_str(s: &str) -> (r: String)
    ensures
        r@ == lower_seq(s@),
{
    let cs = chars_of(s);
    let lo = lower_chars(&cs);
    string_of(&lo)
}

/// The decimal digit character for a value below ten.
pub open spec fn digit_char(d: int) -> char {
    ((48 + d) as u8) as char
}

/// Decimal rendering of a non-negative integer, most significant digit first.
pub open spec fn spec_dec(n: int) -> Seq<char>
    decreases n,
{
    if n < 10 {
        seq![digit_char(n)]
    } else {
        spec_dec(n / 10).push(digit_char(n % 10))
    }
}

fn push_dec_digits(v: &mut Vec<char>, n: u16)
    ensures
        final(v)@ == old(v)@ + spec_dec(n as int),
    decreases n,
{
    if n < 10 {
        v.push((48 + (n as u8)) as char);
        assert(old(v)@.push(digit_char(n as int)) =~= old(v)@ + spec_dec(n as int));
    } else {
        push_dec_digits(v, n / 10);
        v.push((48 + ((n % 10) as u8)) as char);
        assert(old(v)@ + spec_dec((n / 10) as int) + seq![digit_char((n % 10) as int)] =~= old(
            v,
        )@ + spec_dec(n as int));
    }
}

/// Decimal text of a 16-bit integer, e.g. `404` becomes `"404"`.
pub fn dec_of_u16(n: u16) -> (s: String)
    ensures
        s@ == spec_dec(n as int),
{
    let mut v: Vec<char> = Vec::new();
    push_dec_digits(&mut v, n);
    assert(v@ =~= spec_dec(n as int));
    string_of(&v)
}

} // verus!
