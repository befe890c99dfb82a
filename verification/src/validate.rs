//! Syntactic validation and normalization of a raw domain string: scheme
//! stripping through URL host extraction, `www.` and trailing-slash removal,
//! the dotted-label grammar, length and TLD checks, and lower-casing.

use vstd::prelude::*;
use vstd::string::StringExecFns;
use crate::strutil::{
    lower_char, lower_seq, lower_chars, chars_of, string_of, eq_lit, lemma_lower_char_idempotent,
    lemma_lower_seq_idempotent,
};

verus! {

/// Why a raw domain string was rejected.
#[derive(Clone, Copy, Debug, PartialEq, Eq, Structural)]
pub enum ValidationError {
    EmptyDomain,
    InvalidFormat,
    TooLong,
    MissingTld,
    TldTooShort,
}

/// The message carried by each rejection.
pub open spec fn spec_message(e: ValidationError) -> Seq<char> {
    match e {
        ValidationError::EmptyDomain => "Domain cannot be empty"@,
        ValidationError::InvalidFormat => "Invalid domain format"@,
        ValidationError::TooLong => "Domain too long (max 253 characters)"@,
        ValidationError::MissingTld => "Domain must have at least one subdomain and TLD"@,
        ValidationError::TldTooShort => "TLD must be at least 2 characters"@,
    }
}

impl ValidationError {
    /// Human-readable description of the rejection.
    pub fn message(&self) -> (m: String)
        ensures
            m@ == spec_message(*self),
    {
        match self {
            ValidationError::EmptyDomain => String::from_str("Domain cannot be empty"),
            ValidationError::InvalidFormat => String::from_str("Invalid domain format"),
            ValidationError::TooLong => String::from_str("Domain too long (max 253 characters)"),
            ValidationError::MissingTld => String::from_str(
                "Domain must have at least one subdomain and TLD",
            ),
            ValidationError::TldTooShort => String::from_str("TLD must be at least 2 characters"),
        }
    }
}

/// A letter or digit.
pub open spec fn is_alnum(c: char) -> bool {
    (97 <= c as u32 <= 122) || (65 <= c as u32 <= 90) || (48 <= c as u32 <= 57)
}

/// A character allowed inside a label: letter, digit or hyphen.
pub open spec fn is_label_char(c: char) -> bool {
    is_alnum(c) || c == '-'
}

fn is_alnum_exec(c: char) -> (r: bool)
    ensures
        r == is_alnum(c),
{
    let u = c as u32;
    (97 <= u && u <= 122) || (65 <= u && u <= 90) || (48 <= u && u <= 57)
}

fn is_label_char_exec(c: char) -> (r: bool)
    ensures
        r == is_label_char(c),
{
    is_alnum_exec(c) || c == '-'
}

/// A well-formed label: one to sixty-three characters, letters, digits and
/// hyphens only, with a letter or digit at both ends.
pub open spec fn valid_label(l: Seq<char>) -> bool {
    &&& 1 <= l.len() <= 63
    &&& is_alnum(l[0])
    &&& is_alnum(l[l.len() - 1])
    &&& forall|i: int| 0 <= i < l.len() ==> is_label_char(#[trigger] l[i])
}

fn check_label(l: &Vec<char>) -> (r: bool)
    ensures
        r == valid_label(l@),
{
    if l.len() < 1 || l.len() > 63 {
        return false;
    }
    if !is_alnum_exec(l[0]) || !is_alnum_exec(l[l.len() - 1]) {
        return false;
    }
    for i in 0..l.len()
        invariant
            1 <= l@.len() <= 63,
            is_alnum(l@[0]),
            is_alnum(l@[l@.len() - 1]),
            forall|j: int| 0 <= j < i ==> is_label_char(#[trigger] l@[j]),
    {
        if !is_label_char_exec(l[i]) {
            return false;
        }
    }
    true
}

/// Index of the first dot, or the length of the sequence if there is none.
pub open spec fn first_dot(s: Seq<char>) -> nat
    decreases s.len(),
{
    if s.len() == 0 {
        0
    } else if s[0] == '.' {
        0
    } else {
        (1 + first_dot(s.drop_first())) as nat
    }
}

pub proof fn lemma_first_dot(s: Seq<char>)
    ensures
        first_dot(s) <= s.len(),
        first_dot(s) < s.len() ==> s[first_dot(s) as int] == '.',
        forall|k: int| 0 <= k < first_dot(s) ==> s[k] != '.',
    decreases s.len(),
{
    if s.len() == 0 {
    } else if s[0] == '.' {
    } else {
        lemma_first_dot(s.drop_first());
        assert forall|k: int| 0 <= k < first_dot(s) implies s[k] != '.' by {
            if k > 0 {
                assert(s.drop_first()[k - 1] == s[k]);
            }
        }
    }
}

/// The dot-separated labels of a sequence, in order. An empty sequence has
/// one empty label; separators at the ends produce empty labels.
pub open spec fn labels_of(s: Seq<char>) -> Seq<Seq<char>>
    decreases s.len(),
{
    let i = first_dot(s);
    if i >= s.len() {
        seq![s]
    } else {
        seq![s.take(i as int)] + labels_of(s.skip(i as int + 1))
    }
}

pub proof fn lemma_labels_nonempty(s: Seq<char>)
    ensures
        labels_of(s).len() >= 1,
{
}

proof fn lemma_first_dot_push(s: Seq<char>, c: char)
    ensures
        first_dot(s) < s.len() ==> first_dot(s.push(c)) == first_dot(s),
        first_dot(s) >= s.len() && c == '.' ==> first_dot(s.push(c)) == s.len(),
        first_dot(s) >= s.len() && c != '.' ==> first_dot(s.push(c)) == s.len() + 1,
    decreases s.len(),
{
    lemma_first_dot(s);
    if s.len() == 0 {
        assert(s.push(c)[0] == c);
        if c != '.' {
            assert(s.push(c).drop_first() =~= s);
        }
    } else if s[0] == '.' {
        assert(s.push(c)[0] == '.');
    } else {
        assert(s.push(c)[0] == s[0]);
        assert(s.push(c).drop_first() =~= s.drop_first().push(c));
        lemma_first_dot_push(s.drop_first(), c);
    }
}

/// How the label decomposition grows when one character is appended: a dot
/// opens a new empty label, any other character extends the last label.
pub proof fn lemma_labels_push(s: Seq<char>, c: char)
    ensures
        c == '.' ==> labels_of(s.push(c)) == labels_of(s).push(Seq::<char>::empty()),
        c != '.' ==> labels_of(s.push(c)) == labels_of(s).update(
            labels_of(s).len() - 1,
            labels_of(s).last().push(c),
        ),
    decreases s.len(),
{
    lemma_first_dot(s);
    lemma_first_dot_push(s, c);
    let t = s.push(c);
    let i = first_dot(s) as int;
    if i < s.len() {
        assert(t.take(i) =~= s.take(i));
        assert(t.skip(i + 1) =~= s.skip(i + 1).push(c));
        lemma_labels_push(s.skip(i + 1), c);
        lemma_labels_nonempty(s.skip(i + 1));
        if c == '.' {
            assert(labels_of(t) =~= labels_of(s).push(Seq::<char>::empty()));
        } else {
            assert(labels_of(t) =~= labels_of(s).update(
                labels_of(s).len() - 1,
                labels_of(s).last().push(c),
            ));
        }
    } else {
        assert(labels_of(s) =~= seq![s]);
        if c == '.' {
            assert(first_dot(t) == s.len() < t.len());
            assert(t.take(s.len() as int) =~= s);
            let rest = t.skip(s.len() as int + 1);
            assert(rest =~= Seq::<char>::empty());
            assert(labels_of(rest) =~= seq![Seq::<char>::empty()]);
            assert(labels_of(t) =~= labels_of(s).push(Seq::<char>::empty()));
        } else {
            assert(first_dot(t) == s.len() + 1 >= t.len());
            assert(labels_of(t) =~= seq![t]);
            assert(labels_of(t) =~= labels_of(s).update(
                labels_of(s).len() - 1,
                labels_of(s).last().push(c),
            ));
        }
    }
}

/// The views of a vector of character vectors.
pub open spec fn seq_views(ls: Seq<Vec<char>>) -> Seq<Seq<char>> {
    ls.map_values(|l: Vec<char>| l@)
}

/// Splits a character vector at its dots.
pub fn split_labels(v: &Vec<char>) -> (ls: Vec<Vec<char>>)
    ensures
        seq_views(ls@) == labels_of(v@),
        ls@.len() >= 1,
{
    let mut out: Vec<Vec<char>> = Vec::new();
    let mut cur: Vec<char> = Vec::new();
    proof {
        assert(v@.take(0) =~= Seq::<char>::empty());
        assert(seq_views(out@).push(cur@) =~= labels_of(v@.take(0)));
    }
    for i in 0..v.len()
        invariant
            seq_views(out@).push(cur@) == labels_of(v@.take(i as int)),
    {
        proof {
            assert(v@.take(i + 1) =~= v@.take(i as int).push(v@[i as int]));
            lemma_labels_push(v@.take(i as int), v@[i as int]);
            lemma_labels_nonempty(v@.take(i as int));
        }
        if v[i] == '.' {
            out.push(cur);
            cur = Vec::new();
            proof {
                assert(seq_views(out@).push(cur@) =~= labels_of(v@.take(i + 1)));
            }
        } else {
            cur.push(v[i]);
            proof {
                assert(seq_views(out@).push(cur@) =~= labels_of(v@.take(i + 1)));
            }
        }
    }
    proof {
        assert(v@.take(v@.len() as int) =~= v@);
    }
    out.push(cur);
    proof {
        assert(seq_views(out@) =~= labels_of(v@));
    }
    out
}

/// Every label of the decomposition is well-formed.
pub open spec fn all_labels_valid(s: Seq<char>) -> bool {
    forall|j: int| 0 <= j < labels_of(s).len() ==> valid_label(#[trigger] labels_of(s)[j])
}

/// The sequence begins with `www.`, case-sensitively.
pub open spec fn starts_www(s: Seq<char>) -> bool {
    s.len() >= 4 && s.take(4) == "www."@
}

/// The sequence begins with `http://` or `https://`, in any letter case.
pub open spec fn has_scheme(s: Seq<char>) -> bool {
    (s.len() >= 7 && lower_seq(s.take(7)) == "http://"@) || (s.len() >= 8 && lower_seq(s.take(8))
        == "https://"@)
}

/// Host component of a URL, as `url::Url::parse` and `url::Url::host_str`
/// determine it from the text alone; absent when the text does not parse as
/// an absolute URL with a host.
pub uninterp spec fn host_of(s: Seq<char>) -> Option<Seq<char>>;

/// Relies on `url::Url::parse` and `url::Url::host_str`: returns the URL's
/// host component, a function of the text alone; `None` when the text does
/// not parse or the URL has no host.
#[verifier::external_body]
fn url_host(s: &str) -> (r: Option<String>)
    ensures
        (r is Some) == (host_of(s@) is Some),
        r matches Some(h) ==> host_of(s@) == Some(h@),
{
    match url::Url::parse(s) {
        Ok(u) => u.host_str().map(|h| h.to_string()),
        Err(_) => None,
    }
}

/// Replaces a scheme-prefixed input with its URL host, when one can be
/// extracted; otherwise leaves the input unchanged.
pub open spec fn url_step(s: Seq<char>) -> Seq<char> {
    if has_scheme(s) {
        match host_of(s) {
            Some(h) => h,
            None => s,
        }
    } else {
        s
    }
}

/// Strips one leading `www.`.
pub open spec fn strip_www(s: Seq<char>) -> Seq<char> {
    if starts_www(s) {
        s.skip(4)
    } else {
        s
    }
}

/// Strips one trailing slash.
pub open spec fn strip_slash(s: Seq<char>) -> Seq<char> {
    if s.len() > 0 && s.last() == '/' {
        s.drop_last()
    } else {
        s
    }
}

/// The checks applied to the normalized string: grammar, total length,
/// label count, TLD length; on success the lower-cased string.
pub open spec fn spec_check(d: Seq<char>) -> Result<Seq<char>, ValidationError> {
    if !all_labels_valid(d) {
        Err(ValidationError::InvalidFormat)
    } else if d.len() > 253 {
        Err(ValidationError::TooLong)
    } else if labels_of(d).len() < 2 {
        Err(ValidationError::MissingTld)
    } else if labels_of(d).last().len() < 2 {
        Err(ValidationError::TldTooShort)
    } else {
        Ok(lower_seq(d))
    }
}

/// The whole validation pipeline on a raw input string.
pub open spec fn spec_validate(s: Seq<char>) -> Result<Seq<char>, ValidationError> {
    if s.len() == 0 {
        Err(ValidationError::EmptyDomain)
    } else {
        spec_check(strip_slash(strip_www(url_step(s))))
    }
}

/// The lower-case image of a character keeps the class the grammar sees:
/// dots stay dots, label characters stay label characters.
proof fn lemma_lower_char_class(c: char)
    ensures
        lower_char(c) == '.' <==> c == '.',
        lower_char(c) == '/' <==> c == '/',
        is_label_char(c) ==> is_label_char(lower_char(c)),
        is_alnum(c) ==> is_alnum(lower_char(c)),
        is_label_char(c) || c == '.' ==> lower_char(c) as u32 != 58 && lower_char(c) as u32 != 47,
{
}

/// In a string whose labels are all well-formed, every character is a dot
/// or a label character.
proof fn lemma_labels_chars(s: Seq<char>)
    requires
        all_labels_valid(s),
    ensures
        forall|k: int| 0 <= k < s.len() ==> s[k] == '.' || is_label_char(#[trigger] s[k]),
    decreases s.len(),
{
    lemma_first_dot(s);
    let i = first_dot(s) as int;
    if i >= s.len() {
        assert(labels_of(s)[0] == s);
        assert(valid_label(s));
    } else {
        let head = s.take(i);
        let rest = s.skip(i + 1);
        assert(labels_of(s)[0] == head);
        assert(valid_label(head));
        assert forall|j: int| 0 <= j < labels_of(rest).len() implies valid_label(
            #[trigger] labels_of(rest)[j],
        ) by {
            assert(labels_of(s)[j + 1] == labels_of(rest)[j]);
        }
        lemma_labels_chars(rest);
        assert forall|k: int| 0 <= k < s.len() implies s[k] == '.' || is_label_char(
            #[trigger] s[k],
        ) by {
            if k < i {
                assert(head[k] == s[k]);
            } else if k > i {
                assert(rest[k - i - 1] == s[k]);
            }
        }
    }
}

proof fn lemma_first_dot_lower(s: Seq<char>)
    ensures
        first_dot(lower_seq(s)) == first_dot(s),
    decreases s.len(),
{
    if s.len() == 0 {
        assert(lower_seq(s) =~= Seq::<char>::empty());
    } else {
        assert(lower_seq(s)[0] == lower_char(s[0]));
        lemma_lower_char_class(s[0]);
        if s[0] != '.' {
            assert(lower_seq(s).drop_first() =~= lower_seq(s.drop_first()));
            lemma_first_dot_lower(s.drop_first());
        }
    }
}

/// The labels of a sequence, each lower-cased.
pub open spec fn lower_labels(ls: Seq<Seq<char>>) -> Seq<Seq<char>> {
    ls.map_values(|l: Seq<char>| lower_seq(l))
}

/// Lower-casing commutes with the label decomposition.
proof fn lemma_labels_lower(s: Seq<char>)
    ensures
        labels_of(lower_seq(s)) == lower_labels(labels_of(s)),
    decreases s.len(),
{
    lemma_first_dot(s);
    lemma_first_dot_lower(s);
    let i = first_dot(s) as int;
    if i >= s.len() {
        assert(labels_of(lower_seq(s)) =~= seq![lower_seq(s)]);
        assert(labels_of(lower_seq(s)) =~= lower_labels(labels_of(s)));
    } else {
        assert(lower_seq(s).take(i) =~= lower_seq(s.take(i)));
        assert(lower_seq(s).skip(i + 1) =~= lower_seq(s.skip(i + 1)));
        lemma_labels_lower(s.skip(i + 1));
        assert forall|j: int| 0 <= j < lower_labels(labels_of(s)).len() implies labels_of(
            lower_seq(s),
        )[j] == lower_labels(labels_of(s))[j] by {
            if j > 0 {
                assert(labels_of(lower_seq(s))[j] == lower_labels(labels_of(s.skip(i + 1)))[j
                    - 1]);
                assert(lower_labels(labels_of(s))[j] == lower_seq(labels_of(s)[j]));
                assert(labels_of(s)[j] == labels_of(s.skip(i + 1))[j - 1]);
            }
        }
        assert(labels_of(lower_seq(s)) =~= lower_labels(labels_of(s)));
    }
}

/// A well-formed label stays well-formed under lower-casing.
proof fn lemma_valid_label_lower(l: Seq<char>)
    requires
        valid_label(l),
    ensures
        valid_label(lower_seq(l)),
{
    assert forall|i: int| 0 <= i < lower_seq(l).len() implies is_label_char(
        #[trigger] lower_seq(l)[i],
    ) by {
        lemma_lower_char_class(l[i]);
    }
    lemma_lower_char_class(l[0]);
    lemma_lower_char_class(l[l.len() - 1]);
}

proof fn lemma_two_labels_nonempty(s: Seq<char>)
    requires
        labels_of(s).len() >= 2,
    ensures
        s.len() >= 1,
        first_dot(s) < s.len(),
{
    if first_dot(s) >= s.len() {
        assert(labels_of(s) =~= seq![s]);
    }
}

/// Law: validation is idempotent. A domain that validated successfully,
/// handed back to the validator, validates to itself — provided its
/// validated form does not itself begin with `www.`, which a second pass
/// would strip once more.
pub proof fn lemma_validate_idempotent(s: Seq<char>, v: Seq<char>)
    requires
        spec_validate(s) == Ok::<Seq<char>, ValidationError>(v),
        !starts_www(v),
    ensures
        spec_validate(v) == Ok::<Seq<char>, ValidationError>(v),
{
    let d = strip_slash(strip_www(url_step(s)));
    assert(spec_check(d) == Ok::<Seq<char>, ValidationError>(v));
    assert(all_labels_valid(d));
    assert(v == lower_seq(d));
    assert(v.len() == d.len());
    lemma_two_labels_nonempty(d);
    lemma_labels_chars(d);
    assert forall|k: int| 0 <= k < v.len() implies (#[trigger] v[k]) as u32 != 58 && v[k] as u32
        != 47 by {
        assert(v[k] == lower_char(d[k]));
        lemma_lower_char_class(d[k]);
    }
    assert(!has_scheme(v)) by {
        reveal_strlit("http://");
        reveal_strlit("https://");
        if v.len() >= 7 && lower_seq(v.take(7)) == "http://"@ {
            assert(lower_seq(v.take(7))[4] == lower_char(v[4]));
            assert(lower_char(v[4]) == ':');
            lemma_lower_char_idempotent(d[4]);
            assert(v[4] == lower_char(d[4]));
            assert(lower_char(v[4]) == v[4]);
            assert((':') as u32 == 58);
        }
        if v.len() >= 8 && lower_seq(v.take(8)) == "https://"@ {
            assert(lower_seq(v.take(8))[5] == lower_char(v[5]));
            lemma_lower_char_idempotent(d[5]);
            assert(lower_char(v[5]) == v[5]);
            assert((':') as u32 == 58);
        }
    }
    assert(url_step(v) == v);
    assert(strip_www(v) == v);
    assert(strip_slash(v) == v) by {
        if v.len() > 0 && v.last() == '/' {
            assert(v[v.len() - 1] as u32 != 47);
            assert(('/') as u32 == 47);
        }
    }
    lemma_labels_lower(d);
    assert forall|j: int| 0 <= j < labels_of(v).len() implies valid_label(
        #[trigger] labels_of(v)[j],
    ) by {
        assert(labels_of(v)[j] == lower_seq(labels_of(d)[j]));
        lemma_valid_label_lower(labels_of(d)[j]);
    }
    assert(labels_of(v).len() == labels_of(d).len());
    assert(labels_of(v).last() == lower_seq(labels_of(d).last()));
    assert(labels_of(v).last().len() == labels_of(d).last().len());
    lemma_lower_seq_idempotent(d);
    assert(lower_seq(v) == v);
    assert(spec_check(v) == Ok::<Seq<char>, ValidationError>(v));
}

/// Law: an input that contains a space and carries no URL scheme prefix is
/// rejected as `InvalidFormat` — the space survives the stripping steps and
/// no well-formed label may contain one.
pub proof fn lemma_space_rejected(s: Seq<char>)
    requires
        s.contains(' '),
        !has_scheme(s),
    ensures
        spec_validate(s) == Err::<Seq<char>, ValidationError>(ValidationError::InvalidFormat),
{
    let k = choose|k: int| 0 <= k < s.len() && s[k] == ' ';
    assert(url_step(s) == s);
    let d1 = strip_www(s);
    let k1: int = if starts_www(s) {
        reveal_strlit("www.");
        assert(s.take(4) == "www."@);
        if k < 4 {
            assert(s.take(4)[k] == s[k]);
            assert(false);
        }
        assert(d1[k - 4] == s[k]);
        k - 4
    } else {
        k
    };
    assert(0 <= k1 < d1.len() && d1[k1] == ' ');
    let d2 = strip_slash(d1);
    let k2: int = if d1.len() > 0 && d1.last() == '/' {
        assert(k1 != d1.len() - 1);
        assert(d2[k1] == d1[k1]);
        k1
    } else {
        k1
    };
    assert(0 <= k2 < d2.len() && d2[k2] == ' ');
    assert(!all_labels_valid(d2)) by {
        if all_labels_valid(d2) {
            lemma_labels_chars(d2);
            assert(d2[k2] == '.' || is_label_char(d2[k2]));
            assert((' ') as u32 == 32);
            assert(('.') as u32 == 46);
            assert(('-') as u32 == 45);
        }
    }
}

fn prefix_of(v: &Vec<char>, n: usize) -> (r: Vec<char>)
    requires
        n <= v@.len(),
    ensures
        r@ == v@.take(n as int),
{
    let mut r: Vec<char> = Vec::new();
    for i in 0..n
        invariant
            n <= v@.len(),
            r@ == v@.take(i as int),
    {
        r.push(v[i]);
        assert(v@.take(i + 1) =~= v@.take(i as int).push(v@[i as int]));
    }
    r
}

fn suffix_of(v: &Vec<char>, n: usize) -> (r: Vec<char>)
    requires
        n <= v@.len(),
    ensures
        r@ == v@.skip(n as int),
{
    let mut r: Vec<char> = Vec::new();
    let mut i = n;
    while i < v.len()
        invariant
            n <= i <= v@.len(),
            r@ == v@.subrange(n as int, i as int),
        decreases v@.len() - i,
    {
        r.push(v[i]);
        assert(v@.subrange(n as int, i + 1) =~= v@.subrange(n as int, i as int).push(
            v@[i as int],
        ));
        i = i + 1;
    }
    assert(v@.subrange(n as int, v@.len() as int) =~= v@.skip(n as int));
    r
}

fn has_scheme_exec(v: &Vec<char>) -> (r: bool)
    ensures
        r == has_scheme(v@),
{
    let h1 = if v.len() >= 7 {
        let p = prefix_of(v, 7);
        let lp = lower_chars(&p);
        eq_lit(&lp, "http://")
    } else {
        false
    };
    let h2 = if v.len() >= 8 {
        let p = prefix_of(v, 8);
        let lp = lower_chars(&p);
        eq_lit(&lp, "https://")
    } else {
        false
    };
    h1 || h2
}

/// Normalizes and validates a raw domain string.
///
/// The input is rejected when empty; a scheme-prefixed input is replaced by
/// its URL host when one parses; one leading `www.` and one trailing slash
/// are stripped; the rest must be dot-separated well-formed labels, at most
/// 253 characters in all, with at least two labels and a TLD of at least two
/// characters. The lower-cased string comes back on success.
pub fn validate_domain(domain: &str) -> (r: Result<String, ValidationError>)
    ensures
        match r {
            Ok(s) => spec_validate(domain@) == Ok::<Seq<char>, ValidationError>(s@),
            Err(e) => spec_validate(domain@) == Err::<Seq<char>, ValidationError>(e),
        },
{
    if domain.is_empty() {
        return Err(ValidationError::EmptyDomain);
    }
    let cs = chars_of(domain);
    let after_url: Vec<char> = if has_scheme_exec(&cs) {
        match url_host(domain) {
            Some(h) => chars_of(h.as_str()),
            None => cs,
        }
    } else {
        cs
    };
    assert(after_url@ == url_step(domain@));
    let d1: Vec<char> = if after_url.len() >= 4 {
        let p = prefix_of(&after_url, 4);
        if eq_lit(&p, "www.") {
            suffix_of(&after_url, 4)
        } else {
            after_url
        }
    } else {
        after_url
    };
    assert(d1@ == strip_www(url_step(domain@)));
    let d: Vec<char> = if d1.len() > 0 && d1[d1.len() - 1] == '/' {
        let r = prefix_of(&d1, d1.len() - 1);
        proof {
            assert(d1@.take(d1@.len() - 1) =~= d1@.drop_last());
        }
        r
    } else {
        d1
    };
    assert(d@ == strip_slash(strip_www(url_step(domain@))));
    let labels = split_labels(&d);
    for i in 0..labels.len()
        invariant
            seq_views(labels@) == labels_of(d@),
            domain@.len() != 0,
            d@ == strip_slash(strip_www(url_step(domain@))),
            forall|j: int| 0 <= j < i ==> valid_label(#[trigger] labels_of(d@)[j]),
    {
        assert(seq_views(labels@)[i as int] == labels@[i as int]@);
        if !check_label(&labels[i]) {
            assert(!valid_label(labels_of(d@)[i as int]));
            assert(!all_labels_valid(d@));
            return Err(ValidationError::InvalidFormat);
        }
    }
    assert(all_labels_valid(d@));
    if d.len() > 253 {
        return Err(ValidationError::TooLong);
    }
    if labels.len() < 2 {
        return Err(ValidationError::MissingTld);
    }
    if labels[labels.len() - 1].len() < 2 {
        assert(labels@[labels@.len() - 1]@ == labels_of(d@).last());
        return Err(ValidationError::TldTooShort);
    }
    assert(labels@[labels@.len() - 1]@ == labels_of(d@).last());
    let lo = lower_chars(&d);
    Ok(string_of(&lo))
}

} // verus!
