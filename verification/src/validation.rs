//! Validation of the registration form and of OAuth provider records.
use vstd::prelude::*;
use vstd::string::StrSliceExecFns;
use vstd::string::StringExecFns;

use crate::error::{bad_request, outcome, ErrorKind, ResponseError};
use crate::text::{blank, char_is_space, chars_of, is_ascii_digit, is_ascii_lower, is_ascii_upper, is_blank, is_space, owned};

verus! {

broadcast use vstd::string::group_string_axioms;

/// A character that an account name may hold: an ASCII letter, an ASCII digit or `_`.
pub open spec fn is_account_char(c: char) -> bool {
    ||| 'a' <= c <= 'z'
    ||| 'A' <= c <= 'Z'
    ||| '0' <= c <= '9'
    ||| c == '_'
}

/// The error, if any, of an account name.
pub open spec fn account_error(s: Seq<char>) -> Option<(ErrorKind, Seq<char>)> {
    if s.len() < 4 {
        Some((ErrorKind::BadRequest, "account must be at least 4 characters"@))
    } else if s.len() > 32 {
        Some((ErrorKind::BadRequest, "account must be at most 32 characters"@))
    } else if exists|i: int| 0 <= i < s.len() && !is_account_char(#[trigger] s[i]) {
        Some((ErrorKind::BadRequest, "account contains invalid characters"@))
    } else {
        None
    }
}

/// The error, if any, of a nickname.
pub open spec fn nickname_error(s: Seq<char>) -> Option<(ErrorKind, Seq<char>)> {
    if s.len() < 2 {
        Some((ErrorKind::BadRequest, "nickname must be at least 2 characters"@))
    } else if s.len() > 32 {
        Some((ErrorKind::BadRequest, "nickname must be at most 32 characters"@))
    } else {
        None
    }
}

/// The labels of `d` between its dots are all non-empty, and none begins or ends with `-`.
pub open spec fn domain_labels_ok(d: Seq<char>) -> bool {
    &&& d.len() > 0
    &&& d[0] != '.' && d[0] != '-'
    &&& d.last() != '.' && d.last() != '-'
    &&& forall|i: int|
        0 < i < d.len() - 1 && #[trigger] d[i] == '.' ==> d[i - 1] != '.' && d[i - 1] != '-'
            && d[i + 1] != '.' && d[i + 1] != '-'
}

/// `d` holds `c`.
pub open spec fn has_char(d: Seq<char>, c: char) -> bool {
    exists|i: int| 0 <= i < d.len() && d[i] == c
}

/// The index of the first `@` of `s`, if any (`split_once('@')`).
pub open spec fn first_at(s: Seq<char>) -> Option<int> {
    if has_char(s, '@') {
        Some(choose|p: int| 0 <= p < s.len() && s[p] == '@' && !has_char(s.take(p), '@'))
    } else {
        None
    }
}

/// The text is an e-mail address that the registration form accepts.
pub open spec fn email_ok(s: Seq<char>) -> bool {
    match first_at(s) {
        None => false,
        Some(p) => {
            let local = s.take(p);
            let domain = s.skip(p + 1);
            &&& local.len() > 0
            &&& domain.len() > 0
            &&& !has_char(domain, '@')
            &&& !(exists|i: int| 0 <= i < s.len() && is_space(#[trigger] s[i]))
            &&& domain_labels_ok(domain)
            &&& has_char(domain, '.')
        },
    }
}

/// The index of the first `.` of `d`, or -1.
pub open spec fn first_dot(d: Seq<char>) -> int
    decreases d.len(),
{
    if d.len() == 0 {
        -1
    } else if d[0] == '.' {
        0
    } else {
        let k = first_dot(d.drop_first());
        if k < 0 {
            -1
        } else {
            k + 1
        }
    }
}

proof fn lemma_first_dot(d: Seq<char>)
    ensures
        -1 <= first_dot(d) < d.len(),
        first_dot(d) >= 0 ==> d[first_dot(d)] == '.',
        forall|j: int| 0 <= j < d.len() && (first_dot(d) < 0 || j < first_dot(d)) ==> d[j] != '.',
    decreases d.len(),
{
    if d.len() > 0 {
        lemma_first_dot(d.drop_first());
        assert forall|j: int| 0 <= j < d.len() && (first_dot(d) < 0 || j < first_dot(d)) implies d[j] != '.' by {
            if j > 0 {
                assert(d[j] == d.drop_first()[j - 1]);
            }
        }
    }
}

/// `d` split at its dots, as `str::split('.')` splits it.
pub open spec fn dot_labels(d: Seq<char>) -> Seq<Seq<char>>
    decreases d.len(),
{
    let k = first_dot(d);
    if k < 0 || k >= d.len() {
        seq![d]
    } else {
        seq![d.take(k)] + dot_labels(d.skip(k + 1))
    }
}

/// A label of a domain: not empty, and neither beginning nor ending with `-`.
pub open spec fn label_ok(l: Seq<char>) -> bool {
    l.len() > 0 && l[0] != '-' && l.last() != '-'
}

/// Every label of `d` is a valid label.
pub open spec fn labels_ok(d: Seq<char>) -> bool {
    forall|i: int| 0 <= i < dot_labels(d).len() ==> label_ok(#[trigger] dot_labels(d)[i])
}

/// The e-mail rule in the form of the splits: the text splits once at its first `@` into a
/// local part and a domain, both not empty, the domain without another `@` and with a `.`, no
/// white space anywhere, and every label of the domain between its dots valid.
pub open spec fn email_split_rule(s: Seq<char>) -> bool {
    match first_at(s) {
        None => false,
        Some(p) => {
            let local = s.take(p);
            let domain = s.skip(p + 1);
            &&& local.len() > 0
            &&& domain.len() > 0
            &&& !has_char(domain, '@')
            &&& !(exists|i: int| 0 <= i < s.len() && is_space(#[trigger] s[i]))
            &&& has_char(domain, '.')
            &&& labels_ok(domain)
        },
    }
}

proof fn lemma_labels(d: Seq<char>)
    ensures
        domain_labels_ok(d) <==> labels_ok(d),
    decreases d.len(),
{
    lemma_first_dot(d);
    let k = first_dot(d);
    if k < 0 {
        assert(dot_labels(d) =~= seq![d]);
        if label_ok(d) {
            assert(domain_labels_ok(d));
        }
        assert(labels_ok(d) <==> label_ok(d)) by {
            if labels_ok(d) {
                assert(label_ok(dot_labels(d)[0]));
            }
        }
    } else {
        let l0 = d.take(k);
        let r = d.skip(k + 1);
        lemma_labels(r);
        lemma_first_dot(r);
        let rest = dot_labels(r);
        assert(dot_labels(d) =~= seq![l0] + rest);
        assert(labels_ok(d) <==> label_ok(l0) && labels_ok(r)) by {
            if labels_ok(d) {
                assert(label_ok(dot_labels(d)[0]));
                assert forall|i: int| 0 <= i < rest.len() implies label_ok(#[trigger] rest[i]) by {
                    assert(dot_labels(d)[i + 1] == rest[i]);
                }
            }
            if label_ok(l0) && labels_ok(r) {
                assert forall|i: int| 0 <= i < dot_labels(d).len() implies label_ok(#[trigger] dot_labels(d)[i]) by {
                    if i > 0 {
                        assert(dot_labels(d)[i] == rest[i - 1]);
                    }
                }
            }
        }
        if domain_labels_ok(d) {
            assert(k > 0);
            assert(k < d.len() - 1);
            assert(d[k] == '.');
            assert(l0.last() == d[k - 1]);
            assert(r[0] == d[k + 1]);
            assert(r.last() == d.last());
            assert forall|j: int| 0 < j < r.len() - 1 && #[trigger] r[j] == '.' implies r[j - 1] != '.'
                && r[j - 1] != '-' && r[j + 1] != '.' && r[j + 1] != '-' by {
                assert(r[j] == d[k + 1 + j]);
                assert(r[j - 1] == d[k + j]);
                assert(r[j + 1] == d[k + 2 + j]);
            }
            assert(domain_labels_ok(r));
        }
        if label_ok(l0) && domain_labels_ok(r) {
            assert(l0[0] == d[0]);
            assert(d.last() == r.last());
            assert forall|i: int| 0 < i < d.len() - 1 && #[trigger] d[i] == '.' implies d[i - 1] != '.'
                && d[i - 1] != '-' && d[i + 1] != '.' && d[i + 1] != '-' by {
                if i == k {
                    assert(d[k - 1] == l0.last());
                    assert(d[k + 1] == r[0]);
                } else {
                    assert(i > k);
                    let j = i - k - 1;
                    assert(r[j] == d[i]);
                    if j > 0 {
                        assert(r[j - 1] == d[i - 1]);
                    } else {
                        assert(d[i - 1] == d[k]);
                    }
                    if j < r.len() - 1 {
                        assert(r[j + 1] == d[i + 1]);
                    }
                }
            }
            assert(domain_labels_ok(d));
        }
    }
}

/// The registration form's e-mail rule is the split-based one: split once at the first `@`,
/// then check the domain's labels between its dots.
pub proof fn lemma_email_split_rule(s: Seq<char>)
    ensures
        email_ok(s) <==> email_split_rule(s),
{
    if let Some(p) = first_at(s) {
        lemma_labels(s.skip(p + 1));
    }
}

/// The text is a password that the registration form accepts.
pub open spec fn password_ok(s: Seq<char>) -> bool {
    &&& 8 <= s.len() <= 40
    &&& exists|i: int| 0 <= i < s.len() && is_ascii_lower(#[trigger] s[i])
    &&& exists|i: int| 0 <= i < s.len() && is_ascii_upper(#[trigger] s[i])
    &&& exists|i: int| 0 <= i < s.len() && is_ascii_digit(#[trigger] s[i])
}

/// The error, if any, of a registration request, checked field by field in order.
pub open spec fn register_error(
    account: Seq<char>,
    nickname: Seq<char>,
    email: Seq<char>,
    password: Seq<char>,
) -> Option<(ErrorKind, Seq<char>)> {
    if account_error(account) is Some {
        account_error(account)
    } else if nickname_error(nickname) is Some {
        nickname_error(nickname)
    } else if !email_ok(email) {
        Some((ErrorKind::BadRequest, "invalid email"@))
    } else if !password_ok(password) {
        Some((ErrorKind::BadRequest, "password is too weak"@))
    } else {
        None
    }
}

/// The number of characters of `value`.
pub fn char_len(value: &str) -> (n: usize)
    ensures
        n == value@.len(),
{
    value.unicode_len()
}

/// Fails with "`field` is required" when `value` is blank.
pub fn validate_required(value: &str, field: &str) -> (r: Result<(), ResponseError>)
    ensures
        outcome(
            r,
            if is_blank(value@) {
                Some((ErrorKind::BadRequest, field@ + " is required"@))
            } else {
                None
            },
        ),
{
    if blank(value) {
        let msg = owned(field).concat(" is required");
        return Err(ResponseError::BadRequest(msg));
    }
    Ok(())
}

/// Checks an account name: 4 to 32 characters, each an ASCII letter, digit or `_`.
pub fn validate_account(account: &str) -> (r: Result<(), ResponseError>)
    ensures
        outcome(r, account_error(account@)),
{
    let len = char_len(account);
    if len < 4 {
        return Err(bad_request("account must be at least 4 characters"));
    }
    if len > 32 {
        return Err(bad_request("account must be at most 32 characters"));
    }
    let v = chars_of(account);
    let mut i: usize = 0;
    while i < len
        invariant
            v@ == account@,
            len == v.len(),
            4 <= len <= 32,
            i <= len,
            forall|k: int| 0 <= k < i ==> is_account_char(#[trigger] account@[k]),
        decreases len - i,
    {
        let c = v[i];
        if !(('a' <= c && c <= 'z') || ('A' <= c && c <= 'Z') || ('0' <= c && c <= '9') || c
            == '_') {
            assert(!is_account_char(account@[i as int]));
            return Err(bad_request("account contains invalid characters"));
        }
        i = i + 1;
    }
    Ok(())
}

/// Checks a nickname: 2 to 32 characters.
pub fn validate_nickname(nickname: &str) -> (r: Result<(), ResponseError>)
    ensures
        outcome(r, nickname_error(nickname@)),
{
    let len = char_len(nickname);
    if len < 2 {
        return Err(bad_request("nickname must be at least 2 characters"));
    }
    if len > 32 {
        return Err(bad_request("nickname must be at most 32 characters"));
    }
    Ok(())
}

/// The index of the first `c` in `v`, if any.
fn find_char(v: &Vec<char>, c: char, from: usize) -> (r: Option<usize>)
    requires
        from <= v.len(),
    ensures
        match r {
            Some(p) => from <= p < v.len() && v@[p as int] == c && forall|k: int|
                from <= k < p ==> v@[k] != c,
            None => forall|k: int| from <= k < v.len() ==> v@[k] != c,
        },
{
    let mut i = from;
    while i < v.len()
        invariant
            from <= i <= v.len(),
            forall|k: int| from <= k < i ==> v@[k] != c,
        decreases v.len() - i,
    {
        if v[i] == c {
            return Some(i);
        }
        i = i + 1;
    }
    None
}

/// Checks the dot-separated labels of the domain `v[from..]`.
fn domain_labels_valid(v: &Vec<char>, from: usize) -> (b: bool)
    requires
        from <= v.len(),
    ensures
        b == domain_labels_ok(v@.skip(from as int)),
{
    let n = v.len();
    let ghost d = v@.skip(from as int);
    if from == n {
        return false;
    }
    if v[from] == '.' || v[from] == '-' || v[n - 1] == '.' || v[n - 1] == '-' {
        return false;
    }
    let mut i = from + 1;
    while i < n - 1
        invariant
            from < n == v.len(),
            from + 1 <= i <= n,
            d == v@.skip(from as int),
            forall|k: int|
                0 < k < i - from && k < d.len() - 1 && #[trigger] d[k] == '.' ==> d[k - 1] != '.'
                    && d[k - 1] != '-' && d[k + 1] != '.' && d[k + 1] != '-',
        decreases n - i,
    {
        if v[i] == '.' {
            if v[i - 1] == '.' || v[i - 1] == '-' || v[i + 1] == '.' || v[i + 1] == '-' {
                assert(d[i - from] == '.');
                return false;
            }
        }
        i = i + 1;
    }
    true
}

/// Checks an e-mail address: one `@` with a non-empty local part before it, a domain after it
/// that holds a dot and whose labels are non-empty and neither begin nor end with `-`, and no
/// white space anywhere.
pub fn validate_email(email: &str) -> (r: Result<(), ResponseError>)
    ensures
        outcome(
            r,
            if email_ok(email@) {
                None
            } else {
                Some((ErrorKind::BadRequest, "invalid email"@))
            },
        ),
        r is Ok <==> email_split_rule(email@),
{
    proof {
        lemma_email_split_rule(email@);
    }
    let v = chars_of(email);
    let n = v.len();
    let at = find_char(&v, '@', 0);
    match at {
        None => {
            assert(!has_char(email@, '@'));
            return Err(bad_request("invalid email"));
        },
        Some(p) => {
            proof {
                assert(!has_char(email@.take(p as int), '@'));
                assert(has_char(email@, '@'));
                let q = first_at(email@)->0;
                assert(email@[q] == '@' && !has_char(email@.take(q), '@'));
                if q < p {
                    assert(email@.take(p as int)[q] == '@');
                }
                if p < q {
                    assert(email@.take(q)[p as int] == '@');
                }
                assert(q == p);
            }
            let ghost domain = email@.skip(p + 1);
            let second = find_char(&v, '@', p + 1);
            let mut space = false;
            let mut i: usize = 0;
            while i < n
                invariant
                    v@ == email@,
                    n == v.len(),
                    i <= n,
                    space == exists|k: int| 0 <= k < i && is_space(#[trigger] email@[k]),
                decreases n - i,
            {
                if char_is_space(v[i]) {
                    space = true;
                }
                i = i + 1;
            }
            let labels = domain_labels_valid(&v, p + 1);
            let dot = find_char(&v, '.', p + 1);
            proof {
                assert(domain.len() > 0 ==> domain[0] == email@[p + 1]);
                match second {
                    Some(s) => {
                        assert(domain[s - p - 1] == '@');
                    },
                    None => {
                        assert forall|k: int| 0 <= k < domain.len() implies domain[k] != '@' by {
                            assert(domain[k] == email@[k + p + 1]);
                        }
                    },
                }
                match dot {
                    Some(s) => {
                        assert(domain[s - p - 1] == '.');
                    },
                    None => {
                        assert forall|k: int| 0 <= k < domain.len() implies domain[k] != '.' by {
                            assert(domain[k] == email@[k + p + 1]);
                        }
                    },
                }
            }
            if p == 0 || p + 1 >= n || second.is_some() || space || !labels || dot.is_none() {
                return Err(bad_request("invalid email"));
            }
            Ok(())
        },
    }
}

/// Checks a password: 8 to 40 characters, with an ASCII lower-case letter, an ASCII upper-case
/// letter and an ASCII digit.
pub fn validate_password(password: &str) -> (r: Result<(), ResponseError>)
    ensures
        outcome(
            r,
            if password_ok(password@) {
                None
            } else {
                Some((ErrorKind::BadRequest, "password is too weak"@))
            },
        ),
{
    let v = chars_of(password);
    let n = v.len();
    let mut lower = false;
    let mut upper = false;
    let mut digit = false;
    let mut i: usize = 0;
    while i < n
        invariant
            v@ == password@,
            n == v.len(),
            i <= n,
            lower == exists|k: int| 0 <= k < i && is_ascii_lower(#[trigger] password@[k]),
            upper == exists|k: int| 0 <= k < i && is_ascii_upper(#[trigger] password@[k]),
            digit == exists|k: int| 0 <= k < i && is_ascii_digit(#[trigger] password@[k]),
        decreases n - i,
    {
        let c = v[i];
        if 'a' <= c && c <= 'z' {
            lower = true;
        }
        if 'A' <= c && c <= 'Z' {
            upper = true;
        }
        if '0' <= c && c <= '9' {
            digit = true;
        }
        i = i + 1;
    }
    if !(8 <= n && n <= 40) || !lower || !upper || !digit {
        return Err(bad_request("password is too weak"));
    }
    Ok(())
}

/// Checks the four fields of a registration in order, failing with the first error.
pub fn validate_register_request(
    account: &str,
    nickname: &str,
    email: &str,
    password: &str,
) -> (r: Result<(), ResponseError>)
    ensures
        outcome(r, register_error(account@, nickname@, email@, password@)),
{
    validate_account(account)?;
    validate_nickname(nickname)?;
    validate_email(email)?;
    validate_password(password)?;
    Ok(())
}

/// The fields of an OAuth provider record that validation reads.
pub struct OAuthProviderModel {
    pub name: String,
    pub provider: String,
    pub script: String,
    pub portal: Option<String>,
}

/// A character that a provider key may hold.
pub open spec fn is_provider_char(c: char) -> bool {
    is_ascii_lower(c) || is_ascii_digit(c) || c == '_'
}

/// `s` begins with `p`.
pub open spec fn starts_with(s: Seq<char>, p: Seq<char>) -> bool {
    s.len() >= p.len() && s.take(p.len() as int) == p
}

/// The error, if any, of an OAuth provider record, checked in order.
pub open spec fn provider_error(m: OAuthProviderModel) -> Option<(ErrorKind, Seq<char>)> {
    let key = m.provider@;
    if is_blank(m.name@) {
        Some((ErrorKind::BadRequest, "oauth provider name"@ + " is required"@))
    } else if !(2 <= key.len() <= 32) || exists|i: int|
        0 <= i < key.len() && !is_provider_char(#[trigger] key[i]) {
        Some((ErrorKind::BadRequest, "oauth provider contains invalid characters"@))
    } else if is_blank(m.script@) {
        Some((ErrorKind::BadRequest, "oauth provider script"@ + " is required"@))
    } else if m.portal is Some && !is_blank(m.portal->0@) && ((!starts_with(
        m.portal->0@,
        "https://"@,
    ) && !starts_with(m.portal->0@, "http://"@)) || exists|i: int|
        0 <= i < m.portal->0@.len() && is_space(#[trigger] m.portal->0@[i])) {
        Some((ErrorKind::BadRequest, "oauth provider portal is invalid"@))
    } else {
        None
    }
}

/// `s` begins with `p`.
fn begins_with(s: &Vec<char>, p: &Vec<char>) -> (b: bool)
    ensures
        b == starts_with(s@, p@),
{
    if s.len() < p.len() {
        return false;
    }
    let mut i: usize = 0;
    while i < p.len()
        invariant
            i <= p.len() <= s.len(),
            forall|k: int| 0 <= k < i ==> s@[k] == p@[k],
        decreases p.len() - i,
    {
        if s[i] != p[i] {
            assert(s@.take(p.len() as int)[i as int] != p@[i as int]);
            return false;
        }
        i = i + 1;
    }
    assert(s@.take(p.len() as int) =~= p@);
    true
}

/// Checks an OAuth provider record: a name, a provider key of 2 to 32 lower-case ASCII letters,
/// digits or `_`, a script, and, when a portal is given and not blank, an `http://` or
/// `https://` address without white space.
pub fn validate_oauth_provider_model(provider: &OAuthProviderModel) -> (r: Result<
    (),
    ResponseError,
>)
    ensures
        outcome(r, provider_error(*provider)),
{
    validate_required(provider.name.as_str(), "oauth provider name")?;
    let key = chars_of(provider.provider.as_str());
    let n = key.len();
    let mut ok = 2 <= n && n <= 32;
    let mut i: usize = 0;
    while i < n
        invariant
            key@ == provider.provider@,
            n == key.len(),
            i <= n,
            ok == (2 <= n <= 32 && forall|k: int| 0 <= k < i ==> is_provider_char(#[trigger] key@[k])),
        decreases n - i,
    {
        let c = key[i];
        if !(('a' <= c && c <= 'z') || ('0' <= c && c <= '9') || c == '_') {
            assert(!is_provider_char(key@[i as int]));
            ok = false;
        }
        i = i + 1;
    }
    if !ok {
        return Err(bad_request("oauth provider contains invalid characters"));
    }
    validate_required(provider.script.as_str(), "oauth provider script")?;
    if let Some(portal) = &provider.portal {
        if !blank(portal.as_str()) {
            let v = chars_of(portal.as_str());
            let https = chars_of("https://");
            let http = chars_of("http://");
            let secure = begins_with(&v, &https);
            let plain = begins_with(&v, &http);
            let mut space = false;
            let mut j: usize = 0;
            while j < v.len()
                invariant
                    j <= v.len(),
                    space == exists|k: int| 0 <= k < j && is_space(#[trigger] v@[k]),
                decreases v.len() - j,
            {
                if char_is_space(v[j]) {
                    space = true;
                }
                j = j + 1;
            }
            if (!secure && !plain) || space {
                return Err(bad_request("oauth provider portal is invalid"));
            }
        }
    }
    Ok(())
}

} // verus!
