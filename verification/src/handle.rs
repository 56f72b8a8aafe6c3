//! Canonical account handles.
//!
//! The server leaves the domain out of the handle of an account on its own
//! instance. Handles are compared and stored in one form, `user@domain`.

use crate::text::{
    contains_char, from_char_range, replace_all, replace_all_chars, to_chars, trim_end_char,
    trim_end_char_len,
};
use vstd::prelude::*;
use vstd::string::StringExecFns;

verus! {

/// The host of an instance URL: the URL without `https://` and `http://`,
/// and without trailing slashes.
pub open spec fn instance_domain(instance_url: Seq<char>) -> Seq<char> {
    trim_end_char(replace_all(replace_all(instance_url, "https://"@, ""@), "http://"@, ""@), '/')
}

/// The canonical form of `acct` on the instance `domain`: `acct` itself where
/// it names a domain, else `acct@domain`.
pub open spec fn normalized_handle(acct: Seq<char>, domain: Seq<char>) -> Seq<char> {
    if acct.contains('@') {
        acct
    } else {
        acct + seq!['@'] + domain
    }
}

/// A canonical handle is its own canonical form, whatever the handle it came
/// from and on whatever instance.
pub proof fn lemma_normalize_idempotent(acct: Seq<char>, domain: Seq<char>)
    ensures
        normalized_handle(acct, domain).contains('@'),
        normalized_handle(normalized_handle(acct, domain), domain) == normalized_handle(
            acct,
            domain,
        ),
{
    if !acct.contains('@') {
        let full = acct + seq!['@'] + domain;
        assert(full[acct.len() as int] == '@');
    }
}

/// A handle that already names a domain is left as it is.
pub proof fn lemma_normalize_keeps_full_handle(user: Seq<char>, host: Seq<char>, domain: Seq<char>)
    ensures
        normalized_handle(user + seq!['@'] + host, domain) == user + seq!['@'] + host,
{
    let full = user + seq!['@'] + host;
    assert(full[user.len() as int] == '@');
}

/// The host of an instance URL.
pub fn local_domain(instance_url: &str) -> (out: String)
    ensures
        out@ == instance_domain(instance_url@),
{
    let text = to_chars(instance_url);
    let text = replace_all_chars(&text, &to_chars("https://"), &to_chars(""));
    let text = replace_all_chars(&text, &to_chars("http://"), &to_chars(""));
    let to = trim_end_char_len(&text, '/');
    from_char_range(&text, 0, to)
}

/// The canonical form of `acct` on the instance `domain`.
pub fn normalize_handle(acct: &str, domain: &str) -> (out: String)
    ensures
        out@ == normalized_handle(acct@, domain@),
{
    let chars = to_chars(acct);
    if contains_char(&chars, '@') {
        String::from_str(acct)
    } else {
        proof {
            reveal_strlit("@");
        }
        String::from_str(acct).concat("@").concat(domain)
    }
}

} // verus!
