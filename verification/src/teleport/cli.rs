//! What is said to the tool of the proxy, and what is read from its answers.

use vstd::prelude::*;
use vstd::string::*;
use crate::error::BeamError;
use crate::text::contains;
use crate::text::nth_word;
use crate::text::occurs_in;
use crate::text::take_until;
use crate::text::text_eq;
use crate::text::until;
use crate::text::word_at;

verus! {

/// The arguments that log `user` in to `proxy`, with the authentication
/// method `auth` where one is given.
pub open spec fn spec_login_args(
    proxy: Seq<char>,
    auth: Option<Seq<char>>,
    user: Seq<char>,
) -> Seq<Seq<char>> {
    let args = seq!["login"@, "--proxy="@ + proxy, "--user="@ + user];
    match auth {
        Some(method) => args.push("--auth="@ + method),
        None => args,
    }
}

/// The arguments that log `user` in to `proxy`.
pub fn login_args(proxy: &str, auth: Option<&String>, user: &str) -> (res: Vec<String>)
    ensures
        res.deep_view() == spec_login_args(proxy@, auth.deep_view(), user@),
{
    let mut args: Vec<String> = Vec::new();
    args.push(String::from_str("login"));
    let mut proxy_arg = String::from_str("--proxy=");
    proxy_arg.append(proxy);
    args.push(proxy_arg);
    let mut user_arg = String::from_str("--user=");
    user_arg.append(user);
    args.push(user_arg);
    match auth {
        Some(method) => {
            let mut auth_arg = String::from_str("--auth=");
            auth_arg.append(method.as_str());
            args.push(auth_arg);
        },
        None => {},
    }
    assert(args.deep_view() =~= spec_login_args(proxy@, auth.deep_view(), user@));
    args
}

/// The arguments that list the nodes in `format`, as text where no format
/// is given.
pub open spec fn spec_ls_args(format: Option<Seq<char>>) -> Seq<Seq<char>> {
    seq![
        "ls"@,
        "-f"@,
        match format {
            Some(name) => name,
            None => "text"@,
        },
    ]
}

/// The arguments that list the nodes in `format`.
pub fn ls_args(format: Option<&String>) -> (res: Vec<String>)
    ensures
        res.deep_view() == spec_ls_args(format.deep_view()),
{
    let mut args: Vec<String> = Vec::new();
    args.push(String::from_str("ls"));
    args.push(String::from_str("-f"));
    match format {
        Some(name) => args.push(name.clone()),
        None => args.push(String::from_str("text")),
    }
    assert(args.deep_view() =~= spec_ls_args(format.deep_view()));
    args
}

/// The address under which the tool names `proxy`: its host, without a
/// port of its own, on port 443.
pub open spec fn spec_proxy_url(proxy: Seq<char>) -> Seq<char> {
    "https://"@ + until(proxy, ':') + ":443"@
}

/// The address under which the tool names `proxy`.
pub fn proxy_url(proxy: &str) -> (res: String)
    ensures
        res@ == spec_proxy_url(proxy@),
{
    let mut res = String::from_str("https://");
    res.append(take_until(proxy, ':'));
    res.append(":443");
    res
}

/// The proxy that the status names: the fourth word of its first line.
pub open spec fn spec_status_proxy(status: Seq<char>) -> Option<Seq<char>> {
    nth_word(until(status, '\n'), 3)
}

/// The proxy that the status names, if its first line has a fourth word.
pub fn status_proxy(status: &str) -> (res: Option<&str>)
    ensures
        res.deep_view() == spec_status_proxy(status@),
{
    word_at(take_until(status, '\n'), 3)
}

/// Whether the status names `proxy`; `None` where it names no proxy.
pub fn logged_in_to(proxy: &str, status: &str) -> (res: Option<bool>)
    ensures
        res == match spec_status_proxy(status@) {
            Some(named) => Some(named == spec_proxy_url(proxy@)),
            None => None,
        },
{
    match status_proxy(status) {
        Some(named) => {
            let url = proxy_url(proxy);
            Some(text_eq(named, url.as_str()))
        },
        None => None,
    }
}

/// Whether the status shows a session that is valid, for `proxy`.
pub open spec fn spec_is_logged_in(proxy: Seq<char>, status: Seq<char>) -> bool {
    occurs_in("valid for"@, status) && spec_status_proxy(status) == Some(spec_proxy_url(proxy))
}

/// Whether the status shows a session that is valid, for `proxy`.
pub fn is_logged_in(proxy: &str, status: &str) -> (res: bool)
    ensures
        res == spec_is_logged_in(proxy@, status@),
{
    if !contains(status, "valid for") {
        return false;
    }
    match logged_in_to(proxy, status) {
        Some(same) => same,
        None => false,
    }
}

/// What a login that ended with or without success means.
pub fn login_outcome(succeeded: bool) -> (res: Result<(), BeamError>)
    ensures
        res == (if succeeded {
            Ok::<(), BeamError>(())
        } else {
            Err::<(), BeamError>(BeamError::LoginFailed)
        }),
{
    if succeeded {
        Ok(())
    } else {
        Err(BeamError::LoginFailed)
    }
}

} // verus!
