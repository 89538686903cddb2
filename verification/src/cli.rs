//! The server's command-line options and the check made on them.

use vstd::prelude::*;
use std::path::PathBuf;

verus! {

/// The options the server is started with.
pub struct Opt {
    /// Host name to listen on.
    pub host: String,
    /// Port number to listen on.
    pub port: u16,
    /// Access key used for authentication.
    pub access_key: Option<String>,
    /// Secret key used for authentication.
    pub secret_key: Option<String>,
    /// Domain name used for virtual-hosted-style requests.
    pub domain_name: Option<String>,
    /// Root directory of stored data.
    pub root: PathBuf,
}

/// The text that `{:?}` gives for a string: the string in double quotes, with
/// its special characters escaped.
pub uninterp spec fn str_debug(s: Seq<char>) -> Seq<char>;

/// `<str as Debug>::fmt`, through `format!("{:?}")`: the quoted, escaped form
/// of the string, which depends on the string alone.
#[verifier::external_body]
fn debug_quoted(s: &str) -> (d: String)
    ensures
        d@ == str_debug(s@),
{
    format!("{s:?}")
}

/// The message given for a domain name that looks like a URL.
pub open spec fn url_like_message(domain: Seq<char>) -> Seq<char> {
    "expected domain name, found URL-like string: "@ + str_debug(domain)
}

/// What `check_cli_args` answers for the options `opt`.
pub open spec fn cli_args_verdict(opt: Opt) -> Result<(), Seq<char>> {
    match opt.domain_name {
        Some(s) => if s@.contains('/') {
            Err(url_like_message(s@))
        } else {
            Ok(())
        },
        None => Ok(()),
    }
}

/// The options are refused exactly when a domain name is given and holds a
/// `/`; a domain name without one (such as `host:port`) is accepted.
pub proof fn law_cli_refuses_only_slash(opt: Opt)
    ensures
        cli_args_verdict(opt) is Ok <==> !(opt.domain_name matches Some(s) && s@.contains('/')),
        opt.domain_name is None ==> cli_args_verdict(opt) is Ok,
{
}

/// Whether `s` holds the character `c`.
fn str_contains_char(s: &str, c: char) -> (b: bool)
    ensures
        b == s@.contains(c),
{
    let n = s.unicode_len();
    let mut i: usize = 0;
    while i < n
        invariant
            n == s@.len(),
            i <= n,
            forall|j: int| 0 <= j < i ==> s@[j] != c,
        decreases n - i,
    {
        if s.get_char(i) == c {
            return true;
        }
        i = i + 1;
    }
    false
}

/// Rejects a domain name that holds a `/`, since such a value is a URL
/// rather than a domain name.
pub fn check_cli_args(opt: &Opt) -> (r: Result<(), String>)
    ensures
        match (r, cli_args_verdict(*opt)) {
            (Ok(()), Ok(())) => true,
            (Err(msg), Err(expected)) => msg@ == expected,
            _ => false,
        },
{
    if let Some(s) = &opt.domain_name {
        if str_contains_char(s.as_str(), '/') {
            let mut msg = String::from_str("expected domain name, found URL-like string: ");
            let quoted = debug_quoted(s.as_str());
            msg.append(quoted.as_str());
            return Err(msg);
        }
    }
    Ok(())
}

} // verus!
