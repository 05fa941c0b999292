//! What is made of the settings at start-up.

use crate::text::{decimal_text, push_decimal};
use vstd::prelude::*;

verus! {

/// The address of the database for the given account, host, port and name.
pub open spec fn database_url_text(
    user: Seq<char>,
    password: Seq<char>,
    host: Seq<char>,
    port: u16,
    name: Seq<char>,
) -> Seq<char> {
    "postgres://"@ + user + ":"@ + password + "@"@ + host + ":"@ + decimal_text(port as nat) + "/"@
        + name
}

/// Makes the address of the database. The parts are put in as they are.
pub fn database_url(user: &str, password: &str, host: &str, port: u16, name: &str) -> (url: String)
    ensures
        url@ == database_url_text(user@, password@, host@, port, name@),
{
    let mut url = String::from_str("postgres://");
    url.append(user);
    url.append(":");
    url.append(password);
    url.append("@");
    url.append(host);
    url.append(":");
    push_decimal(&mut url, port as usize);
    url.append("/");
    url.append(name);
    url
}

/// The largest body, in bytes, that a request may have for a file limit
/// given in MiB; nothing where that number is too large to hold.
pub fn body_limit(file_size_limit: usize) -> (r: Option<usize>)
    ensures
        match r {
            Some(bytes) => bytes == file_size_limit * 1024 * 1024,
            None => file_size_limit * 1024 * 1024 > usize::MAX,
        },
{
    match file_size_limit.checked_mul(1024) {
        Some(kib) => kib.checked_mul(1024),
        None => {
            assert(file_size_limit * 1024 * 1024 >= file_size_limit * 1024) by (nonlinear_arith)
                requires
                    file_size_limit >= 0,
            ;
            None
        },
    }
}

} // verus!
