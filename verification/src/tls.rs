//! Built-in TLS material. This build embeds no certificate or private key;
//! the server falls back to paths given on the command line.

use vstd::prelude::*;

verus! {

/// Certificate bytes compiled into the binary, if any.
pub fn default_certs() -> (r: Option<&'static [u8]>)
    ensures
        r is None,
{
    None
}

/// Private-key bytes compiled into the binary, if any.
pub fn default_keys() -> (r: Option<&'static [u8]>)
    ensures
        r is None,
{
    None
}

} // verus!
