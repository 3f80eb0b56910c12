use vstd::prelude::*;

verus! {

/// How the connection to the node is made.
#[derive(PartialEq, Eq, Structural, Clone, Copy, Debug)]
pub enum Transport {
    /// Plain HTTP/2.
    Plain,
    /// HTTP/2 over TLS.
    Tls,
}

/// The node's address has a scheme that no transport serves.
pub struct UnknownScheme {
    pub scheme: String,
}

/// The transport for a node address with the given URL scheme: `http` is
/// served in the clear, `https` over TLS, and any other scheme is refused.
pub fn transport_for_scheme(scheme: &str) -> (r: Result<Transport, UnknownScheme>)
    ensures
        scheme@ == "http"@ ==> r == Ok::<Transport, UnknownScheme>(Transport::Plain),
        scheme@ == "https"@ ==> r == Ok::<Transport, UnknownScheme>(Transport::Tls),
        scheme@ != "http"@ && scheme@ != "https"@ ==> (r matches Err(e) && e.scheme@ == scheme@),
{
    proof {
        reveal_strlit("http");
        reveal_strlit("https");
        assert("http"@.len() != "https"@.len());
    }
    let s = String::from_str(scheme);
    if s == String::from_str("http") {
        Ok(Transport::Plain)
    } else if s == String::from_str("https") {
        Ok(Transport::Tls)
    } else {
        Err(UnknownScheme { scheme: s })
    }
}

} // verus!
