//! URI resolution for buffer side files.
//!
//! A buffer's `uri` is resolved against the directory of the document
//! that declares it, never against the process's working directory: the
//! binary side files are located relative to the document.

use vstd::prelude::*;

verus! {

/// The path a buffer URI resolves to against a base directory: an
/// absolute URI (one starting with `/`) stands alone; any other is the
/// base directory, a separator, and the URI.
pub open spec fn spec_resolve_uri(base: Seq<char>, uri: Seq<char>) -> Seq<char> {
    if uri.len() > 0 && uri[0] == '/' {
        uri
    } else {
        base + "/"@ + uri
    }
}

/// Resolves a buffer's `uri` against the document's directory `base`
/// (given without a trailing separator).
pub fn resolve_uri(base: &str, uri: &str) -> (r: String)
    ensures
        r@ == spec_resolve_uri(base@, uri@),
{
    let n = uri.unicode_len();
    if n > 0 && uri.get_char(0) == '/' {
        return String::from_str(uri);
    }
    let mut out = String::from_str(base);
    out.append("/");
    out.append(uri);
    out
}

} // verus!
