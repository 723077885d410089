//! The files of the image host, passed through.

use crate::text::same;
use vstd::prelude::*;
use vstd::string::StringExecFns;

verus! {

/// Where the image host keeps the file that is asked for with `path`.
pub open spec fn resource_address(path: Seq<char>) -> Seq<char> {
    "https://dn-img-page.kakao.com"@ + path
}

/// Where the image host keeps the file that is asked for with `path`.
pub fn resource(path: &str) -> (address: String)
    ensures
        address@ == resource_address(path@),
{
    let mut address = String::from_str("https://dn-img-page.kakao.com");
    address.append(path);
    address
}

/// Whether the header `name` of the image host is passed on: only the
/// type of the content is.
pub fn passes_header(name: &str) -> (passed: bool)
    ensures
        passed == (name@ == "content-type"@),
{
    same(name, "content-type")
}

} // verus!
