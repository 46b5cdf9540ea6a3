//! Header fields, as they are read from a request and written to a response.

use crate::bytes::{ascii, copy_range, find, find_byte, same_bytes, trim, trim_bytes, COLON};
use vstd::prelude::*;
use vstd::slice::slice_subrange;

verus! {

/// One header field.
#[derive(Clone, Debug, PartialEq, Eq)]
pub struct Header {
    /// The field's name, exactly as sent.
    pub name: Vec<u8>,
    /// The field's value. A value read from a request has no surrounding
    /// whitespace.
    pub value: Vec<u8>,
}

/// The mathematical value of a [`Header`].
pub struct HeaderView {
    pub name: Seq<u8>,
    pub value: Seq<u8>,
}

impl View for Header {
    type V = HeaderView;

    open spec fn view(&self) -> HeaderView {
        HeaderView { name: self.name@, value: self.value@ }
    }
}

/// The values of a list of headers, in order.
pub open spec fn headers_view(headers: Seq<Header>) -> Seq<HeaderView> {
    Seq::new(headers.len(), |i: int| headers[i]@)
}

/// The name of the header that the user-agent route reads.
pub open spec fn user_agent_name() -> Seq<u8> {
    ascii("User-Agent"@)
}

/// The header that a line holds: the bytes before its first colon are the
/// name, the bytes after it, trimmed of whitespace, the value. A line
/// without a colon holds none.
pub open spec fn header_of(line: Seq<u8>) -> Option<HeaderView> {
    let colon = find(line, COLON, 0);
    if colon < line.len() {
        Some(
            HeaderView {
                name: line.subrange(0, colon),
                value: trim(line.subrange(colon + 1, line.len() as int)),
            },
        )
    } else {
        None
    }
}

/// The value of the first header of `headers` whose name is exactly `name`.
pub open spec fn lookup(headers: Seq<HeaderView>, name: Seq<u8>) -> Option<Seq<u8>>
    decreases headers.len(),
{
    if headers.len() == 0 {
        None
    } else if headers[0].name == name {
        Some(headers[0].value)
    } else {
        lookup(headers.drop_first(), name)
    }
}

/// Reads the header that a line holds, if it holds one.
pub fn parse_header(line: &[u8]) -> (r: Option<Header>)
    ensures
        match r {
            Some(header) => header_of(line@) == Some(header@),
            None => header_of(line@).is_none(),
        },
{
    let colon = find_byte(line, COLON, 0);
    if colon < line.len() {
        let name = copy_range(line, 0, colon);
        let value = trim_bytes(slice_subrange(line, colon + 1, line.len()));
        Some(Header { name, value })
    } else {
        None
    }
}

/// Finds the value of the first header whose name is exactly `name`.
pub fn find_header<'a>(headers: &'a Vec<Header>, name: &[u8]) -> (r: Option<&'a Vec<u8>>)
    ensures
        match r {
            Some(value) => lookup(headers_view(headers@), name@) == Some(value@),
            None => lookup(headers_view(headers@), name@).is_none(),
        },
{
    let ghost all = headers_view(headers@);
    let mut i: usize = 0;
    assert(all.skip(0) =~= all);
    while i < headers.len()
        invariant
            i <= headers@.len(),
            all == headers_view(headers@),
            lookup(all, name@) == lookup(all.skip(i as int), name@),
        decreases headers@.len() - i,
    {
        if same_bytes(headers[i].name.as_slice(), name) {
            return Some(&headers[i].value);
        }
        assert(all.skip(i as int).drop_first() =~= all.skip(i + 1));
        i += 1;
    }
    None
}

} // verus!
