//! A header field: a name and a value, kept in the order they arrived.
//!
//! Header lists are ordered and may hold the same name more than once. Names
//! are compared without regard to the case of ASCII letters. A value holds one
//! character per octet, so a value that is not plain text can still be
//! carried through unchanged.

use vstd::prelude::*;

verus! {

/// One header field.
#[derive(Debug, PartialEq, Eq)]
pub struct Header {
    pub name: String,
    pub value: String,
}

/// The mathematical content of a [`Header`].
pub struct HeaderView {
    pub name: Seq<char>,
    pub value: Seq<char>,
}

impl View for Header {
    type V = HeaderView;

    open spec fn view(&self) -> HeaderView {
        HeaderView { name: self.name@, value: self.value@ }
    }
}

/// The contents of a list of headers, in order.
pub open spec fn header_views(headers: Seq<Header>) -> Seq<HeaderView> {
    headers.map_values(|h: Header| h@)
}

impl Header {
    /// A header with the given name and value.
    pub fn new(name: String, value: String) -> (h: Header)
        ensures
            h@ == (HeaderView { name: name@, value: value@ }),
    {
        Header { name, value }
    }

    /// A copy of this header.
    pub fn duplicate(&self) -> (h: Header)
        ensures
            h@ == self@,
    {
        Header { name: self.name.clone(), value: self.value.clone() }
    }
}

impl Clone for Header {
    fn clone(&self) -> (h: Header)
        ensures
            h@ == self@,
    {
        self.duplicate()
    }
}

/// A copy of a list of headers.
pub fn duplicate_headers(headers: &Vec<Header>) -> (r: Vec<Header>)
    ensures
        header_views(r@) == header_views(headers@),
{
    let mut r: Vec<Header> = Vec::new();
    let mut i: usize = 0;
    while i < headers.len()
        invariant
            i <= headers.len(),
            header_views(r@) == header_views(headers@.take(i as int)),
        decreases headers.len() - i,
    {
        let ghost before = r@;
        r.push(headers[i].duplicate());
        assert(header_views(r@) =~= header_views(before).push(headers@[i as int]@));
        assert(header_views(headers@.take(i + 1)) =~= header_views(headers@.take(i as int)).push(
            headers@[i as int]@,
        ));
        i += 1;
    }
    assert(headers@.take(headers.len() as int) =~= headers@);
    r
}

} // verus!
