//! Responses as plain values: a status, headers and a body.

use vstd::prelude::*;
use vstd::string::*;
use crate::text::{count_of, lemma_with_entry, lookup_from, same_text, with_entry, without};

verus! {

/// One header line.
#[derive(Debug, Clone, PartialEq, Eq)]
pub struct Header {
    pub name: String,
    pub value: String,
}

/// A response before it is put on the wire. A header is found under its
/// name as it was written: the library writes each name in one spelling.
#[derive(Debug, Clone, PartialEq, Eq)]
pub struct Response {
    pub status: u16,
    pub headers: Vec<Header>,
    pub body: Vec<u8>,
}

/// Body of the answer to a request for which no file was found.
pub const NOT_FOUND_MESSAGE: &'static str = "Resource was not found on this server";

/// The headers as pairs of name and value, in order.
pub open spec fn header_fields(headers: Seq<Header>) -> Seq<(Seq<char>, Seq<char>)> {
    Seq::new(headers.len(), |i: int| (headers[i].name@, headers[i].value@))
}

impl Response {
    /// The headers as pairs of name and value, in the order in which they are
    /// sent.
    pub open spec fn fields(&self) -> Seq<(Seq<char>, Seq<char>)> {
        header_fields(self.headers@)
    }

    /// The value of the header `name`, where the response has one.
    pub open spec fn header(&self, name: Seq<char>) -> Option<Seq<char>> {
        lookup_from(header_fields(self.headers@), name, 0)
    }

    /// How many headers have the name `name`.
    pub open spec fn occurrences(&self, name: Seq<char>) -> nat {
        count_of(header_fields(self.headers@), name)
    }

    /// No two headers share a name.
    pub open spec fn has_distinct_names(&self) -> bool {
        forall|name: Seq<char>| #[trigger] self.occurrences(name) <= 1
    }

    /// The value of the header `name`, where the response has one.
    pub fn get_header(&self, name: &str) -> (value: Option<&str>)
        ensures
            match value {
                Some(v) => self.header(name@) == Some(v@),
                None => self.header(name@) == None::<Seq<char>>,
            },
    {
        let mut i: usize = 0;
        while i < self.headers.len()
            invariant
                i <= self.headers.len(),
                self.header(name@) == lookup_from(header_fields(self.headers@), name@, i as int),
            decreases self.headers.len() - i,
        {
            if same_text(self.headers[i].name.as_str(), name) {
                return Some(self.headers[i].value.as_str());
            }
            i += 1;
        }
        None
    }

    /// Sets the header `name` to `value`, in place of every value it had: the
    /// headers of that name are taken out and the new one is put at the end.
    /// The other headers, the status and the body stay.
    pub fn set_header(&mut self, name: &str, value: String)
        ensures
            final(self).status == old(self).status,
            final(self).body == old(self).body,
            final(self).fields() == with_entry(old(self).fields(), name@, value@),
            forall|other: Seq<char>|
                #[trigger] final(self).header(other) == if other == name@ {
                    Some(value@)
                } else {
                    old(self).header(other)
                },
            forall|other: Seq<char>|
                #[trigger] final(self).occurrences(other) == if other == name@ {
                    1
                } else {
                    old(self).occurrences(other)
                },
            old(self).has_distinct_names() ==> final(self).has_distinct_names(),
    {
        let ghost before = header_fields(self.headers@);
        let mut kept: Vec<Header> = Vec::new();
        let mut i: usize = 0;
        while i < self.headers.len()
            invariant
                i <= self.headers.len(),
                *self == *old(self),
                before == header_fields(self.headers@),
                header_fields(kept@) == without(before.subrange(0, i as int), name@),
            decreases self.headers.len() - i,
        {
            let ghost kept_before = header_fields(kept@);
            if !same_text(self.headers[i].name.as_str(), name) {
                let name_kept = self.headers[i].name.clone();
                let value_kept = self.headers[i].value.clone();
                kept.push(Header { name: name_kept, value: value_kept });
                assert(header_fields(kept@) =~= kept_before.push(before[i as int]));
            }
            proof {
                let upto = before.subrange(0, i + 1);
                assert(upto.drop_last() =~= before.subrange(0, i as int));
                assert(upto.last() == before[i as int]);
            }
            i += 1;
        }
        let ghost kept_fields = header_fields(kept@);
        let name_owned = String::from_str(name);
        kept.push(Header { name: name_owned, value });
        self.headers = kept;
        proof {
            assert(before.subrange(0, before.len() as int) =~= before);
            assert(header_fields(self.headers@) =~= kept_fields.push((name@, value@)));
            assert forall|other: Seq<char>|
                #[trigger] self.header(other) == if other == name@ {
                    Some(value@)
                } else {
                    old(self).header(other)
                } by {
                lemma_with_entry(before, name@, value@, other);
            }
            assert forall|other: Seq<char>|
                #[trigger] self.occurrences(other) == if other == name@ {
                    1
                } else {
                    old(self).occurrences(other)
                } by {
                lemma_with_entry(before, name@, value@, other);
            }
        }
    }
}

/// The response has the given status, no headers, and the bytes of `message`
/// as its body.
pub open spec fn is_message(response: Response, status: u16, message: Seq<char>) -> bool {
    &&& response.status == status
    &&& response.headers@.len() == 0
    &&& response.body@ == vstd::utf8::encode_utf8(message)
}

/// A response with the given status, no headers, and `message` as its
/// body. The status is one that can be sent: three digits.
pub fn serve(status_code: u16, message: &str) -> (response: Response)
    requires
        100 <= status_code <= 999,
    ensures
        is_message(response, status_code, message@),
        response.has_distinct_names(),
{
    Response { status: status_code, headers: Vec::new(), body: message.as_bytes_vec() }
}

/// The answer to a request for which no file was found.
pub fn serve_404() -> (response: Response)
    ensures
        is_message(response, 404, NOT_FOUND_MESSAGE@),
        response.has_distinct_names(),
{
    serve(404, NOT_FOUND_MESSAGE)
}

} // verus!
