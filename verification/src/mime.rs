//! The MIME registry: a fixed table from file extensions to MIME types.

use vstd::prelude::*;
use crate::text::{lookup_from, same_text, slice_text};

verus! {

/// The type of a file whose extension is unknown or missing.
pub const DEFAULT_MIME_TYPE: &'static str = "application/octet-stream";

/// The registry, in the order in which it is searched: extension, MIME type.
pub open spec fn mime_table() -> Seq<(Seq<char>, Seq<char>)> {
    seq![
        ("html"@, "text/html"@),
        ("htm"@, "text/html"@),
        ("htmd"@, "text/htmd"@),
        ("txt"@, "text/plain"@),
        ("xml"@, "text/xml"@),
        ("css"@, "text/css"@),
        ("js"@, "application/javascript"@),
        ("json"@, "application/json"@),
        ("png"@, "image/png"@),
        ("jpg"@, "image/jpeg"@),
        ("jpeg"@, "image/jpeg"@),
        ("gif"@, "image/gif"@),
        ("webp"@, "image/webp"@),
        ("svg"@, "image/svg+xml"@),
        ("ico"@, "image/x-icon"@),
        ("woff"@, "font/woff"@),
        ("woff2"@, "font/woff2"@),
        ("pdf"@, "application/pdf"@),
    ]
}

/// The MIME type for an extension (written without its dot), or for none.
pub open spec fn mime_type_of(extension: Option<Seq<char>>) -> Seq<char> {
    match extension {
        None => DEFAULT_MIME_TYPE@,
        Some(e) => match lookup_from(mime_table(), e, 0) {
            Some(mime) => mime,
            None => DEFAULT_MIME_TYPE@,
        },
    }
}

/// The registry as data.
pub fn mime_entries() -> (table: Vec<(&'static str, &'static str)>)
    ensures
        table@.len() == mime_table().len(),
        forall|i: int|
            0 <= i < table@.len() ==> (#[trigger] table@[i]).0@ == mime_table()[i].0 && table@[i].1@
                == mime_table()[i].1,
{
    vec![
        ("html", "text/html"),
        ("htm", "text/html"),
        ("htmd", "text/htmd"),
        ("txt", "text/plain"),
        ("xml", "text/xml"),
        ("css", "text/css"),
        ("js", "application/javascript"),
        ("json", "application/json"),
        ("png", "image/png"),
        ("jpg", "image/jpeg"),
        ("jpeg", "image/jpeg"),
        ("gif", "image/gif"),
        ("webp", "image/webp"),
        ("svg", "image/svg+xml"),
        ("ico", "image/x-icon"),
        ("woff", "font/woff"),
        ("woff2", "font/woff2"),
        ("pdf", "application/pdf"),
    ]
}

/// The MIME type for an extension (written without its dot), or for none.
/// Total: what the table does not hold gets the default type.
pub fn get_mime_type_by_extension(extension: Option<&str>) -> (mime: &'static str)
    ensures
        mime@ == mime_type_of(slice_text(extension)),
{
    let wanted = match extension {
        Some(e) => e,
        None => {
            return DEFAULT_MIME_TYPE;
        },
    };
    let table = mime_entries();
    let mut i: usize = 0;
    while i < table.len()
        invariant
            i <= table.len(),
            extension == Some(wanted),
            table@.len() == mime_table().len(),
            forall|j: int|
                0 <= j < table@.len() ==> (#[trigger] table@[j]).0@ == mime_table()[j].0
                    && table@[j].1@ == mime_table()[j].1,
            lookup_from(mime_table(), wanted@, 0) == lookup_from(mime_table(), wanted@, i as int),
        decreases table.len() - i,
    {
        let entry = table[i];
        assert(entry == table@[i as int]);
        if same_text(entry.0, wanted) {
            assert(lookup_from(mime_table(), wanted@, i as int) == Some(mime_table()[i as int].1));
            return entry.1;
        }
        i += 1;
    }
    DEFAULT_MIME_TYPE
}

} // verus!
