use vstd::prelude::*;

use crate::api::{ContestData, ContestUpdateInput};
use crate::material::FileVariant;
use crate::text::TextVariant;

verus! {

/// The bytes that a base64 text decodes to, if it is valid base64.
pub uninterp spec fn base64_decoded(text: Seq<char>) -> Option<Seq<u8>>;

/// The RFC 3339 form, with its offset, of a date and time written in
/// RFC 3339, if the text is one.
pub uninterp spec fn rfc3339_normalized(text: Seq<char>) -> Option<Seq<char>>;

/// Relies on `base64::decode` (standard alphabet, with padding): the decoded
/// bytes, or an error when the text is not valid base64. It panics only when
/// the text's length plus 3 overflows, which the bound on its characters (at
/// most four bytes each) rules out.
#[verifier::external_body]
fn decode_base64(text: &String) -> (r: Option<Vec<u8>>)
    requires
        text@.len() * 4 + 3 <= usize::MAX,
    ensures
        match r {
            Some(b) => base64_decoded(text@) == Some(b@),
            None => base64_decoded(text@) is None,
        },
{
    match base64::decode(text.as_bytes()) {
        Ok(bytes) => Some(bytes),
        Err(_) => None,
    }
}

/// Relies on `chrono::DateTime::parse_from_rfc3339`, whose result is written
/// back with its `to_rfc3339`: `None` when the text is not an RFC 3339 date
/// and time.
#[verifier::external_body]
fn normalize_rfc3339(text: &String) -> (r: Option<String>)
    ensures
        match r {
            Some(t) => rfc3339_normalized(text@) == Some(t@),
            None => rfc3339_normalized(text@) is None,
        },
{
    match chrono::DateTime::parse_from_rfc3339(text.as_str()) {
        Ok(time) => Some(time.to_rfc3339()),
        Err(_) => None,
    }
}

/// The new values of the fields of the contest that an update sets.
pub struct ContestChangeset {
    pub archive_content: Option<Vec<u8>>,
    pub start_time: Option<String>,
    pub end_time: Option<String>,
}

/// Why an update of the contest was refused.
#[derive(Clone, Copy, Debug, PartialEq, Eq, Structural)]
pub enum ContestUpdateError {
    /// The archive is not valid base64.
    InvalidArchive,
    /// A time is not an RFC 3339 date and time.
    InvalidTime,
}

/// The value that a field of the update gets: absent stays absent, present
/// holds the decoded value, which the outcome of decoding gives.
pub open spec fn field_result<T>(given: Option<Option<T>>) -> Option<T> {
    match given {
        Some(Some(v)) => Some(v),
        _ => None,
    }
}

/// A field was given and could not be decoded.
pub open spec fn field_failed<T>(given: Option<Option<T>>) -> bool {
    given is Some && given->0 is None
}

/// Builds the changeset of an update from the outcome of decoding each
/// field: `None` for a field not given, `Some(None)` for one that did not
/// decode. A bad archive is reported before a bad time.
pub fn changeset_from(
    archive: Option<Option<Vec<u8>>>,
    start_time: Option<Option<String>>,
    end_time: Option<Option<String>>,
) -> (r: Result<ContestChangeset, ContestUpdateError>)
    ensures
        field_failed(archive) ==> r == Err::<ContestChangeset, _>(ContestUpdateError::InvalidArchive),
        !field_failed(archive) && (field_failed(start_time) || field_failed(end_time)) ==> r
            == Err::<ContestChangeset, _>(ContestUpdateError::InvalidTime),
        !field_failed(archive) && !field_failed(start_time) && !field_failed(end_time) ==> r is Ok
            && r->Ok_0.archive_content == field_result(archive) && r->Ok_0.start_time
            == field_result(start_time) && r->Ok_0.end_time == field_result(end_time),
{
    let archive_content = match archive {
        Some(Some(bytes)) => Some(bytes),
        Some(None) => {
            return Err(ContestUpdateError::InvalidArchive);
        },
        None => None,
    };
    let start = match start_time {
        Some(Some(t)) => Some(t),
        Some(None) => {
            return Err(ContestUpdateError::InvalidTime);
        },
        None => None,
    };
    let end = match end_time {
        Some(Some(t)) => Some(t),
        Some(None) => {
            return Err(ContestUpdateError::InvalidTime);
        },
        None => None,
    };
    Ok(ContestChangeset { archive_content, start_time: start, end_time: end })
}

/// The archive of an update fits the decoder's length limit.
pub open spec fn archive_fits(input: ContestUpdateInput) -> bool {
    match input.archive_content {
        Some(c) => c.base64@.len() * 4 + 3 <= usize::MAX,
        None => true,
    }
}

/// Decodes an update of the contest: the archive from base64, the times
/// into their RFC 3339 form.
pub fn changeset_of(input: &ContestUpdateInput) -> (r: Result<ContestChangeset, ContestUpdateError>)
    requires
        archive_fits(*input),
    ensures
        ({
            let archive = match input.archive_content {
                Some(c) => Some(base64_decoded(c.base64@)),
                None => None,
            };
            let start = match input.start_time {
                Some(t) => Some(rfc3339_normalized(t@)),
                None => None,
            };
            let end = match input.end_time {
                Some(t) => Some(rfc3339_normalized(t@)),
                None => None,
            };
            &&& field_failed(archive) ==> r == Err::<ContestChangeset, _>(
                ContestUpdateError::InvalidArchive,
            )
            &&& !field_failed(archive) && (field_failed(start) || field_failed(end)) ==> r
                == Err::<ContestChangeset, _>(ContestUpdateError::InvalidTime)
            &&& !field_failed(archive) && !field_failed(start) && !field_failed(end) ==> {
                &&& r is Ok
                &&& match r->Ok_0.archive_content {
                    Some(b) => archive == Some(Some(b@)),
                    None => archive is None,
                }
                &&& match r->Ok_0.start_time {
                    Some(t) => start == Some(Some(t@)),
                    None => start is None,
                }
                &&& match r->Ok_0.end_time {
                    Some(t) => end == Some(Some(t@)),
                    None => end is None,
                }
            }
        }),
{
    let archive = match &input.archive_content {
        Some(c) => Some(decode_base64(&c.base64)),
        None => None,
    };
    let start = match &input.start_time {
        Some(t) => Some(normalize_rfc3339(t)),
        None => None,
    };
    let end = match &input.end_time {
        Some(t) => Some(normalize_rfc3339(t)),
        None => None,
    };
    changeset_from(archive, start, end)
}

impl ContestData {
    /// Applies a changeset: each field it sets is replaced, the others stay.
    pub fn apply(&mut self, changes: ContestChangeset)
        ensures
            final(self).id == old(self).id,
            final(self).archive_content == match changes.archive_content {
                Some(b) => b,
                None => old(self).archive_content,
            },
            final(self).start_time == match changes.start_time {
                Some(t) => t,
                None => old(self).start_time,
            },
            final(self).end_time == match changes.end_time {
                Some(t) => t,
                None => old(self).end_time,
            },
    {
        if let Some(b) = changes.archive_content {
            self.archive_content = b;
        }
        if let Some(t) = changes.start_time {
            self.start_time = t;
        }
        if let Some(t) = changes.end_time {
            self.end_time = t;
        }
    }
}

/// The media type of a contest home page with the given extension, if it is
/// one that home pages come in.
pub open spec fn home_media_type_of(ext: Seq<char>) -> Option<Seq<char>> {
    if ext == "pdf"@ {
        Some("application/pdf"@)
    } else if ext == "md"@ {
        Some("text/markdown"@)
    } else if ext == "html"@ {
        Some("text/html"@)
    } else {
        None
    }
}

/// Makes the variant of the contest home page of a file of the contest
/// directory, given its name, stem, extension and content: only files whose
/// stem is `home` count, and an unknown extension gives no media type.
pub fn home_variant(name: String, stem: &String, ext: &String, content: Vec<u8>) -> (r: Option<
    FileVariant,
>)
    ensures
        stem@ == "home"@ <==> r is Some,
        r is Some ==> {
            let f = r->0;
            &&& f.attributes@.len() == 0
            &&& f.name is Some && f.name->0@ == name@
            &&& match f.media_type {
                Some(t) => home_media_type_of(ext@) == Some(t@),
                None => home_media_type_of(ext@) is None,
            }
            &&& f.content@ == content@
        },
{
    proof {
        reveal_strlit("home");
        reveal_strlit("pdf");
        reveal_strlit("md");
        reveal_strlit("html");
        reveal_strlit("application/pdf");
        reveal_strlit("text/markdown");
        reveal_strlit("text/html");
    }
    if *stem != String::from_str("home") {
        return None;
    }
    let media_type = if *ext == String::from_str("pdf") {
        Some(String::from_str("application/pdf"))
    } else if *ext == String::from_str("md") {
        Some(String::from_str("text/markdown"))
    } else if *ext == String::from_str("html") {
        Some(String::from_str("text/html"))
    } else {
        None
    };
    Some(FileVariant { attributes: Vec::new(), name: Some(name), media_type, content })
}

/// Makes the variant of the contest title of a file of the contest
/// directory, given its stem, extension and text: only `title.txt` counts.
pub fn title_variant(stem: &String, ext: &String, text: String) -> (r: Option<TextVariant>)
    ensures
        stem@ == "title"@ && ext@ == "txt"@ <==> r is Some,
        r is Some ==> r->0.attributes@.len() == 0 && r->0.value@ == text@,
{
    proof {
        reveal_strlit("title");
        reveal_strlit("txt");
    }
    if *stem == String::from_str("title") && *ext == String::from_str("txt") {
        Some(TextVariant { attributes: Vec::new(), value: text })
    } else {
        None
    }
}

} // verus!
