//! Where an uploaded file is kept, and what is recorded of it.
//!
//! A file is stored under a name made from a digest, in a directory named
//! after the day on which its entry was written. The name under which it was
//! uploaded is kept in the record only.

use crate::models::{Attachment, Entry};
use crate::text::{decimal, decimal_text, hex, hex_text, padded, padded_text};
use crate::time::{subsec_nanos, timestamp_parts, whole_seconds, Timestamp};
use sha2::Digest;
use vstd::prelude::*;
use vstd::string::StringExecFns;
use vstd::utf8::encode_utf8;

verus! {

/// The SHA-256 digest of `data`.
pub uninterp spec fn sha256(data: Seq<u8>) -> Seq<u8>;

/// The instant `subsec_nanos` nanoseconds after the second `secs`, written
/// as RFC 3339 prescribes, in UTC.
pub uninterp spec fn rfc3339(secs: int, subsec_nanos: int) -> Seq<char>;

/// Whether chrono can name the instant `subsec_nanos` nanoseconds after the
/// second `secs`: it lies within the years that chrono counts, and the
/// nanoseconds are such as a second has, or such as chrono writes for a leap
/// second.
pub uninterp spec fn datable(secs: int, subsec_nanos: int) -> bool;

/// The calendar year in UTC of that instant.
pub uninterp spec fn year_at(secs: int, subsec_nanos: int) -> int;

/// The month of the year, from 1, in UTC of that instant.
pub uninterp spec fn month_at(secs: int, subsec_nanos: int) -> int;

/// The day of the month, from 1, in UTC of that instant.
pub uninterp spec fn day_at(secs: int, subsec_nanos: int) -> int;

/// The extension of the file name in which the path `name` ends, without its
/// dot; `None` where it has none.
pub uninterp spec fn extension_of(name: Seq<char>) -> Option<Seq<char>>;

/// Computes `sha2::Sha256::digest` of `data`: the result is the SHA-256
/// digest, a function of the data alone, and 32 bytes long.
#[verifier::external_body]
fn sha256_digest(data: &Vec<u8>) -> (digest: Vec<u8>)
    ensures
        digest@ == sha256(data@),
        digest@.len() == 32,
{
    sha2::Sha256::digest(data).to_vec()
}

/// Calls `chrono::DateTime::to_rfc3339` on the instant that
/// `chrono::DateTime::from_timestamp` makes of the two numbers. `None` where
/// chrono has no such instant, which depends on the two numbers alone; else
/// the text, a function of the two numbers alone.
#[verifier::external_body]
fn rfc3339_text(secs: i64, subsec_nanos: u32) -> (text: Option<String>)
    ensures
        text is Some <==> datable(secs as int, subsec_nanos as int),
        text matches Some(t) ==> t@ == rfc3339(secs as int, subsec_nanos as int),
{
    match chrono::DateTime::from_timestamp(secs, subsec_nanos) {
        Some(t) => Some(t.to_rfc3339()),
        None => None,
    }
}

/// Calls `chrono::Datelike::year` on the instant that
/// `chrono::DateTime::from_timestamp` makes of the two numbers. `None` where
/// chrono has no such instant, which depends on the two numbers alone; else
/// the year, a function of the two numbers alone.
#[verifier::external_body]
fn year_number(secs: i64, subsec_nanos: u32) -> (year: Option<i32>)
    ensures
        year is Some <==> datable(secs as int, subsec_nanos as int),
        year matches Some(y) ==> y == year_at(secs as int, subsec_nanos as int),
{
    match chrono::DateTime::from_timestamp(secs, subsec_nanos) {
        Some(t) => Some(chrono::Datelike::year(&t)),
        None => None,
    }
}

/// Calls `chrono::Datelike::month` on the instant that
/// `chrono::DateTime::from_timestamp` makes of the two numbers. `None` where
/// chrono has no such instant, which depends on the two numbers alone; else
/// the month, a function of the two numbers alone.
#[verifier::external_body]
fn month_number(secs: i64, subsec_nanos: u32) -> (month: Option<u32>)
    ensures
        month is Some <==> datable(secs as int, subsec_nanos as int),
        month matches Some(m) ==> m == month_at(secs as int, subsec_nanos as int),
{
    match chrono::DateTime::from_timestamp(secs, subsec_nanos) {
        Some(t) => Some(chrono::Datelike::month(&t)),
        None => None,
    }
}

/// Calls `chrono::Datelike::day` on the instant that
/// `chrono::DateTime::from_timestamp` makes of the two numbers. `None` where
/// chrono has no such instant, which depends on the two numbers alone; else
/// the day, a function of the two numbers alone.
#[verifier::external_body]
fn day_number(secs: i64, subsec_nanos: u32) -> (day: Option<u32>)
    ensures
        day is Some <==> datable(secs as int, subsec_nanos as int),
        day matches Some(d) ==> d == day_at(secs as int, subsec_nanos as int),
{
    match chrono::DateTime::from_timestamp(secs, subsec_nanos) {
        Some(t) => Some(chrono::Datelike::day(&t)),
        None => None,
    }
}

/// Calls `std::path::Path::extension` on `name` taken as a path, and hands
/// the extension back as text: a function of the name alone.
#[verifier::external_body]
fn path_extension(name: &String) -> (extension: Option<String>)
    ensures
        match extension {
            Some(e) => extension_of(name@) == Some(e@),
            None => extension_of(name@) is None,
        },
{
    match std::path::Path::new(name.as_str()).extension() {
        Some(e) => e.to_str().map(String::from),
        None => None,
    }
}

/// What the storing of a file needs to know of the instant at which its
/// entry was written.
#[derive(Debug)]
pub struct Stamp {
    /// The instant as RFC 3339 writes it.
    pub written: String,
    pub year: i32,
    pub month: u32,
    pub day: u32,
}

/// Whether `stamp` tells of the instant `subsec_nanos` nanoseconds after the
/// second `secs`.
pub open spec fn is_stamp_of(stamp: Stamp, secs: int, subsec_nanos: int) -> bool {
    &&& stamp.written@ == rfc3339(secs, subsec_nanos)
    &&& stamp.year == year_at(secs, subsec_nanos)
    &&& stamp.month == month_at(secs, subsec_nanos)
    &&& stamp.day == day_at(secs, subsec_nanos)
}

/// Whether chrono can name the instant `t`.
pub open spec fn is_datable(t: int) -> bool {
    &&& i64::MIN <= whole_seconds(t) <= i64::MAX
    &&& datable(whole_seconds(t), subsec_nanos(t))
}

/// The directory for the files of one day.
pub open spec fn directory_of(year: int, month: int, day: int) -> Seq<char> {
    "./attachments/"@ + padded(year, 4) + seq!['/'] + padded(month, 2) + seq!['/'] + padded(
        day,
        2,
    )
}

/// The bytes that are digested into the stored name of a file: the instant
/// as written, the name under which the file came, and the number of files
/// that the entry had before it.
pub open spec fn digest_input(written: Seq<char>, original_name: Seq<char>, index: nat) -> Seq<u8> {
    encode_utf8(written) + encode_utf8(original_name) + encode_utf8(decimal(index))
}

/// The path made of a directory, a digest and an extension.
pub open spec fn assembled(directory: Seq<char>, digest: Seq<u8>, extension: Option<Seq<char>>)
    -> Seq<char> {
    let plain = directory + seq!['/'] + hex(digest);
    match extension {
        Some(e) => plain + seq!['.'] + e,
        None => plain,
    }
}

/// The path under which the file is stored that came as `original_name`, as
/// the one after `index` others, with an entry written at the instant that
/// `stamp` tells of.
pub open spec fn saved_path_of(stamp: Stamp, original_name: Seq<char>, index: nat) -> Seq<char> {
    assembled(
        directory_of(stamp.year as int, stamp.month as int, stamp.day as int),
        sha256(digest_input(stamp.written@, original_name, index)),
        extension_of(original_name),
    )
}

/// The views of an extension that may be missing.
pub open spec fn extension_view(extension: Option<String>) -> Option<Seq<char>> {
    match extension {
        Some(e) => Some(e@),
        None => None,
    }
}

/// What chrono tells of the instant `created_at`: `None` where the instant
/// lies outside what chrono can name.
pub fn stamp_of(created_at: Timestamp) -> (stamp: Option<Stamp>)
    ensures
        stamp matches Some(s) ==> is_stamp_of(
            s,
            whole_seconds(created_at as int),
            subsec_nanos(created_at as int),
        ),
        stamp is Some <==> is_datable(created_at as int),
{
    let (secs, nanos) = match timestamp_parts(created_at) {
        Some(parts) => parts,
        None => {
            return None;
        },
    };
    let written = match rfc3339_text(secs, nanos) {
        Some(written) => written,
        None => {
            return None;
        },
    };
    let year = match year_number(secs, nanos) {
        Some(year) => year,
        None => {
            return None;
        },
    };
    let month = match month_number(secs, nanos) {
        Some(month) => month,
        None => {
            return None;
        },
    };
    let day = match day_number(secs, nanos) {
        Some(day) => day,
        None => {
            return None;
        },
    };
    let stamp = Stamp { written, year, month, day };
    Some(stamp)
}

/// The directory in which the files of the given day are kept:
/// `./attachments/` and then year, month and day, of four, two and two
/// digits at least.
pub fn attachment_directory(year: i32, month: u32, day: u32) -> (directory: String)
    ensures
        directory@ == directory_of(year as int, month as int, day as int),
{
    let mut directory = String::from_str("./attachments/");
    directory.append(padded_text(year as i64, 4).as_str());
    directory.append("/");
    directory.append(padded_text(month as i64, 2).as_str());
    directory.append("/");
    directory.append(padded_text(day as i64, 2).as_str());
    proof {
        reveal_strlit("/");
        assert("/"@ =~= seq!['/']);
    }
    directory
}

/// Puts a path together: the directory, a slash, the digest in base sixteen
/// and, where there is an extension, a dot and the extension.
pub fn assemble_path(directory: &String, digest: &Vec<u8>, extension: Option<String>) -> (path:
    String)
    ensures
        path@ == assembled(directory@, digest@, extension_view(extension)),
{
    proof {
        reveal_strlit("/");
        reveal_strlit(".");
        assert("/"@ =~= seq!['/']);
        assert("."@ =~= seq!['.']);
    }
    let mut path = directory.clone();
    path.append("/");
    path.append(hex_text(digest).as_str());
    match extension {
        Some(e) => {
            path.append(".");
            path.append(e.as_str());
        },
        None => {},
    }
    path
}

/// The bytes from which the stored name of a file is digested.
pub fn digest_bytes(written: &String, original_name: &String, index: usize) -> (bytes: Vec<u8>)
    ensures
        bytes@ == digest_input(written@, original_name@, index as nat),
{
    let mut bytes: Vec<u8> = Vec::new();
    bytes.extend_from_slice(written.as_str().as_bytes());
    bytes.extend_from_slice(original_name.as_str().as_bytes());
    let count = decimal_text(index as u64);
    bytes.extend_from_slice(count.as_str().as_bytes());
    assert(bytes@ =~= digest_input(written@, original_name@, index as nat));
    bytes
}

/// The path under which an uploaded file is stored. The directory is that of
/// the day of `stamp`; the name is the SHA-256 digest of the instant, the
/// original name and `index`; the extension is that of the original name.
pub fn saved_path(stamp: &Stamp, original_name: &String, index: usize) -> (path: String)
    ensures
        path@ == saved_path_of(*stamp, original_name@, index as nat),
{
    let directory = attachment_directory(stamp.year, stamp.month, stamp.day);
    let digest = sha256_digest(&digest_bytes(&stamp.written, original_name, index));
    assemble_path(&directory, &digest, path_extension(original_name))
}

/// The number under which an entry records its next attachment when it has
/// `count` already: they are counted from one. `None` where the number does
/// not fit.
pub fn attachment_id(count: usize) -> (id: Option<u32>)
    ensures
        match id {
            Some(id) => id == count + 1,
            None => count + 1 > u32::MAX,
        },
{
    if count < u32::MAX as usize {
        Some(count as u32 + 1)
    } else {
        None
    }
}

/// The name under which a file is taken that came with the name `given`:
/// `tmpfile` where it came without one.
pub fn file_name_or_default(given: Option<String>) -> (name: String)
    ensures
        name@ == match given {
            Some(n) => n@,
            None => "tmpfile"@,
        },
{
    match given {
        Some(name) => name,
        None => String::from_str("tmpfile"),
    }
}

/// The type as which a file is taken that came with the type `given`:
/// `application/octet-stream` where it came without one.
pub fn content_type_or_default(given: Option<String>) -> (mime: String)
    ensures
        mime@ == match given {
            Some(m) => m@,
            None => "application/octet-stream"@,
        },
{
    match given {
        Some(mime) => mime,
        None => String::from_str("application/octet-stream"),
    }
}

/// The record of a file that came as `original_name` with the type `mime`,
/// as the one after `count` others of its entry. `None` where the entry
/// cannot number one more.
pub fn new_attachment(stamp: &Stamp, original_name: String, mime: String, count: usize) -> (record:
    Option<Attachment>)
    ensures
        match record {
            Some(a) => {
                &&& a.id == count + 1
                &&& a.saved_path@ == saved_path_of(*stamp, original_name@, count as nat)
                &&& a.original_name@ == original_name@
                &&& a.mime@ == mime@
            },
            None => count + 1 > u32::MAX,
        },
{
    match attachment_id(count) {
        Some(id) => {
            let saved_path = saved_path(stamp, &original_name, count);
            Some(Attachment { id, saved_path, original_name, mime })
        },
        None => None,
    }
}

/// What a part of an upload is, by the name of its form field.
#[derive(Clone, Copy, Debug, PartialEq, Eq, Structural)]
pub enum FieldKind {
    /// Text of the entry.
    Content,
    /// A file to keep with the entry.
    File,
    /// Nothing that the journal reads.
    Other,
}

/// The kind of the form field `name`.
pub open spec fn kind_of(name: Seq<char>) -> FieldKind {
    if name == "content"@ {
        FieldKind::Content
    } else if name == "file"@ {
        FieldKind::File
    } else {
        FieldKind::Other
    }
}

/// Tells what a part of an upload is by the name of its form field:
/// `content` carries text, `file` carries a file, and every other name is
/// passed over.
pub fn field_kind(name: &String) -> (kind: FieldKind)
    ensures
        kind == kind_of(name@),
{
    if *name == String::from_str("content") {
        FieldKind::Content
    } else if *name == String::from_str("file") {
        FieldKind::File
    } else {
        FieldKind::Other
    }
}

/// Whether an entry with this text and these attachments says nothing at
/// all.
pub open spec fn is_blank(content: Seq<char>, attachments: Seq<Attachment>) -> bool {
    content.len() == 0 && attachments.len() == 0
}

/// Makes the entry to store from what an upload brought. An entry without
/// text and without files is none: `None`. An entry without files has no list
/// of attachments, not an empty one.
pub fn compose_entry(
    content: String,
    created_at: Timestamp,
    attachments: Vec<Attachment>,
) -> (entry: Option<Entry>)
    ensures
        entry is None <==> is_blank(content@, attachments@),
        entry matches Some(e) ==> {
            &&& e.id is None
            &&& e.content@ == content@
            &&& e.created_at == created_at
            &&& e.attachments is Some <==> attachments.len() > 0
            &&& e.attachments matches Some(list) ==> list == attachments
        },
{
    let attachments = if attachments.len() > 0 {
        Some(attachments)
    } else {
        None
    };
    if content.as_str().is_empty() && attachments.is_none() {
        None
    } else {
        Some(Entry { id: None, content, created_at, attachments })
    }
}

} // verus!
