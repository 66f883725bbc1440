//! Books that live on the server itself (uploaded TXT, EPUB, PDF and MOBI files)
//! carry an origin and a URL scheme of their own.
use vstd::prelude::*;
use crate::text::{chars_of, same_chars, starts_with, starts_with_chars};

verus! {

/// The formats of uploaded books.
#[derive(Debug, Clone, Copy, PartialEq, Eq, Structural)]
pub enum LocalFormat {
    Txt,
    Epub,
    Pdf,
    Mobi,
}

/// The origin that books of a format carry, such as `local-txt`.
pub open spec fn local_origin_text(f: LocalFormat) -> Seq<char> {
    match f {
        LocalFormat::Txt => "local-txt"@,
        LocalFormat::Epub => "local-epub"@,
        LocalFormat::Pdf => "local-pdf"@,
        LocalFormat::Mobi => "local-mobi"@,
    }
}

/// The URL prefix of books of a format: the origin and a colon, such as `local-txt:`.
pub open spec fn local_url_prefix(f: LocalFormat) -> Seq<char> {
    local_origin_text(f).push(':')
}

/// `origin` is the origin of uploaded books of format `f`.
pub open spec fn is_local_origin_of(f: LocalFormat, origin: Seq<char>) -> bool {
    origin == local_origin_text(f)
}

/// `url` addresses an uploaded book of format `f`.
pub open spec fn is_local_url_of(f: LocalFormat, url: Seq<char>) -> bool {
    starts_with(url, local_url_prefix(f))
}

/// The origin of uploaded books of a format.
pub fn local_origin(f: LocalFormat) -> (r: &'static str)
    ensures
        r@ == local_origin_text(f),
{
    match f {
        LocalFormat::Txt => "local-txt",
        LocalFormat::Epub => "local-epub",
        LocalFormat::Pdf => "local-pdf",
        LocalFormat::Mobi => "local-mobi",
    }
}

/// Whether `origin` is the origin of uploaded books of format `f`.
pub fn is_local_origin(f: LocalFormat, origin: &str) -> (r: bool)
    ensures
        r == is_local_origin_of(f, origin@),
{
    same_chars(&chars_of(origin), &chars_of(local_origin(f)))
}

/// Whether `url` addresses an uploaded book of format `f`.
pub fn is_local_url(f: LocalFormat, url: &str) -> (r: bool)
    ensures
        r == is_local_url_of(f, url@),
{
    let mut prefix = chars_of(local_origin(f));
    prefix.push(':');
    starts_with_chars(&chars_of(url), &prefix)
}

/// Whether `origin` is the origin of uploaded TXT books.
pub fn is_local_txt_origin(origin: &str) -> (r: bool)
    ensures
        r == is_local_origin_of(LocalFormat::Txt, origin@),
{
    is_local_origin(LocalFormat::Txt, origin)
}

/// Whether `url` addresses an uploaded TXT book.
pub fn is_local_txt_url(url: &str) -> (r: bool)
    ensures
        r == is_local_url_of(LocalFormat::Txt, url@),
{
    is_local_url(LocalFormat::Txt, url)
}

/// A book with this origin and URL is an uploaded book of format `f`.
pub open spec fn is_local_book_of(f: LocalFormat, origin: Seq<char>, url: Seq<char>) -> bool {
    is_local_origin_of(f, origin) || is_local_url_of(f, url)
}

/// Whether a book with this origin and URL is an uploaded book of format `f`.
pub fn is_local_book(f: LocalFormat, origin: &str, url: &str) -> (r: bool)
    ensures
        r == is_local_book_of(f, origin@, url@),
{
    is_local_origin(f, origin) || is_local_url(f, url)
}

/// The format of an uploaded book with this origin and URL, testing TXT, EPUB,
/// PDF and MOBI in that order; `None` for a book of a remote source.
pub open spec fn local_format_of(origin: Seq<char>, url: Seq<char>) -> Option<LocalFormat> {
    if is_local_book_of(LocalFormat::Txt, origin, url) {
        Some(LocalFormat::Txt)
    } else if is_local_book_of(LocalFormat::Epub, origin, url) {
        Some(LocalFormat::Epub)
    } else if is_local_book_of(LocalFormat::Pdf, origin, url) {
        Some(LocalFormat::Pdf)
    } else if is_local_book_of(LocalFormat::Mobi, origin, url) {
        Some(LocalFormat::Mobi)
    } else {
        None
    }
}

/// The format of an uploaded book with this origin and URL (see [`local_format_of`]).
pub fn local_format(origin: &str, url: &str) -> (r: Option<LocalFormat>)
    ensures
        r == local_format_of(origin@, url@),
{
    if is_local_book(LocalFormat::Txt, origin, url) {
        Some(LocalFormat::Txt)
    } else if is_local_book(LocalFormat::Epub, origin, url) {
        Some(LocalFormat::Epub)
    } else if is_local_book(LocalFormat::Pdf, origin, url) {
        Some(LocalFormat::Pdf)
    } else if is_local_book(LocalFormat::Mobi, origin, url) {
        Some(LocalFormat::Mobi)
    } else {
        None
    }
}

/// The file name an upload of a format gets when the form names none.
pub open spec fn default_upload_name(f: LocalFormat) -> Seq<char> {
    match f {
        LocalFormat::Txt => "book.txt"@,
        LocalFormat::Epub => "book.epub"@,
        LocalFormat::Pdf => "book.pdf"@,
        LocalFormat::Mobi => "book.mobi"@,
    }
}

/// The file name an uploaded book is imported under: the one the form gives,
/// else the default of its format (see [`default_upload_name`]).
pub fn upload_file_name(f: LocalFormat, given: Option<&str>) -> (r: String)
    ensures
        r@ == match given {
            Some(n) => n@,
            None => default_upload_name(f),
        },
{
    match given {
        Some(n) => n.to_string(),
        None => match f {
            LocalFormat::Txt => "book.txt".to_string(),
            LocalFormat::Epub => "book.epub".to_string(),
            LocalFormat::Pdf => "book.pdf".to_string(),
            LocalFormat::Mobi => "book.mobi".to_string(),
        },
    }
}

/// Whether a form field carries the uploaded file: it is named `file`.
pub fn is_upload_field(name: Option<&str>) -> (r: bool)
    ensures
        r == (name is Some && name->0@ == "file"@),
{
    match name {
        Some(n) => same_chars(&chars_of(n), &chars_of("file")),
        None => false,
    }
}

} // verus!
