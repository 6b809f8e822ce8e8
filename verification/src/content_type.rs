//! The content type of a static file, looked up by the extension of its name.

use vstd::prelude::*;
use vstd::string::*;
use crate::bytes::{ascii, ascii_bytes, ends_with, DOT, SLASH};

verus! {

/// The content types that the server knows.
#[derive(Clone, Copy, Debug, PartialEq, Eq, Structural)]
pub enum ContentType {
    PlainText,
    Html,
    Css,
    JavaScript,
    Jpeg,
    Png,
    Zip,
    OctetStream,
}

impl ContentType {
    /// The value of the `Content-Type` header for this type.
    pub open spec fn label_text(self) -> Seq<char> {
        match self {
            ContentType::PlainText => "text/plain; charset=utf-8"@,
            ContentType::Html => "text/html; charset=utf-8"@,
            ContentType::Css => "text/css; charset=utf-8"@,
            ContentType::JavaScript => "text/javascript; charset=utf-8"@,
            ContentType::Jpeg => "image/jpeg"@,
            ContentType::Png => "image/png"@,
            ContentType::Zip => "application/zip"@,
            ContentType::OctetStream => "application/octet-stream"@,
        }
    }

    /// The value of the `Content-Type` header for this type.
    pub fn label(&self) -> (out: &'static str)
        ensures
            out@ == self.label_text(),
            is_ascii(out),
    {
        proof {
            reveal_strlit("text/plain; charset=utf-8");
            reveal_strlit("text/html; charset=utf-8");
            reveal_strlit("text/css; charset=utf-8");
            reveal_strlit("text/javascript; charset=utf-8");
            reveal_strlit("image/jpeg");
            reveal_strlit("image/png");
            reveal_strlit("application/zip");
            reveal_strlit("application/octet-stream");
        }
        match self {
            ContentType::PlainText => "text/plain; charset=utf-8",
            ContentType::Html => "text/html; charset=utf-8",
            ContentType::Css => "text/css; charset=utf-8",
            ContentType::JavaScript => "text/javascript; charset=utf-8",
            ContentType::Jpeg => "image/jpeg",
            ContentType::Png => "image/png",
            ContentType::Zip => "application/zip",
            ContentType::OctetStream => "application/octet-stream",
        }
    }
}

/// Whether the file that `path` names has the extension `ext`: the path ends
/// with a dot and `ext`, and that dot is not the first byte of the file's
/// name. It is meant for an `ext` that holds neither a dot nor a slash.
pub open spec fn has_extension(path: Seq<u8>, ext: Seq<u8>) -> bool {
    &&& path.len() >= ext.len() + 2
    &&& ext.is_suffix_of(path)
    &&& path[path.len() - ext.len() - 1] == DOT
    &&& path[path.len() - ext.len() - 2] != SLASH
}

/// The content type of the file that `path` names: that of its extension,
/// and the generic binary type where the extension is not a known one.
pub open spec fn content_type_of(path: Seq<u8>) -> ContentType {
    if has_extension(path, ascii("txt"@)) {
        ContentType::PlainText
    } else if has_extension(path, ascii("html"@)) {
        ContentType::Html
    } else if has_extension(path, ascii("css"@)) {
        ContentType::Css
    } else if has_extension(path, ascii("js"@)) {
        ContentType::JavaScript
    } else if has_extension(path, ascii("jpg"@)) || has_extension(path, ascii("jpeg"@)) {
        ContentType::Jpeg
    } else if has_extension(path, ascii("png"@)) {
        ContentType::Png
    } else if has_extension(path, ascii("zip"@)) {
        ContentType::Zip
    } else {
        ContentType::OctetStream
    }
}

/// Whether the file that `path` names has the extension `ext`.
fn extension_is(path: &[u8], ext: &str) -> (found: bool)
    requires
        is_ascii(ext),
    ensures
        found == has_extension(path@, ascii(ext@)),
{
    let wanted: Vec<u8> = ascii_bytes(ext);
    if path.len() < 2 || path.len() - 2 < wanted.len() {
        return false;
    }
    let dot: usize = path.len() - wanted.len() - 1;
    ends_with(path, wanted.as_slice()) && path[dot] == DOT && path[dot - 1] != SLASH
}

/// Looks up the content type of the file that `path` names.
pub fn content_type_for(path: &[u8]) -> (out: ContentType)
    ensures
        out == content_type_of(path@),
{
    proof {
        reveal_strlit("txt");
        reveal_strlit("html");
        reveal_strlit("css");
        reveal_strlit("js");
        reveal_strlit("jpg");
        reveal_strlit("jpeg");
        reveal_strlit("png");
        reveal_strlit("zip");
    }
    if extension_is(path, "txt") {
        ContentType::PlainText
    } else if extension_is(path, "html") {
        ContentType::Html
    } else if extension_is(path, "css") {
        ContentType::Css
    } else if extension_is(path, "js") {
        ContentType::JavaScript
    } else if extension_is(path, "jpg") || extension_is(path, "jpeg") {
        ContentType::Jpeg
    } else if extension_is(path, "png") {
        ContentType::Png
    } else if extension_is(path, "zip") {
        ContentType::Zip
    } else {
        ContentType::OctetStream
    }
}

} // verus!
