//! Errors returned by mesh loading and parsing.

use vstd::prelude::*;

verus! {

/// Errors returned by mesh loading, parsing, and rendering configuration.
#[derive(Debug)]
pub enum Error {
    /// Filesystem error while reading a model or companion material file.
    Io {
        /// Path that failed.
        path: String,
        /// Underlying I/O error.
        source: std::io::Error,
    },
    /// The file extension is not enabled or not supported.
    UnsupportedFormat {
        /// Path that could not be loaded.
        path: String,
    },
    /// Text parser error with optional line number.
    Parse {
        /// File being parsed.
        path: String,
        /// 1-based line number if known.
        line: Option<usize>,
        /// Human readable message.
        message: String,
    },
    /// Image texture could not be decoded.
    TextureDecode {
        /// Texture image path.
        path: String,
        /// Human readable message.
        message: String,
    },
    /// Binary STL data is shorter than its header or triangle count says.
    InvalidBinaryStl {
        /// File being parsed.
        path: String,
        /// Human readable message.
        message: String,
    },
    /// A mesh has no usable geometry.
    EmptyMesh,
}

/// `std::io::Error`, carried unchanged inside [`Error::Io`].
#[verifier::external_type_specification]
#[verifier::external_body]
pub struct ExIoError(std::io::Error);

/// The error is a parse error about `path` at `line` with text `message`.
pub open spec fn is_parse_error(
    e: Error,
    path: Seq<char>,
    line: Option<usize>,
    message: Seq<char>,
) -> bool {
    e matches Error::Parse { path: p, line: l, message: m } && p@ == path && l == line && m@
        == message
}

/// The error is a texture decoding error about `path`.
pub open spec fn is_texture_error(e: Error, path: Seq<char>) -> bool {
    e matches Error::TextureDecode { path: p, .. } && p@ == path
}

/// The error is a binary STL error about `path` with text `message`.
pub open spec fn is_binary_stl_error(e: Error, path: Seq<char>, message: Seq<char>) -> bool {
    e matches Error::InvalidBinaryStl { path: p, message: m } && p@ == path && m@ == message
}

impl Error {
    /// An I/O error for `path`.
    pub fn io(path: String, source: std::io::Error) -> (e: Self)
        ensures
            e matches Error::Io { path: p, source: s } && p == path && s == source,
    {
        Error::Io { path, source }
    }

    /// A parse error for `path`, at `line` when known.
    pub fn parse(path: &str, line: Option<usize>, message: String) -> (e: Self)
        ensures
            is_parse_error(e, path@, line, message@),
    {
        Error::Parse { path: path.to_owned(), line, message }
    }

    /// A texture decoding error for `path`.
    pub fn texture_decode(path: &str, message: String) -> (e: Self)
        ensures
            is_texture_error(e, path@),
            e matches Error::TextureDecode { message: m, .. } && m@ == message@,
    {
        Error::TextureDecode { path: path.to_owned(), message }
    }
}

} // verus!
