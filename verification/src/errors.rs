//! Errors of loading a post and of looking one up.

use vstd::prelude::*;

verus! {

/// `std::io::Error`, carried through unchanged.
#[verifier::external_type_specification]
#[verifier::external_body]
pub struct ExIoError(std::io::Error);

/// `toml::de::Error`, carried through unchanged.
#[verifier::external_type_specification]
#[verifier::external_body]
pub struct ExTomlError(toml::de::Error);

/// `std::string::FromUtf8Error`, carried through unchanged.
#[verifier::external_type_specification]
#[verifier::external_body]
pub struct ExFromUtf8Error(std::string::FromUtf8Error);

/// Why a post could not be loaded.
#[derive(Debug)]
pub enum LoadingError {
    /// Reading the posts directory or a post failed.
    Io(std::io::Error),
    /// The front matter is not valid TOML or does not describe a post.
    Invalid(toml::de::Error),
    /// A post is not valid UTF-8.
    Encoding(std::string::FromUtf8Error),
}

/// Writes `std::io::Error`'s `Display` to a string.
#[verifier::external_body]
fn io_error_text(e: &std::io::Error) -> String {
    e.to_string()
}

/// Writes `toml::de::Error`'s `Display` to a string.
#[verifier::external_body]
fn toml_error_text(e: &toml::de::Error) -> String {
    e.to_string()
}

/// Writes `std::string::FromUtf8Error`'s `Display` to a string.
#[verifier::external_body]
fn utf8_error_text(e: &std::string::FromUtf8Error) -> String {
    e.to_string()
}

/// The words that start the message of each kind of loading error.
pub open spec fn loading_error_prefix(e: LoadingError) -> Seq<char> {
    match e {
        LoadingError::Io(_) => "IO error: "@,
        LoadingError::Invalid(_) => "TOML error: "@,
        LoadingError::Encoding(_) => "UTF-8 conversion error: "@,
    }
}

impl LoadingError {
    /// The message of the error whose carried error writes `detail`: what
    /// kind of error it is, then `detail`.
    pub fn message_with(&self, detail: &str) -> (s: String)
        ensures
            s@ == loading_error_prefix(*self) + detail@,
    {
        let prefix = match self {
            LoadingError::Io(_) => String::from_str("IO error: "),
            LoadingError::Invalid(_) => String::from_str("TOML error: "),
            LoadingError::Encoding(_) => String::from_str("UTF-8 conversion error: "),
        };
        prefix.concat(detail)
    }

    /// The error's message: what kind of error it is, then what the error it
    /// carries writes with its `Display`.
    pub fn message(&self) -> (s: String)
        ensures
            exists|detail: Seq<char>| s@ == loading_error_prefix(*self) + detail,
    {
        let detail = match self {
            LoadingError::Io(e) => io_error_text(e),
            LoadingError::Invalid(e) => toml_error_text(e),
            LoadingError::Encoding(e) => utf8_error_text(e),
        };
        let s = self.message_with(detail.as_str());
        assert(s@ == loading_error_prefix(*self) + detail@);
        s
    }
}

impl From<std::io::Error> for LoadingError {
    fn from(error: std::io::Error) -> (e: Self) {
        LoadingError::Io(error)
    }
}

impl vstd::std_specs::convert::FromSpecImpl<std::io::Error> for LoadingError {
    open spec fn obeys_from_spec() -> bool {
        true
    }

    open spec fn from_spec(error: std::io::Error) -> Self {
        LoadingError::Io(error)
    }
}

impl From<toml::de::Error> for LoadingError {
    fn from(error: toml::de::Error) -> (e: Self) {
        LoadingError::Invalid(error)
    }
}

impl vstd::std_specs::convert::FromSpecImpl<toml::de::Error> for LoadingError {
    open spec fn obeys_from_spec() -> bool {
        true
    }

    open spec fn from_spec(error: toml::de::Error) -> Self {
        LoadingError::Invalid(error)
    }
}

impl From<std::string::FromUtf8Error> for LoadingError {
    fn from(error: std::string::FromUtf8Error) -> (e: Self) {
        LoadingError::Encoding(error)
    }
}

impl vstd::std_specs::convert::FromSpecImpl<std::string::FromUtf8Error> for LoadingError {
    open spec fn obeys_from_spec() -> bool {
        true
    }

    open spec fn from_spec(error: std::string::FromUtf8Error) -> Self {
        LoadingError::Encoding(error)
    }
}

/// Why a post page shows no post.
#[derive(Clone, Copy, Debug, PartialEq, Eq, Structural)]
pub enum PostError {
    /// The address does not name a post.
    InvalidTitle,
    /// No post has that name.
    PostNotFound,
    /// The server failed to load the post.
    ServerError,
}

/// The message shown for each `PostError`.
pub open spec fn post_error_text(e: PostError) -> Seq<char> {
    match e {
        PostError::InvalidTitle => "Invalid post title"@,
        PostError::PostNotFound => "Post not found"@,
        PostError::ServerError => "Internal server error"@,
    }
}

impl PostError {
    /// The message shown for the error.
    pub fn message(&self) -> (s: String)
        ensures
            s@ == post_error_text(*self),
    {
        match self {
            PostError::InvalidTitle => String::from_str("Invalid post title"),
            PostError::PostNotFound => String::from_str("Post not found"),
            PostError::ServerError => String::from_str("Internal server error"),
        }
    }
}

} // verus!
