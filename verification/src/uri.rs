//! The address of an upstream source.

use vstd::prelude::*;

verus! {

/// What a URL parser makes of a text: the normalised text, the host if the URL has one,
/// and the path. `None` where the text is no absolute URL.
pub uninterp spec fn url_parts(input: Seq<char>) -> Option<
    (Seq<char>, Option<Seq<char>>, Seq<char>),
>;

/// The characters of a text that may be absent.
pub open spec fn chars_of(text: Option<String>) -> Option<Seq<char>> {
    match text {
        Some(text) => Some(text@),
        None => None,
    }
}

/// Copies a text that may be absent.
pub fn copy_of(text: &Option<String>) -> (copy: Option<String>)
    ensures
        copy == *text,
{
    match text {
        Some(text) => Some(text.clone()),
        None => None,
    }
}

/// Calls `url::Url::parse` and reads `as_str`, `host_str` and `path` of the URL that comes
/// back. The three are a function of the input alone; an input that does not parse gives
/// `None`.
#[verifier::external_body]
fn parse_url(input: &str) -> (parts: Option<(String, Option<String>, String)>)
    ensures
        match parts {
            Some((text, host, path)) => url_parts(input@) == Some((text@, chars_of(host), path@)),
            None => url_parts(input@) is None,
        },
{
    let url = url::Url::parse(input).ok()?;
    let host = url.host_str().map(|host| host.to_owned());
    Some((url.as_str().to_owned(), host, url.path().to_owned()))
}

/// A URL, as contracts see it.
pub struct UrlView {
    /// The whole URL.
    pub text: Seq<char>,
    /// The host, if the URL has one.
    pub host: Option<Seq<char>>,
    /// The path below the host.
    pub path: Seq<char>,
    /// The name that a file fetched from the URL goes by.
    pub file_name: Seq<char>,
    /// The place of the URL in a tree of repositories.
    pub relative_path: Seq<char>,
}

/// An absolute URL, with what the storage rules read of it.
#[derive(Debug)]
pub struct Url {
    text: String,
    host: Option<String>,
    path: String,
    file_name: String,
    relative_path: String,
}

impl View for Url {
    type V = UrlView;

    closed spec fn view(&self) -> UrlView {
        UrlView {
            text: self.text@,
            host: chars_of(self.host),
            path: self.path@,
            file_name: self.file_name@,
            relative_path: self.relative_path@,
        }
    }
}

impl Clone for Url {
    fn clone(&self) -> (copy: Self)
        ensures
            copy == *self,
    {
        proof {
            use_type_invariant(self);
        }
        Url {
            text: self.text.clone(),
            host: copy_of(&self.host),
            path: self.path.clone(),
            file_name: self.file_name.clone(),
            relative_path: self.relative_path.clone(),
        }
    }
}

impl Url {
    /// Text, host and path belong to one URL.
    #[verifier::type_invariant]
    spec fn from_one_url(self) -> bool {
        exists|input: Seq<char>| #[trigger]
            url_parts(input) == Some((self.text@, chars_of(self.host), self.path@))
    }

    /// Reads an absolute URL. The caller says what name a file fetched from it goes by and
    /// where it stands in a tree of repositories.
    pub fn parse(input: &str, file_name: String, relative_path: String) -> (url: Option<Url>)
        ensures
            url is Some <==> url_parts(input@) is Some,
            url matches Some(url) ==> {
                &&& url_parts(input@) == Some((url@.text, url@.host, url@.path))
                &&& url@.file_name == file_name@
                &&& url@.relative_path == relative_path@
            },
    {
        match parse_url(input) {
            Some((text, host, path)) => Some(Url { text, host, path, file_name, relative_path }),
            None => None,
        }
    }

    /// The whole URL.
    pub fn as_str(&self) -> (text: &str)
        ensures
            text@ == self@.text,
    {
        self.text.as_str()
    }

    /// The host, if the URL has one.
    pub fn host_str(&self) -> (host: Option<&str>)
        ensures
            match host {
                Some(host) => self@.host == Some(host@),
                None => self@.host is None,
            },
    {
        match &self.host {
            Some(host) => Some(host.as_str()),
            None => None,
        }
    }

    /// The path below the host.
    pub fn path(&self) -> (path: &str)
        ensures
            path@ == self@.path,
    {
        self.path.as_str()
    }

    /// The name that a file fetched from the URL goes by.
    pub fn file_name(&self) -> (name: &str)
        ensures
            name@ == self@.file_name,
    {
        self.file_name.as_str()
    }

    /// The place of the URL in a tree of repositories.
    pub fn relative_path(&self) -> (path: &str)
        ensures
            path@ == self@.relative_path,
    {
        self.relative_path.as_str()
    }
}

/// A text that may be absent is seen as it is.
pub proof fn lemma_chars_of(text: String)
    ensures
        chars_of(Some(text)) == Some(text@),
        chars_of(None) is None,
{
}

} // verus!
