//! What a recipe says of the sources to build from.

use crate::uri::Url;
use vstd::prelude::*;

verus! {

/// How a source is to be had.
#[derive(Debug)]
pub enum Props {
    /// An archive with a digest, under a name of its own if it is given one.
    Plain { hash: String, rename: Option<String> },
    /// A reference of a git repository, cloned by way of a mirror or straight.
    Git { git_ref: String, staging: bool },
}

impl Clone for Props {
    fn clone(&self) -> (copy: Self)
        ensures
            copy == *self,
    {
        match self {
            Props::Plain { hash, rename } => Props::Plain {
                hash: hash.clone(),
                rename: crate::uri::copy_of(rename),
            },
            Props::Git { git_ref, staging } => Props::Git {
                git_ref: git_ref.clone(),
                staging: *staging,
            },
        }
    }
}

/// A source that a recipe names.
#[derive(Debug)]
pub struct Upstream {
    pub url: Url,
    pub props: Props,
}

impl Clone for Upstream {
    fn clone(&self) -> (copy: Self)
        ensures
            copy == *self,
    {
        Upstream { url: self.url.clone(), props: self.props.clone() }
    }
}

/// A recipe: its text, the file that holds it, and the sources that it names.
#[derive(Debug)]
pub struct Recipe {
    pub source: String,
    pub path: String,
    pub upstreams: Vec<Upstream>,
}

/// The kinds of source.
#[derive(Debug, Clone, Copy, PartialEq, Eq, Structural)]
pub enum Kind {
    Archive,
    Git,
}

/// The address of a source of which nothing else is known.
#[derive(Debug)]
pub struct SourceUri {
    pub kind: Kind,
    pub url: Url,
}

} // verus!
