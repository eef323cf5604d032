//! Descriptor records of a model package: authors, maintainers, files.

use vstd::prelude::*;
use crate::lowercase::{Lowercase, LowercaseParsingError, is_uppercase};
use crate::model_interface::FileReference;

verus! {

/// An author, in the older form of the format.
#[derive(Debug, PartialEq, Eq)]
pub struct Author {
    pub name: String,
    pub affiliation: Option<String>,
    pub email: Option<String>,
    pub github_user: Option<String>,
    pub orcid: Option<String>,
}

/// An author.
#[derive(Debug, PartialEq, Eq, Clone)]
pub struct Author2 {
    pub name: String,
    pub affiliation: Option<String>,
    pub email: Option<String>,
    pub github_user: Option<String>,
    pub orcid: Option<String>,
}

impl Author2 {
    /// The one-line form: the name, then ` 📧` and the email, then
    /// ` github: ` and the user, each where present.
    pub fn to_text(&self) -> (r: String)
        ensures
            r@ == self.name@ + (match self.email {
                Some(e) => " 📧"@ + e@,
                None => Seq::empty(),
            }) + (match self.github_user {
                Some(g) => " github: "@ + g@,
                None => Seq::empty(),
            }),
    {
        let mut out = self.name.clone();
        if let Some(email) = &self.email {
            out.append(" 📧");
            out.append(email.as_str());
        }
        let ghost after_email = out@;
        if let Some(github_user) = &self.github_user {
            out.append(" github: ");
            out.append(github_user.as_str());
        }
        proof {
            assert(after_email =~= self.name@ + (match self.email {
                Some(e) => " 📧"@ + e@,
                None => Seq::empty(),
            }));
            assert(out@ =~= after_email + (match self.github_user {
                Some(g) => " github: "@ + g@,
                None => Seq::empty(),
            }));
        }
        out
    }
}

/// A maintainer of a package.
#[derive(Debug, PartialEq, Eq, Clone)]
pub struct Maintainer {
    pub affiliation: Option<String>,
    pub email: Option<String>,
    pub orcid: Option<String>,
    pub name: Option<String>,
    pub github_user: String,
}

/// A SHA-256 digest: 64 characters, none of them uppercase.
#[derive(Debug, PartialEq, Eq)]
pub struct Sha256 {
    digest: Lowercase,
}

impl View for Sha256 {
    type V = Seq<char>;

    closed spec fn view(&self) -> Seq<char> {
        self.digest@
    }
}

impl Sha256 {
    /// The digest `value`: exactly 64 characters, none uppercase.
    pub fn try_from(value: &str) -> (r: Result<Sha256, LowercaseParsingError>)
        ensures
            r is Ok <==> value@.len() == 64 && forall|i: int|
                0 <= i < value@.len() ==> !is_uppercase(value@[i]),
            r matches Ok(h) ==> h@ == value@,
            r matches Err(LowercaseParsingError::BadLength { len }) <==> value@.len() != 64,
            r matches Err(LowercaseParsingError::BadLength { len }) ==> len == value@.len(),
    {
        let len = value.unicode_len();
        if len != 64 {
            return Err(LowercaseParsingError::BadLength { len });
        }
        match Lowercase::try_from(value) {
            Ok(digest) => Ok(Sha256 { digest }),
            Err(e) => Err(e),
        }
    }

    pub fn as_str(&self) -> (r: &str)
        ensures
            r@ == self@,
    {
        self.digest.as_str()
    }
}

/// A file of the package, with its digest where known.
#[derive(Debug)]
pub struct FileDescription {
    pub source: FileReference,
    pub sha256: Option<Sha256>,
}

/// A model description in the older form of the format.
#[derive(Debug)]
pub struct ModelRdfV0_4 {
    pub name: String,
    /// A human-readable description of the model.
    pub description: String,
    /// The creators of the model description; at least one.
    pub authors: Vec<Author>,
    /// Where the documentation is.
    pub documentation: FileReference,
}

} // verus!
