//! The errors generation can end in.

use vstd::prelude::*;
use crate::chars::{push_str_chars, string_from_chars};

verus! {

/// Why a generation run aborted, or why dependency resolution failed.
#[derive(Debug)]
pub enum GenError {
    /// A block belongs to a combined group and is also marked as a template
    /// definition or as ignored.
    InvalidDirectives { doc: String, group: String },
    /// A block names a template the document's template file does not
    /// define.
    TemplateNotFound { doc: String, template: String },
    /// The project metadata holds no dependency resolution.
    MissingDependencyMetadata,
    /// The project metadata could not be read.
    Metadata,
    /// A fingerprint record or its compiled artifact is unusable.
    Fingerprint,
    /// A fingerprint record is not valid JSON.
    Json,
    /// No package edition could be read from the metadata.
    BadEdition,
}

/// Mathematical image of [`GenError`].
#[verifier::ext_equal]
pub enum GenErrorV {
    InvalidDirectives { doc: Seq<char>, group: Seq<char> },
    TemplateNotFound { doc: Seq<char>, template: Seq<char> },
    MissingDependencyMetadata,
    Metadata,
    Fingerprint,
    Json,
    BadEdition,
}

impl View for GenError {
    type V = GenErrorV;

    open spec fn view(&self) -> GenErrorV {
        match self {
            GenError::InvalidDirectives { doc, group } => (GenErrorV::InvalidDirectives { doc: doc@, group: group@ }),
            GenError::TemplateNotFound { doc, template } => (GenErrorV::TemplateNotFound { doc: doc@, template: template@ }),
            GenError::MissingDependencyMetadata => GenErrorV::MissingDependencyMetadata,
            GenError::Metadata => GenErrorV::Metadata,
            GenError::Fingerprint => GenErrorV::Fingerprint,
            GenError::Json => GenErrorV::Json,
            GenError::BadEdition => GenErrorV::BadEdition,
        }
    }
}

/// The description each error carries, naming the offending document and
/// identifier where there is one.
pub open spec fn message_spec(e: GenErrorV) -> Seq<char> {
    match e {
        GenErrorV::InvalidDirectives { doc, group } => "invalid directives: combined group "@
            + group + " on a template or ignored block in "@ + doc,
        GenErrorV::TemplateNotFound { doc, template } => "template "@ + template
            + " not found for "@ + doc,
        GenErrorV::MissingDependencyMetadata => "missing dependency metadata"@,
        GenErrorV::Metadata => "could not read project metadata"@,
        GenErrorV::Fingerprint => "could not interpret a build fingerprint"@,
        GenErrorV::Json => "a fingerprint record is not valid JSON"@,
        GenErrorV::BadEdition => "could not read a package edition"@,
    }
}

impl GenError {
    /// A human-readable description, naming the offending document and
    /// identifier where there is one.
    pub fn message(&self) -> (r: String)
        ensures
            r@ == message_spec(self@),
    {
        let mut v: Vec<char> = Vec::new();
        match self {
            GenError::InvalidDirectives { doc, group } => {
                push_str_chars(&mut v, "invalid directives: combined group ");
                push_str_chars(&mut v, group.as_str());
                push_str_chars(&mut v, " on a template or ignored block in ");
                push_str_chars(&mut v, doc.as_str());
            },
            GenError::TemplateNotFound { doc, template } => {
                push_str_chars(&mut v, "template ");
                push_str_chars(&mut v, template.as_str());
                push_str_chars(&mut v, " not found for ");
                push_str_chars(&mut v, doc.as_str());
            },
            GenError::MissingDependencyMetadata => {
                push_str_chars(&mut v, "missing dependency metadata");
            },
            GenError::Metadata => {
                push_str_chars(&mut v, "could not read project metadata");
            },
            GenError::Fingerprint => {
                push_str_chars(&mut v, "could not interpret a build fingerprint");
            },
            GenError::Json => {
                push_str_chars(&mut v, "a fingerprint record is not valid JSON");
            },
            GenError::BadEdition => {
                push_str_chars(&mut v, "could not read a package edition");
            },
        }
        proof {
            assert(v@ =~= message_spec(self@));
        }
        string_from_chars(&v)
    }
}

} // verus!
