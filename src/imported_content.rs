//! Content imported from outside job boards.

use vstd::prelude::*;

verus! {

/// Where an import stands.
#[derive(Debug, Clone)]
pub enum ImportedContentStatus {
    Pending,
    InProgress,
    Completed,
    Failed { failure_reason: String },
}

/// What an import holds.
#[derive(Debug, Clone, Copy, PartialEq, Eq, Structural)]
pub enum ImportedContentType {
    JobPost,
}

/// The fields of an imported job post.
#[derive(Debug, Clone)]
pub struct JobJsonData {
    pub title: String,
    pub description: String,
    pub poster: String,
}

/// A stored import.
#[derive(Debug, Clone)]
pub struct ImportedContent {
    pub id: u32,
    pub source_url: String,
    pub content_type: ImportedContentType,
    pub status: ImportedContentStatus,
    pub json_data: String,
    pub created_at: String,
    pub updated_at: String,
}

/// An import before it is stored.
#[derive(Debug, Clone)]
pub struct DBImportedContent {
    pub source_url: String,
    pub content_type: ImportedContentType,
    pub status: ImportedContentStatus,
    pub json_data: String,
}

/// The columns of an import that depend on its status.
pub trait DBImportedContentTrait {
    /// The reason of a failed import.
    spec fn failure_of(&self) -> Option<Seq<char>>;

    fn get_failed_imported_content_info(&self) -> (r: Option<String>)
        ensures
            r is Some == self.failure_of() is Some,
            r is Some ==> r->0@ == self.failure_of()->0,
    ;
}

impl DBImportedContentTrait for DBImportedContent {
    open spec fn failure_of(&self) -> Option<Seq<char>> {
        match self.status {
            ImportedContentStatus::Failed { failure_reason } => Some(failure_reason@),
            _ => None,
        }
    }

    fn get_failed_imported_content_info(&self) -> (r: Option<String>) {
        match &self.status {
            ImportedContentStatus::Failed { failure_reason } => Some(failure_reason.clone()),
            _ => None,
        }
    }
}

} // verus!
