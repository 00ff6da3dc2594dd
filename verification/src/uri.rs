//! From the URIs of the client to paths.

use crate::path::{apply, splits_into, FilePath, PathView};
use std::path::PathBuf;
use tower_lsp::lsp_types::Url;
use vstd::prelude::*;

verus! {

/// `url::Url`: the URI of a document or a folder, carried along without being
/// looked into.
#[verifier::external_type_specification]
#[verifier::external_body]
pub struct ExUrl(tower_lsp::lsp_types::Url);

/// `Url::to_file_path`. Nothing is promised of the result: the URI is opaque
/// here, and which URIs name a file depends on the platform. [`names_file`] ties
/// it to the URI.
pub assume_specification[ tower_lsp::lsp_types::Url::to_file_path ](
    url: &tower_lsp::lsp_types::Url,
) -> Result<std::path::PathBuf, ()>
;

/// Asking `uri` for its file can give `path`, or nothing.
pub open spec fn names_file(uri: Url, path: Option<PathBuf>) -> bool {
    exists|answer: Result<PathBuf, ()>|
        #[trigger] call_ensures(Url::to_file_path, (&uri,), answer) && path == answer.ok()
}

/// Asking `uri` for its file can give a file at `path`, or nothing.
pub open spec fn names_path(uri: Url, path: Option<PathView>) -> bool {
    exists|file: Option<PathBuf>| #[trigger]
        names_file(uri, file) && match file {
            Some(native) => path matches Some(parts) && splits_into(native, parts),
            None => path is None,
        }
}

/// The file that `uri` names, where it names one.
pub fn file_of(uri: &Url) -> (file: Option<PathBuf>)
    ensures
        names_file(*uri, file),
{
    let answer = apply(Url::to_file_path, uri);
    match answer {
        Ok(path) => Some(path),
        Err(_) => None,
    }
}

/// The path of the file that `uri` names, where it names one.
pub fn path_of(uri: &Url) -> (path: Option<FilePath>)
    ensures
        names_path(
            *uri,
            match path {
                Some(known) => Some(known@),
                None => None,
            },
        ),
{
    match file_of(uri) {
        Some(file) => Some(FilePath::of(&file)),
        None => None,
    }
}

} // verus!
