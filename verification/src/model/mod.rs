//! What the user offers to send, and the session state around it.
use vstd::prelude::*;
use crate::localsend::send::{FileFacts, Upload, UploadError};
use crate::system::{clone_path, share_temp};

pub mod folder;
pub mod history;
pub mod laws;
pub mod state;

pub use state::{AppState, ComposerItem, IncomingRequest, RateSample, Transfer, TransferRate, TransferStatus};

verus! {

/// Something the user added to the composer.
#[derive(Debug)]
pub enum SendItem {
    /// A file or folder chosen on disk.
    File(std::path::PathBuf),
    /// Clipboard media saved to a private temporary file.
    TemporaryFile { path: std::sync::Arc<tempfile::TempPath>, mime: String },
    /// Clipboard text.
    Text(String),
}

/// The path of the file a temporary file handle owns.
pub uninterp spec fn temp_target(path: std::sync::Arc<tempfile::TempPath>) -> std::path::PathBuf;

/// `TempPath` as a path (`Path::to_path_buf` of its target): the path the
/// handle was made for, which it keeps for its whole life.
#[verifier::external_body]
fn temp_path_buf(path: &std::sync::Arc<tempfile::TempPath>) -> (r: std::path::PathBuf)
    ensures
        r == temp_target(*path),
{
    let target: &std::path::Path = path.as_ref().as_ref();
    target.to_path_buf()
}

/// Why an item cannot become uploads.
#[derive(Debug, PartialEq, Eq)]
pub enum InputError {
    EmptyText,
    Upload(UploadError),
}

impl SendItem {
    /// The file the item stands for; text has none.
    pub fn path(&self) -> (r: Option<std::path::PathBuf>)
        ensures
            match self {
                SendItem::File(p) => r == Some(*p),
                SendItem::TemporaryFile { path, .. } => r == Some(temp_target(*path)),
                SendItem::Text(_) => r is None,
            },
    {
        match self {
            SendItem::File(path) => Some(clone_path(path)),
            SendItem::TemporaryFile { path, .. } => Some(temp_path_buf(path)),
            SendItem::Text(_) => None,
        }
    }

    /// The upload of clipboard text: one `Message.txt`, refused when empty.
    pub fn text_uploads(text: &String) -> (r: Result<Vec<Upload>, InputError>)
        ensures
            text@.len() == 0 ==> r == Err::<Vec<Upload>, InputError>(InputError::EmptyText),
            text@.len() > 0 ==> (r matches Ok(v) && v@.len() == 1 && v@[0].content
                == crate::localsend::send::UploadContent::Text(*text) && v@[0].offer.name@
                == "Message.txt"@ && v@[0].offer.mime@ == "text/plain"@ && v@[0].keep_alive is None),
    {
        if text.as_str().is_empty() {
            return Err(InputError::EmptyText);
        }
        let mut v: Vec<Upload> = Vec::new();
        v.push(Upload::text(text.clone()));
        Ok(v)
    }

    /// The upload of a clipboard temporary file named `name`, of which the
    /// caller read `facts`: offered with the clipboard's media type, and
    /// keeping the file alive while the upload exists.
    pub fn temporary_uploads(
        path: &std::sync::Arc<tempfile::TempPath>,
        mime: &String,
        name: String,
        facts: FileFacts,
    ) -> (r: Result<Vec<Upload>, InputError>)
        ensures
            r matches Ok(v) ==> (v@.len() == 1 && v@[0].offer.mime == *mime && v@[0].offer.name
                == name && v@[0].offer.size == facts.len && v@[0].keep_alive == Some(*path)),
            r is Ok <==> crate::localsend::receive::relative_path_ok(name@) && facts.is_file,
    {
        match Upload::file(temp_path_buf(path), name, facts) {
            Err(error) => Err(InputError::Upload(error)),
            Ok(upload) => {
                let mut upload = upload;
                upload.offer.mime = mime.clone();
                upload.keep_alive = Some(share_temp(path));
                let mut v: Vec<Upload> = Vec::new();
                v.push(upload);
                Ok(v)
            },
        }
    }
}

impl InputError {
    /// The message shown for this refusal.
    pub fn message(&self) -> (r: String)
        ensures
            r@ == match self {
                InputError::EmptyText => "Clipboard text is empty"@,
                InputError::Upload(UploadError::Name(crate::localsend::receive::PathError::InvalidName)) => "Invalid file name"@,
                InputError::Upload(UploadError::Name(crate::localsend::receive::PathError::UnsafePath)) => "Unsafe relative file path"@,
                InputError::Upload(UploadError::NotRegularFile) => "The selection is not a regular file"@,
            },
    {
        match self {
            InputError::EmptyText => String::from_str("Clipboard text is empty"),
            InputError::Upload(UploadError::Name(error)) => error.message(),
            InputError::Upload(UploadError::NotRegularFile) => String::from_str("The selection is not a regular file"),
        }
    }
}

} // verus!
