//! Bookkeeping for the streaming file-ingestion pipeline.
//!
//! A request body or multipart field is written to disk one chunk at a
//! time; the caller performs the actual reads and writes and drives a
//! `FileSink` alongside them. The sink validates the destination name
//! before anything touches the filesystem, fixes the path under the
//! storage root, and accounts for the bytes written — it holds a count
//! and a ghost transcript, never the bytes themselves, so its memory use
//! does not grow with the body.

use crate::paths::{path_is_valid, valid_upload_name};
use vstd::prelude::*;
use vstd::string::StringExecFns;

verus! {

/// Why an ingestion was refused or abandoned.
#[derive(Debug)]
pub enum IngestError {
    /// The destination name failed validation; nothing was written.
    InvalidPath,
    /// Reading the body or writing the file failed, with the underlying
    /// cause; a partial file may remain on disk.
    IoFailure(String),
}

impl IngestError {
    /// The HTTP status this error maps to at the boundary: a client error
    /// for an unsafe name, a server error for an I/O failure.
    pub fn status_code(&self) -> (code: u16)
        ensures
            self is InvalidPath ==> code == 400,
            self is IoFailure ==> code == 500,
    {
        match self {
            IngestError::InvalidPath => 400,
            IngestError::IoFailure(_) => 500,
        }
    }

    /// The plain-text message sent with the status.
    pub fn message(&self) -> (m: String)
        ensures
            self is InvalidPath ==> m@ == "Invalid path"@,
            self matches IngestError::IoFailure(cause) ==> m@ == cause@,
    {
        match self {
            IngestError::InvalidPath => "Invalid path".to_owned(),
            IngestError::IoFailure(cause) => cause.clone(),
        }
    }

    /// Whether this is the validation failure.
    pub fn is_invalid_path(&self) -> (r: bool)
        ensures
            r == (self is InvalidPath),
    {
        match self {
            IngestError::InvalidPath => true,
            IngestError::IoFailure(_) => false,
        }
    }
}

/// One in-flight streaming write of a body to a validated name.
pub struct FileSink {
    /// The validated single-component destination name.
    file_name: String,
    /// Bytes accepted so far.
    count: usize,
    /// The exact bytes accepted so far, in order.
    transcript: Ghost<Seq<u8>>,
}

impl FileSink {
    /// The destination name.
    pub closed spec fn name(&self) -> Seq<char> {
        self.file_name@
    }

    /// The bytes accepted so far, in order.
    pub closed spec fn content(&self) -> Seq<u8> {
        self.transcript@
    }

    /// The name is validated and the count matches the content.
    pub closed spec fn wf(&self) -> bool {
        &&& valid_upload_name(self.file_name@)
        &&& self.count == self.transcript@.len()
    }

    /// Begin an upload to `name`. An unsafe name is rejected with
    /// `InvalidPath` here, before any filesystem action; a safe one
    /// yields a sink that has accepted nothing yet.
    pub fn begin(name: String) -> (r: Result<FileSink, IngestError>)
        ensures
            r is Ok <==> valid_upload_name(name@),
            r matches Ok(sink) ==> sink.wf() && sink.name() == name@ && sink.content()
                == Seq::<u8>::empty(),
            r matches Err(e) ==> e is InvalidPath,
    {
        if !path_is_valid(name.as_str()) {
            return Err(IngestError::InvalidPath);
        }
        Ok(FileSink { file_name: name, count: 0, transcript: Ghost(Seq::empty()) })
    }

    /// Record one chunk the caller has copied to the file. Only the count
    /// grows: the sink never buffers the body.
    pub fn accept_chunk(&mut self, chunk: &[u8])
        requires
            old(self).wf(),
            old(self).content().len() + chunk@.len() <= usize::MAX,
        ensures
            final(self).wf(),
            final(self).name() == old(self).name(),
            final(self).content() == old(self).content() + chunk@,
    {
        self.count = self.count + chunk.len();
        proof {
            self.transcript@ = self.transcript@ + chunk@;
        }
    }

    /// How many bytes have been accepted.
    pub fn bytes_written(&self) -> (n: usize)
        requires
            self.wf(),
        ensures
            n == self.content().len(),
    {
        self.count
    }

    /// The destination name.
    pub fn file_name(&self) -> (n: &String)
        ensures
            n@ == self.name(),
    {
        &self.file_name
    }

    /// The file path under the storage root that this upload writes.
    pub fn storage_path(&self) -> (p: String)
        ensures
            p@ == "uploads/"@ + self.name(),
    {
        let mut p = "uploads/".to_owned();
        p.append(self.file_name.as_str());
        p
    }
}

/// What to do with one multipart form field: a field without a file name
/// is skipped; a field with one begins an ingestion under that name,
/// which fails exactly when the name is unsafe.
pub fn field_disposition(file_name: Option<String>) -> (r: Option<Result<FileSink, IngestError>>)
    ensures
        r is None <==> file_name is None,
        file_name matches Some(n) ==> {
            &&& r matches Some(begun)
            &&& (begun is Ok <==> valid_upload_name(n@))
            &&& (begun matches Ok(sink) ==> sink.wf() && sink.name() == n@ && sink.content()
                == Seq::<u8>::empty())
            &&& (begun matches Err(e) ==> e is InvalidPath)
        },
{
    match file_name {
        None => None,
        Some(n) => Some(FileSink::begin(n)),
    }
}

/// The chunks of a body, reassembled in arrival order.
pub open spec fn reassembled(chunks: Seq<Seq<u8>>) -> Seq<u8>
    decreases chunks.len(),
{
    if chunks.len() == 0 {
        Seq::empty()
    } else {
        chunks.first() + reassembled(chunks.drop_first())
    }
}

/// A sink's content after accepting `chunks` in order on top of `w`.
pub open spec fn content_after(w: Seq<u8>, chunks: Seq<Seq<u8>>) -> Seq<u8>
    decreases chunks.len(),
{
    if chunks.len() == 0 {
        w
    } else {
        content_after(w + chunks.first(), chunks.drop_first())
    }
}

/// Accepting chunks appends their reassembly.
proof fn lemma_content_after_appends(w: Seq<u8>, chunks: Seq<Seq<u8>>)
    ensures
        content_after(w, chunks) == w + reassembled(chunks),
    decreases chunks.len(),
{
    if chunks.len() == 0 {
        assert(content_after(w, chunks) =~= w + reassembled(chunks));
    } else {
        lemma_content_after_appends(w + chunks.first(), chunks.drop_first());
        assert((w + chunks.first()) + reassembled(chunks.drop_first()) =~= w + (chunks.first()
            + reassembled(chunks.drop_first())));
    }
}

/// Law: a body round-trips through the sink — after a fresh sink accepts
/// the body's chunks in arrival order, its content is exactly the body's
/// bytes, so the file the caller wrote alongside holds exactly them.
pub proof fn lemma_body_round_trips(chunks: Seq<Seq<u8>>)
    ensures
        content_after(Seq::empty(), chunks) == reassembled(chunks),
{
    lemma_content_after_appends(Seq::empty(), chunks);
    assert(Seq::empty() + reassembled(chunks) =~= reassembled(chunks));
}

} // verus!
