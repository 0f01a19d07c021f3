//! The asset store: small files, such as thumbnails and station icons, kept as blobs
//! under the digest of their bytes.
//!
//! The caller fetches the bytes and talks to the database; what is accepted, and under
//! which name, type and digest it is stored, is decided here.

use crate::mime::type_of_path;
use vstd::prelude::*;

verus! {

/// The error type of `reqwest`, carried through unread.
#[verifier::external_type_specification]
#[verifier::external_body]
pub struct ExHttpError(reqwest::Error);

/// The most bytes that an asset fetched over HTTP may have: 4 MiB.
pub const MAX_ASSET_SIZE: usize = 4194304;

/// The key of an asset in the database.
#[derive(Clone, Copy, Debug, PartialEq, Eq, Structural)]
pub struct AssetId(pub i64);

/// The digest of the bytes of an asset: SHA-256, in lower-case hexadecimal.
#[derive(Debug, Clone, PartialEq, Eq)]
pub struct AssetDigest(pub String);

/// An asset as the database holds it; its bytes are held apart, under its digest.
#[derive(Debug, Clone, PartialEq, Eq)]
pub struct Asset {
    pub filename: String,
    /// The media type, as text.
    pub content_type: String,
    pub digest: AssetDigest,
}

impl Asset {
    /// The media type of this asset, as text.
    pub fn content_type(&self) -> (mime: &str)
        ensures
            mime@ == self.content_type@,
    {
        self.content_type.as_str()
    }
}

/// An asset that is ready to be stored.
#[derive(Debug, Clone, PartialEq, Eq)]
pub struct UploadableAsset {
    pub filename: String,
    /// The media type, as text.
    pub content_type: String,
    pub data: Vec<u8>,
}

/// Why an asset could not be fetched.
#[derive(Debug)]
pub enum DownloadError {
    /// The request failed.
    Http(reqwest::Error),
    /// The asset is larger than `max` bytes.
    FileTooLarge { max: usize },
}

impl DownloadError {
    /// The error for an asset that is larger than [`MAX_ASSET_SIZE`].
    pub fn too_large() -> (e: Self)
        ensures
            e == (DownloadError::FileTooLarge { max: MAX_ASSET_SIZE }),
    {
        DownloadError::FileTooLarge { max: MAX_ASSET_SIZE }
    }
}

/// The name that `filenamify::filenamify` makes of a text.
pub uninterp spec fn filenamified(name: Seq<char>) -> Seq<char>;

/// `filenamify::filenamify` turns any text into a valid file name: it replaces each run
/// of reserved characters, and the periods at either end, by `_`. The result is a
/// function of the text alone.
#[verifier::external_body]
fn filenamify(name: &str) -> (safe: String)
    ensures
        safe@ == filenamified(name@),
{
    filenamify::filenamify(name)
}

/// The SHA-256 digest of `data` in lower-case hexadecimal, as `sha256::digest` gives it.
pub uninterp spec fn sha256_hex(data: Seq<u8>) -> Seq<char>;

/// `sha256::digest` hashes the bytes with SHA-256 and writes the digest in hexadecimal.
/// The result is a function of the bytes alone.
#[verifier::external_body]
fn digest(data: &[u8]) -> (hex: String)
    ensures
        hex@ == sha256_hex(data@),
{
    sha256::digest(data)
}

/// A fetch of an asset that is going on: the bytes received so far.
#[derive(Debug)]
pub struct Fetch {
    pub data: Vec<u8>,
}

impl Fetch {
    /// The bytes received so far never exceed the limit.
    pub open spec fn wf(&self) -> bool {
        self.data@.len() <= MAX_ASSET_SIZE
    }

    /// Begins a fetch whose response advertises a length of `content_length` bytes,
    /// if it advertises one. A length above the limit is refused.
    pub fn begin(content_length: Option<u64>) -> (r: Result<Fetch, DownloadError>)
        ensures
            r is Ok <==> (content_length is Some ==> content_length->0 <= MAX_ASSET_SIZE),
            r is Ok ==> r->Ok_0.data@.len() == 0 && r->Ok_0.wf(),
            r is Err ==> r->Err_0 == (DownloadError::FileTooLarge { max: MAX_ASSET_SIZE }),
    {
        let mut data: Vec<u8> = Vec::new();
        if let Some(size) = content_length {
            if size > MAX_ASSET_SIZE as u64 {
                return Err(DownloadError::too_large());
            }
            data.reserve(size as usize);
        }
        Ok(Fetch { data })
    }

    /// Takes the next chunk of the body. A chunk that would bring the bytes received
    /// above the limit is refused, and nothing of it is kept.
    pub fn on_chunk(&mut self, chunk: &[u8]) -> (r: Result<(), DownloadError>)
        ensures
            old(self).wf() ==> final(self).wf(),
            r is Ok <==> old(self).data@.len() + chunk@.len() <= MAX_ASSET_SIZE,
            r is Ok ==> final(self).data@ == old(self).data@ + chunk@,
            r is Err ==> final(self).data@ == old(self).data@ && r->Err_0 == (
            DownloadError::FileTooLarge { max: MAX_ASSET_SIZE }),
    {
        if self.data.len() > MAX_ASSET_SIZE || chunk.len() > MAX_ASSET_SIZE - self.data.len() {
            return Err(DownloadError::too_large());
        }
        let mut i: usize = 0;
        assert(chunk@.take(0) == Seq::<u8>::empty());
        assert(self.data@ + Seq::<u8>::empty() == self.data@);
        while i < chunk.len()
            invariant
                i <= chunk.len(),
                old(self).data@.len() + chunk@.len() <= MAX_ASSET_SIZE,
                self.data@ == old(self).data@ + chunk@.take(i as int),
            decreases chunk.len() - i,
        {
            self.data.push(chunk[i]);
            assert(old(self).data@ + chunk@.take(i + 1) == (old(self).data@ + chunk@.take(
                i as int,
            )).push(chunk@[i as int]));
            i += 1;
        }
        assert(chunk@.take(chunk@.len() as int) == chunk@);
        Ok(())
    }

    /// Ends the fetch. `filename` is the last segment of the path of the URL, and
    /// `content_type` the media type that the response gave, if it gave one; without
    /// one, the type goes by the extension of the name.
    pub fn finish(self, filename: String, content_type: Option<String>) -> (asset:
        UploadableAsset)
        ensures
            asset.filename@ == filename@,
            asset.data@ == self.data@,
            asset.content_type@ == match content_type {
                Some(t) => t@,
                None => type_of_path(filename@),
            },
    {
        let content_type = match content_type {
            Some(t) => t,
            None => crate::mime::from_path(filename.as_str()).to_owned(),
        };
        UploadableAsset { filename, content_type, data: self.data }
    }
}

/// A local file as an asset: `filename` is the last component of its path and `data`
/// its bytes; its type goes by the extension of the name.
pub fn upload(filename: String, data: Vec<u8>) -> (asset: UploadableAsset)
    ensures
        asset.filename@ == filename@,
        asset.data@ == data@,
        asset.content_type@ == type_of_path(filename@),
{
    let content_type = crate::mime::from_path(filename.as_str()).to_owned();
    UploadableAsset { filename, content_type, data }
}

/// The bytes of an asset as the database holds them, under their digest.
#[derive(Debug, Clone, PartialEq, Eq)]
pub struct NewBlob {
    pub digest: AssetDigest,
    pub blob: Vec<u8>,
}

/// What is stored for an asset: the row of the blob, which is inserted unless a blob
/// of the same digest is there already, and the row of the asset, whose name is made a
/// valid file name.
pub fn create(asset: UploadableAsset) -> (rows: (NewBlob, Asset))
    ensures
        rows.0.blob@ == asset.data@,
        rows.0.digest.0@ == sha256_hex(asset.data@),
        rows.1.digest.0@ == sha256_hex(asset.data@),
        rows.1.filename@ == filenamified(asset.filename@),
        rows.1.content_type@ == asset.content_type@,
{
    let filename = filenamify(asset.filename.as_str());
    let hex = digest(asset.data.as_slice());
    let blob = NewBlob { digest: AssetDigest(hex.clone()), blob: asset.data };
    let row = Asset { filename, content_type: asset.content_type, digest: AssetDigest(hex) };
    (blob, row)
}

/// The blobs of the store after `data` was stored: held under its digest, unless that
/// digest holds a blob already.
pub open spec fn stored(blobs: Map<Seq<char>, Seq<u8>>, data: Seq<u8>) -> Map<
    Seq<char>,
    Seq<u8>,
> {
    if blobs.dom().contains(sha256_hex(data)) {
        blobs
    } else {
        blobs.insert(sha256_hex(data), data)
    }
}

/// Identical bytes are stored once: storing them again changes nothing.
pub proof fn law_blobs_deduplicate(blobs: Map<Seq<char>, Seq<u8>>, data: Seq<u8>)
    ensures
        stored(stored(blobs, data), data) == stored(blobs, data),
        stored(blobs, data).dom().contains(sha256_hex(data)),
{
}

} // verus!
