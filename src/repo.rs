//! The archive tree: directories, files and empty placeholders, how a live
//! directory snapshot is encoded into it, and how a file record is decoded.
use vstd::prelude::*;
use vstd::utf8::*;
use crate::codec::{
    base85_decode, base85_decoded, base85_encode, base85_fits, base85_fits_check, base85_of,
    bytes_view, md5_hex, md5_hex_of, utf8_lossy, utf8_lossy_of, xz_compress, xz_decoded,
    xz_decompress, xz_of,
};
use crate::names::{
    is_binary, is_binary_name, is_explicit_path, is_explicit_ref, remote_candidate, remote_path,
};

verus! {

/// A node of an archive.
pub enum Repo {
    Directory {
        name: String,
        children: Vec<Repo>,
        dependencies: Option<Vec<String>>,
        description: Option<String>,
    },
    File {
        name: String,
        content: String,
        original_size: Option<u64>,
        original_md5: Option<String>,
        is_compressed: Option<bool>,
        is_optional: Option<bool>,
    },
    Empty {},
}

/// What was read from a live directory tree: directories with their entries
/// in enumeration order, and files with their bytes.
pub enum Entry {
    Dir { name: String, entries: Vec<Entry> },
    File { name: String, bytes: Vec<u8> },
}

/// Whether a file's content is stored compressed: the caller asked for it, or
/// its extension names a binary format.
pub open spec fn stores_compressed(name: Seq<char>, compress: bool) -> bool {
    compress || is_binary_name(name)
}

/// The `content` text recorded for a file's bytes.
pub open spec fn encoded_content(bytes: Seq<u8>, packed: bool) -> Seq<char> {
    if packed {
        base85_of(xz_of(bytes))
    } else {
        utf8_lossy(bytes)
    }
}

/// `r` is the record of a file named `name` holding `bytes`, encoded with the
/// caller's `compress` flag.
pub open spec fn file_encodes(r: Repo, name: Seq<char>, bytes: Seq<u8>, compress: bool) -> bool {
    let packed = stores_compressed(name, compress);
    match r {
        Repo::File { name: n, content, original_size, original_md5, is_compressed, is_optional } => {
            &&& n@ == name
            &&& content@ == encoded_content(bytes, packed)
            &&& packed ==> base85_fits(content@)
            &&& !packed && valid_utf8(bytes) ==> content@ == decode_utf8(bytes)
            &&& packed || valid_utf8(bytes) ==> decoded_content(content@, is_compressed) == Some(bytes)
            &&& original_size is Some && original_size->0 == bytes.len()
            &&& original_md5 is Some && original_md5->0@ == md5_hex(bytes)
            &&& is_compressed == Some(packed)
            &&& is_optional == Some(false)
        },
        _ => false,
    }
}

/// `r` is the archive of the directory entry `e`; the `root` of an archive is
/// a directory, named `.`.
pub open spec fn encodes(r: Repo, e: Entry, compress: bool, root: bool) -> bool
    decreases e,
{
    match e {
        Entry::Dir { name, entries } => match r {
            Repo::Directory { name: n, children, dependencies, description } => {
                &&& n@ == (if root {
                    "."@
                } else {
                    name@
                })
                &&& dependencies is None
                &&& description is None
                &&& children.len() == entries.len()
                &&& forall|i: int|
                    0 <= i < entries.len() ==> encodes(
                        #[trigger] children@[i],
                        entries@[i],
                        compress,
                        false,
                    )
            },
            _ => false,
        },
        Entry::File { name, bytes } => !root && file_encodes(r, name@, bytes@, compress),
    }
}

/// The bytes that a file record decodes to, `None` when its content cannot be
/// decoded.
pub open spec fn decoded_content(content: Seq<char>, is_compressed: Option<bool>) -> Option<
    Seq<u8>,
> {
    if is_compressed == Some(true) {
        if !base85_fits(content) {
            None
        } else {
            match base85_decoded(content) {
                Some(d) => xz_decoded(d),
                None => None,
            }
        }
    } else {
        Some(encode_utf8(content))
    }
}

/// What decoding a file record gives: `decoded_content`, which for a content
/// that was produced by compressing some bytes is those bytes.
pub open spec fn decode_post(content: Seq<char>, is_compressed: Option<bool>, r: Option<Seq<u8>>) -> bool {
    &&& r == decoded_content(content, is_compressed)
    &&& is_compressed == Some(true) && base85_fits(content) ==> forall|raw: Seq<u8>|
        #[trigger] base85_of(xz_of(raw)) == content ==> r == Some(raw)
}

impl Repo {
    /// Where the document that `uri` names is read from: an explicit path as it
    /// is; otherwise `share_hit`, the share directory's file for it when that
    /// file exists; otherwise its published location.
    pub fn whereis(uri: &String, share_hit: Option<String>) -> (r: String)
        ensures
            r@ == (if is_explicit_ref(uri@) {
                uri@
            } else {
                match share_hit {
                    Some(p) => p@,
                    None => remote_path(uri@),
                }
            }),
    {
        if is_explicit_path(uri.as_str()) {
            uri.clone()
        } else {
            match share_hit {
                Some(p) => p,
                None => remote_candidate(uri),
            }
        }
    }

    /// Whether a file of this name is stored compressed whatever the caller asked.
    pub fn is_binary(name: &str) -> (r: bool)
        ensures
            r == is_binary_name(name@),
    {
        is_binary(name)
    }

    /// The record of a file named `name` holding `bytes`.
    pub fn encode_file(name: &String, bytes: &Vec<u8>, compress: bool) -> (r: Repo)
        ensures
            file_encodes(r, name@, bytes@, compress),
    {
        let packed = compress || is_binary(name.as_str());
        proof {
            if !packed && valid_utf8(bytes@) {
                decode_utf8_encode_utf8(bytes@);
            }
        }
        let content = if packed {
            let c = xz_compress(bytes.as_slice());
            base85_encode(c.as_slice())
        } else {
            utf8_lossy_of(bytes.as_slice())
        };
        Repo::File {
            name: name.clone(),
            content,
            original_size: Some(bytes.len() as u64),
            original_md5: Some(md5_hex_of(bytes.as_slice())),
            is_compressed: Some(packed),
            is_optional: Some(false),
        }
    }

    /// Encodes the directory snapshot `folder`; at `depth` 0 it is the root,
    /// named `.`. `None` exactly when `folder` is a file.
    pub fn from_folder(folder: &Entry, is_compressed: bool, depth: usize) -> (r: Option<Repo>)
        ensures
            r is Some <==> folder is Dir,
            r matches Some(d) ==> encodes(d, *folder, is_compressed, depth == 0),
        decreases folder,
    {
        match folder {
            Entry::File { .. } => None,
            Entry::Dir { name, entries } => {
                let dir_name = if depth == 0 {
                    ".".to_string()
                } else {
                    name.clone()
                };
                let mut children: Vec<Repo> = Vec::new();
                let mut i: usize = 0;
                while i < entries.len()
                    invariant
                        folder is Dir && folder->Dir_entries == *entries,
                        i <= entries.len(),
                        children.len() == i,
                        forall|j: int|
                            0 <= j < i ==> encodes(
                                #[trigger] children@[j],
                                entries@[j],
                                is_compressed,
                                false,
                            ),
                    decreases entries.len() - i,
                {
                    proof {
                        assert(decreases_to!(folder => folder->Dir_entries));
                        assert(decreases_to!(folder->Dir_entries => folder->Dir_entries@));
                        assert(decreases_to!(folder->Dir_entries@ => entries@[i as int]));
                    }
                    let child = match &entries[i] {
                        Entry::Dir { .. } => match Repo::from_folder(
                            &entries[i],
                            is_compressed,
                            depth.saturating_add(1),
                        ) {
                            Some(c) => c,
                            None => {
                                return None;
                            },
                        },
                        Entry::File { name, bytes } => Repo::encode_file(name, bytes, is_compressed),
                    };
                    children.push(child);
                    i = i + 1;
                }
                Some(
                    Repo::Directory {
                        name: dir_name,
                        children,
                        dependencies: None,
                        description: None,
                    },
                )
            },
        }
    }
}

/// The bytes that a file's `content` decodes to: base85 then xz when it is
/// stored compressed, its UTF-8 bytes otherwise. `None` when the content is
/// not a valid compressed encoding.
pub fn decode_content(content: &String, is_compressed: Option<bool>) -> (r: Option<Vec<u8>>)
    ensures
        decode_post(content@, is_compressed, bytes_view(r)),
{
    match is_compressed {
        Some(true) => {
            if !base85_fits_check(content.as_str()) {
                return None;
            }
            match base85_decode(content.as_str()) {
                Some(d) => xz_decompress(d.as_slice()),
                None => None,
            }
        },
        _ => Some(content.as_str().as_bytes_vec()),
    }
}

/// How the checksum of a written file compares with the recorded one.
pub enum ChecksumOutcome {
    Verified,
    Mismatch { expected: String, actual: String },
    NotProvided { actual: String },
}

/// `r` compares the MD5 of `written` with the `expected` digest.
pub open spec fn checksum_post(r: ChecksumOutcome, expected: Option<String>, written: Seq<u8>) -> bool {
    match r {
        ChecksumOutcome::Verified => expected is Some && expected->0@ == md5_hex(written),
        ChecksumOutcome::Mismatch { expected: e, actual } => {
            &&& expected == Some(e)
            &&& e@ != md5_hex(written)
            &&& actual@ == md5_hex(written)
        },
        ChecksumOutcome::NotProvided { actual } => expected is None && actual@ == md5_hex(written),
    }
}

/// Checks the bytes written for a file against its recorded checksum. The
/// outcome is advisory: every variant lets reconstruction go on.
pub fn check_written(expected: &Option<String>, written: &[u8]) -> (r: ChecksumOutcome)
    ensures
        checksum_post(r, *expected, written@),
{
    let actual = md5_hex_of(written);
    match expected {
        Some(e) => {
            if actual == *e {
                ChecksumOutcome::Verified
            } else {
                ChecksumOutcome::Mismatch { expected: e.clone(), actual }
            }
        },
        None => ChecksumOutcome::NotProvided { actual },
    }
}

/// A text file encoded without compression decodes to its original bytes,
/// and the checksum recorded for it is the MD5 of those bytes.
pub proof fn lemma_round_trip_text(
    r: Repo,
    name: Seq<char>,
    bytes: Seq<u8>,
    decoded: Option<Seq<u8>>,
)
    requires
        valid_utf8(bytes),
        !is_binary_name(name),
        file_encodes(r, name, bytes, false),
        decode_post(r->File_content@, r->File_is_compressed, decoded),
    ensures
        decoded == Some(bytes),
        r->File_original_md5 is Some && r->File_original_md5->0@ == md5_hex(decoded->0),
{
    decode_utf8_encode_utf8(bytes);
}

/// A file stored compressed, whether asked for or forced by its extension,
/// decodes to exactly its original bytes, and the checksum recorded for it is
/// the MD5 of those bytes.
pub proof fn lemma_round_trip_compressed(
    r: Repo,
    name: Seq<char>,
    bytes: Seq<u8>,
    compress: bool,
    decoded: Option<Seq<u8>>,
)
    requires
        stores_compressed(name, compress),
        file_encodes(r, name, bytes, compress),
        decode_post(r->File_content@, r->File_is_compressed, decoded),
    ensures
        r->File_content@ == base85_of(xz_of(bytes)),
        decoded == Some(bytes),
        r->File_original_md5 is Some && r->File_original_md5->0@ == md5_hex(decoded->0),
{
}

/// A file whose extension names a binary format is stored compressed even
/// when the caller did not ask for compression.
pub proof fn lemma_binary_extension_compresses(r: Repo, name: Seq<char>, bytes: Seq<u8>)
    requires
        is_binary_name(name),
        file_encodes(r, name, bytes, false),
    ensures
        r->File_is_compressed == Some(true),
        r->File_content@ == base85_of(xz_of(bytes)),
{
}

} // verus!
