//! Files handed to an ask and handed back by it: under which names they are
//! put into the scratch directory, with which permissions, and what they are.
use vstd::prelude::*;

use crate::number::{decimal, law_decimal_round_trip, to_decimal};
use crate::paths::{
    absolute, below, components_of, extension, extension_of, file_name, file_name_of, parts_of,
    path_to_slash, relative_to, slashed, under, Part,
};
use crate::sorting::{ints, order_of, sort_order};
use crate::split::{begins_with, pieces, replace, replaced, strip_prefix};
use crate::text::{
    cat, chars_of, is_digit, lowered, owned, same, text_range, to_lower, trim, trimmed, views,
};

verus! {

/// The subdirectory of the scratch directory whose files are handed back.
pub const OUT_DIRNAME: &'static str = "out";

/// Where the bytes of a handed-in file are.
#[derive(Debug)]
pub enum BlobRef {
    /// In the text itself, in base64.
    Bytes { base64: String },
    /// In a file at this path.
    Path { path: String },
    /// In the content-addressed store.
    Sha256 { sha256: String },
}

/// What an agent may do with a handed-in file.
#[derive(Clone, Copy, Debug, PartialEq, Eq, Structural)]
pub struct BlobPerms {
    pub read: bool,
    pub write: bool,
    pub execute: bool,
}

/// A file that is handed over.
#[derive(Debug)]
pub struct BlobHandle {
    pub blob_ref: BlobRef,
    pub media_type: String,
    pub name: Option<String>,
    pub perms: BlobPerms,
}

/// Why the `base64` crate refused a text.
#[verifier::external_type_specification]
#[verifier::external_body]
pub struct ExDecodeError(base64::DecodeError);

/// What `base64::engine::general_purpose::STANDARD` decodes a text to.
pub uninterp spec fn base64_decoded(text: Seq<char>) -> Result<Seq<u8>, base64::DecodeError>;

/// The text that a refusal of the `base64` crate displays as.
pub uninterp spec fn decode_error_text(error: base64::DecodeError) -> Seq<char>;

/// `base64::Engine::decode` of `base64::engine::general_purpose::STANDARD`: the
/// bytes or the refusal are determined by the encoded text.
#[verifier::external_body]
pub(crate) fn decode_base64(text: &str) -> (r: Result<Vec<u8>, base64::DecodeError>)
    ensures
        match r {
            Ok(b) => base64_decoded(text@) == Ok::<Seq<u8>, base64::DecodeError>(b@),
            Err(e) => base64_decoded(text@) == Err::<Seq<u8>, base64::DecodeError>(e),
        },
{
    base64::Engine::decode(&base64::engine::general_purpose::STANDARD, text)
}

/// `<base64::DecodeError as Display>::fmt`: the text is determined by the
/// refusal.
#[verifier::external_body]
pub(crate) fn decode_refusal(error: &base64::DecodeError) -> (r: String)
    ensures
        r@ == decode_error_text(*error),
{
    error.to_string()
}

/// Why a file could not be handed over.
#[derive(Debug)]
pub enum BlobError {
    /// The text is not base64.
    Decode { name: String, source: base64::DecodeError },
    /// The name cannot be used.
    BadName { name: String },
    /// The content-addressed store refused.
    Store(String),
    /// The file system refused.
    Io(String),
}

impl BlobError {
    /// What the error says.
    pub open spec fn text(&self) -> Seq<char> {
        match self {
            BlobError::Decode { name, source } => "inbound blob `"@ + name@
                + "` has invalid base64: "@ + decode_error_text(*source),
            BlobError::BadName { name } => "inbound blob has an invalid name `"@ + name@ + "`"@,
            BlobError::Store(e) => "blob store error: "@ + e@,
            BlobError::Io(e) => "blob IO error: "@ + e@,
        }
    }

    pub fn message(&self) -> (r: String)
        ensures
            r@ == self.text(),
    {
        match self {
            BlobError::Decode { name, source } => {
                let mut s = cat("inbound blob `", name.as_str());
                s.append("` has invalid base64: ");
                s.append(decode_refusal(source).as_str());
                s
            },
            BlobError::BadName { name } => {
                let mut s = cat("inbound blob has an invalid name `", name.as_str());
                s.append("`");
                s
            },
            BlobError::Store(e) => cat("blob store error: ", e.as_str()),
            BlobError::Io(e) => cat("blob IO error: ", e.as_str()),
        }
    }
}

/// A bare file name: it is not empty, holds no separator, and is no step to the
/// directory itself or up.
pub open spec fn bare(name: Seq<char>) -> bool {
    &&& name.len() > 0
    &&& !name.contains('/')
    &&& name != "."@
    &&& name != ".."@
}

/// The name that a hint gives: the hint itself without the blanks around it,
/// where that is a bare file name.
pub open spec fn clean_name(hint: Seq<char>) -> Option<Seq<char>> {
    if bare(trimmed(hint)) {
        Some(trimmed(hint))
    } else {
        None
    }
}

fn holds_separator(name: &str) -> (r: bool)
    ensures
        r == name@.contains('/'),
{
    let v = chars_of(name);
    let mut i: usize = 0;
    while i < v.len()
        invariant
            i <= v@.len(),
            v@ == name@,
            forall|k: int| 0 <= k < i ==> v@[k] != '/',
        decreases v.len() - i,
    {
        if v[i] == '/' {
            return true;
        }
        i = i + 1;
    }
    false
}

/// Takes a single bare file name: no separators, no steps up, not empty.
pub fn sanitize_name(hint: &str) -> (r: Result<String, BlobError>)
    ensures
        match r {
            Ok(name) => clean_name(hint@) == Some(name@),
            Err(e) => {
                &&& clean_name(hint@) is None
                &&& e matches BlobError::BadName { name }
                &&& name@ == hint@
            },
        },
{
    let t = trim(hint);
    let empty = same(t.as_str(), "");
    proof {
        reveal_strlit("");
        assert(t@ == ""@ <==> t@.len() == 0) by {
            if t@.len() == 0 {
                assert(t@ =~= ""@);
            }
        }
    }
    if empty || holds_separator(t.as_str()) || same(t.as_str(), ".") || same(t.as_str(), "..") {
        return Err(BlobError::BadName { name: owned(hint) });
    }
    Ok(t)
}

/// The name that a digest gives: `blob-`, the position, and the first twelve
/// characters of the digest after its `sha256:`.
pub open spec fn derived_name(index: nat, digest: Seq<char>) -> Seq<char> {
    let hex = if begins_with(digest, "sha256:"@) {
        digest.skip("sha256:"@.len() as int)
    } else {
        digest
    };
    let short = if hex.len() <= 12 {
        hex
    } else {
        hex.take(12)
    };
    "blob-"@ + decimal(index) + "-"@ + short
}

/// The name under which the handed-in file at position `index` is put into the
/// scratch directory: the one asked for, else the source file's own, else one
/// made of the position and the content's digest.
pub open spec fn inbound_name_of(handle: &BlobHandle, index: nat, digest: Seq<char>) -> Option<
    Seq<char>,
> {
    match handle.name {
        Some(hint) => clean_name(hint@),
        None => {
            let own = match handle.blob_ref {
                BlobRef::Path { path } => match file_name_of(path@) {
                    Some(f) => clean_name(f),
                    None => None,
                },
                _ => None,
            };
            match own {
                Some(n) => Some(n),
                None => Some(derived_name(index, digest)),
            }
        },
    }
}

fn derive_name(index: usize, digest: &str) -> (r: String)
    ensures
        r@ == derived_name(index as nat, digest@),
{
    let hex = match strip_prefix(digest, "sha256:") {
        Some(h) => h,
        None => owned(digest),
    };
    let v = chars_of(hex.as_str());
    let n: usize = if v.len() <= 12 {
        v.len()
    } else {
        12
    };
    let short = text_range(&v, 0, n);
    assert(v@.subrange(0, n as int) =~= (if hex@.len() <= 12 {
        hex@
    } else {
        hex@.take(12)
    }));
    let mut s = cat("blob-", to_decimal(index as u64).as_str());
    s.append("-");
    s.append(short.as_str());
    s
}

/// The name for a handed-in file; `digest` is the digest of its content.
pub fn inbound_name(handle: &BlobHandle, index: usize, digest: &str) -> (r: Result<
    String,
    BlobError,
>)
    ensures
        match r {
            Ok(n) => inbound_name_of(handle, index as nat, digest@) == Some(n@),
            Err(e) => {
                &&& inbound_name_of(handle, index as nat, digest@) is None
                &&& handle.name matches Some(hint)
                &&& e matches BlobError::BadName { name }
                &&& name@ == hint@
            },
        },
{
    if let Some(hint) = &handle.name {
        return sanitize_name(hint.as_str());
    }
    if let BlobRef::Path { path } = &handle.blob_ref {
        if let Some(f) = file_name(path.as_str()) {
            if let Ok(n) = sanitize_name(f.as_str()) {
                return Ok(n);
            }
        }
    }
    Ok(derive_name(index, digest))
}

proof fn lemma_one_piece(s: Seq<char>, sep: char)
    requires
        !s.contains(sep),
    ensures
        pieces(s, sep) == seq![s],
    decreases s.len(),
{
    if s.len() == 0 {
        assert(s =~= Seq::<char>::empty());
    } else {
        let init = s.drop_last();
        assert(s.contains(s.last())) by {
            assert(s[s.len() - 1] == s.last());
        }
        assert(!init.contains(sep)) by {
            if init.contains(sep) {
                let k = init.index_of(sep);
                assert(s[k] == sep);
            }
        }
        lemma_one_piece(init, sep);
        assert(init.push(s.last()) =~= s);
        assert(pieces(s, sep) =~= seq![s]);
    }
}

/// A name that is taken from a hint is the hint itself, without the blanks
/// around it; and a name that is taken from a hint or from a path is a bare file
/// name that is one component of a path, so the file lands in the scratch
/// directory itself.
pub proof fn law_hinted_names_are_bare(handle: &BlobHandle, index: nat, digest: Seq<char>)
    ensures
        inbound_name_of(handle, index, digest) matches Some(n) ==> {
            &&& handle.name matches Some(hint) ==> n == trimmed(hint@)
            &&& handle.name is Some || n != derived_name(index, digest) ==> {
                &&& bare(n)
                &&& components_of(n) == seq![Part::Normal(n)]
            }
        },
{
    if let Some(n) = inbound_name_of(handle, index, digest) {
        if bare(n) {
            lemma_one_piece(n, '/');
            assert(!absolute(n)) by {
                if absolute(n) {
                    assert(n[0] == '/');
                }
            }
            let ps = pieces(n, '/');
            reveal_with_fuel(crate::paths::parts_of, 2);
            assert(parts_of(ps, 1) =~= seq![Part::Normal(n)]);
        }
    }
}

/// The owner's permission bits.
pub open spec fn mode_of(perms: BlobPerms) -> int {
    (if perms.read {
        256int
    } else {
        0
    }) + (if perms.write {
        128int
    } else {
        0
    }) + (if perms.execute {
        64int
    } else {
        0
    })
}

/// The permission bits that a handed-in file gets: `0o400` to read, `0o200` to
/// write, `0o100` to execute.
pub fn mode_bits(perms: BlobPerms) -> (r: u32)
    ensures
        r == mode_of(perms),
{
    let mut mode: u32 = 0;
    if perms.read {
        mode = mode + 0o400;
    }
    if perms.write {
        mode = mode + 0o200;
    }
    if perms.execute {
        mode = mode + 0o100;
    }
    mode
}

/// The media type that a file's name suggests.
pub open spec fn media_of(path: Seq<char>) -> Seq<char> {
    let ext = match extension_of(path) {
        Some(e) => lowered(e),
        None => Seq::empty(),
    };
    if ext == "txt"@ {
        "text/plain"@
    } else if ext == "md"@ {
        "text/markdown"@
    } else if ext == "json"@ {
        "application/json"@
    } else if ext == "csv"@ {
        "text/csv"@
    } else if ext == "html"@ || ext == "htm"@ {
        "text/html"@
    } else if ext == "pdf"@ {
        "application/pdf"@
    } else {
        "application/octet-stream"@
    }
}

pub fn guess_media(path: &str) -> (r: String)
    ensures
        r@ == media_of(path@),
{
    let ext = match extension(path) {
        Some(e) => to_lower(e.as_str()),
        None => String::new(),
    };
    let e = ext.as_str();
    if same(e, "txt") {
        owned("text/plain")
    } else if same(e, "md") {
        owned("text/markdown")
    } else if same(e, "json") {
        owned("application/json")
    } else if same(e, "csv") {
        owned("text/csv")
    } else if same(e, "html") || same(e, "htm") {
        owned("text/html")
    } else if same(e, "pdf") {
        owned("application/pdf")
    } else {
        owned("application/octet-stream")
    }
}

/// The path of a produced file below the directory it is handed back from,
/// with slashes between its names.
pub fn rel_name(out_root: &str, path: &str) -> (r: String)
    ensures
        r@ == (if under(path@, out_root@) {
            below(path@, out_root@)
        } else {
            slashed(path@)
        }),
{
    match relative_to(path, out_root) {
        Some(s) => s,
        None => path_to_slash(path),
    }
}

/// What has to be done to get at the bytes of a handed-in file.
#[derive(Debug)]
pub enum Source {
    /// They are here.
    Inline(Vec<u8>),
    /// Read the file at this path.
    ReadFile(String),
    /// Ask the content-addressed store for this address.
    FromStore(String),
}

/// The bytes of a file that was handed in as text, once that has been decoded.
/// A file without a name goes by `<bytes>` where it cannot be decoded.
pub fn inline_source(
    name: &Option<String>,
    decoded: Result<Vec<u8>, base64::DecodeError>,
) -> (r: Result<Source, BlobError>)
    ensures
        match decoded {
            Ok(b) => r == Ok::<Source, BlobError>(Source::Inline(b)),
            Err(e) => {
                &&& r matches Err(BlobError::Decode { name: n, source })
                &&& source == e
                &&& n@ == (match name {
                    Some(n) => n@,
                    None => "<bytes>"@,
                })
            },
        },
{
    match decoded {
        Ok(b) => Ok(Source::Inline(b)),
        Err(source) => {
            let name = match name {
                Some(n) => n.clone(),
                None => owned("<bytes>"),
            };
            Err(BlobError::Decode { name, source })
        },
    }
}

/// Finds out where the bytes of a handed-in file come from; base64 text is
/// decoded.
pub fn load_bytes(handle: &BlobHandle) -> (r: Result<Source, BlobError>)
    ensures
        match handle.blob_ref {
            BlobRef::Bytes { base64 } => match base64_decoded(base64@) {
                Ok(b) => r matches Ok(Source::Inline(v)) && v@ == b,
                Err(t) => {
                    &&& r matches Err(BlobError::Decode { name, source })
                    &&& source == t
                    &&& name@ == (match handle.name {
                        Some(n) => n@,
                        None => "<bytes>"@,
                    })
                },
            },
            BlobRef::Path { path } => r matches Ok(Source::ReadFile(p)) && p@ == path@,
            BlobRef::Sha256 { sha256 } => r matches Ok(Source::FromStore(h)) && h@ == sha256@,
        },
{
    match &handle.blob_ref {
        BlobRef::Bytes { base64 } => inline_source(&handle.name, decode_base64(base64.as_str())),
        BlobRef::Path { path } => Ok(Source::ReadFile(path.clone())),
        BlobRef::Sha256 { sha256 } => Ok(Source::FromStore(sha256.clone())),
    }
}

/// What the file at `path` is handed back as, once its content is stored under
/// the address `hash`.
pub fn outbound_handle(out_root: &str, path: &str, hash: String, perms: BlobPerms) -> (r: BlobHandle)
    ensures
        r.blob_ref matches BlobRef::Sha256 { sha256 } && sha256 == hash,
        r.media_type@ == media_of(path@),
        r.name matches Some(n) && n@ == (if under(path@, out_root@) {
            below(path@, out_root@)
        } else {
            slashed(path@)
        }),
        r.perms == perms,
{
    BlobHandle {
        blob_ref: BlobRef::Sha256 { sha256: hash },
        media_type: guess_media(path),
        name: Some(rel_name(out_root, path)),
        perms,
    }
}

/// A produced file: where it is, and the address its content is stored under.
#[derive(Debug)]
pub struct Swept {
    pub path: String,
    pub hash: String,
}

/// What a path is ordered by: its names one after the other.
pub open spec fn path_rank(path: Seq<char>) -> Seq<char> {
    replaced(path, "/"@, "\0"@)
}

pub open spec fn path_ranks(files: Seq<Swept>) -> Seq<Seq<char>> {
    files.map_values(|f: Swept| path_rank(f.path@))
}

/// The handle of a produced file.
pub open spec fn hands_back(h: BlobHandle, out_root: Seq<char>, f: Swept, perms: BlobPerms) -> bool {
    &&& h.blob_ref matches BlobRef::Sha256 { sha256 } && sha256 == f.hash
    &&& h.media_type@ == media_of(f.path@)
    &&& h.name matches Some(n) && n@ == (if under(f.path@, out_root) {
        below(f.path@, out_root)
    } else {
        slashed(f.path@)
    })
    &&& h.perms == perms
}

fn rank_paths(files: &Vec<Swept>) -> (r: Vec<String>)
    ensures
        views(r@) == path_ranks(files@),
        r@.len() == files@.len(),
{
    let mut r: Vec<String> = Vec::new();
    let mut i: usize = 0;
    while i < files.len()
        invariant
            i <= files@.len(),
            r@.len() == i,
            views(r@) =~= path_ranks(files@).take(i as int),
        decreases files.len() - i,
    {
        let ghost was = r@;
        proof {
            reveal_strlit("/");
        }
        let one = replace(files[i].path.as_str(), "/", "\0");
        let ghost v = one@;
        r.push(one);
        assert(views(r@) =~= views(was).push(v));
        i = i + 1;
    }
    r
}

/// What the produced files are handed back as, one for one, in the order of
/// their paths whatever order the host found them in.
pub fn sweep_outbound(out_root: &str, files: &Vec<Swept>, perms: BlobPerms) -> (r: Vec<BlobHandle>)
    ensures
        r@.len() == files@.len(),
        forall|i: int|
            0 <= i < r@.len() ==> hands_back(
                #[trigger] r@[i],
                out_root@,
                files@[order_of(path_ranks(files@))[i]],
                perms,
            ),
{
    let ranks = rank_paths(files);
    let order = sort_order(&ranks);
    let ghost places = order_of(path_ranks(files@));
    let mut r: Vec<BlobHandle> = Vec::new();
    let mut i: usize = 0;
    while i < order.len()
        invariant
            i <= order@.len(),
            order@.len() == files@.len(),
            ints(order@) == places,
            forall|k: int| 0 <= k < order@.len() ==> (#[trigger] order@[k]) < files@.len(),
            r@.len() == i,
            forall|k: int|
                0 <= k < i ==> hands_back(#[trigger] r@[k], out_root@, files@[places[k]], perms),
        decreases order.len() - i,
    {
        let at: usize = order[i];
        assert(places[i as int] == at);
        r.push(
            outbound_handle(out_root, files[at].path.as_str(), files[at].hash.clone(), perms),
        );
        i = i + 1;
    }
    r
}

/// Files that are named by their position never share a name.
pub proof fn law_derived_names_do_not_collide(i: nat, j: nat, a: Seq<char>, b: Seq<char>)
    requires
        i != j,
    ensures
        derived_name(i, a) != derived_name(j, b),
{
    reveal_strlit("blob-");
    reveal_strlit("-");
    law_decimal_round_trip(i);
    law_decimal_round_trip(j);
    let x = derived_name(i, a);
    let y = derived_name(j, b);
    let m = decimal(i);
    let n = decimal(j);
    let head = "blob-"@.len() as int;
    assert forall|k: int| 0 <= k < m.len() implies x[head + k] == #[trigger] m[k] by {}
    assert forall|k: int| 0 <= k < n.len() implies y[head + k] == #[trigger] n[k] by {}
    assert(x[head + m.len()] == '-');
    assert(y[head + n.len()] == '-');
    if x == y {
        if m.len() < n.len() {
            assert(is_digit(n[m.len() as int]));
        } else if n.len() < m.len() {
            assert(is_digit(m[n.len() as int]));
        } else {
            assert forall|k: int| 0 <= k < m.len() implies m[k] == n[k] by {
                assert(x[head + k] == m[k]);
                assert(y[head + k] == n[k]);
            }
            assert(m =~= n);
        }
    }
}

/// The kind of content is told by the ending of the file's name, in capitals or
/// not: each known ending has its own, and everything else is bytes.
pub proof fn law_endings_tell_the_kind_of_content(path: Seq<char>, ending: Seq<char>)
    requires
        extension_of(path) == Some(ending),
    ensures
        ({
            let e = lowered(ending);
            let m = media_of(path);
            &&& m == "text/plain"@ <==> e == "txt"@
            &&& m == "text/markdown"@ <==> e == "md"@
            &&& m == "application/json"@ <==> e == "json"@
            &&& m == "text/csv"@ <==> e == "csv"@
            &&& m == "text/html"@ <==> e == "html"@ || e == "htm"@
            &&& m == "application/pdf"@ <==> e == "pdf"@
            &&& e != "txt"@ && e != "md"@ && e != "json"@ && e != "csv"@ && e != "html"@ && e
                != "htm"@ && e != "pdf"@ ==> m == "application/octet-stream"@
        }),
{
    reveal_strlit("txt");
    reveal_strlit("md");
    reveal_strlit("json");
    reveal_strlit("csv");
    reveal_strlit("html");
    reveal_strlit("htm");
    reveal_strlit("pdf");
    assert("txt"@.len() == 3);
    assert("md"@.len() == 2);
    assert("json"@.len() == 4);
    assert("csv"@.len() == 3);
    assert("html"@.len() == 4);
    assert("htm"@.len() == 3);
    assert("pdf"@.len() == 3);
    assert("txt"@[0] != "csv"@[0]);
    assert("txt"@[0] != "htm"@[0]);
    assert("txt"@[0] != "pdf"@[0]);
    assert("json"@[0] != "html"@[0]);
    assert("csv"@[0] != "htm"@[0]);
    assert("csv"@[0] != "pdf"@[0]);
    assert("htm"@[0] != "pdf"@[0]);
    reveal_strlit("text/plain");
    reveal_strlit("text/markdown");
    reveal_strlit("application/json");
    reveal_strlit("text/csv");
    reveal_strlit("text/html");
    reveal_strlit("application/pdf");
    reveal_strlit("application/octet-stream");
    assert("text/plain"@.len() == 10);
    assert("text/markdown"@.len() == 13);
    assert("application/json"@.len() == 16);
    assert("text/csv"@.len() == 8);
    assert("text/html"@.len() == 9);
    assert("application/pdf"@.len() == 15);
    assert("application/octet-stream"@.len() == 24);
}

/// The permission bits are the owner's: read, write and execute, each for itself.
pub proof fn law_modes_hold_the_owners_bits(perms: BlobPerms)
    ensures
        0 <= mode_of(perms) < 512,
        mode_of(perms) % 64 == 0,
        mode_of(perms) / 256 % 2 == 1 <==> perms.read,
        mode_of(perms) / 128 % 2 == 1 <==> perms.write,
        mode_of(perms) / 64 % 2 == 1 <==> perms.execute,
{
}

/// A file without a hint keeps its own name where that can be used; content without
/// one is named by its place in the list and the first digits of its digest.
pub proof fn law_names_come_from_the_content(
    handle: &BlobHandle,
    index: nat,
    hex: Seq<char>,
    own: Seq<char>,
)
    requires
        handle.name is None,
        !begins_with(hex, "sha256:"@),
    ensures
        (handle.blob_ref matches BlobRef::Path { path } && file_name_of(path@) == Some(own)
            && trimmed(own) == own && bare(own)) ==> inbound_name_of(handle, index, hex) == Some(
            own,
        ),
        !(handle.blob_ref is Path) ==> {
            let n = inbound_name_of(handle, index, hex);
            let lead = "blob-"@ + decimal(index) + "-"@;
            &&& n is Some
            &&& lead.is_prefix_of(n->0)
            &&& n->0.skip(lead.len() as int).is_prefix_of(hex)
            &&& n->0.len() == lead.len() + (if hex.len() < 12 {
                hex.len() as int
            } else {
                12
            })
            &&& inbound_name_of(handle, index, "sha256:"@ + hex) == n
        },
{
    let lead = "blob-"@ + decimal(index) + "-"@;
    let marked = "sha256:"@ + hex;
    assert(marked.take("sha256:"@.len() as int) =~= "sha256:"@);
    assert(marked.subrange(0, "sha256:"@.len() as int) =~= "sha256:"@);
    assert(marked.skip("sha256:"@.len() as int) =~= hex);
    if !(handle.blob_ref is Path) {
        let n = inbound_name_of(handle, index, hex)->0;
        let short = if hex.len() <= 12 {
            hex
        } else {
            hex.take(12)
        };
        assert(n == lead + short);
        assert(n.skip(lead.len() as int) =~= short);
    }
}

/// A file that is handed back is named by where it stands below the directory, is
/// found under its own address, and has the permissions given.
pub proof fn law_files_are_handed_back_as_found(
    h: BlobHandle,
    out_root: Seq<char>,
    f: Swept,
    perms: BlobPerms,
)
    requires
        hands_back(h, out_root, f, perms),
    ensures
        h.blob_ref == (BlobRef::Sha256 { sha256: f.hash }),
        h.media_type@ == media_of(f.path@),
        h.perms == perms,
        under(f.path@, out_root) ==> (h.name matches Some(n) && n@ == below(f.path@, out_root)),
{
}

} // verus!
