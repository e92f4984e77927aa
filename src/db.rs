//! The embedded table, its one-time parse, and lookups by MIME type.
use vstd::prelude::*;
use crate::index::{index_contents, KeyIndex};
use crate::model::{
    entries_view, forward_lookup, is_first_key, lemma_first_key_unique, preferred_lookup, Entry,
};

verus! {

/// The MIME table shipped with the library: a JSON object from each MIME
/// type to its extensions, lower case and without a leading dot, the
/// preferred one first.
pub const MIME_DB_JSON: &'static str = r#"{
  "application/gzip": ["gz"],
  "application/javascript": ["js", "mjs"],
  "application/json": ["json", "map"],
  "application/msword": ["doc", "dot"],
  "application/octet-stream": ["bin", "dms", "lrf", "mar", "so", "dist", "distz", "pkg", "bpk", "dump", "elc", "deploy", "exe", "dll", "deb", "dmg", "iso", "img", "msi", "msp", "msm", "buffer"],
  "application/pdf": ["pdf"],
  "application/postscript": ["ai", "eps", "ps"],
  "application/rtf": ["rtf"],
  "application/wasm": ["wasm"],
  "application/xml": ["xml", "xsl", "xsd", "rng"],
  "application/zip": ["zip"],
  "application/x-7z-compressed": ["7z"],
  "application/x-bzip2": ["bz2", "boz"],
  "application/x-rar-compressed": ["rar"],
  "application/x-sh": ["sh"],
  "application/x-tar": ["tar"],
  "audio/aac": ["adts", "aac"],
  "audio/flac": ["flac"],
  "audio/midi": ["mid", "midi", "kar", "rmi"],
  "audio/mp4": ["m4a", "mp4a"],
  "audio/mpeg": ["mp3", "mp1", "mp2"],
  "audio/ogg": ["oga", "ogg", "spx", "opus"],
  "audio/wav": ["wav"],
  "audio/webm": ["weba"],
  "audio/x-wav": ["wav"],
  "font/otf": ["otf"],
  "font/ttf": ["ttf"],
  "font/woff": ["woff"],
  "font/woff2": ["woff2"],
  "image/avif": ["avif"],
  "image/bmp": ["bmp", "dib"],
  "image/gif": ["gif"],
  "image/jpeg": ["jpeg", "jpg", "jpe"],
  "image/png": ["png"],
  "image/svg+xml": ["svg", "svgz"],
  "image/tiff": ["tif", "tiff"],
  "image/vnd.microsoft.icon": ["ico"],
  "image/webp": ["webp"],
  "image/x-icon": ["ico"],
  "text/calendar": ["ics", "ifb"],
  "text/css": ["css"],
  "text/csv": ["csv"],
  "text/html": ["html", "htm", "shtml"],
  "text/javascript": ["js", "mjs"],
  "text/markdown": ["md", "markdown"],
  "text/plain": ["txt", "text", "conf", "def", "list", "log", "in", "ini"],
  "text/xml": ["xml"],
  "text/yaml": ["yaml", "yml"],
  "video/mp4": ["mp4", "mp4v", "mpg4"],
  "video/mpeg": ["mpeg", "mpg", "mpe", "m1v", "m2v"],
  "video/ogg": ["ogv"],
  "video/quicktime": ["qt", "mov"],
  "video/webm": ["webm"],
  "video/x-msvideo": ["avi"]
}"#;

/// The table could not be read: every lookup answers "unknown".
#[derive(Debug, Clone, Copy, PartialEq, Eq)]
pub struct Unavailable;

#[verifier::external_type_specification]
#[verifier::external_body]
pub struct ExJsonError(serde_json::Error);

/// What serde_json reads from `text` as a JSON object whose values are lists
/// of strings: its entries in document order, or nothing when `text` is not
/// of that shape.
pub uninterp spec fn json_table(text: Seq<char>) -> Option<Seq<Entry>>;

/// Relies on serde_json::from_str, into serde_json's `Map` (kept in document
/// order by the `preserve_order` feature), and on serde_json::from_value to
/// read each value as a list of strings.
#[verifier::external_body]
fn parse_table(text: &str) -> (r: Result<Vec<(String, Vec<String>)>, serde_json::Error>)
    ensures
        match r {
            Ok(v) => json_table(text@) == Some(entries_view(v@)),
            Err(_) => json_table(text@) is None,
        },
{
    let map: serde_json::Map<String, serde_json::Value> = serde_json::from_str(text)?;
    map.into_iter().map(|(k, v)| serde_json::from_value::<Vec<String>>(v).map(|e| (k, e))).collect()
}

/// The forward table: each MIME type with its extensions in document order,
/// and a hash index from MIME type to its first record.
pub struct MimeDb {
    entries: Vec<(String, Vec<String>)>,
    by_mime: KeyIndex,
}

impl View for MimeDb {
    type V = Seq<Entry>;

    closed spec fn view(&self) -> Seq<Entry> {
        entries_view(self.entries@)
    }
}

impl MimeDb {
    /// The index sends each MIME type of the table to its first record.
    pub closed spec fn wf(&self) -> bool {
        let es = self@;
        let ix = index_contents(self.by_mime);
        &&& forall|m: Seq<char>| #[trigger] ix.dom().contains(m) ==> is_first_key(es, m, ix[m] as int)
        &&& forall|j: int| 0 <= j < es.len() ==> ix.dom().contains(#[trigger] es[j].0)
    }

    /// The records of the table, in document order.
    pub(crate) fn records(&self) -> (r: &Vec<(String, Vec<String>)>)
        ensures
            entries_view(r@) == self@,
    {
        &self.entries
    }

    /// Builds the index over a parsed table.
    fn from_entries(entries: Vec<(String, Vec<String>)>) -> (r: MimeDb)
        ensures
            r.wf(),
            r@ == entries_view(entries@),
    {
        let ghost es = entries_view(entries@);
        let mut by_mime = KeyIndex::new();
        let mut i: usize = 0;
        while i < entries.len()
            invariant
                i <= entries.len(),
                es == entries_view(entries@),
                forall|m: Seq<char>| #[trigger] index_contents(by_mime).dom().contains(m)
                    ==> index_contents(by_mime)[m] < i && is_first_key(es, m, index_contents(by_mime)[m] as int),
                forall|j: int| 0 <= j < i ==> index_contents(by_mime).dom().contains(#[trigger] es[j].0),
            decreases entries.len() - i,
        {
            let key: &str = entries[i].0.as_str();
            if by_mime.get(key).is_none() {
                assert forall|j: int| 0 <= j < i implies #[trigger] es[j].0 != es[i as int].0 by {
                    assert(index_contents(by_mime).dom().contains(es[j].0));
                }
                by_mime.insert(entries[i].0.clone(), i);
            }
            i = i + 1;
        }
        MimeDb { entries, by_mime }
    }
}

/// Parses a JSON table of the shape of `MIME_DB_JSON`.
pub fn from_json(text: &str) -> (r: Result<MimeDb, Unavailable>)
    ensures
        match r {
            Ok(db) => db.wf() && json_table(text@) == Some(db@),
            Err(_) => json_table(text@) is None,
        },
{
    match parse_table(text) {
        Ok(entries) => Ok(MimeDb::from_entries(entries)),
        Err(_) => Err(Unavailable),
    }
}

/// Parses the embedded table. Calling it once, at start-up, and sharing the
/// result is the intended use: the outcome never changes.
pub fn load() -> (r: Result<MimeDb, Unavailable>)
    ensures
        match r {
            Ok(db) => db.wf() && json_table(MIME_DB_JSON@) == Some(db@),
            Err(_) => json_table(MIME_DB_JSON@) is None,
        },
{
    from_json(MIME_DB_JSON)
}

/// Whether the embedded table is readable, with no lookup needed.
pub fn status() -> (r: Result<(), Unavailable>)
    ensures
        r is Ok <==> json_table(MIME_DB_JSON@) is Some,
{
    match load() {
        Ok(_) => Ok(()),
        Err(e) => Err(e),
    }
}

/// The extensions of `mime`, in table order; `None` when it is unknown.
pub fn mime_to_ext<'a>(db: &'a MimeDb, mime: &str) -> (r: Option<&'a [String]>)
    requires
        db.wf(),
    ensures
        match r {
            Some(exts) => forward_lookup(db@, mime@) == Some(exts@.map_values(|s: String| s@)),
            None => forward_lookup(db@, mime@) is None,
        },
{
    match db.by_mime.get(mime) {
        Some(i) => {
            proof {
                let k = choose|k: int| is_first_key(db@, mime@, k);
                lemma_first_key_unique(db@, mime@, i as int, k);
            }
            Some(db.entries[i].1.as_slice())
        },
        None => {
            assert(!exists|k: int| is_first_key(db@, mime@, k));
            None
        },
    }
}

/// The preferred (first) extension of `mime`; `None` when it is unknown or
/// has no extension.
pub fn mime_to_preferred_ext<'a>(db: &'a MimeDb, mime: &str) -> (r: Option<&'a str>)
    requires
        db.wf(),
    ensures
        match r {
            Some(ext) => preferred_lookup(db@, mime@) == Some(ext@),
            None => preferred_lookup(db@, mime@) is None,
        },
{
    match mime_to_ext(db, mime) {
        Some(exts) => if exts.len() > 0 {
            Some(exts[0].as_str())
        } else {
            None
        },
        None => None,
    }
}

} // verus!
