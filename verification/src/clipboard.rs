//! What the Wayland clipboard offers, and how its bytes become things to send.
//!
//! Types are enumerated before anything is read, so binary data is never
//! reinterpreted as text. Reading the clipboard and touching the filesystem
//! happen outside this module; it decides which type to read, checks the
//! bytes that came back, and resolves file URIs.
use vstd::prelude::*;
use vstd::utf8::{valid_utf8, decode_utf8};
use crate::text::{chars_of, string_of, split_chars, split_on, views, trim, trim_chars, str_eq};

verus! {

/// The clipboard type chosen for reading.
#[derive(Debug, PartialEq, Eq)]
pub enum ClipboardKind {
    Files,
    Image(String),
    Video(String),
    Text(String),
}

impl Clone for ClipboardKind {
    fn clone(&self) -> (r: Self)
        ensures
            r == *self,
    {
        match self {
            ClipboardKind::Files => ClipboardKind::Files,
            ClipboardKind::Image(m) => ClipboardKind::Image(m.clone()),
            ClipboardKind::Video(m) => ClipboardKind::Video(m.clone()),
            ClipboardKind::Text(m) => ClipboardKind::Text(m.clone()),
        }
    }
}

/// A clipboard kind as a mathematical value.
pub enum KindView {
    Files,
    Image(Seq<char>),
    Video(Seq<char>),
    Text(Seq<char>),
}

impl View for ClipboardKind {
    type V = KindView;

    open spec fn view(&self) -> KindView {
        match self {
            ClipboardKind::Files => KindView::Files,
            ClipboardKind::Image(m) => KindView::Image(m@),
            ClipboardKind::Video(m) => KindView::Video(m@),
            ClipboardKind::Text(m) => KindView::Text(m@),
        }
    }
}

/// Why the clipboard cannot be offered.
#[derive(Clone, Copy, Debug, PartialEq, Eq, Structural)]
pub enum ClipboardError {
    Unsupported,
    Empty,
    FilesNotUtf8,
    TextNotUtf8,
    InvalidUri,
    NotLocal,
    QueryOrFragment,
    InvalidPath,
    NoLocalFiles,
    UnsupportedMedia,
}

impl ClipboardError {
    /// The message shown for this refusal.
    pub fn message(&self) -> (r: String)
        ensures
            r@ == error_text(*self),
    {
        let text = match self {
            ClipboardError::Unsupported => "Clipboard has no supported files, images, videos or text",
            ClipboardError::Empty => "Clipboard is empty; copy the content again",
            ClipboardError::FilesNotUtf8 => "File clipboard is not UTF-8",
            ClipboardError::TextNotUtf8 => "Clipboard text is not UTF-8",
            ClipboardError::InvalidUri => "Invalid clipboard file URI",
            ClipboardError::NotLocal => "Clipboard URI is not a local file",
            ClipboardError::QueryOrFragment => "File URI has a query or fragment",
            ClipboardError::InvalidPath => "Invalid clipboard file path",
            ClipboardError::NoLocalFiles => "Clipboard contains no local files",
            ClipboardError::UnsupportedMedia => "Unsupported clipboard media type",
        };
        text.to_owned()
    }
}

/// The message of each refusal.
pub open spec fn error_text(e: ClipboardError) -> Seq<char> {
    match e {
        ClipboardError::Unsupported => "Clipboard has no supported files, images, videos or text"@,
        ClipboardError::Empty => "Clipboard is empty; copy the content again"@,
        ClipboardError::FilesNotUtf8 => "File clipboard is not UTF-8"@,
        ClipboardError::TextNotUtf8 => "Clipboard text is not UTF-8"@,
        ClipboardError::InvalidUri => "Invalid clipboard file URI"@,
        ClipboardError::NotLocal => "Clipboard URI is not a local file"@,
        ClipboardError::QueryOrFragment => "File URI has a query or fragment"@,
        ClipboardError::InvalidPath => "Invalid clipboard file path"@,
        ClipboardError::NoLocalFiles => "Clipboard contains no local files"@,
        ClipboardError::UnsupportedMedia => "Unsupported clipboard media type"@,
    }
}

/// The type a kind is read with.
pub open spec fn mime_of(k: KindView) -> Seq<char> {
    match k {
        KindView::Files => "text/uri-list"@,
        KindView::Image(m) => m,
        KindView::Video(m) => m,
        KindView::Text(m) => m,
    }
}

/// The file extension of a supported media type.
pub open spec fn extension_of(m: Seq<char>) -> Option<Seq<char>> {
    if m == "image/png"@ {
        Some("png"@)
    } else if m == "image/jpeg"@ {
        Some("jpg"@)
    } else if m == "image/webp"@ {
        Some("webp"@)
    } else if m == "image/gif"@ {
        Some("gif"@)
    } else if m == "image/bmp"@ {
        Some("bmp"@)
    } else if m == "image/tiff"@ {
        Some("tiff"@)
    } else if m == "video/mp4"@ {
        Some("mp4"@)
    } else if m == "video/webm"@ {
        Some("webm"@)
    } else if m == "video/quicktime"@ {
        Some("mov"@)
    } else if m == "video/x-matroska"@ {
        Some("mkv"@)
    } else {
        None
    }
}

impl ClipboardKind {
    /// The type to read: `text/uri-list` for files, else the chosen type.
    pub fn mime(&self) -> (r: &str)
        ensures
            r@ == mime_of(self@),
    {
        match self {
            ClipboardKind::Files => "text/uri-list",
            ClipboardKind::Image(mime) => mime.as_str(),
            ClipboardKind::Video(mime) => mime.as_str(),
            ClipboardKind::Text(mime) => mime.as_str(),
        }
    }

    /// The extension a temporary file of this media gets.
    pub fn extension(&self) -> (r: Option<&'static str>)
        ensures
            r is None <==> extension_of(mime_of(self@)) is None,
            r matches Some(e) ==> extension_of(mime_of(self@)) == Some(e@),
    {
        let m = self.mime();
        if str_eq(m, "image/png") {
            Some("png")
        } else if str_eq(m, "image/jpeg") {
            Some("jpg")
        } else if str_eq(m, "image/webp") {
            Some("webp")
        } else if str_eq(m, "image/gif") {
            Some("gif")
        } else if str_eq(m, "image/bmp") {
            Some("bmp")
        } else if str_eq(m, "image/tiff") {
            Some("tiff")
        } else if str_eq(m, "video/mp4") {
            Some("mp4")
        } else if str_eq(m, "video/webm") {
            Some("webm")
        } else if str_eq(m, "video/quicktime") {
            Some("mov")
        } else if str_eq(m, "video/x-matroska") {
            Some("mkv")
        } else {
            None
        }
    }
}

/// The offered types, as character sequences.
pub open spec fn type_views(types: Seq<&str>) -> Seq<Seq<char>> {
    types.map_values(|t: &str| t@)
}

/// The kind chosen from the offered `types`: files first, then the first
/// offered image type, video type and text type, each in its order of
/// preference.
pub open spec fn selected(types: Seq<Seq<char>>) -> Option<KindView> {
    if types.contains("text/uri-list"@) {
        Some(KindView::Files)
    } else if types.contains("image/png"@) {
        Some(KindView::Image("image/png"@))
    } else if types.contains("image/jpeg"@) {
        Some(KindView::Image("image/jpeg"@))
    } else if types.contains("image/webp"@) {
        Some(KindView::Image("image/webp"@))
    } else if types.contains("image/gif"@) {
        Some(KindView::Image("image/gif"@))
    } else if types.contains("image/bmp"@) {
        Some(KindView::Image("image/bmp"@))
    } else if types.contains("image/tiff"@) {
        Some(KindView::Image("image/tiff"@))
    } else if types.contains("video/mp4"@) {
        Some(KindView::Video("video/mp4"@))
    } else if types.contains("video/webm"@) {
        Some(KindView::Video("video/webm"@))
    } else if types.contains("video/quicktime"@) {
        Some(KindView::Video("video/quicktime"@))
    } else if types.contains("video/x-matroska"@) {
        Some(KindView::Video("video/x-matroska"@))
    } else if types.contains("text/plain;charset=utf-8"@) {
        Some(KindView::Text("text/plain;charset=utf-8"@))
    } else if types.contains("text/plain"@) {
        Some(KindView::Text("text/plain"@))
    } else if types.contains("UTF8_STRING"@) {
        Some(KindView::Text("UTF8_STRING"@))
    } else {
        None
    }
}

/// Whether `mime` is among the offered `types`.
fn offers(types: &[&str], mime: &str) -> (r: bool)
    ensures
        r == type_views(types@).contains(mime@),
{
    let mut i: usize = 0;
    while i < types.len()
        invariant
            i <= types@.len(),
            forall|j: int| 0 <= j < i ==> types@[j]@ != mime@,
        decreases types@.len() - i,
    {
        if str_eq(types[i], mime) {
            assert(type_views(types@)[i as int] == mime@);
            return true;
        }
        i += 1;
    }
    assert forall|j: int| 0 <= j < type_views(types@).len() implies type_views(types@)[j] != mime@ by {
        assert(types@[j]@ != mime@);
    }
    false
}

/// Chooses what to read from the offered clipboard types. A clipboard that
/// offers an image or a video is never read as its text alternative.
pub fn select_mime(types: &[&str]) -> (r: Result<ClipboardKind, ClipboardError>)
    ensures
        match selected(type_views(types@)) {
            Some(k) => r matches Ok(kind) && kind@ == k,
            None => r == Err::<ClipboardKind, ClipboardError>(ClipboardError::Unsupported),
        },
{
    if offers(types, "text/uri-list") {
        Ok(ClipboardKind::Files)
    } else if offers(types, "image/png") {
        Ok(ClipboardKind::Image("image/png".to_owned()))
    } else if offers(types, "image/jpeg") {
        Ok(ClipboardKind::Image("image/jpeg".to_owned()))
    } else if offers(types, "image/webp") {
        Ok(ClipboardKind::Image("image/webp".to_owned()))
    } else if offers(types, "image/gif") {
        Ok(ClipboardKind::Image("image/gif".to_owned()))
    } else if offers(types, "image/bmp") {
        Ok(ClipboardKind::Image("image/bmp".to_owned()))
    } else if offers(types, "image/tiff") {
        Ok(ClipboardKind::Image("image/tiff".to_owned()))
    } else if offers(types, "video/mp4") {
        Ok(ClipboardKind::Video("video/mp4".to_owned()))
    } else if offers(types, "video/webm") {
        Ok(ClipboardKind::Video("video/webm".to_owned()))
    } else if offers(types, "video/quicktime") {
        Ok(ClipboardKind::Video("video/quicktime".to_owned()))
    } else if offers(types, "video/x-matroska") {
        Ok(ClipboardKind::Video("video/x-matroska".to_owned()))
    } else if offers(types, "text/plain;charset=utf-8") {
        Ok(ClipboardKind::Text("text/plain;charset=utf-8".to_owned()))
    } else if offers(types, "text/plain") {
        Ok(ClipboardKind::Text("text/plain".to_owned()))
    } else if offers(types, "UTF8_STRING") {
        Ok(ClipboardKind::Text("UTF8_STRING".to_owned()))
    } else {
        Err(ClipboardError::Unsupported)
    }
}

/// What file-URI checking reads of a parsed URI.
#[derive(Debug)]
pub struct UriParts {
    pub scheme: String,
    pub host: Option<String>,
    pub has_query: bool,
    pub has_fragment: bool,
    /// The local path the URI names, when it names one.
    pub path: Option<std::path::PathBuf>,
}

/// The parts of `line` parsed as an absolute URL, or `None` where it is not
/// one.
pub uninterp spec fn parsed_uri(line: Seq<char>) -> Option<UriParts>;

/// `url::Url::parse`, read as its scheme (`Url::scheme`), host
/// (`Url::host_str`), whether a query or fragment is present (`Url::query`,
/// `Url::fragment`) and its local path (`Url::to_file_path`). The result is
/// named, as a function of the line alone; nothing more is stated of it.
#[verifier::external_body]
fn parse_uri(line: &str) -> (r: Option<UriParts>)
    ensures
        r == parsed_uri(line@),
{
    match url::Url::parse(line) {
        Ok(uri) => Some(UriParts {
            scheme: uri.scheme().to_owned(),
            host: uri.host_str().map(|host| host.to_owned()),
            has_query: uri.query().is_some(),
            has_fragment: uri.fragment().is_some(),
            path: uri.to_file_path().ok(),
        }),
        Err(_) => None,
    }
}

/// `std::str::from_utf8`, owned: text exactly when the bytes are valid UTF-8,
/// and then the characters they encode.
#[verifier::external_body]
fn decode_text(bytes: &[u8]) -> (r: Option<String>)
    ensures
        r is Some <==> valid_utf8(bytes@),
        r matches Some(s) ==> s@ == decode_utf8(bytes@),
{
    std::str::from_utf8(bytes).ok().map(|text| text.to_owned())
}

/// The URI lines of a `text/uri-list`: each line trimmed, blank lines and
/// `#` comments left out.
pub open spec fn uri_lines(pieces: Seq<Seq<char>>) -> Seq<Seq<char>>
    decreases pieces.len(),
{
    if pieces.len() == 0 {
        Seq::empty()
    } else {
        let rest = uri_lines(pieces.drop_last());
        let line = trim(pieces.last());
        if line.len() > 0 && line[0] != '#' {
            rest.push(line)
        } else {
            rest
        }
    }
}

/// The URI lines of the clipboard text `text`.
pub open spec fn uri_list(text: Seq<char>) -> Seq<Seq<char>> {
    uri_lines(split_on(text, '\n'))
}

/// A URI line accepted as a local file: a `file` URI on no host or
/// `localhost`, without query or fragment, naming a local path.
pub open spec fn uri_verdict(line: Seq<char>) -> Result<std::path::PathBuf, ClipboardError> {
    parts_verdict(parsed_uri(line))
}

/// A parsed URI accepted as a local file: a `file` URI on no host or
/// `localhost`, without query or fragment, naming a local path; a line that
/// did not parse is an invalid URI.
pub open spec fn parts_verdict(parts: Option<UriParts>) -> Result<std::path::PathBuf, ClipboardError> {
    match parts {
        None => Err(ClipboardError::InvalidUri),
        Some(u) => {
            if !(u.scheme@ == "file"@ && (u.host matches Some(h) ==> h@ == "localhost"@)) {
                Err(ClipboardError::NotLocal)
            } else if u.has_query || u.has_fragment {
                Err(ClipboardError::QueryOrFragment)
            } else {
                match u.path {
                    Some(p) => Ok(p),
                    None => Err(ClipboardError::InvalidPath),
                }
            }
        },
    }
}

/// Checks a parsed URI line: only a `file` URI on no host or `localhost`,
/// without query or fragment, that names a local path is a local file.
pub fn check_uri(parts: Option<UriParts>) -> (r: Result<std::path::PathBuf, ClipboardError>)
    ensures
        r == parts_verdict(parts),
{
    match parts {
        None => Err(ClipboardError::InvalidUri),
        Some(u) => {
            let local = match &u.host {
                None => true,
                Some(h) => str_eq(h.as_str(), "localhost"),
            };
            if !(str_eq(u.scheme.as_str(), "file") && local) {
                Err(ClipboardError::NotLocal)
            } else if u.has_query || u.has_fragment {
                Err(ClipboardError::QueryOrFragment)
            } else {
                match u.path {
                    Some(p) => Ok(p),
                    None => Err(ClipboardError::InvalidPath),
                }
            }
        },
    }
}

/// The files a URI list names, up to its first refused line.
#[derive(Debug)]
pub struct UriList {
    /// The paths of the lines before the first refused one, in order.
    pub paths: Vec<std::path::PathBuf>,
    /// Why the list stops short, if it does; a list of no URIs at all is
    /// refused as naming no local files.
    pub error: Option<ClipboardError>,
}

/// `list` resolves the URI `lines`.
pub open spec fn resolves(lines: Seq<Seq<char>>, list: UriList) -> bool {
    let n = list.paths@.len();
    &&& n <= lines.len()
    &&& forall|i: int| 0 <= i < n ==> uri_verdict(#[trigger] lines[i]) == Ok::<
        std::path::PathBuf,
        ClipboardError,
    >(list.paths@[i])
    &&& if n < lines.len() {
        uri_verdict(lines[n as int]) matches Err(e) && list.error == Some(e)
    } else if lines.len() == 0 {
        list.error == Some(ClipboardError::NoLocalFiles)
    } else {
        list.error is None
    }
}

/// Resolves the lines of a `text/uri-list` clipboard to local paths.
pub fn file_uris(text: &str) -> (r: UriList)
    ensures
        resolves(uri_list(text@), r),
{
    let chars = chars_of(text);
    let pieces = split_chars(chars.as_slice(), '\n', 0);
    assert(chars@.subrange(0, chars@.len() as int) =~= chars@);
    let ghost all = views(pieces@);
    let mut lines: Vec<Vec<char>> = Vec::new();
    let mut i: usize = 0;
    while i < pieces.len()
        invariant
            all == views(pieces@),
            all == split_on(text@, '\n'),
            i <= pieces@.len(),
            views(lines@) == uri_lines(all.subrange(0, i as int)),
        decreases pieces@.len() - i,
    {
        let line = trim_chars(pieces[i].as_slice());
        assert(all.subrange(0, i + 1).drop_last() =~= all.subrange(0, i as int));
        assert(all[i as int] == pieces@[i as int]@);
        if line.len() > 0 && line[0] != '#' {
            lines.push(line);
            assert(views(lines@) =~= uri_lines(all.subrange(0, i + 1)));
        } else {
            assert(views(lines@) =~= uri_lines(all.subrange(0, i + 1)));
        }
        i += 1;
    }
    assert(all.subrange(0, pieces@.len() as int) =~= all);
    let ghost ls = views(lines@);
    let mut paths: Vec<std::path::PathBuf> = Vec::new();
    let mut k: usize = 0;
    while k < lines.len()
        invariant
            ls == views(lines@),
            ls == uri_list(text@),
            k <= lines@.len(),
            paths@.len() == k,
            forall|j: int| 0 <= j < k ==> uri_verdict(#[trigger] ls[j]) == Ok::<
                std::path::PathBuf,
                ClipboardError,
            >(paths@[j]),
        decreases lines@.len() - k,
    {
        let line = string_of(lines[k].as_slice());
        assert(ls[k as int] == lines@[k as int]@);
        let verdict = check_uri(parse_uri(line.as_str()));
        match verdict {
            Ok(p) => {
                paths.push(p);
            },
            Err(e) => {
                return UriList { paths, error: Some(e) };
            },
        }
        k += 1;
    }
    let error = if lines.len() == 0 {
        Some(ClipboardError::NoLocalFiles)
    } else {
        None
    };
    UriList { paths, error }
}

/// What the clipboard bytes hold once checked.
#[derive(Debug)]
pub enum Offer {
    /// Local files, as far as the URI list resolves.
    Files(UriList),
    /// Text, newlines and all.
    Text(String),
    /// Media to be written to a private temporary file named by `prefix`,
    /// random characters and `suffix`.
    Media { prefix: String, suffix: String },
}

/// The name parts of a temporary file for clipboard media: `screenshot-` for
/// images and `video-` for videos, then the extension of the media type.
pub fn temporary_affixes(kind: &ClipboardKind) -> (r: Result<(String, String), ClipboardError>)
    ensures
        match extension_of(mime_of(kind@)) {
            None => r == Err::<(String, String), ClipboardError>(ClipboardError::UnsupportedMedia),
            Some(e) => r matches Ok((prefix, suffix)) && prefix@ == (if kind@ is Image {
                "screenshot-"@
            } else {
                "video-"@
            }) && suffix@ == seq!['.'] + e,
        },
{
    match kind.extension() {
        None => Err(ClipboardError::UnsupportedMedia),
        Some(extension) => {
            let prefix = match kind {
                ClipboardKind::Image(_) => "screenshot-".to_owned(),
                _ => "video-".to_owned(),
            };
            let mut suffix: Vec<char> = Vec::new();
            suffix.push('.');
            let tail = chars_of(extension);
            let mut i: usize = 0;
            while i < tail.len()
                invariant
                    i <= tail@.len(),
                    suffix@ == seq!['.'] + tail@.subrange(0, i as int),
                decreases tail@.len() - i,
            {
                suffix.push(tail[i]);
                assert(seq!['.'] + tail@.subrange(0, i + 1) =~= (seq!['.'] + tail@.subrange(0, i as int)).push(tail@[i as int]));
                i += 1;
            }
            assert(tail@.subrange(0, tail@.len() as int) =~= tail@);
            Ok((prefix, string_of(suffix.as_slice())))
        },
    }
}

/// What `read_offer` makes of clipboard bytes read as `kind`.
pub open spec fn offer_of(kind: KindView, data: Seq<u8>, r: Result<Offer, ClipboardError>) -> bool {
    if data.len() == 0 {
        r == Err::<Offer, ClipboardError>(ClipboardError::Empty)
    } else {
        match kind {
            KindView::Files => if !valid_utf8(data) {
                r == Err::<Offer, ClipboardError>(ClipboardError::FilesNotUtf8)
            } else {
                r matches Ok(Offer::Files(list)) && resolves(uri_list(decode_utf8(data)), list)
            },
            KindView::Text(_) => if !valid_utf8(data) {
                r == Err::<Offer, ClipboardError>(ClipboardError::TextNotUtf8)
            } else {
                r matches Ok(Offer::Text(t)) && t@ == decode_utf8(data)
            },
            _ => match extension_of(mime_of(kind)) {
                None => r == Err::<Offer, ClipboardError>(ClipboardError::UnsupportedMedia),
                Some(e) => r matches Ok(Offer::Media { prefix, suffix }) && prefix@ == (
                if kind is Image {
                    "screenshot-"@
                } else {
                    "video-"@
                }) && suffix@ == seq!['.'] + e,
            },
        }
    }
}

/// Checks the clipboard bytes read as `kind`: they must not be empty; file
/// lists and text must be UTF-8, and file lists resolve to local paths.
pub fn read_offer(kind: &ClipboardKind, data: &[u8]) -> (r: Result<Offer, ClipboardError>)
    ensures
        offer_of(kind@, data@, r),
{
    if data.len() == 0 {
        return Err(ClipboardError::Empty);
    }
    match kind {
        ClipboardKind::Files => match decode_text(data) {
            None => Err(ClipboardError::FilesNotUtf8),
            Some(text) => Ok(Offer::Files(file_uris(text.as_str()))),
        },
        ClipboardKind::Text(_) => match decode_text(data) {
            None => Err(ClipboardError::TextNotUtf8),
            Some(text) => Ok(Offer::Text(text)),
        },
        _ => match temporary_affixes(kind) {
            Err(e) => Err(e),
            Ok((prefix, suffix)) => Ok(Offer::Media { prefix, suffix }),
        },
    }
}

/// Whether the clipboard offers any supported image or video type.
pub open spec fn offers_media(types: Seq<Seq<char>>) -> bool {
    ||| types.contains("image/png"@)
    ||| types.contains("image/jpeg"@)
    ||| types.contains("image/webp"@)
    ||| types.contains("image/gif"@)
    ||| types.contains("image/bmp"@)
    ||| types.contains("image/tiff"@)
    ||| types.contains("video/mp4"@)
    ||| types.contains("video/webm"@)
    ||| types.contains("video/quicktime"@)
    ||| types.contains("video/x-matroska"@)
}

/// A clipboard that offers an image or a video is never read as text,
/// whatever text alternatives it also offers.
pub proof fn media_is_never_read_as_text(types: Seq<Seq<char>>)
    requires
        offers_media(types),
    ensures
        selected(types) matches Some(k) && !(k is Text),
{
}

/// A file list takes precedence over everything else on the clipboard.
pub proof fn file_lists_come_first(types: Seq<Seq<char>>)
    requires
        types.contains("text/uri-list"@),
    ensures
        selected(types) == Some(KindView::Files),
{
}

/// The clipboard types in order of preference: a file list, the image
/// types, the video types, then the text types.
pub open spec fn preference() -> Seq<Seq<char>> {
    seq!["text/uri-list"@, "image/png"@, "image/jpeg"@, "image/webp"@, "image/gif"@, "image/bmp"@, "image/tiff"@, "video/mp4"@, "video/webm"@, "video/quicktime"@, "video/x-matroska"@, "text/plain;charset=utf-8"@, "text/plain"@, "UTF8_STRING"@]
}

/// The kind of the type at place `r` of the preference order.
pub open spec fn kind_at(k: KindView, r: int) -> bool {
    &&& (k is Files <==> r == 0)
    &&& (k is Image <==> 1 <= r <= 6)
    &&& (k is Video <==> 7 <= r <= 10)
    &&& (k is Text <==> 11 <= r <= 13)
}

/// The choice is the offered type that comes first in the order of
/// preference, read as the kind its place names; with no preferred type on
/// offer there is no choice.
pub proof fn selection_takes_the_most_preferred_type(types: Seq<Seq<char>>)
    ensures
        match selected(types) {
            Some(k) => exists|r: int|
                0 <= r < preference().len() && #[trigger] preference()[r] == mime_of(k) && types.contains(preference()[r])
                    && (forall|j: int| 0 <= j < r ==> !types.contains(#[trigger] preference()[j])) && kind_at(k, r),
            None => forall|j: int| 0 <= j < preference().len() ==> !types.contains(#[trigger] preference()[j]),
        },
{
    let p = preference();
    assert(p[0] == "text/uri-list"@);
    assert(p[1] == "image/png"@);
    assert(p[2] == "image/jpeg"@);
    assert(p[3] == "image/webp"@);
    assert(p[4] == "image/gif"@);
    assert(p[5] == "image/bmp"@);
    assert(p[6] == "image/tiff"@);
    assert(p[7] == "video/mp4"@);
    assert(p[8] == "video/webm"@);
    assert(p[9] == "video/quicktime"@);
    assert(p[10] == "video/x-matroska"@);
    assert(p[11] == "text/plain;charset=utf-8"@);
    assert(p[12] == "text/plain"@);
    assert(p[13] == "UTF8_STRING"@);
    if types.contains("text/uri-list"@) {
        assert forall|j: int| 0 <= j < 0 implies !types.contains(#[trigger] p[j]) by {
        }
        assert(p[0] == mime_of(selected(types)->0));
    } else if types.contains("image/png"@) {
        assert forall|j: int| 0 <= j < 1 implies !types.contains(#[trigger] p[j]) by {
            if j == 0 {}
        }
        assert(p[1] == mime_of(selected(types)->0));
    } else if types.contains("image/jpeg"@) {
        assert forall|j: int| 0 <= j < 2 implies !types.contains(#[trigger] p[j]) by {
            if j == 0 {}
            if j == 1 {}
        }
        assert(p[2] == mime_of(selected(types)->0));
    } else if types.contains("image/webp"@) {
        assert forall|j: int| 0 <= j < 3 implies !types.contains(#[trigger] p[j]) by {
            if j == 0 {}
            if j == 1 {}
            if j == 2 {}
        }
        assert(p[3] == mime_of(selected(types)->0));
    } else if types.contains("image/gif"@) {
        assert forall|j: int| 0 <= j < 4 implies !types.contains(#[trigger] p[j]) by {
            if j == 0 {}
            if j == 1 {}
            if j == 2 {}
            if j == 3 {}
        }
        assert(p[4] == mime_of(selected(types)->0));
    } else if types.contains("image/bmp"@) {
        assert forall|j: int| 0 <= j < 5 implies !types.contains(#[trigger] p[j]) by {
            if j == 0 {}
            if j == 1 {}
            if j == 2 {}
            if j == 3 {}
            if j == 4 {}
        }
        assert(p[5] == mime_of(selected(types)->0));
    } else if types.contains("image/tiff"@) {
        assert forall|j: int| 0 <= j < 6 implies !types.contains(#[trigger] p[j]) by {
            if j == 0 {}
            if j == 1 {}
            if j == 2 {}
            if j == 3 {}
            if j == 4 {}
            if j == 5 {}
        }
        assert(p[6] == mime_of(selected(types)->0));
    } else if types.contains("video/mp4"@) {
        assert forall|j: int| 0 <= j < 7 implies !types.contains(#[trigger] p[j]) by {
            if j == 0 {}
            if j == 1 {}
            if j == 2 {}
            if j == 3 {}
            if j == 4 {}
            if j == 5 {}
            if j == 6 {}
        }
        assert(p[7] == mime_of(selected(types)->0));
    } else if types.contains("video/webm"@) {
        assert forall|j: int| 0 <= j < 8 implies !types.contains(#[trigger] p[j]) by {
            if j == 0 {}
            if j == 1 {}
            if j == 2 {}
            if j == 3 {}
            if j == 4 {}
            if j == 5 {}
            if j == 6 {}
            if j == 7 {}
        }
        assert(p[8] == mime_of(selected(types)->0));
    } else if types.contains("video/quicktime"@) {
        assert forall|j: int| 0 <= j < 9 implies !types.contains(#[trigger] p[j]) by {
            if j == 0 {}
            if j == 1 {}
            if j == 2 {}
            if j == 3 {}
            if j == 4 {}
            if j == 5 {}
            if j == 6 {}
            if j == 7 {}
            if j == 8 {}
        }
        assert(p[9] == mime_of(selected(types)->0));
    } else if types.contains("video/x-matroska"@) {
        assert forall|j: int| 0 <= j < 10 implies !types.contains(#[trigger] p[j]) by {
            if j == 0 {}
            if j == 1 {}
            if j == 2 {}
            if j == 3 {}
            if j == 4 {}
            if j == 5 {}
            if j == 6 {}
            if j == 7 {}
            if j == 8 {}
            if j == 9 {}
        }
        assert(p[10] == mime_of(selected(types)->0));
    } else if types.contains("text/plain;charset=utf-8"@) {
        assert forall|j: int| 0 <= j < 11 implies !types.contains(#[trigger] p[j]) by {
            if j == 0 {}
            if j == 1 {}
            if j == 2 {}
            if j == 3 {}
            if j == 4 {}
            if j == 5 {}
            if j == 6 {}
            if j == 7 {}
            if j == 8 {}
            if j == 9 {}
            if j == 10 {}
        }
        assert(p[11] == mime_of(selected(types)->0));
    } else if types.contains("text/plain"@) {
        assert forall|j: int| 0 <= j < 12 implies !types.contains(#[trigger] p[j]) by {
            if j == 0 {}
            if j == 1 {}
            if j == 2 {}
            if j == 3 {}
            if j == 4 {}
            if j == 5 {}
            if j == 6 {}
            if j == 7 {}
            if j == 8 {}
            if j == 9 {}
            if j == 10 {}
            if j == 11 {}
        }
        assert(p[12] == mime_of(selected(types)->0));
    } else if types.contains("UTF8_STRING"@) {
        assert forall|j: int| 0 <= j < 13 implies !types.contains(#[trigger] p[j]) by {
            if j == 0 {}
            if j == 1 {}
            if j == 2 {}
            if j == 3 {}
            if j == 4 {}
            if j == 5 {}
            if j == 6 {}
            if j == 7 {}
            if j == 8 {}
            if j == 9 {}
            if j == 10 {}
            if j == 11 {}
            if j == 12 {}
        }
        assert(p[13] == mime_of(selected(types)->0));
    } else {
        assert forall|j: int| 0 <= j < p.len() implies !types.contains(#[trigger] p[j]) by {
            if j == 0 {}
            if j == 1 {}
            if j == 2 {}
            if j == 3 {}
            if j == 4 {}
            if j == 5 {}
            if j == 6 {}
            if j == 7 {}
            if j == 8 {}
            if j == 9 {}
            if j == 10 {}
            if j == 11 {}
            if j == 12 {}
            if j == 13 {}
        }
    }
}

/// What is chosen depends only on which types are offered, not on their
/// order or on repeats.
pub proof fn selection_ignores_order_and_repeats(a: Seq<Seq<char>>, b: Seq<Seq<char>>)
    requires
        forall|x: Seq<char>| a.contains(x) <==> b.contains(x),
    ensures
        selected(a) == selected(b),
{
    assert(a.contains("text/uri-list"@) <==> b.contains("text/uri-list"@));
    assert(a.contains("image/png"@) <==> b.contains("image/png"@));
    assert(a.contains("image/jpeg"@) <==> b.contains("image/jpeg"@));
    assert(a.contains("image/webp"@) <==> b.contains("image/webp"@));
    assert(a.contains("image/gif"@) <==> b.contains("image/gif"@));
    assert(a.contains("image/bmp"@) <==> b.contains("image/bmp"@));
    assert(a.contains("image/tiff"@) <==> b.contains("image/tiff"@));
    assert(a.contains("video/mp4"@) <==> b.contains("video/mp4"@));
    assert(a.contains("video/webm"@) <==> b.contains("video/webm"@));
    assert(a.contains("video/quicktime"@) <==> b.contains("video/quicktime"@));
    assert(a.contains("video/x-matroska"@) <==> b.contains("video/x-matroska"@));
    assert(a.contains("text/plain;charset=utf-8"@) <==> b.contains("text/plain;charset=utf-8"@));
    assert(a.contains("text/plain"@) <==> b.contains("text/plain"@));
    assert(a.contains("UTF8_STRING"@) <==> b.contains("UTF8_STRING"@));
}

/// Chosen images and videos always have a file extension, so clipboard
/// media can always be named.
pub proof fn chosen_media_has_an_extension(types: Seq<Seq<char>>)
    ensures
        match selected(types) {
            Some(k) => (k is Image || k is Video) ==> extension_of(mime_of(k)) is Some,
            None => true,
        },
{
}

/// Distinct media types get distinct file extensions, so the name of a
/// temporary media file tells its format: a JPEG is never saved under the
/// extension of a PNG, nor a video under that of an image.
pub proof fn media_extensions_tell_formats_apart(a: Seq<char>, b: Seq<char>)
    requires
        extension_of(a) is Some,
        extension_of(a) == extension_of(b),
    ensures
        a == b,
{
    reveal_strlit("png");
    reveal_strlit("jpg");
    reveal_strlit("webp");
    reveal_strlit("gif");
    reveal_strlit("bmp");
    reveal_strlit("tiff");
    reveal_strlit("mp4");
    reveal_strlit("webm");
    reveal_strlit("mov");
    reveal_strlit("mkv");
    assert("png"@ != "jpg"@) by { assert("png"@[0] != "jpg"@[0]); }
    assert("png"@ != "webp"@) by { assert("png"@.len() != "webp"@.len()); }
    assert("png"@ != "gif"@) by { assert("png"@[0] != "gif"@[0]); }
    assert("png"@ != "bmp"@) by { assert("png"@[0] != "bmp"@[0]); }
    assert("png"@ != "tiff"@) by { assert("png"@.len() != "tiff"@.len()); }
    assert("png"@ != "mp4"@) by { assert("png"@[0] != "mp4"@[0]); }
    assert("png"@ != "webm"@) by { assert("png"@.len() != "webm"@.len()); }
    assert("png"@ != "mov"@) by { assert("png"@[0] != "mov"@[0]); }
    assert("png"@ != "mkv"@) by { assert("png"@[0] != "mkv"@[0]); }
    assert("jpg"@ != "webp"@) by { assert("jpg"@.len() != "webp"@.len()); }
    assert("jpg"@ != "gif"@) by { assert("jpg"@[0] != "gif"@[0]); }
    assert("jpg"@ != "bmp"@) by { assert("jpg"@[0] != "bmp"@[0]); }
    assert("jpg"@ != "tiff"@) by { assert("jpg"@.len() != "tiff"@.len()); }
    assert("jpg"@ != "mp4"@) by { assert("jpg"@[0] != "mp4"@[0]); }
    assert("jpg"@ != "webm"@) by { assert("jpg"@.len() != "webm"@.len()); }
    assert("jpg"@ != "mov"@) by { assert("jpg"@[0] != "mov"@[0]); }
    assert("jpg"@ != "mkv"@) by { assert("jpg"@[0] != "mkv"@[0]); }
    assert("webp"@ != "gif"@) by { assert("webp"@.len() != "gif"@.len()); }
    assert("webp"@ != "bmp"@) by { assert("webp"@.len() != "bmp"@.len()); }
    assert("webp"@ != "tiff"@) by { assert("webp"@[0] != "tiff"@[0]); }
    assert("webp"@ != "mp4"@) by { assert("webp"@.len() != "mp4"@.len()); }
    assert("webp"@ != "webm"@) by { assert("webp"@[3] != "webm"@[3]); }
    assert("webp"@ != "mov"@) by { assert("webp"@.len() != "mov"@.len()); }
    assert("webp"@ != "mkv"@) by { assert("webp"@.len() != "mkv"@.len()); }
    assert("gif"@ != "bmp"@) by { assert("gif"@[0] != "bmp"@[0]); }
    assert("gif"@ != "tiff"@) by { assert("gif"@.len() != "tiff"@.len()); }
    assert("gif"@ != "mp4"@) by { assert("gif"@[0] != "mp4"@[0]); }
    assert("gif"@ != "webm"@) by { assert("gif"@.len() != "webm"@.len()); }
    assert("gif"@ != "mov"@) by { assert("gif"@[0] != "mov"@[0]); }
    assert("gif"@ != "mkv"@) by { assert("gif"@[0] != "mkv"@[0]); }
    assert("bmp"@ != "tiff"@) by { assert("bmp"@.len() != "tiff"@.len()); }
    assert("bmp"@ != "mp4"@) by { assert("bmp"@[0] != "mp4"@[0]); }
    assert("bmp"@ != "webm"@) by { assert("bmp"@.len() != "webm"@.len()); }
    assert("bmp"@ != "mov"@) by { assert("bmp"@[0] != "mov"@[0]); }
    assert("bmp"@ != "mkv"@) by { assert("bmp"@[0] != "mkv"@[0]); }
    assert("tiff"@ != "mp4"@) by { assert("tiff"@.len() != "mp4"@.len()); }
    assert("tiff"@ != "webm"@) by { assert("tiff"@[0] != "webm"@[0]); }
    assert("tiff"@ != "mov"@) by { assert("tiff"@.len() != "mov"@.len()); }
    assert("tiff"@ != "mkv"@) by { assert("tiff"@.len() != "mkv"@.len()); }
    assert("mp4"@ != "webm"@) by { assert("mp4"@.len() != "webm"@.len()); }
    assert("mp4"@ != "mov"@) by { assert("mp4"@[1] != "mov"@[1]); }
    assert("mp4"@ != "mkv"@) by { assert("mp4"@[1] != "mkv"@[1]); }
    assert("webm"@ != "mov"@) by { assert("webm"@.len() != "mov"@.len()); }
    assert("webm"@ != "mkv"@) by { assert("webm"@.len() != "mkv"@.len()); }
    assert("mov"@ != "mkv"@) by { assert("mov"@[1] != "mkv"@[1]); }
    let e = extension_of(a)->0;
    if e == "png"@ {
        assert(a == "image/png"@);
        assert(b == "image/png"@);
    } else if e == "jpg"@ {
        assert(a == "image/jpeg"@);
        assert(b == "image/jpeg"@);
    } else if e == "webp"@ {
        assert(a == "image/webp"@);
        assert(b == "image/webp"@);
    } else if e == "gif"@ {
        assert(a == "image/gif"@);
        assert(b == "image/gif"@);
    } else if e == "bmp"@ {
        assert(a == "image/bmp"@);
        assert(b == "image/bmp"@);
    } else if e == "tiff"@ {
        assert(a == "image/tiff"@);
        assert(b == "image/tiff"@);
    } else if e == "mp4"@ {
        assert(a == "video/mp4"@);
        assert(b == "video/mp4"@);
    } else if e == "webm"@ {
        assert(a == "video/webm"@);
        assert(b == "video/webm"@);
    } else if e == "mov"@ {
        assert(a == "video/quicktime"@);
        assert(b == "video/quicktime"@);
    } else if e == "mkv"@ {
        assert(a == "video/x-matroska"@);
        assert(b == "video/x-matroska"@);
    }
}

/// Every media type's extension is the one its format is known by: its own
/// subtype, shortened for JPEG (`jpg`), QuickTime (`mov`) and Matroska
/// (`mkv`).
pub proof fn media_extensions_follow_the_subtype(m: Seq<char>)
    requires
        extension_of(m) is Some,
    ensures
        m == "image/"@ + extension_of(m)->0 || m == "video/"@ + extension_of(m)->0
            || (m == "image/jpeg"@ && extension_of(m)->0 == "jpg"@)
            || (m == "video/quicktime"@ && extension_of(m)->0 == "mov"@)
            || (m == "video/x-matroska"@ && extension_of(m)->0 == "mkv"@),
{
    reveal_strlit("png");
    reveal_strlit("jpg");
    reveal_strlit("webp");
    reveal_strlit("gif");
    reveal_strlit("bmp");
    reveal_strlit("tiff");
    reveal_strlit("mp4");
    reveal_strlit("webm");
    reveal_strlit("mov");
    reveal_strlit("mkv");
    reveal_strlit("image/");
    reveal_strlit("video/");
    reveal_strlit("image/png");
    reveal_strlit("image/webp");
    reveal_strlit("image/gif");
    reveal_strlit("image/bmp");
    reveal_strlit("image/tiff");
    reveal_strlit("video/mp4");
    reveal_strlit("video/webm");
    assert("image/png"@ =~= "image/"@ + "png"@);
    assert("image/webp"@ =~= "image/"@ + "webp"@);
    assert("image/gif"@ =~= "image/"@ + "gif"@);
    assert("image/bmp"@ =~= "image/"@ + "bmp"@);
    assert("image/tiff"@ =~= "image/"@ + "tiff"@);
    assert("video/mp4"@ =~= "video/"@ + "mp4"@);
    assert("video/webm"@ =~= "video/"@ + "webm"@);
}

} // verus!
