//! Loading a module: where its source comes from, and the form in which it is handed out.

use base64::Engine;
use vstd::prelude::*;
use vstd::string::*;
use vstd::utf8::*;

use crate::byte_path::{path_views, text_units, units_of, BytePath};
use crate::eszip::section::ModuleKind;
use crate::paths::{join_path, joined};
use crate::text::{after_prefix, cut_at, finishes_with, first_index, join, same};
use crate::urls::{
    file_path, join_url, parse_url, scheme_of, url_file_path, url_joined, url_parsed,
};

verus! {

/// The type under which a module is handed out.
#[derive(Debug, Clone, Copy, PartialEq, Eq, Structural)]
pub enum ModuleType {
    JavaScript,
    Json,
    Wasm,
}

/// The source of a module.
#[derive(Debug)]
pub enum Code {
    Text(String),
    Bytes(Vec<u8>),
}

#[derive(Debug)]
pub struct ModuleSource {
    pub module_type: ModuleType,
    pub code: Code,
}

/// [`Code`], taken by view.
pub enum CodeView {
    Text(Seq<char>),
    Bytes(Seq<u8>),
}

impl View for Code {
    type V = CodeView;

    open spec fn view(&self) -> CodeView {
        match self {
            Code::Text(s) => CodeView::Text(s@),
            Code::Bytes(b) => CodeView::Bytes(b@),
        }
    }
}

/// Why a module does not load.
#[derive(Debug, Clone, Copy, PartialEq, Eq, Structural)]
pub enum LoadError {
    NotFound,
    NotUtf8,
    JsoncNotSupported,
    InvalidDataUrl,
    UndecodableDataUrl,
    DataUrlNotUtf8,
    /// The package that holds it could not load it.
    PackageFailed,
    /// Whether it is CommonJS could not be found out.
    UnknownForm,
    SourceUnreadable,
    SourceMapUnreadable,
    ParseFailed,
    TranspileFailed,
    /// It is CommonJS and could not be translated.
    TranslateFailed,
}

impl LoadError {
    /// The message for the module `specifier`; `detail` is what the part that failed said.
    pub open spec fn text(self, specifier: Seq<char>, detail: Seq<char>) -> Seq<char> {
        match self {
            LoadError::NotFound => "Module not found: "@ + specifier,
            LoadError::NotUtf8 => "Module source is not utf-8"@,
            LoadError::JsoncNotSupported => "jsonc modules not supported"@,
            LoadError::InvalidDataUrl => "Invalid data URL: "@ + detail,
            LoadError::UndecodableDataUrl => "Failed to decode data URL: "@ + detail,
            LoadError::DataUrlNotUtf8 => "Data URL is not valid UTF-8: "@ + detail,
            LoadError::PackageFailed => detail,
            LoadError::UnknownForm => detail,
            LoadError::SourceUnreadable => "failed to read module source for "@ + specifier + ": "@
                + detail,
            LoadError::SourceMapUnreadable => "failed to read the source map for "@ + specifier
                + ": "@ + detail,
            LoadError::ParseFailed => "Failed to parse "@ + specifier + ": "@ + detail,
            LoadError::TranspileFailed => "Failed to transpile "@ + specifier + ": "@ + detail,
            LoadError::TranslateFailed => detail,
        }
    }

    pub fn message(&self, specifier: &str, detail: &str) -> (r: String)
        ensures
            r@ == self.text(specifier@, detail@),
    {
        match self {
            LoadError::NotFound => join("Module not found: ", specifier),
            LoadError::NotUtf8 => "Module source is not utf-8".to_owned(),
            LoadError::JsoncNotSupported => "jsonc modules not supported".to_owned(),
            LoadError::InvalidDataUrl => join("Invalid data URL: ", detail),
            LoadError::UndecodableDataUrl => join("Failed to decode data URL: ", detail),
            LoadError::DataUrlNotUtf8 => join("Data URL is not valid UTF-8: ", detail),
            LoadError::PackageFailed => detail.to_owned(),
            LoadError::UnknownForm => detail.to_owned(),
            LoadError::SourceUnreadable => about(
                "failed to read module source for ",
                specifier,
                detail,
            ),
            LoadError::SourceMapUnreadable => about(
                "failed to read the source map for ",
                specifier,
                detail,
            ),
            LoadError::ParseFailed => about("Failed to parse ", specifier, detail),
            LoadError::TranspileFailed => about("Failed to transpile ", specifier, detail),
            LoadError::TranslateFailed => detail.to_owned(),
        }
    }
}

fn about(what: &str, specifier: &str, detail: &str) -> (r: String)
    ensures
        r@ == what@ + specifier@ + ": "@ + detail@,
{
    let a = join(what, specifier);
    let b = join(a.as_str(), ": ");
    join(b.as_str(), detail)
}

// ---------------------------------------------------------------------------
// Text
// ---------------------------------------------------------------------------

/// `String::from_utf8` takes bytes for text exactly where they are valid UTF-8, and keeps them.
#[verifier::external_body]
pub(crate) fn text_from_utf8(bytes: Vec<u8>) -> (r: Option<String>)
    ensures
        r is Some == valid_utf8(bytes@),
        r matches Some(s) ==> encode_utf8(s@) == bytes@,
{
    String::from_utf8(bytes).ok()
}

// ---------------------------------------------------------------------------
// Data URLs
// ---------------------------------------------------------------------------

/// What is wrong with a data URL.
#[derive(Debug, Clone, Copy, PartialEq, Eq, Structural)]
pub enum DataUrlFault {
    /// It is none.
    Invalid,
    /// Its body is not the Base64 that it claims to be.
    Undecodable,
}

/// Whether a text is a data URL.
pub uninterp spec fn is_data_url(url: Seq<char>) -> bool;

/// `data_url::DataUrl::process` reads a data URL. Whether a text is one depends on the text alone.
#[verifier::external_body]
fn accepts_data_url(url: &str) -> (r: bool)
    ensures
        r == is_data_url(url@),
{
    data_url::DataUrl::process(url).is_ok()
}

/// The body of a data URL, where it can be decoded.
pub uninterp spec fn data_url_body(url: Seq<char>) -> Option<Seq<u8>>;

/// `data_url::DataUrl::decode_to_vec` decodes the body of the data URL that `url` reads as, which
/// depends on the text alone. There is no result where it is none or its body is not the Base64
/// that it claims to be.
#[verifier::external_body]
fn decode_data_url(url: &str) -> (r: Option<Vec<u8>>)
    ensures
        match r {
            Some(b) => data_url_body(url@) == Some(b@),
            None => data_url_body(url@) is None,
        },
{
    let (body, _) = data_url::DataUrl::process(url).ok()?.decode_to_vec().ok()?;
    Some(body)
}

/// The body of a data URL, or what is wrong with it.
pub open spec fn data_url_read(url: Seq<char>) -> Result<Seq<u8>, DataUrlFault> {
    if !is_data_url(url) {
        Err(DataUrlFault::Invalid)
    } else {
        match data_url_body(url) {
            Some(b) => Ok(b),
            None => Err(DataUrlFault::Undecodable),
        }
    }
}

/// Reads a data URL.
fn read_data_url(url: &str) -> (r: Result<Vec<u8>, DataUrlFault>)
    ensures
        match r {
            Ok(b) => data_url_read(url@) == Ok::<Seq<u8>, DataUrlFault>(b@),
            Err(e) => data_url_read(url@) == Err::<Seq<u8>, DataUrlFault>(e),
        },
{
    if !accepts_data_url(url) {
        return Err(DataUrlFault::Invalid);
    }
    match decode_data_url(url) {
        Some(b) => Ok(b),
        None => Err(DataUrlFault::Undecodable),
    }
}

/// The module that the decoded body of a data URL gives.
pub fn data_module(body: Result<Vec<u8>, DataUrlFault>) -> (r: Result<ModuleSource, LoadError>)
    ensures
        match body {
            Ok(b) => if valid_utf8(b@) {
                r matches Ok(m) && m.module_type == ModuleType::JavaScript && m.code is Text
                    && encode_utf8((m.code->Text_0)@) == b@
            } else {
                r is Err && r->Err_0 == LoadError::DataUrlNotUtf8
            },
            Err(DataUrlFault::Invalid) => r is Err && r->Err_0 == LoadError::InvalidDataUrl,
            Err(DataUrlFault::Undecodable) => r is Err && r->Err_0
                == LoadError::UndecodableDataUrl,
        },
{
    match body {
        Ok(b) => match text_from_utf8(b) {
            Some(s) => Ok(ModuleSource { module_type: ModuleType::JavaScript, code: Code::Text(s) }),
            None => Err(LoadError::DataUrlNotUtf8),
        },
        Err(DataUrlFault::Invalid) => Err(LoadError::InvalidDataUrl),
        Err(DataUrlFault::Undecodable) => Err(LoadError::UndecodableDataUrl),
    }
}

/// The module that a data URL holds.
pub fn load_data_url(url: &str) -> (r: Result<ModuleSource, LoadError>)
    ensures
        match data_url_read(url@) {
            Ok(b) => if valid_utf8(b) {
                r matches Ok(m) && m.module_type == ModuleType::JavaScript && m.code is Text
                    && encode_utf8((m.code->Text_0)@) == b
            } else {
                r is Err && r->Err_0 == LoadError::DataUrlNotUtf8
            },
            Err(DataUrlFault::Invalid) => r is Err && r->Err_0 == LoadError::InvalidDataUrl,
            Err(DataUrlFault::Undecodable) => r is Err && r->Err_0
                == LoadError::UndecodableDataUrl,
        },
{
    data_module(read_data_url(url))
}

// ---------------------------------------------------------------------------
// Falling back to the file system
// ---------------------------------------------------------------------------

/// The media type of a module, as far as loading distinguishes it.
#[derive(Debug, Clone, Copy, PartialEq, Eq, Structural)]
pub enum MediaType {
    TypeScript,
    Mts,
    Cts,
    Tsx,
    Json,
    Other,
}

/// The type of a module that a package holds.
pub fn package_module_type(media: MediaType) -> (r: ModuleType)
    ensures
        r == if media == MediaType::Json {
            ModuleType::Json
        } else {
            ModuleType::JavaScript
        },
{
    match media {
        MediaType::Json => ModuleType::Json,
        _ => ModuleType::JavaScript,
    }
}

/// Whether a file of this type is compiled before it is handed out.
pub fn needs_transpile(media: MediaType) -> (r: bool)
    ensures
        r == (media != MediaType::Json && media != MediaType::Other),
{
    match media {
        MediaType::TypeScript | MediaType::Mts | MediaType::Cts | MediaType::Tsx => true,
        _ => false,
    }
}

/// The directory that archives are loaded under.
pub open spec fn archive_root() -> Seq<char> {
    "/var/tmp/sb-compile-trex/"@
}

/// Where in the service's own directory a path under the archive root lies: the part past the
/// first directory below the root.
pub open spec fn service_file(path: Seq<char>, service_path: Seq<char>) -> Option<Seq<char>> {
    if archive_root().is_prefix_of(path) {
        let rest = path.skip(archive_root().len() as int);
        match first_index(rest, '/') {
            Some(i) => Some(joined(service_path, rest.skip(i + 1))),
            None => None,
        }
    } else {
        None
    }
}

/// The text that some bytes are shown as: what is no UTF-8 is replaced.
pub uninterp spec fn lossy_text(bytes: Seq<u8>) -> Seq<char>;

/// `String::from_utf8_lossy` shows bytes as text, which depends on the bytes alone. Valid UTF-8 is
/// shown as it is.
#[verifier::external_body]
fn show_bytes(bytes: &[u8]) -> (r: String)
    ensures
        r@ == lossy_text(bytes@),
        valid_utf8(bytes@) ==> r@ == decode_utf8(bytes@),
{
    String::from_utf8_lossy(bytes).into_owned()
}

/// The paths that a module which the archive lacks is read from, in the order in which they are
/// tried: the path itself, and the file of the service that it is shown as.
pub open spec fn fallback_list(path: Seq<u8>, service_path: Option<Seq<char>>) -> Seq<Seq<char>> {
    match service_path {
        Some(s) => match service_file(lossy_text(path), s) {
            Some(p) => seq![units_of(path), text_units(p)],
            None => seq![units_of(path)],
        },
        None => seq![units_of(path)],
    }
}

/// The paths that a module which the archive lacks is read from: only a `file:` module is, and only
/// where the fallback is not switched off. `path` holds the bytes of the file that its URL names,
/// if it names one.
pub fn fallback_paths(
    disabled: bool,
    scheme: &str,
    path: Option<&[u8]>,
    service_path: Option<&str>,
) -> (r: Vec<BytePath>)
    ensures
        path_views(r@) == stand_ins(
            disabled,
            scheme@,
            match path {
                Some(p) => Some(p@),
                None => None,
            },
            match service_path {
                Some(s) => Some(s@),
                None => None,
            },
        ),
{
    let mut out: Vec<BytePath> = Vec::new();
    assert(path_views(out@) =~= Seq::<Seq<char>>::empty());
    if disabled || !same(scheme, "file") {
        return out;
    }
    match path {
        Some(p) => {
            out.push(BytePath::of_bytes(p));
            assert(path_views(out@) =~= seq![units_of(p@)]);
            match service_path {
                Some(s) => {
                    let shown = show_bytes(p);
                    match after_prefix(shown.as_str(), "/var/tmp/sb-compile-trex/") {
                        Some(rest) => match cut_at(rest, '/') {
                            Some((_, relative)) => {
                                let q = join_path(s, relative.as_str());
                                out.push(BytePath::of_text(q.as_str()));
                                assert(path_views(out@) =~= seq![units_of(p@), text_units(q@)]);
                            },
                            None => {},
                        },
                        None => {},
                    }
                },
                None => {},
            }
            out
        },
        None => out,
    }
}

// ---------------------------------------------------------------------------
// Modules of the archive
// ---------------------------------------------------------------------------

/// The Base64 form of some bytes, in the standard alphabet and padded.
pub uninterp spec fn base64_of(bytes: Seq<u8>) -> Seq<char>;

/// `BASE64_STANDARD.encode_string` appends the Base64 form of the bytes to the string. That form
/// depends on the bytes alone, and has four characters for every three bytes begun.
#[verifier::external_body]
pub(crate) fn append_base64(bytes: &Vec<u8>, out: &mut String)
    ensures
        final(out)@ == old(out)@ + base64_of(bytes@),
        final(out)@.len() == old(out)@.len() + (bytes@.len() + 2) / 3 * 4,
{
    base64::prelude::BASE64_STANDARD.encode_string(bytes, out);
}

/// The comment that carries a source map.
pub open spec fn source_map_prefix() -> Seq<char> {
    "//# sourceMappingURL=data:application/json;base64,"@
}

/// Code with a source map in a comment on a line of its own at its end.
pub open spec fn with_source_map(code: Seq<char>, encoded_map: Seq<char>) -> Seq<char> {
    (if code.len() > 0 && code.last() == '\n' {
        code
    } else {
        code.push('\n')
    }) + source_map_prefix() + encoded_map
}

/// Appends a source map to code.
pub fn append_source_map(code: String, map: &Vec<u8>) -> (r: String)
    ensures
        r@ == with_source_map(code@, base64_of(map@)),
{
    let mut s = code;
    proof {
        reveal_strlit("\n");
        assert("\n"@ =~= seq!['\n']);
        if code@.len() > 0 {
            assert(code@.last() == code@.subrange(code@.len() - 1, code@.len() as int)[0]);
            if code@.last() == '\n' {
                assert(code@.subrange(code@.len() - 1, code@.len() as int) =~= seq!['\n']);
            }
        }
    }
    if !finishes_with(s.as_str(), "\n") {
        s.push('\n');
    }
    let mut t = s.concat("//# sourceMappingURL=data:application/json;base64,");
    append_base64(map, &mut t);
    t
}

/// Whether the source map of a module is looked at.
pub open spec fn wants_source_map(
    kind: ModuleKind,
    is_maybe_cjs: bool,
    include_source_map: bool,
) -> bool {
    include_source_map && !is_maybe_cjs && kind == ModuleKind::JavaScript
}

// ---------------------------------------------------------------------------
// Loading
// ---------------------------------------------------------------------------

/// What a read of the archive gave.
#[derive(Debug)]
pub enum ReadAnswer {
    Failed,
    /// There is nothing to read.
    Missing,
    Bytes(Vec<u8>),
}

/// Why code does not compile.
#[derive(Debug, Clone, Copy, PartialEq, Eq, Structural)]
pub enum CompileFault {
    Parse,
    Transpile,
}

/// A module that the archive has: its key, and the URL that it goes by, which [`found_url`] gives.
#[derive(Debug)]
pub struct WorkspaceEszipModule {
    pub kind: ModuleKind,
    pub key: String,
    pub url: String,
}

/// [`WorkspaceEszipModule`], taken by view.
pub struct FoundView {
    pub kind: ModuleKind,
    pub key: Seq<char>,
    pub url: Seq<char>,
}

impl View for WorkspaceEszipModule {
    type V = FoundView;

    open spec fn view(&self) -> FoundView {
        FoundView { kind: self.kind, key: self.key@, url: self.url@ }
    }
}

/// The URL that a module of an archive goes by: a `file:` module is found under its key from the
/// root of the archive, and any other under its own name.
pub fn found_url(scheme: &str, root_url: &str, key: &str) -> (r: Option<String>)
    ensures
        match r {
            Some(u) => Some(u@) == found_at(scheme@, root_url@, key@),
            None => found_at(scheme@, root_url@, key@) is None,
        },
{
    if same(scheme, "file") {
        join_url(root_url, key)
    } else {
        match parse_url(key) {
            Some(u) => Some(u.text),
            None => None,
        }
    }
}

/// The URL that a module of an archive goes by.
pub open spec fn found_at(scheme: Seq<char>, root_url: Seq<char>, key: Seq<char>) -> Option<
    Seq<char>,
> {
    if scheme == "file"@ {
        url_joined(root_url, key)
    } else {
        match url_parsed(key) {
            Some(u) => Some(u.text),
            None => None,
        }
    }
}

/// What the loading of a module waits for.
#[derive(Debug)]
pub enum LoadStage {
    AskingPackage,
    LoadingPackage,
    Finding,
    ReadingFiles,
    Compiling,
    AskingForm(WorkspaceEszipModule),
    ReadingSource { found: WorkspaceEszipModule, is_maybe_cjs: bool },
    /// The source map of the module with this code and URL.
    ReadingMap { code: String, url: String },
    /// The module with this URL.
    Translating(String),
    Over,
}

/// What the loading of a module is told.
#[derive(Debug)]
pub enum LoadInput {
    /// Whether the module lies in a package.
    InPackage(bool),
    /// What the package gave, and the URL where it found it, if it could load the module.
    PackageLoaded(Option<(MediaType, Code, String)>),
    /// The module that the archive has, if it has it.
    Found(Option<WorkspaceEszipModule>),
    /// The first of the files that could be read, if one could.
    FileRead(Option<(MediaType, String)>),
    Compiled(Result<String, CompileFault>),
    /// Whether the module may be CommonJS, if that could be found out.
    MaybeCjs(Option<bool>),
    SourceRead(ReadAnswer),
    MapRead(ReadAnswer),
    /// The translated code, if it could be translated.
    Translated(Option<String>),
}

/// What is to be done for the module.
#[derive(Debug)]
pub enum LoadAction {
    /// Ask whether it lies in a package.
    AskPackage,
    /// Have the package load it.
    LoadPackage,
    /// Look for it in the archive.
    Find,
    /// Read the first of these files that can be read.
    ReadFiles(Vec<BytePath>),
    /// Compile this code.
    Compile(String),
    /// Ask whether it may be CommonJS, given that it was found at this URL.
    AskForm(String),
    /// Read the source under this key from the archive.
    ReadSource(String),
    /// Read the source map under this key from the archive.
    ReadMap(String),
    /// Translate this code, of the module at this URL, from CommonJS.
    Translate { code: String, url: String },
    /// Hand it out, as found at a URL of its own where there is one. A source map that comes with
    /// it is to be kept for it.
    Done { source: ModuleSource, found_at: Option<String>, map: Option<Vec<u8>> },
    Fail(LoadError),
}

/// [`LoadStage`], taken by view.
pub enum StageView {
    AskingPackage,
    LoadingPackage,
    Finding,
    ReadingFiles,
    Compiling,
    AskingForm(FoundView),
    ReadingSource { found: FoundView, is_maybe_cjs: bool },
    ReadingMap { code: Seq<char>, url: Seq<char> },
    Translating(Seq<char>),
    Over,
}

/// [`LoadAction`], taken by view.
pub enum ActionView {
    AskPackage,
    LoadPackage,
    Find,
    ReadFiles(Seq<Seq<char>>),
    Compile(Seq<char>),
    AskForm(Seq<char>),
    ReadSource(Seq<char>),
    ReadMap(Seq<char>),
    Translate { text: Seq<char>, url: Seq<char> },
    Done {
        module_type: ModuleType,
        code: CodeView,
        found_at: Option<Seq<char>>,
        map: Option<Seq<u8>>,
    },
    Fail(LoadError),
}

impl View for LoadStage {
    type V = StageView;

    open spec fn view(&self) -> StageView {
        match self {
            LoadStage::AskingPackage => StageView::AskingPackage,
            LoadStage::LoadingPackage => StageView::LoadingPackage,
            LoadStage::Finding => StageView::Finding,
            LoadStage::ReadingFiles => StageView::ReadingFiles,
            LoadStage::Compiling => StageView::Compiling,
            LoadStage::AskingForm(f) => StageView::AskingForm(f@),
            LoadStage::ReadingSource { found, is_maybe_cjs } => StageView::ReadingSource {
                found: found@,
                is_maybe_cjs: *is_maybe_cjs,
            },
            LoadStage::ReadingMap { code, url } => StageView::ReadingMap { code: code@, url: url@ },
            LoadStage::Translating(url) => StageView::Translating(url@),
            LoadStage::Over => StageView::Over,
        }
    }
}

impl View for LoadAction {
    type V = ActionView;

    open spec fn view(&self) -> ActionView {
        match self {
            LoadAction::AskPackage => ActionView::AskPackage,
            LoadAction::LoadPackage => ActionView::LoadPackage,
            LoadAction::Find => ActionView::Find,
            LoadAction::ReadFiles(v) => ActionView::ReadFiles(path_views(v@)),
            LoadAction::Compile(s) => ActionView::Compile(s@),
            LoadAction::AskForm(u) => ActionView::AskForm(u@),
            LoadAction::ReadSource(k) => ActionView::ReadSource(k@),
            LoadAction::ReadMap(k) => ActionView::ReadMap(k@),
            LoadAction::Translate { code, url } => ActionView::Translate { text: code@, url: url@ },
            LoadAction::Done { source, found_at, map } => ActionView::Done {
                module_type: source.module_type,
                code: source.code@,
                found_at: match found_at {
                    Some(u) => Some(u@),
                    None => None,
                },
                map: match map {
                    Some(m) => Some(m@),
                    None => None,
                },
            },
            LoadAction::Fail(e) => ActionView::Fail(*e),
        }
    }
}

/// The end of a loading that succeeds without a source map.
pub open spec fn handed_out(
    module_type: ModuleType,
    code: CodeView,
    found_at: Option<Seq<char>>,
) -> (StageView, ActionView) {
    (StageView::Over, ActionView::Done { module_type, code, found_at, map: None })
}

/// The end of a loading that fails.
pub open spec fn failed(e: LoadError) -> (StageView, ActionView) {
    (StageView::Over, ActionView::Fail(e))
}

/// What follows once the source of a module of the archive has been read.
pub open spec fn after_source(
    found: FoundView,
    is_maybe_cjs: bool,
    include_source_map: bool,
    bytes: Seq<u8>,
) -> (StageView, ActionView) {
    if found.kind == ModuleKind::Wasm {
        handed_out(ModuleType::Wasm, CodeView::Bytes(bytes), Some(found.url))
    } else if !valid_utf8(bytes) {
        failed(LoadError::NotUtf8)
    } else if is_maybe_cjs {
        (
            StageView::Translating(found.url),
            ActionView::Translate { text: decode_utf8(bytes), url: found.url },
        )
    } else if wants_source_map(found.kind, is_maybe_cjs, include_source_map) {
        (
            StageView::ReadingMap { code: decode_utf8(bytes), url: found.url },
            ActionView::ReadMap(found.key),
        )
    } else if found.kind == ModuleKind::Json {
        handed_out(ModuleType::Json, CodeView::Text(decode_utf8(bytes)), Some(found.url))
    } else if found.kind == ModuleKind::JavaScript {
        handed_out(ModuleType::JavaScript, CodeView::Text(decode_utf8(bytes)), Some(found.url))
    } else {
        failed(LoadError::JsoncNotSupported)
    }
}

/// What follows once the source map of code, of the module at `url`, has been read.
pub open spec fn after_map(code: Seq<char>, url: Seq<char>, map: ReadAnswer) -> (
    StageView,
    ActionView,
) {
    match map {
        ReadAnswer::Failed => failed(LoadError::SourceMapUnreadable),
        ReadAnswer::Missing => handed_out(ModuleType::JavaScript, CodeView::Text(code), Some(url)),
        ReadAnswer::Bytes(m) => if m@.len() == 0 {
            handed_out(ModuleType::JavaScript, CodeView::Text(code), Some(url))
        } else {
            (
                StageView::Over,
                ActionView::Done {
                    module_type: ModuleType::JavaScript,
                    code: CodeView::Text(with_source_map(code, base64_of(m@))),
                    found_at: Some(url),
                    map: Some(m@),
                },
            )
        },
    }
}

/// What follows a file that stands in for a module which the archive lacks.
pub open spec fn after_file(file: Option<(MediaType, String)>) -> (StageView, ActionView) {
    match file {
        None => failed(LoadError::NotFound),
        Some((media, code)) => if media == MediaType::Json {
            handed_out(ModuleType::Json, CodeView::Text(code@), None)
        } else if media == MediaType::Other {
            handed_out(ModuleType::JavaScript, CodeView::Text(code@), None)
        } else {
            (StageView::Compiling, ActionView::Compile(code@))
        },
    }
}

/// The type of a module that a package holds.
pub open spec fn package_type(media: MediaType) -> ModuleType {
    if media == MediaType::Json {
        ModuleType::Json
    } else {
        ModuleType::JavaScript
    }
}

/// The loading of one module that is no data URL.
#[derive(Debug)]
pub struct Loading {
    pub include_source_map: bool,
    /// The files that stand in for the module where the archive lacks it.
    pub fallback: Vec<BytePath>,
    pub stage: LoadStage,
}

impl Loading {
    /// Whether `input` answers what the loading waits for. Opaque data that read as text are no
    /// module, unless they may be CommonJS.
    pub open spec fn expects(self, input: LoadInput) -> bool {
        match self.stage {
            LoadStage::AskingPackage => input is InPackage,
            LoadStage::LoadingPackage => input is PackageLoaded,
            LoadStage::Finding => input is Found,
            LoadStage::ReadingFiles => input is FileRead,
            LoadStage::Compiling => input is Compiled,
            LoadStage::AskingForm(_) => input is MaybeCjs,
            LoadStage::ReadingSource { found, is_maybe_cjs } => input is SourceRead && (found.kind
                == ModuleKind::OpaqueData && !is_maybe_cjs ==> !(input->SourceRead_0 matches
                ReadAnswer::Bytes(b) && valid_utf8(b@))),
            LoadStage::ReadingMap { .. } => input is MapRead,
            LoadStage::Translating(_) => input is Translated,
            LoadStage::Over => false,
        }
    }

    /// What follows `input`: the next stage and the action to take.
    pub open spec fn after(self, input: LoadInput) -> (StageView, ActionView) {
        match (self.stage, input) {
            (LoadStage::AskingPackage, LoadInput::InPackage(inside)) => if inside {
                (StageView::LoadingPackage, ActionView::LoadPackage)
            } else {
                (StageView::Finding, ActionView::Find)
            },
            (LoadStage::LoadingPackage, LoadInput::PackageLoaded(Some((media, code, url))))
                => handed_out(package_type(media), code@, Some(url@)),
            (LoadStage::LoadingPackage, _) => failed(LoadError::PackageFailed),
            (LoadStage::Finding, LoadInput::Found(Some(found))) => (
                StageView::AskingForm(found@),
                ActionView::AskForm(found.url@),
            ),
            (LoadStage::Finding, _) => if path_views(self.fallback@).len() == 0 {
                failed(LoadError::NotFound)
            } else {
                (StageView::ReadingFiles, ActionView::ReadFiles(path_views(self.fallback@)))
            },
            (LoadStage::ReadingFiles, LoadInput::FileRead(file)) => after_file(file),
            (LoadStage::Compiling, LoadInput::Compiled(Ok(code))) => handed_out(
                ModuleType::JavaScript,
                CodeView::Text(code@),
                None,
            ),
            (LoadStage::Compiling, LoadInput::Compiled(Err(CompileFault::Transpile))) => failed(
                LoadError::TranspileFailed,
            ),
            (LoadStage::Compiling, _) => failed(LoadError::ParseFailed),
            (LoadStage::AskingForm(found), LoadInput::MaybeCjs(Some(is_maybe_cjs))) => (
                StageView::ReadingSource { found: found@, is_maybe_cjs },
                ActionView::ReadSource(found.key@),
            ),
            (LoadStage::AskingForm(_), _) => failed(LoadError::UnknownForm),
            (
                LoadStage::ReadingSource { found, is_maybe_cjs },
                LoadInput::SourceRead(answer),
            ) => match answer {
                ReadAnswer::Failed => failed(LoadError::SourceUnreadable),
                ReadAnswer::Missing => failed(LoadError::NotFound),
                ReadAnswer::Bytes(b) => after_source(
                    found@,
                    is_maybe_cjs,
                    self.include_source_map,
                    b@,
                ),
            },
            (LoadStage::ReadingMap { code, url }, LoadInput::MapRead(answer)) => after_map(
                code@,
                url@,
                answer,
            ),
            (LoadStage::Translating(url), LoadInput::Translated(Some(code))) => handed_out(
                ModuleType::JavaScript,
                CodeView::Text(code@),
                Some(url@),
            ),
            _ => failed(LoadError::TranslateFailed),
        }
    }

    /// Takes in the answer to the last action, and says what to do next.
    pub fn step(&mut self, input: LoadInput) -> (r: LoadAction)
        requires
            old(self).expects(input),
        ensures
            final(self).include_source_map == old(self).include_source_map,
            !(r is ReadFiles) ==> final(self).fallback == old(self).fallback,
            (final(self).stage@, r@) == old(self).after(input),
    {
        let mut stage = LoadStage::Over;
        core::mem::swap(&mut stage, &mut self.stage);
        match (stage, input) {
            (LoadStage::AskingPackage, LoadInput::InPackage(inside)) => {
                if inside {
                    self.stage = LoadStage::LoadingPackage;
                    LoadAction::LoadPackage
                } else {
                    self.stage = LoadStage::Finding;
                    LoadAction::Find
                }
            },
            (LoadStage::LoadingPackage, LoadInput::PackageLoaded(answer)) => match answer {
                Some((media, code, url)) => LoadAction::Done {
                    source: ModuleSource { module_type: package_module_type(media), code },
                    found_at: Some(url),
                    map: None,
                },
                None => LoadAction::Fail(LoadError::PackageFailed),
            },
            (LoadStage::Finding, LoadInput::Found(found)) => match found {
                Some(found) => {
                    let url = found.url.clone();
                    self.stage = LoadStage::AskingForm(found);
                    LoadAction::AskForm(url)
                },
                None => {
                    assert(path_views(self.fallback@).len() == self.fallback@.len());
                    if self.fallback.len() == 0 {
                        return LoadAction::Fail(LoadError::NotFound);
                    }
                    self.stage = LoadStage::ReadingFiles;
                    let mut files: Vec<BytePath> = Vec::new();
                    core::mem::swap(&mut files, &mut self.fallback);
                    LoadAction::ReadFiles(files)
                },
            },
            (LoadStage::ReadingFiles, LoadInput::FileRead(file)) => match file {
                Some((media, code)) => {
                    if needs_transpile(media) {
                        self.stage = LoadStage::Compiling;
                        return LoadAction::Compile(code);
                    }
                    let source = ModuleSource {
                        module_type: package_module_type(media),
                        code: Code::Text(code),
                    };
                    LoadAction::Done { source, found_at: None, map: None }
                },
                None => LoadAction::Fail(LoadError::NotFound),
            },
            (LoadStage::Compiling, LoadInput::Compiled(result)) => match result {
                Ok(code) => LoadAction::Done {
                    source: ModuleSource {
                        module_type: ModuleType::JavaScript,
                        code: Code::Text(code),
                    },
                    found_at: None,
                    map: None,
                },
                Err(CompileFault::Parse) => LoadAction::Fail(LoadError::ParseFailed),
                Err(CompileFault::Transpile) => LoadAction::Fail(LoadError::TranspileFailed),
            },
            (LoadStage::AskingForm(found), LoadInput::MaybeCjs(answer)) => match answer {
                Some(is_maybe_cjs) => {
                    let key = found.key.clone();
                    self.stage = LoadStage::ReadingSource { found, is_maybe_cjs };
                    LoadAction::ReadSource(key)
                },
                None => LoadAction::Fail(LoadError::UnknownForm),
            },
            (
                LoadStage::ReadingSource { found, is_maybe_cjs },
                LoadInput::SourceRead(answer),
            ) => match answer {
                ReadAnswer::Failed => LoadAction::Fail(LoadError::SourceUnreadable),
                ReadAnswer::Missing => LoadAction::Fail(LoadError::NotFound),
                ReadAnswer::Bytes(b) => self.source_read(found, is_maybe_cjs, b),
            },
            (LoadStage::ReadingMap { code, url }, LoadInput::MapRead(answer)) => {
                let map = match answer {
                    ReadAnswer::Failed => {
                        return LoadAction::Fail(LoadError::SourceMapUnreadable);
                    },
                    ReadAnswer::Missing => None,
                    ReadAnswer::Bytes(m) => if m.len() == 0 {
                        None
                    } else {
                        Some(m)
                    },
                };
                let text = match &map {
                    Some(m) => append_source_map(code, m),
                    None => code,
                };
                let source = ModuleSource {
                    module_type: ModuleType::JavaScript,
                    code: Code::Text(text),
                };
                LoadAction::Done { source, found_at: Some(url), map }
            },
            (LoadStage::Translating(url), LoadInput::Translated(result)) => match result {
                Some(code) => LoadAction::Done {
                    source: ModuleSource {
                        module_type: ModuleType::JavaScript,
                        code: Code::Text(code),
                    },
                    found_at: Some(url),
                    map: None,
                },
                None => LoadAction::Fail(LoadError::TranslateFailed),
            },
            _ => LoadAction::Fail(LoadError::TranslateFailed),
        }
    }

    /// Goes on once the source has been read.
    fn source_read(&mut self, found: WorkspaceEszipModule, is_maybe_cjs: bool, bytes: Vec<u8>) -> (r:
        LoadAction)
        requires
            old(self).stage is Over,
            found.kind == ModuleKind::OpaqueData && !is_maybe_cjs ==> !valid_utf8(bytes@),
        ensures
            final(self).include_source_map == old(self).include_source_map,
            final(self).fallback == old(self).fallback,
            (final(self).stage@, r@) == after_source(
                found@,
                is_maybe_cjs,
                old(self).include_source_map,
                bytes@,
            ),
            !(r is ReadFiles),
    {
        let WorkspaceEszipModule { kind, key, url } = found;
        if kind == ModuleKind::Wasm {
            let source = ModuleSource { module_type: ModuleType::Wasm, code: Code::Bytes(bytes) };
            return LoadAction::Done { source, found_at: Some(url), map: None };
        }
        let text = match text_from_utf8(bytes) {
            Some(s) => s,
            None => {
                return LoadAction::Fail(LoadError::NotUtf8);
            },
        };
        proof {
            encode_utf8_decode_utf8(text@);
        }
        if is_maybe_cjs {
            self.stage = LoadStage::Translating(url.clone());
            return LoadAction::Translate { code: text, url };
        }
        let module_type = match kind {
            ModuleKind::JavaScript => {
                if self.include_source_map {
                    self.stage = LoadStage::ReadingMap { code: text, url };
                    return LoadAction::ReadMap(key);
                }
                ModuleType::JavaScript
            },
            ModuleKind::Json => ModuleType::Json,
            _ => {
                return LoadAction::Fail(LoadError::JsoncNotSupported);
            },
        };
        let source = ModuleSource { module_type, code: Code::Text(text) };
        LoadAction::Done { source, found_at: Some(url), map: None }
    }
}

/// The loader of an archive.
#[derive(Debug)]
pub struct EmbeddedModuleLoader {
    pub include_source_map: bool,
    pub disable_fs_fallback: bool,
    pub service_path: Option<String>,
}

/// The files that stand in for a module which the archive lacks: there are some only for a `file:`
/// module, and only where the fallback is not switched off.
pub open spec fn stand_ins(
    disabled: bool,
    scheme: Seq<char>,
    path: Option<Seq<u8>>,
    service_path: Option<Seq<char>>,
) -> Seq<Seq<char>> {
    if !disabled && scheme == "file"@ && path is Some {
        fallback_list(path->0, service_path)
    } else {
        Seq::empty()
    }
}

impl EmbeddedModuleLoader {
    /// Begins to load the module `specifier`. A data URL holds its module itself. Any other module
    /// comes from a package or from the archive, and the file that a `file:` URL names can stand in
    /// for one that the archive lacks.
    pub fn load(&self, specifier: &str) -> (r: (Loading, LoadAction))
        ensures
            r.0.include_source_map == self.include_source_map,
            scheme_of(specifier@) == "data"@ ==> r.0.stage is Over && match data_url_read(
                (url_parsed(specifier@)->0).text,
            ) {
                Ok(b) => if valid_utf8(b) {
                    r.1@ == (ActionView::Done {
                        module_type: ModuleType::JavaScript,
                        code: CodeView::Text(decode_utf8(b)),
                        found_at: None,
                        map: None,
                    })
                } else {
                    r.1@ == ActionView::Fail(LoadError::DataUrlNotUtf8)
                },
                Err(DataUrlFault::Invalid) => r.1@ == ActionView::Fail(LoadError::InvalidDataUrl),
                Err(DataUrlFault::Undecodable) => r.1@ == ActionView::Fail(
                    LoadError::UndecodableDataUrl,
                ),
            },
            scheme_of(specifier@) != "data"@ ==> r.0.stage is AskingPackage && r.1 is AskPackage
                && path_views(r.0.fallback@) == stand_ins(
                self.disable_fs_fallback,
                scheme_of(specifier@),
                url_file_path(specifier@),
                match self.service_path {
                    Some(p) => Some(p@),
                    None => None,
                },
            ),
    {
        let (scheme, text): (String, String) = match parse_url(specifier) {
            Some(u) => (u.scheme, u.text),
            None => {
                proof {
                    reveal_strlit("");
                    reveal_strlit("data");
                    assert(""@ =~= Seq::<char>::empty());
                    assert("data"@.len() == 4);
                }
                ("".to_owned(), "".to_owned())
            },
        };
        if same(scheme.as_str(), "data") {
            let loading = Loading {
                include_source_map: self.include_source_map,
                fallback: Vec::new(),
                stage: LoadStage::Over,
            };
            return match load_data_url(text.as_str()) {
                Ok(source) => {
                    proof {
                        encode_utf8_decode_utf8((source.code->Text_0)@);
                    }
                    (loading, LoadAction::Done { source, found_at: None, map: None })
                },
                Err(e) => (loading, LoadAction::Fail(e)),
            };
        }
        let service_path: Option<&str> = match &self.service_path {
            Some(p) => Some(p.as_str()),
            None => None,
        };
        let named = file_path(specifier);
        let path: Option<&[u8]> = match &named {
            Some(p) => Some(p.as_slice()),
            None => None,
        };
        let fallback = fallback_paths(
            self.disable_fs_fallback,
            scheme.as_str(),
            path,
            service_path,
        );
        (
            Loading {
                include_source_map: self.include_source_map,
                fallback,
                stage: LoadStage::AskingPackage,
            },
            LoadAction::AskPackage,
        )
    }
}

// ---------------------------------------------------------------------------
// Laws
// ---------------------------------------------------------------------------

/// How far a stage is from the end.
pub open spec fn stages_left(s: StageView) -> nat {
    match s {
        StageView::AskingPackage => 5,
        StageView::Finding => 4,
        StageView::AskingForm(_) => 3,
        StageView::ReadingFiles => 2,
        StageView::ReadingSource { .. } => 2,
        StageView::LoadingPackage => 1,
        StageView::Compiling => 1,
        StageView::ReadingMap { .. } => 1,
        StageView::Translating(_) => 1,
        StageView::Over => 0,
    }
}

/// Every answer brings a loading closer to its end, which is the handing out of the module or an
/// error.
pub proof fn law_loading_ends(l: Loading, input: LoadInput)
    requires
        l.expects(input),
    ensures
        stages_left(l.after(input).0) < stages_left(l.stage@),
        l.after(input).0 is Over <==> l.after(input).1 is Done || l.after(input).1 is Fail,
{
}

/// The file system is read only for a module that the archive lacks, and never where the fallback
/// is switched off.
pub proof fn law_archive_comes_first(l: Loading, input: LoadInput)
    requires
        l.expects(input),
        l.after(input).1 is ReadFiles,
    ensures
        input == LoadInput::Found(None),
        path_views(l.fallback@).len() > 0,
        forall|scheme: Seq<char>, path: Option<Seq<u8>>, service: Option<Seq<char>>|
            stand_ins(true, scheme, path, service).len() == 0,
{
}

/// Appending a source map never changes the code itself: it stays the beginning of what is handed
/// out.
pub proof fn law_source_map_keeps_the_code(code: Seq<char>, encoded_map: Seq<char>)
    ensures
        code.is_prefix_of(with_source_map(code, encoded_map)),
{
    let r = with_source_map(code, encoded_map);
    assert(code =~= r.subrange(0, code.len() as int));
}

/// What is handed out of the archive is what it holds: WebAssembly as its bytes, whatever they are,
/// and JavaScript and JSON as the text whose encoding the bytes are, each under its own type and
/// with the URL at which it was found. Code that may be CommonJS is translated first, JavaScript
/// waits for its source map where maps are asked for, and JSON with comments is refused.
pub proof fn law_archived_source_comes_out_unchanged(
    found: FoundView,
    is_maybe_cjs: bool,
    include_source_map: bool,
    bytes: Seq<u8>,
)
    ensures
        ({
            let (stage, action) = after_source(found, is_maybe_cjs, include_source_map, bytes);
            &&& found.kind == ModuleKind::Wasm ==> action == (ActionView::Done {
                module_type: ModuleType::Wasm,
                code: CodeView::Bytes(bytes),
                found_at: Some(found.url),
                map: None,
            })
            &&& found.kind != ModuleKind::Wasm && !valid_utf8(bytes) ==> action
                == ActionView::Fail(LoadError::NotUtf8)
            &&& found.kind != ModuleKind::Wasm && valid_utf8(bytes) && is_maybe_cjs ==> {
                &&& action matches ActionView::Translate { text, url } && url == found.url
                    && encode_utf8(text) == bytes
                &&& stage == StageView::Translating(found.url)
            }
            &&& found.kind == ModuleKind::JavaScript && valid_utf8(bytes) && !is_maybe_cjs ==> if
                include_source_map {
                &&& action == ActionView::ReadMap(found.key)
                &&& stage matches StageView::ReadingMap { code, url } && url == found.url
                    && encode_utf8(code) == bytes
            } else {
                &&& action matches ActionView::Done {
                    module_type,
                    code: CodeView::Text(t),
                    found_at,
                    map,
                } && module_type == ModuleType::JavaScript && encode_utf8(t) == bytes && found_at
                    == Some(found.url) && map is None
            }
            &&& found.kind == ModuleKind::Json && valid_utf8(bytes) && !is_maybe_cjs ==> {
                &&& action matches ActionView::Done {
                    module_type,
                    code: CodeView::Text(t),
                    found_at,
                    map,
                } && module_type == ModuleType::Json && encode_utf8(t) == bytes && found_at
                    == Some(found.url) && map is None
            }
            &&& found.kind == ModuleKind::Jsonc && valid_utf8(bytes) && !is_maybe_cjs ==> action
                == ActionView::Fail(LoadError::JsoncNotSupported)
        }),
{
    if valid_utf8(bytes) {
        decode_utf8_encode_utf8(bytes);
    }
}

/// A source map is handed out with its code where there is one that is not empty: in a comment of
/// its own line at the very end, and beside it for the store. Otherwise the code comes as it is.
pub proof fn law_source_map_comes_with_its_code(code: Seq<char>, url: Seq<char>, answer: ReadAnswer)
    ensures
        match answer {
            ReadAnswer::Failed => after_map(code, url, answer).1 == ActionView::Fail(
                LoadError::SourceMapUnreadable,
            ),
            ReadAnswer::Bytes(m) if m@.len() > 0 => {
                &&& after_map(code, url, answer).1 matches ActionView::Done {
                    module_type,
                    code: CodeView::Text(t),
                    found_at,
                    map,
                } && module_type == ModuleType::JavaScript && found_at == Some(url) && map == Some(
                    m@,
                ) && t == (if code.len() > 0 && code[code.len() - 1] == '\n' {
                    code
                } else {
                    code + seq!['\n']
                }) + "//# sourceMappingURL=data:application/json;base64,"@ + base64_of(m@)
            },
            _ => after_map(code, url, answer).1 == (ActionView::Done {
                module_type: ModuleType::JavaScript,
                code: CodeView::Text(code),
                found_at: Some(url),
                map: None,
            }),
        },
{
    assert(code.push('\n') =~= code + seq!['\n']);
}

/// What the loading of a module goes on with: a package loads its own modules, the archive is asked
/// for all others, a module that it has is read under its key, and one that it lacks is read from
/// the files that stand in for it. Each failure has an error of its own.
pub proof fn law_loading_goes_on(l: Loading)
    ensures
        l.stage is AskingPackage ==> {
            &&& l.after(LoadInput::InPackage(true)) == (
                StageView::LoadingPackage,
                ActionView::LoadPackage,
            )
            &&& l.after(LoadInput::InPackage(false)) == (StageView::Finding, ActionView::Find)
        },
        l.stage is LoadingPackage ==> {
            &&& l.after(LoadInput::PackageLoaded(None)).1 == ActionView::Fail(
                LoadError::PackageFailed,
            )
            &&& forall|m: MediaType, c: Code, u: String|
                (#[trigger] l.after(LoadInput::PackageLoaded(Some((m, c, u))))).1 == (
                ActionView::Done {
                    module_type: if m is Json {
                        ModuleType::Json
                    } else {
                        ModuleType::JavaScript
                    },
                    code: c@,
                    found_at: Some(u@),
                    map: None,
                })
        },
        l.stage is Finding ==> {
            &&& forall|f: WorkspaceEszipModule|
                #[trigger] l.after(LoadInput::Found(Some(f))) == (
                    StageView::AskingForm(f@),
                    ActionView::AskForm(f.url@),
                )
            &&& l.fallback@.len() == 0 ==> l.after(LoadInput::Found(None)).1 == ActionView::Fail(
                LoadError::NotFound,
            )
            &&& l.fallback@.len() > 0 ==> l.after(LoadInput::Found(None)) == (
                StageView::ReadingFiles,
                ActionView::ReadFiles(path_views(l.fallback@)),
            )
        },
        l.stage matches LoadStage::AskingForm(f) ==> {
            &&& l.after(LoadInput::MaybeCjs(None)).1 == ActionView::Fail(LoadError::UnknownForm)
            &&& forall|b: bool| #[trigger]
                l.after(LoadInput::MaybeCjs(Some(b))) == (
                    StageView::ReadingSource { found: f@, is_maybe_cjs: b },
                    ActionView::ReadSource(f.key@),
                )
        },
        l.stage matches LoadStage::ReadingSource { found, is_maybe_cjs } ==> {
            &&& l.after(LoadInput::SourceRead(ReadAnswer::Failed)).1 == ActionView::Fail(
                LoadError::SourceUnreadable,
            )
            &&& l.after(LoadInput::SourceRead(ReadAnswer::Missing)).1 == ActionView::Fail(
                LoadError::NotFound,
            )
            &&& forall|b: Vec<u8>| #[trigger]
                l.after(LoadInput::SourceRead(ReadAnswer::Bytes(b))) == after_source(
                    found@,
                    is_maybe_cjs,
                    l.include_source_map,
                    b@,
                )
        },
        l.stage matches LoadStage::ReadingMap { code, url } ==> forall|a: ReadAnswer| #[trigger]
            l.after(LoadInput::MapRead(a)) == after_map(code@, url@, a),
        l.stage matches LoadStage::Translating(url) ==> {
            &&& l.after(LoadInput::Translated(None)).1 == ActionView::Fail(
                LoadError::TranslateFailed,
            )
            &&& forall|c: String|
                (#[trigger] l.after(LoadInput::Translated(Some(c)))).1 == (ActionView::Done {
                    module_type: ModuleType::JavaScript,
                    code: CodeView::Text(c@),
                    found_at: Some(url@),
                    map: None,
                })
        },
        l.stage is ReadingFiles ==> {
            &&& l.after(LoadInput::FileRead(None)).1 == ActionView::Fail(LoadError::NotFound)
            &&& forall|m: MediaType, c: String|
                (#[trigger] l.after(LoadInput::FileRead(Some((m, c))))).1 == match m {
                    MediaType::Json => ActionView::Done {
                        module_type: ModuleType::Json,
                        code: CodeView::Text(c@),
                        found_at: None,
                        map: None,
                    },
                    MediaType::Other => ActionView::Done {
                        module_type: ModuleType::JavaScript,
                        code: CodeView::Text(c@),
                        found_at: None,
                        map: None,
                    },
                    _ => ActionView::Compile(c@),
                }
        },
        l.stage is Compiling ==> {
            &&& l.after(LoadInput::Compiled(Err(CompileFault::Parse))).1 == ActionView::Fail(
                LoadError::ParseFailed,
            )
            &&& l.after(LoadInput::Compiled(Err(CompileFault::Transpile))).1 == ActionView::Fail(
                LoadError::TranspileFailed,
            )
            &&& forall|c: String|
                (#[trigger] l.after(LoadInput::Compiled(Ok(c)))).1 == (ActionView::Done {
                    module_type: ModuleType::JavaScript,
                    code: CodeView::Text(c@),
                    found_at: None,
                    map: None,
                })
        },
{
    assert(path_views(l.fallback@).len() == l.fallback@.len());
}

/// A `file:` module that the archive lacks is read from the file that it names and, where that is
/// shown as lying in a directory of the archives' own, from the same place below the service. No
/// other module is, and none where that is switched off.
pub proof fn law_stand_ins_lie_where_the_module_would(
    scheme: Seq<char>,
    path: Seq<u8>,
    service: Seq<char>,
    archive: Seq<char>,
    rest: Seq<char>,
    disabled: bool,
)
    ensures
        disabled || scheme != "file"@ ==> stand_ins(disabled, scheme, Some(path), Some(service))
            == Seq::<Seq<char>>::empty(),
        stand_ins(disabled, scheme, None, Some(service)) == Seq::<Seq<char>>::empty(),
        stand_ins(false, "file"@, Some(path), None) == seq![units_of(path)],
        !archive.contains('/') && lossy_text(path) == "/var/tmp/sb-compile-trex/"@ + archive + seq![
            '/',
        ] + rest ==> stand_ins(false, "file"@, Some(path), Some(service)) == seq![
            units_of(path),
            text_units(joined(service, rest)),
        ],
        !archive.contains('/') && lossy_text(path) == "/var/tmp/sb-compile-trex/"@ + archive
            ==> stand_ins(false, "file"@, Some(path), Some(service)) == seq![units_of(path)],
        !"/var/tmp/sb-compile-trex/"@.is_prefix_of(lossy_text(path)) ==> stand_ins(
            false,
            "file"@,
            Some(path),
            Some(service),
        ) == seq![units_of(path)],
{
    let root = "/var/tmp/sb-compile-trex/"@;
    if !archive.contains('/') {
        let full = archive + seq!['/'] + rest;
        if lossy_text(path) == root + archive + seq!['/'] + rest {
            assert(root + archive + seq!['/'] + rest =~= root + full);
            assert(root =~= (root + full).take(root.len() as int));
            assert((root + full).skip(root.len() as int) =~= full);
            assert(full[archive.len() as int] == '/');
            assert forall|k: int| 0 <= k < archive.len() implies full[k] != '/' by {
                assert(archive.contains(archive[k]));
            }
            crate::text::lemma_first_index_at(full, '/', archive.len() as int);
            assert(full.skip(archive.len() as int + 1) =~= rest);
        }
        if lossy_text(path) == root + archive {
            assert((root + archive).skip(root.len() as int) =~= archive);
            crate::text::lemma_first_index(archive, '/');
        }
    }
}

/// A `file:` module goes by the URL of its key below the root of the archive, and any other by its
/// key alone, whatever the root is.
pub proof fn law_found_modules_go_by_their_key(
    scheme: Seq<char>,
    root: Seq<char>,
    other: Seq<char>,
    key: Seq<char>,
)
    ensures
        scheme == "file"@ ==> found_at(scheme, root, key) == url_joined(root, key),
        scheme != "file"@ ==> found_at(scheme, root, key) == found_at(scheme, other, key),
        scheme != "file"@ ==> (found_at(scheme, root, key) is Some <==> url_parsed(key) is Some),
        scheme != "file"@ ==> (found_at(scheme, root, key) matches Some(u) ==> u == (url_parsed(
            key,
        )->0).text),
{
}

/// A text is a data URL or it is not; only what is one can have a body.
pub proof fn law_data_urls_give_their_body(url: Seq<char>)
    ensures
        !is_data_url(url) <==> data_url_read(url) == Err::<Seq<u8>, DataUrlFault>(
            DataUrlFault::Invalid,
        ),
        is_data_url(url) ==> (data_url_read(url) matches Ok(b) <==> data_url_body(url) is Some),
        data_url_read(url) matches Ok(b) ==> data_url_body(url) == Some(b),
{
}


/// Whatever goes wrong with a module, the message names the module and ends with what went wrong,
/// as far as the error is about one; what was told by others is passed on as it is.
pub proof fn law_load_errors_say_what_failed(specifier: Seq<char>, detail: Seq<char>)
    ensures
        LoadError::NotFound.text(specifier, detail) == "Module not found: "@ + specifier,
        LoadError::SourceUnreadable.text(specifier, detail) == "failed to read module source for "@
            + specifier + ": "@ + detail,
        LoadError::SourceMapUnreadable.text(specifier, detail)
            == "failed to read the source map for "@ + specifier + ": "@ + detail,
        LoadError::ParseFailed.text(specifier, detail) == "Failed to parse "@ + specifier + ": "@
            + detail,
        LoadError::TranspileFailed.text(specifier, detail) == "Failed to transpile "@ + specifier
            + ": "@ + detail,
        LoadError::InvalidDataUrl.text(specifier, detail) == "Invalid data URL: "@ + detail,
        LoadError::UndecodableDataUrl.text(specifier, detail) == "Failed to decode data URL: "@
            + detail,
        LoadError::DataUrlNotUtf8.text(specifier, detail) == "Data URL is not valid UTF-8: "@
            + detail,
        LoadError::PackageFailed.text(specifier, detail) == detail,
        LoadError::UnknownForm.text(specifier, detail) == detail,
        LoadError::TranslateFailed.text(specifier, detail) == detail,
{
}

} // verus!
