//! Where reads and writes go: local paths and `file://` URIs to the local
//! file system, `http(s)://` URIs to HTTP, anything else refused.  The
//! reading and writing themselves happen outside the library.
use vstd::prelude::*;

use crate::templating::{find_from, lemma_find_from};
use crate::text::{chars_of, push_char, push_decimal, push_str, str_eq, string_from_chars, to_string, decimal};

verus! {

/// Why a transport could not be opened.
pub enum TransportError {
    InvalidUri(String),
    UnsupportedScheme(String),
    Io(String),
    Http(String),
    HttpStatus { method: &'static str, uri: String, status: u16 },
}

pub enum TransportErrorV {
    InvalidUri(Seq<char>),
    UnsupportedScheme(Seq<char>),
    Io(Seq<char>),
    Http(Seq<char>),
    HttpStatus(Seq<char>, Seq<char>, u16),
}

impl View for TransportError {
    type V = TransportErrorV;

    open spec fn view(&self) -> TransportErrorV {
        match self {
            TransportError::InvalidUri(u) => TransportErrorV::InvalidUri(u@),
            TransportError::UnsupportedScheme(s) => TransportErrorV::UnsupportedScheme(s@),
            TransportError::Io(e) => TransportErrorV::Io(e@),
            TransportError::Http(e) => TransportErrorV::Http(e@),
            TransportError::HttpStatus { method, uri, status } => TransportErrorV::HttpStatus(method@, uri@, *status),
        }
    }
}

/// The message of a transport error.
pub open spec fn error_message(e: TransportErrorV) -> Seq<char> {
    match e {
        TransportErrorV::InvalidUri(u) => "Invalid URI or path: "@ + u,
        TransportErrorV::UnsupportedScheme(s) => "Unsupported URI scheme: "@ + s,
        TransportErrorV::Io(m) => "I/O error: "@ + m,
        TransportErrorV::Http(m) => "HTTP transport error: "@ + m,
        TransportErrorV::HttpStatus(method, uri, status) => "HTTP "@ + method + " "@ + uri
            + " failed with status "@ + decimal(status as nat),
    }
}

impl TransportError {
    /// The message of the error, as it is shown to users.
    pub fn message(&self) -> (r: String)
        ensures
            r@ == error_message(self@),
    {
        match self {
            TransportError::InvalidUri(u) => {
                let mut m = to_string("Invalid URI or path: ");
                push_str(&mut m, u.as_str());
                m
            },
            TransportError::UnsupportedScheme(s) => {
                let mut m = to_string("Unsupported URI scheme: ");
                push_str(&mut m, s.as_str());
                m
            },
            TransportError::Io(e) => {
                let mut m = to_string("I/O error: ");
                push_str(&mut m, e.as_str());
                m
            },
            TransportError::Http(e) => {
                let mut m = to_string("HTTP transport error: ");
                push_str(&mut m, e.as_str());
                m
            },
            TransportError::HttpStatus { method, uri, status } => {
                let mut m = to_string("HTTP ");
                push_str(&mut m, method);
                push_str(&mut m, " ");
                push_str(&mut m, uri.as_str());
                push_str(&mut m, " failed with status ");
                push_decimal(&mut m, *status as u64);
                assert(m@ =~= error_message(self@));
                m
            },
        }
    }
}

/// The scheme `url::Url::parse` finds in `uri`, or `None` when it does not
/// parse.
pub uninterp spec fn url_scheme_of(uri: Seq<char>) -> Option<Seq<char>>;

/// The scheme of a URI as `url::Url::parse` reads it.  The contract claims
/// that the outcome is determined by the text.
#[verifier::external_body]
fn url_scheme(uri: &str) -> (r: Option<String>)
    ensures
        match r {
            Some(s) => url_scheme_of(uri@) == Some(s@),
            None => url_scheme_of(uri@) is None,
        },
{
    url::Url::parse(uri).ok().map(|u| u.scheme().to_string())
}

/// The local path of a `file` URL, as `url::Url::to_file_path` gives it, or
/// `None` when the URI does not parse, names no local file, or the path is
/// not UTF-8.  Nothing is stated of the path: it follows the path
/// conventions of the platform the library runs on.
#[verifier::external_body]
fn url_file_path(uri: &str) -> (r: Option<String>) {
    url::Url::parse(uri).ok()?.to_file_path().ok()?.into_os_string().into_string().ok()
}

/// The `file` URL of a path, as `url::Url::from_file_path` gives it, or
/// `None` for a path it refuses.  Nothing is stated of the URL: it follows
/// the path conventions of the platform the library runs on.
#[verifier::external_body]
fn file_url(path: &str) -> (r: Option<String>) {
    url::Url::from_file_path(path).ok().map(|u| u.to_string())
}

/// The scheme separator.
pub open spec fn scheme_mark() -> Seq<char> {
    seq![':', '/', '/']
}

/// The scheme a URI is routed by: none for a plain path (no `://`), the
/// parsed scheme otherwise.
pub open spec fn spec_scheme(uri: Seq<char>) -> Result<Seq<char>, TransportErrorV> {
    if find_from(uri, scheme_mark(), 0) is Some {
        match url_scheme_of(uri) {
            Some(s) => Ok(s),
            None => Err(TransportErrorV::InvalidUri(uri)),
        }
    } else {
        Ok(Seq::empty())
    }
}

fn contains_scheme_mark(uri: &str) -> (r: bool)
    ensures
        r == (find_from(uri@, scheme_mark(), 0) is Some),
{
    let cs = chars_of(uri);
    let mark: Vec<char> = vec![':', '/', '/'];
    assert(mark@ =~= scheme_mark());
    crate::templating::find_chars(&cs, &mark, 0).is_some()
}

/// The scheme a URI is routed by.
pub fn scheme(uri: &str) -> (r: Result<String, TransportError>)
    ensures
        match r {
            Ok(s) => spec_scheme(uri@) == Ok::<Seq<char>, TransportErrorV>(s@),
            Err(e) => spec_scheme(uri@) == Err::<Seq<char>, TransportErrorV>(e@),
        },
{
    if contains_scheme_mark(uri) {
        match url_scheme(uri) {
            Some(s) => Ok(s),
            None => Err(TransportError::InvalidUri(to_string(uri))),
        }
    } else {
        Ok(String::new())
    }
}

/// The prefix of a `file` URI.
pub open spec fn file_prefix() -> Seq<char> {
    seq!['f', 'i', 'l', 'e', ':', '/', '/']
}

/// Whether a URI starts with `file://`.
pub open spec fn is_file_uri(uri: Seq<char>) -> bool {
    uri.len() >= 7 && uri.take(7) == file_prefix()
}

/// The local path a URI or path names, given the path the platform makes
/// of a `file://` URI (`file_path`): that path for a `file://` URI, or the
/// text itself.
pub open spec fn spec_local_path(uri: Seq<char>, file_path: Option<Seq<char>>) -> Result<Seq<char>, TransportErrorV> {
    if is_file_uri(uri) {
        match file_path {
            Some(p) => Ok(p),
            None => Err(TransportErrorV::InvalidUri(uri)),
        }
    } else {
        Ok(uri)
    }
}

pub open spec fn opt_string_view(v: Option<String>) -> Option<Seq<char>> {
    match v {
        Some(s) => Some(s@),
        None => None,
    }
}

fn starts_with_file_prefix(uri: &str) -> (r: bool)
    ensures
        r == is_file_uri(uri@),
{
    let cs = chars_of(uri);
    if cs.len() < 7 {
        return false;
    }
    let r = cs[0] == 'f' && cs[1] == 'i' && cs[2] == 'l' && cs[3] == 'e' && cs[4] == ':' && cs[5] == '/'
        && cs[6] == '/';
    proof {
        if r {
            assert(uri@.take(7) =~= file_prefix());
        } else {
            if uri@.take(7) == file_prefix() {
                assert(uri@.take(7)[0] == 'f');
                assert(uri@.take(7)[1] == 'i');
                assert(uri@.take(7)[2] == 'l');
                assert(uri@.take(7)[3] == 'e');
                assert(uri@.take(7)[4] == ':');
                assert(uri@.take(7)[5] == '/');
                assert(uri@.take(7)[6] == '/');
            }
        }
    }
    r
}

/// The local path a URI or path names, given the path the platform makes
/// of it when it is a `file://` URI.
pub fn local_path_from(uri_or_path: &str, file_path: Option<String>) -> (r: Result<String, TransportError>)
    ensures
        match r {
            Ok(p) => spec_local_path(uri_or_path@, opt_string_view(file_path)) == Ok::<Seq<char>, TransportErrorV>(p@),
            Err(e) => spec_local_path(uri_or_path@, opt_string_view(file_path)) == Err::<Seq<char>, TransportErrorV>(e@),
        },
{
    if starts_with_file_prefix(uri_or_path) {
        match file_path {
            Some(p) => Ok(p),
            None => Err(TransportError::InvalidUri(to_string(uri_or_path))),
        }
    } else {
        Ok(to_string(uri_or_path))
    }
}

/// The local path a URI or path names: a plain path is itself; a `file://`
/// URI is the path `url` makes of it on this platform, or an invalid URI.
pub fn resolve_local_path(uri_or_path: &str) -> (r: Result<String, TransportError>)
    ensures
        exists|fp: Option<Seq<char>>| #[trigger] spec_local_path(uri_or_path@, fp) == match r {
            Ok(p) => Ok::<Seq<char>, TransportErrorV>(p@),
            Err(e) => Err::<Seq<char>, TransportErrorV>(e@),
        },
        !is_file_uri(uri_or_path@) ==> (r matches Ok(p) && p@ == uri_or_path@),
{
    let fp = if starts_with_file_prefix(uri_or_path) {
        url_file_path(uri_or_path)
    } else {
        None
    };
    let ghost fpv = opt_string_view(fp);
    let r = local_path_from(uri_or_path, fp);
    assert(spec_local_path(uri_or_path@, fpv) == match r {
        Ok(p) => Ok::<Seq<char>, TransportErrorV>(p@),
        Err(e) => Err::<Seq<char>, TransportErrorV>(e@),
    });
    r
}

/// The local file system.
#[derive(Clone, Copy)]
pub struct LocalAdapter;

impl LocalAdapter {
    /// The path to read for a URI or path.
    pub fn open_read(&self, uri: &str) -> (r: Result<String, TransportError>)
        ensures
            exists|fp: Option<Seq<char>>| #[trigger] spec_local_path(uri@, fp) == match r {
                Ok(p) => Ok::<Seq<char>, TransportErrorV>(p@),
                Err(e) => Err::<Seq<char>, TransportErrorV>(e@),
            },
            !is_file_uri(uri@) ==> (r matches Ok(p) && p@ == uri@),
    {
        resolve_local_path(uri)
    }

    /// The path to write for a URI or path.
    pub fn open_write(&self, uri: &str) -> (r: Result<String, TransportError>)
        ensures
            exists|fp: Option<Seq<char>>| #[trigger] spec_local_path(uri@, fp) == match r {
                Ok(p) => Ok::<Seq<char>, TransportErrorV>(p@),
                Err(e) => Err::<Seq<char>, TransportErrorV>(e@),
            },
            !is_file_uri(uri@) ==> (r matches Ok(p) && p@ == uri@),
    {
        resolve_local_path(uri)
    }
}

/// Where a read or write goes.
pub enum Endpoint {
    /// A local file, by path.
    Local(String),
    /// An HTTP resource, by URI.
    Http(String),
}

pub enum EndpointV {
    Local(Seq<char>),
    Http(Seq<char>),
}

impl View for Endpoint {
    type V = EndpointV;

    open spec fn view(&self) -> EndpointV {
        match self {
            Endpoint::Local(p) => EndpointV::Local(p@),
            Endpoint::Http(u) => EndpointV::Http(u@),
        }
    }
}

/// Where a URI goes: plain paths and `file` URIs to the local file system
/// (by the path the platform makes of a `file://` URI, `file_path`), `http`
/// and `https` URIs to HTTP, other schemes refused.
pub open spec fn spec_route(uri: Seq<char>, file_path: Option<Seq<char>>) -> Result<EndpointV, TransportErrorV> {
    match spec_scheme(uri) {
        Err(e) => Err(e),
        Ok(s) => if s == "file"@ || s.len() == 0 {
            match spec_local_path(uri, file_path) {
                Ok(p) => Ok(EndpointV::Local(p)),
                Err(e) => Err(e),
            }
        } else if s == "http"@ || s == "https"@ {
            Ok(EndpointV::Http(uri))
        } else {
            Err(TransportErrorV::UnsupportedScheme(s))
        },
    }
}

/// Routes URIs to the local file system or to HTTP by scheme.
#[derive(Clone, Copy)]
pub struct TransportRouter {
    pub local: LocalAdapter,
}

impl TransportRouter {
    /// A router whose local reads and writes go to the file system.
    pub fn new() -> (r: TransportRouter)
        ensures
            r == (TransportRouter { local: LocalAdapter }),
    {
        TransportRouter { local: LocalAdapter }
    }

    fn route(&self, uri: &str, write: bool) -> (r: Result<Endpoint, TransportError>)
        ensures
            exists|fp: Option<Seq<char>>| #[trigger] spec_route(uri@, fp) == match r {
                Ok(e) => Ok::<EndpointV, TransportErrorV>(e@),
                Err(e) => Err::<EndpointV, TransportErrorV>(e@),
            },
    {
        let s = match scheme(uri) {
            Ok(s) => s,
            Err(e) => {
                assert(spec_route(uri@, None) == Err::<EndpointV, TransportErrorV>(e@));
                return Err(e);
            },
        };
        proof {
            reveal_strlit("");
            if s@.len() == 0 {
                assert(s@ =~= ""@);
            }
        }
        if str_eq(s.as_str(), "file") || str_eq(s.as_str(), "") {
            let fp = if starts_with_file_prefix(uri) {
                url_file_path(uri)
            } else {
                None
            };
            let ghost fpv = opt_string_view(fp);
            let r = match local_path_from(uri, fp) {
                Ok(p) => Ok(Endpoint::Local(p)),
                Err(e) => Err(e),
            };
            assert(spec_route(uri@, fpv) == match r {
                Ok(e) => Ok::<EndpointV, TransportErrorV>(e@),
                Err(e) => Err::<EndpointV, TransportErrorV>(e@),
            });
            let _ = write;
            r
        } else if str_eq(s.as_str(), "http") || str_eq(s.as_str(), "https") {
            let r = Endpoint::Http(to_string(uri));
            assert(spec_route(uri@, None) == Ok::<EndpointV, TransportErrorV>(r@));
            Ok(r)
        } else {
            let e = TransportError::UnsupportedScheme(s);
            assert(spec_route(uri@, None) == Err::<EndpointV, TransportErrorV>(e@));
            Err(e)
        }
    }

    /// Where a read of `uri` goes.
    pub fn open_read(&self, uri: &str) -> (r: Result<Endpoint, TransportError>)
        ensures
            exists|fp: Option<Seq<char>>| #[trigger] spec_route(uri@, fp) == match r {
                Ok(e) => Ok::<EndpointV, TransportErrorV>(e@),
                Err(e) => Err::<EndpointV, TransportErrorV>(e@),
            },
    {
        self.route(uri, false)
    }

    /// Where a write to `uri` goes.
    pub fn open_write(&self, uri: &str) -> (r: Result<Endpoint, TransportError>)
        ensures
            exists|fp: Option<Seq<char>>| #[trigger] spec_route(uri@, fp) == match r {
                Ok(e) => Ok::<EndpointV, TransportErrorV>(e@),
                Err(e) => Err::<EndpointV, TransportErrorV>(e@),
            },
    {
        self.route(uri, true)
    }
}

/// `path` joined with the relative name `name`, as `Path::join` does it.
pub open spec fn join_path(path: Seq<char>, name: Seq<char>) -> Seq<char> {
    if name.len() > 0 && name[0] == '/' {
        name
    } else if path.len() > 0 && path.last() != '/' {
        path + seq!['/'] + name
    } else {
        path + name
    }
}

/// Joins a path and a name as `Path::join` does.
pub fn join_path_exec(path: &str, name: &str) -> (r: String)
    ensures
        r@ == join_path(path@, name@),
{
    let p = chars_of(path);
    let n = chars_of(name);
    if n.len() > 0 && n[0] == '/' {
        return to_string(name);
    }
    let mut r = to_string(path);
    if p.len() > 0 && p[p.len() - 1] != '/' {
        push_char(&mut r, '/');
    }
    push_str(&mut r, name);
    r
}

/// Where the slide images of a render go, by the kind of output target.
pub enum SinkTarget {
    /// A remote prefix (`http`, `https` or `s3`): names are appended to it.
    Remote(String),
    /// A `file` URI: the directory it names, whose files are addressed by
    /// `file` URIs.
    FileDirectory(String),
    /// A plain path: the directory, whose files are addressed by path.
    LocalDirectory(String),
}

pub enum SinkTargetV {
    Remote(Seq<char>),
    FileDirectory(Seq<char>),
    LocalDirectory(Seq<char>),
}

impl View for SinkTarget {
    type V = SinkTargetV;

    open spec fn view(&self) -> SinkTargetV {
        match self {
            SinkTarget::Remote(s) => SinkTargetV::Remote(s@),
            SinkTarget::FileDirectory(s) => SinkTargetV::FileDirectory(s@),
            SinkTarget::LocalDirectory(s) => SinkTargetV::LocalDirectory(s@),
        }
    }
}

/// The kind of an output target: by its parsed scheme, or a plain
/// directory when it does not parse as a URL; a `file` target names the
/// directory the platform makes of it (`file_path`).
pub open spec fn spec_sink_target(base: Seq<char>, file_path: Option<Seq<char>>) -> Result<SinkTargetV, Seq<char>> {
    match url_scheme_of(base) {
        None => Ok(SinkTargetV::LocalDirectory(base)),
        Some(s) => if s == "http"@ || s == "https"@ || s == "s3"@ {
            Ok(SinkTargetV::Remote(base))
        } else if s == "file"@ {
            match file_path {
                Some(p) => Ok(SinkTargetV::FileDirectory(p)),
                None => Err("Invalid file URI output target: "@ + base),
            }
        } else {
            Err("Unsupported output target scheme for PNG rendering: "@ + s)
        },
    }
}

pub open spec fn sink_target_view(r: Result<SinkTarget, String>) -> Result<SinkTargetV, Seq<char>> {
    match r {
        Ok(t) => Ok(t@),
        Err(e) => Err(e@),
    }
}

/// The kind of an output target.
pub fn sink_target(base_output_target: &str) -> (r: Result<SinkTarget, String>)
    ensures
        exists|fp: Option<Seq<char>>| #[trigger] spec_sink_target(base_output_target@, fp) == sink_target_view(r),
{
    match url_scheme(base_output_target) {
        None => {
            let r = Ok(SinkTarget::LocalDirectory(to_string(base_output_target)));
            assert(spec_sink_target(base_output_target@, None) == sink_target_view(r));
            r
        },
        Some(s) => {
            if str_eq(s.as_str(), "http") || str_eq(s.as_str(), "https") || str_eq(s.as_str(), "s3") {
                let r = Ok(SinkTarget::Remote(to_string(base_output_target)));
                assert(spec_sink_target(base_output_target@, None) == sink_target_view(r));
                r
            } else if str_eq(s.as_str(), "file") {
                let fp = url_file_path(base_output_target);
                let ghost fpv = opt_string_view(fp);
                let r = match fp {
                    Some(p) => Ok(SinkTarget::FileDirectory(p)),
                    None => {
                        let mut m = to_string("Invalid file URI output target: ");
                        push_str(&mut m, base_output_target);
                        Err(m)
                    },
                };
                assert(spec_sink_target(base_output_target@, fpv) == sink_target_view(r));
                r
            } else {
                let mut m = to_string("Unsupported output target scheme for PNG rendering: ");
                push_str(&mut m, s.as_str());
                let r = Err(m);
                assert(spec_sink_target(base_output_target@, None) == sink_target_view(r));
                r
            }
        },
    }
}

/// The address of file `name` under an output target; under a `file`
/// target, the URL the platform makes of the file's path (`file_url`).
pub open spec fn spec_sink_uri(t: SinkTargetV, name: Seq<char>, file_url: Option<Seq<char>>) -> Result<Seq<char>, Seq<char>> {
    match t {
        SinkTargetV::Remote(base) => Ok(
            if base.len() > 0 && base.last() == '/' {
                base + name
            } else {
                base + seq!['/'] + name
            },
        ),
        SinkTargetV::FileDirectory(dir) => match file_url {
            Some(u) => Ok(u),
            None => Err("Failed to build file URI for '"@ + join_path(dir, name) + "'"@),
        },
        SinkTargetV::LocalDirectory(dir) => Ok(join_path(dir, name)),
    }
}

pub open spec fn uri_view(r: Result<String, String>) -> Result<Seq<char>, Seq<char>> {
    match r {
        Ok(u) => Ok(u@),
        Err(e) => Err(e@),
    }
}

/// The address of file `name` under an output target (its directory
/// already made).
pub fn sink_uri(target: &SinkTarget, name: &str) -> (r: Result<String, String>)
    ensures
        exists|fu: Option<Seq<char>>| #[trigger] spec_sink_uri(target@, name@, fu) == uri_view(r),
        !(target@ is FileDirectory) ==> uri_view(r) == spec_sink_uri(target@, name@, None),
{
    match target {
        SinkTarget::Remote(base) => {
            let b = chars_of(base.as_str());
            let mut r = base.clone();
            if !(b.len() > 0 && b[b.len() - 1] == '/') {
                push_char(&mut r, '/');
            }
            push_str(&mut r, name);
            assert(r@ =~= spec_sink_uri(target@, name@, None)->Ok_0);
            let r = Ok(r);
            assert(spec_sink_uri(target@, name@, None) == uri_view(r));
            r
        },
        SinkTarget::FileDirectory(dir) => {
            let path = join_path_exec(dir.as_str(), name);
            let fu = file_url(path.as_str());
            let ghost fuv = opt_string_view(fu);
            let r = match fu {
                Some(u) => Ok(u),
                None => {
                    let mut m = to_string("Failed to build file URI for '");
                    push_str(&mut m, path.as_str());
                    push_str(&mut m, "'");
                    Err(m)
                },
            };
            assert(spec_sink_uri(target@, name@, fuv) == uri_view(r));
            r
        },
        SinkTarget::LocalDirectory(dir) => {
            let r = Ok(join_path_exec(dir.as_str(), name));
            assert(spec_sink_uri(target@, name@, None) == uri_view(r));
            r
        },
    }
}

/// The decimal numeral of `n`, padded with zeros to at least three digits.
pub open spec fn padded3(n: nat) -> Seq<char> {
    if n < 10 {
        seq!['0', '0'] + decimal(n)
    } else if n < 100 {
        seq!['0'] + decimal(n)
    } else {
        decimal(n)
    }
}

/// The file name of the image of the slide at `index` (counted from zero).
pub open spec fn spec_png_name(index: nat) -> Seq<char> {
    "slide-"@ + padded3(index + 1) + ".png"@
}

/// The file name of the image of the slide at `index`.
pub fn png_file_name(index: u64) -> (r: String)
    requires
        index < u64::MAX,
    ensures
        r@ == spec_png_name(index as nat),
{
    let n = index + 1;
    let mut r = to_string("slide-");
    if n < 10 {
        push_str(&mut r, "00");
    } else if n < 100 {
        push_str(&mut r, "0");
    }
    push_decimal(&mut r, n);
    push_str(&mut r, ".png");
    proof {
        reveal_strlit("00");
        reveal_strlit("0");
    }
    assert(r@ =~= spec_png_name(index as nat));
    r
}

/// The bytes an HTTP sink holds before it uploads them, and whether it has
/// uploaded them.
pub struct HttpSinkState {
    pub buffer: Vec<u8>,
    pub uploaded: bool,
}

impl HttpSinkState {
    /// A sink with nothing written and nothing uploaded.
    pub fn new() -> (r: HttpSinkState)
        ensures
            r.buffer@ == Seq::<u8>::empty(),
            !r.uploaded,
    {
        HttpSinkState { buffer: Vec::new(), uploaded: false }
    }

    /// Takes bytes while nothing is uploaded; once the upload is made,
    /// refuses them and keeps the state.
    pub fn write(&mut self, buf: &[u8]) -> (accepted: bool)
        ensures
            accepted == !old(self).uploaded,
            final(self).uploaded == old(self).uploaded,
            accepted ==> final(self).buffer@ == old(self).buffer@ + buf@,
            !accepted ==> final(self).buffer@ == old(self).buffer@,
    {
        if self.uploaded {
            return false;
        }
        let mut i: usize = 0;
        while i < buf.len()
            invariant
                i <= buf@.len(),
                !self.uploaded,
                self.buffer@ == old(self).buffer@ + buf@.take(i as int),
            decreases buf@.len() - i,
        {
            self.buffer.push(buf[i]);
            assert(buf@.take(i + 1) =~= buf@.take(i as int).push(buf@[i as int]));
            i = i + 1;
        }
        assert(buf@.take(i as int) =~= buf@);
        true
    }

    /// Whether a flush has an upload to make: only the first one does.
    pub fn needs_upload(&self) -> (r: bool)
        ensures
            r == !self.uploaded,
    {
        !self.uploaded
    }

    /// Records that the bytes were uploaded.
    pub fn mark_uploaded(&mut self)
        ensures
            final(self).uploaded,
            final(self).buffer@ == old(self).buffer@,
    {
        self.uploaded = true;
    }
}

/// The request an upload is at: a `PUT` first, then a `POST`.
#[derive(Clone, Copy, PartialEq, Eq, Structural, Debug)]
pub enum UploadStage {
    Put,
    Post,
}

/// What an upload does next.
pub enum UploadAction {
    /// The request succeeded: the upload is done.
    Finish,
    /// The `PUT` failed: try a `POST`.
    SendPost,
    /// The `POST` failed too.
    Fail(TransportError),
}

/// The next step of an upload of `uri` after the request of `stage` was
/// answered with `status` (`success` when it is a success status): done on
/// success, a `POST` after a failed `PUT`, and after a failed `POST` the
/// error naming both methods, the URI and the status.
pub fn upload_step(uri: &str, stage: UploadStage, success: bool, status: u16) -> (r: UploadAction)
    ensures
        success ==> r is Finish,
        !success && stage == UploadStage::Put ==> r is SendPost,
        !success && stage == UploadStage::Post ==> (r matches UploadAction::Fail(e) && e@
            == TransportErrorV::HttpStatus("PUT/POST"@, uri@, status)),
{
    if success {
        UploadAction::Finish
    } else {
        match stage {
            UploadStage::Put => UploadAction::SendPost,
            UploadStage::Post => UploadAction::Fail(
                TransportError::HttpStatus { method: "PUT/POST", uri: to_string(uri), status },
            ),
        }
    }
}

/// The outcome of a `GET` of `uri` answered with `status`: the error
/// naming the method, the URI and the status unless it is a success.
pub fn download_outcome(uri: &str, success: bool, status: u16) -> (r: Result<(), TransportError>)
    ensures
        success ==> r is Ok,
        !success ==> (r matches Err(e) && e@ == TransportErrorV::HttpStatus("GET"@, uri@, status)),
{
    if success {
        Ok(())
    } else {
        Err(TransportError::HttpStatus { method: "GET", uri: to_string(uri), status })
    }
}

} // verus!
