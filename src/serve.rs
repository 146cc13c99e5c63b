use vstd::prelude::*;
use crate::data::{Asset, ServerInfo};
use crate::path::{file_name, file_name_of, get_valid_joined_path, within_root};
use crate::range::{
    content_range, content_range_text, range_decision_for, range_for_header, unsatisfied_range,
    unsatisfied_range_text, RangeDecision,
};

verus! {

/// The media type that a file name's extension suggests.
pub uninterp spec fn mime_type_of(path: Seq<char>) -> Seq<char>;

/// Relies on `mime_guess::from_path(..).first_or_octet_stream()`: the media
/// type is guessed from the path's text alone.
#[verifier::external_body]
fn guess_mime(path: &str) -> (r: String)
    ensures
        r@ == mime_type_of(path@),
{
    mime_guess::from_path(path).first_or_octet_stream().to_string()
}

/// What the file-serving side was started with.
#[derive(Debug)]
pub struct Config {
    pub root: String,
    pub prefix: String,
    pub allow_cors: bool,
    pub allow_download: bool,
}

impl Config {
    /// The file-serving settings of a server.
    pub fn from_info(info: &ServerInfo) -> (r: Config)
        ensures
            r.root == info.root,
            r.prefix == info.prefix,
            r.allow_cors == info.arg_allow_cors,
            r.allow_download == info.arg_allow_download,
    {
        Config {
            root: info.root.clone(),
            prefix: info.prefix.clone(),
            allow_cors: info.arg_allow_cors,
            allow_download: info.arg_allow_download,
        }
    }
}

impl<'a> From<&'a ServerInfo> for Config {
    /// The file-serving settings of a server.
    fn from(info: &'a ServerInfo) -> (r: Config) {
        Config::from_info(info)
    }
}

impl<'a> vstd::std_specs::convert::FromSpecImpl<&'a ServerInfo> for Config {
    open spec fn obeys_from_spec() -> bool {
        true
    }

    open spec fn from_spec(info: &'a ServerInfo) -> Config {
        Config {
            root: info.root,
            prefix: info.prefix,
            allow_cors: info.arg_allow_cors,
            allow_download: info.arg_allow_download,
        }
    }
}

/// An answer of the file-serving side.
#[derive(Debug)]
pub enum FileResponse {
    /// The whole file, as a download.
    Whole { mime: String, disposition: String, length: u64 },
    /// `length` bytes of the file from `start` on.
    Partial { mime: String, content_range: String, start: u64, length: u64 },
    /// The requested range cannot be served.
    RangeNotSatisfiable { content_range: String },
    /// Bytes of the asset bundle.
    Embedded { mime: String, gzip: bool, data: Vec<u8> },
    /// A permanent redirect.
    Redirect { location: String },
    /// The path leaves the sandbox.
    NotAcceptable,
    NotFound,
    BadRequest,
    InternalError,
}

impl FileResponse {
    /// The HTTP status code of the answer.
    pub open spec fn spec_status(&self) -> u16 {
        match *self {
            FileResponse::Whole { .. } => 200,
            FileResponse::Partial { .. } => 206,
            FileResponse::RangeNotSatisfiable { .. } => 416,
            FileResponse::Embedded { .. } => 200,
            FileResponse::Redirect { .. } => 302,
            FileResponse::NotAcceptable => 406,
            FileResponse::NotFound => 404,
            FileResponse::BadRequest => 400,
            FileResponse::InternalError => 500,
        }
    }

    pub fn status(&self) -> (r: u16)
        ensures
            r == self.spec_status(),
    {
        match *self {
            FileResponse::Whole { .. } => 200,
            FileResponse::Partial { .. } => 206,
            FileResponse::RangeNotSatisfiable { .. } => 416,
            FileResponse::Embedded { .. } => 200,
            FileResponse::Redirect { .. } => 302,
            FileResponse::NotAcceptable => 406,
            FileResponse::NotFound => 404,
            FileResponse::BadRequest => 400,
            FileResponse::InternalError => 500,
        }
    }
}

/// Where a request path leads.
#[derive(Debug)]
pub enum Route {
    /// A file of the sandbox, by its path relative to the root.
    FsFile(String),
    /// A file of the asset bundle.
    Embedded(String),
    /// An answer that needs nothing more.
    Respond(FileResponse),
}

/// The segments list with `cur` added, unless it is empty or `.`.
pub open spec fn push_segment(done: Seq<Seq<char>>, cur: Seq<char>) -> Seq<Seq<char>> {
    if cur.len() == 0 || cur == seq!['.'] {
        done
    } else {
        done.push(cur)
    }
}

/// The finished segments of `p` and the segment still open at its end.
pub open spec fn scan_segments(p: Seq<char>) -> (Seq<Seq<char>>, Seq<char>)
    decreases p.len(),
{
    if p.len() == 0 {
        (Seq::empty(), Seq::empty())
    } else {
        let prev = scan_segments(p.drop_last());
        if p.last() == '/' {
            (push_segment(prev.0, prev.1), Seq::empty())
        } else {
            (prev.0, prev.1.push(p.last()))
        }
    }
}

/// The components of a path: the pieces between separators, without empty
/// ones (repeated or trailing `/`) and without `.`.
pub open spec fn segments(p: Seq<char>) -> Seq<Seq<char>> {
    push_segment(scan_segments(p).0, scan_segments(p).1)
}

/// Segments joined by `/`.
pub open spec fn join_segments(s: Seq<Seq<char>>) -> Seq<char>
    decreases s.len(),
{
    if s.len() == 0 {
        Seq::empty()
    } else if s.len() == 1 {
        s[0]
    } else {
        join_segments(s.drop_last()) + seq!['/'] + s.last()
    }
}

/// The views of a list of strings.
pub open spec fn strings_view(v: Seq<String>) -> Seq<Seq<char>> {
    v.map_values(|s: String| s@)
}

/// A path that starts at the root.
pub open spec fn absolute(p: Seq<char>) -> bool {
    p.len() > 0 && p[0] == '/'
}

/// What follows the URL prefix `pre` in `p`, component by component and
/// joined again by `/`; `None` where `p` does not start with it.
pub open spec fn strip_url_prefix(p: Seq<char>, pre: Seq<char>) -> Option<Seq<char>> {
    let ps = segments(p);
    let qs = segments(pre);
    if absolute(p) && absolute(pre) && qs.len() <= ps.len() && ps.subrange(0, qs.len() as int)
        == qs {
        Some(join_segments(ps.subrange(qs.len() as int, ps.len() as int)))
    } else {
        None
    }
}

fn split_segments(p: &str) -> (r: Vec<String>)
    ensures
        strings_view(r@) == segments(p@),
{
    let n = p.unicode_len();
    let mut done: Vec<String> = Vec::new();
    let mut cur = String::new();
    let mut i: usize = 0;
    while i < n
        invariant
            n == p@.len(),
            i <= n,
            strings_view(done@) == scan_segments(p@.subrange(0, i as int)).0,
            cur@ == scan_segments(p@.subrange(0, i as int)).1,
        decreases n - i,
    {
        let ghost sub = p@.subrange(0, i as int + 1);
        assert(sub.drop_last() =~= p@.subrange(0, i as int));
        let c = p.get_char(i);
        assert(sub.last() == c);
        if c == '/' {
            let k = cur.unicode_len();
            let dot = k == 1 && cur.get_char(0) == '.';
            assert(dot <==> cur@ == seq!['.']) by {
                if k == 1 {
                    assert(cur@ == seq!['.'] <==> cur@[0] == '.') by {
                        if cur@[0] == '.' {
                            assert(cur@ =~= seq!['.']);
                        }
                    }
                }
            }
            if k != 0 && !dot {
                let ghost before = strings_view(done@);
                done.push(cur);
                assert(strings_view(done@) =~= before.push(scan_segments(p@.subrange(0, i as int)).1));
            }
            cur = String::new();
        } else {
            let piece = p.substring_char(i, i + 1);
            assert(piece@ =~= seq![c]);
            cur.append(piece);
            assert(cur@ =~= scan_segments(sub).1);
        }
        i = i + 1;
    }
    assert(p@.subrange(0, n as int) =~= p@);
    let k = cur.unicode_len();
    let dot = k == 1 && cur.get_char(0) == '.';
    assert(dot <==> cur@ == seq!['.']) by {
        if k == 1 {
            if cur@[0] == '.' {
                assert(cur@ =~= seq!['.']);
            }
        }
    }
    if k != 0 && !dot {
        let ghost before = strings_view(done@);
        done.push(cur);
        assert(strings_view(done@) =~= before.push(scan_segments(p@).1));
    }
    done
}

fn join_from(segs: &Vec<String>, from: usize) -> (r: String)
    requires
        from <= segs@.len(),
    ensures
        r@ == join_segments(strings_view(segs@).subrange(from as int, segs@.len() as int)),
{
    let ghost v = strings_view(segs@);
    let mut r = String::new();
    let mut i: usize = from;
    assert(v.subrange(from as int, from as int) =~= Seq::<Seq<char>>::empty());
    while i < segs.len()
        invariant
            from <= i <= segs@.len(),
            v == strings_view(segs@),
            r@ == join_segments(v.subrange(from as int, i as int)),
        decreases segs@.len() - i,
    {
        proof {
            reveal_strlit("/");
        }
        let ghost sub = v.subrange(from as int, i as int + 1);
        assert(sub.drop_last() =~= v.subrange(from as int, i as int));
        assert(sub.last() == segs@[i as int]@);
        if i == from {
            r = segs[i].clone();
            assert(sub =~= seq![segs@[i as int]@]);
        } else {
            r.append("/");
            r.append(segs[i].as_str());
        }
        i = i + 1;
    }
    r
}

fn strip_url_prefix_exec(p: &str, pre: &str) -> (r: Option<String>)
    ensures
        r is None <==> strip_url_prefix(p@, pre@) is None,
        r matches Some(s) ==> strip_url_prefix(p@, pre@) == Some(s@),
{
    let pn = p.unicode_len();
    let qn = pre.unicode_len();
    if pn == 0 || p.get_char(0) != '/' || qn == 0 || pre.get_char(0) != '/' {
        return None;
    }
    let ps = split_segments(p);
    let qs = split_segments(pre);
    if qs.len() > ps.len() {
        return None;
    }
    let mut i: usize = 0;
    while i < qs.len()
        invariant
            qs@.len() <= ps@.len(),
            i <= qs@.len(),
            strings_view(ps@) == segments(p@),
            strings_view(qs@) == segments(pre@),
            absolute(p@),
            absolute(pre@),
            forall|j: int| 0 <= j < i ==> ps@[j]@ == qs@[j]@,
        decreases qs@.len() - i,
    {
        if !crate::data::same_text(ps[i].as_str(), qs[i].as_str()) {
            assert(strings_view(ps@)[i as int] == ps@[i as int]@);
            assert(strings_view(qs@)[i as int] == qs@[i as int]@);
            assert(strings_view(ps@).subrange(0, qs@.len() as int)[i as int] != strings_view(qs@)[i as int]);
            assert(strings_view(ps@).subrange(0, qs@.len() as int) != strings_view(qs@));
            return None;
        }
        i = i + 1;
    }
    assert(strings_view(ps@).subrange(0, qs@.len() as int) =~= strings_view(qs@));
    Some(join_from(&ps, qs.len()))
}

/// Routes a request path: under the prefix to the sandbox when downloads are
/// allowed (the prefix alone is not found), otherwise to the asset bundle (the
/// root alone redirects to the index page). Paths are compared and rebuilt
/// component by component.
pub fn serve_files(config: &Config, url_path: &str) -> (r: Route)
    ensures
        config.allow_download && strip_url_prefix(url_path@, config.prefix@) == Some(
            Seq::<char>::empty(),
        ) ==> r matches Route::Respond(FileResponse::NotFound),
        config.allow_download ==> (strip_url_prefix(url_path@, config.prefix@) matches Some(rest)
            ==> (rest.len() > 0 ==> (r matches Route::FsFile(s) && s@ == rest))),
        !(config.allow_download && strip_url_prefix(url_path@, config.prefix@) is Some) ==> {
            &&& (absolute(url_path@) && join_segments(segments(url_path@)).len() == 0) ==> (
            r matches Route::Respond(FileResponse::Redirect { location }) && location@ == seq![
                '/',
                'i',
                'n',
                'd',
                'e',
                'x',
                '.',
                'h',
                't',
                'm',
                'l',
            ])
            &&& (absolute(url_path@) && join_segments(segments(url_path@)).len() > 0) ==> (
            r matches Route::Embedded(s) && s@ == join_segments(segments(url_path@)))
            &&& !absolute(url_path@) ==> r matches Route::Respond(FileResponse::BadRequest)
        },
{
    proof {
        reveal_strlit("/index.html");
    }
    if config.allow_download {
        match strip_url_prefix_exec(url_path, config.prefix.as_str()) {
            Some(rest) => {
                if rest.unicode_len() == 0 {
                    return Route::Respond(FileResponse::NotFound);
                }
                return Route::FsFile(rest);
            },
            None => {},
        }
    }
    let n = url_path.unicode_len();
    if n > 0 && url_path.get_char(0) == '/' {
        let segs = split_segments(url_path);
        let rest = join_from(&segs, 0);
        assert(strings_view(segs@).subrange(0, segs@.len() as int) =~= strings_view(segs@));
        if rest.unicode_len() == 0 {
            return Route::Respond(
                FileResponse::Redirect { location: String::from_str("/index.html") },
            );
        }
        return Route::Embedded(rest);
    }
    Route::Respond(FileResponse::BadRequest)
}

/// Keeps the canonical path of a requested sandbox file when it lies within
/// the root; a path that could not be resolved or that leaves the root is not
/// acceptable.
pub fn resolve_fs_file(config: &Config, canonical: Option<&str>) -> (r: Result<
    String,
    FileResponse,
>)
    ensures
        r is Ok <==> (canonical matches Some(c) && within_root(config.root@, c@)),
        r matches Ok(p) ==> (canonical matches Some(c) && p@ == c@),
        r matches Err(e) ==> e is NotAcceptable,
{
    match canonical {
        None => Err(FileResponse::NotAcceptable),
        Some(c) => match get_valid_joined_path(config.root.as_str(), c) {
            Ok(p) => Ok(p),
            Err(_) => Err(FileResponse::NotAcceptable),
        },
    }
}

/// The lower-case hexadecimal digit of `d`.
pub open spec fn hex_char(d: nat) -> char {
    if d == 0 {
        '0'
    } else if d == 1 {
        '1'
    } else if d == 2 {
        '2'
    } else if d == 3 {
        '3'
    } else if d == 4 {
        '4'
    } else if d == 5 {
        '5'
    } else if d == 6 {
        '6'
    } else if d == 7 {
        '7'
    } else if d == 8 {
        '8'
    } else if d == 9 {
        '9'
    } else if d == 10 {
        'a'
    } else if d == 11 {
        'b'
    } else if d == 12 {
        'c'
    } else if d == 13 {
        'd'
    } else if d == 14 {
        'e'
    } else {
        'f'
    }
}

/// `n`, below 256, in lower-case hexadecimal without leading zeros.
pub open spec fn hex_small(n: nat) -> Seq<char> {
    if n < 16 {
        seq![hex_char(n)]
    } else {
        seq![hex_char(n / 16), hex_char(n % 16)]
    }
}

/// A control character: `U+0000` to `U+001F`, or `U+007F` to `U+009F`.
pub open spec fn is_control(c: char) -> bool {
    (c as u32) < 0x20 || (0x7f <= (c as u32) && (c as u32) < 0xa0)
}

/// How one character stands between double quotes: `"` and `\\` behind a
/// backslash, tab, line feed, carriage return and NUL as their short escapes,
/// any other control character as `\\u{hex}`, the rest as itself.
pub open spec fn escape_char(c: char) -> Seq<char> {
    if c == '"' || c == '\\' {
        seq!['\\', c]
    } else if c == '\t' {
        seq!['\\', 't']
    } else if c == '\n' {
        seq!['\\', 'n']
    } else if c == '\r' {
        seq!['\\', 'r']
    } else if c == '\0' {
        seq!['\\', '0']
    } else if is_control(c) {
        seq!['\\', 'u', '{'] + hex_small(c as nat) + seq!['}']
    } else {
        seq![c]
    }
}

/// `s` with each character escaped for a quoted header parameter.
pub open spec fn escaped(s: Seq<char>) -> Seq<char>
    decreases s.len(),
{
    if s.len() == 0 {
        Seq::empty()
    } else {
        escaped(s.drop_last()) + escape_char(s.last())
    }
}

fn hex_digit(d: u32) -> (r: &'static str)
    requires
        d < 16,
    ensures
        r@ == seq![hex_char(d as nat)],
{
    proof {
        reveal_strlit("0");
        reveal_strlit("1");
        reveal_strlit("2");
        reveal_strlit("3");
        reveal_strlit("4");
        reveal_strlit("5");
        reveal_strlit("6");
        reveal_strlit("7");
        reveal_strlit("8");
        reveal_strlit("9");
        reveal_strlit("a");
        reveal_strlit("b");
        reveal_strlit("c");
        reveal_strlit("d");
        reveal_strlit("e");
        reveal_strlit("f");
    }
    if d == 0 {
        "0"
    } else if d == 1 {
        "1"
    } else if d == 2 {
        "2"
    } else if d == 3 {
        "3"
    } else if d == 4 {
        "4"
    } else if d == 5 {
        "5"
    } else if d == 6 {
        "6"
    } else if d == 7 {
        "7"
    } else if d == 8 {
        "8"
    } else if d == 9 {
        "9"
    } else if d == 10 {
        "a"
    } else if d == 11 {
        "b"
    } else if d == 12 {
        "c"
    } else if d == 13 {
        "d"
    } else if d == 14 {
        "e"
    } else {
        "f"
    }
}

fn escape_piece(c: char, piece: &str) -> (r: String)
    requires
        piece@ == seq![c],
    ensures
        r@ == escape_char(c),
{
    proof {
        reveal_strlit("\\");
        reveal_strlit("\\t");
        reveal_strlit("\\n");
        reveal_strlit("\\r");
        reveal_strlit("\\0");
        reveal_strlit("\\u{");
        reveal_strlit("}");
    }
    if c == '"' || c == '\\' {
        String::from_str("\\").concat(piece)
    } else if c == '\t' {
        String::from_str("\\t")
    } else if c == '\n' {
        String::from_str("\\n")
    } else if c == '\r' {
        String::from_str("\\r")
    } else if c == '\0' {
        String::from_str("\\0")
    } else if (c as u32) < 0x20 || (0x7f <= (c as u32) && (c as u32) < 0xa0) {
        let v = c as u32;
        let mut r = String::from_str("\\u{");
        if v >= 16 {
            r.append(hex_digit(v / 16));
        }
        r.append(hex_digit(v % 16));
        r.append("}");
        r
    } else {
        String::from_str(piece)
    }
}

/// Quotes-safe text of `s`.
pub fn escape_quoted(s: &str) -> (r: String)
    ensures
        r@ == escaped(s@),
{
    let n = s.unicode_len();
    let mut r = String::new();
    let mut i: usize = 0;
    while i < n
        invariant
            n == s@.len(),
            i <= n,
            r@ == escaped(s@.subrange(0, i as int)),
        decreases n - i,
    {
        let ghost before = s@.subrange(0, i as int + 1);
        assert(before.drop_last() =~= s@.subrange(0, i as int));
        let c = s.get_char(i);
        let piece = s.substring_char(i, i + 1);
        assert(piece@ =~= seq![c]);
        assert(before.last() == c);
        let e = escape_piece(c, piece);
        r.append(e.as_str());
        i = i + 1;
    }
    assert(s@.subrange(0, n as int) =~= s@);
    r
}

/// `attachment; filename="<name>"`.
pub open spec fn disposition_text(name: Seq<char>) -> Seq<char> {
    seq!['a', 't', 't', 'a', 'c', 'h', 'm', 'e', 'n', 't', ';', ' ', 'f', 'i', 'l', 'e', 'n', 'a', 'm', 'e', '=', '"'] + name + seq!['"']
}

/// The answer that `decision` calls for, on the sandbox file `full_path` of
/// `length` bytes: the whole file as a download; the range with its
/// `Content-Range` (whose total is the slice's own length); or a refusal.
pub open spec fn answers(full_path: Seq<char>, length: u64, decision: RangeDecision, r: FileResponse) -> bool {
    match decision {
        RangeDecision::Whole => r matches FileResponse::Whole { mime, disposition, length: l }
            && mime@ == mime_type_of(full_path) && l == length && disposition@ == disposition_text(
            escaped(file_name_of(full_path)),
        ),
        RangeDecision::Partial { start, end } => r matches FileResponse::Partial {
            mime,
            content_range: cr,
            start: s,
            length: l,
        } && s == start && l == end - start + 1 && mime@ == mime_type_of(full_path) && cr@
            == content_range_text(start, end, (end - start + 1) as u64),
        RangeDecision::Unsatisfiable => r matches FileResponse::RangeNotSatisfiable {
            content_range: cr,
        } && cr@ == unsatisfied_range_text(length),
    }
}

/// Builds the answer that a range decision calls for.
pub fn build_range_response(full_path: &str, length: u64, decision: RangeDecision) -> (r:
    FileResponse)
    requires
        decision matches RangeDecision::Partial { start, end } ==> start <= end && end < length,
    ensures
        answers(full_path@, length, decision, r),
{
    proof {
        reveal_strlit("attachment; filename=\"");
        reveal_strlit("\"");
    }
    match decision {
        RangeDecision::Whole => {
            let name = match file_name(full_path) {
                Ok(n) => n,
                Err(_) => String::new(),
            };
            assert(name@ =~= file_name_of(full_path@));
            let quoted = escape_quoted(name.as_str());
            let disposition = String::from_str("attachment; filename=\"").concat(
                quoted.as_str(),
            ).concat("\"");
            assert(disposition@ =~= disposition_text(escaped(file_name_of(full_path@))));
            FileResponse::Whole { mime: guess_mime(full_path), disposition, length }
        },
        RangeDecision::Partial { start, end } => {
            let size = end - start + 1;
            FileResponse::Partial {
                mime: guess_mime(full_path),
                content_range: content_range(start, end, size),
                start,
                length: size,
            }
        },
        RangeDecision::Unsatisfiable => {
            FileResponse::RangeNotSatisfiable { content_range: unsatisfied_range(length) }
        },
    }
}

/// The answer for the sandbox file `full_path` of `length` bytes, given the
/// request's `Range` header: the whole file, the one range it asks for, or a
/// refusal (malformed, unsatisfiable or several ranges).
pub fn serve_fs_file(full_path: &str, length: u64, range_header: Option<&str>) -> (r:
    FileResponse)
    ensures
        answers(
            full_path@,
            length,
            range_decision_for(
                match range_header {
                    None => None,
                    Some(h) => Some(h@),
                },
                length,
            ),
            r,
        ),
{
    let decision = range_for_header(range_header, length);
    build_range_response(full_path, length, decision)
}

/// `p` followed by `.gz`.
pub open spec fn gzip_name(p: Seq<char>) -> Seq<char> {
    p + seq!['.', 'g', 'z']
}

/// An asset of the bundle: its gzip form where the bundle has one, else its
/// plain bytes, else not found.
pub fn serve_embedded_files(asset: &Asset, path: &str) -> (r: FileResponse)
    ensures
        asset.spec_get(gzip_name(path@)) matches Some(d) ==> (r matches FileResponse::Embedded {
            mime,
            gzip,
            data,
        } && gzip && data@ == d && mime@ == mime_type_of(path@)),
        asset.spec_get(gzip_name(path@)) is None ==> (asset.spec_get(path@) matches Some(d) ==> (
        r matches FileResponse::Embedded { mime, gzip, data } && !gzip && data@ == d && mime@
            == mime_type_of(path@))),
        asset.spec_get(gzip_name(path@)) is None && asset.spec_get(path@) is None ==> r
            is NotFound,
{
    proof {
        reveal_strlit(".gz");
    }
    let gz = String::from_str(path).concat(".gz");
    assert(gz@ =~= gzip_name(path@));
    match asset.get(gz.as_str()) {
        Some(data) => {
            return FileResponse::Embedded { mime: guess_mime(path), gzip: true, data };
        },
        None => {},
    }
    match asset.get(path) {
        Some(data) => FileResponse::Embedded { mime: guess_mime(path), gzip: false, data },
        None => FileResponse::NotFound,
    }
}

} // verus!
