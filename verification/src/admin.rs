//! The admin web server's decisions: which handler a request goes to,
//! which uploads are refused, and what each outcome is answered.
use vstd::prelude::*;
use crate::paths::{joined, GrandmaPaths};
use crate::text::{concat2, concat3, has_prefix, starts_with, str_eq};
use crate::config::GamesConfig;
use crate::validate::{first_problem, launch_extensions, validate_games};

verus! {

/// The HTTP methods the server tells apart.
#[derive(Debug, Clone, Copy, PartialEq, Eq, Structural)]
pub enum HttpMethod {
    Get,
    Post,
    Other,
}

/// The handler a request goes to.
#[derive(Debug, Clone)]
pub enum Route {
    /// The admin page.
    Index,
    /// The list of `.mra` files on the device.
    AvailableMra,
    /// The current game list.
    GetGames,
    /// Replace the game list.
    PostGames,
    /// Upload the box art of the game with this ID.
    PostArt(String),
    /// Anything else.
    NotFound,
}

/// The URL prefix of art uploads.
pub open spec fn art_prefix() -> Seq<char> {
    "/api/art/"@
}

/// The route of a request, by method and URL.
pub open spec fn route_of(method: HttpMethod, url: Seq<char>) -> Route {
    if method == HttpMethod::Get && url == "/"@ {
        Route::Index
    } else if method == HttpMethod::Get && url == "/api/available-mra"@ {
        Route::AvailableMra
    } else if method == HttpMethod::Get && url == "/api/games"@ {
        Route::GetGames
    } else if method == HttpMethod::Post && url == "/api/games"@ {
        Route::PostGames
    } else if method == HttpMethod::Post && has_prefix(url, art_prefix()) {
        Route::PostArt(arbitrary())
    } else {
        Route::NotFound
    }
}

/// Route a request.  An art upload carries the rest of the URL after the
/// prefix as the game ID.
pub fn route(method: HttpMethod, url: &str) -> (r: Route)
    ensures
        match route_of(method, url@) {
            Route::PostArt(_) => r matches Route::PostArt(id) && id@ == url@.skip(
                art_prefix().len() as int,
            ),
            other => r == other,
        },
{
    proof {
        reveal_strlit("/api/art/");
    }
    let is_get = method == HttpMethod::Get;
    let is_post = method == HttpMethod::Post;
    if is_get && str_eq(url, "/") {
        Route::Index
    } else if is_get && str_eq(url, "/api/available-mra") {
        Route::AvailableMra
    } else if is_get && str_eq(url, "/api/games") {
        Route::GetGames
    } else if is_post && str_eq(url, "/api/games") {
        Route::PostGames
    } else if is_post && starts_with(url, "/api/art/") {
        let n = url.unicode_len();
        let id = url.substring_char(9, n);
        Route::PostArt(String::from_str(id))
    } else {
        Route::NotFound
    }
}

/// The largest game list upload accepted, in bytes.
pub const MAX_GAMES_BODY: usize = 1_048_576;

/// The largest art upload accepted, in bytes.
pub const MAX_ART_SIZE: u64 = 2 * 1024 * 1024;

/// Whether a game list upload is refused for its announced length (an
/// upload without a length is read up to the limit).
pub fn games_upload_too_large(content_length: Option<usize>) -> (r: bool)
    ensures
        r == match content_length {
            Some(n) => n > MAX_GAMES_BODY,
            None => false,
        },
{
    let n = match content_length {
        Some(n) => n,
        None => 0,
    };
    n > MAX_GAMES_BODY
}

/// Whether an art upload is refused for its announced length (an upload
/// without a length is read up to the limit).
pub fn art_upload_too_large(content_length: Option<usize>) -> (r: bool)
    ensures
        r == match content_length {
            Some(n) => n > MAX_ART_SIZE,
            None => false,
        },
{
    match content_length {
        Some(n) => n as u64 > MAX_ART_SIZE,
        None => false,
    }
}

/// Whether a character may occur in a game ID: a lowercase ASCII letter or a digit.
pub open spec fn id_char(c: char) -> bool {
    ('a' <= c && c <= 'z') || ('0' <= c && c <= '9')
}

/// Whether a game ID names an art file safely: 1 to 64 lowercase ASCII
/// letters and digits.
pub open spec fn valid_art_id(id: Seq<char>) -> bool {
    0 < id.len() <= 64 && forall|i: int| 0 <= i < id.len() ==> id_char(#[trigger] id[i])
}

/// Check the game ID of an art upload.
pub fn art_id_valid(id: &str) -> (r: bool)
    ensures
        r == valid_art_id(id@),
{
    let n = id.unicode_len();
    if n == 0 || n > 64 {
        return false;
    }
    let mut i: usize = 0;
    while i < n
        invariant
            n == id@.len(),
            i <= n,
            forall|j: int| 0 <= j < i ==> id_char(#[trigger] id@[j]),
        decreases n - i,
    {
        let c = id.get_char(i);
        if !(('a' <= c && c <= 'z') || ('0' <= c && c <= '9')) {
            return false;
        }
        i += 1;
    }
    true
}

/// The first eight bytes of every PNG file.
pub open spec fn png_magic() -> Seq<u8> {
    seq![0x89u8, 0x50u8, 0x4Eu8, 0x47u8, 0x0Du8, 0x0Au8, 0x1Au8, 0x0Au8]
}

/// Why an art upload's body is refused.
#[derive(Debug, Clone, Copy, PartialEq, Eq, Structural)]
pub enum ArtBodyProblem {
    Empty,
    NotPng,
}

/// Check an art upload's body: it must not be empty and must start like a PNG file.
pub fn check_art_body(body: &[u8]) -> (r: Result<(), ArtBodyProblem>)
    ensures
        body@.len() == 0 ==> r == Err::<(), ArtBodyProblem>(ArtBodyProblem::Empty),
        body@.len() > 0 && !(body@.len() >= 8 && body@.take(8) == png_magic()) ==> r == Err::<
            (),
            ArtBodyProblem,
        >(ArtBodyProblem::NotPng),
        body@.len() >= 8 && body@.take(8) == png_magic() ==> r is Ok,
{
    if body.len() == 0 {
        return Err(ArtBodyProblem::Empty);
    }
    if body.len() < 8 {
        return Err(ArtBodyProblem::NotPng);
    }
    let magic: [u8; 8] = [0x89, 0x50, 0x4E, 0x47, 0x0D, 0x0A, 0x1A, 0x0A];
    let mut i: usize = 0;
    while i < 8
        invariant
            body@.len() >= 8,
            magic@ == png_magic(),
            i <= 8,
            forall|j: int| 0 <= j < i ==> body@[j] == png_magic()[j],
        decreases 8 - i,
    {
        if body[i] != magic[i] {
            assert(body@.take(8)[i as int] != png_magic()[i as int]);
            return Err(ArtBodyProblem::NotPng);
        }
        i += 1;
    }
    assert(body@.take(8) =~= png_magic());
    Ok(())
}

/// An answer of the admin server.
#[derive(Debug, Clone)]
pub struct ApiResponse {
    pub status: u16,
    pub body: String,
    /// Whether the answer is marked `Content-Type: application/json`.
    pub json_header: bool,
}

/// The JSON object `{"error":"<msg>"}`; `msg` is put in as it is.
pub open spec fn error_json_of(msg: Seq<char>) -> Seq<char> {
    "{\"error\":\""@ + msg + "\"}"@
}

/// The JSON object `{"error":"<msg>"}`; `msg` is put in as it is.
pub fn error_json(msg: &str) -> (s: String)
    ensures
        s@ == error_json_of(msg@),
{
    concat3("{\"error\":\"", msg, "\"}")
}

/// What became of a game list upload.
#[derive(Debug, Clone)]
pub enum GamesUpload {
    /// The announced length is over the limit.
    TooLarge,
    /// The body is not a game list; the parser's message.
    ParseFailed(String),
    /// The list fails validation; the validator's message.
    Invalid(String),
    /// The list was saved.
    Saved,
    /// Saving failed; the writer's message.
    SaveFailed(String),
}

/// The answer to a game list upload.
pub open spec fn games_upload_answer(o: GamesUpload) -> (u16, Seq<char>, bool) {
    match o {
        GamesUpload::TooLarge => (413, "{\"error\":\"Request body too large\"}"@, false),
        GamesUpload::ParseFailed(m) => (400, error_json_of(m@), false),
        GamesUpload::Invalid(m) => (400, error_json_of(m@), false),
        GamesUpload::Saved => (200, "{\"ok\":true}"@, true),
        GamesUpload::SaveFailed(m) => (500, error_json_of(m@), false),
    }
}

/// Answer a game list upload.
pub fn games_upload_response(o: &GamesUpload) -> (r: ApiResponse)
    ensures
        (r.status, r.body@, r.json_header) == games_upload_answer(*o),
{
    match o {
        GamesUpload::TooLarge => ApiResponse {
            status: 413,
            body: String::from_str("{\"error\":\"Request body too large\"}"),
            json_header: false,
        },
        GamesUpload::ParseFailed(m) => ApiResponse {
            status: 400,
            body: error_json(m.as_str()),
            json_header: false,
        },
        GamesUpload::Invalid(m) => ApiResponse {
            status: 400,
            body: error_json(m.as_str()),
            json_header: false,
        },
        GamesUpload::Saved => ApiResponse {
            status: 200,
            body: String::from_str("{\"ok\":true}"),
            json_header: true,
        },
        GamesUpload::SaveFailed(m) => ApiResponse {
            status: 500,
            body: error_json(m.as_str()),
            json_header: false,
        },
    }
}

/// What became of an art upload.
#[derive(Debug, Clone, Copy, PartialEq, Eq, Structural)]
pub enum ArtUpload {
    InvalidId,
    TooLarge,
    ReadFailed,
    Empty,
    NotPng,
    DirFailed,
    Saved,
    SaveFailed,
}

/// The answer to an art upload; every one is marked as JSON.
pub open spec fn art_upload_answer(o: ArtUpload) -> (u16, Seq<char>) {
    match o {
        ArtUpload::InvalidId => (
            400,
            "{\"error\":\"Invalid game_id: must be non-empty lowercase alphanumeric\"}"@,
        ),
        ArtUpload::TooLarge => (413, "{\"error\":\"Request body too large\"}"@),
        ArtUpload::ReadFailed => (500, "{\"error\":\"Failed to read request body\"}"@),
        ArtUpload::Empty => (400, "{\"error\":\"Empty body\"}"@),
        ArtUpload::NotPng => (400, "{\"error\":\"Invalid PNG file\"}"@),
        ArtUpload::DirFailed => (500, "{\"error\":\"Failed to create boxart directory\"}"@),
        ArtUpload::Saved => (200, "{\"ok\":true}"@),
        ArtUpload::SaveFailed => (500, "{\"error\":\"Failed to save art\"}"@),
    }
}

/// Answer an art upload.
pub fn art_upload_response(o: ArtUpload) -> (r: ApiResponse)
    ensures
        (r.status, r.body@) == art_upload_answer(o),
        r.json_header,
{
    let (status, body) = match o {
        ArtUpload::InvalidId => (
            400,
            "{\"error\":\"Invalid game_id: must be non-empty lowercase alphanumeric\"}",
        ),
        ArtUpload::TooLarge => (413, "{\"error\":\"Request body too large\"}"),
        ArtUpload::ReadFailed => (500, "{\"error\":\"Failed to read request body\"}"),
        ArtUpload::Empty => (400, "{\"error\":\"Empty body\"}"),
        ArtUpload::NotPng => (400, "{\"error\":\"Invalid PNG file\"}"),
        ArtUpload::DirFailed => (500, "{\"error\":\"Failed to create boxart directory\"}"),
        ArtUpload::Saved => (200, "{\"ok\":true}"),
        ArtUpload::SaveFailed => (500, "{\"error\":\"Failed to save art\"}"),
    };
    ApiResponse { status, body: String::from_str(body), json_header: true }
}

/// The next step of handling an art upload.
#[derive(Debug, Clone, Copy, PartialEq, Eq, Structural)]
pub enum ArtUploadStep {
    /// Read the body, at most `MAX_ART_SIZE` bytes.
    ReadBody,
    /// Make sure the box art directory exists.
    CreateDir,
    /// Write the body to the game's art file (`art_file_path`).
    Write,
    /// Answer with this outcome and stop.
    Finish(ArtUpload),
}

/// The first step of an art upload for game `id`, announced as
/// `content_length` bytes: the ID is checked first, then the length.
pub fn art_upload_start(id: &str, content_length: Option<usize>) -> (s: ArtUploadStep)
    ensures
        s == if !valid_art_id(id@) {
            ArtUploadStep::Finish(ArtUpload::InvalidId)
        } else if content_length matches Some(n) && n > MAX_ART_SIZE {
            ArtUploadStep::Finish(ArtUpload::TooLarge)
        } else {
            ArtUploadStep::ReadBody
        },
{
    if !art_id_valid(id) {
        ArtUploadStep::Finish(ArtUpload::InvalidId)
    } else if art_upload_too_large(content_length) {
        ArtUploadStep::Finish(ArtUpload::TooLarge)
    } else {
        ArtUploadStep::ReadBody
    }
}

/// The step after reading an art upload's body (`None` if reading failed):
/// an empty body, then one that is not a PNG file, is refused.
pub fn art_upload_after_read(body: Option<&[u8]>) -> (s: ArtUploadStep)
    ensures
        s == match body {
            None => ArtUploadStep::Finish(ArtUpload::ReadFailed),
            Some(b) => if b@.len() == 0 {
                ArtUploadStep::Finish(ArtUpload::Empty)
            } else if !(b@.len() >= 8 && b@.take(8) == png_magic()) {
                ArtUploadStep::Finish(ArtUpload::NotPng)
            } else {
                ArtUploadStep::CreateDir
            },
        },
{
    match body {
        None => ArtUploadStep::Finish(ArtUpload::ReadFailed),
        Some(b) => match check_art_body(b) {
            Err(ArtBodyProblem::Empty) => ArtUploadStep::Finish(ArtUpload::Empty),
            Err(ArtBodyProblem::NotPng) => ArtUploadStep::Finish(ArtUpload::NotPng),
            Ok(()) => ArtUploadStep::CreateDir,
        },
    }
}

/// The step after making sure the box art directory exists.
pub fn art_upload_after_dir(created: bool) -> (s: ArtUploadStep)
    ensures
        s == if created {
            ArtUploadStep::Write
        } else {
            ArtUploadStep::Finish(ArtUpload::DirFailed)
        },
{
    if created {
        ArtUploadStep::Write
    } else {
        ArtUploadStep::Finish(ArtUpload::DirFailed)
    }
}

/// The outcome of an art upload after writing its file.
pub fn art_upload_after_write(written: bool) -> (o: ArtUpload)
    ensures
        o == if written {
            ArtUpload::Saved
        } else {
            ArtUpload::SaveFailed
        },
{
    if written {
        ArtUpload::Saved
    } else {
        ArtUpload::SaveFailed
    }
}

/// The next step of handling a game list upload.
#[derive(Debug, Clone)]
pub enum GamesUploadStep {
    /// Read the body, at most `MAX_GAMES_BODY` bytes.
    ReadBody,
    /// Save the list.
    Save,
    /// Answer with this outcome and stop.
    Finish(GamesUpload),
}

/// The first step of a game list upload announced as `content_length` bytes.
pub fn games_upload_start(content_length: Option<usize>) -> (s: GamesUploadStep)
    ensures
        if content_length matches Some(n) && n > MAX_GAMES_BODY {
            s matches GamesUploadStep::Finish(GamesUpload::TooLarge)
        } else {
            s is ReadBody
        },
{
    if games_upload_too_large(content_length) {
        GamesUploadStep::Finish(GamesUpload::TooLarge)
    } else {
        GamesUploadStep::ReadBody
    }
}

/// The step after parsing a game list upload (`Err` holds the parser's
/// message): a list that does not parse, then one that fails validation,
/// is refused; otherwise it is saved.  Validation reads which launch files
/// exist from disk, so the result is stated for what the disk said.
pub fn games_upload_after_parse(parsed: &Result<GamesConfig, String>) -> (s: GamesUploadStep)
    ensures
        match parsed {
            Err(m) => s matches GamesUploadStep::Finish(GamesUpload::ParseFailed(x)) && x@ == m@,
            Ok(c) => exists|on_disk: Seq<bool>|
                on_disk.len() == c.games@.len() && match #[trigger] first_problem(
                    c.games@,
                    launch_extensions(c.games@),
                    on_disk,
                    0,
                ) {
                    None => s is Save,
                    Some(msg) => s matches GamesUploadStep::Finish(GamesUpload::Invalid(e)) && e@
                        == msg,
                },
        },
{
    match parsed {
        Err(m) => GamesUploadStep::Finish(GamesUpload::ParseFailed(m.clone())),
        Ok(c) => match validate_games(c) {
            Err(e) => GamesUploadStep::Finish(GamesUpload::Invalid(e)),
            Ok(()) => GamesUploadStep::Save,
        },
    }
}

/// The outcome of a game list upload after saving it (`Err` holds the
/// writer's message).
pub fn games_upload_after_save(saved: Result<(), String>) -> (o: GamesUpload)
    ensures
        match saved {
            Ok(()) => o is Saved,
            Err(m) => o matches GamesUpload::SaveFailed(x) && x@ == m@,
        },
{
    match saved {
        Ok(()) => GamesUpload::Saved,
        Err(m) => GamesUpload::SaveFailed(m),
    }
}

/// The answer to a request that matches no route.
pub fn not_found_response() -> (r: ApiResponse)
    ensures
        r.status == 404,
        r.body@ == "404"@,
        !r.json_header,
{
    ApiResponse { status: 404, body: String::from_str("404"), json_header: false }
}

/// Where the art of game `id` is stored.
pub fn art_file_path(paths: &GrandmaPaths, id: &str) -> (p: String)
    ensures
        p@ == joined(joined(paths.base@, "assets/boxart"@), id@ + ".png"@),
{
    let dir = paths.boxart_dir();
    let file = concat2(id, ".png");
    crate::paths::join(dir.as_str(), file.as_str())
}


/// What `std::path::Path::file_stem` gives for a path: the file name
/// without its extension, if the path has a file name.
pub uninterp spec fn file_stem_of(path: Seq<char>) -> Option<Seq<char>>;

/// `Path::file_stem` of `path`, as a `String` (a UTF-8 path's stem is
/// UTF-8).  The result is the named `file_stem_of` of the path.
#[verifier::external_body]
fn path_file_stem(path: &str) -> (s: Option<String>)
    ensures
        match s {
            Some(x) => file_stem_of(path@) == Some(x@),
            None => file_stem_of(path@) is None,
        },
{
    std::path::Path::new(path).file_stem().and_then(|x| x.to_str()).map(|x| x.to_string())
}

/// What `str::to_lowercase` gives: the Unicode lowercase form of a string.
pub uninterp spec fn lowercase_of(s: Seq<char>) -> Seq<char>;

/// `str::to_lowercase`.  The result is the named `lowercase_of` of `s`.
#[verifier::external_body]
fn str_to_lowercase(s: &str) -> (r: String)
    ensures
        r@ == lowercase_of(s@),
{
    s.to_lowercase()
}

/// What `char::is_alphanumeric` gives: whether `c` is alphabetic or
/// numeric in Unicode.
pub uninterp spec fn alphanumeric(c: char) -> bool;

/// `char::is_alphanumeric`.  The result is the named `alphanumeric` of `c`.
#[verifier::external_body]
fn char_is_alphanumeric(c: char) -> (r: bool)
    ensures
        r == alphanumeric(c),
{
    c.is_alphanumeric()
}

/// The test "is alphanumeric".
pub open spec fn keeps_char() -> spec_fn(char) -> bool {
    |c: char| alphanumeric(c)
}

/// The ID derived from an `.mra` file's name: its lowercase form with
/// every character that is not alphanumeric removed.
pub open spec fn mra_id_of(name: Seq<char>) -> Seq<char> {
    lowercase_of(name).filter(keeps_char())
}

/// Derive the game ID of an `.mra` file from its name.
pub fn mra_id(name: &str) -> (id: String)
    ensures
        id@ == mra_id_of(name@),
{
    let lower = str_to_lowercase(name);
    let ghost l = lower@;
    let n = lower.unicode_len();
    let mut out = String::new();
    let mut i: usize = 0;
    while i < n
        invariant
            n == l.len(),
            l == lower@,
            i <= n,
            out@ == l.take(i as int).filter(keeps_char()),
        decreases n - i,
    {
        let c = lower.get_char(i);
        proof {
            assert(l.take(i + 1) =~= l.take(i as int).push(c));
            l.take(i as int).lemma_filter_push(c, keeps_char());
        }
        if char_is_alphanumeric(c) {
            let one = lower.as_str().substring_char(i, i + 1);
            assert(one@ =~= seq![c]);
            out.append(one);
        }
        i += 1;
    }
    assert(l.take(n as int) =~= l);
    out
}

/// A derived ID holds only alphanumeric characters, and no more
/// characters than the lowercase name.
pub proof fn lemma_mra_id_alphanumeric(name: Seq<char>)
    ensures
        forall|i: int| 0 <= i < mra_id_of(name).len() ==> alphanumeric(#[trigger] mra_id_of(name)[i]),
        mra_id_of(name).len() <= lowercase_of(name).len(),
{
    let l = lowercase_of(name);
    assert forall|i: int| 0 <= i < mra_id_of(name).len() implies alphanumeric(
        #[trigger] mra_id_of(name)[i],
    ) by {
        l.lemma_filter_pred(keeps_char(), i);
    }
    l.lemma_filter_len(keeps_char());
}

/// An `.mra` file offered for adding to the game list.
#[derive(Debug, Clone)]
pub struct MraFile {
    pub id: String,
    pub name: String,
    pub path: String,
}

/// The name shown for an `.mra` file: its stem, or "Unknown".
pub open spec fn mra_name_of(path: Seq<char>) -> Seq<char> {
    match file_stem_of(path) {
        Some(s) => s,
        None => "Unknown"@,
    }
}

/// For a directory entry, its ID and name if it is an `.mra` file.
pub fn mra_candidate(path: &str) -> (r: Option<(String, String)>)
    ensures
        crate::validate::file_extension(path@) == Some("mra"@) ==> (r matches Some(p) && p.0@
            == mra_id_of(mra_name_of(path@)) && p.1@ == mra_name_of(path@)),
        crate::validate::file_extension(path@) != Some("mra"@) ==> r is None,
{
    proof {
        reveal_strlit("mra");
    }
    let is_mra = match crate::validate::path_extension(path) {
        Some(e) => str_eq(e.as_str(), "mra"),
        None => false,
    };
    if !is_mra {
        return None;
    }
    let name = match path_file_stem(path) {
        Some(s) => s,
        None => String::from_str("Unknown"),
    };
    let id = mra_id(name.as_str());
    Some((id, name))
}

/// The ID and name of an `.mra` file whose name is not valid UTF-8: it is
/// shown as "Unknown".
pub fn unnamed_mra() -> (r: (String, String))
    ensures
        r.0@ == mra_id_of("Unknown"@),
        r.1@ == "Unknown"@,
{
    let name = String::from_str("Unknown");
    let id = mra_id(name.as_str());
    (id, name)
}

/// Lexicographic order of strings by their characters' code points.
pub open spec fn lex_le(a: Seq<char>, b: Seq<char>) -> bool
    decreases a.len(),
{
    if a.len() == 0 {
        true
    } else if b.len() == 0 {
        false
    } else if (a[0] as u32) < (b[0] as u32) {
        true
    } else if (a[0] as u32) > (b[0] as u32) {
        false
    } else {
        lex_le(a.drop_first(), b.drop_first())
    }
}

/// Any two strings are ordered one way or the other.
pub proof fn lemma_lex_total(a: Seq<char>, b: Seq<char>)
    ensures
        lex_le(a, b) || lex_le(b, a),
    decreases a.len(),
{
    if a.len() > 0 && b.len() > 0 && (a[0] as u32) == (b[0] as u32) {
        lemma_lex_total(a.drop_first(), b.drop_first());
    }
}

/// The order is transitive.
pub proof fn lemma_lex_transitive(a: Seq<char>, b: Seq<char>, c: Seq<char>)
    requires
        lex_le(a, b),
        lex_le(b, c),
    ensures
        lex_le(a, c),
    decreases a.len(),
{
    if a.len() > 0 && b.len() > 0 && c.len() > 0 && (a[0] as u32) == (b[0] as u32) && (b[0]
        as u32) == (c[0] as u32) {
        lemma_lex_transitive(a.drop_first(), b.drop_first(), c.drop_first());
    }
}

/// Compare two strings in `lex_le` order.
fn str_le(a: &str, b: &str) -> (r: bool)
    ensures
        r == lex_le(a@, b@),
{
    let na = a.unicode_len();
    let nb = b.unicode_len();
    let mut i: usize = 0;
    assert(a@.skip(0) =~= a@ && b@.skip(0) =~= b@);
    while i < na && i < nb
        invariant
            na == a@.len(),
            nb == b@.len(),
            i <= na,
            i <= nb,
            lex_le(a@, b@) == lex_le(a@.skip(i as int), b@.skip(i as int)),
        decreases na - i,
    {
        let ca = a.get_char(i);
        let cb = b.get_char(i);
        proof {
            assert(a@.skip(i as int)[0] == ca);
            assert(b@.skip(i as int)[0] == cb);
            assert(a@.skip(i as int).drop_first() =~= a@.skip(i + 1));
            assert(b@.skip(i as int).drop_first() =~= b@.skip(i + 1));
        }
        if (ca as u32) < (cb as u32) {
            return true;
        }
        if (ca as u32) > (cb as u32) {
            return false;
        }
        i += 1;
    }
    i == na
}

/// Index of the first entry from `i` on whose name comes strictly after `key`.
pub open spec fn first_after(s: Seq<MraFile>, key: Seq<char>, i: int) -> int
    decreases s.len() - i,
{
    if i >= s.len() || i < 0 {
        s.len() as int
    } else if !lex_le(s[i].name@, key) {
        i
    } else {
        first_after(s, key, i + 1)
    }
}

/// `x` inserted into `s` after every entry whose name does not come after
/// its own.
pub open spec fn insert_by_name(s: Seq<MraFile>, x: MraFile) -> Seq<MraFile> {
    s.insert(first_after(s, x.name@, 0), x)
}

/// `s` stably sorted by name: entries with equal names keep their order.
pub open spec fn sorted_by_name(s: Seq<MraFile>) -> Seq<MraFile>
    decreases s.len(),
{
    if s.len() == 0 {
        s
    } else {
        insert_by_name(sorted_by_name(s.drop_last()), s.last())
    }
}

/// Whether the names of `s` are in order.
pub open spec fn names_ordered(s: Seq<MraFile>) -> bool {
    forall|i: int, j: int| 0 <= i < j < s.len() ==> lex_le(#[trigger] s[i].name@, #[trigger] s[j].name@)
}

proof fn lemma_first_after(s: Seq<MraFile>, key: Seq<char>, i: int)
    requires
        0 <= i <= s.len(),
    ensures
        i <= first_after(s, key, i) <= s.len(),
        forall|k: int| i <= k < first_after(s, key, i) ==> lex_le(#[trigger] s[k].name@, key),
        first_after(s, key, i) < s.len() ==> !lex_le(s[first_after(s, key, i)].name@, key),
    decreases s.len() - i,
{
    if i < s.len() && lex_le(s[i].name@, key) {
        lemma_first_after(s, key, i + 1);
    }
}

/// Inserting by name keeps the names in order.
proof fn lemma_insert_ordered(s: Seq<MraFile>, x: MraFile)
    requires
        names_ordered(s),
    ensures
        names_ordered(insert_by_name(s, x)),
        insert_by_name(s, x).to_multiset() == s.to_multiset().insert(x),
{
    let p = first_after(s, x.name@, 0);
    lemma_first_after(s, x.name@, 0);
    let r = insert_by_name(s, x);
    assert forall|i: int, j: int| 0 <= i < j < r.len() implies lex_le(
        #[trigger] r[i].name@,
        #[trigger] r[j].name@,
    ) by {
        if j == p {
            assert(r[i] == s[i]);
        } else if i == p {
            assert(r[j] == s[j - 1]);
            lemma_lex_total(s[p].name@, x.name@);
            if j - 1 > p {
                lemma_lex_transitive(x.name@, s[p].name@, s[j - 1].name@);
            }
        } else if j < p {
            assert(r[i] == s[i] && r[j] == s[j]);
        } else if i < p {
            assert(r[i] == s[i] && r[j] == s[j - 1]);
        } else {
            assert(r[i] == s[i - 1] && r[j] == s[j - 1]);
        }
    }
    s.insert_ensures(p, x);
    vstd::seq_lib::to_multiset_insert(s, p, x);
}

/// A stable sort by name orders the names and keeps every entry.
pub proof fn lemma_sorted_by_name(s: Seq<MraFile>)
    ensures
        names_ordered(sorted_by_name(s)),
        sorted_by_name(s).to_multiset() == s.to_multiset(),
    decreases s.len(),
{
    if s.len() > 0 {
        lemma_sorted_by_name(s.drop_last());
        lemma_insert_ordered(sorted_by_name(s.drop_last()), s.last());
        s.drop_last().to_multiset_ensures();
        assert(s.drop_last().push(s.last()) =~= s);
    }
}

/// Sort the `.mra` files by name; files with equal names keep their order.
pub fn sort_mra_files(files: Vec<MraFile>) -> (r: Vec<MraFile>)
    ensures
        r@ == sorted_by_name(files@),
{
    let mut out: Vec<MraFile> = Vec::new();
    let ghost all = files@;
    let n = files.len();
    let mut rest = files;
    let mut i: usize = 0;
    while i < n
        invariant
            n == all.len(),
            i <= n,
            out@ == sorted_by_name(all.take(i as int)),
            rest@ == all.skip(i as int),
        decreases n - i,
    {
        let x = rest.remove(0);
        proof {
            assert(all.skip(i as int)[0] == all[i as int]);
            assert(all.skip(i as int).remove(0) =~= all.skip(i + 1));
            assert(all.take(i + 1).drop_last() =~= all.take(i as int));
            assert(all.take(i + 1).last() == all[i as int]);
        }
        let ghost before = out@;
        let mut p: usize = 0;
        while p < out.len() && str_le(out[p].name.as_str(), x.name.as_str())
            invariant
                out@ == before,
                p <= out@.len(),
                first_after(before, x.name@, 0) == first_after(before, x.name@, p as int),
            decreases out@.len() - p,
        {
            p += 1;
        }
        out.insert(p, x);
        i += 1;
    }
    proof {
        assert(all.take(n as int) =~= all);
    }
    out
}


/// An accepted art ID holds neither a path separator nor a dot, so the
/// art file it names stays inside the box art directory.
pub proof fn lemma_valid_id_is_plain(id: Seq<char>)
    requires
        valid_art_id(id),
    ensures
        !id.contains('/'),
        !id.contains('.'),
{
    if id.contains('/') {
        let k = choose|k: int| 0 <= k < id.len() && id[k] == '/';
        assert(id_char(id[k]));
    }
    if id.contains('.') {
        let k = choose|k: int| 0 <= k < id.len() && id[k] == '.';
        assert(id_char(id[k]));
    }
}


/// An accepted art upload is stored directly inside the box art
/// directory: the file is `<box art directory>/<id>.png`, and its name
/// holds no path separator.
pub proof fn lemma_art_file_inside_boxart(base: Seq<char>, id: Seq<char>)
    requires
        valid_art_id(id),
    ensures
        joined(joined(base, "assets/boxart"@), id + ".png"@) == joined(base, "assets/boxart"@)
            + seq!['/'] + id + ".png"@,
        !(id + ".png"@).contains('/'),
{
    reveal_strlit("assets/boxart");
    reveal_strlit(".png");
    let dir = joined(base, "assets/boxart"@);
    let file = id + ".png"@;
    lemma_valid_id_is_plain(id);
    assert(file[0] == id[0]);
    assert(id_char(id[0]));
    assert(dir.len() > 0 && dir.last() == 't');
    if file.contains('/') {
        let k = choose|k: int| 0 <= k < file.len() && file[k] == '/';
        if k < id.len() {
            assert(id[k] == '/');
            assert(id.contains('/'));
        }
    }
    assert(dir + seq!['/'] + file == dir + seq!['/'] + id + ".png"@);
}

} // verus!
