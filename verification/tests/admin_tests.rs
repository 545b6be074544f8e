use grandma_launcher::admin::{
    art_file_path, art_id_valid, art_upload_response, art_upload_too_large, check_art_body,
    error_json, games_upload_response, games_upload_too_large, mra_candidate, mra_id,
    not_found_response, route, sort_mra_files, ArtBodyProblem, ArtUpload, GamesUpload,
    HttpMethod, MraFile, Route, art_upload_after_dir, art_upload_after_read, art_upload_after_write,
    art_upload_start, games_upload_after_parse, games_upload_after_save, games_upload_start,
    unnamed_mra, ArtUploadStep, GamesUploadStep,
};
use grandma_launcher::config::{GameEntry, GamesConfig};
use grandma_launcher::paths::GrandmaPaths;

fn route_name(r: Route) -> String {
    match r {
        Route::Index => "index".into(),
        Route::AvailableMra => "mra".into(),
        Route::GetGames => "get".into(),
        Route::PostGames => "post".into(),
        Route::PostArt(id) => format!("art:{}", id),
        Route::NotFound => "404".into(),
    }
}

#[test]
fn routes() {
    assert_eq!(route_name(route(HttpMethod::Get, "/")), "index");
    assert_eq!(route_name(route(HttpMethod::Get, "/api/available-mra")), "mra");
    assert_eq!(route_name(route(HttpMethod::Get, "/api/games")), "get");
    assert_eq!(route_name(route(HttpMethod::Post, "/api/games")), "post");
    assert_eq!(route_name(route(HttpMethod::Post, "/api/art/dkong")), "art:dkong");
    assert_eq!(route_name(route(HttpMethod::Post, "/api/art/")), "art:");
    assert_eq!(route_name(route(HttpMethod::Get, "/api/art/dkong")), "404");
    assert_eq!(route_name(route(HttpMethod::Other, "/")), "404");
    assert_eq!(route_name(route(HttpMethod::Post, "/")), "404");
}

#[test]
fn upload_limits() {
    assert!(!games_upload_too_large(None));
    assert!(!games_upload_too_large(Some(1_048_576)));
    assert!(games_upload_too_large(Some(1_048_577)));
    assert!(!art_upload_too_large(None));
    assert!(!art_upload_too_large(Some(2 * 1024 * 1024)));
    assert!(art_upload_too_large(Some(2 * 1024 * 1024 + 1)));
}

#[test]
fn art_ids() {
    assert!(art_id_valid("dkong2"));
    assert!(!art_id_valid(""));
    assert!(!art_id_valid("DKong"));
    assert!(!art_id_valid("../etc"));
    assert!(!art_id_valid("é"));
    assert!(art_id_valid(&"a".repeat(64)));
    assert!(!art_id_valid(&"a".repeat(65)));
}

#[test]
fn art_bodies() {
    assert_eq!(check_art_body(&[]), Err(ArtBodyProblem::Empty));
    assert_eq!(check_art_body(&[0x89, 0x50]), Err(ArtBodyProblem::NotPng));
    let png = [0x89, 0x50, 0x4E, 0x47, 0x0D, 0x0A, 0x1A, 0x0A, 1, 2];
    assert_eq!(check_art_body(&png), Ok(()));
    let mut bad = png;
    bad[7] = 0;
    assert_eq!(check_art_body(&bad), Err(ArtBodyProblem::NotPng));
}

#[test]
fn responses() {
    assert_eq!(error_json("boom"), r#"{"error":"boom"}"#);
    let r = games_upload_response(&GamesUpload::TooLarge);
    assert_eq!((r.status, r.body.as_str(), r.json_header), (413, r#"{"error":"Request body too large"}"#, false));
    let r = games_upload_response(&GamesUpload::Invalid("Duplicate game ID: x".into()));
    assert_eq!((r.status, r.body.as_str(), r.json_header), (400, r#"{"error":"Duplicate game ID: x"}"#, false));
    let r = games_upload_response(&GamesUpload::ParseFailed("eof".into()));
    assert_eq!((r.status, r.body.as_str()), (400, r#"{"error":"eof"}"#));
    let r = games_upload_response(&GamesUpload::Saved);
    assert_eq!((r.status, r.body.as_str(), r.json_header), (200, r#"{"ok":true}"#, true));
    let r = games_upload_response(&GamesUpload::SaveFailed("disk".into()));
    assert_eq!((r.status, r.body.as_str()), (500, r#"{"error":"disk"}"#));
    let r = art_upload_response(ArtUpload::InvalidId);
    assert_eq!(r.status, 400);
    assert_eq!(r.body, r#"{"error":"Invalid game_id: must be non-empty lowercase alphanumeric"}"#);
    assert!(r.json_header);
    assert_eq!(art_upload_response(ArtUpload::TooLarge).status, 413);
    assert_eq!(art_upload_response(ArtUpload::ReadFailed).body, r#"{"error":"Failed to read request body"}"#);
    assert_eq!(art_upload_response(ArtUpload::Empty).body, r#"{"error":"Empty body"}"#);
    assert_eq!(art_upload_response(ArtUpload::NotPng).body, r#"{"error":"Invalid PNG file"}"#);
    assert_eq!(art_upload_response(ArtUpload::DirFailed).status, 500);
    assert_eq!(art_upload_response(ArtUpload::Saved).body, r#"{"ok":true}"#);
    assert_eq!(art_upload_response(ArtUpload::SaveFailed).body, r#"{"error":"Failed to save art"}"#);
    let nf = not_found_response();
    assert_eq!((nf.status, nf.body.as_str(), nf.json_header), (404, "404", false));
}

#[test]
fn art_path() {
    let p = GrandmaPaths::new("/media/fat/grandma_launcher");
    assert_eq!(art_file_path(&p, "dkong"), "/media/fat/grandma_launcher/assets/boxart/dkong.png");
}

#[test]
fn mra_ids_and_candidates() {
    assert_eq!(mra_id("Donkey Kong (US, Set 1)"), "donkeykongusset1");
    assert_eq!(mra_id("Ms. Pac-Man"), "mspacman");
    assert_eq!(mra_id("ÉCLAIR"), "éclair");
    let (id, name) = mra_candidate("/media/fat/_Arcade/Galaga (Midway, Set 1).mra").unwrap();
    assert_eq!(id, "galagamidwayset1");
    assert_eq!(name, "Galaga (Midway, Set 1)");
    assert!(mra_candidate("/media/fat/_Arcade/readme.txt").is_none());
    assert!(mra_candidate("/media/fat/_Arcade/cores").is_none());
}

fn mra(id: &str, name: &str) -> MraFile {
    MraFile { id: id.into(), name: name.into(), path: format!("/{}", id) }
}

#[test]
fn sorting_is_by_name_and_stable() {
    let files = vec![mra("b1", "b"), mra("a", "a"), mra("b2", "b"), mra("Z", "Z"), mra("ab", "ab")];
    let sorted = sort_mra_files(files);
    let ids: Vec<_> = sorted.iter().map(|f| f.id.as_str()).collect();
    assert_eq!(ids, vec!["Z", "a", "ab", "b1", "b2"]);
    assert!(sort_mra_files(vec![]).is_empty());
}

#[test]
fn art_upload_steps_in_order() {
    assert_eq!(art_upload_start("Bad!", Some(10)), ArtUploadStep::Finish(ArtUpload::InvalidId));
    assert_eq!(art_upload_start("bad!", Some(usize::MAX)), ArtUploadStep::Finish(ArtUpload::InvalidId));
    assert_eq!(art_upload_start("pacman", Some(2 * 1024 * 1024 + 1)), ArtUploadStep::Finish(ArtUpload::TooLarge));
    assert_eq!(art_upload_start("pacman", None), ArtUploadStep::ReadBody);
    assert_eq!(art_upload_after_read(None), ArtUploadStep::Finish(ArtUpload::ReadFailed));
    assert_eq!(art_upload_after_read(Some(&[])), ArtUploadStep::Finish(ArtUpload::Empty));
    assert_eq!(art_upload_after_read(Some(b"GIF89a..")), ArtUploadStep::Finish(ArtUpload::NotPng));
    let png = [0x89, 0x50, 0x4E, 0x47, 0x0D, 0x0A, 0x1A, 0x0A, 0];
    assert_eq!(art_upload_after_read(Some(&png)), ArtUploadStep::CreateDir);
    assert_eq!(art_upload_after_dir(false), ArtUploadStep::Finish(ArtUpload::DirFailed));
    assert_eq!(art_upload_after_dir(true), ArtUploadStep::Write);
    assert_eq!(art_upload_after_write(true), ArtUpload::Saved);
    assert_eq!(art_upload_after_write(false), ArtUpload::SaveFailed);
}

#[test]
fn games_upload_steps_in_order() {
    assert!(matches!(games_upload_start(Some(1_048_577)), GamesUploadStep::Finish(GamesUpload::TooLarge)));
    assert!(matches!(games_upload_start(Some(1_048_576)), GamesUploadStep::ReadBody));
    match games_upload_after_parse(&Err("expected value".to_string())) {
        GamesUploadStep::Finish(GamesUpload::ParseFailed(m)) => assert_eq!(m, "expected value"),
        other => panic!("unexpected {:?}", other),
    }
    let bad = GamesConfig {
        schema: 1,
        games: vec![GameEntry { id: "a".into(), name: "A".into(), system: "arcade".into(), launch: "/x/a.txt".into(), art: String::new() }],
    };
    match games_upload_after_parse(&Ok(bad)) {
        GamesUploadStep::Finish(GamesUpload::Invalid(m)) => assert_eq!(m, "Invalid launch file extension for a: /x/a.txt"),
        other => panic!("unexpected {:?}", other),
    }
    assert!(matches!(games_upload_after_parse(&Ok(GamesConfig { schema: 1, games: vec![] })), GamesUploadStep::Save));
    assert!(matches!(games_upload_after_save(Ok(())), GamesUpload::Saved));
    match games_upload_after_save(Err("disk full".into())) {
        GamesUpload::SaveFailed(m) => assert_eq!(m, "disk full"),
        other => panic!("unexpected {:?}", other),
    }
}

#[test]
fn unnamed_mra_is_unknown() {
    let (id, name) = unnamed_mra();
    assert_eq!(id, "unknown");
    assert_eq!(name, "Unknown");
}
