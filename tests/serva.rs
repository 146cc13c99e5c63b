use serva::data::{generate_prefix, get_available_ip, Asset, AvailableIp, IpAddress, ServerInfo, SetupError};
use serva::grpc::{
    get_serva_manager, get_timestamp_in_ms, EntryKind, ManageAction, ManageDirOrFileRequest,
    Operation, RawEntry, ResolvedPaths, RpcError,
};
use serva::multiplex::{select_stack, Stack};
use serva::path::{
    file_name, get_valid_joined_path, join_path, strip_root, validate_name, with_file_name,
    PathError,
};
use serva::range::{content_range, decide_range, decimal_string, range_for_header, unsatisfied_range, RangeDecision};
use serva::serve::{build_range_response, resolve_fs_file, serve_embedded_files, serve_files, serve_fs_file, Config, FileResponse, Route};
use serva::upload::{get_upload_path_names, plan_upload, FsStep, ServiceError, UploadFileChunkRequest};
use std::collections::HashMap;

const ROOT: &str = "/srv/share";

fn info(manage: bool, upload: bool, download: bool) -> ServerInfo {
    let asset = Asset::new();
    ServerInfo::new(
        "share",
        false,
        manage,
        upload,
        download,
        IpAddress::V4(127, 0, 0, 1),
        3000,
        ROOT,
        &asset,
        vec![IpAddress::V4(127, 0, 0, 1)],
    )
    .unwrap()
}

fn config(download: bool) -> Config {
    Config::from_info(&info(false, true, download))
}

/// Runs the steps of a plan on an in-memory filesystem, as the server does on disk.
fn run(fs: &mut HashMap<String, Vec<u8>>, steps: &[FsStep]) -> Result<(), String> {
    for step in steps {
        match step {
            FsStep::WriteFile { path, data } => {
                fs.insert(path.clone(), data.clone());
            }
            FsStep::WriteAt { path, data, offset, create } => {
                let mut cur = if *create {
                    Vec::new()
                } else {
                    fs.get(path).cloned().ok_or_else(|| format!("missing {}", path))?
                };
                let end = *offset as usize + data.len();
                if cur.len() < end {
                    cur.resize(end, 0);
                }
                cur[*offset as usize..end].copy_from_slice(data);
                fs.insert(path.clone(), cur);
            }
            FsStep::RemoveFile { path } => {
                fs.remove(path).ok_or_else(|| format!("missing {}", path))?;
            }
            FsStep::RemoveIfExists { path } => {
                fs.remove(path);
            }
            FsStep::Rename { from, to } => {
                let d = fs.remove(from).ok_or_else(|| format!("missing {}", from))?;
                fs.insert(to.clone(), d);
            }
        }
    }
    Ok(())
}

fn chunk(name: &str, size: u64, data: &[u8], id: u64, count: u64, offset: u64, abort: bool) -> UploadFileChunkRequest {
    UploadFileChunkRequest {
        dir_path: "up".to_string(),
        file_name: name.to_string(),
        file_size: size,
        chunk_data: data.to_vec(),
        chunk_id: id,
        chunk_count: count,
        chunk_offset: offset,
        abort,
    }
}

#[test]
fn sandbox_rejects_escape() {
    assert_eq!(get_valid_joined_path(ROOT, "/srv"), Err(PathError::PathEscape));
    assert_eq!(get_valid_joined_path(ROOT, "/srv/shared/x"), Err(PathError::PathEscape));
    assert_eq!(get_valid_joined_path(ROOT, "/etc/passwd"), Err(PathError::PathEscape));
}

#[test]
fn sandbox_keeps_inside_paths() {
    assert_eq!(get_valid_joined_path(ROOT, "/srv/share").unwrap(), "/srv/share");
    assert_eq!(get_valid_joined_path(ROOT, "/srv/share/a/b.txt").unwrap(), "/srv/share/a/b.txt");
    assert_eq!(get_valid_joined_path("/", "/etc").unwrap(), "/etc");
}

#[test]
fn join_and_strip() {
    assert_eq!(join_path(ROOT, "a/b"), "/srv/share/a/b");
    assert_eq!(join_path("/srv/share/", "a"), "/srv/share/a");
    assert_eq!(join_path(ROOT, "/etc"), "/etc");
    assert_eq!(strip_root(ROOT, "/srv/share/a/b").unwrap(), "a/b");
    assert_eq!(strip_root(ROOT, "/srv/share").unwrap(), "");
    assert_eq!(strip_root(ROOT, "/srv/other"), Err(PathError::PathEscape));
}

#[test]
fn names_are_single_segments() {
    assert_eq!(validate_name("ok.txt"), Ok(()));
    assert_eq!(validate_name("a/b"), Err(PathError::InvalidName));
    assert_eq!(validate_name("a\\b"), Err(PathError::InvalidName));
    assert_eq!(file_name("/srv/share/a.txt").unwrap(), "a.txt");
    assert_eq!(file_name("/"), Err(PathError::NoFileName));
    assert_eq!(with_file_name("/srv/share/a.txt", "b.txt"), "/srv/share/b.txt");
}

#[test]
fn decimal_text() {
    assert_eq!(decimal_string(0), "0");
    assert_eq!(decimal_string(1000), "1000");
    assert_eq!(decimal_string(u64::MAX), "18446744073709551615");
    assert_eq!(content_range(0, 99, 100), "bytes 0-99/100");
    assert_eq!(unsatisfied_range(1000), "bytes */1000");
}

#[test]
fn range_first_hundred_bytes() {
    let r = serve_fs_file("/srv/share/data.bin", 1000, Some("bytes=0-99"));
    assert_eq!(r.status(), 206);
    match r {
        FileResponse::Partial { content_range, start, length, .. } => {
            assert_eq!(content_range, "bytes 0-99/100");
            assert_eq!(start, 0);
            assert_eq!(length, 100);
        }
        other => panic!("unexpected {:?}", other),
    }
}

#[test]
fn range_past_end_is_unsatisfiable() {
    let r = serve_fs_file("/srv/share/data.bin", 1000, Some("bytes=990-1999"));
    assert_eq!(r.status(), 416);
    match r {
        FileResponse::RangeNotSatisfiable { content_range } => assert_eq!(content_range, "bytes */1000"),
        other => panic!("unexpected {:?}", other),
    }
}

#[test]
fn range_decisions() {
    assert_eq!(range_for_header(None, 10), RangeDecision::Whole);
    assert_eq!(range_for_header(Some("bytes=2-4"), 10), RangeDecision::Partial { start: 2, end: 4 });
    assert_eq!(range_for_header(Some("bytes=-3"), 10), RangeDecision::Partial { start: 7, end: 9 });
    assert_eq!(range_for_header(Some("bytes=0-1, 5-6"), 10), RangeDecision::Unsatisfiable);
    assert_eq!(range_for_header(Some("items=0-1"), 10), RangeDecision::Unsatisfiable);
    assert_eq!(range_for_header(Some("bytes=0-"), 0), RangeDecision::Unsatisfiable);
    assert_eq!(decide_range(Some(Ok(vec![(1, 2)])), 5), RangeDecision::Partial { start: 1, end: 2 });
    assert_eq!(decide_range(Some(Ok(vec![(1, 2), (3, 4)])), 5), RangeDecision::Unsatisfiable);
    assert_eq!(decide_range(Some(Ok(vec![(3, 5)])), 5), RangeDecision::Unsatisfiable);
    assert_eq!(decide_range(Some(Err(())), 5), RangeDecision::Unsatisfiable);
}

#[test]
fn whole_file_is_a_download() {
    let r = serve_fs_file("/srv/share/page.html", 42, None);
    assert_eq!(r.status(), 200);
    match r {
        FileResponse::Whole { mime, disposition, length } => {
            assert_eq!(mime, "text/html");
            assert_eq!(disposition, "attachment; filename=\"page.html\"");
            assert_eq!(length, 42);
        }
        other => panic!("unexpected {:?}", other),
    }
}

#[test]
fn routing() {
    let c = config(true);
    assert_eq!(c.prefix, "/shared-files/");
    match serve_files(&c, "/shared-files/a/b.txt") {
        Route::FsFile(p) => assert_eq!(p, "a/b.txt"),
        other => panic!("unexpected {:?}", other),
    }
    match serve_files(&c, "/shared-files") {
        Route::Respond(r) => assert_eq!(r.status(), 404),
        other => panic!("unexpected {:?}", other),
    }
    match serve_files(&c, "/") {
        Route::Respond(FileResponse::Redirect { location }) => assert_eq!(location, "/index.html"),
        other => panic!("unexpected {:?}", other),
    }
    match serve_files(&c, "/app.js") {
        Route::Embedded(p) => assert_eq!(p, "app.js"),
        other => panic!("unexpected {:?}", other),
    }
    match serve_files(&c, "x") {
        Route::Respond(r) => assert_eq!(r.status(), 400),
        other => panic!("unexpected {:?}", other),
    }
    match serve_files(&config(false), "/shared-files/a.txt") {
        Route::Embedded(p) => assert_eq!(p, "shared-files/a.txt"),
        other => panic!("unexpected {:?}", other),
    }
}

#[test]
fn fs_file_outside_root_not_acceptable() {
    let c = config(true);
    assert_eq!(resolve_fs_file(&c, Some("/etc/passwd")).unwrap_err().status(), 406);
    assert_eq!(resolve_fs_file(&c, None).unwrap_err().status(), 406);
    assert_eq!(resolve_fs_file(&c, Some("/srv/share/a")).unwrap(), "/srv/share/a");
}

#[test]
fn embedded_prefers_gzip() {
    let mut asset = Asset::new();
    asset.insert("index.html".to_string(), vec![1, 2, 3]);
    asset.insert("index.html.gz".to_string(), vec![9]);
    asset.insert("app.css".to_string(), vec![4]);
    match serve_embedded_files(&asset, "index.html") {
        FileResponse::Embedded { mime, gzip, data } => {
            assert!(gzip);
            assert_eq!(data, vec![9]);
            assert_eq!(mime, "text/html");
        }
        other => panic!("unexpected {:?}", other),
    }
    match serve_embedded_files(&asset, "app.css") {
        FileResponse::Embedded { mime, gzip, data } => {
            assert!(!gzip);
            assert_eq!(data, vec![4]);
            assert_eq!(mime, "text/css");
        }
        other => panic!("unexpected {:?}", other),
    }
    assert_eq!(serve_embedded_files(&asset, "missing.js").status(), 404);
}

#[test]
fn prefix_avoids_asset_paths() {
    let mut asset = Asset::new();
    assert_eq!(generate_prefix(&asset), Ok("shared-files"));
    asset.insert("shared-files".to_string(), vec![]);
    assert_eq!(generate_prefix(&asset), Ok("_shared_files_"));
    asset.insert("_shared_files_".to_string(), vec![]);
    asset.insert("__shared_files__".to_string(), vec![]);
    assert_eq!(generate_prefix(&asset), Err(SetupError::NoFreePrefix));
}

#[test]
fn available_addresses() {
    match get_available_ip(IpAddress::V4(127, 0, 0, 1)) {
        AvailableIp::Fixed(v) => assert_eq!(v, vec![IpAddress::V4(127, 0, 0, 1)]),
        other => panic!("unexpected {:?}", other),
    }
    match get_available_ip(IpAddress::V4(10, 0, 0, 2)) {
        AvailableIp::Fixed(v) => assert_eq!(v, vec![IpAddress::V4(10, 0, 0, 2), IpAddress::V4(127, 0, 0, 1)]),
        other => panic!("unexpected {:?}", other),
    }
    assert!(matches!(get_available_ip(IpAddress::V4(0, 0, 0, 0)), AvailableIp::AllInterfaces));
}

#[test]
fn upload_paths() {
    let (d, t, p) = get_upload_path_names(ROOT, "/srv/share/up", "f.bin").unwrap();
    assert_eq!(d, "/srv/share/up");
    assert_eq!(t, "/srv/share/up/f.bin");
    assert_eq!(p, "/srv/share/up/f.bin.uploading");
    assert_eq!(get_upload_path_names(ROOT, "/srv", "f").unwrap_err(), ServiceError::Path(PathError::PathEscape));
    assert_eq!(get_upload_path_names(ROOT, ROOT, "a/f").unwrap_err(), ServiceError::Path(PathError::InvalidName));
}

#[test]
fn single_chunk_upload() {
    let data: Vec<u8> = (0..50u8).collect();
    let plan = plan_upload(ROOT, Some("/srv/share/up"), chunk("f.bin", 50, &data, 0, 1, 0, false)).unwrap();
    let mut fs = HashMap::new();
    run(&mut fs, &plan.steps).unwrap();
    assert_eq!(fs.get("/srv/share/up/f.bin"), Some(&data));
    assert!(!fs.contains_key("/srv/share/up/f.bin.uploading"));
}

#[test]
fn three_chunk_upload() {
    let parts: [&[u8]; 3] = [b"hello ", b"chunked ", b"world"];
    let mut fs = HashMap::new();
    let mut offset = 0u64;
    for (i, part) in parts.iter().enumerate() {
        let plan = plan_upload(ROOT, Some("/srv/share/up"), chunk("f.txt", 19, part, i as u64, 3, offset, false)).unwrap();
        run(&mut fs, &plan.steps).unwrap();
        if i < 2 {
            assert_eq!(fs.get("/srv/share/up/f.txt"), Some(&Vec::new()));
        }
        offset += part.len() as u64;
    }
    assert_eq!(fs.get("/srv/share/up/f.txt").unwrap().as_slice(), b"hello chunked world");
    assert!(!fs.contains_key("/srv/share/up/f.txt.uploading"));
}

#[test]
fn abort_without_upload() {
    let plan = plan_upload(ROOT, Some("/srv/share/up"), chunk("f.bin", 0, &[], 0, 0, 0, true)).unwrap();
    let mut fs: HashMap<String, Vec<u8>> = HashMap::new();
    fs.insert("/srv/share/up/other".to_string(), vec![1]);
    run(&mut fs, &plan.steps).unwrap();
    assert_eq!(fs.len(), 1);
    assert!(plan.cleanup.is_empty());
}

#[test]
fn abort_mid_upload() {
    let mut fs = HashMap::new();
    let first = plan_upload(ROOT, Some("/srv/share/up"), chunk("f.bin", 10, &[1, 2, 3], 0, 2, 0, false)).unwrap();
    run(&mut fs, &first.steps).unwrap();
    assert_eq!(fs.len(), 2);
    let abort = plan_upload(ROOT, Some("/srv/share/up"), chunk("f.bin", 10, &[], 0, 0, 0, true)).unwrap();
    run(&mut fs, &abort.steps).unwrap();
    assert!(fs.is_empty());
}

#[test]
fn upload_errors() {
    let p = plan_upload(ROOT, Some("/srv/share/up"), chunk("f", 2, &[1, 2, 3], 0, 1, 0, false)).unwrap();
    assert_eq!(p.rejected, Some(ServiceError::ChunkOutOfBounds));
    assert!(p.steps.is_empty());
    // a later chunk past the declared size removes the placeholder and the temporary file
    let mut fs = HashMap::new();
    let first = plan_upload(ROOT, Some("/srv/share/up"), chunk("f", 4, &[1, 2], 0, 2, 0, false)).unwrap();
    run(&mut fs, &first.steps).unwrap();
    assert_eq!(fs.len(), 2);
    let p = plan_upload(ROOT, Some("/srv/share/up"), chunk("f", 4, &[1, 2, 3], 1, 2, 2, false)).unwrap();
    assert_eq!(p.rejected, Some(ServiceError::ChunkOutOfBounds));
    assert!(p.steps.is_empty());
    run(&mut fs, &p.cleanup).unwrap();
    assert!(fs.is_empty());
    let e = plan_upload(ROOT, Some("/srv/share/up"), chunk("f", 4, &[1], 2, 2, 0, false)).unwrap_err();
    assert_eq!(e, ServiceError::InvalidChunk);
    let e = plan_upload(ROOT, None, chunk("f", 4, &[1], 0, 1, 0, false)).unwrap_err();
    assert_eq!(e, ServiceError::Unresolved);
    let plan = plan_upload(ROOT, Some("/srv/share/up"), chunk("f", 4, &[1], 1, 3, 0, false)).unwrap();
    assert_eq!(plan.rejected, None);
    let mut fs = HashMap::new();
    assert!(run(&mut fs, &plan.steps).is_err());
    run(&mut fs, &plan.cleanup).unwrap();
    assert!(fs.is_empty());
}

#[test]
fn listing_skips_symlinks() {
    let svc = get_serva_manager(&info(false, true, true));
    let entries = vec![
        RawEntry { path: "/srv/share/d/file.txt".to_string(), kind: EntryKind::File, modified: Some((10, 5_000_000)), len: 7 },
        RawEntry { path: "/srv/share/d/sub".to_string(), kind: EntryKind::Directory, modified: Some((20, 0)), len: 0 },
        RawEntry { path: "/srv/share/d/link".to_string(), kind: EntryKind::Other, modified: Some((30, 0)), len: 0 },
    ];
    let resp = svc.list_dir("d".to_string(), &entries).unwrap();
    assert_eq!(resp.dir_path, "d");
    assert_eq!(resp.directories.len(), 1);
    assert_eq!(resp.directories[0].path, "d/sub");
    assert_eq!(resp.directories[0].modified_timestamp_in_ms, 20_000);
    assert_eq!(resp.files.len(), 1);
    assert_eq!(resp.files[0].path, "d/file.txt");
    assert_eq!(resp.files[0].modified_timestamp_in_ms, 10_005);
    assert_eq!(resp.files[0].size, 7);
}

#[test]
fn listing_errors() {
    let svc = get_serva_manager(&info(false, true, true));
    let before = vec![RawEntry { path: "/srv/share/x".to_string(), kind: EntryKind::File, modified: None, len: 1 }];
    assert_eq!(svc.list_dir(String::new(), &before).unwrap_err(), RpcError::Internal(ServiceError::BeforeEpoch));
    assert_eq!(svc.resolve_dir(Some("/tmp")).unwrap_err(), ServiceError::Path(PathError::PathEscape));
    assert_eq!(get_timestamp_in_ms(Some((u64::MAX, 0))), Ok(i64::MAX));
}

#[test]
fn config_reports_switches() {
    let svc = get_serva_manager(&info(false, false, true));
    let cfg = svc.get_config();
    assert!(!cfg.permission.upload);
    assert!(cfg.permission.download);
    assert!(!cfg.permission.create && !cfg.permission.copy && !cfg.permission.move_);
    assert!(!cfg.permission.delete && !cfg.permission.rename);
    assert_eq!(cfg.prefix, "/shared-files/");
    assert_eq!(cfg.root, "share");
    assert_eq!(cfg.root_canonical, ROOT);
    assert_eq!(cfg.address.len(), 1);
    assert_eq!(cfg.address[0].port, 3000);
    let r = svc.upload_file_chunk(Some("/srv/share"), chunk("f", 1, &[1], 0, 1, 0, false));
    assert_eq!(r.unwrap_err(), RpcError::PermissionDenied);
    let manage = get_serva_manager(&info(true, true, true)).get_config();
    assert!(manage.permission.create && manage.permission.rename && manage.permission.upload);
}

fn paths(source: Option<&str>, kind: EntryKind, dest: Option<&str>) -> ResolvedPaths {
    ResolvedPaths { source: source.map(String::from), source_kind: kind, dest_dir: dest.map(String::from) }
}

fn request(op: Operation, target: &str) -> ManageDirOrFileRequest {
    ManageDirOrFileRequest { operation: op, file_path_name: String::new(), dir_path: String::new(), target: target.to_string() }
}

#[test]
fn manage_operations() {
    let svc = get_serva_manager(&info(true, true, true));
    let a = svc.manage_dir_or_file(&request(Operation::CreateDir, "new"), &paths(None, EntryKind::Other, Some("/srv/share/d"))).unwrap();
    assert!(matches!(a, ManageAction::CreateDir(p) if p == "/srv/share/d/new"));
    let a = svc.manage_dir_or_file(&request(Operation::CopyFile, ""), &paths(Some("/srv/share/a.txt"), EntryKind::File, Some("/srv/share/d"))).unwrap();
    assert!(matches!(a, ManageAction::CopyFile { from, to } if from == "/srv/share/a.txt" && to == "/srv/share/d/a.txt"));
    let a = svc.manage_dir_or_file(&request(Operation::CopyFile, ""), &paths(Some("/srv/share/x"), EntryKind::Directory, Some("/srv/share/d"))).unwrap();
    assert!(matches!(a, ManageAction::CopyDir { from, to_dir } if from == "/srv/share/x" && to_dir == "/srv/share/d"));
    let a = svc.manage_dir_or_file(&request(Operation::DeleteFile, ""), &paths(Some("/srv/share/x"), EntryKind::Directory, None)).unwrap();
    assert!(matches!(a, ManageAction::RemoveDirAll(p) if p == "/srv/share/x"));
    let a = svc.manage_dir_or_file(&request(Operation::DeleteFile, ""), &paths(Some("/srv/share/a"), EntryKind::File, None)).unwrap();
    assert!(matches!(a, ManageAction::RemoveFile(p) if p == "/srv/share/a"));
    let a = svc.manage_dir_or_file(&request(Operation::MoveFile, ""), &paths(Some("/srv/share/a"), EntryKind::File, Some("/srv/share/d"))).unwrap();
    assert!(matches!(a, ManageAction::Rename { from, to } if from == "/srv/share/a" && to == "/srv/share/d/a"));
    let a = svc.manage_dir_or_file(&request(Operation::RenameFile, "b"), &paths(Some("/srv/share/d/a"), EntryKind::File, None)).unwrap();
    assert!(matches!(a, ManageAction::Rename { from, to } if from == "/srv/share/d/a" && to == "/srv/share/d/b"));
}

#[test]
fn manage_refusals() {
    let svc = get_serva_manager(&info(true, true, true));
    let e = svc.manage_dir_or_file(&request(Operation::CreateDir, "a/b"), &paths(None, EntryKind::Other, Some(ROOT))).unwrap_err();
    assert_eq!(e, RpcError::Internal(ServiceError::Path(PathError::InvalidName)));
    let e = svc.manage_dir_or_file(&request(Operation::RenameFile, "x"), &paths(Some(ROOT), EntryKind::Directory, None)).unwrap_err();
    assert_eq!(e, RpcError::Internal(ServiceError::Path(PathError::PathEscape)));
    let e = svc.manage_dir_or_file(&request(Operation::MoveFile, ""), &paths(Some("/srv/share/a"), EntryKind::File, Some("/etc"))).unwrap_err();
    assert_eq!(e, RpcError::Internal(ServiceError::Path(PathError::PathEscape)));
    let e = svc.manage_dir_or_file(&request(Operation::DeleteFile, ""), &paths(None, EntryKind::Other, None)).unwrap_err();
    assert_eq!(e, RpcError::Internal(ServiceError::Unresolved));
    let locked = get_serva_manager(&info(false, true, true));
    let e = locked.manage_dir_or_file(&request(Operation::DeleteFile, ""), &paths(Some("/srv/share/a"), EntryKind::File, None)).unwrap_err();
    assert_eq!(e, RpcError::PermissionDenied);
}

#[test]
fn stack_selection() {
    assert_eq!(select_stack(Some("application/grpc-web+proto")), Stack::Rpc);
    assert_eq!(select_stack(Some("application/grpc")), Stack::Rpc);
    assert_eq!(select_stack(Some("text/html")), Stack::Http);
    assert_eq!(select_stack(None), Stack::Http);
}

#[test]
fn disposition_escapes_quotes() {
    match serve_fs_file("/srv/share/say \"hi\".txt", 3, None) {
        FileResponse::Whole { disposition, mime, .. } => {
            assert_eq!(disposition, "attachment; filename=\"say \\\"hi\\\".txt\"");
            assert_eq!(mime, "text/plain");
        }
        other => panic!("unexpected {:?}", other),
    }
}

#[test]
fn file_config_from_server_info() {
    let i = info(false, true, false);
    let c = Config::from(&i);
    assert_eq!(c.root, ROOT);
    assert_eq!(c.prefix, "/shared-files/");
    assert!(!c.allow_download);
    assert!(!c.allow_cors);
}

#[test]
fn routing_by_components() {
    let c = config(true);
    match serve_files(&c, "/shared-files//a") {
        Route::FsFile(p) => assert_eq!(p, "a"),
        other => panic!("unexpected {:?}", other),
    }
    match serve_files(&c, "/shared-files/./a//b/") {
        Route::FsFile(p) => assert_eq!(p, "a/b"),
        other => panic!("unexpected {:?}", other),
    }
    match serve_files(&c, "/shared-files/") {
        Route::Respond(r) => assert_eq!(r.status(), 404),
        other => panic!("unexpected {:?}", other),
    }
    match serve_files(&c, "/shared-filesx/a") {
        Route::Embedded(p) => assert_eq!(p, "shared-filesx/a"),
        other => panic!("unexpected {:?}", other),
    }
    match serve_files(&c, "//") {
        Route::Respond(FileResponse::Redirect { location }) => assert_eq!(location, "/index.html"),
        other => panic!("unexpected {:?}", other),
    }
    match serve_files(&c, "/css//site.css") {
        Route::Embedded(p) => assert_eq!(p, "css/site.css"),
        other => panic!("unexpected {:?}", other),
    }
}

#[test]
fn listing_skips_symlinks_in_any_order() {
    let svc = get_serva_manager(&info(false, true, true));
    let file = || RawEntry { path: "/srv/share/f".to_string(), kind: EntryKind::File, modified: Some((1, 0)), len: 3 };
    let dir = || RawEntry { path: "/srv/share/d".to_string(), kind: EntryKind::Directory, modified: Some((2, 0)), len: 0 };
    let link = || RawEntry { path: "/srv/share/l".to_string(), kind: EntryKind::Other, modified: Some((3, 0)), len: 0 };
    for entries in [vec![link(), dir(), file()], vec![dir(), link(), file()], vec![file(), dir(), link()]] {
        let resp = svc.list_dir(String::new(), &entries).unwrap();
        assert_eq!(resp.directories.len(), 1);
        assert_eq!(resp.directories[0].path, "d");
        assert_eq!(resp.files.len(), 1);
        assert_eq!(resp.files[0].path, "f");
        assert_eq!(resp.files[0].size, 3);
    }
}

#[test]
fn range_answers_from_decisions() {
    match build_range_response("/srv/share/a.bin", 10, RangeDecision::Partial { start: 3, end: 5 }) {
        FileResponse::Partial { content_range, start, length, .. } => {
            assert_eq!(content_range, "bytes 3-5/3");
            assert_eq!(start, 3);
            assert_eq!(length, 3);
        }
        other => panic!("unexpected {:?}", other),
    }
    assert_eq!(build_range_response("/srv/share/a.bin", 10, RangeDecision::Unsatisfiable).status(), 416);
    assert_eq!(serve_fs_file("/srv/share/a.bin", 10, Some("bytes=0-1,5-6")).status(), 416);
    assert_eq!(serve_fs_file("/srv/share/a.bin", 10, Some("bytes=20-30")).status(), 416);
}

#[test]
fn disposition_escapes_like_debug() {
    for name in ["plain.txt", "tab\there.txt", "bell\u{7}\u{1b}\u{7f}\u{85}.bin", "nul\0cr\rlf\n.txt", "q\"b\\.txt", "it's.txt"] {
        let path = format!("/srv/share/{}", name);
        match serve_fs_file(&path, 1, None) {
            FileResponse::Whole { disposition, .. } => {
                assert_eq!(disposition, format!("attachment; filename={:?}", name));
            }
            other => panic!("unexpected {:?}", other),
        }
    }
}
