use gosh_dl::sidecar::error::Error;
use gosh_dl::sidecar::rpc_args::{read_args, Param, ParamValue, RpcArgs};
use gosh_dl::sidecar::rpc_server::RpcMethod;

fn text(key: &str, value: &str) -> Param {
    Param { key: key.to_string(), value: ParamValue::Text(value.to_string()) }
}

fn flag(key: &str, value: bool) -> Param {
    Param { key: key.to_string(), value: ParamValue::Flag(value) }
}

fn number(key: &str, value: u64) -> Param {
    Param { key: key.to_string(), value: ParamValue::Number(value) }
}

fn texts(key: &str, values: Vec<&str>) -> Param {
    Param {
        key: key.to_string(),
        value: ParamValue::Texts(values.into_iter().map(|s| s.to_string()).collect()),
    }
}

#[test]
fn test_args_of_add_download() {
    let ok = read_args(RpcMethod::AddDownload, &vec![text("url", "https://example.com/f.zip")]);
    assert!(matches!(ok, Ok(RpcArgs::Url { url }) if url == "https://example.com/f.zip"));
    let none = read_args(RpcMethod::AddDownload, &vec![]);
    assert!(matches!(none, Err(Error::InvalidInput(m)) if m == "URL cannot be empty"));
    let wrong = read_args(RpcMethod::AddDownload, &vec![number("url", 5)]);
    assert!(matches!(wrong, Err(Error::InvalidInput(m)) if m == "URL cannot be empty"));
    let private = read_args(RpcMethod::AddDownload, &vec![text("url", "http://127.0.0.1/f")]);
    assert!(matches!(
        private,
        Err(Error::InvalidInput(m)) if m == "URLs targeting private/loopback IP addresses are not allowed"
    ));
    let scheme = read_args(RpcMethod::AddDownload, &vec![text("url", "ftp://example.com/f")]);
    assert!(matches!(
        scheme,
        Err(Error::InvalidInput(m)) if m == "URL must use http://, https://, or magnet: scheme, got: ftp"
    ));
}

#[test]
fn test_args_of_add_urls() {
    let ok = read_args(
        RpcMethod::AddUrls,
        &vec![texts("urls", vec!["https://example.com/1", "magnet:?xt=urn:btih:abc"])],
    );
    assert!(matches!(ok, Ok(RpcArgs::Urls { urls }) if urls.len() == 2));
    let empty = read_args(RpcMethod::AddUrls, &vec![text("urls", "https://example.com/1")]);
    assert!(matches!(empty, Ok(RpcArgs::Urls { urls }) if urls.is_empty()));
    let bad = read_args(
        RpcMethod::AddUrls,
        &vec![texts("urls", vec!["https://example.com/1", "", "file:///etc/passwd"])],
    );
    assert!(matches!(bad, Err(Error::InvalidInput(m)) if m == "URL cannot be empty"));
}

#[test]
fn test_args_with_two_spellings() {
    let camel = read_args(
        RpcMethod::RemoveDownload,
        &vec![text("gid", "g"), flag("delete_files", false), flag("deleteFiles", true)],
    );
    assert!(matches!(camel, Ok(RpcArgs::Removal { gid, delete_files: true }) if gid == "g"));
    let snake = read_args(RpcMethod::RemoveDownload, &vec![flag("delete_files", true)]);
    assert!(matches!(snake, Ok(RpcArgs::Removal { gid, delete_files: true }) if gid.is_empty()));
    let shadowed = read_args(
        RpcMethod::RemoveDownload,
        &vec![text("deleteFiles", "yes"), flag("delete_files", true)],
    );
    assert!(matches!(shadowed, Ok(RpcArgs::Removal { delete_files: false, .. })));
    let limits = read_args(
        RpcMethod::SetSpeedLimit,
        &vec![number("downloadLimit", 1024), text("upload_limit", "fast")],
    );
    assert!(matches!(
        limits,
        Ok(RpcArgs::Limits { download_limit: Some(1024), upload_limit: None })
    ));
    let path = read_args(RpcMethod::AddTorrentFile, &vec![text("file_path", "/a.torrent")]);
    assert!(matches!(path, Ok(RpcArgs::FilePath { file_path }) if file_path == "/a.torrent"));
    let folder = read_args(RpcMethod::OpenDownloadFolder, &vec![text("path", "/dl")]);
    assert!(matches!(folder, Ok(RpcArgs::FilePath { file_path }) if file_path == "/dl"));
    let magnet = read_args(RpcMethod::ParseMagnetUri, &vec![text("magnetUri", "magnet:?x")]);
    assert!(matches!(magnet, Ok(RpcArgs::Magnet { magnet_uri }) if magnet_uri == "magnet:?x"));
    let agent = read_args(RpcMethod::SetUserAgent, &vec![text("user_agent", "a/1")]);
    assert!(matches!(agent, Ok(RpcArgs::UserAgent { user_agent }) if user_agent == "a/1"));
}

#[test]
fn test_args_with_defaults() {
    let tray = read_args(RpcMethod::SetCloseToTray, &vec![]);
    assert!(matches!(tray, Ok(RpcArgs::Flag { value: true })));
    let tray = read_args(RpcMethod::SetCloseToTray, &vec![flag("value", false)]);
    assert!(matches!(tray, Ok(RpcArgs::Flag { value: false })));
    let priority = read_args(RpcMethod::SetPriority, &vec![text("gid", "g")]);
    assert!(matches!(
        priority,
        Ok(RpcArgs::Priority { gid, priority }) if gid == "g" && priority == "normal"
    ));
    let priority = read_args(RpcMethod::SetPriority, &vec![text("priority", "high")]);
    assert!(matches!(priority, Ok(RpcArgs::Priority { priority, .. }) if priority == "high"));
    for method in [RpcMethod::PauseAll, RpcMethod::GetAllDownloads, RpcMethod::DbSaveSettings] {
        assert!(matches!(read_args(method, &vec![text("gid", "g")]), Ok(RpcArgs::Nothing)));
    }
    let first = read_args(RpcMethod::PauseDownload, &vec![text("gid", "a"), text("gid", "b")]);
    assert!(matches!(first, Ok(RpcArgs::Gid { gid }) if gid == "a"));
}
