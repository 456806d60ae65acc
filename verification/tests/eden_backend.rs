use std::sync::Mutex;

use workingcopy::client::{
    BackendKind, CheckoutConflict, CheckoutMode, ClientError, ConflictType, ProgressInfo,
    WorkingCopyClient,
};
use workingcopy::eden::{
    from_daemon_mode, from_daemon_reply, to_daemon_mode, DaemonCheckoutMode, DaemonSession,
    EdenFsClient,
};
use workingcopy::hgid::HgId;
use workingcopy::path::RepoPathBuf;
use workingcopy::status::{FileStatus, StatusMap};

fn id(fill: u8) -> HgId {
    HgId::from_byte_array([fill; 20])
}

/// A stand-in for the daemon: it records what it is asked.
struct FakeDaemon {
    log: Mutex<Vec<String>>,
    down: bool,
    progress: Option<ProgressInfo>,
}

impl FakeDaemon {
    fn new() -> FakeDaemon {
        FakeDaemon { log: Mutex::new(Vec::new()), down: false, progress: None }
    }

    fn note(&self, what: String) -> Result<(), String> {
        self.log.lock().unwrap().push(what);
        if self.down {
            Err("daemon is not running".to_string())
        } else {
            Ok(())
        }
    }

    fn log(&self) -> Vec<String> {
        self.log.lock().unwrap().clone()
    }
}

impl DaemonSession for FakeDaemon {
    fn get_status(&self, node: HgId, list_ignored: bool) -> Result<StatusMap, String> {
        self.note(format!("status {} {}", node.to_hex(), list_ignored))?;
        let mut map = StatusMap::new();
        map.insert(RepoPathBuf::from_utf8(b"a/b".to_vec()).unwrap(), FileStatus::Modified);
        Ok(map)
    }

    fn set_parents(&self, p1: HgId, p2: Option<HgId>, p1_tree: HgId) -> Result<(), String> {
        let second = p2.map(|p| p.to_hex()).unwrap_or_default();
        self.note(format!("parents {} [{}] {}", p1.to_hex(), second, p1_tree.to_hex()))
    }

    fn checkout(
        &self,
        node: HgId,
        tree_node: HgId,
        mode: DaemonCheckoutMode,
    ) -> Result<Vec<CheckoutConflict>, String> {
        self.note(format!("checkout {} {} {:?}", node.to_hex(), tree_node.to_hex(), mode))?;
        Ok(vec![CheckoutConflict {
            path: RepoPathBuf::from_utf8(b"dir/file".to_vec()).unwrap(),
            conflict_type: ConflictType::ModifiedModified,
            message: "both changed".to_string(),
        }])
    }

    fn checkout_progress(&self) -> Result<Option<ProgressInfo>, String> {
        self.note("progress".to_string())?;
        Ok(self.progress)
    }
}

#[test]
fn modes_correspond_one_for_one() {
    assert_eq!(to_daemon_mode(CheckoutMode::Normal), DaemonCheckoutMode::Normal);
    assert_eq!(to_daemon_mode(CheckoutMode::Force), DaemonCheckoutMode::Force);
    assert_eq!(to_daemon_mode(CheckoutMode::DryRun), DaemonCheckoutMode::DryRun);
    for mode in [CheckoutMode::Normal, CheckoutMode::Force, CheckoutMode::DryRun] {
        assert_eq!(from_daemon_mode(to_daemon_mode(mode)), mode);
    }
    for mode in [DaemonCheckoutMode::Normal, DaemonCheckoutMode::Force, DaemonCheckoutMode::DryRun] {
        assert_eq!(to_daemon_mode(from_daemon_mode(mode)), mode);
    }
}

#[test]
fn replies_are_handed_on() {
    assert_eq!(from_daemon_reply(Ok::<u32, String>(7)).unwrap(), 7);
    match from_daemon_reply(Err::<u32, String>("gone".to_string())) {
        Err(ClientError::Engine(account)) => assert_eq!(account, "gone"),
        other => panic!("unexpected {:?}", other),
    }
}

#[test]
fn requests_are_forwarded() {
    let client = EdenFsClient::new(FakeDaemon::new());
    let map = client.get_status(id(1), true).unwrap();
    assert_eq!(map.get(b"a/b"), Some(FileStatus::Modified));
    client.set_parents(id(2), Some(id(3)), id(4)).unwrap();
    let conflicts = client.checkout(id(5), id(6), CheckoutMode::Normal).unwrap();
    assert_eq!(conflicts.len(), 1);
    assert_eq!(conflicts[0].path.as_str(), "dir/file");
    assert_eq!(conflicts[0].conflict_type, ConflictType::ModifiedModified);
    assert_eq!(conflicts[0].message, "both changed");
    client.checkout(id(5), id(6), CheckoutMode::Force).unwrap();
    assert_eq!(
        client.session.log(),
        vec![
            format!("status {} true", "01".repeat(20)),
            format!("parents {} [{}] {}", "02".repeat(20), "03".repeat(20), "04".repeat(20)),
            format!("checkout {} {} Normal", "05".repeat(20), "06".repeat(20)),
            format!("checkout {} {} Force", "05".repeat(20), "06".repeat(20)),
        ]
    );
}

#[test]
fn dry_run_checkout_does_not_reach_the_daemon() {
    let mut daemon = FakeDaemon::new();
    daemon.down = true;
    let client = EdenFsClient::new(daemon);
    assert!(client.checkout(id(1), id(2), CheckoutMode::DryRun).unwrap().is_empty());
    assert!(client.session.log().is_empty());
}

#[test]
fn progress_comes_from_the_daemon() {
    let client = EdenFsClient::new(FakeDaemon::new());
    assert_eq!(client.checkout_progress().unwrap(), None);
    let mut daemon = FakeDaemon::new();
    daemon.progress = Some(ProgressInfo { position: 3, total: 10 });
    let client = EdenFsClient::new(daemon);
    assert_eq!(client.checkout_progress().unwrap(), Some(ProgressInfo { position: 3, total: 10 }));
}

#[test]
fn daemon_failures_are_engine_failures() {
    let mut daemon = FakeDaemon::new();
    daemon.down = true;
    let client = EdenFsClient::new(daemon);
    assert_eq!(client.get_status(id(1), false).unwrap_err().message(), "daemon is not running");
    assert!(!client.set_parents(id(1), None, id(1)).unwrap_err().is_unsupported());
    assert!(client.checkout(id(1), id(1), CheckoutMode::Normal).is_err());
    assert!(client.checkout_progress().is_err());
}

#[test]
fn daemon_backend_capabilities() {
    let client = EdenFsClient::new(FakeDaemon::new());
    assert_eq!(client.backend(), BackendKind::Daemon);
    assert!(BackendKind::Daemon.reports_progress());
    assert!(BackendKind::Daemon.reports_conflicts());
    assert!(BackendKind::Daemon.honors_baseline());
}
