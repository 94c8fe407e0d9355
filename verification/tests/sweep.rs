use barista::control::{ApiError, Error};
use barista::feed::{plan_sweep, sweep_result, try_kill_plan, SweepEntry};

fn entry(path: &str, is_dir: bool, pid_file_exists: bool, pid: Option<&str>) -> SweepEntry {
    SweepEntry {
        path: path.to_string(),
        is_dir,
        pid_file_exists,
        pid_contents: pid.map(|p| p.to_string()),
    }
}

// Every well-formed feed directory yields a kill order for the group in
// its PID file and the removal of that file; everything else is a
// failure for that entry alone.
#[test]
fn orphan_sweep() {
    let entries = vec![
        entry("/w/feeds/00-a", true, true, Some("1234")),
        entry("/w/feeds/01-b", true, true, Some("987")),
        entry("/w/feeds/stray-file", false, false, None),
        entry("/w/feeds/02-c", true, false, None),
        entry("/w/feeds/03-d", true, true, None),
        entry("/w/feeds/04-e", true, true, Some("not a pid")),
    ];
    let (orders, failed) = plan_sweep(&entries);
    assert_eq!(2, orders.len());
    assert_eq!(4, failed);
    assert_eq!(1234, orders[0].pgid);
    assert_eq!("/w/feeds/00-a/pid", orders[0].pid_file);
    assert_eq!(987, orders[1].pgid);
    assert_eq!("/w/feeds/01-b/pid", orders[1].pid_file);
}

#[test]
fn kill_plan_per_entry() {
    let good = entry("/w/feeds/00-a", true, true, Some("42"));
    let order = try_kill_plan(&good).unwrap();
    assert_eq!(42, order.pgid);
    assert_eq!("/w/feeds/00-a/pid", order.pid_file);
    assert!(try_kill_plan(&entry("/w/f", false, true, Some("42"))).is_none());
    assert!(try_kill_plan(&entry("/w/f", true, false, None)).is_none());
    assert!(try_kill_plan(&entry("/w/f", true, true, Some("4294967296"))).is_none());
}

#[test]
fn sweep_summary() {
    assert!(sweep_result(0, 5).is_ok());
    assert_eq!(
        "2 out of 6 kill attempts failed.",
        sweep_result(2, 6).unwrap_err()
    );
}

#[test]
fn control_error_messages() {
    assert_eq!(
        "Bar server is dead",
        Error::from(ApiError::Dead).text
    );
    assert_eq!(
        "Bar server exited before replying",
        Error::from(ApiError::Crashed).text
    );
    assert_eq!(
        "Bar server operation failed: boom",
        Error::from(ApiError::OpFailed {
            message: "boom".to_string()
        })
        .text
    );
}
