//! Configuration model and the working-directory layout: feed definitions,
//! sink selection, padding and separators, and the paths of every file the
//! daemon touches.

use vstd::prelude::*;

use crate::text::{dec_digits_pad2, u64_to_decimal_pad2};

verus! {

/// One configured feed: a shell pipeline whose line output fills one bar
/// slot, with an optional time-to-live for its latest line, in
/// milliseconds, and an optional shell override.
pub struct Feed {
    pub name: String,
    pub cmd: String,
    pub ttl_ms: Option<u64>,
    pub shell: Option<String>,
}

/// Where the composed bar line is published.
pub enum Dst {
    StdOut,
    StdErr,
    File { path: String },
    X11RootWindowName,
}

impl Clone for Dst {
    fn clone(&self) -> (r: Self)
        ensures
            r == *self,
    {
        match self {
            Dst::StdOut => Dst::StdOut,
            Dst::StdErr => Dst::StdErr,
            Dst::File { path } => Dst::File { path: path.clone() },
            Dst::X11RootWindowName => Dst::X11RootWindowName,
        }
    }
}

/// The daemon configuration: the ordered feeds, the sink, the bar layout,
/// and the output interval in milliseconds.
pub struct Conf {
    pub feeds: Vec<Feed>,
    pub dst: Option<Dst>,
    pub sep: String,
    pub pad_left: String,
    pub pad_right: String,
    pub expiry_character: char,
    pub output_interval_ms: u64,
}

impl Conf {
    /// The sink to publish to: the configured one, or the X11 root window
    /// name when none is configured.
    pub fn get_dst(&self) -> (r: Dst)
        ensures
            match self.dst {
                Some(d) => r == d,
                None => r is X11RootWindowName,
            },
    {
        match &self.dst {
            Some(d) => d.clone(),
            None => Dst::X11RootWindowName,
        }
    }
}

impl Default for Conf {
    /// Two sample feeds refreshed every second, published to the X11 root
    /// window name, separated by three spaces inside single-space padding.
    fn default() -> (r: Self)
        ensures
            r.feeds@.len() == 2,
            r.feeds@[0].name@ == "uptime"@,
            r.feeds@[0].cmd@ == "while :; do uptime; sleep 1; done"@,
            r.feeds@[0].ttl_ms == Some(1000u64),
            r.feeds@[0].shell is None,
            r.feeds@[1].name@ == "time"@,
            r.feeds@[1].cmd@ == "while :; do date; sleep 1; done"@,
            r.feeds@[1].ttl_ms == Some(1000u64),
            r.feeds@[1].shell is None,
            r.dst matches Some(d) && d is X11RootWindowName,
            r.sep@ == "   "@,
            r.pad_left@ == " "@,
            r.pad_right@ == " "@,
            r.expiry_character == '_',
            r.output_interval_ms == 1000,
    {
        let mut feeds: Vec<Feed> = Vec::new();
        feeds.push(
            Feed {
                name: "uptime".to_owned(),
                cmd: "while :; do uptime; sleep 1; done".to_owned(),
                ttl_ms: Some(1000),
                shell: None,
            },
        );
        feeds.push(
            Feed {
                name: "time".to_owned(),
                cmd: "while :; do date; sleep 1; done".to_owned(),
                ttl_ms: Some(1000),
                shell: None,
            },
        );
        Conf {
            feeds,
            dst: Some(Dst::X11RootWindowName),
            sep: "   ".to_owned(),
            pad_left: " ".to_owned(),
            pad_right: " ".to_owned(),
            expiry_character: '_',
            output_interval_ms: 1000,
        }
    }
}

/// The shell used when a feed does not name one.
pub fn default_shell() -> (r: String)
    ensures
        r@ == "/bin/bash"@,
{
    "/bin/bash".to_owned()
}

/// Appends `name` to `dir` below a path separator.
fn join_path(dir: &str, name: &str) -> (r: String)
    ensures
        r@ == dir@ + "/"@ + name@,
{
    let mut r = dir.to_owned();
    r.append("/");
    r.append(name);
    r
}

/// The daemon's own PID file.
pub fn path_server_pid(dir: &str) -> (r: String)
    ensures
        r@ == dir@ + "/"@ + "pid"@,
{
    join_path(dir, "pid")
}

/// The daemon's RPC socket file.
pub fn path_server_sock(dir: &str) -> (r: String)
    ensures
        r@ == dir@ + "/"@ + "socket"@,
{
    join_path(dir, "socket")
}

/// The directory holding one subdirectory per feed.
pub fn path_feeds_dir(dir: &str) -> (r: String)
    ensures
        r@ == dir@ + "/"@ + "feeds"@,
{
    join_path(dir, "feeds")
}

/// A feed's log file, holding the stderr of its shell command.
pub fn path_feed_log(feed_dir: &str) -> (r: String)
    ensures
        r@ == feed_dir@ + "/"@ + "log"@,
{
    join_path(feed_dir, "log")
}

/// A feed's PID file, holding its process ID in decimal.
pub fn path_feed_pid(feed_dir: &str) -> (r: String)
    ensures
        r@ == feed_dir@ + "/"@ + "pid"@,
{
    join_path(feed_dir, "pid")
}

/// The configuration file.
pub fn path_conf(dir: &str) -> (r: String)
    ensures
        r@ == dir@ + "/"@ + "conf.toml"@,
{
    join_path(dir, "conf.toml")
}

/// The directory of the feed at zero-based position `feed_pos`: under the
/// feeds directory, named by the two-digit position and the feed name.
pub fn path_feed_dir(main_dir: &str, feed_pos: usize, feed_name: &str) -> (r: String)
    ensures
        r@ == main_dir@ + "/"@ + "feeds"@ + "/"@ + dec_digits_pad2(feed_pos as nat) + "-"@
            + feed_name@,
{
    let mut r = path_feeds_dir(main_dir);
    r.append("/");
    let num = u64_to_decimal_pad2(feed_pos as u64);
    r.append(num.as_str());
    r.append("-");
    r.append(feed_name);
    r
}

} // verus!
