use barista::conf::{
    default_shell, path_conf, path_feed_dir, path_feed_log, path_feed_pid, path_feeds_dir,
    path_server_pid, path_server_sock, Conf, Dst,
};

#[test]
fn working_directory_layout() {
    assert_eq!("/w/pid", path_server_pid("/w"));
    assert_eq!("/w/socket", path_server_sock("/w"));
    assert_eq!("/w/feeds", path_feeds_dir("/w"));
    assert_eq!("/w/conf.toml", path_conf("/w"));
    assert_eq!("/w/feeds/00-time", path_feed_dir("/w", 0, "time"));
    assert_eq!("/w/feeds/07-x", path_feed_dir("/w", 7, "x"));
    assert_eq!("/w/feeds/42-y", path_feed_dir("/w", 42, "y"));
    assert_eq!("/w/feeds/00-a/log", path_feed_log(&path_feed_dir("/w", 0, "a")));
    assert_eq!("/w/feeds/00-a/pid", path_feed_pid(&path_feed_dir("/w", 0, "a")));
    assert_eq!("/bin/bash", default_shell());
}

#[test]
fn default_configuration() {
    let conf = Conf::default();
    assert_eq!(2, conf.feeds.len());
    assert_eq!("uptime", conf.feeds[0].name);
    assert_eq!("while :; do uptime; sleep 1; done", conf.feeds[0].cmd);
    assert_eq!(Some(1000), conf.feeds[0].ttl_ms);
    assert_eq!("time", conf.feeds[1].name);
    assert_eq!("   ", conf.sep);
    assert_eq!(" ", conf.pad_left);
    assert_eq!(" ", conf.pad_right);
    assert_eq!('_', conf.expiry_character);
    assert_eq!(1000, conf.output_interval_ms);
    assert!(matches!(conf.get_dst(), Dst::X11RootWindowName));
    let no_dst = Conf { dst: None, ..Conf::default() };
    assert!(matches!(no_dst.get_dst(), Dst::X11RootWindowName));
    let file_dst = Conf {
        dst: Some(Dst::File {
            path: "/tmp/out".to_string(),
        }),
        ..Conf::default()
    };
    assert!(matches!(file_dst.get_dst(), Dst::File { .. }));
}
