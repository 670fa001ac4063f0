use open_web_server::access_log::{
    backup_file_name, needs_rotation, rotation_renames, AccessLogConfig, AccessLogger, DEFAULT_MAX_BACKUPS,
    DEFAULT_MAX_BYTES,
};

#[test]
fn from_env_disabled_by_default() {
    assert!(AccessLogConfig::from_settings(None, Some("100"), Some("2")).is_none());
}

#[test]
fn settings_fall_back_to_defaults_when_unreadable() {
    let c = AccessLogConfig::from_settings(Some("/var/log/ows/access.log"), Some("lots"), None).unwrap();
    assert_eq!(c.path, "/var/log/ows/access.log");
    assert_eq!(c.max_bytes, DEFAULT_MAX_BYTES);
    assert_eq!(c.max_bytes, 10 * 1024 * 1024);
    assert_eq!(c.max_backups, DEFAULT_MAX_BACKUPS);
    let c = AccessLogConfig::from_settings(Some("a.log"), Some("10"), Some("3")).unwrap();
    assert_eq!((c.max_bytes, c.max_backups), (10, 3));
    let logger = AccessLogger::new(c);
    assert_eq!(logger.config.max_backups, 3);
}

#[test]
fn rotates_when_size_exceeded_and_compresses() {
    // An empty file never rotates; a line that would pass the limit does.
    assert!(!needs_rotation(0, 100, 10));
    assert!(needs_rotation(40, 40, 10));
    assert!(!needs_rotation(4, 4, 10));
    assert!(!needs_rotation(5, 4, 10));
    assert!(needs_rotation(6, 4, 10));
    assert_eq!(backup_file_name("access.log", 1), "access.log.1.gz");
}

#[test]
fn generation_shift_keeps_max_backups() {
    assert_eq!(rotation_renames(3), vec![(2, 3), (1, 2)]);
    assert_eq!(rotation_renames(2), vec![(1, 2)]);
    assert!(rotation_renames(1).is_empty());
    assert!(rotation_renames(0).is_empty());
}
