use katana::filetype::FileType;
use katana::keyval::KeyVal;

/// A fresh store is empty; adding and looking up work as a map.
#[test]
fn test_keyval_basics() {
    let mut kv = KeyVal::new();
    assert!(kv.is_empty());
    assert_eq!(kv.len(), 0);
    assert!(!kv.contains("a"));
    assert_eq!(kv.get("a"), None);

    assert_eq!(kv.add("a".to_string(), "1".to_string()), None);
    assert_eq!(kv.add("b".to_string(), "2".to_string()), None);
    assert_eq!(kv.len(), 2);
    assert!(kv.contains("a"));
    assert_eq!(kv.get("a").unwrap(), "1");
    assert_eq!(kv.get("b").unwrap(), "2");
}

/// A second add of the same key replaces the value in place and hands the
/// old value back.
#[test]
fn test_keyval_overwrite_keeps_order() {
    let mut kv = KeyVal::new();
    kv.add("a".to_string(), "1".to_string());
    kv.add("b".to_string(), "2".to_string());
    let old = kv.add("a".to_string(), "3".to_string());
    assert_eq!(old, Some("1".to_string()));
    assert_eq!(kv.len(), 2);
    assert_eq!(kv.get("a").unwrap(), "3");
    let pairs = kv.iter();
    assert_eq!(pairs[0], ("a".to_string(), "3".to_string()));
    assert_eq!(pairs[1], ("b".to_string(), "2".to_string()));
}

/// Deleting removes the pair and hands its value back; clearing empties.
#[test]
fn test_keyval_del_and_clear() {
    let mut kv = KeyVal::new();
    kv.add("a".to_string(), "1".to_string());
    kv.add("b".to_string(), "2".to_string());
    assert_eq!(kv.del("a"), Some("1".to_string()));
    assert_eq!(kv.del("a"), None);
    assert_eq!(kv.len(), 1);
    assert!(kv.contains("b"));
    kv.clear();
    assert!(kv.is_empty());
}

/// The extension table lookup is case-insensitive and exact.
#[test]
fn test_filetype_lookup() {
    let css = FileType::from_extension("css").unwrap();
    assert_eq!(css.content_type, "text/css");
    assert_eq!(css.content_disposition(), "inline");

    let upper = FileType::from_extension("CSS").unwrap();
    assert_eq!(upper.content_type, "text/css");
    assert_eq!(upper.extension, "css");

    assert!(FileType::from_extension("nosuchext").is_none());
    assert!(FileType::is_supported("pdf"));
    assert!(!FileType::is_supported("csv"));
}

/// Dispositions by MIME family: text, images and pdf render inline,
/// archives and binaries download.
#[test]
fn test_filetype_dispositions() {
    assert_eq!(FileType::from_extension("html").unwrap().content_disposition(), "inline");
    assert_eq!(FileType::from_extension("png").unwrap().content_disposition(), "inline");
    assert_eq!(FileType::from_extension("pdf").unwrap().content_disposition(), "inline");
    assert_eq!(FileType::from_extension("json").unwrap().content_disposition(), "inline");
    assert_eq!(FileType::from_extension("zip").unwrap().content_disposition(), "attachment");
    assert_eq!(FileType::from_extension("mp3").unwrap().content_disposition(), "attachment");
    assert_eq!(FileType::from_extension("exe").unwrap().content_disposition(), "attachment");
    assert_eq!(FileType::new("bin", "application/octet-stream").content_disposition(), "attachment");
}
