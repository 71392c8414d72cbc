use ttrpc::context;
use ttrpc::messages::KeyValue;

#[test]
fn test_metadata() {
    let mut src = Vec::new();
    for i in &[("key1", "value1-1"), ("key1", "value1-2"), ("key2", "value2")] {
        let key = KeyValue { key: i.0.to_string(), value: i.1.to_string() };
        src.push(key);
    }

    let dst = context::from_pb(&src);
    assert_eq!(dst.len(), 2);

    assert_eq!(dst.get("key1"), Some(&vec!["value1-1".to_string(), "value1-2".to_string()]));
    assert_eq!(dst.get("key2"), Some(&vec!["value2".to_string()]));
    assert_eq!(dst.get("key3"), None);

    let mut kvs = context::to_pb(dst);
    kvs.sort_by(|a, b| a.key.partial_cmp(&b.key).unwrap());

    assert_eq!(kvs.len(), 3);

    assert_eq!(kvs[0].key, "key1");
    assert_eq!(kvs[0].value, "value1-1");

    assert_eq!(kvs[1].key, "key1");
    assert_eq!(kvs[1].value, "value1-2");

    assert_eq!(kvs[2].key, "key2");
    assert_eq!(kvs[2].value, "value2");
}

#[test]
fn test_context() {
    let ctx: context::Context = Default::default();
    assert_eq!(0, ctx.timeout_nano);
    assert_eq!(ctx.metadata.len(), 0);

    let mut ctx = context::with_duration(context::Duration::from_nanos(99));
    assert_eq!(99, ctx.timeout_nano);
    assert_eq!(ctx.metadata.len(), 0);

    ctx.add("key1".to_string(), "value1-1".to_string());
    assert_eq!(ctx.metadata.len(), 1);
    assert_eq!(ctx.metadata.get("key1"), Some(&vec!["value1-1".to_string()]));

    ctx.add("key1".to_string(), "value1-2".to_string());
    assert_eq!(ctx.metadata.len(), 1);
    assert_eq!(
        ctx.metadata.get("key1"),
        Some(&vec!["value1-1".to_string(), "value1-2".to_string()])
    );

    ctx.set("key2".to_string(), vec!["value2".to_string()]);
    assert_eq!(ctx.metadata.len(), 2);
    assert_eq!(ctx.metadata.get("key2"), Some(&vec!["value2".to_string()]));

    ctx.set("key1".to_string(), vec![]);
    assert_eq!(ctx.metadata.len(), 1);
    assert_eq!(ctx.metadata.get("key1"), None);
}

#[test]
fn with_timeout_keeps_value() {
    let ctx = context::with_timeout(-5);
    assert_eq!(ctx.timeout_nano, -5);
    assert!(ctx.metadata.is_empty());
}

#[test]
fn with_metadata_keeps_entries() {
    let mut md = context::Metadata::new();
    md.insert("a".to_string(), vec!["1".to_string()]);
    let ctx = context::with_metadata(md);
    assert_eq!(ctx.timeout_nano, 0);
    assert_eq!(ctx.metadata.get("a"), Some(&vec!["1".to_string()]));
}

#[test]
fn metadata_roundtrip_through_pairs() {
    let mut md = context::Metadata::new();
    md.insert("k".to_string(), vec!["x".to_string(), "y".to_string()]);
    md.insert("j".to_string(), vec!["z".to_string()]);
    let kvs = context::to_pb(md);
    let back = context::from_pb(&kvs);
    assert_eq!(back.get("k"), Some(&vec!["x".to_string(), "y".to_string()]));
    assert_eq!(back.get("j"), Some(&vec!["z".to_string()]));
    assert_eq!(back.len(), 2);
}

#[test]
fn metadata_remove_and_contains() {
    let mut md = context::Metadata::new();
    md.insert("k".to_string(), vec!["x".to_string()]);
    assert!(md.contains_key("k"));
    md.remove("k");
    assert!(!md.contains_key("k"));
    assert!(md.is_empty());
}

#[test]
fn with_duration_counts_whole_seconds() {
    let d = context::Duration::from_nanos(2_500_000_001);
    assert_eq!((d.secs, d.nanos), (2, 500_000_001));
    assert_eq!(context::with_duration(d).timeout_nano, 2_500_000_001);
    assert_eq!(context::with_duration(context::Duration::from_secs(3)).timeout_nano, 3_000_000_000);
    let huge = context::Duration { secs: u64::MAX, nanos: 0 };
    let expected = ((u64::MAX as u128) * 1_000_000_000) as i64;
    assert_eq!(context::with_duration(huge).timeout_nano, expected);
}
