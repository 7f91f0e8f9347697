use domo::tenants::{Session, SessionCache, copy_session};

fn session(slug: &str, exp: i64) -> Session {
    Session {
        tenant_id: "11111111-1111-1111-1111-111111111111".into(),
        tenant_slug: slug.into(),
        exp,
    }
}

#[test]
fn a_cache_reads_back_what_was_inserted() {
    let mut cache = SessionCache::new();
    assert!(cache.is_empty());
    assert_eq!(cache.get("sa-1"), None);
    cache.insert("sa-1", session("lakeside", 10));
    assert_eq!(cache.get("sa-1"), Some(session("lakeside", 10)));
    assert_eq!(cache.get("sa-2"), None);
    assert_eq!(cache.len(), 1);
    assert!(!cache.is_empty());
}

#[test]
fn a_second_insert_replaces_the_first() {
    let mut cache = SessionCache::new();
    cache.insert("sa-1", session("lakeside", 10));
    cache.insert("sa-2", session("harbour", 20));
    cache.insert("sa-1", session("lakeside", 30));
    assert_eq!(cache.len(), 2);
    assert_eq!(cache.get("sa-1"), Some(session("lakeside", 30)));
    assert_eq!(cache.get("sa-2"), Some(session("harbour", 20)));
}

#[test]
fn a_copied_session_is_equal() {
    let s = session("lakeside", 10);
    assert_eq!(copy_session(&s), s);
}
