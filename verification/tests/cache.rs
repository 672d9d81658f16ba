use signal_store::CacheMutex;
use std::convert::Infallible;

#[test]
fn test_cache_mutex() {
    let mut cache: CacheMutex<String> = Default::default();

    let value = cache
        .get(|| Ok::<_, Infallible>("Hello, World!".to_string()))
        .unwrap();
    assert_eq!(value, "Hello, World!");
    let value = cache
        .get(|| -> Result<String, Infallible> { panic!("I should not run") })
        .unwrap();
    assert_eq!(value, "Hello, World!");

    let mut new_cache = cache.clone(); // clone should not touch the cache
    let value = cache
        .get(|| -> Result<String, Infallible> { panic!("I should not run") })
        .unwrap();
    assert_eq!(value, "Hello, World!");

    cache.clear();
    let value = cache
        .get(|| Ok::<_, Infallible>("Hi, Amigo!".to_string()))
        .unwrap();
    assert_eq!(value, "Hi, Amigo!");
    let value = new_cache
        .get(|| -> Result<String, Infallible> { panic!("I should not run") })
        .unwrap();
    assert_eq!(value, "Hello, World!");
}

#[test]
fn cache_calls_the_factory_once() {
    let mut calls = 0;
    let mut cache: CacheMutex<String> = CacheMutex::default();
    let first = cache.get(|| {
        calls += 1;
        Ok::<_, Infallible>("A".to_string())
    });
    assert_eq!(first, Ok("A".to_string()));
    let second = cache.get(|| -> Result<String, Infallible> { panic!("I should not run") });
    assert_eq!(second, Ok("A".to_string()));
    assert_eq!(calls, 1);
}

#[test]
fn cache_keeps_nothing_of_a_failed_factory() {
    let mut cache: CacheMutex<u32> = CacheMutex::default();
    assert_eq!(cache.get(|| Err::<u32, &str>("no luck")), Err("no luck"));
    assert_eq!(cache.get(|| Ok::<u32, &str>(7)), Ok(7));
    assert_eq!(cache.get(|| Err::<u32, &str>("not asked")), Ok(7));
}

#[test]
fn cache_clone_of_an_empty_cache_is_empty() {
    let cache: CacheMutex<u32> = CacheMutex::default();
    let mut copy = cache.clone();
    assert_eq!(copy.get(|| Ok::<u32, Infallible>(3)), Ok(3));
}

#[test]
fn cache_clone_is_not_cleared_with_the_cache() {
    let mut cache: CacheMutex<String> = CacheMutex::default();
    cache.get(|| Ok::<_, Infallible>("A".to_string())).unwrap();
    let mut copy = cache.clone();
    cache.clear();
    assert_eq!(cache.get(|| Ok::<_, Infallible>("B".to_string())), Ok("B".to_string()));
    assert_eq!(
        copy.get(|| -> Result<String, Infallible> { panic!("I should not run") }),
        Ok("A".to_string())
    );
}

#[test]
fn cache_is_not_cleared_with_its_clone() {
    let mut cache: CacheMutex<String> = CacheMutex::default();
    cache.get(|| Ok::<_, Infallible>("A".to_string())).unwrap();
    let mut copy = cache.clone();
    copy.clear();
    assert_eq!(copy.get(|| Ok::<_, Infallible>("B".to_string())), Ok("B".to_string()));
    assert_eq!(
        cache.get(|| -> Result<String, Infallible> { panic!("I should not run") }),
        Ok("A".to_string())
    );
}
