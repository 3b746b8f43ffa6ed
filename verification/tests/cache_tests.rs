use lldbui::source_cache::SourceCache;

#[test]
fn first_fetch_caches_the_disk_contents() {
    let mut cache = SourceCache::new();
    let path = String::from("/src/main.c");
    let got = cache.get_source(&path, Some(String::from("int main() {}\n")));
    assert_eq!(got, Some(String::from("int main() {}\n")));
}

#[test]
fn two_fetches_of_an_existing_path_are_identical() {
    let mut cache = SourceCache::new();
    let path = String::from("/src/main.c");
    let first = cache.get_source(&path, Some(String::from("original text")));
    // The cache never revalidates: even if the disk were to change, the
    // session keeps serving the first contents.
    let second = cache.get_source(&path, Some(String::from("changed on disk")));
    assert_eq!(first, Some(String::from("original text")));
    assert_eq!(second, first);
    let third = cache.get_source(&path, None);
    assert_eq!(third, first);
}

#[test]
fn missing_path_is_absent_not_an_error() {
    let mut cache = SourceCache::new();
    let path = String::from("/no/such/file.c");
    assert_eq!(cache.get_source(&path, None), None);
    // Still absent on a second try, and nothing was cached by the miss.
    assert_eq!(cache.get_source(&path, None), None);
}

#[test]
fn distinct_paths_are_cached_independently() {
    let mut cache = SourceCache::new();
    let a = String::from("/src/a.c");
    let b = String::from("/src/b.c");
    assert_eq!(
        cache.get_source(&a, Some(String::from("text a"))),
        Some(String::from("text a"))
    );
    assert_eq!(
        cache.get_source(&b, Some(String::from("text b"))),
        Some(String::from("text b"))
    );
    assert_eq!(cache.get_source(&a, None), Some(String::from("text a")));
    assert_eq!(cache.get_source(&b, None), Some(String::from("text b")));
}
