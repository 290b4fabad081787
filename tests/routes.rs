use ssr_learning::route::Route;

#[test]
fn routes_are_mounted_at_their_paths() {
    assert_eq!(Route::Home.to_path(), "/");
    assert_eq!(Route::My.to_path(), "/my");
}

#[test]
fn paths_are_recognized_exactly() {
    assert_eq!(Route::recognize("/"), Some(Route::Home));
    assert_eq!(Route::recognize("/my"), Some(Route::My));
    assert_eq!(Route::recognize("/my/"), None);
    assert_eq!(Route::recognize("/style.css"), None);
    assert_eq!(Route::recognize(""), None);
    assert_eq!(Route::recognize("/mx"), None);
}

#[test]
fn every_route_recognizes_its_own_path() {
    for r in [Route::Home, Route::My] {
        assert_eq!(Route::recognize(r.to_path()), Some(r));
    }
}
