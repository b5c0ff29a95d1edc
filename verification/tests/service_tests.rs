use photo_catalog::service::{route, status_of, Route};

#[test]
fn hello_path_routes_to_greeting() {
    assert_eq!(route("/hello"), Route::Hello);
}

#[test]
fn photos_path_routes_to_catalog() {
    assert_eq!(route("/photos"), Route::Photos);
}

#[test]
fn unknown_paths_are_not_found() {
    assert_eq!(route(""), Route::NotFound);
    assert_eq!(route("/"), Route::NotFound);
    assert_eq!(route("/photo"), Route::NotFound);
    assert_eq!(route("/photos/"), Route::NotFound);
    assert_eq!(route("/Hello"), Route::NotFound);
}

#[test]
fn status_is_404_only_for_not_found() {
    assert_eq!(status_of(Route::Hello), 200);
    assert_eq!(status_of(Route::Photos), 200);
    assert_eq!(status_of(Route::NotFound), 404);
}
