use mocksmith::headerpath::header_path;

#[test]
fn test_header_path_under_include_paths() {
    let include_paths = vec![
        String::from("/usr/include"),
        String::from("/usr/local/include"),
    ];

    let result = header_path("/usr/include/header.h", &include_paths);
    assert_eq!(result, "header.h");

    let result = header_path("/usr/local/include/another/header.h", &include_paths);
    assert_eq!(result, "another/header.h");
}

#[test]
fn test_header_path_outside_include_paths() {
    let include_paths = vec![
        String::from("/usr/include"),
        String::from("/usr/local/include"),
    ];

    let result = header_path("/home/user/project/include/header.h", &include_paths);
    assert_eq!(result, "../../home/user/project/include/header.h");

    let result = header_path("/usr/local/header.h", &include_paths);
    assert_eq!(result, "../header.h");
}

#[test]
fn header_path_falls_back_to_header_itself_without_match() {
    let include_paths: Vec<String> = Vec::new();
    let result = header_path("include/header.h", &include_paths);
    assert_eq!(result, "include/header.h");
}

#[test]
fn header_path_uses_forward_slashes() {
    let include_paths: Vec<String> = Vec::new();
    let result = header_path("include\\sub\\header.h", &include_paths);
    assert_eq!(result, "include/sub/header.h");
}
