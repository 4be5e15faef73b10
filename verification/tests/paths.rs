use dark_matter::exchange::{Asked, Reply, Request};
use dark_matter::paths::file_name;
use dark_matter::vault::DataManager;

fn path_of(asked: Asked<String>) -> String {
    match asked {
        Asked::Ready(_, path) => path,
        _ => panic!("the path is not ready"),
    }
}

#[test]
fn test_get_absolute_path() {
    let replies = vec![Reply::CurrentDir(Ok("/tmp/work".to_string()))];

    let relative_path = "test.txt";
    let absolute_path = path_of(DataManager::get_absolute_path(relative_path, &replies, 0));

    assert!(absolute_path.contains("test.txt"));
    assert!(std::path::Path::new(&absolute_path).is_absolute());
    assert_eq!(absolute_path, "/tmp/work/test.txt");
}

#[test]
fn get_absolute_path_asks_for_the_working_directory_of_a_relative_path_only() {
    match DataManager::get_absolute_path("test.txt", &Vec::new(), 0) {
        Asked::Ask(request) => assert_eq!(request, Request::CurrentDir),
        _ => panic!("the working directory is not asked for"),
    }
    assert_eq!(path_of(DataManager::get_absolute_path("/etc/hosts", &Vec::new(), 0)), "/etc/hosts");
}

#[test]
fn spellings_of_one_file_give_one_identifier() {
    let replies = vec![Reply::CurrentDir(Ok("/w".to_string()))];
    let spellings = [
        "a.txt",
        "./a.txt",
        "././a.txt",
        ".//a.txt",
        "x/../a.txt",
        "../w/a.txt",
        "/w/a.txt",
        "/w/./a.txt",
        "//w//a.txt",
        "/w/a.txt/",
        "/w/a.txt/.",
        "/../w/a.txt",
        "/w/b/c/../../a.txt",
    ];
    for spelling in spellings.iter() {
        assert_eq!(
            path_of(DataManager::get_absolute_path(spelling, &replies, 0)),
            "/w/a.txt",
            "{:?}",
            spelling
        );
    }
}

#[test]
fn file_name_is_final_component() {
    assert_eq!(file_name("/tmp/a.txt"), Some("a.txt".to_string()));
    assert_eq!(file_name("a/.."), None);
}
