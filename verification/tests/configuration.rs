use http_core::config::Config;

fn args(list: &[&str]) -> Vec<String> {
    list.iter().map(|arg| arg.to_string()).collect()
}

#[test]
fn directory_is_read_from_its_flag() {
    let config = Config::from_args(&args(&["--directory", "/tmp/files/"])).ok().unwrap();
    assert_eq!(config.file_directory, "/tmp/files/");
}

#[test]
fn other_arguments_are_passed_over() {
    let config = Config::from_args(&args(&["-v", "extra", "--directory", "/srv", "more"])).ok().unwrap();
    assert_eq!(config.file_directory, "/srv");
}

#[test]
fn last_directory_wins() {
    let config = Config::from_args(&args(&["--directory", "/a", "--directory", "/b"])).ok().unwrap();
    assert_eq!(config.file_directory, "/b");
}

#[test]
fn flag_takes_whatever_follows_as_its_value() {
    let config = Config::from_args(&args(&["--directory", "--directory"])).ok().unwrap();
    assert_eq!(config.file_directory, "--directory");
}

#[test]
fn flag_without_value_is_refused() {
    assert_eq!(
        Config::from_args(&args(&["--directory"])).err(),
        Some("No value specified for parameter --directory")
    );
    assert_eq!(
        Config::from_args(&args(&["--directory", "/a", "--directory"])).err(),
        Some("No value specified for parameter --directory")
    );
}

#[test]
fn missing_directory_is_refused() {
    assert_eq!(Config::from_args(&args(&[])).err(), Some("No file directory specified"));
    assert_eq!(Config::from_args(&args(&["-x", "y"])).err(), Some("No file directory specified"));
}

#[test]
fn file_path_appends_the_name_to_the_directory() {
    let config = Config { file_directory: "/tmp/files/".to_string() };
    assert_eq!(config.file_path("a.txt"), "/tmp/files/a.txt");
    let config = Config { file_directory: "/tmp/files".to_string() };
    assert_eq!(config.file_path("a.txt"), "/tmp/filesa.txt");
}

#[test]
fn passed_over_arguments_are_noticed() {
    assert_eq!(
        Config::notices(&args(&["-v", "extra", "--directory", "/srv", "--more", ""])),
        vec![
            "Unkown argument -v",
            "Unkown positional argument extra",
            "Unkown argument --more",
            "Unkown positional argument ",
        ]
    );
    assert_eq!(Config::notices(&args(&["--directory", "-x"])), Vec::<String>::new());
    assert_eq!(Config::notices(&args(&[])), Vec::<String>::new());
    assert_eq!(Config::notices(&args(&["a", "--directory"])), vec!["Unkown positional argument a"]);
}
