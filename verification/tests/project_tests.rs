use heaven::project::{
    fill_template, is_valid_project_name, moon_new_args, project_path, validate_project_name,
    NameError,
};

#[test]
fn default_name_is_valid() {
    assert!(is_valid_project_name("heaven-app"));
    assert_eq!(validate_project_name("heaven-app", false), Ok(()));
}

#[test]
fn allowed_characters() {
    assert!(is_valid_project_name("my_app-2"));
    assert!(is_valid_project_name("名前"));
    assert!(is_valid_project_name(""));
    assert!(!is_valid_project_name("my app"));
    assert!(!is_valid_project_name("../app"));
    assert!(!is_valid_project_name("app!"));
}

#[test]
fn name_errors() {
    assert_eq!(validate_project_name("my app", false), Err(NameError::InvalidCharacters));
    assert_eq!(validate_project_name("taken", true), Err(NameError::AlreadyExists));
    // bad characters are reported before an existing path
    assert_eq!(validate_project_name("my app", true), Err(NameError::InvalidCharacters));
}

#[test]
fn name_error_messages() {
    assert_eq!(
        NameError::InvalidCharacters.message(),
        "Invalid project name, only letters, numbers, underscores and dashes are allowed."
    );
    assert_eq!(NameError::AlreadyExists.message(), "Project already exists.");
}

#[test]
fn moon_new_arguments() {
    assert_eq!(
        moon_new_args("demo", "alice"),
        vec!["new", "--name", "demo", "--path", "demo", "--user", "alice"]
    );
}

#[test]
fn project_paths() {
    assert_eq!(project_path("demo", "main/moon.pkg.json"), "demo/main/moon.pkg.json");
    assert_eq!(project_path("demo", "web/index.html"), "demo/web/index.html");
}

#[test]
fn template_filling() {
    let html = "<title>{{name}}</title><meta author=\"{{author}}\">{{name}}";
    assert_eq!(
        fill_template(html, "demo", "alice"),
        "<title>demo</title><meta author=\"alice\">demo"
    );
    assert_eq!(fill_template("plain", "demo", "alice"), "plain");
    // the author is put into the text after the name was
    assert_eq!(fill_template("{{name}}", "{{author}}", "alice"), "alice");
    let s = "{{name}} by {{author}}";
    assert_eq!(fill_template(s, "x", "y"), s.replace("{{name}}", "x").replace("{{author}}", "y"));
}
