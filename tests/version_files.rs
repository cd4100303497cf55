use sr_core::error::ReleaseError;
use sr_core::version_files::{bump_version_file, file_name, is_supported_version_file};

#[test]
fn bump_cargo_toml_package_version() {
    let input = "[package]\nname = \"my-crate\"\nversion = \"0.1.0\"\nedition = \"2021\"\n\n[dependencies]\nserde = \"1\"\n";
    let contents = bump_version_file("x/Cargo.toml", input, "1.2.3").unwrap();
    assert!(contents.contains("version = \"1.2.3\""));
    assert!(contents.contains("name = \"my-crate\""));
    assert!(contents.contains("serde = \"1\""));
}

#[test]
fn bump_cargo_toml_changes_only_the_version_line() {
    let input = "[package]\nname = \"my-crate\"\nversion = \"0.1.0\"\nedition = \"2021\"\n\n[dependencies]\nserde = \"1\"\n";
    let contents = bump_version_file("Cargo.toml", input, "1.2.3").unwrap();
    let before: Vec<&str> = input.lines().collect();
    let after: Vec<&str> = contents.lines().collect();
    assert_eq!(before.len(), after.len());
    for (b, a) in before.iter().zip(after.iter()) {
        if b.starts_with("version") {
            assert_eq!(*a, "version = \"1.2.3\"");
        } else {
            assert_eq!(a, b);
        }
    }
}

#[test]
fn bump_cargo_toml_workspace_version() {
    let input = "[workspace]\nmembers = [\"crates/*\"]\n\n[workspace.package]\nversion = \"0.0.1\"\nedition = \"2021\"\n";
    let contents = bump_version_file("Cargo.toml", input, "2.0.0").unwrap();
    assert!(contents.contains("version = \"2.0.0\""));
    assert!(contents.contains("members = [\"crates/*\"]"));
}

#[test]
fn bump_cargo_toml_without_version_fails() {
    let err = bump_version_file("Cargo.toml", "[package]\nname = \"x\"\n", "1.0.0").unwrap_err();
    assert!(matches!(err, ReleaseError::VersionBump(_)));
}

#[test]
fn bump_package_json_version() {
    let input = "{\n  \"name\": \"my-pkg\",\n  \"version\": \"0.0.0\",\n  \"description\": \"test\"\n}";
    let contents = bump_version_file("package.json", input, "3.1.0").unwrap();
    let value: serde_json::Value = serde_json::from_str(&contents).unwrap();
    assert_eq!(value["version"], "3.1.0");
    assert_eq!(value["name"], "my-pkg");
    assert_eq!(value["description"], "test");
    assert!(contents.ends_with('\n'));
}

#[test]
fn bump_package_json_not_an_object_fails() {
    assert!(bump_version_file("package.json", "[1, 2]", "1.0.0").is_err());
}

#[test]
fn bump_pyproject_toml_project_version() {
    let input = "[project]\nname = \"my-project\"\nversion = \"0.1.0\"\ndescription = \"A test project\"\n";
    let contents = bump_version_file("pyproject.toml", input, "1.0.0").unwrap();
    assert!(contents.contains("version = \"1.0.0\""));
    assert!(contents.contains("name = \"my-project\""));
}

#[test]
fn bump_pyproject_toml_poetry_version() {
    let input = "[tool.poetry]\nname = \"my-poetry-project\"\nversion = \"0.2.0\"\ndescription = \"A poetry project\"\n";
    let contents = bump_version_file("pyproject.toml", input, "0.3.0").unwrap();
    assert!(contents.contains("version = \"0.3.0\""));
    assert!(contents.contains("name = \"my-poetry-project\""));
}

#[test]
fn bump_unknown_file_returns_error() {
    let err = bump_version_file("dir/unknown.txt", "version = 1", "1.0.0").unwrap_err();
    assert!(matches!(err, ReleaseError::VersionBump(_)));
    assert!(err.message().contains("unsupported"));
}

#[test]
fn bump_build_gradle_version() {
    let input = "plugins {\n    id 'java'\n}\n\ngroup = 'com.example'\nversion = '1.0.0'\n\ndependencies {\n    implementation 'org.slf4j:slf4j-api:2.0.0'\n}\n";
    let contents = bump_version_file("build.gradle", input, "2.0.0").unwrap();
    assert!(contents.contains("version = '2.0.0'"));
    assert!(contents.contains("group = 'com.example'"));
    assert!(contents.contains("slf4j-api:2.0.0"));
    assert_eq!(contents, input.replace("version = '1.0.0'", "version = '2.0.0'"));
}

#[test]
fn bump_build_gradle_kts_version() {
    let input = "plugins {\n    kotlin(\"jvm\") version \"1.9.0\"\n}\n\ngroup = \"com.example\"\nversion = \"1.0.0\"\n\ndependencies {\n    implementation(\"org.slf4j:slf4j-api:2.0.0\")\n}\n";
    let contents = bump_version_file("build.gradle.kts", input, "3.0.0").unwrap();
    assert!(contents.contains("version = \"3.0.0\""));
    assert!(contents.contains("group = \"com.example\""));
    assert!(contents.contains("kotlin(\"jvm\") version \"1.9.0\""));
}

#[test]
fn bump_gradle_without_assignment_fails() {
    assert!(bump_version_file("build.gradle", "group = 'x'\n", "1.0.0").is_err());
}

#[test]
fn bump_pom_xml_version() {
    let input = "<?xml version=\"1.0\" encoding=\"UTF-8\"?>\n<project>\n    <modelVersion>4.0.0</modelVersion>\n    <groupId>com.example</groupId>\n    <artifactId>my-app</artifactId>\n    <version>1.0.0</version>\n</project>\n";
    let contents = bump_version_file("pom.xml", input, "2.0.0").unwrap();
    assert!(contents.contains("<version>2.0.0</version>"));
    assert!(contents.contains("<groupId>com.example</groupId>"));
    assert_eq!(contents, input.replace("<version>1.0.0</version>", "<version>2.0.0</version>"));
}

#[test]
fn bump_pom_xml_with_parent_version() {
    let input = "<?xml version=\"1.0\" encoding=\"UTF-8\"?>\n<project>\n    <modelVersion>4.0.0</modelVersion>\n    <parent>\n        <groupId>com.example</groupId>\n        <artifactId>parent</artifactId>\n        <version>5.0.0</version>\n    </parent>\n    <artifactId>my-app</artifactId>\n    <version>1.0.0</version>\n</project>\n";
    let contents = bump_version_file("pom.xml", input, "2.0.0").unwrap();
    assert!(contents.contains("<version>5.0.0</version>"));
    assert!(contents.contains("<version>2.0.0</version>"));
    let version_count: Vec<&str> = contents.matches("<version>").collect();
    assert_eq!(version_count.len(), 2);
    assert_eq!(contents, input.replace("<version>1.0.0</version>", "<version>2.0.0</version>"));
}

#[test]
fn bump_pom_xml_without_version_fails() {
    assert!(bump_version_file("pom.xml", "<project></project>", "1.0.0").is_err());
}

#[test]
fn bump_go_version_var() {
    let input = "package main\n\nvar Version = \"1.0.0\"\n\nfunc main() {}\n";
    let contents = bump_version_file("version.go", input, "2.0.0").unwrap();
    assert!(contents.contains("var Version = \"2.0.0\""));
}

#[test]
fn bump_go_version_const() {
    let input = "package main\n\nconst Version string = \"0.5.0\"\n\nfunc main() {}\n";
    let contents = bump_version_file("cmd/version.go", input, "0.6.0").unwrap();
    assert!(contents.contains("const Version string = \"0.6.0\""));
}

#[test]
fn bump_go_without_variable_fails() {
    assert!(bump_version_file("main.go", "package main\n", "1.0.0").is_err());
}

#[test]
fn file_names_and_support() {
    assert_eq!(file_name("a/b/pom.xml"), "pom.xml");
    assert_eq!(file_name("pom.xml"), "pom.xml");
    assert!(is_supported_version_file("x/build.gradle.kts"));
    assert!(!is_supported_version_file("README.md"));
}
