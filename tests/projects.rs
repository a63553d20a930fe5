use java_diagram::project::{add_new_project, is_ignored_entry, is_java_file, open_project, read_structure_from_path};
use java_diagram::types::{FileNode, Project};

fn project(id: u16, path: &str) -> Project {
    Project { id, name: format!("p{}", id), path: path.to_string(), last_opened: 1 }
}

fn leaf(name: &str) -> Option<FileNode> {
    read_structure_from_path(format!("/r/{}", name), name.to_string(), false, Vec::new())
}

#[test]
fn java_files_are_kept_and_others_dropped() {
    assert!(leaf("Main.java").is_some());
    assert_eq!(leaf("Main.java").unwrap().kind, "file");
    assert!(leaf("README.md").is_none());
    assert!(leaf(".java").is_none());
    assert!(is_java_file(&"a.b.java".to_string()));
    assert!(!is_java_file(&"Main.jav".to_string()));
}

#[test]
fn folder_keeps_only_built_unignored_children() {
    let target = read_structure_from_path("/r/target".to_string(), "target".to_string(), true, vec![leaf("X.java")]);
    let kids = vec![leaf("A.java"), leaf("notes.txt"), target, leaf("B.java")];
    let node = read_structure_from_path("/r".to_string(), "r".to_string(), true, kids).unwrap();
    assert_eq!(node.kind, "folder");
    let names: Vec<String> = node.children.iter().map(|c| c.name.clone()).collect();
    assert_eq!(names, vec!["A.java", "B.java"]);
}

#[test]
fn empty_folder_is_dropped() {
    assert!(read_structure_from_path("/r".to_string(), "r".to_string(), true, vec![leaf("x.txt")]).is_none());
}

#[test]
fn ignored_names() {
    for n in ["node_modules", "target", "build", "dist", ".git"] {
        assert!(is_ignored_entry(&n.to_string()));
    }
    assert!(!is_ignored_entry(&"src".to_string()));
}

#[test]
fn duplicate_path_is_not_added() {
    let mut config = vec![project(1, "/a")];
    assert!(!add_new_project(&mut config, project(2, "/a")));
    assert_eq!(config.len(), 1);
    assert!(add_new_project(&mut config, project(2, "/b")));
    assert_eq!(config.len(), 2);
    assert_eq!(config[1].path, "/b");
}

#[test]
fn opening_stamps_the_project() {
    let mut config = vec![project(1, "/a"), project(2, "/b")];
    assert_eq!(open_project(&mut config, 2, 99), Some("/b".to_string()));
    assert_eq!(config[1].last_opened, 99);
    assert_eq!(config[0].last_opened, 1);
    assert_eq!(open_project(&mut config, 7, 5), None);
}
