use kiri::layout::{
    autosave_timestamp, check_new_project, check_save_as, kiri_extension, project_directories,
    rekey_copy, starts_with_path,
};
use kiri::project::{ProjectError, ProjectManifest};

fn message(r: Result<(), ProjectError>) -> String {
    match r {
        Err(ProjectError::Validation(m)) => m,
        other => panic!("unexpected {other:?}"),
    }
}

#[test]
fn create_project_requires_a_kiri_directory_and_a_title() {
    assert_eq!(
        message(check_new_project("/tmp/plain-folder", "Demo", false)),
        "project directory must end in .kiri"
    );
    assert!(check_new_project("/tmp/demo.kiri", "Demo", false).is_ok());
    assert!(check_new_project("/tmp/demo.KIRI", "Demo", false).is_ok());
    assert_eq!(
        message(check_new_project("/tmp/demo.kiri", "   ", false)),
        "project title cannot be empty"
    );
    assert_eq!(
        message(check_new_project("/tmp/demo.kiri", "Demo", true)),
        "project already exists at destination"
    );
    assert_eq!(project_directories().len(), 9);
}

#[test]
fn save_as_guards_the_destination() {
    assert_eq!(
        message(check_save_as("/p/source.kiri", "/p/source.kiri", "Copy", true)),
        "Save As destination already exists"
    );
    assert_eq!(
        message(check_save_as("/p/source.kiri", "/p/copy", "Copy", false)),
        "Save As destination must end in .kiri"
    );
    assert_eq!(
        message(check_save_as("/p/source.kiri", "/p/source.kiri/inner.kiri", "Copy", false)),
        "Save As destination cannot be inside the source project"
    );
    assert!(check_save_as("/p/source.kiri", "/p/source.kiri2.kiri", "Copy", false).is_ok());
    assert!(check_save_as("/p/source.kiri", "/p/copy.kiri", "Copy", false).is_ok());
}

#[test]
fn path_prefixes_are_compared_by_component() {
    assert!(starts_with_path("/a/b/c", "/a/b"));
    assert!(starts_with_path("/a/b/", "/a//b"));
    assert!(!starts_with_path("/a/bc", "/a/b"));
    assert!(!starts_with_path("a/b", "/a"));
    assert!(kiri_extension("demo.kiri/"));
    assert!(!kiri_extension(".kiri"));
    assert!(!kiri_extension("demo.kir"));
}

#[test]
fn a_saved_copy_gets_a_new_identity() {
    let mut m = ProjectManifest::empty("Source");
    let old_id = m.id;
    rekey_copy(&mut m, "Copy", 42);
    assert_ne!(m.id, old_id);
    assert_eq!(m.title, "Copy");
    assert_eq!(m.updated_at, 42);
    m.validate().unwrap();
    assert_eq!(autosave_timestamp(1, 2, true), 2);
    assert_eq!(autosave_timestamp(1, 2, false), 1);
}
