use copydog::config::{assemble_config, Config, FileType};
use copydog::watch::{route, CopyAction, EventKind, PlainEvent};

fn sample_config(with_wildcard: bool) -> Config {
    let mut rules = vec![
        (
            "png".to_string(),
            FileType { target: "/dest/textures".to_string(), ignore: None },
        ),
        (
            "fbx".to_string(),
            FileType {
                target: "/dest/models".to_string(),
                ignore: Some(vec!["/src/drafts".to_string()]),
            },
        ),
    ];
    if with_wildcard {
        rules.push((
            "*".to_string(),
            FileType { target: "/dest/other".to_string(), ignore: None },
        ));
    }
    assemble_config("/src".to_string(), rules)
}

fn created(path: &str) -> PlainEvent {
    PlainEvent { kind: EventKind::Create, paths: vec![Some(path.to_string())] }
}

#[test]
fn created_file_is_copied_to_its_category_target() {
    let config = sample_config(false);
    let action = route(&created("/src/foo.png"), &config);
    assert_eq!(
        action,
        Some(CopyAction {
            from: "/src/foo.png".to_string(),
            to: "/dest/textures/foo.png".to_string(),
        })
    );
}

#[test]
fn modified_file_is_copied_too() {
    let config = sample_config(false);
    let ev = PlainEvent { kind: EventKind::Modify, paths: vec![Some("/src/a.png".to_string())] };
    assert_eq!(
        route(&ev, &config),
        Some(CopyAction {
            from: "/src/a.png".to_string(),
            to: "/dest/textures/a.png".to_string(),
        })
    );
}

#[test]
fn unmatched_extension_without_wildcard_is_ignored() {
    let config = sample_config(false);
    assert_eq!(route(&created("/src/foo.xyz"), &config), None);
}

#[test]
fn unmatched_extension_falls_back_to_wildcard() {
    let config = sample_config(true);
    assert_eq!(
        route(&created("/src/foo.xyz"), &config),
        Some(CopyAction {
            from: "/src/foo.xyz".to_string(),
            to: "/dest/other/foo.xyz".to_string(),
        })
    );
}

#[test]
fn file_under_ignored_folder_is_suppressed() {
    let config = sample_config(true);
    assert_eq!(route(&created("/src/drafts/model.fbx"), &config), None);
    assert_eq!(route(&created("/src/drafts/deep/model.fbx"), &config), None);
}

#[test]
fn same_extension_outside_ignored_folder_is_copied() {
    let config = sample_config(true);
    assert_eq!(
        route(&created("/src/final/model.fbx"), &config),
        Some(CopyAction {
            from: "/src/final/model.fbx".to_string(),
            to: "/dest/models/model.fbx".to_string(),
        })
    );
}

#[test]
fn extension_lookup_is_case_sensitive() {
    let config = sample_config(false);
    assert_eq!(route(&created("/src/foo.PNG"), &config), None);
}

#[test]
fn other_event_kinds_are_ignored() {
    let config = sample_config(true);
    let ev = PlainEvent { kind: EventKind::Other, paths: vec![Some("/src/foo.png".to_string())] };
    assert_eq!(route(&ev, &config), None);
}

#[test]
fn event_without_paths_is_ignored() {
    let config = sample_config(true);
    let ev = PlainEvent { kind: EventKind::Create, paths: vec![] };
    assert_eq!(route(&ev, &config), None);
}

#[test]
fn non_textual_path_is_ignored() {
    let config = sample_config(true);
    let ev = PlainEvent { kind: EventKind::Create, paths: vec![None] };
    assert_eq!(route(&ev, &config), None);
}

#[test]
fn path_without_extension_is_ignored() {
    let config = sample_config(true);
    assert_eq!(route(&created("/src/README"), &config), None);
}

#[test]
fn only_the_first_path_is_considered() {
    let config = sample_config(false);
    let ev = PlainEvent {
        kind: EventKind::Create,
        paths: vec![
            Some("/src/first.png".to_string()),
            Some("/src/second.png".to_string()),
        ],
    };
    assert_eq!(
        route(&ev, &config),
        Some(CopyAction {
            from: "/src/first.png".to_string(),
            to: "/dest/textures/first.png".to_string(),
        })
    );
}
