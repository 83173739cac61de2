use woodeye::hooks::{
    check_hooks_configured, configure_hooks, generate_woodeye_hooks, hooks_enabled,
    remove_woodeye_hooks, HookCategory, HookEntry, HooksSettings,
};

const DIR: &str = "/home/u/.woodeye-status";

fn entry_text(e: &HookEntry) -> &str {
    match e {
        HookEntry::Foreign(t) => t.as_str(),
        HookEntry::Command { command, .. } => command.as_str(),
    }
}

fn is_marked(e: &HookEntry) -> bool {
    entry_text(e).contains(".woodeye-status")
}

fn marked_count(c: &HookCategory) -> usize {
    c.entries.iter().filter(|e| is_marked(e)).count()
}

fn find<'a>(cats: &'a [HookCategory], name: &str) -> Option<&'a HookCategory> {
    cats.iter().find(|c| c.name == name)
}

fn foreign(text: &str) -> HookEntry {
    HookEntry::Foreign(text.to_string())
}

#[test]
fn the_generator_emits_the_seven_categories() {
    let cats = generate_woodeye_hooks(DIR);
    let names: Vec<&str> = cats.iter().map(|c| c.name.as_str()).collect();
    assert_eq!(
        names,
        vec![
            "PreToolUse",
            "PostToolUse",
            "PermissionRequest",
            "Notification",
            "Stop",
            "SessionStart",
            "SessionEnd"
        ]
    );
    for c in &cats {
        assert_eq!(c.entries.len(), 1);
        assert!(is_marked(&c.entries[0]));
        assert!(entry_text(&c.entries[0]).contains(DIR));
    }
    match &cats[0].entries[0] {
        HookEntry::Command { matcher, command } => {
            assert_eq!(matcher.as_deref(), Some("*"));
            assert!(command.contains("\"state\":\"working\""));
            assert!(command.contains("$CLAUDE_TOOL_NAME"));
        },
        _ => panic!("expected a command entry"),
    }
    match &cats[4].entries[0] {
        HookEntry::Command { matcher, command } => {
            assert_eq!(matcher.as_deref(), None);
            assert!(command.starts_with("rm -f "));
        },
        _ => panic!("expected a command entry"),
    }
}

#[test]
fn installing_twice_marks_each_category_exactly_once() {
    let settings = HooksSettings {
        categories: vec![
            HookCategory {
                name: "PreToolUse".to_string(),
                entries: vec![foreign("{\"hooks\":[{\"command\":\"echo mine\"}]}")],
            },
            HookCategory { name: "UserPromptSubmit".to_string(), entries: vec![foreign("x")] },
        ],
    };
    let once = configure_hooks(settings, DIR);
    let twice = configure_hooks(once, DIR);
    for name in [
        "PreToolUse",
        "PostToolUse",
        "PermissionRequest",
        "Notification",
        "Stop",
        "SessionStart",
        "SessionEnd",
    ] {
        let cat = find(&twice.categories, name).expect("category missing");
        assert_eq!(marked_count(cat), 1, "category {} not marked exactly once", name);
    }
    // the pre-existing foreign entry is still there, before the added one
    let pre = find(&twice.categories, "PreToolUse").unwrap();
    assert_eq!(pre.entries.len(), 2);
    assert!(!is_marked(&pre.entries[0]));
    // the unrelated category is untouched
    let other = find(&twice.categories, "UserPromptSubmit").unwrap();
    assert_eq!(other.entries.len(), 1);
    assert_eq!(entry_text(&other.entries[0]), "x");
}

#[test]
fn uninstall_after_install_restores_the_foreign_entries_byte_for_byte() {
    let original_texts = vec![
        "{\"matcher\":\"*\",\"hooks\":[{\"command\":\"echo one\"}]}".to_string(),
        "{\"hooks\":[{\"command\":\"echo two\"}]}".to_string(),
    ];
    let settings = HooksSettings {
        categories: vec![
            HookCategory {
                name: "PreToolUse".to_string(),
                entries: original_texts.iter().map(|t| foreign(t)).collect(),
            },
            HookCategory { name: "Stop".to_string(), entries: vec![] },
        ],
    };
    let installed = configure_hooks(settings, DIR);
    let removed = remove_woodeye_hooks(installed);
    let pre = find(&removed.categories, "PreToolUse").unwrap();
    let texts: Vec<&str> = pre.entries.iter().map(entry_text).collect();
    assert_eq!(texts, original_texts.iter().map(|t| t.as_str()).collect::<Vec<_>>());
    let stop = find(&removed.categories, "Stop").unwrap();
    assert!(stop.entries.is_empty());
    // categories the installation added are left empty, never removed
    let added = find(&removed.categories, "SessionStart").unwrap();
    assert!(added.entries.is_empty());
}

#[test]
fn install_skips_categories_that_already_carry_the_marker() {
    let settings = HooksSettings {
        categories: vec![HookCategory {
            name: "Stop".to_string(),
            entries: vec![foreign("rm -f /home/u/.woodeye-status/x.json")],
        }],
    };
    let installed = configure_hooks(settings, DIR);
    let stop = find(&installed.categories, "Stop").unwrap();
    assert_eq!(stop.entries.len(), 1);
}

#[test]
fn hooks_enabled_looks_for_session_start() {
    let empty = HooksSettings { categories: vec![] };
    assert!(!hooks_enabled(&empty));
    let with = configure_hooks(empty, DIR);
    assert!(hooks_enabled(&with));
}

#[test]
fn configured_means_the_settings_text_names_the_status_directory() {
    let config = check_hooks_configured(Some("{\"hooks\":{}}"), true);
    assert!(!config.configured);
    assert!(config.status_dir_exists);
    let config = check_hooks_configured(
        Some("{\"hooks\":{\"Stop\":[\"rm -f ~/.woodeye-status/x\"]}}"),
        false,
    );
    assert!(config.configured);
    assert!(!config.status_dir_exists);
    let config = check_hooks_configured(None, false);
    assert!(!config.configured);
}
