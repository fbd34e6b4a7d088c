use evo_toolkit::apps::{
    add_app, can_move_down, can_move_up, chrome_profile_dir, default_apps_yml, default_mode,
    delete_app, edit_app, emoji_for, icon_for, launch_plan, menu_entries, mode_index, move_down,
    move_up, new_app, render_apps_yml, safe_name, yaml_value, App, AppField, LaunchPlan,
    MenuEntry,
};

fn app(name: &str, mode: &str) -> App {
    App {
        name: name.to_string(),
        url: format!("http://localhost/{name}"),
        mode: mode.to_string(),
        comment: None,
        icon: None,
    }
}

fn names(apps: &[App]) -> Vec<&str> {
    apps.iter().map(|a| a.name.as_str()).collect()
}

#[test]
fn icons() {
    assert_eq!(emoji_for("flowinvoice"), "\u{1F4B0}");
    assert_eq!(emoji_for("audit-designer-dev"), "\u{2699}\u{FE0F}");
    assert_eq!(emoji_for("something-else"), "\u{1F680}");
    let mut a = app("krypto", "app");
    assert_eq!(icon_for(&a), "\u{1F510}");
    a.icon = Some("  ".to_string());
    assert_eq!(icon_for(&a), "\u{1F510}");
    a.icon = Some("\u{2B50}".to_string());
    assert_eq!(icon_for(&a), "\u{2B50}");
    assert_eq!(default_mode(), "tab");
}

#[test]
fn yaml_scalars() {
    assert_eq!(yaml_value("plain"), "plain");
    assert_eq!(yaml_value(""), "\"\"");
    assert_eq!(yaml_value(" lead"), "\" lead\"");
    assert_eq!(yaml_value("http://x:8080"), "\"http://x:8080\"");
    assert_eq!(yaml_value("say \"hi\""), "\"say \\\"hi\\\"\"");
    assert_eq!(yaml_value("a\\b"), "\"a\\\\b\"");
    assert_eq!(yaml_value("#tag"), "\"#tag\"");
}

#[test]
fn apps_yml_text() {
    let mut a = app("hpp", "app");
    a.comment = Some("Controlling".to_string());
    a.icon = Some(" ".to_string());
    let mut b = app("jupyter", "tab");
    b.comment = Some(String::new());
    b.icon = Some("\u{1F4D3}".to_string());
    let text = render_apps_yml(&vec![a, b]);
    let expected = [
        "# Desktop-App-Liste fuer den Generator regen.py\n",
        "#\n",
        "# mode:\n",
        "#   app  -> Chrome --app=URL (eigenes Fenster, eigenes Profil)\n",
        "#   tab  -> xdg-open URL (Standard-Browser-Tab)\n",
        "#\n",
        "# icon: optional, Emoji-String (Fallback: hardcoded Mapping)\n",
        "# Diese Datei wird vom FlowAudit-Tray-Editor geschrieben.\n",
        "\n",
        "apps:\n",
        "  - { name: hpp, url: \"http://localhost/hpp\", mode: app, comment: Controlling }\n",
        "  - { name: jupyter, url: \"http://localhost/jupyter\", mode: tab, icon: \u{1F4D3} }\n",
    ]
    .concat();
    assert_eq!(text, expected);
    assert!(render_apps_yml(&vec![]).ends_with("\napps:\n"));
}

#[test]
fn launching() {
    assert_eq!(safe_name("Flow App/1.0-beta"), "Flow_App_1.0-beta");
    assert_eq!(chrome_profile_dir("/home/u", "My App"), "/home/u/.config/chrome-apps/My_App");
    let a = app("My App", "app");
    match launch_plan(&a, true, "/p") {
        LaunchPlan::Browser { args } => assert_eq!(
            args,
            vec![
                "--app=http://localhost/My App".to_string(),
                "--user-data-dir=/p".to_string(),
                "--class=My_App".to_string(),
            ]
        ),
        _ => panic!("expected a browser window"),
    }
    assert!(matches!(launch_plan(&a, false, "/p"), LaunchPlan::Open { url } if url == "http://localhost/My App"));
    let t = app("tool", "tab");
    assert!(matches!(launch_plan(&t, true, "/p"), LaunchPlan::Open { .. }));
    assert_eq!(
        default_apps_yml(Some("/home/u")),
        "/home/u/Projekte/flowlib/scripts/desktop-apps/apps.yml"
    );
    assert_eq!(default_apps_yml(None), "/tmp/Projekte/flowlib/scripts/desktop-apps/apps.yml");
}

#[test]
fn tray_menu_layout() {
    let mut a = app("hpp", "app");
    a.comment = Some("Controlling".to_string());
    let apps = vec![a, app("FlowAudit_Apps", "app"), app("jupyter", "tab"), app("other", "x")];
    let menu = menu_entries(&apps);
    assert_eq!(menu.len(), 10);
    assert!(matches!(&menu[0], MenuEntry::Header(h) if h == "\u{2014} Apps \u{2014}"));
    match &menu[1] {
        MenuEntry::Launch { label, tooltip, index } => {
            assert_eq!(label, "\u{1F4C8}  hpp");
            assert_eq!(tooltip, "Controlling");
            assert_eq!(*index, 0);
        }
        _ => panic!("expected hpp"),
    }
    assert!(matches!(&menu[2], MenuEntry::Separator));
    assert!(matches!(&menu[3], MenuEntry::Header(h) if h == "\u{2014} Browser-Tools \u{2014}"));
    match &menu[4] {
        MenuEntry::Launch { label, tooltip, index } => {
            assert_eq!(label, "\u{1F4D3}  jupyter");
            assert_eq!(tooltip, "http://localhost/jupyter");
            assert_eq!(*index, 2);
        }
        _ => panic!("expected jupyter"),
    }
    assert!(matches!(&menu[5], MenuEntry::Separator));
    assert!(matches!(&menu[6], MenuEntry::Edit(_)));
    assert!(matches!(&menu[7], MenuEntry::OpenWeb(l) if l == "\u{1F310}  Launcher im Browser oeffnen"));
    assert!(matches!(&menu[8], MenuEntry::Separator));
    assert!(matches!(&menu[9], MenuEntry::Quit(l) if l == "Beenden"));
    let only_tools = menu_entries(&vec![app("jupyter", "tab")]);
    assert_eq!(only_tools.len(), 8);
    assert!(matches!(&only_tools[0], MenuEntry::Separator));
    assert_eq!(menu_entries(&vec![]).len(), 5);
}

#[test]
fn editor_operations() {
    let mut apps = vec![app("a", "app"), app("b", "tab"), app("c", "app")];
    move_up(&mut apps, 2);
    assert_eq!(names(&apps), vec!["a", "c", "b"]);
    move_down(&mut apps, 1);
    assert_eq!(names(&apps), vec!["a", "b", "c"]);
    move_up(&mut apps, 0);
    move_down(&mut apps, 2);
    assert_eq!(names(&apps), vec!["a", "b", "c"]);
    delete_app(&mut apps, 1);
    assert_eq!(names(&apps), vec!["a", "c"]);
    delete_app(&mut apps, 5);
    assert_eq!(names(&apps), vec!["a", "c"]);
    add_app(&mut apps);
    let n = new_app();
    assert_eq!(apps[2].name, n.name);
    assert_eq!(apps[2].url, "http://localhost:8080");
    assert_eq!(apps[2].mode, "app");
    assert_eq!(apps[2].comment, Some(String::new()));
    edit_app(&mut apps, 0, AppField::Icon, "  ");
    assert_eq!(apps[0].icon, None);
    edit_app(&mut apps, 0, AppField::Icon, "\u{2B50}");
    assert_eq!(apps[0].icon, Some("\u{2B50}".to_string()));
    edit_app(&mut apps, 0, AppField::Comment, "");
    assert_eq!(apps[0].comment, None);
    edit_app(&mut apps, 0, AppField::Comment, " x");
    assert_eq!(apps[0].comment, Some(" x".to_string()));
    edit_app(&mut apps, 1, AppField::Name, "renamed");
    edit_app(&mut apps, 1, AppField::Url, "http://h");
    edit_app(&mut apps, 1, AppField::Mode, "tab");
    assert_eq!(apps[1].name, "renamed");
    assert_eq!(apps[1].url, "http://h");
    assert_eq!(apps[1].mode, "tab");
    edit_app(&mut apps, 9, AppField::Name, "nothing");
    assert_eq!(apps.len(), 3);
    assert_eq!(mode_index("app"), 0);
    assert_eq!(mode_index("tab"), 1);
    assert_eq!(mode_index("other"), 0);
    assert!(!can_move_up(0));
    assert!(can_move_up(1));
    assert!(can_move_down(1, 3));
    assert!(!can_move_down(2, 3));
}

#[test]
fn deleting_the_added_entry_restores_the_list() {
    let mut apps = vec![app("a", "app"), app("b", "tab")];
    add_app(&mut apps);
    assert_eq!(names(&apps), vec!["a", "b", "neue_app"]);
    let last = apps.len() - 1;
    delete_app(&mut apps, last);
    assert_eq!(names(&apps), vec!["a", "b"]);
    assert_eq!(apps[1].url, "http://localhost/b");
}
