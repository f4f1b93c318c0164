use orion_client::helper::{bad_request, dispatch, wants_reply, Handler};
use orion_client::protocol::{Request, Response};
use orion_client::tray::{
    menu_command, profile_item_id, tray_changed, tray_view, MenuCommand, MenuEntry, MenuItem, TrayIcon, TrayInputs,
};

fn item(id: &str, label: &str) -> MenuEntry {
    MenuEntry::Item(MenuItem { id: id.into(), label: label.into(), enabled: true })
}

fn header(label: &str) -> MenuEntry {
    MenuEntry::Item(MenuItem { id: "header".into(), label: label.into(), enabled: false })
}

fn fixed_items() -> Vec<MenuEntry> {
    vec![
        item("newid", "New identity (Ghost)"),
        item("torbrowser", "Launch Tor Browser"),
        item("show", "Show Orion"),
        item("quit", "Quit Orion"),
    ]
}

fn strings(v: &[&str]) -> Vec<String> {
    v.iter().map(|s| s.to_string()).collect()
}

#[test]
fn tray_when_connected_in_ghost_mode() {
    let t = tray_view("connected", &Some("laptop".into()), &strings(&["laptop", "desk"]), &Some("ghost".into()));
    assert!(t.icon == TrayIcon::GhostMode);
    assert_eq!(t.tooltip, "Orion — SECURED (ghost) via laptop");
    let mut menu = vec![header("secured — laptop"), item("disconnect", "Disconnect")];
    menu.extend(fixed_items());
    assert_eq!(t.menu, menu);
}

#[test]
fn tray_when_locked_or_offline() {
    let t = tray_view("locked_no_tunnel", &Some("laptop".into()), &strings(&["laptop", "desk"]), &None);
    assert!(t.icon == TrayIcon::Off);
    assert_eq!(t.tooltip, "Orion — LOCKED (no tunnel)");
    let mut menu = vec![
        header("locked: kill switch active, no tunnel"),
        MenuEntry::Submenu {
            label: "Connect".into(),
            items: vec![MenuItem { id: "profile:desk".into(), label: "desk".into(), enabled: true }],
        },
    ];
    menu.extend(fixed_items());
    assert_eq!(t.menu, menu);
    let off = tray_view("disconnected", &None, &vec![], &Some("fast".into()));
    assert_eq!(off.tooltip, "Orion — offline");
    let mut menu = vec![header("offline")];
    menu.extend(fixed_items());
    assert_eq!(off.menu, menu);
    let plain = tray_view("connected", &None, &vec![], &None);
    assert!(plain.icon == TrayIcon::On);
    assert_eq!(plain.tooltip, "Orion — SECURED via ");
    assert_eq!(plain.menu[0], header("secured — ?"));
}

#[test]
fn ghost_mode_offline_is_not_secured() {
    let t = tray_view("disconnected", &None, &vec![], &Some("ghost".into()));
    assert!(t.icon == TrayIcon::Off);
    assert_eq!(t.tooltip, "Orion — offline");
    assert_eq!(t.menu[0], header("offline"));
    let locked = tray_view("locked_no_tunnel", &None, &vec![], &Some("ghost".into()));
    assert_eq!(locked.tooltip, "Orion — LOCKED (no tunnel)");
}

#[test]
fn offline_menu_offers_every_other_profile_in_order() {
    let t = tray_view("disconnected", &Some("work".into()), &strings(&["home", "work", "cafe"]), &None);
    assert_eq!(
        t.menu[1],
        MenuEntry::Submenu {
            label: "Connect".into(),
            items: vec![
                MenuItem { id: "profile:home".into(), label: "home".into(), enabled: true },
                MenuItem { id: "profile:cafe".into(), label: "cafe".into(), enabled: true },
            ],
        }
    );
    assert_eq!(t.menu.len(), 6);
}

#[test]
fn tray_is_rebuilt_only_on_change() {
    let inputs = |state: &str, profiles: &[&str]| TrayInputs {
        state: state.into(),
        profile: Some("home".into()),
        profiles: strings(profiles),
        mode: Some("fast".into()),
    };
    let last = inputs("connected", &["home", "work"]);
    assert!(tray_changed(&None, &last));
    assert!(!tray_changed(&Some(inputs("connected", &["home", "work"])), &last));
    assert!(tray_changed(&Some(inputs("disconnected", &["home", "work"])), &last));
    assert!(tray_changed(&Some(inputs("connected", &["home"])), &last));
    let mut ghost = inputs("connected", &["home", "work"]);
    ghost.mode = Some("ghost".into());
    assert!(tray_changed(&Some(ghost), &last));
    let mut other = inputs("connected", &["home", "work"]);
    other.profile = None;
    assert!(tray_changed(&Some(other), &last));
}

#[test]
fn menu_ids() {
    assert_eq!(profile_item_id("laptop"), "profile:laptop");
    assert!(matches!(menu_command("profile:laptop"), MenuCommand::Connect(ref p) if p == "laptop"));
    assert!(matches!(menu_command("profile:profile:x"), MenuCommand::Connect(ref p) if p == "x"));
    assert!(matches!(menu_command("show"), MenuCommand::Show));
    assert!(matches!(menu_command("disconnect"), MenuCommand::Disconnect));
    assert!(matches!(menu_command("torbrowser"), MenuCommand::TorBrowser));
    assert!(matches!(menu_command("newid"), MenuCommand::NewIdentity));
    assert!(matches!(menu_command("quit"), MenuCommand::Quit));
    assert!(matches!(menu_command("header"), MenuCommand::Nothing));
}

#[test]
fn helper_line_handling() {
    assert!(!wants_reply("   \t"));
    assert!(wants_reply("{\"type\":\"status\"}"));
    match bad_request("expected value at line 1 column 1") {
        Response::Error { message } => assert_eq!(message, "bad request: expected value at line 1 column 1"),
        _ => panic!("expected an error"),
    }
    assert!(matches!(dispatch(&Request::Connect { profile: "a".into() }), Handler::Connect { ref profile } if profile == "a"));
    assert!(matches!(dispatch(&Request::Status), Handler::Status));
    assert!(matches!(dispatch(&Request::LaunchTorBrowser), Handler::Refuse(Response::Error { .. })));
}

#[test]
fn menu_for_home_and_work() {
    let profiles = strings(&["home", "work"]);
    let profile = Some("work".to_string());
    for mode in [Some("ghost".to_string()), Some("fast".to_string()), None] {
        let on = tray_view("connected", &profile, &profiles, &mode);
        let mut menu = vec![header("secured — work"), item("disconnect", "Disconnect")];
        menu.extend(fixed_items());
        assert_eq!(on.menu, menu);
        let icon = if mode.as_deref() == Some("ghost") { TrayIcon::GhostMode } else { TrayIcon::On };
        assert!(on.icon == icon);
        let off = tray_view("disconnected", &profile, &profiles, &mode);
        let mut menu = vec![
            header("offline"),
            MenuEntry::Submenu {
                label: "Connect".into(),
                items: vec![MenuItem { id: "profile:home".into(), label: "home".into(), enabled: true }],
            },
        ];
        menu.extend(fixed_items());
        assert_eq!(off.menu, menu);
        assert!(off.icon == TrayIcon::Off);
    }
}
