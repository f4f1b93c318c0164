//! The desktop tray: icon, tooltip and menu derived from the helper's status,
//! and the meaning of a menu click.
use vstd::prelude::*;

use crate::states;
use crate::text::{
    append, append_str, chars_of, equals_str, has_prefix, opt_view, owned, same, slice_of, starts_with,
    string_of, string_views,
};

verus! {

/// Prefix of the menu ids that connect a profile.
pub const PROFILE_ITEM: &'static str = "profile:";

/// The tray icon.
#[derive(Clone, Copy, PartialEq, Eq, Structural)]
pub enum TrayIcon {
    /// Connected in ghost mode.
    GhostMode,
    /// Connected.
    On,
    /// Not connected.
    Off,
}

/// An entry of a menu.
#[derive(Debug, PartialEq, Eq)]
pub struct MenuItem {
    pub id: String,
    pub label: String,
    /// A disabled entry is shown greyed out and cannot be clicked.
    pub enabled: bool,
}

/// An entry of the tray menu.
#[derive(Debug, PartialEq, Eq)]
pub enum MenuEntry {
    Item(MenuItem),
    /// A submenu with its label and entries.
    Submenu { label: String, items: Vec<MenuItem> },
}

/// What the tray shows.
pub struct TrayView {
    pub icon: TrayIcon,
    pub tooltip: String,
    /// The menu, from top to bottom.
    pub menu: Vec<MenuEntry>,
}

/// A menu entry, as texts.
pub struct MenuItemView {
    pub id: Seq<char>,
    pub label: Seq<char>,
    pub enabled: bool,
}

/// A tray menu entry, as texts.
pub enum MenuEntryView {
    Item(MenuItemView),
    Submenu(Seq<char>, Seq<MenuItemView>),
}

pub open spec fn item_view(i: MenuItem) -> MenuItemView {
    MenuItemView { id: i.id@, label: i.label@, enabled: i.enabled }
}

pub open spec fn item_views(items: Seq<MenuItem>) -> Seq<MenuItemView> {
    items.map_values(|i: MenuItem| item_view(i))
}

pub open spec fn entry_view(e: MenuEntry) -> MenuEntryView {
    match e {
        MenuEntry::Item(i) => MenuEntryView::Item(item_view(i)),
        MenuEntry::Submenu { label, items } => MenuEntryView::Submenu(label@, item_views(items@)),
    }
}

pub open spec fn menu_views(menu: Seq<MenuEntry>) -> Seq<MenuEntryView> {
    menu.map_values(|e: MenuEntry| entry_view(e))
}

pub open spec fn or_default(o: Option<Seq<char>>, d: Seq<char>) -> Seq<char> {
    match o {
        Some(s) => s,
        None => d,
    }
}

pub open spec fn tray_icon(state: Seq<char>, mode: Option<Seq<char>>) -> TrayIcon {
    if state == states::CONNECTED@ && mode == Some("ghost"@) {
        TrayIcon::GhostMode
    } else if state == states::CONNECTED@ {
        TrayIcon::On
    } else {
        TrayIcon::Off
    }
}

/// The tooltip claims a secured machine only while the tunnel is up.
pub open spec fn tray_tooltip(state: Seq<char>, profile: Option<Seq<char>>, mode: Option<Seq<char>>) -> Seq<char> {
    if state == states::LOCKED_NO_TUNNEL@ {
        "Orion — LOCKED (no tunnel)"@
    } else if state == states::CONNECTED@ && mode == Some("ghost"@) {
        "Orion — SECURED (ghost) via "@ + or_default(profile, seq![])
    } else if state == states::CONNECTED@ {
        "Orion — SECURED via "@ + or_default(profile, seq![])
    } else {
        "Orion — offline"@
    }
}

pub open spec fn tray_header(state: Seq<char>, profile: Option<Seq<char>>) -> Seq<char> {
    if state == states::CONNECTED@ {
        "secured — "@ + or_default(profile, "?"@)
    } else if state == states::LOCKED_NO_TUNNEL@ {
        "locked: kill switch active, no tunnel"@
    } else {
        "offline"@
    }
}

/// The profiles other than the current one, in order.
pub open spec fn other_profiles(profiles: Seq<Seq<char>>, current: Option<Seq<char>>) -> Seq<Seq<char>>
    decreases profiles.len(),
{
    if profiles.len() == 0 {
        seq![]
    } else {
        let rest = other_profiles(profiles.drop_last(), current);
        if Some(profiles.last()) == current {
            rest
        } else {
            rest.push(profiles.last())
        }
    }
}

/// A clickable menu entry.
pub open spec fn active_item(id: Seq<char>, label: Seq<char>) -> MenuEntryView {
    MenuEntryView::Item(MenuItemView { id, label, enabled: true })
}

/// The entry that connects `profile`, labelled with its name.
pub open spec fn profile_entry(profile: Seq<char>) -> MenuItemView {
    MenuItemView { id: PROFILE_ITEM@ + profile, label: profile, enabled: true }
}

pub open spec fn profile_entries(profiles: Seq<Seq<char>>) -> Seq<MenuItemView> {
    profiles.map_values(|p: Seq<char>| profile_entry(p))
}

/// The tray menu: a disabled header with the state; then "Disconnect" while
/// connected, or else a "Connect" submenu of the other profiles when there
/// are any; then the items that are always there.
pub open spec fn tray_menu(state: Seq<char>, profile: Option<Seq<char>>, profiles: Seq<Seq<char>>) -> Seq<
    MenuEntryView,
> {
    let header = MenuEntryView::Item(
        MenuItemView { id: "header"@, label: tray_header(state, profile), enabled: false },
    );
    let others = other_profiles(profiles, profile);
    let middle = if state == states::CONNECTED@ {
        seq![active_item("disconnect"@, "Disconnect"@)]
    } else if others.len() > 0 {
        seq![MenuEntryView::Submenu("Connect"@, profile_entries(others))]
    } else {
        seq![]
    };
    seq![header] + middle + seq![
        active_item("newid"@, "New identity (Ghost)"@),
        active_item("torbrowser"@, "Launch Tor Browser"@),
        active_item("show"@, "Show Orion"@),
        active_item("quit"@, "Quit Orion"@),
    ]
}

/// The tray for a status: state, current profile, known profiles and mode.
pub open spec fn is_tray_view(
    t: TrayView,
    state: Seq<char>,
    profile: Option<Seq<char>>,
    profiles: Seq<Seq<char>>,
    mode: Option<Seq<char>>,
) -> bool {
    &&& t.icon == tray_icon(state, mode)
    &&& t.tooltip@ == tray_tooltip(state, profile, mode)
    &&& menu_views(t.menu@) == tray_menu(state, profile, profiles)
}

fn opt_is(o: &Option<String>, s: &str) -> (b: bool)
    ensures
        b == (opt_view(*o) == Some(s@)),
{
    match o {
        Some(x) => equals_str(&chars_of(x.as_str()), s),
        None => false,
    }
}

fn text_or(o: &Option<String>, d: &str) -> (r: Vec<char>)
    ensures
        r@ == or_default(opt_view(*o), d@),
{
    match o {
        Some(x) => chars_of(x.as_str()),
        None => chars_of(d),
    }
}

fn active(id: &str, label: &str) -> (e: MenuEntry)
    ensures
        entry_view(e) == active_item(id@, label@),
{
    MenuEntry::Item(MenuItem { id: owned(id), label: owned(label), enabled: true })
}

/// The "Connect" entries: one per profile other than the current one.
fn connect_entries(profile: &Option<String>, profiles: &Vec<String>) -> (items: Vec<MenuItem>)
    ensures
        item_views(items@) == profile_entries(
            other_profiles(string_views(profiles@), opt_view(*profile)),
        ),
{
    let ghost pv = string_views(profiles@);
    let mut items: Vec<MenuItem> = Vec::new();
    let n = profiles.len();
    let mut i: usize = 0;
    while i < n
        invariant
            n == profiles.len(),
            pv == string_views(profiles@),
            i <= n,
            item_views(items@) == profile_entries(other_profiles(pv.take(i as int), opt_view(*profile))),
        decreases n - i,
    {
        let p = &profiles[i];
        let is_current = match profile {
            Some(c) => same(&chars_of(p.as_str()), &chars_of(c.as_str())),
            None => false,
        };
        assert(pv.take(i + 1).drop_last() =~= pv.take(i as int));
        assert(pv.take(i + 1).last() == p@);
        if !is_current {
            let ghost before = items@;
            let ghost rest = other_profiles(pv.take(i as int), opt_view(*profile));
            items.push(MenuItem { id: profile_item_id(p.as_str()), label: p.clone(), enabled: true });
            assert(item_views(items@) =~= item_views(before).push(profile_entry(p@)));
            assert(profile_entries(rest.push(p@)) =~= profile_entries(rest).push(profile_entry(p@)));
        }
        i += 1;
    }
    assert(pv.take(n as int) =~= pv);
    items
}

/// Derives the tray from the status the UI polled.
pub fn tray_view(
    state: &str,
    profile: &Option<String>,
    profiles: &Vec<String>,
    mode: &Option<String>,
) -> (t: TrayView)
    ensures
        is_tray_view(t, state@, opt_view(*profile), string_views(profiles@), opt_view(*mode)),
{
    let sv = chars_of(state);
    let connected = equals_str(&sv, states::CONNECTED);
    let locked = equals_str(&sv, states::LOCKED_NO_TUNNEL);
    let ghost_mode = opt_is(mode, "ghost");
    let icon = if connected && ghost_mode {
        TrayIcon::GhostMode
    } else if connected {
        TrayIcon::On
    } else {
        TrayIcon::Off
    };
    let tooltip = if locked {
        chars_of("Orion — LOCKED (no tunnel)")
    } else if connected && ghost_mode {
        let mut t = chars_of("Orion — SECURED (ghost) via ");
        append(&mut t, &text_or(profile, ""));
        t
    } else if connected {
        let mut t = chars_of("Orion — SECURED via ");
        append(&mut t, &text_or(profile, ""));
        t
    } else {
        chars_of("Orion — offline")
    };
    proof {
        reveal_strlit("");
        assert(""@ =~= Seq::<char>::empty());
    }
    let header = if connected {
        let mut h = chars_of("secured — ");
        append(&mut h, &text_or(profile, "?"));
        h
    } else if locked {
        chars_of("locked: kill switch active, no tunnel")
    } else {
        chars_of("offline")
    };
    let ghost first = MenuEntryView::Item(
        MenuItemView { id: "header"@, label: header@, enabled: false },
    );
    let mut menu: Vec<MenuEntry> = Vec::new();
    menu.push(MenuEntry::Item(MenuItem { id: owned("header"), label: string_of(&header), enabled: false }));
    let ghost middle: Seq<MenuEntryView>;
    if connected {
        menu.push(active("disconnect", "Disconnect"));
        proof {
            middle = seq![active_item("disconnect"@, "Disconnect"@)];
        }
    } else {
        let items = connect_entries(profile, profiles);
        if items.len() > 0 {
            let ghost iv = item_views(items@);
            menu.push(MenuEntry::Submenu { label: owned("Connect"), items });
            proof {
                middle = seq![MenuEntryView::Submenu("Connect"@, iv)];
            }
        } else {
            proof {
                middle = seq![];
            }
        }
    }
    let ghost head = menu_views(menu@);
    assert(head =~= seq![first] + middle);
    menu.push(active("newid", "New identity (Ghost)"));
    menu.push(active("torbrowser", "Launch Tor Browser"));
    menu.push(active("show", "Show Orion"));
    menu.push(active("quit", "Quit Orion"));
    proof {
        let tail = seq![
            active_item("newid"@, "New identity (Ghost)"@),
            active_item("torbrowser"@, "Launch Tor Browser"@),
            active_item("show"@, "Show Orion"@),
            active_item("quit"@, "Quit Orion"@),
        ];
        assert(menu_views(menu@) =~= head + tail);
        let st = state@;
        let pr = opt_view(*profile);
        let others = other_profiles(string_views(profiles@), pr);
        assert(first == MenuEntryView::Item(
            MenuItemView { id: "header"@, label: tray_header(st, pr), enabled: false },
        ));
        let spec_middle = if st == states::CONNECTED@ {
            seq![active_item("disconnect"@, "Disconnect"@)]
        } else if others.len() > 0 {
            seq![MenuEntryView::Submenu("Connect"@, profile_entries(others))]
        } else {
            seq![]
        };
        if !connected {
            assert(profile_entries(others).len() == others.len());
        }
        assert(middle == spec_middle);
    }
    TrayView { icon, tooltip: string_of(&tooltip), menu }
}

/// The tray offers every known profile but the current one, in their order:
/// a profile is left out exactly when it is the current one, so with no
/// current profile every profile is offered.
pub proof fn lemma_offered_profiles(profiles: Seq<Seq<char>>, current: Option<Seq<char>>)
    ensures
        other_profiles(profiles, current) == profiles.filter(|p: Seq<char>| Some(p) != current),
        other_profiles(profiles, None) == profiles,
    decreases profiles.len(),
{
    reveal(Seq::filter);
    if profiles.len() > 0 {
        lemma_offered_profiles(profiles.drop_last(), current);
        assert(profiles.drop_last().push(profiles.last()) =~= profiles);
    }
}

/// Honest states: neither the tooltip nor the icon claims a secured
/// machine unless the tunnel is connected.
pub proof fn lemma_secured_only_when_connected(
    state: Seq<char>,
    profile: Option<Seq<char>>,
    mode: Option<Seq<char>>,
)
    ensures
        has_prefix(tray_tooltip(state, profile, mode), "Orion — SECURED"@) ==> state
            == states::CONNECTED@,
        tray_icon(state, mode) != TrayIcon::Off ==> state == states::CONNECTED@,
{
    reveal_strlit("Orion — SECURED");
    reveal_strlit("Orion — LOCKED (no tunnel)");
    reveal_strlit("Orion — offline");
    let t = tray_tooltip(state, profile, mode);
    if has_prefix(t, "Orion — SECURED"@) && state != states::CONNECTED@ {
        assert(t[8] == "Orion — SECURED"@[8]);
    }
}

// ---------------------------------------------------------------- inputs

/// What the tray is derived from: the status the UI polled.
pub struct TrayInputs {
    pub state: String,
    pub profile: Option<String>,
    pub profiles: Vec<String>,
    pub mode: Option<String>,
}

/// The inputs of the tray, as texts.
pub struct TrayInputsView {
    pub state: Seq<char>,
    pub profile: Option<Seq<char>>,
    pub profiles: Seq<Seq<char>>,
    pub mode: Option<Seq<char>>,
}

impl View for TrayInputs {
    type V = TrayInputsView;

    open spec fn view(&self) -> TrayInputsView {
        TrayInputsView {
            state: self.state@,
            profile: opt_view(self.profile),
            profiles: string_views(self.profiles@),
            mode: opt_view(self.mode),
        }
    }
}

fn same_string(a: &String, b: &String) -> (r: bool)
    ensures
        r == (a@ == b@),
{
    same(&chars_of(a.as_str()), &chars_of(b.as_str()))
}

fn same_option(a: &Option<String>, b: &Option<String>) -> (r: bool)
    ensures
        r == (opt_view(*a) == opt_view(*b)),
{
    match (a, b) {
        (Some(x), Some(y)) => same_string(x, y),
        (None, None) => true,
        _ => false,
    }
}

fn same_list(a: &Vec<String>, b: &Vec<String>) -> (r: bool)
    ensures
        r == (string_views(a@) == string_views(b@)),
{
    if a.len() != b.len() {
        assert(string_views(a@).len() != string_views(b@).len());
        return false;
    }
    let n = a.len();
    let mut i: usize = 0;
    while i < n
        invariant
            n == a.len() == b.len(),
            i <= n,
            forall|k: int| 0 <= k < i ==> a@[k]@ == b@[k]@,
        decreases n - i,
    {
        if !same_string(&a[i], &b[i]) {
            assert(string_views(a@)[i as int] != string_views(b@)[i as int]);
            return false;
        }
        i += 1;
    }
    assert(string_views(a@) =~= string_views(b@));
    true
}

/// Whether the tray must be rebuilt for `next`: on the first poll, and
/// whenever the state, the profile, the profile list or the mode differs
/// from the last poll's.
pub fn tray_changed(last: &Option<TrayInputs>, next: &TrayInputs) -> (b: bool)
    ensures
        b == match last {
            None => true,
            Some(l) => l@ != next@,
        },
{
    match last {
        None => true,
        Some(l) => {
            let same_all = same_string(&l.state, &next.state) && same_option(&l.profile, &next.profile)
                && same_list(&l.profiles, &next.profiles) && same_option(&l.mode, &next.mode);
            !same_all
        },
    }
}

// ---------------------------------------------------------------- menu

/// `s` with every leading repetition of `p` removed
/// (`str::trim_start_matches(p)`).
pub open spec fn strip_repeated(s: Seq<char>, p: Seq<char>) -> Seq<char>
    decreases s.len(),
{
    if p.len() > 0 && has_prefix(s, p) {
        strip_repeated(s.skip(p.len() as int), p)
    } else {
        s
    }
}

/// What a tray menu click asks for.
pub enum MenuCommand {
    Show,
    Connect(String),
    Disconnect,
    TorBrowser,
    NewIdentity,
    Quit,
    Nothing,
}

/// The menu id of the item that connects `profile`.
pub fn profile_item_id(profile: &str) -> (id: String)
    ensures
        id@ == PROFILE_ITEM@ + profile@,
{
    let mut v = chars_of(PROFILE_ITEM);
    append_str(&mut v, profile);
    string_of(&v)
}

fn strip_prefixes(v: &Vec<char>, p: &str) -> (r: Vec<char>)
    ensures
        r@ == strip_repeated(v@, p@),
{
    let pv = chars_of(p);
    let n = v.len();
    if pv.len() == 0 {
        return slice_of(v, 0, n);
    }
    let mut i: usize = 0;
    assert(v@.skip(0) =~= v@);
    loop
        invariant
            n == v.len(),
            pv@ == p@,
            pv.len() > 0,
            i <= n,
            strip_repeated(v@, p@) == strip_repeated(v@.skip(i as int), p@),
        decreases n - i,
    {
        let rest = slice_of(v, i, n);
        assert(rest@ =~= v@.skip(i as int));
        if !starts_with(&rest, p) {
            return rest;
        }
        assert(v@.skip(i as int).skip(pv.len() as int) =~= v@.skip(i + pv.len()));
        i = i + pv.len();
    }
}

/// A menu command, as text.
pub enum MenuCommandView {
    Show,
    Connect(Seq<char>),
    Disconnect,
    TorBrowser,
    NewIdentity,
    Quit,
    Nothing,
}

pub open spec fn menu_command_view(c: MenuCommand) -> MenuCommandView {
    match c {
        MenuCommand::Show => MenuCommandView::Show,
        MenuCommand::Connect(p) => MenuCommandView::Connect(p@),
        MenuCommand::Disconnect => MenuCommandView::Disconnect,
        MenuCommand::TorBrowser => MenuCommandView::TorBrowser,
        MenuCommand::NewIdentity => MenuCommandView::NewIdentity,
        MenuCommand::Quit => MenuCommandView::Quit,
        MenuCommand::Nothing => MenuCommandView::Nothing,
    }
}

/// The meaning of a menu id, checked in this order: `show`, a profile item,
/// `disconnect`, `torbrowser`, `newid`, `quit`; anything else does nothing.
pub open spec fn menu_meaning(id: Seq<char>) -> MenuCommandView {
    if id == "show"@ {
        MenuCommandView::Show
    } else if has_prefix(id, PROFILE_ITEM@) {
        MenuCommandView::Connect(strip_repeated(id, PROFILE_ITEM@))
    } else if id == "disconnect"@ {
        MenuCommandView::Disconnect
    } else if id == "torbrowser"@ {
        MenuCommandView::TorBrowser
    } else if id == "newid"@ {
        MenuCommandView::NewIdentity
    } else if id == "quit"@ {
        MenuCommandView::Quit
    } else {
        MenuCommandView::Nothing
    }
}

/// The command of a menu click.
pub fn menu_command(id: &str) -> (c: MenuCommand)
    ensures
        menu_command_view(c) == menu_meaning(id@),
{
    let v = chars_of(id);
    if equals_str(&v, "show") {
        MenuCommand::Show
    } else if starts_with(&v, PROFILE_ITEM) {
        MenuCommand::Connect(string_of(&strip_prefixes(&v, PROFILE_ITEM)))
    } else if equals_str(&v, "disconnect") {
        MenuCommand::Disconnect
    } else if equals_str(&v, "torbrowser") {
        MenuCommand::TorBrowser
    } else if equals_str(&v, "newid") {
        MenuCommand::NewIdentity
    } else if equals_str(&v, "quit") {
        MenuCommand::Quit
    } else {
        MenuCommand::Nothing
    }
}

/// Clicking the item made for a profile connects that very profile, as
/// long as its name does not itself begin with the item prefix.
pub proof fn lemma_profile_item_round_trip(profile: Seq<char>)
    requires
        !has_prefix(profile, PROFILE_ITEM@),
    ensures
        has_prefix(PROFILE_ITEM@ + profile, PROFILE_ITEM@),
        strip_repeated(PROFILE_ITEM@ + profile, PROFILE_ITEM@) == profile,
{
    reveal_strlit("profile:");
    let id = PROFILE_ITEM@ + profile;
    let n = PROFILE_ITEM@.len();
    assert(id.take(n as int) =~= PROFILE_ITEM@);
    assert(id.skip(n as int) =~= profile);
    if profile.len() >= n {
        assert(strip_repeated(profile, PROFILE_ITEM@) == profile);
    }
}

} // verus!
