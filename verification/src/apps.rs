//! Web-app launcher: the app list, its `apps.yml` text, the tray menu built
//! from it, how an app is launched, and the editor's list operations.
use vstd::prelude::*;
use crate::pcie::{join_path, path_join};
use crate::text::{
    alphanumeric, opt_view, chars_of, is_alphanumeric, join, join_strings, str_eq, string_of, string_views,
    trim, trim_str,
};

verus! {

/// One entry of `apps.yml`.
#[derive(Clone)]
pub struct App {
    pub name: String,
    pub url: String,
    /// `app` (own browser window) or `tab` (default browser).
    pub mode: String,
    pub comment: Option<String>,
    pub icon: Option<String>,
}

pub struct AppView {
    pub name: Seq<char>,
    pub url: Seq<char>,
    pub mode: Seq<char>,
    pub comment: Option<Seq<char>>,
    pub icon: Option<Seq<char>>,
}

impl View for App {
    type V = AppView;

    open spec fn view(&self) -> AppView {
        AppView {
            name: self.name@,
            url: self.url@,
            mode: self.mode@,
            comment: opt_view(self.comment),
            icon: opt_view(self.icon),
        }
    }
}

pub open spec fn app_views(v: Seq<App>) -> Seq<AppView> {
    v.map_values(|a: App| a@)
}

/// The mode of an entry that does not name one.
pub fn default_mode() -> (r: String)
    ensures
        r@ == "tab"@,
{
    String::from_str("tab")
}

/// The icon of the known apps; a rocket for any other.
pub open spec fn emoji_of(name: Seq<char>) -> Seq<char> {
    if name == "audit_designer"@ {
        "\u{1F4CA}"@
    } else if name == "flowinvoice"@ {
        "\u{1F4B0}"@
    } else if name == "hpp"@ {
        "\u{1F4C8}"@
    } else if name == "qaaudit"@ {
        "\u{2705}"@
    } else if name == "love-ai"@ {
        "\u{1F495}"@
    } else if name == "krypto"@ {
        "\u{1F510}"@
    } else if name == "flowsearch"@ {
        "\u{1F50D}"@
    } else if name == "auditworkshop"@ {
        "\u{1F393}"@
    } else if name == "portainer"@ {
        "\u{1F433}"@
    } else if name == "jupyter"@ {
        "\u{1F4D3}"@
    } else if name == "flower"@ {
        "\u{1F33A}"@
    } else if name == "flowinvoice-stats"@ {
        "\u{1F4C9}"@
    } else if name == "audit-designer-dev"@ {
        "\u{2699}\u{FE0F}"@
    } else if name == "riskanalysis"@ {
        "\u{26A0}\u{FE0F}"@
    } else {
        "\u{1F680}"@
    }
}

pub fn emoji_for(name: &str) -> (r: &'static str)
    ensures
        r@ == emoji_of(name@),
{
    if str_eq(name, "audit_designer") {
        "\u{1F4CA}"
    } else if str_eq(name, "flowinvoice") {
        "\u{1F4B0}"
    } else if str_eq(name, "hpp") {
        "\u{1F4C8}"
    } else if str_eq(name, "qaaudit") {
        "\u{2705}"
    } else if str_eq(name, "love-ai") {
        "\u{1F495}"
    } else if str_eq(name, "krypto") {
        "\u{1F510}"
    } else if str_eq(name, "flowsearch") {
        "\u{1F50D}"
    } else if str_eq(name, "auditworkshop") {
        "\u{1F393}"
    } else if str_eq(name, "portainer") {
        "\u{1F433}"
    } else if str_eq(name, "jupyter") {
        "\u{1F4D3}"
    } else if str_eq(name, "flower") {
        "\u{1F33A}"
    } else if str_eq(name, "flowinvoice-stats") {
        "\u{1F4C9}"
    } else if str_eq(name, "audit-designer-dev") {
        "\u{2699}\u{FE0F}"
    } else if str_eq(name, "riskanalysis") {
        "\u{26A0}\u{FE0F}"
    } else {
        "\u{1F680}"
    }
}

/// The icon shown for an app: its own, unless blank, else the default one.
pub open spec fn icon_of(a: AppView) -> Seq<char> {
    match a.icon {
        Some(i) => if trim(i).len() > 0 {
            i
        } else {
            emoji_of(a.name)
        },
        None => emoji_of(a.name),
    }
}

pub fn icon_for(app: &App) -> (r: String)
    ensures
        r@ == icon_of(app@),
{
    match &app.icon {
        Some(i) => {
            let t = trim_str(i.as_str());
            if !t.as_str().is_empty() {
                return String::from_str(i.as_str());
            }
        },
        None => {},
    }
    String::from_str(emoji_for(app.name.as_str()))
}

// ── apps.yml ──

/// Characters that force a YAML scalar into double quotes.
pub open spec fn yaml_special(c: char) -> bool {
    c == '#' || c == ',' || c == ':' || c == '"' || c == '\'' || c == '{' || c == '}' || c == '['
        || c == ']' || c == '\\' || c == '\n'
}

pub open spec fn needs_quote(s: Seq<char>) -> bool {
    s.len() == 0 || s[0] == ' ' || s.last() == ' ' || exists|i: int|
        0 <= i < s.len() && yaml_special(#[trigger] s[i])
}

pub open spec fn escape_char(c: char) -> Seq<char> {
    if c == '\\' {
        seq!['\\', '\\']
    } else if c == '"' {
        seq!['\\', '"']
    } else {
        seq![c]
    }
}

/// Backslashes and double quotes escaped with a backslash.
pub open spec fn yaml_escape(s: Seq<char>) -> Seq<char>
    decreases s.len(),
{
    if s.len() == 0 {
        Seq::<char>::empty()
    } else {
        yaml_escape(s.drop_last()) + escape_char(s.last())
    }
}

/// A value as it is written into `apps.yml`.
pub open spec fn yaml_scalar(s: Seq<char>) -> Seq<char> {
    if needs_quote(s) {
        "\""@ + yaml_escape(s) + "\""@
    } else {
        s
    }
}

pub fn yaml_value(s: &str) -> (r: String)
    ensures
        r@ == yaml_scalar(s@),
{
    let v = chars_of(s);
    let n = v.len();
    let mut special = false;
    let mut esc: Vec<char> = Vec::new();
    let mut i: usize = 0;
    while i < n
        invariant
            n == v.len(),
            i <= n,
            special == exists|k: int| 0 <= k < i && yaml_special(#[trigger] v@[k]),
            esc@ == yaml_escape(v@.take(i as int)),
        decreases n - i,
    {
        let c = v[i];
        if c == '#' || c == ',' || c == ':' || c == '"' || c == '\'' || c == '{' || c == '}' || c
            == '[' || c == ']' || c == '\\' || c == '\n' {
            special = true;
        }
        assert(v@.take(i + 1).drop_last() =~= v@.take(i as int));
        if c == '\\' {
            esc.push('\\');
            esc.push('\\');
        } else if c == '"' {
            esc.push('\\');
            esc.push('"');
        } else {
            esc.push(c);
        }
        assert(esc@ =~= yaml_escape(v@.take(i + 1)));
        i = i + 1;
    }
    assert(v@.take(n as int) =~= v@);
    if n == 0 || v[0] == ' ' || v[n - 1] == ' ' || special {
        let mut q: Vec<char> = Vec::new();
        q.push('"');
        let mut k: usize = 0;
        while k < esc.len()
            invariant
                k <= esc.len(),
                q@ == seq!['"'] + esc@.take(k as int),
            decreases esc.len() - k,
        {
            q.push(esc[k]);
            k = k + 1;
            assert(q@ =~= seq!['"'] + esc@.take(k as int));
        }
        q.push('"');
        proof {
            reveal_strlit("\"");
            assert(esc@.take(esc@.len() as int) =~= esc@);
            assert(q@ =~= "\""@ + yaml_escape(s@) + "\""@);
        }
        string_of(&q)
    } else {
        String::from_str(s)
    }
}

/// The `key: value` pairs written for one app.
pub open spec fn app_fields(a: AppView) -> Seq<Seq<char>> {
    let base = seq![
        "name: "@ + yaml_scalar(a.name),
        "url: "@ + yaml_scalar(a.url),
        "mode: "@ + yaml_scalar(a.mode),
    ];
    let with_comment = match a.comment {
        Some(c) => if c.len() > 0 {
            base.push("comment: "@ + yaml_scalar(c))
        } else {
            base
        },
        None => base,
    };
    match a.icon {
        Some(i) => if trim(i).len() > 0 {
            with_comment.push("icon: "@ + yaml_scalar(i))
        } else {
            with_comment
        },
        None => with_comment,
    }
}

/// The flow-mapping line of one app.
pub open spec fn app_line(a: AppView) -> Seq<char> {
    "  - { "@ + join(app_fields(a), ", "@) + " }\n"@
}

pub open spec fn app_lines(apps: Seq<AppView>) -> Seq<char>
    decreases apps.len(),
{
    if apps.len() == 0 {
        Seq::<char>::empty()
    } else {
        app_lines(apps.drop_last()) + app_line(apps.last())
    }
}

/// The comment block and key that start `apps.yml`.
pub open spec fn apps_yml_head() -> Seq<char> {
    "# Desktop-App-Liste fuer den Generator regen.py\n#\n# mode:\n#   app  -> Chrome --app=URL (eigenes Fenster, eigenes Profil)\n#   tab  -> xdg-open URL (Standard-Browser-Tab)\n#\n# icon: optional, Emoji-String (Fallback: hardcoded Mapping)\n# Diese Datei wird vom FlowAudit-Tray-Editor geschrieben.\n\napps:\n"@
}

fn field_line(key: &str, value: &str) -> (r: String)
    ensures
        r@ == key@ + yaml_scalar(value@),
{
    let mut r = String::from_str(key);
    let y = yaml_value(value);
    r.append(y.as_str());
    r
}

fn app_line_exec(app: &App) -> (r: String)
    ensures
        r@ == app_line(app@),
{
    let mut parts: Vec<String> = Vec::new();
    parts.push(field_line("name: ", app.name.as_str()));
    parts.push(field_line("url: ", app.url.as_str()));
    parts.push(field_line("mode: ", app.mode.as_str()));
    match &app.comment {
        Some(c) => {
            if !c.as_str().is_empty() {
                parts.push(field_line("comment: ", c.as_str()));
            }
        },
        None => {},
    }
    match &app.icon {
        Some(i) => {
            let t = trim_str(i.as_str());
            if !t.as_str().is_empty() {
                parts.push(field_line("icon: ", i.as_str()));
            }
        },
        None => {},
    }
    assert(string_views(parts@) =~= app_fields(app@));
    let mut r = String::from_str("  - { ");
    let j = join_strings(&parts, ", ");
    r.append(j.as_str());
    r.append(" }\n");
    r
}

/// The text of `apps.yml` for `apps`, in list order.
pub fn render_apps_yml(apps: &Vec<App>) -> (r: String)
    ensures
        r@ == apps_yml_head() + app_lines(app_views(apps@)),
{
    let mut out = String::from_str(
        "# Desktop-App-Liste fuer den Generator regen.py\n#\n# mode:\n#   app  -> Chrome --app=URL (eigenes Fenster, eigenes Profil)\n#   tab  -> xdg-open URL (Standard-Browser-Tab)\n#\n# icon: optional, Emoji-String (Fallback: hardcoded Mapping)\n# Diese Datei wird vom FlowAudit-Tray-Editor geschrieben.\n\napps:\n",
    );
    let ghost views = app_views(apps@);
    let mut i: usize = 0;
    assert(views.take(0) =~= Seq::<AppView>::empty());
    assert(out@ =~= apps_yml_head() + app_lines(views.take(0)));
    while i < apps.len()
        invariant
            i <= apps.len(),
            views == app_views(apps@),
            out@ == apps_yml_head() + app_lines(views.take(i as int)),
        decreases apps.len() - i,
    {
        assert(views.take(i + 1).drop_last() =~= views.take(i as int));
        let line = app_line_exec(&apps[i]);
        out.append(line.as_str());
        assert(out@ =~= apps_yml_head() + app_lines(views.take(i + 1)));
        i = i + 1;
    }
    assert(views.take(views.len() as int) =~= views);
    out
}

/// Where `apps.yml` is looked for when no path is configured.
pub fn default_apps_yml(home: Option<&str>) -> (r: String)
    ensures
        r@ == path_join(
            match home {
                Some(h) => h@,
                None => "/tmp"@,
            },
            "Projekte/flowlib/scripts/desktop-apps/apps.yml"@,
        ),
{
    let base = match home {
        Some(h) => h,
        None => "/tmp",
    };
    join_path(base, "Projekte/flowlib/scripts/desktop-apps/apps.yml")
}

// ── Launching ──

pub open spec fn safe_char(c: char) -> char {
    if alphanumeric(c) || c == '.' || c == '-' {
        c
    } else {
        '_'
    }
}

/// A name usable as a directory and window class: characters other than
/// alphanumerics, `.` and `-` become `_`.
pub open spec fn safe_name_of(name: Seq<char>) -> Seq<char> {
    name.map_values(|c: char| safe_char(c))
}

pub fn safe_name(name: &str) -> (r: String)
    ensures
        r@ == safe_name_of(name@),
{
    let v = chars_of(name);
    let mut out: Vec<char> = Vec::new();
    let mut i: usize = 0;
    while i < v.len()
        invariant
            i <= v.len(),
            out@ == safe_name_of(v@.take(i as int)),
        decreases v.len() - i,
    {
        let c = v[i];
        if is_alphanumeric(c) || c == '.' || c == '-' {
            out.push(c);
        } else {
            out.push('_');
        }
        assert(out@ =~= safe_name_of(v@.take(i + 1)));
        i = i + 1;
    }
    assert(v@.take(v@.len() as int) =~= v@);
    string_of(&out)
}

/// The browser profile directory of an app in its own window.
pub open spec fn profile_dir_of(home: Seq<char>, name: Seq<char>) -> Seq<char> {
    path_join(path_join(path_join(home, ".config"@), "chrome-apps"@), safe_name_of(name))
}

pub fn chrome_profile_dir(home: &str, name: &str) -> (r: String)
    ensures
        r@ == profile_dir_of(home@, name@),
{
    let a = join_path(home, ".config");
    let b = join_path(a.as_str(), "chrome-apps");
    let s = safe_name(name);
    join_path(b.as_str(), s.as_str())
}

/// How an app is started.
pub enum LaunchPlan {
    /// Run the browser with these arguments (own window, own profile).
    Browser { args: Vec<String> },
    /// Hand the URL to the desktop's default handler.
    Open { url: String },
}

/// An app in `app` mode gets its own browser window when a browser was
/// found; anything else opens in the default browser.
pub fn launch_plan(app: &App, browser_found: bool, profile_dir: &str) -> (r: LaunchPlan)
    ensures
        app.mode@ == "app"@ && browser_found ==> (r matches LaunchPlan::Browser { args }
            && string_views(args@) == seq![
            "--app="@ + app.url@,
            "--user-data-dir="@ + profile_dir@,
            "--class="@ + safe_name_of(app.name@),
        ]),
        !(app.mode@ == "app"@ && browser_found) ==> (r matches LaunchPlan::Open { url } && url@
            == app.url@),
{
    if str_eq(app.mode.as_str(), "app") && browser_found {
        let mut a = String::from_str("--app=");
        a.append(app.url.as_str());
        let mut d = String::from_str("--user-data-dir=");
        d.append(profile_dir);
        let mut c = String::from_str("--class=");
        let s = safe_name(app.name.as_str());
        c.append(s.as_str());
        let mut args: Vec<String> = Vec::new();
        args.push(a);
        args.push(d);
        args.push(c);
        assert(string_views(args@) =~= seq![
            "--app="@ + app.url@,
            "--user-data-dir="@ + profile_dir@,
            "--class="@ + safe_name_of(app.name@),
        ]);
        LaunchPlan::Browser { args }
    } else {
        LaunchPlan::Open { url: String::from_str(app.url.as_str()) }
    }
}

// ── Tray menu ──

/// One entry of the tray menu.
pub enum MenuEntry {
    /// An inactive heading.
    Header(String),
    /// Launches the app at `index` of the list.
    Launch { label: String, tooltip: String, index: usize },
    Separator,
    /// Opens the editor.
    Edit(String),
    /// Opens the launcher web page.
    OpenWeb(String),
    Quit(String),
}

/// The apps shown under "Apps": own-window apps except the launcher itself.
pub open spec fn is_window_app(a: AppView) -> bool {
    a.mode == "app"@ && a.name != "FlowAudit_Apps"@
}

pub open spec fn is_tab_app(a: AppView) -> bool {
    a.mode == "tab"@
}

/// The label of an app's menu entry: icon, two spaces, name.
pub open spec fn launch_label(a: AppView) -> Seq<char> {
    icon_of(a) + "  "@ + a.name
}

/// The tooltip of an app's menu entry: its comment, else its URL.
pub open spec fn launch_tooltip(a: AppView) -> Seq<char> {
    match a.comment {
        Some(c) => c,
        None => a.url,
    }
}

/// Indices of the apps of `apps` for which `window` tells the section.
pub open spec fn section_indices(apps: Seq<AppView>, window: bool) -> Seq<int>
    decreases apps.len(),
{
    if apps.len() == 0 {
        Seq::<int>::empty()
    } else {
        let prev = section_indices(apps.drop_last(), window);
        let a = apps.last();
        if (window && is_window_app(a)) || (!window && is_tab_app(a)) {
            prev.push(apps.len() - 1)
        } else {
            prev
        }
    }
}

proof fn lemma_section_indices(apps: Seq<AppView>, window: bool)
    ensures
        section_indices(apps, window).len() <= apps.len(),
        forall|k: int|
            0 <= k < section_indices(apps, window).len() ==> 0 <= #[trigger] section_indices(
                apps,
                window,
            )[k] < apps.len(),
    decreases apps.len(),
{
    if apps.len() > 0 {
        lemma_section_indices(apps.drop_last(), window);
    }
}

pub open spec fn entry_is_launch(e: MenuEntry, a: AppView, index: int) -> bool {
    e matches MenuEntry::Launch { label, tooltip, index: k } && label@ == launch_label(a)
        && tooltip@ == launch_tooltip(a) && k == index
}

/// `menu` holds, from position `base` on, the launch entries of the apps at
/// `idxs`, in that order.
pub open spec fn launches_at(menu: Seq<MenuEntry>, base: int, apps: Seq<App>, idxs: Seq<int>) -> bool {
    forall|k: int|
        #![trigger idxs[k]]
        0 <= k < idxs.len() ==> 0 <= idxs[k] < apps.len() && entry_is_launch(
            menu[base + k],
            apps[idxs[k]]@,
            idxs[k],
        )
}

fn launch_entry(app: &App, index: usize) -> (e: MenuEntry)
    ensures
        entry_is_launch(e, app@, index as int),
{
    let mut label = icon_for(app);
    label.append("  ");
    label.append(app.name.as_str());
    let tooltip = match &app.comment {
        Some(c) => String::from_str(c.as_str()),
        None => String::from_str(app.url.as_str()),
    };
    MenuEntry::Launch { label, tooltip, index }
}

/// Appends the launch entries of one section; returns how many.
fn push_section(menu: &mut Vec<MenuEntry>, apps: &Vec<App>, window: bool) -> (n: usize)
    ensures
        n == section_indices(app_views(apps@), window).len(),
        final(menu)@.len() == old(menu)@.len() + n,
        forall|k: int| 0 <= k < old(menu)@.len() ==> final(menu)@[k] == old(menu)@[k],
        launches_at(final(menu)@, old(menu)@.len() as int, apps@, section_indices(app_views(apps@), window)),
{
    let ghost start = menu@;
    let ghost views = app_views(apps@);
    let mut n: usize = 0;
    let mut i: usize = 0;
    assert(views.take(0) =~= Seq::<AppView>::empty());
    while i < apps.len()
        invariant
            i <= apps.len(),
            views == app_views(apps@),
            n == section_indices(views.take(i as int), window).len(),
            menu@.len() == start.len() + n,
            forall|k: int| 0 <= k < start.len() ==> menu@[k] == start[k],
            launches_at(menu@, start.len() as int, apps@, section_indices(views.take(i as int), window)),
            forall|k: int| 0 <= k < section_indices(views.take(i as int), window).len() ==> #[trigger] section_indices(views.take(i as int), window)[k] < i,
        decreases apps.len() - i,
    {
        let ghost prev = section_indices(views.take(i as int), window);
        let ghost menu0 = menu@;
        proof {
            lemma_section_indices(views.take(i as int), window);
        }
        assert(views.take(i + 1).drop_last() =~= views.take(i as int));
        assert(views.take(i + 1).last() == apps@[i as int]@);
        let a = &apps[i];
        let m = a.mode.as_str();
        let take = if window {
            str_eq(m, "app") && !str_eq(a.name.as_str(), "FlowAudit_Apps")
        } else {
            str_eq(m, "tab")
        };
        assert(take == ((window && is_window_app(apps@[i as int]@)) || (!window && is_tab_app(
            apps@[i as int]@,
        ))));
        if take {
            let e = launch_entry(a, i);
            menu.push(e);
            assert(section_indices(views.take(i + 1), window) == prev.push(i as int));
            n = n + 1;
            assert forall|k: int| 0 <= k < n implies 0 <= #[trigger] prev.push(i as int)[k] < apps@.len()
                && entry_is_launch(menu@[start.len() + k], apps@[prev.push(i as int)[k]]@, prev.push(i as int)[k]) by {
                if k < n - 1 {
                    assert(menu@[start.len() + k] == menu0[start.len() + k]);
                }
            }
        } else {
            assert(section_indices(views.take(i + 1), window) == prev);
        }
        i = i + 1;
    }
    assert(views.take(apps.len() as int) =~= views);
    n
}

/// The tray menu: the own-window apps under a heading, the browser tools
/// under another (each section only when it has apps), then the editor,
/// the launcher page and quit.
pub fn menu_entries(apps: &Vec<App>) -> (r: Vec<MenuEntry>)
    ensures
        ({
            let w = section_indices(app_views(apps@), true);
            let t = section_indices(app_views(apps@), false);
            let hw: int = if w.len() > 0 {
                1
            } else {
                0
            };
            let tab_start: int = hw + w.len() + if t.len() > 0 {
                2int
            } else {
                0int
            };
            let tail = tab_start + t.len();
            &&& r@.len() == tail + 5
            &&& w.len() > 0 ==> (r@[0] matches MenuEntry::Header(h) && h@
                == "\u{2014} Apps \u{2014}"@)
            &&& launches_at(r@, hw, apps@, w)
            &&& t.len() > 0 ==> r@[hw + w.len()] is Separator
            &&& t.len() > 0 ==> (r@[hw + w.len() + 1] matches MenuEntry::Header(h) && h@
                == "\u{2014} Browser-Tools \u{2014}"@)
            &&& launches_at(r@, tab_start, apps@, t)
            &&& r@[tail] is Separator
            &&& r@[tail + 1] matches MenuEntry::Edit(l) && l@ == "\u{2699}\u{FE0F}  Apps bearbeiten..."@
            &&& r@[tail + 2] matches MenuEntry::OpenWeb(l) && l@
                == "\u{1F310}  Launcher im Browser oeffnen"@
            &&& r@[tail + 3] is Separator
            &&& r@[tail + 4] matches MenuEntry::Quit(l) && l@ == "Beenden"@
        }),
{
    let ghost w = section_indices(app_views(apps@), true);
    let ghost t = section_indices(app_views(apps@), false);
    let mut windows: Vec<MenuEntry> = Vec::new();
    let nw = push_section(&mut windows, apps, true);
    let mut tabs: Vec<MenuEntry> = Vec::new();
    let nt = push_section(&mut tabs, apps, false);
    let mut menu: Vec<MenuEntry> = Vec::new();
    if nw > 0 {
        menu.push(MenuEntry::Header(String::from_str("\u{2014} Apps \u{2014}")));
    }
    let ghost hw: int = menu@.len() as int;
    let ghost wv = windows@;
    menu.append(&mut windows);
    if nt > 0 {
        menu.push(MenuEntry::Separator);
        menu.push(MenuEntry::Header(String::from_str("\u{2014} Browser-Tools \u{2014}")));
    }
    let ghost ts: int = menu@.len() as int;
    let ghost tv = tabs@;
    menu.append(&mut tabs);
    let ghost mid = menu@;
    menu.push(MenuEntry::Separator);
    menu.push(MenuEntry::Edit(String::from_str("\u{2699}\u{FE0F}  Apps bearbeiten...")));
    menu.push(MenuEntry::OpenWeb(String::from_str("\u{1F310}  Launcher im Browser oeffnen")));
    menu.push(MenuEntry::Separator);
    menu.push(MenuEntry::Quit(String::from_str("Beenden")));
    proof {
        assert forall|k: int| 0 <= k < w.len() implies 0 <= #[trigger] w[k] < apps@.len() && entry_is_launch(
            menu@[hw + k],
            apps@[w[k]]@,
            w[k],
        ) by {
            assert(mid[hw + k] == wv[k]);
            assert(wv[0 + k] == wv[k]);
        }
        assert forall|k: int| 0 <= k < t.len() implies 0 <= #[trigger] t[k] < apps@.len() && entry_is_launch(
            menu@[ts + k],
            apps@[t[k]]@,
            t[k],
        ) by {
            assert(mid[ts + k] == tv[k]);
            assert(tv[0 + k] == tv[k]);
        }
        assert(launches_at(menu@, hw, apps@, w));
        assert(launches_at(menu@, ts as int, apps@, t));
    }
    menu
}

// ── Editor ──

/// The entry the editor adds.
pub open spec fn new_app_view() -> AppView {
    AppView {
        name: "neue_app"@,
        url: "http://localhost:8080"@,
        mode: "app"@,
        comment: Some(Seq::<char>::empty()),
        icon: None,
    }
}

pub fn new_app() -> (a: App)
    ensures
        a@ == new_app_view(),
{
    let a = App {
        name: String::from_str("neue_app"),
        url: String::from_str("http://localhost:8080"),
        mode: String::from_str("app"),
        comment: Some(String::new()),
        icon: None,
    };
    assert(a@.comment == Some(Seq::<char>::empty()));
    a
}

/// Appends a new entry.
pub fn add_app(apps: &mut Vec<App>)
    ensures
        app_views(final(apps)@) == app_views(old(apps)@).push(new_app_view()),
{
    let a = new_app();
    apps.push(a);
    assert(app_views(apps@) =~= app_views(old(apps)@).push(new_app_view()));
}

/// `s` with the entries at `i` and `j` exchanged.
pub open spec fn swapped(s: Seq<AppView>, i: int, j: int) -> Seq<AppView> {
    s.update(i, s[j]).update(j, s[i])
}

/// The list after "move up" on entry `idx`.
pub open spec fn moved_up(s: Seq<AppView>, idx: int) -> Seq<AppView> {
    if 0 < idx < s.len() {
        swapped(s, idx - 1, idx)
    } else {
        s
    }
}

/// The list after "move down" on entry `idx`.
pub open spec fn moved_down(s: Seq<AppView>, idx: int) -> Seq<AppView> {
    if 0 <= idx && idx + 1 < s.len() {
        swapped(s, idx, idx + 1)
    } else {
        s
    }
}

/// Exchanges entry `idx` with the one before it.
fn swap_with_previous(apps: &mut Vec<App>, idx: usize)
    requires
        0 < idx < old(apps)@.len(),
    ensures
        app_views(final(apps)@) == swapped(app_views(old(apps)@), idx - 1, idx as int),
{
    let a = apps.remove(idx);
    apps.insert(idx - 1, a);
    assert(app_views(apps@) =~= swapped(app_views(old(apps)@), idx - 1, idx as int));
}

/// Moves entry `idx` one place up; the first entry stays.
pub fn move_up(apps: &mut Vec<App>, idx: usize)
    ensures
        app_views(final(apps)@) == moved_up(app_views(old(apps)@), idx as int),
{
    if idx > 0 && idx < apps.len() {
        swap_with_previous(apps, idx);
    }
}

/// Moves entry `idx` one place down; the last entry stays.
pub fn move_down(apps: &mut Vec<App>, idx: usize)
    ensures
        app_views(final(apps)@) == moved_down(app_views(old(apps)@), idx as int),
{
    if idx < apps.len() && idx + 1 < apps.len() {
        swap_with_previous(apps, idx + 1);
    }
}

/// Removes entry `idx`, if there is one.
pub fn delete_app(apps: &mut Vec<App>, idx: usize)
    ensures
        app_views(final(apps)@) == if idx < old(apps)@.len() {
            app_views(old(apps)@).remove(idx as int)
        } else {
            app_views(old(apps)@)
        },
{
    if idx < apps.len() {
        let _removed = apps.remove(idx);
        assert(app_views(apps@) =~= app_views(old(apps)@).remove(idx as int));
    }
}

/// The entry `a` with its icon set from the editor text: a blank text
/// clears it.
pub open spec fn with_icon(a: AppView, text: Seq<char>) -> AppView {
    AppView {
        icon: if trim(text).len() == 0 {
            None
        } else {
            Some(text)
        },
        ..a
    }
}

/// The entry `a` with its comment set from the editor text: an empty text
/// clears it.
pub open spec fn with_comment(a: AppView, text: Seq<char>) -> AppView {
    AppView {
        comment: if text.len() == 0 {
            None
        } else {
            Some(text)
        },
        ..a
    }
}

/// An editor field of an entry.
pub enum AppField {
    Icon,
    Name,
    Url,
    Mode,
    Comment,
}

/// The entry `a` after the editor changed `field` to `text`.
pub open spec fn edited(a: AppView, field: AppField, text: Seq<char>) -> AppView {
    match field {
        AppField::Icon => with_icon(a, text),
        AppField::Name => AppView { name: text, ..a },
        AppField::Url => AppView { url: text, ..a },
        AppField::Mode => AppView { mode: text, ..a },
        AppField::Comment => with_comment(a, text),
    }
}

/// Applies an edit of one field of entry `idx`; an index past the end
/// changes nothing.
pub fn edit_app(apps: &mut Vec<App>, idx: usize, field: AppField, text: &str)
    ensures
        app_views(final(apps)@) == if idx < old(apps)@.len() {
            app_views(old(apps)@).update(idx as int, edited(old(apps)@[idx as int]@, field, text@))
        } else {
            app_views(old(apps)@)
        },
{
    if idx < apps.len() {
        let mut a = apps.remove(idx);
        let ghost before = a@;
        match field {
            AppField::Icon => {
                let t = trim_str(text);
                a.icon = if t.as_str().is_empty() {
                    None
                } else {
                    Some(String::from_str(text))
                };
            },
            AppField::Name => {
                a.name = String::from_str(text);
            },
            AppField::Url => {
                a.url = String::from_str(text);
            },
            AppField::Mode => {
                a.mode = String::from_str(text);
            },
            AppField::Comment => {
                a.comment = if text.is_empty() {
                    None
                } else {
                    Some(String::from_str(text))
                };
            },
        }
        assert(a@ == edited(before, field, text@));
        apps.insert(idx, a);
        assert(app_views(apps@) =~= app_views(old(apps)@).update(
            idx as int,
            edited(old(apps)@[idx as int]@, field, text@),
        ));
    }
}

/// Position of `mode` in the mode chooser (`app`, `tab`); an unknown mode
/// selects the first.
pub fn mode_index(mode: &str) -> (r: usize)
    ensures
        r == if mode@ == "tab"@ && mode@ != "app"@ {
            1usize
        } else {
            0usize
        },
{
    if str_eq(mode, "app") {
        0
    } else if str_eq(mode, "tab") {
        1
    } else {
        0
    }
}

/// Whether the "up" button of entry `idx` is active.
pub fn can_move_up(idx: usize) -> (r: bool)
    ensures
        r == (idx > 0),
{
    idx > 0
}

/// Whether the "down" button of entry `idx` is active.
pub fn can_move_down(idx: usize, len: usize) -> (r: bool)
    ensures
        r == (idx + 1 < len),
{
    idx < len && idx + 1 < len
}

/// Moving an entry up and then moving it back down restores the list.
pub proof fn law_move_up_then_down_restores(s: Seq<AppView>, idx: int)
    requires
        0 < idx < s.len(),
    ensures
        moved_down(moved_up(s, idx), idx - 1) == s,
{
    assert(moved_down(moved_up(s, idx), idx - 1) =~= s);
}

/// Moving an entry down and then moving it back up restores the list.
pub proof fn law_move_down_then_up_restores(s: Seq<AppView>, idx: int)
    requires
        0 <= idx && idx + 1 < s.len(),
    ensures
        moved_up(moved_down(s, idx), idx + 1) == s,
{
    assert(moved_up(moved_down(s, idx), idx + 1) =~= s);
}

/// Deleting the entry that was just added restores the list.
pub proof fn law_delete_after_add_restores(s: Seq<AppView>)
    ensures
        s.push(new_app_view()).remove(s.len() as int) == s,
{
    assert(s.push(new_app_view()).remove(s.len() as int) =~= s);
}

/// Moving entries never loses or duplicates one.
pub proof fn law_moves_keep_entries(s: Seq<AppView>, idx: int)
    ensures
        moved_up(s, idx).to_multiset() == s.to_multiset(),
        moved_down(s, idx).to_multiset() == s.to_multiset(),
{
    if 0 < idx < s.len() {
        lemma_swap_multiset(s, idx - 1);
    }
    if 0 <= idx && idx + 1 < s.len() {
        lemma_swap_multiset(s, idx);
    }
}

proof fn lemma_swap_multiset(s: Seq<AppView>, i: int)
    requires
        0 <= i && i + 1 < s.len(),
    ensures
        swapped(s, i, i + 1).to_multiset() == s.to_multiset(),
{
    let x = s[i + 1];
    let r = s.remove(i + 1);
    assert(swapped(s, i, i + 1) =~= r.insert(i, x));
    assert(s =~= r.insert(i + 1, x));
    vstd::seq_lib::to_multiset_insert(r, i, x);
    vstd::seq_lib::to_multiset_insert(r, i + 1, x);
}

} // verus!
