//! Tray icon and options menu: the icon's pixels, what the menu lists, what is
//! checked, and which command an item stands for.

use vstd::prelude::*;

use crate::hotkey;
use crate::text;
use crate::transcribe;
use crate::ui::Mode;

verus! {

/// A command from the menu to the session.
#[derive(Debug)]
pub enum MenuCmd {
    /// Switch the microphone; empty means the system default.
    Mic(String),
    /// Switch the push-to-talk preset.
    Hotkey(String),
    /// Switch the transcription mode, from the next utterance on.
    Mode(String),
    /// Take the API key from the clipboard.
    PasteKey,
    Quit,
}

/// What a command says.
pub enum CmdView {
    Mic(Seq<char>),
    Hotkey(Seq<char>),
    Mode(Seq<char>),
    PasteKey,
    Quit,
}

impl View for MenuCmd {
    type V = CmdView;

    open spec fn view(&self) -> CmdView {
        match *self {
            MenuCmd::Mic(s) => CmdView::Mic(s@),
            MenuCmd::Hotkey(s) => CmdView::Hotkey(s@),
            MenuCmd::Mode(s) => CmdView::Mode(s@),
            MenuCmd::PasteKey => CmdView::PasteKey,
            MenuCmd::Quit => CmdView::Quit,
        }
    }
}

impl Clone for MenuCmd {
    fn clone(&self) -> (r: MenuCmd)
        ensures
            r@ == self@,
    {
        match self {
            MenuCmd::Mic(s) => MenuCmd::Mic(s.clone()),
            MenuCmd::Hotkey(s) => MenuCmd::Hotkey(s.clone()),
            MenuCmd::Mode(s) => MenuCmd::Mode(s.clone()),
            MenuCmd::PasteKey => MenuCmd::PasteKey,
            MenuCmd::Quit => MenuCmd::Quit,
        }
    }
}

// ---------------------------------------------------------------------------
// Icon
// ---------------------------------------------------------------------------
/// The side of the icon in pixels.
pub const ICON_SIDE: usize = 16;

/// The opacity of a point of the icon: a filled disc with a soft edge.
pub open spec fn icon_alpha(x: int, y: int) -> u8 {
    let d2 = (x - 8) * (x - 8) + (y - 8) * (y - 8);
    if d2 <= 30 {
        255
    } else if d2 <= 42 {
        120
    } else {
        0
    }
}

/// The four bytes of a point of the icon. Outside the disc all are zero.
pub open spec fn icon_pixel(r: u8, g: u8, b: u8, x: int, y: int) -> Seq<u8> {
    if icon_alpha(x, y) == 0 {
        seq![0u8, 0u8, 0u8, 0u8]
    } else {
        seq![r, g, b, icon_alpha(x, y)]
    }
}

/// The RGBA bytes of a dot on a transparent ground, row by row.
pub fn rgba_dot(r: u8, g: u8, b: u8) -> (px: Vec<u8>)
    ensures
        px@.len() == ICON_SIDE * ICON_SIDE * 4,
        forall|i: int|
            #![trigger px@.subrange(4 * i, 4 * i + 4)]
            0 <= i < ICON_SIDE * ICON_SIDE ==> px@.subrange(4 * i, 4 * i + 4) == icon_pixel(
                r,
                g,
                b,
                i % (ICON_SIDE as int),
                i / (ICON_SIDE as int),
            ),
{
    let mut px: Vec<u8> = Vec::with_capacity(16 * 16 * 4);
    let mut i: usize = 0;
    while i < ICON_SIDE * ICON_SIDE
        invariant
            i <= ICON_SIDE * ICON_SIDE,
            px@.len() == 4 * i,
            forall|k: int|
                #![trigger px@.subrange(4 * k, 4 * k + 4)]
                0 <= k < i ==> px@.subrange(4 * k, 4 * k + 4) == icon_pixel(
                    r,
                    g,
                    b,
                    k % (ICON_SIDE as int),
                    k / (ICON_SIDE as int),
                ),
        decreases ICON_SIDE * ICON_SIDE - i,
    {
        let dx: i32 = (i % ICON_SIDE) as i32 - 8;
        let dy: i32 = (i / ICON_SIDE) as i32 - 8;
        assert(0 <= dx * dx <= 64) by (nonlinear_arith)
            requires
                -8 <= dx <= 7,
        ;
        assert(0 <= dy * dy <= 64) by (nonlinear_arith)
            requires
                -8 <= dy <= 7,
        ;
        let d2: i32 = dx * dx + dy * dy;
        let ghost before = px@;
        if d2 <= 30 {
            px.push(r);
            px.push(g);
            px.push(b);
            px.push(255);
        } else if d2 <= 42 {
            px.push(r);
            px.push(g);
            px.push(b);
            px.push(120);
        } else {
            px.push(0);
            px.push(0);
            px.push(0);
            px.push(0);
        }
        assert forall|k: int|
            #![trigger px@.subrange(4 * k, 4 * k + 4)]
            0 <= k < i + 1 implies px@.subrange(4 * k, 4 * k + 4) == icon_pixel(
            r,
            g,
            b,
            k % (ICON_SIDE as int),
            k / (ICON_SIDE as int),
        ) by {
            if k < i {
                assert(px@.subrange(4 * k, 4 * k + 4) =~= before.subrange(4 * k, 4 * k + 4));
            } else {
                assert(px@.subrange(4 * k, 4 * k + 4) =~= icon_pixel(
                    r,
                    g,
                    b,
                    k % (ICON_SIDE as int),
                    k / (ICON_SIDE as int),
                ));
            }
        }
        i = i + 1;
    }
    px
}

/// The colour of the icon: grey, red or green.
pub open spec fn icon_color(mode: Mode) -> (u8, u8, u8) {
    match mode {
        Mode::Idle => (0x8Eu8, 0x8Eu8, 0x93u8),
        Mode::Listening => (0xFFu8, 0x45u8, 0x3Au8),
        Mode::Transcribing => (0x30u8, 0xD1u8, 0x58u8),
    }
}

/// The RGBA bytes of the icon of a mode.
pub fn icon_for(mode: Mode) -> (px: Vec<u8>)
    ensures
        px@.len() == ICON_SIDE * ICON_SIDE * 4,
        forall|i: int|
            #![trigger px@.subrange(4 * i, 4 * i + 4)]
            0 <= i < ICON_SIDE * ICON_SIDE ==> px@.subrange(4 * i, 4 * i + 4) == icon_pixel(
                icon_color(mode).0,
                icon_color(mode).1,
                icon_color(mode).2,
                i % (ICON_SIDE as int),
                i / (ICON_SIDE as int),
            ),
{
    match mode {
        Mode::Idle => rgba_dot(0x8E, 0x8E, 0x93),
        Mode::Listening => rgba_dot(0xFF, 0x45, 0x3A),
        Mode::Transcribing => rgba_dot(0x30, 0xD1, 0x58),
    }
}

/// The tooltip of the icon.
pub open spec fn tooltip_text(mode: Mode, preview: Seq<char>) -> Seq<char> {
    text::clipped(
        match mode {
            Mode::Idle => "Utterly — hold Ctrl+Space to dictate"@,
            Mode::Listening => "● Listening… "@ + preview,
            Mode::Transcribing => "… Transcribing "@ + preview,
        },
        120,
    )
}

/// The tooltip of the icon, at most 120 characters.
pub fn tooltip(mode: Mode, preview: &str) -> (r: String)
    ensures
        r@ == tooltip_text(mode, preview@),
        r@.len() <= 120,
{
    let mut tip = match mode {
        Mode::Idle => return text::clip("Utterly — hold Ctrl+Space to dictate", 120),
        Mode::Listening => "● Listening… ".to_string(),
        Mode::Transcribing => "… Transcribing ".to_string(),
    };
    tip.append(preview);
    text::clip(tip.as_str(), 120)
}

// ---------------------------------------------------------------------------
// What the menu lists
// ---------------------------------------------------------------------------
/// A radio item: the value that it stands for, what it reads, and whether it
/// is checked.
#[derive(Debug)]
pub struct MenuEntry {
    pub value: String,
    pub label: String,
    pub checked: bool,
}

/// What an item says.
pub struct EntryView {
    pub value: Seq<char>,
    pub label: Seq<char>,
    pub checked: bool,
}

impl View for MenuEntry {
    type V = EntryView;

    open spec fn view(&self) -> EntryView {
        EntryView { value: self.value@, label: self.label@, checked: self.checked }
    }
}

/// The three submenus.
#[derive(Debug)]
pub struct MenuModel {
    pub mics: Vec<MenuEntry>,
    pub hotkeys: Vec<MenuEntry>,
    pub modes: Vec<MenuEntry>,
}

/// What the items say.
pub open spec fn entry_views(items: Seq<MenuEntry>) -> Seq<EntryView> {
    items.map_values(|e: MenuEntry| e@)
}

/// The microphones: the system default, then the devices.
pub open spec fn mic_entries(devices: Seq<Seq<char>>, mic: Seq<char>) -> Seq<EntryView> {
    seq![EntryView { value: Seq::empty(), label: "System default"@, checked: mic.len() == 0 }]
        + devices.map_values(|d: Seq<char>| EntryView { value: d, label: d, checked: d == mic })
}

/// The presets, the current one checked.
pub open spec fn hotkey_entries(current: Seq<char>) -> Seq<EntryView> {
    let p = hotkey::preset_for(current);
    seq![
        EntryView { value: "Ctrl+Space"@, label: "Ctrl+Space"@, checked: p == "Ctrl+Space"@ },
        EntryView { value: "Alt+Space"@, label: "Alt+Space"@, checked: p == "Alt+Space"@ },
        EntryView {
            value: "Ctrl+Shift+Space"@,
            label: "Ctrl+Shift+Space"@,
            checked: p == "Ctrl+Shift+Space"@,
        },
    ]
}

/// The modes, the current one checked.
pub open spec fn mode_entries(current: Seq<char>) -> Seq<EntryView> {
    let m = transcribe::mode_for(current);
    seq![
        EntryView { value: "smart"@, label: "Smart (clean ums/ahs)"@, checked: m == "smart"@ },
        EntryView {
            value: "verbatim"@,
            label: "Verbatim (exact words)"@,
            checked: m == "verbatim"@,
        },
    ]
}

/// What the menu lists for the devices that there are and the settings that
/// are in force.
pub fn build_menu(devices: Vec<String>, mic: &str, hotkey: &str, mode: &str) -> (r: MenuModel)
    ensures
        entry_views(r.mics@) == mic_entries(text::views(devices@), mic@),
        entry_views(r.hotkeys@) == hotkey_entries(hotkey@),
        entry_views(r.modes@) == mode_entries(mode@),
{
    let mut mics: Vec<MenuEntry> = Vec::new();
    mics.push(
        MenuEntry {
            value: String::new(),
            label: "System default".to_string(),
            checked: mic.is_empty(),
        },
    );
    let ghost vs = text::views(devices@);
    let mut i: usize = 0;
    assert(entry_views(mics@) =~= mic_entries(vs.take(0), mic@));
    while i < devices.len()
        invariant
            vs == text::views(devices@),
            i <= devices@.len(),
            entry_views(mics@) == mic_entries(vs.take(i as int), mic@),
        decreases devices@.len() - i,
    {
        let name = devices[i].clone();
        let checked = text::same(name.as_str(), mic);
        let label = name.clone();
        let ghost before = entry_views(mics@);
        mics.push(MenuEntry { value: name, label, checked });
        i = i + 1;
        assert(entry_views(mics@) =~= before.push(
            EntryView { value: vs[i - 1], label: vs[i - 1], checked },
        ));
        assert(entry_views(mics@) =~= mic_entries(vs.take(i as int), mic@));
    }
    assert(vs.take(i as int) =~= vs);
    let preset = hotkey::normalize(hotkey);
    let mut hotkeys: Vec<MenuEntry> = Vec::new();
    hotkeys.push(preset_entry(hotkey::PRESETS[0], preset));
    hotkeys.push(preset_entry(hotkey::PRESETS[1], preset));
    hotkeys.push(preset_entry(hotkey::PRESETS[2], preset));
    assert(entry_views(hotkeys@) =~= hotkey_entries(hotkey@));
    let current = transcribe::normalize_mode(mode);
    let mut modes: Vec<MenuEntry> = Vec::new();
    modes.push(
        MenuEntry {
            value: transcribe::MODES[0].to_string(),
            label: "Smart (clean ums/ahs)".to_string(),
            checked: text::same(transcribe::MODES[0], current),
        },
    );
    modes.push(
        MenuEntry {
            value: transcribe::MODES[1].to_string(),
            label: "Verbatim (exact words)".to_string(),
            checked: text::same(transcribe::MODES[1], current),
        },
    );
    assert(entry_views(modes@) =~= mode_entries(mode@));
    MenuModel { mics, hotkeys, modes }
}

fn preset_entry(preset: &str, current: &str) -> (r: MenuEntry)
    ensures
        r@ == (EntryView { value: preset@, label: preset@, checked: current@ == preset@ }),
{
    MenuEntry {
        value: preset.to_string(),
        label: preset.to_string(),
        checked: text::same(current, preset),
    }
}

/// Item `i` is checked, and no other.
pub open spec fn only_checked(items: Seq<EntryView>, i: int) -> bool {
    &&& 0 <= i < items.len()
    &&& forall|k: int| 0 <= k < items.len() ==> (#[trigger] items[k]).checked == (k == i)
}

/// Exactly one of the items is checked.
pub open spec fn one_checked(items: Seq<EntryView>) -> bool {
    exists|i: int| only_checked(items, i)
}

/// Whatever the settings say, exactly one preset and one mode are checked.
pub proof fn law_one_preset_and_one_mode_checked(current_hotkey: Seq<char>, mode: Seq<char>)
    ensures
        one_checked(hotkey_entries(current_hotkey)),
        one_checked(mode_entries(mode)),
{
    reveal_strlit("Ctrl+Space");
    reveal_strlit("Alt+Space");
    reveal_strlit("Ctrl+Shift+Space");
    reveal_strlit("smart");
    reveal_strlit("verbatim");
    assert("Ctrl+Space"@.len() == 10);
    assert("Alt+Space"@.len() == 9);
    assert("Ctrl+Shift+Space"@.len() == 16);
    assert("smart"@.len() == 5);
    assert("verbatim"@.len() == 8);
    let h = hotkey_entries(current_hotkey);
    let p = hotkey::preset_for(current_hotkey);
    let i: int = if p == "Ctrl+Space"@ {
        0
    } else if p == "Alt+Space"@ {
        1
    } else {
        2
    };
    assert(only_checked(h, i));
    let m = mode_entries(mode);
    let j: int = if transcribe::mode_for(mode) == "smart"@ {
        0
    } else {
        1
    };
    assert(only_checked(m, j));
}

// ---------------------------------------------------------------------------
// Items and their ids
// ---------------------------------------------------------------------------
/// The items of a built menu: the value that each stands for, and the id that
/// the system gave it.
pub struct TrayMenu {
    pub mic_items: Vec<(String, u32)>,
    pub hotkey_items: Vec<(String, u32)>,
    pub mode_items: Vec<(String, u32)>,
    pub paste_key: Option<u32>,
    pub quit: Option<u32>,
}

/// The kinds of radio item.
#[derive(Debug, Clone, Copy, PartialEq, Eq, Structural)]
pub enum ItemKind {
    Mic,
    Hotkey,
    Mode,
}

/// The command of a radio item.
pub open spec fn item_cmd(kind: ItemKind, value: Seq<char>) -> CmdView {
    match kind {
        ItemKind::Mic => CmdView::Mic(value),
        ItemKind::Hotkey => CmdView::Hotkey(value),
        ItemKind::Mode => CmdView::Mode(value),
    }
}

/// The ids of radio items with their commands.
pub open spec fn item_table(kind: ItemKind, items: Seq<(String, u32)>) -> Seq<(u32, CmdView)> {
    items.map_values(|it: (String, u32)| (it.1, item_cmd(kind, it.0@)))
}

/// The id of a plain item, where it exists, with its command.
pub open spec fn plain_table(id: Option<u32>, cmd: CmdView) -> Seq<(u32, CmdView)> {
    match id {
        Some(n) => seq![(n, cmd)],
        None => Seq::empty(),
    }
}

/// What an id table says.
pub open spec fn table_view(table: Seq<(u32, MenuCmd)>) -> Seq<(u32, CmdView)> {
    table.map_values(|e: (u32, MenuCmd)| (e.0, e.1@))
}

/// The check marks of radio items: an item is checked when it stands for
/// `current`.
pub open spec fn marks(items: Seq<(String, u32)>, current: Seq<char>) -> Seq<(u32, bool)> {
    items.map_values(|it: (String, u32)| (it.1, it.0@ == current))
}

fn add_items(table: &mut Vec<(u32, MenuCmd)>, kind: ItemKind, items: &Vec<(String, u32)>)
    ensures
        table_view(final(table)@) == table_view(old(table)@) + item_table(kind, items@),
{
    let mut i: usize = 0;
    assert(table_view(table@) =~= table_view(old(table)@) + item_table(kind, items@.take(0)));
    while i < items.len()
        invariant
            i <= items@.len(),
            table_view(table@) == table_view(old(table)@) + item_table(
                kind,
                items@.take(i as int),
            ),
        decreases items@.len() - i,
    {
        let value = items[i].0.clone();
        let cmd = match kind {
            ItemKind::Mic => MenuCmd::Mic(value),
            ItemKind::Hotkey => MenuCmd::Hotkey(value),
            ItemKind::Mode => MenuCmd::Mode(value),
        };
        let ghost before = table_view(table@);
        let ghost view = cmd@;
        table.push((items[i].1, cmd));
        assert(table_view(table@) =~= before.push((items@[i as int].1, view)));
        i = i + 1;
        assert(table_view(table@) =~= table_view(old(table)@) + item_table(
            kind,
            items@.take(i as int),
        ));
    }
    assert(items@.take(i as int) =~= items@);
}

fn add_marks(out: &mut Vec<(u32, bool)>, items: &Vec<(String, u32)>, current: &str)
    ensures
        final(out)@ == old(out)@ + marks(items@, current@),
{
    let mut i: usize = 0;
    assert(out@ =~= old(out)@ + marks(items@.take(0), current@));
    while i < items.len()
        invariant
            i <= items@.len(),
            out@ == old(out)@ + marks(items@.take(i as int), current@),
        decreases items@.len() - i,
    {
        out.push((items[i].1, text::same(items[i].0.as_str(), current)));
        i = i + 1;
        assert(out@ =~= old(out)@ + marks(items@.take(i as int), current@));
    }
    assert(items@.take(i as int) =~= items@);
}

impl TrayMenu {
    /// No menu: without a display none can be built, and the pill runs alone.
    pub fn empty() -> (r: TrayMenu)
        ensures
            r.table() == Seq::<(u32, CmdView)>::empty(),
            r.mic_items@.len() == 0,
            r.hotkey_items@.len() == 0,
            r.mode_items@.len() == 0,
            r.paste_key is None,
            r.quit is None,
    {
        let r = TrayMenu {
            mic_items: Vec::new(),
            hotkey_items: Vec::new(),
            mode_items: Vec::new(),
            paste_key: None,
            quit: None,
        };
        assert(r.table() =~= Seq::<(u32, CmdView)>::empty());
        r
    }

    /// Every item's id with its command.
    pub open spec fn table(&self) -> Seq<(u32, CmdView)> {
        item_table(ItemKind::Mic, self.mic_items@) + item_table(
            ItemKind::Hotkey,
            self.hotkey_items@,
        ) + item_table(ItemKind::Mode, self.mode_items@) + plain_table(
            self.paste_key,
            CmdView::PasteKey,
        ) + plain_table(self.quit, CmdView::Quit)
    }

    /// Every item's id with its command, as plain data that another thread can
    /// have.
    pub fn id_table(&self) -> (r: Vec<(u32, MenuCmd)>)
        ensures
            table_view(r@) == self.table(),
    {
        let mut table: Vec<(u32, MenuCmd)> = Vec::new();
        assert(table_view(table@) =~= Seq::<(u32, CmdView)>::empty());
        add_items(&mut table, ItemKind::Mic, &self.mic_items);
        add_items(&mut table, ItemKind::Hotkey, &self.hotkey_items);
        add_items(&mut table, ItemKind::Mode, &self.mode_items);
        let ghost radio = table_view(table@);
        if let Some(id) = self.paste_key {
            table.push((id, MenuCmd::PasteKey));
        }
        assert(table_view(table@) =~= radio + plain_table(self.paste_key, CmdView::PasteKey));
        let ghost with_paste = table_view(table@);
        if let Some(id) = self.quit {
            table.push((id, MenuCmd::Quit));
        }
        assert(table_view(table@) =~= with_paste + plain_table(self.quit, CmdView::Quit));
        assert(table_view(table@) =~= self.table());
        table
    }

    /// The check marks for the settings in force, as item ids and states. The
    /// hotkey and the mode are compared in their canonical form.
    pub fn sync(&self, mic: &str, hotkey: &str, mode: &str) -> (r: Vec<(u32, bool)>)
        ensures
            r@ == marks(self.mic_items@, mic@) + marks(
                self.hotkey_items@,
                hotkey::preset_for(hotkey@),
            ) + marks(self.mode_items@, transcribe::mode_for(mode@)),
    {
        let mut out: Vec<(u32, bool)> = Vec::new();
        add_marks(&mut out, &self.mic_items, mic);
        add_marks(&mut out, &self.hotkey_items, hotkey::normalize(hotkey));
        add_marks(&mut out, &self.mode_items, transcribe::normalize_mode(mode));
        assert(out@ =~= marks(self.mic_items@, mic@) + marks(
            self.hotkey_items@,
            hotkey::preset_for(hotkey@),
        ) + marks(self.mode_items@, transcribe::mode_for(mode@)));
        out
    }
}

/// The command of the first entry with this id.
pub open spec fn lookup(table: Seq<(u32, CmdView)>, id: u32) -> Option<CmdView>
    decreases table.len(),
{
    if table.len() == 0 {
        None
    } else if table[0].0 == id {
        Some(table[0].1)
    } else {
        lookup(table.drop_first(), id)
    }
}

proof fn lemma_lookup(table: Seq<(u32, CmdView)>, id: u32, i: int)
    requires
        0 <= i <= table.len(),
        forall|k: int| 0 <= k < i ==> (#[trigger] table[k]).0 != id,
    ensures
        i < table.len() && table[i].0 == id ==> lookup(table, id) == Some(table[i].1),
        i == table.len() ==> lookup(table, id) is None,
    decreases i,
{
    if i > 0 {
        assert(table[0].0 != id);
        let t = table.drop_first();
        assert forall|k: int| 0 <= k < i - 1 implies (#[trigger] t[k]).0 != id by {
            assert(t[k] == table[k + 1]);
        }
        lemma_lookup(t, id, i - 1);
    }
}

/// The command that a menu event stands for, if its id is known.
pub fn find_command(table: &Vec<(u32, MenuCmd)>, id: u32) -> (r: Option<MenuCmd>)
    ensures
        match r {
            Some(cmd) => lookup(table_view(table@), id) == Some(cmd@),
            None => lookup(table_view(table@), id) is None,
        },
{
    let ghost tv = table_view(table@);
    let mut i: usize = 0;
    while i < table.len()
        invariant
            tv == table_view(table@),
            i <= table@.len(),
            forall|k: int| 0 <= k < i ==> (#[trigger] tv[k]).0 != id,
        decreases table@.len() - i,
    {
        assert(tv[i as int] == (table@[i as int].0, table@[i as int].1@));
        if table[i].0 == id {
            proof {
                lemma_lookup(tv, id, i as int);
            }
            return Some(table[i].1.clone());
        }
        i = i + 1;
    }
    proof {
        lemma_lookup(tv, id, i as int);
    }
    None
}

/// Where no two items share an id, every item of the menu leads to its own
/// command.
pub proof fn law_every_item_leads_to_its_command(menu: TrayMenu, i: int)
    requires
        0 <= i < menu.table().len(),
        forall|a: int, b: int|
            0 <= a < b < menu.table().len() ==> menu.table()[a].0 != menu.table()[b].0,
    ensures
        lookup(menu.table(), menu.table()[i].0) == Some(menu.table()[i].1),
{
    let t = menu.table();
    assert forall|k: int| 0 <= k < i implies (#[trigger] t[k]).0 != t[i].0 by {
        assert(menu.table()[k].0 != menu.table()[i].0);
    }
    lemma_lookup(t, t[i].0, i);
}

// ---------------------------------------------------------------------------
// What the tray promises
// ---------------------------------------------------------------------------
/// A command says what it holds, as it is.
pub proof fn law_command_says_what_it_holds(v: String)
    ensures
        MenuCmd::Mic(v)@ == CmdView::Mic(v@),
        MenuCmd::Hotkey(v)@ == CmdView::Hotkey(v@),
        MenuCmd::Mode(v)@ == CmdView::Mode(v@),
        MenuCmd::PasteKey@ == CmdView::PasteKey,
        MenuCmd::Quit@ == CmdView::Quit,
{
}

/// The icon is a disc around its middle: full inside, half clear at its edge and
/// empty outside, and it is the same left and right of the middle, and above and
/// below it.
pub proof fn law_icon_is_a_disc(r: u8, g: u8, b: u8, x: int, y: int)
    ensures
        ({
            let d2 = (x - 8) * (x - 8) + (y - 8) * (y - 8);
            &&& d2 <= 30 ==> icon_pixel(r, g, b, x, y) =~= seq![r, g, b, 255u8]
            &&& 30 < d2 <= 42 ==> icon_pixel(r, g, b, x, y) =~= seq![r, g, b, 120u8]
            &&& d2 > 42 ==> icon_pixel(r, g, b, x, y) =~= seq![0u8, 0u8, 0u8, 0u8]
        }),
        icon_pixel(r, g, b, 16 - x, y) == icon_pixel(r, g, b, x, y),
        icon_pixel(r, g, b, x, 16 - y) == icon_pixel(r, g, b, x, y),
        icon_pixel(r, g, b, y, x) == icon_pixel(r, g, b, x, y),
{
    assert((16 - x - 8) * (16 - x - 8) == (x - 8) * (x - 8)) by (nonlinear_arith);
    assert((16 - y - 8) * (16 - y - 8) == (y - 8) * (y - 8)) by (nonlinear_arith);
}

/// Each state has a colour of its own.
pub proof fn law_icon_tells_the_state(a: Mode, b: Mode)
    ensures
        icon_color(a) == icon_color(b) <==> a == b,
        icon_color(Mode::Idle) == (0x8Eu8, 0x8Eu8, 0x93u8),
        icon_color(Mode::Listening) == (0xFFu8, 0x45u8, 0x3Au8),
        icon_color(Mode::Transcribing) == (0x30u8, 0xD1u8, 0x58u8),
{
}

/// The tooltip tells the state and the preview behind it, up to 120 characters;
/// at rest it tells the hotkey.
pub proof fn law_tooltip_tells_the_preview(preview: Seq<char>)
    ensures
        tooltip_text(Mode::Idle, preview) == "Utterly — hold Ctrl+Space to dictate"@,
        ({
            let listening = "● Listening… "@ + preview;
            &&& tooltip_text(Mode::Listening, preview).is_prefix_of(listening)
            &&& listening.len() <= 120 ==> tooltip_text(Mode::Listening, preview) == listening
            &&& listening.len() > 120 ==> tooltip_text(Mode::Listening, preview).len() == 120
        }),
        ({
            let transcribing = "… Transcribing "@ + preview;
            &&& tooltip_text(Mode::Transcribing, preview).is_prefix_of(transcribing)
            &&& transcribing.len() <= 120 ==> tooltip_text(Mode::Transcribing, preview)
                == transcribing
            &&& transcribing.len() > 120 ==> tooltip_text(Mode::Transcribing, preview).len() == 120
        }),
{
    reveal_strlit("Utterly — hold Ctrl+Space to dictate");
}

/// The menu lists the system's microphone first and then every device, in order
/// and under its own name; the one in the settings is checked.
pub proof fn law_menu_lists_every_device(devices: Seq<Seq<char>>, mic: Seq<char>, i: int)
    ensures
        ({
            let items = mic_entries(devices, mic);
            &&& items.len() == devices.len() + 1
            &&& items[0].value.len() == 0
            &&& items[0].label == "System default"@
            &&& items[0].checked <==> mic.len() == 0
            &&& 0 <= i < devices.len() ==> {
                &&& items[i + 1].value == devices[i]
                &&& items[i + 1].label == devices[i]
                &&& items[i + 1].checked <==> devices[i] == mic
            }
        }),
{
}

/// The menu lists the three presets and the two modes, and checks the ones that
/// the settings mean.
pub proof fn law_menu_checks_what_is_set(current_hotkey: Seq<char>, mode: Seq<char>)
    ensures
        ({
            let items = hotkey_entries(current_hotkey);
            &&& items.len() == 3
            &&& items[0].value == "Ctrl+Space"@ && items[1].value == "Alt+Space"@ && items[2].value
                == "Ctrl+Shift+Space"@
            &&& forall|i: int|
                0 <= i < 3 ==> (#[trigger] items[i]).label == items[i].value && (items[i].checked
                    <==> items[i].value == hotkey::preset_for(current_hotkey))
        }),
        ({
            let items = mode_entries(mode);
            &&& items.len() == 2
            &&& items[0].value == "smart"@ && items[0].label == "Smart (clean ums/ahs)"@
            &&& items[1].value == "verbatim"@ && items[1].label == "Verbatim (exact words)"@
            &&& items[0].checked <==> transcribe::mode_for(mode) == "smart"@
            &&& items[1].checked <==> transcribe::mode_for(mode) == "verbatim"@
        }),
{
}

impl TrayMenu {
    /// Every item of the menu stands in the table with its id and what it is
    /// for: choosing a microphone, a preset or a mode by its value, pasting a
    /// key, or quitting.
    pub proof fn law_table_lists_every_item(self, i: int)
        ensures
            0 <= i < self.mic_items@.len() ==> self.table().contains(
                (self.mic_items@[i].1, CmdView::Mic(self.mic_items@[i].0@)),
            ),
            0 <= i < self.hotkey_items@.len() ==> self.table().contains(
                (self.hotkey_items@[i].1, CmdView::Hotkey(self.hotkey_items@[i].0@)),
            ),
            0 <= i < self.mode_items@.len() ==> self.table().contains(
                (self.mode_items@[i].1, CmdView::Mode(self.mode_items@[i].0@)),
            ),
            self.paste_key matches Some(id) ==> self.table().contains((id, CmdView::PasteKey)),
            self.quit matches Some(id) ==> self.table().contains((id, CmdView::Quit)),
            self.table().len() == self.mic_items@.len() + self.hotkey_items@.len()
                + self.mode_items@.len() + (if self.paste_key is Some {
                1int
            } else {
                0
            }) + (if self.quit is Some {
                1int
            } else {
                0
            }),
    {
        let t = self.table();
        let m = self.mic_items@.len() as int;
        let h = self.hotkey_items@.len() as int;
        let d = self.mode_items@.len() as int;
        if 0 <= i < m {
            assert(t[i] == (self.mic_items@[i].1, CmdView::Mic(self.mic_items@[i].0@)));
        }
        if 0 <= i < h {
            assert(t[m + i] == (
                self.hotkey_items@[i].1,
                CmdView::Hotkey(self.hotkey_items@[i].0@),
            ));
        }
        if 0 <= i < d {
            assert(t[m + h + i] == (self.mode_items@[i].1, CmdView::Mode(self.mode_items@[i].0@)));
        }
        if let Some(id) = self.paste_key {
            assert(t[m + h + d] == (id, CmdView::PasteKey));
        }
        if let Some(id) = self.quit {
            assert(t[t.len() - 1] == (id, CmdView::Quit));
        }
    }
}

/// An item is marked exactly where it stands for what is set, and every item has
/// its mark, in order.
pub proof fn law_marks_show_what_is_set(items: Seq<(String, u32)>, current: Seq<char>, i: int)
    requires
        0 <= i < items.len(),
    ensures
        marks(items, current).len() == items.len(),
        marks(items, current)[i].0 == items[i].1,
        marks(items, current)[i].1 <==> items[i].0@ == current,
{
}

/// An id that is in no entry means no command, and a command is never made up:
/// it stands in the table with that id.
pub proof fn law_only_listed_ids_mean_something(table: Seq<(u32, CmdView)>, id: u32)
    ensures
        (forall|i: int| 0 <= i < table.len() ==> (#[trigger] table[i]).0 != id) ==> lookup(
            table,
            id,
        ) is None,
        lookup(table, id) matches Some(cmd) ==> table.contains((id, cmd)),
    decreases table.len(),
{
    if table.len() > 0 {
        let rest = table.drop_first();
        law_only_listed_ids_mean_something(rest, id);
        if table[0].0 == id {
            assert(table[0] == (id, table[0].1));
        } else {
            if let Some(cmd) = lookup(rest, id) {
                let i = choose|i: int| 0 <= i < rest.len() && rest[i] == (id, cmd);
                assert(table[i + 1] == (id, cmd));
            }
            if forall|i: int| 0 <= i < table.len() ==> (#[trigger] table[i]).0 != id {
                assert forall|i: int| 0 <= i < rest.len() implies (#[trigger] rest[i]).0 != id by {
                    assert(rest[i] == table[i + 1]);
                }
            }
        }
    }
}

/// An item says what its fields hold, and a menu and an id table what their
/// items do, in order.
pub proof fn law_items_say_what_they_hold(
    e: MenuEntry,
    items: Seq<MenuEntry>,
    table: Seq<(u32, MenuCmd)>,
    i: int,
)
    ensures
        e@.value == e.value@,
        e@.label == e.label@,
        e@.checked == e.checked,
        entry_views(items).len() == items.len(),
        0 <= i < items.len() ==> entry_views(items)[i] == items[i]@,
        table_view(table).len() == table.len(),
        0 <= i < table.len() ==> table_view(table)[i] == (table[i].0, table[i].1@),
{
}

/// The first entry with an id is the one that counts.
pub proof fn law_first_entry_counts(rest: Seq<(u32, CmdView)>, first: (u32, CmdView), id: u32)
    ensures
        first.0 == id ==> lookup(seq![first] + rest, id) == Some(first.1),
        first.0 != id ==> lookup(seq![first] + rest, id) == lookup(rest, id),
{
    let table = seq![first] + rest;
    assert(table.drop_first() =~= rest);
    assert(table[0] == first);
}

} // verus!
