//! Key binding tables and prefix mode handling.
//!
//! Key codes follow tmux: a code is a base key (an ASCII character or one of
//! the special keys below `KEYC_MASK_KEY`) with modifier bits above it. Named
//! key tables ("prefix", "root", "copy-mode-vi", "copy-mode-emacs") map codes to
//! command argument vectors.

use vstd::prelude::*;
use std::time::{Duration, Instant};
use crate::assoc::{
    assoc_get, assoc_has, assoc_index, assoc_insert, assoc_remove, keys_unique, lemma_assoc_get,
    lemma_assoc_insert, lemma_assoc_remove,
};
use crate::client::instant_now;
use crate::text::{
    lines_sorted, sort_strings,
    chars_eq, chars_less, chars_skip, decimal, hex, join, join_strings, parse_unsigned,
    parse_unsigned_chars, push_all, seq_less, str_chars, strings_view, to_owned_string,
    u64_to_hex, u64_to_string, string_from_chars, lemma_seq_less_total, digits_value, digit_char, is_digit, digit_value,
    unsigned_digits,
};

verus! {

/// A key code: base key in the low bits, modifier flags above.
pub type KeyCode = u64;

/// The bits that hold the base key.
pub const KEYC_MASK_KEY: u64 = 0xfff_ffff_ffff;
/// Meta (Alt) modifier.
pub const KEYC_META: u64 = 0x1000_0000_0000;
/// Control modifier.
pub const KEYC_CTRL: u64 = 0x2000_0000_0000;
/// Shift modifier.
pub const KEYC_SHIFT: u64 = 0x4000_0000_0000;
/// The bits that hold the modifiers.
pub const KEYC_MASK_MODIFIERS: u64 = 0x7000_0000_0000;

/// First code of the special (non-character) keys.
pub const KEYC_BASE: u64 = 0x10e000;
pub const KEYC_F1: u64 = 0x10e001;
pub const KEYC_F12: u64 = 0x10e00c;
pub const KEYC_UP: u64 = 0x10e020;
pub const KEYC_DOWN: u64 = 0x10e021;
pub const KEYC_LEFT: u64 = 0x10e022;
pub const KEYC_RIGHT: u64 = 0x10e023;
pub const KEYC_HOME: u64 = 0x10e024;
pub const KEYC_END: u64 = 0x10e025;
pub const KEYC_INSERT: u64 = 0x10e026;
pub const KEYC_DELETE: u64 = 0x10e027;
pub const KEYC_PPAGE: u64 = 0x10e028;
pub const KEYC_NPAGE: u64 = 0x10e029;
/// Keys that are plain control characters.
pub const KEYC_BACKSPACE: u64 = 0x7f;
pub const KEYC_TAB: u64 = 0x09;
pub const KEYC_RETURN: u64 = 0x0d;
pub const KEYC_ESCAPE: u64 = 0x1b;
pub const KEYC_SPACE: u64 = 0x20;

/// A set of key modifiers, as bits of `KEYC_MASK_MODIFIERS`.
#[derive(Debug, Clone, Copy, PartialEq, Eq, Structural)]
pub struct KeyModifiers {
    pub bits: u64,
}

impl KeyModifiers {
    /// No modifier.
    pub fn empty() -> (m: KeyModifiers)
        ensures
            m.bits == 0,
    {
        KeyModifiers { bits: 0 }
    }

    /// The Control modifier.
    pub fn ctrl() -> (m: KeyModifiers)
        ensures
            m.bits == KEYC_CTRL,
    {
        KeyModifiers { bits: KEYC_CTRL }
    }

    /// The Meta modifier.
    pub fn meta() -> (m: KeyModifiers)
        ensures
            m.bits == KEYC_META,
    {
        KeyModifiers { bits: KEYC_META }
    }

    /// The Shift modifier.
    pub fn shift() -> (m: KeyModifiers)
        ensures
            m.bits == KEYC_SHIFT,
    {
        KeyModifiers { bits: KEYC_SHIFT }
    }

    /// Whether no modifier is set.
    pub fn is_empty(&self) -> (r: bool)
        ensures
            r == (self.bits == 0),
    {
        self.bits == 0
    }

    /// Whether every modifier of `other` is set here.
    pub fn contains(&self, other: KeyModifiers) -> (r: bool)
        ensures
            r == (self.bits & other.bits == other.bits),
    {
        self.bits & other.bits == other.bits
    }
}

/// The code of `key` with the modifiers `mods` added.
pub open spec fn keyc_build_spec(key: u64, mods: u64) -> u64 {
    key | mods
}

/// Adds modifiers to a key.
pub fn keyc_build(key: KeyCode, mods: KeyModifiers) -> (r: KeyCode)
    ensures
        r == keyc_build_spec(key, mods.bits),
{
    key | mods.bits
}

/// The base key of a code, without modifiers.
pub open spec fn keyc_base_spec(key: u64) -> u64 {
    key & KEYC_MASK_KEY
}

/// The base key of a code, without modifiers.
pub fn keyc_base(key: KeyCode) -> (r: KeyCode)
    ensures
        r == keyc_base_spec(key),
{
    key & KEYC_MASK_KEY
}

/// The modifiers of a code.
pub fn keyc_modifiers(key: KeyCode) -> (r: KeyModifiers)
    ensures
        r.bits == key & KEYC_MASK_MODIFIERS,
{
    KeyModifiers { bits: key & KEYC_MASK_MODIFIERS }
}

/// The special key named `s` (a name without modifier prefix), as `bind-key`
/// accepts it, if `s` names one.
pub open spec fn named_key(s: Seq<char>) -> Option<u64> {
    if s == "Up"@ { Some(KEYC_UP) }
    else if s == "Down"@ { Some(KEYC_DOWN) }
    else if s == "Left"@ { Some(KEYC_LEFT) }
    else if s == "Right"@ { Some(KEYC_RIGHT) }
    else if s == "Home"@ { Some(KEYC_HOME) }
    else if s == "End"@ { Some(KEYC_END) }
    else if s == "IC"@ || s == "Insert"@ { Some(KEYC_INSERT) }
    else if s == "DC"@ || s == "Delete"@ { Some(KEYC_DELETE) }
    else if s == "PPage"@ || s == "PageUp"@ { Some(KEYC_PPAGE) }
    else if s == "NPage"@ || s == "PageDown"@ { Some(KEYC_NPAGE) }
    else if s == "BSpace"@ { Some(KEYC_BACKSPACE) }
    else if s == "Tab"@ { Some(KEYC_TAB) }
    else if s == "Enter"@ || s == "CR"@ { Some(KEYC_RETURN) }
    else if s == "Escape"@ || s == "Esc"@ { Some(KEYC_ESCAPE) }
    else if s == "Space"@ { Some(KEYC_SPACE) }
    else { None }
}

/// The base key a name without modifier prefix denotes: a special key name,
/// `F1`..`F12`, or a single ASCII character.
pub open spec fn base_key_of_name(s: Seq<char>) -> Option<u64> {
    if named_key(s) is Some {
        named_key(s)
    } else if s.len() > 1 && s[0] == 'F' {
        match parse_unsigned(s.drop_first(), u64::MAX as int) {
            Some(n) => if 1 <= n <= 12 { Some((KEYC_F1 + n - 1) as u64) } else { None },
            None => None,
        }
    } else if s.len() == 1 && (s[0] as u32) < 128 {
        Some(s[0] as u64)
    } else {
        None
    }
}

/// The key code written as `name`: an optional `C-`, `M-` or `S-` prefix, then
/// a base key name.
pub open spec fn key_of_name(name: Seq<char>) -> Option<u64> {
    let (mods, base) = if name.len() >= 2 && name[0] == 'C' && name[1] == '-' {
        (KEYC_CTRL, name.drop_first().drop_first())
    } else if name.len() >= 2 && name[0] == 'M' && name[1] == '-' {
        (KEYC_META, name.drop_first().drop_first())
    } else if name.len() >= 2 && name[0] == 'S' && name[1] == '-' {
        (KEYC_SHIFT, name.drop_first().drop_first())
    } else {
        (0u64, name)
    };
    match base_key_of_name(base) {
        Some(b) => if mods == 0 { Some(b) } else { Some(keyc_build_spec(b, mods)) },
        None => None,
    }
}

/// Whether `s` holds the characters of the literal `lit`.
fn is_name(s: &[char], lit: &str) -> (r: bool)
    ensures
        r == (s@ == lit@),
{
    let l = str_chars(lit);
    chars_eq(s, l.as_slice())
}

/// The special key named `s`, if any.
fn lookup_named_key(s: &[char]) -> (r: Option<KeyCode>)
    ensures
        r == named_key(s@),
{
    if is_name(s, "Up") { Some(KEYC_UP) }
    else if is_name(s, "Down") { Some(KEYC_DOWN) }
    else if is_name(s, "Left") { Some(KEYC_LEFT) }
    else if is_name(s, "Right") { Some(KEYC_RIGHT) }
    else if is_name(s, "Home") { Some(KEYC_HOME) }
    else if is_name(s, "End") { Some(KEYC_END) }
    else if is_name(s, "IC") || is_name(s, "Insert") { Some(KEYC_INSERT) }
    else if is_name(s, "DC") || is_name(s, "Delete") { Some(KEYC_DELETE) }
    else if is_name(s, "PPage") || is_name(s, "PageUp") { Some(KEYC_PPAGE) }
    else if is_name(s, "NPage") || is_name(s, "PageDown") { Some(KEYC_NPAGE) }
    else if is_name(s, "BSpace") { Some(KEYC_BACKSPACE) }
    else if is_name(s, "Tab") { Some(KEYC_TAB) }
    else if is_name(s, "Enter") || is_name(s, "CR") { Some(KEYC_RETURN) }
    else if is_name(s, "Escape") || is_name(s, "Esc") { Some(KEYC_ESCAPE) }
    else if is_name(s, "Space") { Some(KEYC_SPACE) }
    else { None }
}

/// Convert a key name string to a KeyCode.
///
/// This is the reverse of `key_to_string`. Used by bind-key/unbind-key.
pub fn string_to_key(name: &str) -> (r: Option<KeyCode>)
    ensures
        r == key_of_name(name@),
{
    let cs = str_chars(name);
    let (mods, base): (u64, Vec<char>) = if cs.len() >= 2 && cs[0] == 'C' && cs[1] == '-' {
        (KEYC_CTRL, chars_skip(cs.as_slice(), 2))
    } else if cs.len() >= 2 && cs[0] == 'M' && cs[1] == '-' {
        (KEYC_META, chars_skip(cs.as_slice(), 2))
    } else if cs.len() >= 2 && cs[0] == 'S' && cs[1] == '-' {
        (KEYC_SHIFT, chars_skip(cs.as_slice(), 2))
    } else {
        (0, cs)
    };
    proof {
        if name@.len() >= 2 && (name@[0] == 'C' || name@[0] == 'M' || name@[0] == 'S') && name@[1] == '-' {
            assert(base@ =~= name@.drop_first().drop_first());
        }
    }
    let b: u64 = match lookup_named_key(base.as_slice()) {
        Some(k) => k,
        None => {
            if base.len() > 1 && base[0] == 'F' {
                let digits = chars_skip(base.as_slice(), 1);
                assert(digits@ =~= base@.drop_first());
                match parse_unsigned_chars(digits.as_slice(), u64::MAX) {
                    Some(n) => {
                        if 1 <= n && n <= 12 {
                            KEYC_F1 + n - 1
                        } else {
                            return None;
                        }
                    },
                    None => {
                        return None;
                    },
                }
            } else if base.len() == 1 && (base[0] as u32) < 128 {
                base[0] as u64
            } else {
                return None;
            }
        },
    };
    if mods == 0 {
        Some(b)
    } else {
        Some(b | mods)
    }
}

/// The `C-`, `M-`, `S-` prefix that names the modifiers in `mods`.
pub open spec fn modifier_prefix(mods: u64) -> Seq<char> {
    (if mods & KEYC_CTRL == KEYC_CTRL { "C-"@ } else { Seq::empty() })
        + (if mods & KEYC_META == KEYC_META { "M-"@ } else { Seq::empty() })
        + (if mods & KEYC_SHIFT == KEYC_SHIFT { "S-"@ } else { Seq::empty() })
}

/// Whether `c` is a printable ASCII character other than space.
pub open spec fn ascii_graphic(c: u64) -> bool {
    0x21 <= c <= 0x7e
}

/// The name of a base key.
pub open spec fn base_key_name(b: u64) -> Seq<char> {
    if b == KEYC_UP { "Up"@ }
    else if b == KEYC_DOWN { "Down"@ }
    else if b == KEYC_LEFT { "Left"@ }
    else if b == KEYC_RIGHT { "Right"@ }
    else if b == KEYC_HOME { "Home"@ }
    else if b == KEYC_END { "End"@ }
    else if b == KEYC_INSERT { "IC"@ }
    else if b == KEYC_PPAGE { "PPage"@ }
    else if b == KEYC_NPAGE { "NPage"@ }
    else if b == KEYC_BACKSPACE { "BSpace"@ }
    else if b == KEYC_TAB { "Tab"@ }
    else if b == KEYC_RETURN { "Enter"@ }
    else if b == KEYC_ESCAPE { "Escape"@ }
    else if b == KEYC_SPACE { "Space"@ }
    else if b == KEYC_DELETE { "DC"@ }
    else if KEYC_F1 <= b <= KEYC_F12 { seq!['F'] + decimal((b - KEYC_F1 + 1) as nat) }
    else if b < 128 {
        if ascii_graphic(b) || b == 0x20 {
            seq![b as char]
        } else if b < 16 {
            seq!['0', 'x', '0'] + hex(b as nat)
        } else {
            seq!['0', 'x'] + hex(b as nat)
        }
    } else {
        seq!['0', 'x'] + hex(b as nat)
    }
}

/// The human-readable name of a key code: modifier prefix, then base key name.
pub open spec fn key_name(key: u64) -> Seq<char> {
    modifier_prefix(key & KEYC_MASK_MODIFIERS) + base_key_name(key & KEYC_MASK_KEY)
}

/// The name of a base key.
fn base_name_string(b: u64) -> (r: String)
    ensures
        r@ == base_key_name(b),
{
    if b == KEYC_UP { to_owned_string("Up") }
    else if b == KEYC_DOWN { to_owned_string("Down") }
    else if b == KEYC_LEFT { to_owned_string("Left") }
    else if b == KEYC_RIGHT { to_owned_string("Right") }
    else if b == KEYC_HOME { to_owned_string("Home") }
    else if b == KEYC_END { to_owned_string("End") }
    else if b == KEYC_INSERT { to_owned_string("IC") }
    else if b == KEYC_PPAGE { to_owned_string("PPage") }
    else if b == KEYC_NPAGE { to_owned_string("NPage") }
    else if b == KEYC_BACKSPACE { to_owned_string("BSpace") }
    else if b == KEYC_TAB { to_owned_string("Tab") }
    else if b == KEYC_RETURN { to_owned_string("Enter") }
    else if b == KEYC_ESCAPE { to_owned_string("Escape") }
    else if b == KEYC_SPACE { to_owned_string("Space") }
    else if b == KEYC_DELETE { to_owned_string("DC") }
    else if KEYC_F1 <= b && b <= KEYC_F12 {
        let n = u64_to_string(b - KEYC_F1 + 1);
        let mut out = string_from_chars(&['F']);
        push_all(&mut out, n.as_str());
        out
    } else if b < 128 {
        if (0x21 <= b && b <= 0x7e) || b == 0x20 {
            let c: char = (b as u8) as char;
            string_from_chars(&[c])
        } else {
            let h = u64_to_hex(b);
            let mut out = if b < 16 { string_from_chars(&['0', 'x', '0']) } else { string_from_chars(&['0', 'x']) };
            push_all(&mut out, h.as_str());
            out
        }
    } else {
        let h = u64_to_hex(b);
        let mut out = string_from_chars(&['0', 'x']);
        push_all(&mut out, h.as_str());
        out
    }
}

/// Convert a key code to a human-readable string.
pub fn key_to_string(key: KeyCode) -> (r: String)
    ensures
        r@ == key_name(key),
{
    let base = keyc_base(key);
    let mods = keyc_modifiers(key);
    let mut pfx = String::new();
    if mods.contains(KeyModifiers::ctrl()) {
        push_all(&mut pfx, "C-");
    }
    if mods.contains(KeyModifiers::meta()) {
        push_all(&mut pfx, "M-");
    }
    if mods.contains(KeyModifiers::shift()) {
        push_all(&mut pfx, "S-");
    }
    let name = base_name_string(base);
    push_all(&mut pfx, name.as_str());
    pfx
}


// ---------------------------------------------------------------------------
// Binding tables
// ---------------------------------------------------------------------------

/// The abstract value of a binding: its argument vector and whether it repeats.
pub type BindingView = (Seq<Seq<char>>, bool);

/// The abstract value of one table: `(key, binding)` pairs with unique keys.
pub type EntriesView = Seq<(u64, BindingView)>;

/// The abstract value of all tables: `(table name, entries)` pairs with unique names.
pub type TablesView = Seq<(Seq<char>, EntriesView)>;

/// Action to take for a key binding.
#[derive(Debug)]
pub enum KeyAction {
    /// Send raw bytes to the active pane's PTY.
    SendToPane(Vec<u8>),
    /// Execute a command.
    Command(Vec<String>),
}

/// The abstract value of a `KeyAction`.
pub enum ActionView {
    SendToPane(Seq<u8>),
    Command(Seq<Seq<char>>),
}

impl KeyAction {
    pub open spec fn view(&self) -> ActionView {
        match self {
            KeyAction::SendToPane(b) => ActionView::SendToPane(b@),
            KeyAction::Command(a) => ActionView::Command(strings_view(a@)),
        }
    }
}

/// A single key binding entry.
#[derive(Debug, Clone)]
pub struct KeyBinding {
    /// The command argv to execute.
    pub argv: Vec<String>,
    /// Whether this binding is repeatable (-r flag).
    pub repeatable: bool,
}

impl View for KeyBinding {
    type V = BindingView;

    open spec fn view(&self) -> BindingView {
        (strings_view(self.argv@), self.repeatable)
    }
}

impl KeyBinding {
    /// A copy of this binding.
    pub fn duplicate(&self) -> (r: KeyBinding)
        ensures
            r@ == self@,
    {
        KeyBinding { argv: crate::text::clone_strings(&self.argv), repeatable: self.repeatable }
    }
}

/// One named table.
struct KeyTable {
    name: String,
    entries: Vec<(KeyCode, KeyBinding)>,
}

/// The abstract value of a table's entries.
pub open spec fn entries_view(s: Seq<(u64, KeyBinding)>) -> EntriesView {
    s.map_values(|e: (u64, KeyBinding)| (e.0, e.1@))
}

spec fn table_view(t: KeyTable) -> (Seq<char>, EntriesView) {
    (t.name@, entries_view(t.entries@))
}

spec fn tables_view(s: Seq<KeyTable>) -> TablesView {
    s.map_values(|t: KeyTable| table_view(t))
}

/// Table names are unique, and so are the keys of each table.
pub open spec fn tables_wf(ts: TablesView) -> bool {
    &&& keys_unique(ts)
    &&& forall|i: int| 0 <= i < ts.len() ==> keys_unique(#[trigger] ts[i].1)
}

/// The entries of table `name`, empty when there is no such table.
pub open spec fn table_entries(ts: TablesView, name: Seq<char>) -> EntriesView {
    match assoc_get(ts, name) {
        Some(es) => es,
        None => Seq::empty(),
    }
}

/// The tables with `key` bound to `b` in table `name` (created if missing).
pub open spec fn tables_insert(ts: TablesView, name: Seq<char>, key: u64, b: BindingView) -> TablesView {
    assoc_insert(ts, name, assoc_insert(table_entries(ts, name), key, b))
}

/// The tables with `key` unbound in table `name`; a missing table stays missing.
pub open spec fn tables_remove(ts: TablesView, name: Seq<char>, key: u64) -> TablesView {
    if assoc_get(ts, name) is Some {
        assoc_insert(ts, name, assoc_remove(table_entries(ts, name), key))
    } else {
        ts
    }
}

/// The binding of exactly `key` in table `name`.
pub open spec fn binding_of(ts: TablesView, name: Seq<char>, key: u64) -> Option<BindingView> {
    match assoc_get(ts, name) {
        Some(es) => assoc_get(es, key),
        None => None,
    }
}

/// The binding used for `key` in table `name`: that of the exact key, else
/// that of its base key without modifiers.
pub open spec fn lookup_spec(ts: TablesView, name: Seq<char>, key: u64) -> Option<BindingView> {
    match assoc_get(ts, name) {
        Some(es) => if assoc_get(es, key) is Some {
            assoc_get(es, key)
        } else {
            assoc_get(es, keyc_base_spec(key))
        },
        None => None,
    }
}

/// Adding a binding in a well-formed table set keeps it well formed, binds
/// the key, and changes no other binding.
pub proof fn lemma_tables_insert(ts: TablesView, name: Seq<char>, key: u64, b: BindingView)
    requires
        tables_wf(ts),
    ensures
        tables_wf(tables_insert(ts, name, key, b)),
        binding_of(tables_insert(ts, name, key, b), name, key) == Some(b),
        forall|n: Seq<char>, k: u64| !(n == name && k == key) ==>
            #[trigger] binding_of(tables_insert(ts, name, key, b), n, k) == binding_of(ts, n, k),
{
    let es = table_entries(ts, name);
    lemma_assoc_get(ts, name);
    assert(keys_unique(es)) by {
        if assoc_has(ts, name) {
            assert(keys_unique(ts[assoc_index(ts, name)].1));
        }
    }
    lemma_assoc_insert(es, key, b);
    let es2 = assoc_insert(es, key, b);
    lemma_assoc_insert(ts, name, es2);
    let t2 = tables_insert(ts, name, key, b);
    assert forall|i: int| 0 <= i < t2.len() implies keys_unique(#[trigger] t2[i].1) by {
        if assoc_has(ts, name) {
            if i != assoc_index(ts, name) {
                assert(t2[i] == ts[i]);
            }
        } else if i < ts.len() {
            assert(t2[i] == ts[i]);
        }
    }
}

/// Removing a binding from a well-formed table set keeps it well formed,
/// unbinds the key, and changes no other binding.
pub proof fn lemma_tables_remove(ts: TablesView, name: Seq<char>, key: u64)
    requires
        tables_wf(ts),
    ensures
        tables_wf(tables_remove(ts, name, key)),
        binding_of(tables_remove(ts, name, key), name, key) is None,
        forall|n: Seq<char>, k: u64| !(n == name && k == key) ==>
            #[trigger] binding_of(tables_remove(ts, name, key), n, k) == binding_of(ts, n, k),
{
    lemma_assoc_get(ts, name);
    if assoc_get(ts, name) is Some {
        let es = table_entries(ts, name);
        assert(keys_unique(es)) by {
            assert(keys_unique(ts[assoc_index(ts, name)].1));
        }
        lemma_assoc_remove(es, key);
        let es2 = assoc_remove(es, key);
        lemma_assoc_insert(ts, name, es2);
        let t2 = tables_remove(ts, name, key);
        assert forall|i: int| 0 <= i < t2.len() implies keys_unique(#[trigger] t2[i].1) by {
            if i != assoc_index(ts, name) {
                assert(t2[i] == ts[i]);
            }
        }
    }
}

/// The abstract state of the key binding system.
pub struct KeyBindingsView {
    /// The prefix key.
    pub prefix: u64,
    /// Whether a key after the prefix is awaited.
    pub in_prefix: bool,
    /// Whether prefix mode has a repeat deadline.
    pub has_expiry: bool,
    /// The binding tables.
    pub tables: TablesView,
}

/// When prefix mode's repeat time runs out.
enum RepeatDeadline {
    /// At this instant.
    At(Instant),
    /// Later than any instant the clock can represent: never reached.
    Beyond,
}

/// Key binding tables and prefix mode state.
pub struct KeyBindings {
    /// Prefix key (default: Ctrl-b).
    prefix: KeyCode,
    /// Whether we're waiting for a key after the prefix.
    in_prefix: bool,
    /// Instant when prefix mode should expire (for repeat-time).
    prefix_expiry: Option<RepeatDeadline>,
    /// Named key tables.
    tables: Vec<KeyTable>,
}

impl View for KeyBindings {
    type V = KeyBindingsView;

    closed spec fn view(&self) -> KeyBindingsView {
        KeyBindingsView {
            prefix: self.prefix,
            in_prefix: self.in_prefix,
            has_expiry: self.prefix_expiry is Some,
            tables: tables_view(self.tables@),
        }
    }
}

/// The position of the pair with key `key`, if any.
fn find_entry(es: &Vec<(KeyCode, KeyBinding)>, key: KeyCode) -> (r: Option<usize>)
    ensures
        r matches Some(i) ==> i < es@.len() && es@[i as int].0 == key,
        r is None ==> !assoc_has(entries_view(es@), key),
{
    let mut i: usize = 0;
    while i < es.len()
        invariant
            i <= es@.len(),
            forall|j: int| 0 <= j < i ==> es@[j].0 != key,
        decreases es@.len() - i,
    {
        if es[i].0 == key {
            return Some(i);
        }
        i = i + 1;
    }
    proof {
        if assoc_has(entries_view(es@), key) {
            let j = choose|j: int| 0 <= j < entries_view(es@).len() && #[trigger] entries_view(es@)[j].0 == key;
            assert(entries_view(es@)[j].0 == es@[j].0);
        }
    }
    None
}

/// The position of the table named `name`, if any.
fn find_table(ts: &Vec<KeyTable>, name: &str) -> (r: Option<usize>)
    ensures
        r matches Some(i) ==> i < ts@.len() && tables_view(ts@)[i as int].0 == name@,
        r is None ==> !assoc_has(tables_view(ts@), name@),
{
    let mut i: usize = 0;
    while i < ts.len()
        invariant
            i <= ts@.len(),
            forall|j: int| 0 <= j < i ==> #[trigger] tables_view(ts@)[j].0 != name@,
        decreases ts@.len() - i,
    {
        if crate::text::str_eq(ts[i].name.as_str(), name) {
            return Some(i);
        }
        i = i + 1;
    }
    None
}

/// Binds `key` to `b` in a table's entries.
fn put_entry(es: &mut Vec<(KeyCode, KeyBinding)>, key: KeyCode, b: KeyBinding)
    requires
        keys_unique(entries_view(old(es)@)),
    ensures
        entries_view(final(es)@) == assoc_insert(entries_view(old(es)@), key, b@),
        keys_unique(entries_view(final(es)@)),
{
    let ghost old_v = entries_view(es@);
    let ghost bv = b@;
    proof {
        lemma_assoc_insert(old_v, key, bv);
    }
    match find_entry(es, key) {
        Some(i) => {
            proof {
                assert(old_v[i as int].0 == key);
                let c = assoc_index(old_v, key);
                assert(old_v[c].0 == key);
                if c != i as int {
                    if c < i { assert(old_v[c].0 != old_v[i as int].0); } else { assert(old_v[i as int].0 != old_v[c].0); }
                }
            }
            es.set(i, (key, b));
            assert(entries_view(es@) =~= old_v.update(i as int, (key, bv)));
        },
        None => {
            es.push((key, b));
            assert(entries_view(es@) =~= old_v.push((key, bv)));
        },
    }
}

/// Unbinds `key` in a table's entries; whether it was bound.
fn remove_entry(es: &mut Vec<(KeyCode, KeyBinding)>, key: KeyCode) -> (r: bool)
    requires
        keys_unique(entries_view(old(es)@)),
    ensures
        r == assoc_has(entries_view(old(es)@), key),
        entries_view(final(es)@) == assoc_remove(entries_view(old(es)@), key),
{
    let ghost old_v = entries_view(es@);
    match find_entry(es, key) {
        Some(i) => {
            proof {
                assert(old_v[i as int].0 == key);
                let c = assoc_index(old_v, key);
                assert(old_v[c].0 == key);
                if c != i as int {
                    if c < i { assert(old_v[c].0 != old_v[i as int].0); } else { assert(old_v[i as int].0 != old_v[c].0); }
                }
            }
            es.remove(i);
            assert(entries_view(es@) =~= old_v.remove(i as int));
            true
        },
        None => false,
    }
}

/// An argument vector of one word.
fn args1(a: &str) -> (r: Vec<String>)
    ensures
        strings_view(r@) == seq![a@],
{
    let mut v: Vec<String> = Vec::new();
    v.push(to_owned_string(a));
    assert(strings_view(v@) =~= seq![a@]);
    v
}

/// An argument vector of two words.
fn args2(a: &str, b: &str) -> (r: Vec<String>)
    ensures
        strings_view(r@) == seq![a@, b@],
{
    let mut v: Vec<String> = Vec::new();
    v.push(to_owned_string(a));
    v.push(to_owned_string(b));
    assert(strings_view(v@) =~= seq![a@, b@]);
    v
}

/// An argument vector of three words.
fn args3(a: &str, b: &str, c: &str) -> (r: Vec<String>)
    ensures
        strings_view(r@) == seq![a@, b@, c@],
{
    let mut v: Vec<String> = Vec::new();
    v.push(to_owned_string(a));
    v.push(to_owned_string(b));
    v.push(to_owned_string(c));
    assert(strings_view(v@) =~= seq![a@, b@, c@]);
    v
}

/// An argument vector of four words.
fn args4(a: &str, b: &str, c: &str, d: &str) -> (r: Vec<String>)
    ensures
        strings_view(r@) == seq![a@, b@, c@, d@],
{
    let mut v: Vec<String> = Vec::new();
    v.push(to_owned_string(a));
    v.push(to_owned_string(b));
    v.push(to_owned_string(c));
    v.push(to_owned_string(d));
    assert(strings_view(v@) =~= seq![a@, b@, c@, d@]);
    v
}

/// Binds `key` to the non-repeatable command `argv`.
fn bind(es: &mut Vec<(KeyCode, KeyBinding)>, key: KeyCode, argv: Vec<String>)
    requires
        keys_unique(entries_view(old(es)@)),
    ensures
        entries_view(final(es)@) == assoc_insert(entries_view(old(es)@), key, (strings_view(argv@), false)),
        keys_unique(entries_view(final(es)@)),
{
    put_entry(es, key, KeyBinding { argv, repeatable: false });
}

/// Binds `key` to the repeatable command `argv` (`bind-key -r`).
fn bind_r(es: &mut Vec<(KeyCode, KeyBinding)>, key: KeyCode, argv: Vec<String>)
    requires
        keys_unique(entries_view(old(es)@)),
    ensures
        entries_view(final(es)@) == assoc_insert(entries_view(old(es)@), key, (strings_view(argv@), true)),
        keys_unique(entries_view(final(es)@)),
{
    put_entry(es, key, KeyBinding { argv, repeatable: true });
}

/// `es` with `key` bound to the non-repeatable command `argv`.
pub open spec fn ins(es: EntriesView, key: u64, argv: Seq<Seq<char>>) -> EntriesView {
    assoc_insert(es, key, (argv, false))
}

/// `es` with `key` bound to the repeatable command `argv`.
pub open spec fn ins_r(es: EntriesView, key: u64, argv: Seq<Seq<char>>) -> EntriesView {
    assoc_insert(es, key, (argv, true))
}


// ---------------------------------------------------------------------------
// Default tables
// ---------------------------------------------------------------------------

/// Prefix bindings for detaching, windows, splits and pane selection.
pub open spec fn prefix_windows_panes(es: EntriesView) -> EntriesView {
    let t = ins(es, 'd' as u64, seq!["detach-client"@]);
    let t = ins(t, 'c' as u64, seq!["new-window"@]);
    let t = ins(t, 'n' as u64, seq!["next-window"@]);
    let t = ins(t, 'p' as u64, seq!["previous-window"@]);
    let t = ins(t, 'l' as u64, seq!["last-window"@]);
    let t = ins(t, '&' as u64, seq!["kill-window"@]);
    let t = ins(t, '"' as u64, seq!["split-window"@]);
    let t = ins(t, '%' as u64, seq!["split-window"@, "-h"@]);
    let t = ins(t, 'o' as u64, seq!["select-pane"@, "-t"@, "+"@]);
    let t = ins(t, 'x' as u64, seq!["kill-pane"@]);
    let t = ins(t, KEYC_UP, seq!["select-pane"@, "-U"@]);
    let t = ins(t, KEYC_DOWN, seq!["select-pane"@, "-D"@]);
    let t = ins(t, KEYC_LEFT, seq!["select-pane"@, "-L"@]);
    ins(t, KEYC_RIGHT, seq!["select-pane"@, "-R"@])
}

fn add_prefix_windows_panes(t: &mut Vec<(KeyCode, KeyBinding)>)
    requires
        keys_unique(entries_view(old(t)@)),
    ensures
        entries_view(final(t)@) == prefix_windows_panes(entries_view(old(t)@)),
        keys_unique(entries_view(final(t)@)),
{
    bind(t, 'd' as u64, args1("detach-client"));
    bind(t, 'c' as u64, args1("new-window"));
    bind(t, 'n' as u64, args1("next-window"));
    bind(t, 'p' as u64, args1("previous-window"));
    bind(t, 'l' as u64, args1("last-window"));
    bind(t, '&' as u64, args1("kill-window"));
    bind(t, '"' as u64, args1("split-window"));
    bind(t, '%' as u64, args2("split-window", "-h"));
    bind(t, 'o' as u64, args3("select-pane", "-t", "+"));
    bind(t, 'x' as u64, args1("kill-pane"));
    bind(t, KEYC_UP, args2("select-pane", "-U"));
    bind(t, KEYC_DOWN, args2("select-pane", "-D"));
    bind(t, KEYC_LEFT, args2("select-pane", "-L"));
    bind(t, KEYC_RIGHT, args2("select-pane", "-R"));
}

/// Prefix bindings `0`..`n-1` selecting the window of that number.
pub open spec fn prefix_window_digits(es: EntriesView, n: nat) -> EntriesView
    decreases n,
{
    if n == 0 {
        es
    } else {
        let i = (n - 1) as nat;
        ins(prefix_window_digits(es, i), ('0' as u64 + i) as u64, seq!["select-window"@, "-t"@, decimal(i)])
    }
}

fn add_prefix_window_digits(t: &mut Vec<(KeyCode, KeyBinding)>)
    requires
        keys_unique(entries_view(old(t)@)),
    ensures
        entries_view(final(t)@) == prefix_window_digits(entries_view(old(t)@), 10),
        keys_unique(entries_view(final(t)@)),
{
    let ghost start = entries_view(t@);
    let mut i: u64 = 0;
    while i <= 9
        invariant
            i <= 10,
            entries_view(t@) == prefix_window_digits(start, i as nat),
            keys_unique(entries_view(t@)),
        decreases 10 - i,
    {
        let n = u64_to_string(i);
        bind(t, '0' as u64 + i, args3("select-window", "-t", n.as_str()));
        i = i + 1;
    }
}

/// Prefix bindings for prompts, copy mode, buffers and display.
pub open spec fn prefix_commands(es: EntriesView) -> EntriesView {
    let t = ins(es, ':' as u64, seq!["command-prompt"@]);
    let t = ins(t, '[' as u64, seq!["copy-mode"@]);
    let t = ins(t, ']' as u64, seq!["paste-buffer"@]);
    let t = ins(t, keyc_build_spec('b' as u64, KEYC_CTRL), seq!["send-prefix"@]);
    let t = ins(t, KEYC_SPACE, seq!["next-layout"@]);
    let t = ins(t, '!' as u64, seq!["break-pane"@]);
    let t = ins(t, ';' as u64, seq!["last-pane"@]);
    let t = ins(t, '{' as u64, seq!["swap-pane"@, "-U"@]);
    let t = ins(t, '}' as u64, seq!["swap-pane"@, "-D"@]);
    let t = ins(t, ',' as u64, seq!["command-prompt"@, "-I"@, "#W"@, "rename-window -- '%%'"@]);
    let t = ins(t, '$' as u64, seq!["command-prompt"@, "-I"@, "#S"@, "rename-session -- '%%'"@]);
    let t = ins(t, '\'' as u64, seq!["command-prompt"@, "-p"@, "index"@, "select-window -t '%%'"@]);
    let t = ins(t, '.' as u64, seq!["command-prompt"@, "move-window -t '%%'"@]);
    ins(t, 'f' as u64, seq!["command-prompt"@, "find-window -- '%%'"@])
}

fn add_prefix_commands(t: &mut Vec<(KeyCode, KeyBinding)>)
    requires
        keys_unique(entries_view(old(t)@)),
    ensures
        entries_view(final(t)@) == prefix_commands(entries_view(old(t)@)),
        keys_unique(entries_view(final(t)@)),
{
    bind(t, ':' as u64, args1("command-prompt"));
    bind(t, '[' as u64, args1("copy-mode"));
    bind(t, ']' as u64, args1("paste-buffer"));
    bind(t, keyc_build('b' as u64, KeyModifiers::ctrl()), args1("send-prefix"));
    bind(t, KEYC_SPACE, args1("next-layout"));
    bind(t, '!' as u64, args1("break-pane"));
    bind(t, ';' as u64, args1("last-pane"));
    bind(t, '{' as u64, args2("swap-pane", "-U"));
    bind(t, '}' as u64, args2("swap-pane", "-D"));
    bind(t, ',' as u64, args4("command-prompt", "-I", "#W", "rename-window -- '%%'"));
    bind(t, '$' as u64, args4("command-prompt", "-I", "#S", "rename-session -- '%%'"));
    bind(t, '\'' as u64, args4("command-prompt", "-p", "index", "select-window -t '%%'"));
    bind(t, '.' as u64, args2("command-prompt", "move-window -t '%%'"));
    bind(t, 'f' as u64, args2("command-prompt", "find-window -- '%%'"));
}

/// Prefix bindings for information, choosers, sessions and rotation.
pub open spec fn prefix_display(es: EntriesView) -> EntriesView {
    let t = ins(es, '?' as u64, seq!["list-keys"@]);
    let t = ins(t, 'w' as u64, seq!["choose-tree"@]);
    let t = ins(t, 's' as u64, seq!["choose-tree"@]);
    let t = ins(t, '=' as u64, seq!["choose-buffer"@]);
    let t = ins(t, 'D' as u64, seq!["choose-client"@]);
    let t = ins(t, '~' as u64, seq!["show-messages"@]);
    let t = ins(t, '#' as u64, seq!["list-buffers"@]);
    let t = ins(t, 't' as u64, seq!["clock-mode"@]);
    let t = ins(t, 'q' as u64, seq!["display-panes"@]);
    let t = ins(t, 'i' as u64, seq!["display-message"@]);
    let t = ins(t, 'r' as u64, seq!["refresh-client"@]);
    let t = ins(t, 'z' as u64, seq!["resize-pane"@, "-Z"@]);
    let t = ins(t, '(' as u64, seq!["switch-client"@, "-p"@]);
    let t = ins(t, ')' as u64, seq!["switch-client"@, "-n"@]);
    let t = ins(t, keyc_build_spec('o' as u64, KEYC_CTRL), seq!["rotate-window"@]);
    let t = ins(t, keyc_build_spec('o' as u64, KEYC_META), seq!["rotate-window"@, "-D"@]);
    ins(t, KEYC_PPAGE, seq!["copy-mode"@, "-u"@])
}

fn add_prefix_display(t: &mut Vec<(KeyCode, KeyBinding)>)
    requires
        keys_unique(entries_view(old(t)@)),
    ensures
        entries_view(final(t)@) == prefix_display(entries_view(old(t)@)),
        keys_unique(entries_view(final(t)@)),
{
    bind(t, '?' as u64, args1("list-keys"));
    bind(t, 'w' as u64, args1("choose-tree"));
    bind(t, 's' as u64, args1("choose-tree"));
    bind(t, '=' as u64, args1("choose-buffer"));
    bind(t, 'D' as u64, args1("choose-client"));
    bind(t, '~' as u64, args1("show-messages"));
    bind(t, '#' as u64, args1("list-buffers"));
    bind(t, 't' as u64, args1("clock-mode"));
    bind(t, 'q' as u64, args1("display-panes"));
    bind(t, 'i' as u64, args1("display-message"));
    bind(t, 'r' as u64, args1("refresh-client"));
    bind(t, 'z' as u64, args2("resize-pane", "-Z"));
    bind(t, '(' as u64, args2("switch-client", "-p"));
    bind(t, ')' as u64, args2("switch-client", "-n"));
    bind(t, keyc_build('o' as u64, KeyModifiers::ctrl()), args1("rotate-window"));
    bind(t, keyc_build('o' as u64, KeyModifiers::meta()), args2("rotate-window", "-D"));
    bind(t, KEYC_PPAGE, args2("copy-mode", "-u"));
}

/// Repeatable resize bindings: Ctrl-arrow by one cell, Meta-arrow by five.
pub open spec fn prefix_resize(es: EntriesView) -> EntriesView {
    let t = ins_r(es, keyc_build_spec(KEYC_UP, KEYC_CTRL), seq!["resize-pane"@, "-U"@]);
    let t = ins_r(t, keyc_build_spec(KEYC_UP, KEYC_META), seq!["resize-pane"@, "-U"@, "5"@]);
    let t = ins_r(t, keyc_build_spec(KEYC_DOWN, KEYC_CTRL), seq!["resize-pane"@, "-D"@]);
    let t = ins_r(t, keyc_build_spec(KEYC_DOWN, KEYC_META), seq!["resize-pane"@, "-D"@, "5"@]);
    let t = ins_r(t, keyc_build_spec(KEYC_LEFT, KEYC_CTRL), seq!["resize-pane"@, "-L"@]);
    let t = ins_r(t, keyc_build_spec(KEYC_LEFT, KEYC_META), seq!["resize-pane"@, "-L"@, "5"@]);
    let t = ins_r(t, keyc_build_spec(KEYC_RIGHT, KEYC_CTRL), seq!["resize-pane"@, "-R"@]);
    ins_r(t, keyc_build_spec(KEYC_RIGHT, KEYC_META), seq!["resize-pane"@, "-R"@, "5"@])
}

/// Resize bindings for the prefix table.
fn default_prefix_resize(t: &mut Vec<(KeyCode, KeyBinding)>)
    requires
        keys_unique(entries_view(old(t)@)),
    ensures
        entries_view(final(t)@) == prefix_resize(entries_view(old(t)@)),
        keys_unique(entries_view(final(t)@)),
{
    bind_r(t, keyc_build(KEYC_UP, KeyModifiers::ctrl()), args2("resize-pane", "-U"));
    bind_r(t, keyc_build(KEYC_UP, KeyModifiers::meta()), args3("resize-pane", "-U", "5"));
    bind_r(t, keyc_build(KEYC_DOWN, KeyModifiers::ctrl()), args2("resize-pane", "-D"));
    bind_r(t, keyc_build(KEYC_DOWN, KeyModifiers::meta()), args3("resize-pane", "-D", "5"));
    bind_r(t, keyc_build(KEYC_LEFT, KeyModifiers::ctrl()), args2("resize-pane", "-L"));
    bind_r(t, keyc_build(KEYC_LEFT, KeyModifiers::meta()), args3("resize-pane", "-L", "5"));
    bind_r(t, keyc_build(KEYC_RIGHT, KeyModifiers::ctrl()), args2("resize-pane", "-R"));
    bind_r(t, keyc_build(KEYC_RIGHT, KeyModifiers::meta()), args3("resize-pane", "-R", "5"));
}

/// Layout selection bindings Meta-1..Meta-5.
pub open spec fn prefix_layouts(es: EntriesView) -> EntriesView {
    let t = ins(es, keyc_build_spec('1' as u64, KEYC_META), seq!["select-layout"@, "even-horizontal"@]);
    let t = ins(t, keyc_build_spec('2' as u64, KEYC_META), seq!["select-layout"@, "even-vertical"@]);
    let t = ins(t, keyc_build_spec('3' as u64, KEYC_META), seq!["select-layout"@, "main-horizontal"@]);
    let t = ins(t, keyc_build_spec('4' as u64, KEYC_META), seq!["select-layout"@, "main-vertical"@]);
    ins(t, keyc_build_spec('5' as u64, KEYC_META), seq!["select-layout"@, "tiled"@])
}

/// Layout selection bindings (M-1..5) for the prefix table.
fn default_prefix_layouts(t: &mut Vec<(KeyCode, KeyBinding)>)
    requires
        keys_unique(entries_view(old(t)@)),
    ensures
        entries_view(final(t)@) == prefix_layouts(entries_view(old(t)@)),
        keys_unique(entries_view(final(t)@)),
{
    bind(t, keyc_build('1' as u64, KeyModifiers::meta()), args2("select-layout", "even-horizontal"));
    bind(t, keyc_build('2' as u64, KeyModifiers::meta()), args2("select-layout", "even-vertical"));
    bind(t, keyc_build('3' as u64, KeyModifiers::meta()), args2("select-layout", "main-horizontal"));
    bind(t, keyc_build('4' as u64, KeyModifiers::meta()), args2("select-layout", "main-vertical"));
    bind(t, keyc_build('5' as u64, KeyModifiers::meta()), args2("select-layout", "tiled"));
}

/// The default prefix table, as tmux binds it.
pub open spec fn default_prefix_entries() -> EntriesView {
    let t = prefix_windows_panes(Seq::empty());
    let t = prefix_window_digits(t, 10);
    let t = prefix_commands(t);
    let t = prefix_display(t);
    let t = prefix_resize(t);
    prefix_layouts(t)
}

/// Default prefix key bindings matching tmux.
fn default_prefix_table() -> (t: Vec<(KeyCode, KeyBinding)>)
    ensures
        entries_view(t@) == default_prefix_entries(),
        keys_unique(entries_view(t@)),
{
    let mut t: Vec<(KeyCode, KeyBinding)> = Vec::new();
    assert(entries_view(t@) =~= Seq::<(u64, BindingView)>::empty());
    add_prefix_windows_panes(&mut t);
    add_prefix_window_digits(&mut t);
    add_prefix_commands(&mut t);
    add_prefix_display(&mut t);
    default_prefix_resize(&mut t);
    default_prefix_layouts(&mut t);
    t
}

/// Default copy-mode-vi bindings for cursor, page and line movement.
pub open spec fn vi_movement(es: EntriesView) -> EntriesView {
    let t = ins(es, 'h' as u64, seq!["cursor-left"@]);
    let t = ins(t, 'j' as u64, seq!["cursor-down"@]);
    let t = ins(t, 'k' as u64, seq!["cursor-up"@]);
    let t = ins(t, 'l' as u64, seq!["cursor-right"@]);
    let t = ins(t, KEYC_UP, seq!["cursor-up"@]);
    let t = ins(t, KEYC_DOWN, seq!["cursor-down"@]);
    let t = ins(t, KEYC_LEFT, seq!["cursor-left"@]);
    let t = ins(t, KEYC_RIGHT, seq!["cursor-right"@]);
    let t = ins(t, KEYC_PPAGE, seq!["page-up"@]);
    let t = ins(t, KEYC_NPAGE, seq!["page-down"@]);
    let t = ins(t, keyc_build_spec('b' as u64, KEYC_CTRL), seq!["page-up"@]);
    let t = ins(t, keyc_build_spec('f' as u64, KEYC_CTRL), seq!["page-down"@]);
    let t = ins(t, keyc_build_spec('u' as u64, KEYC_CTRL), seq!["halfpage-up"@]);
    let t = ins(t, keyc_build_spec('d' as u64, KEYC_CTRL), seq!["halfpage-down"@]);
    let t = ins(t, 'g' as u64, seq!["history-top"@]);
    let t = ins(t, 'G' as u64, seq!["history-bottom"@]);
    let t = ins(t, '0' as u64, seq!["start-of-line"@]);
    let t = ins(t, '$' as u64, seq!["end-of-line"@]);
    let t = ins(t, '^' as u64, seq!["back-to-indentation"@]);
    let t = ins(t, KEYC_HOME, seq!["start-of-line"@]);
    let t = ins(t, KEYC_END, seq!["end-of-line"@]);
    let t = ins(t, 'w' as u64, seq!["next-word"@]);
    let t = ins(t, 'b' as u64, seq!["previous-word"@]);
    ins(t, 'e' as u64, seq!["next-word-end"@])
}

fn add_vi_movement(t: &mut Vec<(KeyCode, KeyBinding)>)
    requires
        keys_unique(entries_view(old(t)@)),
    ensures
        entries_view(final(t)@) == vi_movement(entries_view(old(t)@)),
        keys_unique(entries_view(final(t)@)),
{
    bind(t, 'h' as u64, args1("cursor-left"));
    bind(t, 'j' as u64, args1("cursor-down"));
    bind(t, 'k' as u64, args1("cursor-up"));
    bind(t, 'l' as u64, args1("cursor-right"));
    bind(t, KEYC_UP, args1("cursor-up"));
    bind(t, KEYC_DOWN, args1("cursor-down"));
    bind(t, KEYC_LEFT, args1("cursor-left"));
    bind(t, KEYC_RIGHT, args1("cursor-right"));
    bind(t, KEYC_PPAGE, args1("page-up"));
    bind(t, KEYC_NPAGE, args1("page-down"));
    bind(t, keyc_build('b' as u64, KeyModifiers::ctrl()), args1("page-up"));
    bind(t, keyc_build('f' as u64, KeyModifiers::ctrl()), args1("page-down"));
    bind(t, keyc_build('u' as u64, KeyModifiers::ctrl()), args1("halfpage-up"));
    bind(t, keyc_build('d' as u64, KeyModifiers::ctrl()), args1("halfpage-down"));
    bind(t, 'g' as u64, args1("history-top"));
    bind(t, 'G' as u64, args1("history-bottom"));
    bind(t, '0' as u64, args1("start-of-line"));
    bind(t, '$' as u64, args1("end-of-line"));
    bind(t, '^' as u64, args1("back-to-indentation"));
    bind(t, KEYC_HOME, args1("start-of-line"));
    bind(t, KEYC_END, args1("end-of-line"));
    bind(t, 'w' as u64, args1("next-word"));
    bind(t, 'b' as u64, args1("previous-word"));
    bind(t, 'e' as u64, args1("next-word-end"));
}

/// Default copy-mode-vi bindings for selection, jumps, marks, search and exit.
pub open spec fn vi_actions(es: EntriesView) -> EntriesView {
    let t = ins(es, 'v' as u64, seq!["begin-selection"@]);
    let t = ins(t, KEYC_SPACE, seq!["begin-selection"@]);
    let t = ins(t, 'V' as u64, seq!["select-line"@]);
    let t = ins(t, keyc_build_spec('v' as u64, KEYC_CTRL), seq!["rectangle-toggle"@]);
    let t = ins(t, 'f' as u64, seq!["jump-forward"@]);
    let t = ins(t, 'F' as u64, seq!["jump-backward"@]);
    let t = ins(t, 't' as u64, seq!["jump-to-forward"@]);
    let t = ins(t, 'T' as u64, seq!["jump-to-backward"@]);
    let t = ins(t, ';' as u64, seq!["jump-again"@]);
    let t = ins(t, ',' as u64, seq!["jump-reverse"@]);
    let t = ins(t, 'm' as u64, seq!["set-mark"@]);
    let t = ins(t, keyc_build_spec('m' as u64, KEYC_META), seq!["swap-mark"@]);
    let t = ins(t, '/' as u64, seq!["search-forward"@]);
    let t = ins(t, '?' as u64, seq!["search-backward"@]);
    let t = ins(t, 'n' as u64, seq!["search-again"@]);
    let t = ins(t, 'N' as u64, seq!["search-reverse"@]);
    let t = ins(t, KEYC_RETURN, seq!["copy-selection-and-cancel"@]);
    let t = ins(t, 'y' as u64, seq!["copy-selection-and-cancel"@]);
    let t = ins(t, ':' as u64, seq!["goto-line"@]);
    let t = ins(t, 'q' as u64, seq!["cancel"@]);
    ins(t, KEYC_ESCAPE, seq!["cancel"@])
}

fn add_vi_actions(t: &mut Vec<(KeyCode, KeyBinding)>)
    requires
        keys_unique(entries_view(old(t)@)),
    ensures
        entries_view(final(t)@) == vi_actions(entries_view(old(t)@)),
        keys_unique(entries_view(final(t)@)),
{
    bind(t, 'v' as u64, args1("begin-selection"));
    bind(t, KEYC_SPACE, args1("begin-selection"));
    bind(t, 'V' as u64, args1("select-line"));
    bind(t, keyc_build('v' as u64, KeyModifiers::ctrl()), args1("rectangle-toggle"));
    bind(t, 'f' as u64, args1("jump-forward"));
    bind(t, 'F' as u64, args1("jump-backward"));
    bind(t, 't' as u64, args1("jump-to-forward"));
    bind(t, 'T' as u64, args1("jump-to-backward"));
    bind(t, ';' as u64, args1("jump-again"));
    bind(t, ',' as u64, args1("jump-reverse"));
    bind(t, 'm' as u64, args1("set-mark"));
    bind(t, keyc_build('m' as u64, KeyModifiers::meta()), args1("swap-mark"));
    bind(t, '/' as u64, args1("search-forward"));
    bind(t, '?' as u64, args1("search-backward"));
    bind(t, 'n' as u64, args1("search-again"));
    bind(t, 'N' as u64, args1("search-reverse"));
    bind(t, KEYC_RETURN, args1("copy-selection-and-cancel"));
    bind(t, 'y' as u64, args1("copy-selection-and-cancel"));
    bind(t, ':' as u64, args1("goto-line"));
    bind(t, 'q' as u64, args1("cancel"));
    bind(t, KEYC_ESCAPE, args1("cancel"));
}

/// The default copy-mode-vi table.
pub open spec fn default_vi_entries() -> EntriesView {
    vi_actions(vi_movement(Seq::empty()))
}

/// Default copy-mode-vi key bindings.
fn default_copy_mode_vi() -> (t: Vec<(KeyCode, KeyBinding)>)
    ensures
        entries_view(t@) == default_vi_entries(),
        keys_unique(entries_view(t@)),
{
    let mut t: Vec<(KeyCode, KeyBinding)> = Vec::new();
    assert(entries_view(t@) =~= Seq::<(u64, BindingView)>::empty());
    add_vi_movement(&mut t);
    add_vi_actions(&mut t);
    t
}

/// The default copy-mode-emacs table.
pub open spec fn default_emacs_entries() -> EntriesView {
    let t = ins(Seq::empty(), KEYC_UP, seq!["cursor-up"@]);
    let t = ins(t, KEYC_DOWN, seq!["cursor-down"@]);
    let t = ins(t, KEYC_LEFT, seq!["cursor-left"@]);
    let t = ins(t, KEYC_RIGHT, seq!["cursor-right"@]);
    let t = ins(t, keyc_build_spec('p' as u64, KEYC_CTRL), seq!["cursor-up"@]);
    let t = ins(t, keyc_build_spec('n' as u64, KEYC_CTRL), seq!["cursor-down"@]);
    let t = ins(t, keyc_build_spec('b' as u64, KEYC_CTRL), seq!["cursor-left"@]);
    let t = ins(t, keyc_build_spec('f' as u64, KEYC_CTRL), seq!["cursor-right"@]);
    let t = ins(t, KEYC_PPAGE, seq!["page-up"@]);
    let t = ins(t, KEYC_NPAGE, seq!["page-down"@]);
    let t = ins(t, keyc_build_spec('v' as u64, KEYC_META), seq!["page-up"@]);
    let t = ins(t, keyc_build_spec('v' as u64, KEYC_CTRL), seq!["page-down"@]);
    let t = ins(t, keyc_build_spec('a' as u64, KEYC_CTRL), seq!["start-of-line"@]);
    let t = ins(t, keyc_build_spec('e' as u64, KEYC_CTRL), seq!["end-of-line"@]);
    let t = ins(t, keyc_build_spec('f' as u64, KEYC_META), seq!["next-word"@]);
    let t = ins(t, keyc_build_spec('b' as u64, KEYC_META), seq!["previous-word"@]);
    let t = ins(t, keyc_build_spec(KEYC_SPACE, KEYC_CTRL), seq!["begin-selection"@]);
    let t = ins(t, keyc_build_spec('w' as u64, KEYC_META), seq!["copy-selection-and-cancel"@]);
    let t = ins(t, keyc_build_spec('g' as u64, KEYC_CTRL), seq!["cancel"@]);
    ins(t, KEYC_ESCAPE, seq!["cancel"@])
}

/// Default copy-mode-emacs key bindings.
fn default_copy_mode_emacs() -> (t: Vec<(KeyCode, KeyBinding)>)
    ensures
        entries_view(t@) == default_emacs_entries(),
        keys_unique(entries_view(t@)),
{
    let mut t: Vec<(KeyCode, KeyBinding)> = Vec::new();
    assert(entries_view(t@) =~= Seq::<(u64, BindingView)>::empty());
    bind(&mut t, KEYC_UP, args1("cursor-up"));
    bind(&mut t, KEYC_DOWN, args1("cursor-down"));
    bind(&mut t, KEYC_LEFT, args1("cursor-left"));
    bind(&mut t, KEYC_RIGHT, args1("cursor-right"));
    bind(&mut t, keyc_build('p' as u64, KeyModifiers::ctrl()), args1("cursor-up"));
    bind(&mut t, keyc_build('n' as u64, KeyModifiers::ctrl()), args1("cursor-down"));
    bind(&mut t, keyc_build('b' as u64, KeyModifiers::ctrl()), args1("cursor-left"));
    bind(&mut t, keyc_build('f' as u64, KeyModifiers::ctrl()), args1("cursor-right"));
    bind(&mut t, KEYC_PPAGE, args1("page-up"));
    bind(&mut t, KEYC_NPAGE, args1("page-down"));
    bind(&mut t, keyc_build('v' as u64, KeyModifiers::meta()), args1("page-up"));
    bind(&mut t, keyc_build('v' as u64, KeyModifiers::ctrl()), args1("page-down"));
    bind(&mut t, keyc_build('a' as u64, KeyModifiers::ctrl()), args1("start-of-line"));
    bind(&mut t, keyc_build('e' as u64, KeyModifiers::ctrl()), args1("end-of-line"));
    bind(&mut t, keyc_build('f' as u64, KeyModifiers::meta()), args1("next-word"));
    bind(&mut t, keyc_build('b' as u64, KeyModifiers::meta()), args1("previous-word"));
    bind(&mut t, keyc_build(KEYC_SPACE, KeyModifiers::ctrl()), args1("begin-selection"));
    bind(&mut t, keyc_build('w' as u64, KeyModifiers::meta()), args1("copy-selection-and-cancel"));
    bind(&mut t, keyc_build('g' as u64, KeyModifiers::ctrl()), args1("cancel"));
    bind(&mut t, KEYC_ESCAPE, args1("cancel"));
    t
}


// ---------------------------------------------------------------------------
// The binding system
// ---------------------------------------------------------------------------

/// The tables of a fresh binding system: tmux's defaults and an empty root table.
pub open spec fn default_tables() -> TablesView {
    seq![
        ("prefix"@, default_prefix_entries()),
        ("root"@, Seq::<(u64, BindingView)>::empty()),
        ("copy-mode-vi"@, default_vi_entries()),
        ("copy-mode-emacs"@, default_emacs_entries()),
    ]
}

/// `v` with prefix mode left and its deadline dropped.
pub open spec fn leave_prefix(v: KeyBindingsView) -> KeyBindingsView {
    KeyBindingsView { prefix: v.prefix, in_prefix: false, has_expiry: false, tables: v.tables }
}

/// What processing one input step does: `parsed` is the key read from the
/// input and the number of bytes it took (`None` when nothing could be
/// parsed), `data_len` the length of the input, and `expired` whether the
/// repeat deadline has passed. The result is the next state, the action and
/// the number of bytes consumed.
pub open spec fn key_step(
    v: KeyBindingsView,
    parsed: Option<(u64, usize)>,
    data_len: usize,
    expired: bool,
) -> (KeyBindingsView, Option<ActionView>, usize) {
    match parsed {
        None => (
            if v.in_prefix { leave_prefix(v) } else { v },
            None,
            if data_len < 1 { data_len } else { 1 },
        ),
        Some((key, consumed)) => {
            let v1 = if v.in_prefix && v.has_expiry && expired { leave_prefix(v) } else { v };
            if v1.in_prefix {
                match lookup_spec(v1.tables, "prefix"@, key) {
                    Some(b) => (
                        if b.1 { v1 } else { leave_prefix(v1) },
                        Some(ActionView::Command(b.0)),
                        consumed,
                    ),
                    None => (leave_prefix(v1), None, consumed),
                }
            } else {
                match lookup_spec(v1.tables, "root"@, key) {
                    Some(b) => (v1, Some(ActionView::Command(b.0)), consumed),
                    None => if key == v1.prefix {
                        (
                            KeyBindingsView { prefix: v1.prefix, in_prefix: true, has_expiry: false, tables: v1.tables },
                            Some(ActionView::SendToPane(Seq::empty())),
                            consumed,
                        )
                    } else {
                        (v1, None, consumed)
                    },
                }
            }
        },
    }
}

/// The binding `key` finds in entries `es`: its own, else (unless `exact`)
/// that of its base key.
pub open spec fn table_target(es: EntriesView, key: u64, exact: bool) -> Option<BindingView> {
    if exact || assoc_get(es, key) is Some {
        assoc_get(es, key)
    } else {
        assoc_get(es, keyc_base_spec(key))
    }
}

/// The view of an optional action.
pub open spec fn action_view(a: Option<KeyAction>) -> Option<ActionView> {
    match a {
        Some(x) => Some(x.view()),
        None => None,
    }
}

/// A duration of `ms` milliseconds.
///
/// Trusted: wraps `Duration::from_millis`; the duration is opaque here, so
/// nothing is claimed of it.
#[verifier::external_body]
fn duration_from_millis(ms: u64) -> Duration {
    Duration::from_millis(ms)
}

/// `at + d`, or `None` when that instant cannot be represented.
///
/// Trusted: wraps `Instant::checked_add`; both instants are opaque here, so
/// nothing is claimed of the result.
#[verifier::external_body]
fn instant_checked_add(at: &Instant, d: Duration) -> Option<Instant> {
    at.checked_add(d)
}

/// Whether `now` is at or after `deadline`.
///
/// Trusted: wraps `Instant`'s `>=`; the instants come from the clock, so
/// nothing is claimed of the answer.
#[verifier::external_body]
fn instant_reached(now: &Instant, deadline: &Instant) -> bool {
    *now >= *deadline
}

/// The line `list-keys` shows for one binding:
/// `bind-key [-r] -T table key command...`.
pub open spec fn binding_line(table: Seq<char>, key: u64, b: BindingView) -> Seq<char> {
    "bind-key"@ + (if b.1 { " -r"@ } else { Seq::empty() }) + " -T "@ + table + " "@ + key_name(key)
        + " "@ + join(b.0, " "@)
}

/// The lines of one table's bindings, in table order.
pub open spec fn entries_lines(table: Seq<char>, es: EntriesView) -> Seq<Seq<char>> {
    Seq::new(es.len(), |i: int| binding_line(table, es[i].0, es[i].1))
}

/// The lines of all bindings, table by table.
pub open spec fn tables_lines(ts: TablesView) -> Seq<Seq<char>>
    decreases ts.len(),
{
    if ts.len() == 0 {
        Seq::empty()
    } else {
        tables_lines(ts.drop_last()) + entries_lines(ts.last().0, ts.last().1)
    }
}

/// The line of one binding.
fn binding_line_string(table: &str, key: KeyCode, b: &KeyBinding) -> (r: String)
    ensures
        r@ == binding_line(table@, key, b@),
{
    let mut line = to_owned_string("bind-key");
    if b.repeatable {
        push_all(&mut line, " -r");
    }
    push_all(&mut line, " -T ");
    push_all(&mut line, table);
    push_all(&mut line, " ");
    let name = key_to_string(key);
    push_all(&mut line, name.as_str());
    push_all(&mut line, " ");
    let cmd = join_strings(b.argv.as_slice(), " ");
    push_all(&mut line, cmd.as_str());
    line
}

impl KeyBindings {
    /// List all key bindings as human-readable strings, in ascending order.
    pub fn list_bindings(&self) -> (r: Vec<String>)
        ensures
            lines_sorted(strings_view(r@)),
            strings_view(r@).to_multiset() == tables_lines(self@.tables).to_multiset(),
    {
        let mut all: Vec<String> = Vec::new();
        let ghost ts = self@.tables;
        let mut i: usize = 0;
        while i < self.tables.len()
            invariant
                i <= self.tables@.len(),
                ts == tables_view(self.tables@),
                strings_view(all@) == tables_lines(ts.take(i as int)),
            decreases self.tables@.len() - i,
        {
            let t = &self.tables[i];
            let ghost before = strings_view(all@);
            let mut j: usize = 0;
            while j < t.entries.len()
                invariant
                    j <= t.entries@.len(),
                    strings_view(all@) == before + entries_lines(t.name@, entries_view(t.entries@).take(j as int)),
                decreases t.entries@.len() - j,
            {
                let line = binding_line_string(t.name.as_str(), t.entries[j].0, &t.entries[j].1);
                let ghost prev = strings_view(all@);
                let ghost lv = line@;
                all.push(line);
                proof {
                    let es = entries_view(t.entries@);
                    assert(es[j as int] == (t.entries@[j as int].0, t.entries@[j as int].1@));
                    let el = entries_lines(t.name@, es.take(j as int));
                    assert(entries_lines(t.name@, es.take(j + 1)) =~= el.push(
                        binding_line(t.name@, es[j as int].0, es[j as int].1)));
                    assert(strings_view(all@) =~= prev.push(lv));
                    assert((before + el).push(lv) =~= before + el.push(lv));
                }
                j = j + 1;
            }
            proof {
                assert(entries_view(t.entries@).take(j as int) =~= entries_view(t.entries@));
                assert(ts.take(i + 1).drop_last() =~= ts.take(i as int));
                assert(ts.take(i + 1).last() == table_view(*t));
            }
            i = i + 1;
        }
        assert(ts.take(i as int) =~= ts);
        sort_strings(&all)
    }
}

impl KeyBindings {
    #[verifier::type_invariant]
    closed spec fn wf(&self) -> bool {
        tables_wf(tables_view(self.tables@))
    }

    /// Create default key bindings matching tmux.
    pub fn default_bindings() -> (r: Self)
        ensures
            r@ == (KeyBindingsView {
                prefix: keyc_build_spec('b' as u64, KEYC_CTRL),
                in_prefix: false,
                has_expiry: false,
                tables: default_tables(),
            }),
    {
        let prefix = keyc_build('b' as u64, KeyModifiers::ctrl());
        let mut tables: Vec<KeyTable> = Vec::new();
        tables.push(KeyTable { name: to_owned_string("prefix"), entries: default_prefix_table() });
        tables.push(KeyTable { name: to_owned_string("root"), entries: Vec::new() });
        tables.push(KeyTable { name: to_owned_string("copy-mode-vi"), entries: default_copy_mode_vi() });
        tables.push(KeyTable { name: to_owned_string("copy-mode-emacs"), entries: default_copy_mode_emacs() });
        proof {
            reveal_strlit("prefix");
            reveal_strlit("root");
            reveal_strlit("copy-mode-vi");
            reveal_strlit("copy-mode-emacs");
            assert(entries_view(tables@[1].entries@) =~= Seq::<(u64, BindingView)>::empty());
            assert(tables_view(tables@) =~= default_tables());
            let ts = tables_view(tables@);
            assert forall|i: int, j: int| 0 <= i < j < ts.len() implies #[trigger] ts[i].0 != #[trigger] ts[j].0 by {
                assert(ts[i].0.len() != ts[j].0.len() || ts[i].0[0] != ts[j].0[0]
                    || ts[i].0[5] != ts[j].0[5]);
            }
        }
        KeyBindings { prefix, in_prefix: false, prefix_expiry: None, tables }
    }

    /// Add a key binding with repeat flag.
    pub fn add_binding_with_repeat(&mut self, table: &str, key: KeyCode, argv: Vec<String>, repeatable: bool)
        ensures
            final(self)@ == (KeyBindingsView {
                tables: tables_insert(old(self)@.tables, table@, key, (strings_view(argv@), repeatable)),
                ..old(self)@
            }),
            binding_of(final(self)@.tables, table@, key) == Some((strings_view(argv@), repeatable)),
            forall|n: Seq<char>, k: u64| !(n == table@ && k == key) ==>
                #[trigger] binding_of(final(self)@.tables, n, k) == binding_of(old(self)@.tables, n, k),
    {
        proof {
            use_type_invariant(&*self);
            lemma_tables_insert(self@.tables, table@, key, (strings_view(argv@), repeatable));
        }
        let ghost old_ts = tables_view(self.tables@);
        let ghost bv = (strings_view(argv@), repeatable);
        let mut tables: Vec<KeyTable> = Vec::new();
        std::mem::swap(&mut tables, &mut self.tables);
        match find_table(&tables, table) {
            Some(i) => {
                let mut t = tables.remove(i);
                proof {
                    lemma_assoc_get(old_ts, table@);
                    let c = assoc_index(old_ts, table@);
                    if c != i as int {
                        if c < i { assert(old_ts[c].0 != old_ts[i as int].0); } else { assert(old_ts[i as int].0 != old_ts[c].0); }
                    }
                    assert(old_ts[i as int] == table_view(t));
                    assert(keys_unique(old_ts[i as int].1));
                }
                put_entry(&mut t.entries, key, KeyBinding { argv, repeatable });
                tables.insert(i, t);
                assert(tables_view(tables@) =~= old_ts.update(i as int, (table@, assoc_insert(table_entries(old_ts, table@), key, bv))));
            },
            None => {
                let mut entries: Vec<(KeyCode, KeyBinding)> = Vec::new();
                entries.push((key, KeyBinding { argv, repeatable }));
                tables.push(KeyTable { name: to_owned_string(table), entries });
                proof {
                    crate::assoc::lemma_assoc_get_absent(old_ts, table@);
                    assert(entries_view(entries@) =~= seq![(key, bv)]);
                    assert(assoc_insert(Seq::<(u64, BindingView)>::empty(), key, bv) =~= seq![(key, bv)]);
                }
                assert(tables_view(tables@) =~= old_ts.push((table@, assoc_insert(table_entries(old_ts, table@), key, bv))));
            },
        }
        self.tables = tables;
    }

    /// Add a key binding to the given table.
    pub fn add_binding(&mut self, table: &str, key: KeyCode, argv: Vec<String>)
        ensures
            final(self)@ == (KeyBindingsView {
                tables: tables_insert(old(self)@.tables, table@, key, (strings_view(argv@), false)),
                ..old(self)@
            }),
            binding_of(final(self)@.tables, table@, key) == Some((strings_view(argv@), false)),
            forall|n: Seq<char>, k: u64| !(n == table@ && k == key) ==>
                #[trigger] binding_of(final(self)@.tables, n, k) == binding_of(old(self)@.tables, n, k),
    {
        self.add_binding_with_repeat(table, key, argv, false);
    }

    /// Remove a key binding from the given table; whether it was bound.
    pub fn remove_binding(&mut self, table: &str, key: KeyCode) -> (r: bool)
        ensures
            r == (binding_of(old(self)@.tables, table@, key) is Some),
            final(self)@ == (KeyBindingsView { tables: tables_remove(old(self)@.tables, table@, key), ..old(self)@ }),
            binding_of(final(self)@.tables, table@, key) is None,
            forall|n: Seq<char>, k: u64| !(n == table@ && k == key) ==>
                #[trigger] binding_of(final(self)@.tables, n, k) == binding_of(old(self)@.tables, n, k),
    {
        proof {
            use_type_invariant(&*self);
            lemma_tables_remove(self@.tables, table@, key);
        }
        let ghost old_ts = tables_view(self.tables@);
        let mut tables: Vec<KeyTable> = Vec::new();
        std::mem::swap(&mut tables, &mut self.tables);
        let removed = match find_table(&tables, table) {
            Some(i) => {
                let mut t = tables.remove(i);
                proof {
                    lemma_assoc_get(old_ts, table@);
                    let c = assoc_index(old_ts, table@);
                    if c != i as int {
                        if c < i { assert(old_ts[c].0 != old_ts[i as int].0); } else { assert(old_ts[i as int].0 != old_ts[c].0); }
                    }
                    assert(old_ts[i as int] == table_view(t));
                    assert(keys_unique(old_ts[i as int].1));
                    lemma_assoc_get(old_ts[i as int].1, key);
                }
                let r = remove_entry(&mut t.entries, key);
                tables.insert(i, t);
                assert(tables_view(tables@) =~= old_ts.update(i as int, (table@, assoc_remove(table_entries(old_ts, table@), key))));
                r
            },
            None => {
                proof {
                    crate::assoc::lemma_assoc_get_absent(old_ts, table@);
                }
                false
            },
        };
        self.tables = tables;
        removed
    }

    /// The position of `key`'s binding in table `i`: the exact key, else (unless
    /// `exact`) its base key.
    fn find_in_table(&self, i: usize, key: KeyCode, exact: bool) -> (r: Option<usize>)
        requires
            i < self@.tables.len(),
        ensures
            r matches Some(j) ==> j < self.tables@[i as int].entries@.len()
                && Some(entries_view(self.tables@[i as int].entries@)[j as int].1) == table_target(self@.tables[i as int].1, key, exact),
            r is None ==> table_target(self@.tables[i as int].1, key, exact) is None,
    {
        proof {
            use_type_invariant(self);
        }
        let ghost es = self@.tables[i as int].1;
        assert(es == entries_view(self.tables@[i as int].entries@));
        assert(keys_unique(es));
        proof {
            lemma_assoc_get(es, key);
            lemma_assoc_get(es, keyc_base_spec(key));
        }
        match find_entry(&self.tables[i].entries, key) {
            Some(j) => {
                proof {
                    assert(es[j as int].0 == self.tables@[i as int].entries@[j as int].0);
                    let c = assoc_index(es, key);
                    if c != j as int {
                        if c < j { assert(es[c].0 != es[j as int].0); } else { assert(es[j as int].0 != es[c].0); }
                    }
                }
                Some(j)
            },
            None => {
                if exact {
                    None
                } else {
                    let base = keyc_base(key);
                    match find_entry(&self.tables[i].entries, base) {
                        Some(j) => {
                            proof {
                                assert(es[j as int].0 == self.tables@[i as int].entries@[j as int].0);
                                let c = assoc_index(es, base);
                                if c != j as int {
                                    if c < j { assert(es[c].0 != es[j as int].0); } else { assert(es[j as int].0 != es[c].0); }
                                }
                            }
                            Some(j)
                        },
                        None => None,
                    }
                }
            },
        }
    }

    /// Look up a binding in a specific table.
    ///
    /// Checks exact key (with modifiers) first, then falls back to base key.
    pub fn lookup_in_table(&self, table: &str, key: KeyCode) -> (r: Option<&Vec<String>>)
        ensures
            match lookup_spec(self@.tables, table@, key) {
                Some(b) => r matches Some(v) && strings_view(v@) == b.0,
                None => r is None,
            },
    {
        match self.lookup_binding(table, key) {
            Some(b) => Some(&b.argv),
            None => None,
        }
    }

    /// Look up a binding in a specific table, returning the full binding.
    pub fn lookup_binding(&self, table: &str, key: KeyCode) -> (r: Option<&KeyBinding>)
        ensures
            match lookup_spec(self@.tables, table@, key) {
                Some(b) => r matches Some(kb) && kb@ == b,
                None => r is None,
            },
    {
        proof {
            use_type_invariant(self);
            lemma_assoc_get(self@.tables, table@);
        }
        match find_table(&self.tables, table) {
            Some(i) => {
                proof {
                    let ts = self@.tables;
                    let c = assoc_index(ts, table@);
                    if c != i as int {
                        if c < i { assert(ts[c].0 != ts[i as int].0); } else { assert(ts[i as int].0 != ts[c].0); }
                    }
                }
                match self.find_in_table(i, key, false) {
                    Some(j) => Some(&self.tables[i].entries[j].1),
                    None => None,
                }
            },
            None => None,
        }
    }

    /// The binding of exactly `key` (modifiers included) in a table.
    pub fn table_binding(&self, table: &str, key: KeyCode) -> (r: Option<&KeyBinding>)
        ensures
            match binding_of(self@.tables, table@, key) {
                Some(b) => r matches Some(kb) && kb@ == b,
                None => r is None,
            },
    {
        proof {
            use_type_invariant(self);
            lemma_assoc_get(self@.tables, table@);
        }
        match find_table(&self.tables, table) {
            Some(i) => {
                proof {
                    let ts = self@.tables;
                    let c = assoc_index(ts, table@);
                    if c != i as int {
                        if c < i { assert(ts[c].0 != ts[i as int].0); } else { assert(ts[i as int].0 != ts[c].0); }
                    }
                }
                match self.find_in_table(i, key, true) {
                    Some(j) => Some(&self.tables[i].entries[j].1),
                    None => None,
                }
            },
            None => None,
        }
    }

    /// Process one parsed input key and return the action to take.
    ///
    /// `parsed` is the key read from the input with the number of bytes it
    /// used, or `None` when the input could not be parsed; `data_len` is the
    /// input's length; `expired` tells whether the repeat deadline has passed.
    /// Returns the action (none when the bytes go to the pane) and the number
    /// of bytes consumed.
    pub fn process_key(&mut self, parsed: Option<(KeyCode, usize)>, data_len: usize, expired: bool)
        -> (r: (Option<KeyAction>, usize))
        ensures
            (final(self)@, action_view(r.0), r.1) == key_step(old(self)@, parsed, data_len, expired),
    {
        proof {
            use_type_invariant(&*self);
            reveal_strlit("prefix");
            reveal_strlit("root");
        }
        match parsed {
            None => {
                if self.in_prefix {
                    self.in_prefix = false;
                    self.prefix_expiry = None;
                }
                let n: usize = if data_len < 1 { data_len } else { 1 };
                (None, n)
            },
            Some((key, consumed)) => {
                if self.in_prefix && self.prefix_expiry.is_some() && expired {
                    self.in_prefix = false;
                    self.prefix_expiry = None;
                }
                if self.in_prefix {
                    match self.lookup_binding("prefix", key) {
                        Some(b) => {
                            let binding = b.duplicate();
                            if !binding.repeatable {
                                self.in_prefix = false;
                                self.prefix_expiry = None;
                            }
                            (Some(KeyAction::Command(binding.argv)), consumed)
                        },
                        None => {
                            self.in_prefix = false;
                            self.prefix_expiry = None;
                            (None, consumed)
                        },
                    }
                } else {
                    match self.lookup_binding("root", key) {
                        Some(b) => {
                            let binding = b.duplicate();
                            (Some(KeyAction::Command(binding.argv)), consumed)
                        },
                        None => {
                            if key == self.prefix {
                                self.in_prefix = true;
                                self.prefix_expiry = None;
                                (Some(KeyAction::SendToPane(Vec::new())), consumed)
                            } else {
                                (None, consumed)
                            }
                        },
                    }
                }
            },
        }
    }

    /// Whether the repeat deadline of prefix mode has passed.
    pub fn prefix_expired(&self) -> (r: bool)
        ensures
            r ==> self@.has_expiry,
    {
        match &self.prefix_expiry {
            Some(RepeatDeadline::At(deadline)) => {
                let now = instant_now();
                instant_reached(&now, deadline)
            },
            Some(RepeatDeadline::Beyond) => false,
            None => false,
        }
    }

    /// Process one parsed input key, reading the clock for the repeat deadline.
    pub fn process_parsed(&mut self, parsed: Option<(KeyCode, usize)>, data_len: usize)
        -> (r: (Option<KeyAction>, usize))
        ensures
            (final(self)@, action_view(r.0), r.1) == key_step(old(self)@, parsed, data_len, true)
            || (final(self)@, action_view(r.0), r.1) == key_step(old(self)@, parsed, data_len, false),
    {
        let expired = self.prefix_expired();
        self.process_key(parsed, data_len, expired)
    }

    /// Update the prefix key.
    pub fn set_prefix(&mut self, key: KeyCode)
        ensures
            final(self)@ == (KeyBindingsView { prefix: key, ..old(self)@ }),
    {
        proof {
            use_type_invariant(&*self);
        }
        self.prefix = key;
    }

    /// Whether we're currently in prefix mode.
    pub fn in_prefix(&self) -> (r: bool)
        ensures
            r == self@.in_prefix,
    {
        self.in_prefix
    }

    /// Set the repeat timeout (called after dispatching a repeatable binding):
    /// prefix mode then ends `repeat_time_ms` milliseconds from now (a
    /// deadline past what the clock can represent is never reached). A zero
    /// time leaves the state as it is.
    pub fn set_repeat_timeout(&mut self, repeat_time_ms: u64)
        ensures
            repeat_time_ms == 0 ==> final(self)@ == old(self)@,
            repeat_time_ms > 0 ==> final(self)@ == (KeyBindingsView { has_expiry: true, ..old(self)@ }),
    {
        proof {
            use_type_invariant(&*self);
        }
        if repeat_time_ms > 0 {
            let now = instant_now();
            match instant_checked_add(&now, duration_from_millis(repeat_time_ms)) {
                Some(deadline) => {
                    self.prefix_expiry = Some(RepeatDeadline::At(deadline));
                },
                None => {
                    self.prefix_expiry = Some(RepeatDeadline::Beyond);
                },
            }
        }
    }
}

/// A number written in decimal reads back as itself.
proof fn lemma_decimal_parses(n: nat)
    ensures
        decimal(n).len() > 0,
        forall|i: int| 0 <= i < decimal(n).len() ==> is_digit(#[trigger] decimal(n)[i]),
        digits_value(decimal(n)) == n,
    decreases n,
{
    let d = decimal(n);
    assert(forall|k: nat| k < 10 ==> #[trigger] digit_value(digit_char(k)) == k && is_digit(digit_char(k)));
    if n < 10 {
        assert(d.drop_last() =~= Seq::<char>::empty());
        assert(d.last() == digit_char(n));
        assert(digits_value(d) == digits_value(d.drop_last()) * 10 + digit_value(d.last()));
        assert(digits_value(Seq::<char>::empty()) == 0);
    } else {
        lemma_decimal_parses(n / 10);
        assert(d.drop_last() =~= decimal(n / 10));
        assert(d.last() == digit_char(n % 10));
        assert(digit_value(digit_char(n % 10)) == n % 10);
        assert(n == (n / 10) * 10 + n % 10);
        assert(digits_value(d) == digits_value(d.drop_last()) * 10 + digit_value(d.last()));
        assert forall|i: int| 0 <= i < d.len() implies is_digit(#[trigger] d[i]) by {
            if i < d.len() - 1 {
                assert(d[i] == decimal(n / 10)[i]);
            }
        }
    }
}

/// The special keys `bind-key` knows by name.
pub open spec fn named_base(b: u64) -> bool {
    b == KEYC_UP || b == KEYC_DOWN || b == KEYC_LEFT || b == KEYC_RIGHT || b == KEYC_HOME || b == KEYC_END
        || b == KEYC_INSERT || b == KEYC_DELETE || b == KEYC_PPAGE || b == KEYC_NPAGE || b == KEYC_BACKSPACE
        || b == KEYC_TAB || b == KEYC_RETURN || b == KEYC_ESCAPE || b == KEYC_SPACE
}

/// The base keys whose names read back: the named special keys, `F1` to
/// `F12`, and the printable ASCII characters.
pub open spec fn nameable_base(b: u64) -> bool {
    named_base(b) || (KEYC_F1 <= b <= KEYC_F12) || ascii_graphic(b)
}

/// The name of a nameable base key reads back as that key, and does not
/// start with a modifier prefix.
proof fn lemma_base_name_round_trip(b: u64)
    requires
        nameable_base(b),
    ensures
        base_key_of_name(base_key_name(b)) == Some(b),
        base_key_name(b).len() >= 2 ==> base_key_name(b)[1] != '-',
{

    reveal_strlit("Up");
    reveal_strlit("Down");
    reveal_strlit("Left");
    reveal_strlit("Right");
    reveal_strlit("Home");
    reveal_strlit("End");
    reveal_strlit("IC");
    reveal_strlit("Insert");
    reveal_strlit("DC");
    reveal_strlit("Delete");
    reveal_strlit("PPage");
    reveal_strlit("PageUp");
    reveal_strlit("NPage");
    reveal_strlit("PageDown");
    reveal_strlit("BSpace");
    reveal_strlit("Tab");
    reveal_strlit("Enter");
    reveal_strlit("CR");
    reveal_strlit("Escape");
    reveal_strlit("Esc");
    reveal_strlit("Space");
    if named_base(b) {
        if b == KEYC_UP { assert(base_key_of_name(base_key_name(b)) == Some(b)); }
        else if b == KEYC_DOWN { assert(base_key_of_name(base_key_name(b)) == Some(b)); }
        else if b == KEYC_LEFT { assert(base_key_of_name(base_key_name(b)) == Some(b)); }
        else if b == KEYC_RIGHT { assert(base_key_of_name(base_key_name(b)) == Some(b)); }
        else if b == KEYC_HOME { assert(base_key_of_name(base_key_name(b)) == Some(b)); }
        else if b == KEYC_END { assert(base_key_of_name(base_key_name(b)) == Some(b)); }
        else if b == KEYC_INSERT { assert(base_key_of_name(base_key_name(b)) == Some(b)); }
        else if b == KEYC_DELETE { assert(base_key_of_name(base_key_name(b)) == Some(b)); }
        else if b == KEYC_PPAGE { assert(base_key_of_name(base_key_name(b)) == Some(b)); }
        else if b == KEYC_NPAGE { assert(base_key_of_name(base_key_name(b)) == Some(b)); }
        else if b == KEYC_BACKSPACE { assert(base_key_of_name(base_key_name(b)) == Some(b)); }
        else if b == KEYC_TAB { assert(base_key_of_name(base_key_name(b)) == Some(b)); }
        else if b == KEYC_RETURN { assert(base_key_of_name(base_key_name(b)) == Some(b)); }
        else if b == KEYC_ESCAPE { assert(base_key_of_name(base_key_name(b)) == Some(b)); }
        else { assert(base_key_of_name(base_key_name(b)) == Some(b)); }
    } else if KEYC_F1 <= b <= KEYC_F12 {
        let n: nat = (b - KEYC_F1 + 1) as nat;
        lemma_decimal_parses(n);
        let s = seq!['F'] + decimal(n);
        assert(s.drop_first() =~= decimal(n));
        assert(unsigned_digits(decimal(n)) == decimal(n)) by {
            assert(is_digit(decimal(n)[0]));
        }
        assert(s[0] == 'F');
        assert(s.len() >= 2 ==> s[1] == decimal(n)[0]);
        assert(is_digit(decimal(n)[0]));
        assert(named_key(s) is None) by {
            assert(s.len() >= 2);
        }
    } else {
        let s = seq![b as char];
        assert(named_key(s) is None) by {
            assert(s.len() == 1);
        }
    }
}

/// At most one modifier: none, `C-`, `M-` or `S-`.
pub open spec fn single_modifier(m: u64) -> bool {
    m == 0 || m == KEYC_CTRL || m == KEYC_META || m == KEYC_SHIFT
}

/// A key's bits split back into its base and its modifier.
proof fn lemma_key_bits(b: u64, m: u64)
    requires
        b <= 0x10_ffff,
        single_modifier(m),
    ensures
        (b | m) & KEYC_MASK_MODIFIERS == m,
        (b | m) & KEYC_MASK_KEY == b,
        b | 0 == b,
{
    assert((b | 0u64) == b) by (bit_vector);
    if m == 0 {
        assert((b | 0u64) & 0x7000_0000_0000u64 == 0u64 && (b | 0u64) & 0xfff_ffff_ffffu64 == b) by (bit_vector)
            requires b <= 0x10_ffffu64;
    } else if m == KEYC_CTRL {
        assert((b | 0x2000_0000_0000u64) & 0x7000_0000_0000u64 == 0x2000_0000_0000u64
            && (b | 0x2000_0000_0000u64) & 0xfff_ffff_ffffu64 == b) by (bit_vector)
            requires b <= 0x10_ffffu64;
    } else if m == KEYC_META {
        assert((b | 0x1000_0000_0000u64) & 0x7000_0000_0000u64 == 0x1000_0000_0000u64
            && (b | 0x1000_0000_0000u64) & 0xfff_ffff_ffffu64 == b) by (bit_vector)
            requires b <= 0x10_ffffu64;
    } else {
        assert((b | 0x4000_0000_0000u64) & 0x7000_0000_0000u64 == 0x4000_0000_0000u64
            && (b | 0x4000_0000_0000u64) & 0xfff_ffff_ffffu64 == b) by (bit_vector)
            requires b <= 0x10_ffffu64;
    }
}

/// The prefix that names a single modifier.
proof fn lemma_single_prefix(m: u64)
    requires
        single_modifier(m),
    ensures
        m == 0 ==> modifier_prefix(m) == Seq::<char>::empty(),
        m == KEYC_CTRL ==> modifier_prefix(m) == seq!['C', '-'],
        m == KEYC_META ==> modifier_prefix(m) == seq!['M', '-'],
        m == KEYC_SHIFT ==> modifier_prefix(m) == seq!['S', '-'],
{
    reveal_strlit("C-");
    reveal_strlit("M-");
    reveal_strlit("S-");
    assert(0u64 & 0x2000_0000_0000u64 == 0u64 && 0u64 & 0x1000_0000_0000u64 == 0u64
        && 0u64 & 0x4000_0000_0000u64 == 0u64) by (bit_vector);
    assert(0x2000_0000_0000u64 & 0x2000_0000_0000u64 == 0x2000_0000_0000u64
        && 0x2000_0000_0000u64 & 0x1000_0000_0000u64 == 0u64 && 0x2000_0000_0000u64 & 0x4000_0000_0000u64 == 0u64)
        by (bit_vector);
    assert(0x1000_0000_0000u64 & 0x2000_0000_0000u64 == 0u64
        && 0x1000_0000_0000u64 & 0x1000_0000_0000u64 == 0x1000_0000_0000u64
        && 0x1000_0000_0000u64 & 0x4000_0000_0000u64 == 0u64) by (bit_vector);
    assert(0x4000_0000_0000u64 & 0x2000_0000_0000u64 == 0u64 && 0x4000_0000_0000u64 & 0x1000_0000_0000u64 == 0u64
        && 0x4000_0000_0000u64 & 0x4000_0000_0000u64 == 0x4000_0000_0000u64) by (bit_vector);
    assert(Seq::<char>::empty() + Seq::<char>::empty() + Seq::<char>::empty() =~= Seq::<char>::empty());
    assert(seq!['C', '-'] + Seq::<char>::empty() + Seq::<char>::empty() =~= seq!['C', '-']);
    assert(Seq::<char>::empty() + seq!['M', '-'] + Seq::<char>::empty() =~= seq!['M', '-']);
    assert(Seq::<char>::empty() + Seq::<char>::empty() + seq!['S', '-'] =~= seq!['S', '-']);
}

/// Parsing a key name gives back the key it names: for a special key with a
/// name, `F1` to `F12` or a printable ASCII character, with no modifier or
/// one of `C-`, `M-`, `S-`, `string_to_key(key_to_string(k)) == Some(k)`.
/// So the modifier bits `S-` parses to are exactly Shift, and so on.
pub proof fn law_key_name_round_trip(b: u64, m: u64)
    requires
        nameable_base(b),
        single_modifier(m),
    ensures
        key_of_name(key_name(b | m)) == Some(b | m),
{
    lemma_key_bits(b, m);
    lemma_single_prefix(m);
    lemma_base_name_round_trip(b);
    let base = base_key_name(b);
    let name = key_name(b | m);
    assert(name == modifier_prefix(m) + base);
    if m == 0 {
        assert(name =~= base);
    } else {
        assert(name.drop_first().drop_first() =~= base);
    }
}

} // verus!
