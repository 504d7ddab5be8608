//! Key bindings: the configuration data, key-name parsing, and the map from
//! physical keys to logical actions.
//!
//! A binding entry is a comma-separated list of key names; each name that
//! parses yields one key. The map is built per action in a fixed order, and
//! a later binding overrides an earlier one for the same key. Reading and
//! writing the configuration file happens outside this crate; the core
//! works on the plain strings.

use vstd::prelude::*;
use vstd::string::{StrSliceExecFns, StringExecFns};
use crate::interaction::Action;
use crate::paths::lower_scalar;

verus! {

/// The key bound to each logical action, as comma-separated key names.
#[derive(Clone, Debug)]
pub struct KeyBinds {
    pub previous_image: String,
    pub next_image: String,
    pub exit: String,
    pub set_wallpaper: String,
    pub delete_image: String,
    pub confirm_delete: String,
    pub cancel_delete: String,
    pub always_delete: String,
}

/// The viewer's configuration: its key bindings.
#[derive(Clone, Debug)]
pub struct Config {
    pub keybinds: KeyBinds,
}

/// The built-in bindings used when no configuration is present.
pub open spec fn is_default_keybinds(kb: KeyBinds) -> bool {
    &&& kb.previous_image@ == "h, Left"@
    &&& kb.next_image@ == "l, Right"@
    &&& kb.exit@ == "Escape"@
    &&& kb.set_wallpaper@ == "W"@
    &&& kb.delete_image@ == "D"@
    &&& kb.confirm_delete@ == "Y"@
    &&& kb.cancel_delete@ == "N, Escape"@
    &&& kb.always_delete@ == "A"@
}

impl Default for KeyBinds {
    /// The built-in bindings.
    fn default() -> (r: Self)
        ensures
            is_default_keybinds(r),
    {
        KeyBinds {
            previous_image: String::from_str("h, Left"),
            next_image: String::from_str("l, Right"),
            exit: String::from_str("Escape"),
            set_wallpaper: String::from_str("W"),
            delete_image: String::from_str("D"),
            confirm_delete: String::from_str("Y"),
            cancel_delete: String::from_str("N, Escape"),
            always_delete: String::from_str("A"),
        }
    }
}

impl Default for Config {
    /// A configuration with the built-in bindings.
    fn default() -> (r: Self)
        ensures
            is_default_keybinds(r.keybinds),
    {
        Config { keybinds: KeyBinds::default() }
    }
}

/// A physical key the viewer can bind.
#[derive(Clone, Copy, Debug, PartialEq, Eq, Structural)]
pub enum KeyCode {
    A,
    B,
    C,
    D,
    E,
    F,
    G,
    H,
    I,
    J,
    K,
    L,
    M,
    N,
    O,
    P,
    Q,
    R,
    S,
    T,
    U,
    V,
    W,
    X,
    Y,
    Z,
    Escape,
    Left,
    Right,
    Up,
    Down,
    Space,
    Return,
    Tab,
    Back,
    Delete,
    Home,
    End,
    PageUp,
    PageDown,
}

/// Equality of two character sequences with ASCII letters compared without
/// regard to case.
pub open spec fn eq_ignore_case(a: Seq<char>, b: Seq<char>) -> bool {
    a.len() == b.len() && forall|i: int| 0 <= i < a.len() ==> lower_scalar(a[i]) == lower_scalar(b[i])
}

/// Compares two strings, folding ASCII case.
fn str_ieq(a: &str, b: &str) -> (r: bool)
    ensures
        r == eq_ignore_case(a@, b@),
{
    let alen = a.unicode_len();
    let blen = b.unicode_len();
    if alen != blen {
        return false;
    }
    let mut i: usize = 0;
    while i < alen
        invariant
            alen == a@.len(),
            blen == b@.len(),
            alen == blen,
            i <= alen,
            forall|j: int| 0 <= j < i ==> lower_scalar(a@[j]) == lower_scalar(b@[j]),
        decreases alen - i,
    {
        let ca = a.get_char(i) as u32;
        let cb = b.get_char(i) as u32;
        let la = if 65 <= ca && ca <= 90 {
            ca + 32
        } else {
            ca
        };
        let lb = if 65 <= cb && cb <= 90 {
            cb + 32
        } else {
            cb
        };
        if la != lb {
            return false;
        }
        i += 1;
    }
    true
}

/// The key a name denotes, compared without regard to ASCII case; names not
/// in the table denote no key.
pub open spec fn spec_keycode(s: Seq<char>) -> Option<KeyCode> {
    if eq_ignore_case(s, "a"@) {
        Some(KeyCode::A)
    } else if eq_ignore_case(s, "b"@) {
        Some(KeyCode::B)
    } else if eq_ignore_case(s, "c"@) {
        Some(KeyCode::C)
    } else if eq_ignore_case(s, "d"@) {
        Some(KeyCode::D)
    } else if eq_ignore_case(s, "e"@) {
        Some(KeyCode::E)
    } else if eq_ignore_case(s, "f"@) {
        Some(KeyCode::F)
    } else if eq_ignore_case(s, "g"@) {
        Some(KeyCode::G)
    } else if eq_ignore_case(s, "h"@) {
        Some(KeyCode::H)
    } else if eq_ignore_case(s, "i"@) {
        Some(KeyCode::I)
    } else if eq_ignore_case(s, "j"@) {
        Some(KeyCode::J)
    } else if eq_ignore_case(s, "k"@) {
        Some(KeyCode::K)
    } else if eq_ignore_case(s, "l"@) {
        Some(KeyCode::L)
    } else if eq_ignore_case(s, "m"@) {
        Some(KeyCode::M)
    } else if eq_ignore_case(s, "n"@) {
        Some(KeyCode::N)
    } else if eq_ignore_case(s, "o"@) {
        Some(KeyCode::O)
    } else if eq_ignore_case(s, "p"@) {
        Some(KeyCode::P)
    } else if eq_ignore_case(s, "q"@) {
        Some(KeyCode::Q)
    } else if eq_ignore_case(s, "r"@) {
        Some(KeyCode::R)
    } else if eq_ignore_case(s, "s"@) {
        Some(KeyCode::S)
    } else if eq_ignore_case(s, "t"@) {
        Some(KeyCode::T)
    } else if eq_ignore_case(s, "u"@) {
        Some(KeyCode::U)
    } else if eq_ignore_case(s, "v"@) {
        Some(KeyCode::V)
    } else if eq_ignore_case(s, "w"@) {
        Some(KeyCode::W)
    } else if eq_ignore_case(s, "x"@) {
        Some(KeyCode::X)
    } else if eq_ignore_case(s, "y"@) {
        Some(KeyCode::Y)
    } else if eq_ignore_case(s, "z"@) {
        Some(KeyCode::Z)
    } else if eq_ignore_case(s, "escape"@) || eq_ignore_case(s, "esc"@) {
        Some(KeyCode::Escape)
    } else if eq_ignore_case(s, "left"@) || eq_ignore_case(s, "larrow"@) {
        Some(KeyCode::Left)
    } else if eq_ignore_case(s, "right"@) || eq_ignore_case(s, "rarrow"@) {
        Some(KeyCode::Right)
    } else if eq_ignore_case(s, "up"@) || eq_ignore_case(s, "uarrow"@) {
        Some(KeyCode::Up)
    } else if eq_ignore_case(s, "down"@) || eq_ignore_case(s, "darrow"@) {
        Some(KeyCode::Down)
    } else if eq_ignore_case(s, "space"@) {
        Some(KeyCode::Space)
    } else if eq_ignore_case(s, "enter"@) || eq_ignore_case(s, "return"@) {
        Some(KeyCode::Return)
    } else if eq_ignore_case(s, "tab"@) {
        Some(KeyCode::Tab)
    } else if eq_ignore_case(s, "backspace"@) {
        Some(KeyCode::Back)
    } else if eq_ignore_case(s, "delete"@) {
        Some(KeyCode::Delete)
    } else if eq_ignore_case(s, "home"@) {
        Some(KeyCode::Home)
    } else if eq_ignore_case(s, "end"@) {
        Some(KeyCode::End)
    } else if eq_ignore_case(s, "pageup"@) {
        Some(KeyCode::PageUp)
    } else if eq_ignore_case(s, "pagedown"@) {
        Some(KeyCode::PageDown)
    } else {
        None
    }
}

/// Parses one key name.
pub fn string_to_keycode(key: &str) -> (r: Option<KeyCode>)
    ensures
        r == spec_keycode(key@),
{
    if str_ieq(key, "a") {
        Some(KeyCode::A)
    } else if str_ieq(key, "b") {
        Some(KeyCode::B)
    } else if str_ieq(key, "c") {
        Some(KeyCode::C)
    } else if str_ieq(key, "d") {
        Some(KeyCode::D)
    } else if str_ieq(key, "e") {
        Some(KeyCode::E)
    } else if str_ieq(key, "f") {
        Some(KeyCode::F)
    } else if str_ieq(key, "g") {
        Some(KeyCode::G)
    } else if str_ieq(key, "h") {
        Some(KeyCode::H)
    } else if str_ieq(key, "i") {
        Some(KeyCode::I)
    } else if str_ieq(key, "j") {
        Some(KeyCode::J)
    } else if str_ieq(key, "k") {
        Some(KeyCode::K)
    } else if str_ieq(key, "l") {
        Some(KeyCode::L)
    } else if str_ieq(key, "m") {
        Some(KeyCode::M)
    } else if str_ieq(key, "n") {
        Some(KeyCode::N)
    } else if str_ieq(key, "o") {
        Some(KeyCode::O)
    } else if str_ieq(key, "p") {
        Some(KeyCode::P)
    } else if str_ieq(key, "q") {
        Some(KeyCode::Q)
    } else if str_ieq(key, "r") {
        Some(KeyCode::R)
    } else if str_ieq(key, "s") {
        Some(KeyCode::S)
    } else if str_ieq(key, "t") {
        Some(KeyCode::T)
    } else if str_ieq(key, "u") {
        Some(KeyCode::U)
    } else if str_ieq(key, "v") {
        Some(KeyCode::V)
    } else if str_ieq(key, "w") {
        Some(KeyCode::W)
    } else if str_ieq(key, "x") {
        Some(KeyCode::X)
    } else if str_ieq(key, "y") {
        Some(KeyCode::Y)
    } else if str_ieq(key, "z") {
        Some(KeyCode::Z)
    } else if str_ieq(key, "escape") || str_ieq(key, "esc") {
        Some(KeyCode::Escape)
    } else if str_ieq(key, "left") || str_ieq(key, "larrow") {
        Some(KeyCode::Left)
    } else if str_ieq(key, "right") || str_ieq(key, "rarrow") {
        Some(KeyCode::Right)
    } else if str_ieq(key, "up") || str_ieq(key, "uarrow") {
        Some(KeyCode::Up)
    } else if str_ieq(key, "down") || str_ieq(key, "darrow") {
        Some(KeyCode::Down)
    } else if str_ieq(key, "space") {
        Some(KeyCode::Space)
    } else if str_ieq(key, "enter") || str_ieq(key, "return") {
        Some(KeyCode::Return)
    } else if str_ieq(key, "tab") {
        Some(KeyCode::Tab)
    } else if str_ieq(key, "backspace") {
        Some(KeyCode::Back)
    } else if str_ieq(key, "delete") {
        Some(KeyCode::Delete)
    } else if str_ieq(key, "home") {
        Some(KeyCode::Home)
    } else if str_ieq(key, "end") {
        Some(KeyCode::End)
    } else if str_ieq(key, "pageup") {
        Some(KeyCode::PageUp)
    } else if str_ieq(key, "pagedown") {
        Some(KeyCode::PageDown)
    } else {
        None
    }
}

/// An ASCII whitespace character.
pub open spec fn is_space(c: char) -> bool {
    c == ' ' || c == '\t' || c == '\n' || c == '\r'
}

/// The sequence without its leading whitespace.
pub open spec fn trim_start(s: Seq<char>) -> Seq<char>
    decreases s.len(),
{
    if s.len() > 0 && is_space(s[0]) {
        trim_start(s.drop_first())
    } else {
        s
    }
}

/// The sequence without its trailing whitespace.
pub open spec fn trim_end(s: Seq<char>) -> Seq<char>
    decreases s.len(),
{
    if s.len() > 0 && is_space(s.last()) {
        trim_end(s.drop_last())
    } else {
        s
    }
}

/// The sequence without leading and trailing whitespace.
pub open spec fn trimmed(s: Seq<char>) -> Seq<char> {
    trim_end(trim_start(s))
}

/// A whitespace prefix falls away.
proof fn lemma_trim_start_skip(s: Seq<char>, b: int)
    requires
        0 <= b <= s.len(),
        forall|j: int| 0 <= j < b ==> is_space(s[j]),
        b < s.len() ==> !is_space(s[b]),
    ensures
        trim_start(s) == s.skip(b),
    decreases b,
{
    if b == 0 {
        assert(s.skip(0) =~= s);
    } else {
        assert(is_space(s[0]));
        assert forall|j: int| 0 <= j < b - 1 implies is_space(s.drop_first()[j]) by {
            assert(s.drop_first()[j] == s[j + 1]);
        }
        assert(b - 1 < s.drop_first().len() ==> !is_space(s.drop_first()[b - 1]));
        lemma_trim_start_skip(s.drop_first(), b - 1);
        assert(s.drop_first().skip(b - 1) =~= s.skip(b));
    }
}

/// A whitespace suffix falls away.
proof fn lemma_trim_end_take(s: Seq<char>, e: int)
    requires
        0 <= e <= s.len(),
        forall|j: int| e <= j < s.len() ==> is_space(s[j]),
        e > 0 ==> !is_space(s[e - 1]),
    ensures
        trim_end(s) == s.take(e),
    decreases s.len() - e,
{
    if e == s.len() {
        assert(s.take(e) =~= s);
    } else {
        assert(is_space(s.last()));
        lemma_trim_end_take(s.drop_last(), e);
        assert(s.drop_last().take(e) =~= s.take(e));
    }
}

/// Decides `is_space`.
fn is_space_char(c: char) -> (r: bool)
    ensures
        r == is_space(c),
{
    c == ' ' || c == '\t' || c == '\n' || c == '\r'
}

/// Strips leading and trailing ASCII whitespace.
pub fn trim_str<'a>(s: &'a str) -> (r: &'a str)
    ensures
        r@ == trimmed(s@),
{
    let n = s.unicode_len();
    let mut b: usize = 0;
    while b < n && is_space_char(s.get_char(b))
        invariant
            n == s@.len(),
            b <= n,
            forall|j: int| 0 <= j < b ==> is_space(s@[j]),
        decreases n - b,
    {
        b += 1;
    }
    let mut e: usize = n;
    while e > b && is_space_char(s.get_char(e - 1))
        invariant
            n == s@.len(),
            b <= e <= n,
            forall|j: int| 0 <= j < b ==> is_space(s@[j]),
            b < n ==> !is_space(s@[b as int]),
            forall|j: int| e <= j < n ==> is_space(s@[j]),
        decreases e,
    {
        e -= 1;
    }
    let r = s.substring_char(b, e);
    proof {
        lemma_trim_start_skip(s@, b as int);
        let skipped = s@.skip(b as int);
        assert forall|j: int| e - b <= j < skipped.len() implies is_space(skipped[j]) by {
            assert(skipped[j] == s@[j + b]);
        }
        if e > b {
            assert(skipped[e - b - 1] == s@[e as int - 1]);
        }
        lemma_trim_end_take(skipped, e - b);
        assert(skipped.take(e - b) =~= s@.subrange(b as int, e as int));
    }
    r
}

/// The keys one segment contributes: one key when its trimmed text names
/// one, none otherwise.
pub open spec fn key_of_segment(seg: Seq<char>) -> Seq<KeyCode> {
    match spec_keycode(trimmed(seg)) {
        Some(k) => seq![k],
        None => Seq::empty(),
    }
}

/// Parses the remainder of a binding entry, with the current segment
/// accumulated so far: a comma closes a segment, everything else extends it.
pub open spec fn parse_rest(s: Seq<char>, cur: Seq<char>) -> Seq<KeyCode>
    decreases s.len(),
{
    if s.len() == 0 {
        key_of_segment(cur)
    } else if s[0] == ',' {
        key_of_segment(cur) + parse_rest(s.drop_first(), Seq::empty())
    } else {
        parse_rest(s.drop_first(), cur.push(s[0]))
    }
}

/// The keys a comma-separated binding entry names, in order, skipping names
/// that parse to no key.
pub open spec fn spec_parse_keys(s: Seq<char>) -> Seq<KeyCode> {
    parse_rest(s, Seq::empty())
}

/// Parses a comma-separated binding entry into keys.
pub fn parse_keys(key_string: &str) -> (r: Vec<KeyCode>)
    ensures
        r@ == spec_parse_keys(key_string@),
{
    let n = key_string.unicode_len();
    let mut result: Vec<KeyCode> = Vec::new();
    let mut seg_start: usize = 0;
    let mut i: usize = 0;
    proof {
        assert(key_string@.skip(0) =~= key_string@);
        assert(key_string@.subrange(0, 0) =~= Seq::<char>::empty());
    }
    while i < n
        invariant
            n == key_string@.len(),
            seg_start <= i <= n,
            spec_parse_keys(key_string@) == result@ + parse_rest(
                key_string@.skip(i as int),
                key_string@.subrange(seg_start as int, i as int),
            ),
        decreases n - i,
    {
        let ghost cur = key_string@.subrange(seg_start as int, i as int);
        let c = key_string.get_char(i);
        proof {
            assert(key_string@.skip(i as int)[0] == key_string@[i as int]);
            assert(key_string@.skip(i as int).drop_first() =~= key_string@.skip(i as int + 1));
        }
        if c == ',' {
            let seg = key_string.substring_char(seg_start, i);
            let t = trim_str(seg);
            proof {
                assert(seg@ =~= cur);
            }
            match string_to_keycode(t) {
                Some(k) => {
                    result.push(k);
                    proof {
                        assert(key_of_segment(cur) =~= seq![k]);
                        assert(result@ + parse_rest(
                            key_string@.skip(i as int + 1),
                            Seq::empty(),
                        ) =~= result@.drop_last() + (key_of_segment(cur) + parse_rest(
                            key_string@.skip(i as int + 1),
                            Seq::empty(),
                        )));
                    }
                }
                None => {
                    proof {
                        assert(key_of_segment(cur) =~= Seq::<KeyCode>::empty());
                        assert(result@ + parse_rest(
                            key_string@.skip(i as int + 1),
                            Seq::empty(),
                        ) =~= result@ + (key_of_segment(cur) + parse_rest(
                            key_string@.skip(i as int + 1),
                            Seq::empty(),
                        )));
                    }
                }
            }
            seg_start = i + 1;
            proof {
                assert(key_string@.subrange(seg_start as int, i as int + 1) =~= Seq::<
                    char,
                >::empty());
            }
        } else {
            proof {
                assert(cur.push(key_string@[i as int]) =~= key_string@.subrange(
                    seg_start as int,
                    i as int + 1,
                ));
            }
        }
        i += 1;
    }
    let ghost cur = key_string@.subrange(seg_start as int, n as int);
    proof {
        assert(key_string@.skip(n as int).len() == 0);
    }
    let seg = key_string.substring_char(seg_start, n);
    let t = trim_str(seg);
    proof {
        assert(seg@ =~= cur);
    }
    match string_to_keycode(t) {
        Some(k) => {
            result.push(k);
            proof {
                assert(key_of_segment(cur) =~= seq![k]);
                assert(result@ =~= result@.drop_last() + key_of_segment(cur));
            }
        }
        None => {
            proof {
                assert(key_of_segment(cur) =~= Seq::<KeyCode>::empty());
                assert(result@ =~= result@ + key_of_segment(cur));
            }
        }
    }
    result
}

/// Each key of a binding entry paired with that entry's action.
pub open spec fn pairs_of(keys: Seq<KeyCode>, action: Action) -> Seq<(KeyCode, Action)> {
    keys.map_values(|k: KeyCode| (k, action))
}

/// The whole key map of a configuration: every entry's pairs, in the fixed
/// build order. A later pair overrides an earlier one for the same key.
pub open spec fn spec_keybind_pairs(kb: KeyBinds) -> Seq<(KeyCode, Action)> {
    pairs_of(spec_parse_keys(kb.previous_image@), Action::PreviousImage) + pairs_of(
        spec_parse_keys(kb.next_image@),
        Action::NextImage,
    ) + pairs_of(spec_parse_keys(kb.exit@), Action::Exit) + pairs_of(
        spec_parse_keys(kb.set_wallpaper@),
        Action::SetWallpaper,
    ) + pairs_of(spec_parse_keys(kb.delete_image@), Action::DeleteImage) + pairs_of(
        spec_parse_keys(kb.confirm_delete@),
        Action::ConfirmDelete,
    ) + pairs_of(spec_parse_keys(kb.cancel_delete@), Action::CancelDelete) + pairs_of(
        spec_parse_keys(kb.always_delete@),
        Action::AlwaysDelete,
    )
}

/// The action of the last pair whose key matches, if any: later bindings
/// override earlier ones.
pub open spec fn spec_lookup(pairs: Seq<(KeyCode, Action)>, key: KeyCode) -> Option<Action>
    decreases pairs.len(),
{
    if pairs.len() == 0 {
        None
    } else if pairs.last().0 == key {
        Some(pairs.last().1)
    } else {
        spec_lookup(pairs.drop_last(), key)
    }
}

/// Appends one binding entry's pairs to the map being built.
fn push_pairs(map: &mut Vec<(KeyCode, Action)>, entry: &String, action: Action)
    ensures
        final(map)@ == old(map)@ + pairs_of(spec_parse_keys(entry@), action),
{
    let keys = parse_keys(entry.as_str());
    let ghost base = map@;
    let mut i: usize = 0;
    proof {
        assert(base + pairs_of(keys@.take(0), action) =~= base);
    }
    while i < keys.len()
        invariant
            i <= keys@.len(),
            keys@ == spec_parse_keys(entry@),
            map@ == base + pairs_of(keys@.take(i as int), action),
        decreases keys@.len() - i,
    {
        let k = keys[i];
        map.push((k, action));
        proof {
            assert(pairs_of(keys@.take(i as int + 1), action) =~= pairs_of(
                keys@.take(i as int),
                action,
            ).push((k, action)));
            assert(map@ =~= base + pairs_of(keys@.take(i as int + 1), action));
        }
        i += 1;
    }
    proof {
        assert(keys@.take(keys@.len() as int) =~= keys@);
    }
}

/// Builds the key map of a configuration, one binding entry after another in
/// the fixed order.
pub fn build_keybind_map(keybinds: &KeyBinds) -> (r: Vec<(KeyCode, Action)>)
    ensures
        r@ == spec_keybind_pairs(*keybinds),
{
    let mut map: Vec<(KeyCode, Action)> = Vec::new();
    proof {
        assert(map@ + pairs_of(spec_parse_keys(keybinds.previous_image@), Action::PreviousImage)
            =~= pairs_of(spec_parse_keys(keybinds.previous_image@), Action::PreviousImage));
    }
    push_pairs(&mut map, &keybinds.previous_image, Action::PreviousImage);
    push_pairs(&mut map, &keybinds.next_image, Action::NextImage);
    push_pairs(&mut map, &keybinds.exit, Action::Exit);
    push_pairs(&mut map, &keybinds.set_wallpaper, Action::SetWallpaper);
    push_pairs(&mut map, &keybinds.delete_image, Action::DeleteImage);
    push_pairs(&mut map, &keybinds.confirm_delete, Action::ConfirmDelete);
    push_pairs(&mut map, &keybinds.cancel_delete, Action::CancelDelete);
    push_pairs(&mut map, &keybinds.always_delete, Action::AlwaysDelete);
    map
}

/// When no pair at or after position `i` matches, the lookup is decided by
/// the prefix.
proof fn lemma_lookup_prefix(pairs: Seq<(KeyCode, Action)>, key: KeyCode, i: int)
    requires
        0 <= i <= pairs.len(),
        forall|j: int| i <= j < pairs.len() ==> pairs[j].0 != key,
    ensures
        spec_lookup(pairs, key) == spec_lookup(pairs.take(i), key),
    decreases pairs.len() - i,
{
    if i == pairs.len() {
        assert(pairs.take(i) =~= pairs);
    } else {
        assert(pairs.last().0 != key);
        lemma_lookup_prefix(pairs.drop_last(), key, i);
        assert(pairs.drop_last().take(i) =~= pairs.take(i));
    }
}

/// The configuration and the key map built from its bindings.
pub struct ConfigManager {
    config: Config,
    keybind_map: Vec<(KeyCode, Action)>,
}

impl ConfigManager {
    /// The held configuration.
    pub closed spec fn config_view(&self) -> Config {
        self.config
    }

    /// The held key map.
    pub closed spec fn map_view(&self) -> Seq<(KeyCode, Action)> {
        self.keybind_map@
    }

    /// The map always mirrors the held bindings.
    pub open spec fn wf(&self) -> bool {
        self.map_view() == spec_keybind_pairs(self.config_view().keybinds)
    }

    /// Builds the key map for a configuration; the caller read (or
    /// defaulted) the configuration beforehand.
    pub fn new(config: Config) -> (r: Self)
        ensures
            r.wf(),
            r.config_view() == config,
    {
        let keybind_map = build_keybind_map(&config.keybinds);
        ConfigManager { config, keybind_map }
    }

    /// The action bound to a key, with later bindings overriding earlier
    /// ones; `None` for an unbound key.
    pub fn get_action_for_key(&self, key: KeyCode) -> (r: Option<Action>)
        ensures
            r == spec_lookup(self.map_view(), key),
    {
        let n = self.keybind_map.len();
        let mut i: usize = n;
        while i > 0
            invariant
                n == self.keybind_map@.len(),
                i <= n,
                forall|j: int| i <= j < n ==> self.keybind_map@[j].0 != key,
            decreases i,
        {
            let pair = self.keybind_map[i - 1];
            if pair.0 == key {
                proof {
                    lemma_lookup_prefix(self.map_view(), key, i as int);
                    assert(self.map_view().take(i as int).last() == self.map_view()[i - 1]);
                }
                return Some(pair.1);
            }
            i -= 1;
        }
        proof {
            lemma_lookup_prefix(self.map_view(), key, 0);
            assert(self.map_view().take(0).len() == 0);
        }
        None
    }

    /// The held configuration.
    pub fn get_config(&self) -> (r: &Config)
        ensures
            r == self.config_view(),
    {
        &self.config
    }
}

} // verus!
