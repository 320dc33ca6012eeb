//! Parsing of textual global-shortcut descriptions such as
//! `"Ctrl+Shift+N"`.
//!
//! A description is a `'+'`-separated list of tokens.  Each token is
//! trimmed of surrounding whitespace and read case-insensitively: the
//! modifier names set their modifier flag, a single letter selects the
//! key, and anything else leaves the current selection alone (so an
//! unrecognized token leaves the key at its default).  The embedding
//! application turns the result into whatever its hotkey framework
//! expects.

use vstd::prelude::*;

verus! {

/// The key of a shortcut: one of the letter keys.
#[derive(Clone, Copy, PartialEq, Eq, Structural, Debug)]
pub enum KeyCode {
    KeyA,
    KeyB,
    KeyC,
    KeyD,
    KeyE,
    KeyF,
    KeyG,
    KeyH,
    KeyI,
    KeyJ,
    KeyK,
    KeyL,
    KeyM,
    KeyN,
    KeyO,
    KeyP,
    KeyQ,
    KeyR,
    KeyS,
    KeyT,
    KeyU,
    KeyV,
    KeyW,
    KeyX,
    KeyY,
    KeyZ,
}

/// A parsed shortcut: the modifier flags and the key.
#[derive(Clone, Copy, PartialEq, Eq, Structural, Debug)]
pub struct ShortcutSpec {
    pub ctrl: bool,
    pub shift: bool,
    pub alt: bool,
    pub meta: bool,
    pub key: KeyCode,
}

impl Default for ShortcutSpec {
    /// No modifiers, and the default key N.
    fn default() -> (s: ShortcutSpec)
        ensures
            s == spec_default_shortcut(),
    {
        ShortcutSpec { ctrl: false, shift: false, alt: false, meta: false, key: KeyCode::KeyN }
    }
}

/// The shortcut before any token is read.
pub open spec fn spec_default_shortcut() -> ShortcutSpec {
    ShortcutSpec { ctrl: false, shift: false, alt: false, meta: false, key: KeyCode::KeyN }
}

/// The whitespace that is trimmed around tokens.
pub open spec fn spec_ws(c: char) -> bool {
    c == ' ' || c == '\t' || c == '\n' || c == '\r'
}

/// `s` without its leading whitespace.
pub open spec fn spec_trim_front(s: Seq<char>) -> Seq<char>
    decreases s.len(),
{
    if s.len() == 0 {
        s
    } else if spec_ws(s.first()) {
        spec_trim_front(s.drop_first())
    } else {
        s
    }
}

/// `s` without its trailing whitespace.
pub open spec fn spec_trim_back(s: Seq<char>) -> Seq<char>
    decreases s.len(),
{
    if s.len() == 0 {
        s
    } else if spec_ws(s.last()) {
        spec_trim_back(s.drop_last())
    } else {
        s
    }
}

/// An ASCII lowercase letter mapped to its uppercase form; anything else
/// unchanged.
pub open spec fn spec_upper(c: char) -> char {
    if 'a' <= c <= 'z' {
        ((c as u8) - 32) as char
    } else {
        c
    }
}

/// The whole sequence uppercased.
pub open spec fn spec_upper_seq(s: Seq<char>) -> Seq<char> {
    s.map_values(|c: char| spec_upper(c))
}

/// The uppercase letter keys, in order.
pub open spec fn spec_key_of(c: char) -> KeyCode {
    if c == 'A' {
        KeyCode::KeyA
    } else if c == 'B' {
        KeyCode::KeyB
    } else if c == 'C' {
        KeyCode::KeyC
    } else if c == 'D' {
        KeyCode::KeyD
    } else if c == 'E' {
        KeyCode::KeyE
    } else if c == 'F' {
        KeyCode::KeyF
    } else if c == 'G' {
        KeyCode::KeyG
    } else if c == 'H' {
        KeyCode::KeyH
    } else if c == 'I' {
        KeyCode::KeyI
    } else if c == 'J' {
        KeyCode::KeyJ
    } else if c == 'K' {
        KeyCode::KeyK
    } else if c == 'L' {
        KeyCode::KeyL
    } else if c == 'M' {
        KeyCode::KeyM
    } else if c == 'N' {
        KeyCode::KeyN
    } else if c == 'O' {
        KeyCode::KeyO
    } else if c == 'P' {
        KeyCode::KeyP
    } else if c == 'Q' {
        KeyCode::KeyQ
    } else if c == 'R' {
        KeyCode::KeyR
    } else if c == 'S' {
        KeyCode::KeyS
    } else if c == 'T' {
        KeyCode::KeyT
    } else if c == 'U' {
        KeyCode::KeyU
    } else if c == 'V' {
        KeyCode::KeyV
    } else if c == 'W' {
        KeyCode::KeyW
    } else if c == 'X' {
        KeyCode::KeyX
    } else if c == 'Y' {
        KeyCode::KeyY
    } else {
        KeyCode::KeyZ
    }
}

/// How one token changes the shortcut being built: modifier names set
/// their flag, a single letter selects the key, anything else changes
/// nothing.
pub open spec fn spec_apply_token(sc: ShortcutSpec, token: Seq<char>) -> ShortcutSpec {
    let t = spec_upper_seq(spec_trim_back(spec_trim_front(token)));
    if t == "CTRL"@ || t == "CONTROL"@ {
        ShortcutSpec { ctrl: true, ..sc }
    } else if t == "SHIFT"@ {
        ShortcutSpec { shift: true, ..sc }
    } else if t == "ALT"@ {
        ShortcutSpec { alt: true, ..sc }
    } else if t == "META"@ || t == "WIN"@ || t == "COMMAND"@ {
        ShortcutSpec { meta: true, ..sc }
    } else if t.len() == 1 && 'A' <= t[0] <= 'Z' {
        ShortcutSpec { key: spec_key_of(t[0]), ..sc }
    } else {
        sc
    }
}

/// The parse as a fold: `token` is the part of the current token read so
/// far, `s` what is left of the input.
pub open spec fn spec_parse_loop(sc: ShortcutSpec, token: Seq<char>, s: Seq<char>) -> ShortcutSpec
    decreases s.len(),
{
    if s.len() == 0 {
        spec_apply_token(sc, token)
    } else if s.first() == '+' {
        spec_parse_loop(spec_apply_token(sc, token), Seq::empty(), s.drop_first())
    } else {
        spec_parse_loop(sc, token.push(s.first()), s.drop_first())
    }
}

/// What [`parse_shortcut`] returns for a description.
pub open spec fn spec_parse(s: Seq<char>) -> ShortcutSpec {
    spec_parse_loop(spec_default_shortcut(), Seq::empty(), s)
}

/// Trimming the front removes exactly the leading run of whitespace.
proof fn lemma_trim_front_eq(s: Seq<char>, a: int)
    requires
        0 <= a <= s.len(),
        forall|j: int| 0 <= j < a ==> spec_ws(s[j]),
        a < s.len() ==> !spec_ws(s[a]),
    ensures
        spec_trim_front(s) == s.subrange(a, s.len() as int),
    decreases a,
{
    if a == 0 {
        assert(s.subrange(0, s.len() as int) =~= s);
    } else {
        let rest = s.drop_first();
        assert(forall|j: int| 0 <= j < a - 1 ==> spec_ws(rest[j]));
        lemma_trim_front_eq(rest, a - 1);
        assert(rest.subrange(a - 1, rest.len() as int) =~= s.subrange(a, s.len() as int));
    }
}

/// Trimming the back removes exactly the trailing run of whitespace.
proof fn lemma_trim_back_eq(s: Seq<char>, b: int)
    requires
        0 <= b <= s.len(),
        forall|j: int| b <= j < s.len() ==> spec_ws(s[j]),
        b > 0 ==> !spec_ws(s[b - 1]),
    ensures
        spec_trim_back(s) == s.subrange(0, b),
    decreases s.len() - b,
{
    if b == s.len() {
        assert(s.subrange(0, b) =~= s);
    } else {
        let rest = s.drop_last();
        lemma_trim_back_eq(rest, b);
        assert(rest.subrange(0, b) =~= s.subrange(0, b));
    }
}

/// Uppercases `c`.
fn upper_char(c: char) -> (r: char)
    ensures
        r == spec_upper(c),
{
    if 'a' <= c && c <= 'z' {
        ((c as u8) - 32) as char
    } else {
        c
    }
}

/// The token trimmed and uppercased.
fn trim_upper(token: &Vec<char>) -> (r: Vec<char>)
    ensures
        r@ == spec_upper_seq(spec_trim_back(spec_trim_front(token@))),
{
    let n = token.len();
    let mut a: usize = 0;
    while a < n && (token[a] == ' ' || token[a] == '\t' || token[a] == '\n' || token[a] == '\r')
        invariant
            a <= n,
            n == token@.len(),
            forall|j: int| 0 <= j < a ==> spec_ws(token@[j]),
        decreases n - a,
    {
        a = a + 1;
    }
    let mut b: usize = n;
    while b > a && (token[b - 1] == ' ' || token[b - 1] == '\t' || token[b - 1] == '\n' || token[b
        - 1] == '\r')
        invariant
            a <= b <= n,
            n == token@.len(),
            forall|j: int| 0 <= j < a ==> spec_ws(token@[j]),
            forall|j: int| b <= j < n ==> spec_ws(token@[j]),
        decreases b,
    {
        b = b - 1;
    }
    proof {
        if a == n {
            lemma_trim_front_eq(token@, n as int);
            assert(spec_trim_front(token@) =~= Seq::<char>::empty());
            lemma_trim_back_eq(spec_trim_front(token@), 0);
        } else {
            lemma_trim_front_eq(token@, a as int);
            let mid = token@.subrange(a as int, n as int);
            assert(forall|j: int| b - a <= j < mid.len() ==> spec_ws(mid[j]));
            lemma_trim_back_eq(mid, b - a);
        }
    }
    let mut r: Vec<char> = Vec::new();
    let mut i: usize = a;
    while i < b
        invariant
            a <= i <= b <= n,
            n == token@.len(),
            r@.len() == i - a,
            forall|k: int| 0 <= k < r@.len() ==> r@[k] == spec_upper(token@[a + k]),
        decreases b - i,
    {
        r.push(upper_char(token[i]));
        i = i + 1;
    }
    proof {
        assert(r@ =~= spec_upper_seq(spec_trim_back(spec_trim_front(token@))));
    }
    r
}

/// Whether the characters equal the literal's.
fn chars_eq_lit(s: &Vec<char>, lit: &str) -> (r: bool)
    ensures
        r == (s@ == lit@),
{
    let n = lit.unicode_len();
    if s.len() != n {
        return false;
    }
    let mut i: usize = 0;
    while i < n
        invariant
            i <= n,
            n == lit@.len(),
            n == s@.len(),
            forall|j: int| 0 <= j < i ==> s@[j] == lit@[j],
        decreases n - i,
    {
        if s[i] != lit.get_char(i) {
            return false;
        }
        i = i + 1;
    }
    proof {
        assert(s@ =~= lit@);
    }
    true
}

/// The uppercase letter's key.
fn key_of_char(c: char) -> (k: KeyCode)
    requires
        'A' <= c <= 'Z',
    ensures
        k == spec_key_of(c),
{
    if c == 'A' {
        KeyCode::KeyA
    } else if c == 'B' {
        KeyCode::KeyB
    } else if c == 'C' {
        KeyCode::KeyC
    } else if c == 'D' {
        KeyCode::KeyD
    } else if c == 'E' {
        KeyCode::KeyE
    } else if c == 'F' {
        KeyCode::KeyF
    } else if c == 'G' {
        KeyCode::KeyG
    } else if c == 'H' {
        KeyCode::KeyH
    } else if c == 'I' {
        KeyCode::KeyI
    } else if c == 'J' {
        KeyCode::KeyJ
    } else if c == 'K' {
        KeyCode::KeyK
    } else if c == 'L' {
        KeyCode::KeyL
    } else if c == 'M' {
        KeyCode::KeyM
    } else if c == 'N' {
        KeyCode::KeyN
    } else if c == 'O' {
        KeyCode::KeyO
    } else if c == 'P' {
        KeyCode::KeyP
    } else if c == 'Q' {
        KeyCode::KeyQ
    } else if c == 'R' {
        KeyCode::KeyR
    } else if c == 'S' {
        KeyCode::KeyS
    } else if c == 'T' {
        KeyCode::KeyT
    } else if c == 'U' {
        KeyCode::KeyU
    } else if c == 'V' {
        KeyCode::KeyV
    } else if c == 'W' {
        KeyCode::KeyW
    } else if c == 'X' {
        KeyCode::KeyX
    } else if c == 'Y' {
        KeyCode::KeyY
    } else {
        KeyCode::KeyZ
    }
}

/// Applies one token to the shortcut being built.
fn apply_token(sc: ShortcutSpec, token: &Vec<char>) -> (r: ShortcutSpec)
    ensures
        r == spec_apply_token(sc, token@),
{
    let t = trim_upper(token);
    if chars_eq_lit(&t, "CTRL") || chars_eq_lit(&t, "CONTROL") {
        ShortcutSpec { ctrl: true, ..sc }
    } else if chars_eq_lit(&t, "SHIFT") {
        ShortcutSpec { shift: true, ..sc }
    } else if chars_eq_lit(&t, "ALT") {
        ShortcutSpec { alt: true, ..sc }
    } else if chars_eq_lit(&t, "META") || chars_eq_lit(&t, "WIN") || chars_eq_lit(&t, "COMMAND") {
        ShortcutSpec { meta: true, ..sc }
    } else if t.len() == 1 && 'A' <= t[0] && t[0] <= 'Z' {
        ShortcutSpec { key: key_of_char(t[0]), ..sc }
    } else {
        sc
    }
}

/// Parses a `'+'`-separated shortcut description, per [`spec_parse`].
pub fn parse_shortcut(s: &str) -> (r: ShortcutSpec)
    ensures
        r == spec_parse(s@),
{
    let n = s.unicode_len();
    let mut sc = ShortcutSpec {
        ctrl: false,
        shift: false,
        alt: false,
        meta: false,
        key: KeyCode::KeyN,
    };
    let mut token: Vec<char> = Vec::new();
    let mut i: usize = 0;
    proof {
        assert(s@.subrange(0, n as int) =~= s@);
    }
    while i < n
        invariant
            i <= n,
            n == s@.len(),
            spec_parse(s@) == spec_parse_loop(sc, token@, s@.subrange(i as int, n as int)),
        decreases n - i,
    {
        let c = s.get_char(i);
        proof {
            let rest = s@.subrange(i as int, n as int);
            assert(rest.first() == s@[i as int]);
            assert(rest.drop_first() =~= s@.subrange(i + 1, n as int));
        }
        if c == '+' {
            sc = apply_token(sc, &token);
            token = Vec::new();
        } else {
            token.push(c);
        }
        i = i + 1;
    }
    proof {
        assert(s@.subrange(n as int, n as int) =~= Seq::<char>::empty());
    }
    apply_token(sc, &token)
}

} // verus!
