//! Translation of window input into the editor's input vocabulary: key
//! chords, mouse actions and resize requests.
use vstd::prelude::*;

use crate::events::{ClientEvent, NvimMode};

verus! {

/// A key of the keyboard, as far as translation tells keys apart.
#[derive(Debug, Clone, Copy, PartialEq, Eq, Structural)]
pub enum Key {
    Space,
    Comma,
    Minus,
    Period,
    Slash,
    Num0,
    Num1,
    Num2,
    Num3,
    Num4,
    Num5,
    Num6,
    Num7,
    Num8,
    Num9,
    Semicolon,
    Equals,
    LeftBracket,
    Backslash,
    RightBracket,
    Backquote,
    A,
    B,
    C,
    D,
    E,
    F,
    G,
    H,
    I,
    J,
    K,
    L,
    M,
    N,
    O,
    P,
    Q,
    R,
    S,
    T,
    U,
    V,
    W,
    X,
    Y,
    Z,
    Caret,
    Backspace,
    Tab,
    Return,
    Escape,
    Delete,
    F1,
    F2,
    F3,
    F4,
    F5,
    F6,
    F7,
    F8,
    F9,
    F10,
    F11,
    F12,
    Insert,
    Home,
    PageUp,
    End,
    PageDown,
    Right,
    Left,
    Down,
    Up,
    KpDivide,
    KpMultiply,
    KpMinus,
    KpPlus,
    KpEnter,
    Kp1,
    Kp2,
    Kp3,
    Kp4,
    Kp5,
    Kp6,
    Kp7,
    Kp8,
    Kp9,
    Kp0,
    KpPeriod,
    Help,
    Undo,
    Other,
}

/// The name a key is sent under when ctrl or alt is held; keys without one
/// are left to text input.
pub open spec fn chord_name(k: Key) -> Option<Seq<char>> {
    match k {
        Key::Space => Some("Space"@),
            Key::Comma => Some(","@),
            Key::Minus => Some("-"@),
            Key::Period => Some("."@),
            Key::Slash => Some("/"@),
            Key::Num0 => Some("0"@),
            Key::Num1 => Some("1"@),
            Key::Num2 => Some("2"@),
            Key::Num3 => Some("3"@),
            Key::Num4 => Some("4"@),
            Key::Num5 => Some("5"@),
            Key::Num6 => Some("6"@),
            Key::Num7 => Some("7"@),
            Key::Num8 => Some("8"@),
            Key::Num9 => Some("9"@),
            Key::Semicolon => Some(";"@),
            Key::Equals => Some("="@),
            Key::LeftBracket => Some("["@),
            Key::Backslash => Some("\\"@),
            Key::RightBracket => Some("]"@),
            Key::Backquote => Some("`"@),
            Key::A => Some("a"@),
            Key::B => Some("b"@),
            Key::C => Some("c"@),
            Key::D => Some("d"@),
            Key::E => Some("e"@),
            Key::F => Some("f"@),
            Key::G => Some("g"@),
            Key::H => Some("h"@),
            Key::I => Some("i"@),
            Key::J => Some("j"@),
            Key::K => Some("k"@),
            Key::L => Some("l"@),
            Key::M => Some("m"@),
            Key::N => Some("n"@),
            Key::O => Some("o"@),
            Key::P => Some("p"@),
            Key::Q => Some("q"@),
            Key::R => Some("r"@),
            Key::S => Some("s"@),
            Key::T => Some("t"@),
            Key::U => Some("u"@),
            Key::V => Some("v"@),
            Key::W => Some("w"@),
            Key::X => Some("x"@),
            Key::Y => Some("y"@),
            Key::Z => Some("z"@),
            Key::Caret => Some("^"@),
            _ => None,
    }
}

/// The name of a key under shift, where shift changes the symbol.
pub open spec fn shifted_name(k: Key) -> Option<Seq<char>> {
    match k {
        Key::Num0 => Some(")"@),
            Key::Num1 => Some("!"@),
            Key::Num2 => Some("@"@),
            Key::Num3 => Some("#"@),
            Key::Num4 => Some("$"@),
            Key::Num5 => Some("%"@),
            Key::Num6 => Some("^"@),
            Key::Num7 => Some("&"@),
            Key::Num8 => Some("*"@),
            Key::Num9 => Some("("@),
            Key::Comma => Some("<"@),
            Key::Minus => Some("_"@),
            Key::Period => Some(">"@),
            Key::Slash => Some("?"@),
            Key::Semicolon => Some(":"@),
            Key::Equals => Some("+"@),
            Key::LeftBracket => Some("{"@),
            Key::Backslash => Some("|"@),
            Key::RightBracket => Some("}"@),
            Key::Backquote => Some("~"@),
            _ => None,
    }
}

/// The name of a key that is sent whatever modifiers are held.
pub open spec fn special_name(k: Key) -> Option<Seq<char>> {
    match k {
        Key::Backspace => Some("BS"@),
            Key::Tab => Some("Tab"@),
            Key::Return => Some("CR"@),
            Key::Escape => Some("Esc"@),
            Key::Delete => Some("Del"@),
            Key::F1 => Some("F1"@),
            Key::F2 => Some("F2"@),
            Key::F3 => Some("F3"@),
            Key::F4 => Some("F4"@),
            Key::F5 => Some("F5"@),
            Key::F6 => Some("F6"@),
            Key::F7 => Some("F7"@),
            Key::F8 => Some("F8"@),
            Key::F9 => Some("F9"@),
            Key::F10 => Some("F10"@),
            Key::F11 => Some("F11"@),
            Key::F12 => Some("F12"@),
            Key::Insert => Some("Insert"@),
            Key::Home => Some("Home"@),
            Key::PageUp => Some("PageUp"@),
            Key::End => Some("End"@),
            Key::PageDown => Some("PageDown"@),
            Key::Right => Some("Right"@),
            Key::Left => Some("Left"@),
            Key::Down => Some("Down"@),
            Key::Up => Some("Up"@),
            Key::KpDivide => Some("kDivide"@),
            Key::KpMultiply => Some("kMultiply"@),
            Key::KpMinus => Some("kMinus"@),
            Key::KpPlus => Some("kPlus"@),
            Key::KpEnter => Some("kEnter"@),
            Key::Kp1 => Some("k1"@),
            Key::Kp2 => Some("k2"@),
            Key::Kp3 => Some("k3"@),
            Key::Kp4 => Some("k4"@),
            Key::Kp5 => Some("k5"@),
            Key::Kp6 => Some("k6"@),
            Key::Kp7 => Some("k7"@),
            Key::Kp8 => Some("k8"@),
            Key::Kp9 => Some("k9"@),
            Key::Kp0 => Some("k0"@),
            Key::KpPeriod => Some("kPoint"@),
            Key::Help => Some("Help"@),
            Key::Undo => Some("Undo"@),
            _ => None,
    }
}

fn chord_key_name(k: Key) -> (r: Option<&'static str>)
    ensures
        r is Some <==> chord_name(k) is Some,
        r matches Some(s) ==> s@ == chord_name(k).unwrap(),
{
    match k {
        Key::Space => Some("Space"),
            Key::Comma => Some(","),
            Key::Minus => Some("-"),
            Key::Period => Some("."),
            Key::Slash => Some("/"),
            Key::Num0 => Some("0"),
            Key::Num1 => Some("1"),
            Key::Num2 => Some("2"),
            Key::Num3 => Some("3"),
            Key::Num4 => Some("4"),
            Key::Num5 => Some("5"),
            Key::Num6 => Some("6"),
            Key::Num7 => Some("7"),
            Key::Num8 => Some("8"),
            Key::Num9 => Some("9"),
            Key::Semicolon => Some(";"),
            Key::Equals => Some("="),
            Key::LeftBracket => Some("["),
            Key::Backslash => Some("\\"),
            Key::RightBracket => Some("]"),
            Key::Backquote => Some("`"),
            Key::A => Some("a"),
            Key::B => Some("b"),
            Key::C => Some("c"),
            Key::D => Some("d"),
            Key::E => Some("e"),
            Key::F => Some("f"),
            Key::G => Some("g"),
            Key::H => Some("h"),
            Key::I => Some("i"),
            Key::J => Some("j"),
            Key::K => Some("k"),
            Key::L => Some("l"),
            Key::M => Some("m"),
            Key::N => Some("n"),
            Key::O => Some("o"),
            Key::P => Some("p"),
            Key::Q => Some("q"),
            Key::R => Some("r"),
            Key::S => Some("s"),
            Key::T => Some("t"),
            Key::U => Some("u"),
            Key::V => Some("v"),
            Key::W => Some("w"),
            Key::X => Some("x"),
            Key::Y => Some("y"),
            Key::Z => Some("z"),
            Key::Caret => Some("^"),
            _ => None,
    }
}

fn shifted_key_name(k: Key) -> (r: Option<&'static str>)
    ensures
        r is Some <==> shifted_name(k) is Some,
        r matches Some(s) ==> s@ == shifted_name(k).unwrap(),
{
    match k {
        Key::Num0 => Some(")"),
            Key::Num1 => Some("!"),
            Key::Num2 => Some("@"),
            Key::Num3 => Some("#"),
            Key::Num4 => Some("$"),
            Key::Num5 => Some("%"),
            Key::Num6 => Some("^"),
            Key::Num7 => Some("&"),
            Key::Num8 => Some("*"),
            Key::Num9 => Some("("),
            Key::Comma => Some("<"),
            Key::Minus => Some("_"),
            Key::Period => Some(">"),
            Key::Slash => Some("?"),
            Key::Semicolon => Some(":"),
            Key::Equals => Some("+"),
            Key::LeftBracket => Some("{"),
            Key::Backslash => Some("|"),
            Key::RightBracket => Some("}"),
            Key::Backquote => Some("~"),
            _ => None,
    }
}

fn special_key_name(k: Key) -> (r: Option<&'static str>)
    ensures
        r is Some <==> special_name(k) is Some,
        r matches Some(s) ==> s@ == special_name(k).unwrap(),
{
    match k {
        Key::Backspace => Some("BS"),
            Key::Tab => Some("Tab"),
            Key::Return => Some("CR"),
            Key::Escape => Some("Esc"),
            Key::Delete => Some("Del"),
            Key::F1 => Some("F1"),
            Key::F2 => Some("F2"),
            Key::F3 => Some("F3"),
            Key::F4 => Some("F4"),
            Key::F5 => Some("F5"),
            Key::F6 => Some("F6"),
            Key::F7 => Some("F7"),
            Key::F8 => Some("F8"),
            Key::F9 => Some("F9"),
            Key::F10 => Some("F10"),
            Key::F11 => Some("F11"),
            Key::F12 => Some("F12"),
            Key::Insert => Some("Insert"),
            Key::Home => Some("Home"),
            Key::PageUp => Some("PageUp"),
            Key::End => Some("End"),
            Key::PageDown => Some("PageDown"),
            Key::Right => Some("Right"),
            Key::Left => Some("Left"),
            Key::Down => Some("Down"),
            Key::Up => Some("Up"),
            Key::KpDivide => Some("kDivide"),
            Key::KpMultiply => Some("kMultiply"),
            Key::KpMinus => Some("kMinus"),
            Key::KpPlus => Some("kPlus"),
            Key::KpEnter => Some("kEnter"),
            Key::Kp1 => Some("k1"),
            Key::Kp2 => Some("k2"),
            Key::Kp3 => Some("k3"),
            Key::Kp4 => Some("k4"),
            Key::Kp5 => Some("k5"),
            Key::Kp6 => Some("k6"),
            Key::Kp7 => Some("k7"),
            Key::Kp8 => Some("k8"),
            Key::Kp9 => Some("k9"),
            Key::Kp0 => Some("k0"),
            Key::KpPeriod => Some("kPoint"),
            Key::Help => Some("Help"),
            Key::Undo => Some("Undo"),
            _ => None,
    }
}

/// The mouse button held down, if any.
#[derive(Debug, Clone, Copy, PartialEq, Eq, Structural)]
pub enum MouseButtonState {
    Left,
    Right,
    Middle,
    Nil,
}

/// The protocol name of a button; empty for none.
pub open spec fn button_name(b: MouseButtonState) -> Seq<char> {
    match b {
        MouseButtonState::Nil => Seq::empty(),
        MouseButtonState::Left => "left"@,
        MouseButtonState::Right => "right"@,
        MouseButtonState::Middle => "middle"@,
    }
}

impl MouseButtonState {
    /// The protocol name of the button.
    pub fn to_string(self) -> (r: String)
        ensures
            r@ == button_name(self),
    {
        match self {
            MouseButtonState::Nil => String::new(),
            MouseButtonState::Left => String::from_str("left"),
            MouseButtonState::Right => String::from_str("right"),
            MouseButtonState::Middle => String::from_str("middle"),
        }
    }
}

/// Which modifier keys are held, left and right apart.
#[derive(Debug, Clone, Copy, PartialEq, Eq, Structural)]
pub struct ModKeys {
    pub lshift: bool,
    pub rshift: bool,
    pub lctrl: bool,
    pub rctrl: bool,
    pub lalt: bool,
    pub ralt: bool,
}

/// What the translator remembers between events.
#[derive(Debug)]
pub struct InputState {
    pub alt_down: bool,
    pub ctrl_down: bool,
    pub shift_down: bool,
    pub mouse_row: i64,
    pub mouse_col: i64,
    pub mouse_button: MouseButtonState,
    pub mode: NvimMode,
    pub num_rows: i64,
    pub num_cols: i64,
}

impl InputState {
    /// No modifier or button held, everything at zero, normal mode.
    pub fn new() -> (r: InputState)
        ensures
            !r.alt_down && !r.ctrl_down && !r.shift_down,
            r.mouse_row == 0 && r.mouse_col == 0,
            r.mouse_button == MouseButtonState::Nil,
            r.mode == NvimMode::Normal,
            r.num_rows == 0 && r.num_cols == 0,
    {
        InputState {
            alt_down: false,
            ctrl_down: false,
            shift_down: false,
            mouse_row: 0,
            mouse_col: 0,
            mouse_button: MouseButtonState::Nil,
            mode: NvimMode::Normal,
            num_rows: 0,
            num_cols: 0,
        }
    }
}

/// Records which of shift, ctrl and alt are held, on either side.
pub fn update_modifier_state(keymod: &ModKeys, state: &mut InputState)
    ensures
        final(state).shift_down == (keymod.lshift || keymod.rshift),
        final(state).ctrl_down == (keymod.lctrl || keymod.rctrl),
        final(state).alt_down == (keymod.lalt || keymod.ralt),
        final(state).mouse_row == old(state).mouse_row,
        final(state).mouse_col == old(state).mouse_col,
        final(state).mouse_button == old(state).mouse_button,
        final(state).mode == old(state).mode,
        final(state).num_rows == old(state).num_rows,
        final(state).num_cols == old(state).num_cols,
{
    state.shift_down = keymod.lshift || keymod.rshift;
    state.ctrl_down = keymod.lctrl || keymod.rctrl;
    state.alt_down = keymod.lalt || keymod.ralt;
}

/// `<`, the held modifiers as `M-`, `C-` and `S-` in that order, the key
/// name, `>`.
pub open spec fn chord(alt: bool, ctrl: bool, shift: bool, name: Seq<char>) -> Seq<char> {
    "<"@ + (if alt { "M-"@ } else { Seq::empty() }) + (if ctrl { "C-"@ } else { Seq::empty() }) + (
    if shift { "S-"@ } else { Seq::empty() }) + name + ">"@
}

fn make_chord(alt: bool, ctrl: bool, shift: bool, name: &str) -> (r: String)
    ensures
        r@ == chord(alt, ctrl, shift, name@),
{
    let mut s = String::from_str("<");
    let ghost s0 = s@;
    if alt {
        s.append("M-");
    }
    let ghost s1 = s@;
    if ctrl {
        s.append("C-");
    }
    let ghost s2 = s@;
    if shift {
        s.append("S-");
    }
    let ghost s3 = s@;
    s.append(name);
    s.append(">");
    proof {
        assert(s1 =~= s0 + (if alt { "M-"@ } else { Seq::empty() }));
        assert(s2 =~= s1 + (if ctrl { "C-"@ } else { Seq::empty() }));
        assert(s3 =~= s2 + (if shift { "S-"@ } else { Seq::empty() }));
    }
    s
}

/// The texts a key press sends: its chord when it has a chord name and ctrl
/// or alt is held (shifted symbols under shift, and no `S-`), then its
/// special name with all held modifiers.
pub open spec fn key_texts(k: Key, alt: bool, ctrl: bool, shift: bool) -> Seq<Seq<char>> {
    let first: Seq<Seq<char>> = if chord_name(k) is Some && (ctrl || alt) {
        let name = if shift && shifted_name(k) is Some {
            shifted_name(k).unwrap()
        } else {
            chord_name(k).unwrap()
        };
        seq![chord(alt, ctrl, false, name)]
    } else {
        Seq::empty()
    };
    let second: Seq<Seq<char>> = if special_name(k) is Some {
        seq![chord(alt, ctrl, shift, special_name(k).unwrap())]
    } else {
        Seq::empty()
    };
    first + second
}

/// The text a client command carries (empty for other commands).
pub open spec fn text_of(e: ClientEvent) -> Seq<char> {
    match e {
        ClientEvent::Text(s) => s@,
        _ => Seq::empty(),
    }
}

/// `cmds` are text commands carrying `texts`, in order.
pub open spec fn sends_texts(cmds: Seq<ClientEvent>, texts: Seq<Seq<char>>) -> bool {
    &&& cmds.len() == texts.len()
    &&& forall|i: int| 0 <= i < cmds.len() ==> (#[trigger] cmds[i]) is Text && text_of(cmds[i]) == texts[i]
}

/// Translates a key press: records the modifiers, then returns the texts to
/// send.
pub fn translate_key_down(state: &mut InputState, key: Key, keymod: &ModKeys) -> (r: Vec<ClientEvent>)
    ensures
        final(state).shift_down == (keymod.lshift || keymod.rshift),
        final(state).ctrl_down == (keymod.lctrl || keymod.rctrl),
        final(state).alt_down == (keymod.lalt || keymod.ralt),
        final(state).mouse_row == old(state).mouse_row,
        final(state).mouse_col == old(state).mouse_col,
        final(state).mouse_button == old(state).mouse_button,
        final(state).mode == old(state).mode,
        final(state).num_rows == old(state).num_rows,
        final(state).num_cols == old(state).num_cols,
        sends_texts(
            r@,
            key_texts(key, final(state).alt_down, final(state).ctrl_down, final(state).shift_down),
        ),
{
    update_modifier_state(keymod, state);
    let alt = state.alt_down;
    let ctrl = state.ctrl_down;
    let shift = state.shift_down;
    let mut out: Vec<ClientEvent> = Vec::new();
    let ghost first: Seq<Seq<char>> = Seq::empty();
    if let Some(name) = chord_key_name(key) {
        if ctrl || alt {
            let sent = if shift {
                match shifted_key_name(key) {
                    Some(s) => s,
                    None => name,
                }
            } else {
                name
            };
            let text = make_chord(alt, ctrl, false, sent);
            proof {
                first = seq![text@];
            }
            out.push(ClientEvent::Text(text));
        }
    }
    let ghost second: Seq<Seq<char>> = Seq::empty();
    if let Some(name) = special_key_name(key) {
        let text = make_chord(alt, ctrl, shift, name);
        proof {
            second = seq![text@];
        }
        out.push(ClientEvent::Text(text));
    }
    proof {
        let texts = key_texts(key, alt, ctrl, shift);
        assert(texts =~= first + second);
        assert(sends_texts(out@, texts));
    }
    out
}

/// Text typed by the user goes through verbatim, unless ctrl or alt is held
/// (then the key press already sent its chord).
pub fn translate_text_input(state: &InputState, text: String) -> (r: Option<ClientEvent>)
    ensures
        !state.ctrl_down && !state.alt_down ==> (r matches Some(e) && e is Text && text_of(e) == text@),
        state.ctrl_down || state.alt_down ==> r is None,
{
    if state.ctrl_down || state.alt_down {
        None
    } else {
        Some(ClientEvent::Text(text))
    }
}

/// `p / size` rounded toward zero, as Rust divides integers.
pub open spec fn div_toward_zero(p: int, size: int) -> int {
    if p >= 0 {
        p / size
    } else {
        -((-p) / size)
    }
}

fn cell_of(p: i32, size: i32) -> (r: i64)
    requires
        size > 0,
    ensures
        r == div_toward_zero(p as int, size as int),
{
    let p = p as i64;
    let size = size as i64;
    if p >= 0 {
        p / size
    } else {
        -((-p) / size)
    }
}

/// `e` is the mouse command for `button` and `action` at `(row, col)` of
/// grid 0, with no modifiers.
pub open spec fn mouse_command(e: ClientEvent, button: Seq<char>, action: Seq<char>, row: i64, col: i64) -> bool {
    match e {
        ClientEvent::Mouse { button: b, action: a, modifier: m, grid: g, row: r, col: c } => {
            &&& b@ == button
            &&& a@ == action
            &&& m@ == Seq::<char>::empty()
            &&& g == 0
            &&& r == row
            &&& c == col
        },
        _ => false,
    }
}

fn mouse(button: String, action: &str, row: i64, col: i64) -> (r: ClientEvent)
    ensures
        mouse_command(r, button@, action@, row, col),
{
    ClientEvent::Mouse {
        button,
        action: String::from_str(action),
        modifier: String::new(),
        grid: 0,
        row,
        col,
    }
}

/// A button press at pixel `(x, y)`: records the cell under it and the
/// button, and sends one `press` per click (none for an unknown button).
pub fn mouse_button_down(
    state: &mut InputState,
    button: MouseButtonState,
    x: i32,
    y: i32,
    clicks: u8,
    col_width: i32,
    row_height: i32,
) -> (r: Vec<ClientEvent>)
    requires
        col_width > 0,
        row_height > 0,
    ensures
        final(state).mouse_col == div_toward_zero(x as int, col_width as int),
        final(state).mouse_row == div_toward_zero(y as int, row_height as int),
        final(state).mouse_button == button,
        button == MouseButtonState::Nil ==> r@.len() == 0,
        button != MouseButtonState::Nil ==> r@.len() == clicks,
        forall|i: int| 0 <= i < r@.len() ==> mouse_command(
            #[trigger] r@[i],
            button_name(button),
            "press"@,
            final(state).mouse_row,
            final(state).mouse_col,
        ),
        final(state).alt_down == old(state).alt_down,
        final(state).ctrl_down == old(state).ctrl_down,
        final(state).shift_down == old(state).shift_down,
{
    state.mouse_col = cell_of(x, col_width);
    state.mouse_row = cell_of(y, row_height);
    state.mouse_button = button;
    let mut out: Vec<ClientEvent> = Vec::new();
    if button != MouseButtonState::Nil {
        let mut i: u8 = 0;
        while i < clicks
            invariant
                i <= clicks,
                out@.len() == i,
                forall|j: int| 0 <= j < i ==> mouse_command(
                    #[trigger] out@[j],
                    button_name(button),
                    "press"@,
                    state.mouse_row,
                    state.mouse_col,
                ),
            decreases clicks - i,
        {
            out.push(mouse(button.to_string(), "press", state.mouse_row, state.mouse_col));
            i = i + 1;
        }
    }
    out
}

/// A button release: sends `release` at the last recorded cell and forgets
/// the held button.
pub fn mouse_button_up(state: &mut InputState, button: MouseButtonState) -> (r: ClientEvent)
    ensures
        mouse_command(r, button_name(button), "release"@, old(state).mouse_row, old(state).mouse_col),
        final(state).mouse_button == MouseButtonState::Nil,
        final(state).mouse_row == old(state).mouse_row,
        final(state).mouse_col == old(state).mouse_col,
{
    let r = mouse(button.to_string(), "release", state.mouse_row, state.mouse_col);
    state.mouse_button = MouseButtonState::Nil;
    r
}

/// Motion at pixel `(x, y)`: while a button is held, records the cell and
/// sends `drag`; otherwise nothing.
pub fn mouse_motion(state: &mut InputState, x: i32, y: i32, col_width: i32, row_height: i32) -> (r:
    Option<ClientEvent>)
    requires
        col_width > 0,
        row_height > 0,
    ensures
        old(state).mouse_button == MouseButtonState::Nil ==> r is None && final(state).mouse_row
            == old(state).mouse_row && final(state).mouse_col == old(state).mouse_col,
        old(state).mouse_button != MouseButtonState::Nil ==> {
            &&& final(state).mouse_col == div_toward_zero(x as int, col_width as int)
            &&& final(state).mouse_row == div_toward_zero(y as int, row_height as int)
            &&& (r matches Some(e) && mouse_command(
                e,
                button_name(old(state).mouse_button),
                "drag"@,
                final(state).mouse_row,
                final(state).mouse_col,
            ))
        },
        final(state).mouse_button == old(state).mouse_button,
{
    if state.mouse_button == MouseButtonState::Nil {
        return None;
    }
    state.mouse_col = cell_of(x, col_width);
    state.mouse_row = cell_of(y, row_height);
    Some(mouse(state.mouse_button.to_string(), "drag", state.mouse_row, state.mouse_col))
}

/// The wheel action for a scroll of `(x, y)` notches; empty when it is not
/// one notch along one axis.
pub open spec fn wheel_action(x: i32, y: i32) -> Seq<char> {
    if x == 0 && y == 1 {
        "up"@
    } else if x == 0 && y == -1 {
        "down"@
    } else if x == 1 && y == 0 {
        "right"@
    } else if x == -1 && y == 0 {
        "left"@
    } else {
        Seq::empty()
    }
}

/// A wheel scroll: sends the `wheel` button with its direction at the last
/// recorded cell.
pub fn mouse_wheel(state: &InputState, x: i32, y: i32) -> (r: ClientEvent)
    ensures
        mouse_command(r, "wheel"@, wheel_action(x, y), state.mouse_row, state.mouse_col),
{
    let action = if x == 0 && y == 1 {
        String::from_str("up")
    } else if x == 0 && y == -1 {
        String::from_str("down")
    } else if x == 1 && y == 0 {
        String::from_str("right")
    } else if x == -1 && y == 0 {
        String::from_str("left")
    } else {
        String::new()
    };
    ClientEvent::Mouse {
        button: String::from_str("wheel"),
        action,
        modifier: String::new(),
        grid: 0,
        row: state.mouse_row,
        col: state.mouse_col,
    }
}

/// The resize request for a window of `w` by `h` pixels: as many whole cells
/// as fit.
pub fn resize_request(w: i64, h: i64, col_width: i64, row_height: i64) -> (r: ClientEvent)
    requires
        w >= 0,
        h >= 0,
        col_width > 0,
        row_height > 0,
    ensures
        r matches ClientEvent::WindowResize { cols, rows } && cols == w / col_width && rows == h / row_height,
{
    ClientEvent::WindowResize { cols: w / col_width, rows: h / row_height }
}

} // verus!
