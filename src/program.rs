//! Compiled macro programs and the primitive input actions they expand to.
use vstd::prelude::*;

verus! {

/// Modifier keys that a macro can hold or release.
#[derive(PartialEq, Eq, Structural, Clone, Copy, Debug)]
pub enum Key {
    Shift,
    Control,
    Alt,
    Command,
}

/// Buttons that a macro can press, release or click; the four scroll
/// directions only make sense for a click.
#[derive(PartialEq, Eq, Structural, Clone, Copy, Debug)]
pub enum Button {
    Left,
    Middle,
    Right,
    ScrollUp,
    ScrollDown,
    ScrollLeft,
    ScrollRight,
}

/// One step of a macro program.
#[derive(PartialEq, Eq, Clone, Debug)]
pub enum Token {
    /// Characters typed one keystroke at a time.
    Sequence(String),
    /// Text entered as a whole.
    Unicode(String),
    KeyUp(Key),
    KeyDown(Key),
    MouseUp(Button),
    MouseDown(Button),
    Click(Button),
}

/// The compiled behaviour of one button in one context: what runs on press,
/// while held, and on release.
#[derive(PartialEq, Eq, Clone, Debug)]
pub struct StateToken {
    pub down: Vec<Token>,
    pub repeat: Vec<Token>,
    pub up: Vec<Token>,
}

/// Pointer buttons of the input-injection layer.
#[derive(PartialEq, Eq, Structural, Clone, Copy, Debug)]
pub enum MouseButton {
    Left,
    Middle,
    Right,
}

/// Modifier keys of the input-injection layer.
#[derive(PartialEq, Eq, Structural, Clone, Copy, Debug)]
pub enum ModifierKey {
    Shift,
    Control,
    Alt,
    Meta,
}

/// One primitive input event to synthesize.
#[derive(PartialEq, Eq, Clone, Debug)]
pub enum InputAction {
    /// One keystroke of the key that types this character.
    KeyClick(char),
    /// The whole text entered at once.
    KeySequence(String),
    KeyDown(ModifierKey),
    KeyUp(ModifierKey),
    MouseDown(MouseButton),
    MouseUp(MouseButton),
    MouseClick(MouseButton),
    /// Horizontal scroll by the given number of notches: positive scrolls
    /// right, negative left.
    ScrollX(i32),
    /// Vertical scroll by the given number of notches: positive scrolls
    /// down, negative up.
    ScrollY(i32),
}

impl StateToken {
    pub open spec fn is_empty(&self) -> bool {
        self.down@.len() == 0 && self.repeat@.len() == 0 && self.up@.len() == 0
    }

    /// A program with no tokens in any phase.
    pub fn empty() -> (r: StateToken)
        ensures
            r.is_empty(),
    {
        StateToken { down: Vec::new(), repeat: Vec::new(), up: Vec::new() }
    }

    /// Whether no phase of the program holds a token.
    pub fn has_no_tokens(&self) -> (r: bool)
        ensures
            r == self.is_empty(),
    {
        self.down.len() == 0 && self.repeat.len() == 0 && self.up.len() == 0
    }
}

impl Token {
    /// An equal copy of the token.
    pub fn duplicate(&self) -> (r: Token)
        ensures
            r == *self,
    {
        match self {
            Token::Sequence(s) => Token::Sequence(s.clone()),
            Token::Unicode(s) => Token::Unicode(s.clone()),
            Token::KeyUp(k) => Token::KeyUp(*k),
            Token::KeyDown(k) => Token::KeyDown(*k),
            Token::MouseUp(b) => Token::MouseUp(*b),
            Token::MouseDown(b) => Token::MouseDown(*b),
            Token::Click(b) => Token::Click(*b),
        }
    }
}

/// A copy of a token sequence with the same tokens in the same order.
pub fn copy_tokens(tokens: &Vec<Token>) -> (r: Vec<Token>)
    ensures
        r@ == tokens@,
{
    let mut r: Vec<Token> = Vec::new();
    let mut i: usize = 0;
    while i < tokens.len()
        invariant
            i <= tokens@.len(),
            r@ == tokens@.subrange(0, i as int),
        decreases tokens@.len() - i,
    {
        r.push(tokens[i].duplicate());
        i = i + 1;
        assert(r@ =~= tokens@.subrange(0, i as int));
    }
    assert(r@ =~= tokens@);
    r
}

/// The modifier of the injection layer that a macro key stands for.
pub open spec fn modifier_of(key: Key) -> ModifierKey {
    match key {
        Key::Shift => ModifierKey::Shift,
        Key::Control => ModifierKey::Control,
        Key::Alt => ModifierKey::Alt,
        Key::Command => ModifierKey::Meta,
    }
}

/// The pointer button a macro button stands for in a press or release; scroll
/// directions have none.
pub open spec fn pointer_of(button: Button) -> Option<MouseButton> {
    match button {
        Button::Left => Some(MouseButton::Left),
        Button::Middle => Some(MouseButton::Middle),
        Button::Right => Some(MouseButton::Right),
        _ => None,
    }
}

/// What a click token does: a pointer click, or one scroll notch.
pub open spec fn click_action(button: Button) -> InputAction {
    match button {
        Button::Left => InputAction::MouseClick(MouseButton::Left),
        Button::Middle => InputAction::MouseClick(MouseButton::Middle),
        Button::Right => InputAction::MouseClick(MouseButton::Right),
        Button::ScrollUp => InputAction::ScrollY(-1i32),
        Button::ScrollDown => InputAction::ScrollY(1i32),
        Button::ScrollLeft => InputAction::ScrollX(-1i32),
        Button::ScrollRight => InputAction::ScrollX(1i32),
    }
}

/// One keystroke per character, in order.
pub open spec fn keystrokes(text: Seq<char>) -> Seq<InputAction>
    decreases text.len(),
{
    if text.len() == 0 {
        seq![]
    } else {
        keystrokes(text.drop_last()) + seq![InputAction::KeyClick(text.last())]
    }
}

/// The input actions that one token expands to.
pub open spec fn token_actions(token: Token) -> Seq<InputAction> {
    match token {
        Token::Sequence(s) => keystrokes(s@),
        Token::Unicode(s) => seq![InputAction::KeySequence(s)],
        Token::KeyUp(k) => seq![InputAction::KeyUp(modifier_of(k))],
        Token::KeyDown(k) => seq![InputAction::KeyDown(modifier_of(k))],
        Token::MouseUp(b) => match pointer_of(b) {
            Some(m) => seq![InputAction::MouseUp(m)],
            None => seq![],
        },
        Token::MouseDown(b) => match pointer_of(b) {
            Some(m) => seq![InputAction::MouseDown(m)],
            None => seq![],
        },
        Token::Click(b) => seq![click_action(b)],
    }
}

/// The input actions of a token sequence: each token's actions, in order.
pub open spec fn program_actions(tokens: Seq<Token>) -> Seq<InputAction>
    decreases tokens.len(),
{
    if tokens.len() == 0 {
        seq![]
    } else {
        program_actions(tokens.drop_last()) + token_actions(tokens.last())
    }
}

fn modifier(key: Key) -> (r: ModifierKey)
    ensures
        r == modifier_of(key),
{
    match key {
        Key::Shift => ModifierKey::Shift,
        Key::Control => ModifierKey::Control,
        Key::Alt => ModifierKey::Alt,
        Key::Command => ModifierKey::Meta,
    }
}

fn pointer(button: Button) -> (r: Option<MouseButton>)
    ensures
        r == pointer_of(button),
{
    match button {
        Button::Left => Some(MouseButton::Left),
        Button::Middle => Some(MouseButton::Middle),
        Button::Right => Some(MouseButton::Right),
        _ => None,
    }
}

/// Appends one keystroke per character of `text` to `out`.
fn push_keystrokes(out: &mut Vec<InputAction>, text: &String)
    ensures
        final(out)@ == old(out)@ + keystrokes(text@),
{
    let n: usize = text.as_str().unicode_len();
    let ghost start = out@;
    let mut i: usize = 0;
    assert(start + keystrokes(text@.subrange(0, 0)) =~= start);
    while i < n
        invariant
            n == text@.len(),
            i <= n,
            out@ == start + keystrokes(text@.subrange(0, i as int)),
            start == old(out)@,
        decreases n - i,
    {
        let c = text.as_str().get_char(i);
        out.push(InputAction::KeyClick(c));
        i = i + 1;
        assert(text@.subrange(0, i as int).drop_last() =~= text@.subrange(0, i - 1));
        assert(out@ =~= start + keystrokes(text@.subrange(0, i as int)));
    }
    assert(text@.subrange(0, n as int) =~= text@);
}

/// Appends the input actions of one token to `out`.
fn push_token_actions(out: &mut Vec<InputAction>, token: &Token)
    ensures
        final(out)@ == old(out)@ + token_actions(*token),
{
    match token {
        Token::Sequence(s) => push_keystrokes(out, s),
        Token::Unicode(s) => out.push(InputAction::KeySequence(s.clone())),
        Token::KeyUp(k) => out.push(InputAction::KeyUp(modifier(*k))),
        Token::KeyDown(k) => out.push(InputAction::KeyDown(modifier(*k))),
        Token::MouseUp(b) => match pointer(*b) {
            Some(m) => out.push(InputAction::MouseUp(m)),
            None => {},
        },
        Token::MouseDown(b) => match pointer(*b) {
            Some(m) => out.push(InputAction::MouseDown(m)),
            None => {},
        },
        Token::Click(b) => {
            let action = match b {
                Button::Left => InputAction::MouseClick(MouseButton::Left),
                Button::Middle => InputAction::MouseClick(MouseButton::Middle),
                Button::Right => InputAction::MouseClick(MouseButton::Right),
                Button::ScrollUp => InputAction::ScrollY(-1),
                Button::ScrollDown => InputAction::ScrollY(1),
                Button::ScrollLeft => InputAction::ScrollX(-1),
                Button::ScrollRight => InputAction::ScrollX(1),
            };
            out.push(action);
        },
    }
    assert(final(out)@ =~= old(out)@ + token_actions(*token));
}

/// Expands a macro program phase into the input actions that carry it out, in
/// order; press and release of a scroll direction do nothing.
pub fn emulate_token_vec(tokens: &Vec<Token>) -> (r: Vec<InputAction>)
    ensures
        r@ == program_actions(tokens@),
{
    let mut r: Vec<InputAction> = Vec::new();
    let mut i: usize = 0;
    while i < tokens.len()
        invariant
            i <= tokens@.len(),
            r@ == program_actions(tokens@.subrange(0, i as int)),
        decreases tokens@.len() - i,
    {
        push_token_actions(&mut r, &tokens[i]);
        i = i + 1;
        assert(tokens@.subrange(0, i as int).drop_last() =~= tokens@.subrange(0, i - 1));
    }
    assert(tokens@.subrange(0, i as int) =~= tokens@);
    r
}

} // verus!
