use vstd::prelude::*;
use crate::text::{chars_of, decimal, decimal_string, push_char, push_decimal, string_from_chars};

verus! {

/// Height of the text input.
#[derive(Clone, Copy, Debug, PartialEq, Eq, Structural)]
pub enum Size {
    Small,
    Normal,
}

impl Size {
    /// The CSS height of the input: "0" for a small input, nothing otherwise.
    pub fn get_height(&self) -> (r: &'static str)
        ensures
            *self == Size::Small ==> r@ == "0"@,
            *self == Size::Normal ==> r@ == ""@,
    {
        match self {
            Size::Small => "0",
            _ => "",
        }
    }
}

/// The physical keys that the text input reacts to; every other key is `Other`.
#[derive(Clone, Copy, Debug, PartialEq, Eq, Structural)]
pub enum KeyCode {
    ShiftLeft,
    ShiftRight,
    Enter,
    NumpadEnter,
    ArrowUp,
    ArrowDown,
    ArrowLeft,
    ArrowRight,
    KeyV,
    Other,
}

/// Which of the tracked keys are held down.
#[derive(Clone, Copy, Debug, PartialEq, Eq, Structural)]
pub struct KeyState {
    pub left_shift_pressed: bool,
    pub right_shift_pressed: bool,
    pub enter_pressed: bool,
    pub numpad_enter_pressed: bool,
}

/// What the input does in answer to a key going down.
#[derive(Clone, Copy, Debug, PartialEq, Eq, Structural)]
pub struct KeydownActions {
    /// Hand the event to the paste handler (Control+V on Linux).
    pub paste: bool,
    /// Submit the text (the `onreturn` handler with `true`).
    pub submit: bool,
    /// Report an up or down arrow to the `onup_down_arrow` handler.
    pub up_down_arrow: bool,
    /// Ask for a cursor position update.
    pub update_cursor: bool,
}

impl KeyState {
    /// No key is held.
    pub fn new() -> (r: Self)
        ensures
            !r.left_shift_pressed,
            !r.right_shift_pressed,
            !r.enter_pressed,
            !r.numpad_enter_pressed,
    {
        KeyState {
            left_shift_pressed: false,
            right_shift_pressed: false,
            enter_pressed: false,
            numpad_enter_pressed: false,
        }
    }

    /// A shift key is held.
    pub open spec fn shift_held(self) -> bool {
        self.left_shift_pressed || self.right_shift_pressed
    }

    /// The state after `code` goes down.
    pub open spec fn after_keydown(self, code: KeyCode) -> KeyState {
        KeyState {
            left_shift_pressed: self.left_shift_pressed || code == KeyCode::ShiftLeft,
            right_shift_pressed: self.right_shift_pressed || code == KeyCode::ShiftRight,
            enter_pressed: self.enter_pressed || code == KeyCode::Enter,
            numpad_enter_pressed: self.numpad_enter_pressed || code == KeyCode::NumpadEnter,
        }
    }

    /// The state after `code` goes up.
    pub open spec fn after_keyup(self, code: KeyCode) -> KeyState {
        KeyState {
            left_shift_pressed: self.left_shift_pressed && code != KeyCode::ShiftLeft,
            right_shift_pressed: self.right_shift_pressed && code != KeyCode::ShiftRight,
            enter_pressed: self.enter_pressed && code != KeyCode::Enter,
            numpad_enter_pressed: self.numpad_enter_pressed && code != KeyCode::NumpadEnter,
        }
    }

    /// A key going down submits the text when it is Enter (or the numpad's
    /// Enter) that was not already held, and no shift key is held.
    pub open spec fn submits(self, code: KeyCode) -> bool {
        &&& (code == KeyCode::Enter && !self.enter_pressed) || (code == KeyCode::NumpadEnter
            && !self.numpad_enter_pressed)
        &&& !self.shift_held()
    }

    /// Handles a key going down: updates which keys are held and says what the
    /// input does. `control_only` tells whether Control is the only modifier;
    /// `is_linux` whether the program runs on Linux; `cursor_updates` whether
    /// the input reports cursor positions.
    pub fn keydown(
        &mut self,
        code: KeyCode,
        control_only: bool,
        is_linux: bool,
        cursor_updates: bool,
    ) -> (a: KeydownActions)
        ensures
            *final(self) == old(self).after_keydown(code),
            final(self).left_shift_pressed == (old(self).left_shift_pressed || code
                == KeyCode::ShiftLeft),
            final(self).right_shift_pressed == (old(self).right_shift_pressed || code
                == KeyCode::ShiftRight),
            final(self).enter_pressed == (old(self).enter_pressed || code == KeyCode::Enter),
            final(self).numpad_enter_pressed == (old(self).numpad_enter_pressed || code
                == KeyCode::NumpadEnter),
            a.submit == (((code == KeyCode::Enter && !old(self).enter_pressed) || (code
                == KeyCode::NumpadEnter && !old(self).numpad_enter_pressed))
                && !old(self).left_shift_pressed && !old(self).right_shift_pressed),
            a.paste == (is_linux && code == KeyCode::KeyV && control_only),
            a.submit == old(self).submits(code),
            a.up_down_arrow == (code == KeyCode::ArrowUp || code == KeyCode::ArrowDown),
            a.update_cursor == (cursor_updates && (code == KeyCode::ArrowUp || code
                == KeyCode::ArrowDown || code == KeyCode::ArrowLeft || code
                == KeyCode::ArrowRight)),
    {
        let paste = is_linux && code == KeyCode::KeyV && control_only;
        let old_enter_pressed = self.enter_pressed;
        let old_numpad_enter_pressed = self.numpad_enter_pressed;
        match code {
            KeyCode::ShiftLeft => {
                if !self.left_shift_pressed {
                    self.left_shift_pressed = true;
                }
            },
            KeyCode::ShiftRight => {
                if !self.right_shift_pressed {
                    self.right_shift_pressed = true;
                }
            },
            KeyCode::Enter => {
                if !self.enter_pressed {
                    self.enter_pressed = true;
                }
            },
            KeyCode::NumpadEnter => {
                if !self.numpad_enter_pressed {
                    self.numpad_enter_pressed = true;
                }
            },
            _ => {},
        }
        let enter_toggled = !old_enter_pressed && code == KeyCode::Enter;
        let numpad_enter_toggled = !old_numpad_enter_pressed && code == KeyCode::NumpadEnter;
        let submit = (enter_toggled || numpad_enter_toggled) && !(self.right_shift_pressed
            || self.left_shift_pressed);
        let (up_down_arrow, arrow) = match code {
            KeyCode::ArrowDown | KeyCode::ArrowUp => (true, true),
            KeyCode::ArrowLeft | KeyCode::ArrowRight => (false, true),
            _ => (false, false),
        };
        KeydownActions { paste, submit, up_down_arrow, update_cursor: cursor_updates && arrow }
    }

    /// Handles a key going up: the key is no longer held.
    pub fn keyup(&mut self, code: KeyCode)
        ensures
            *final(self) == old(self).after_keyup(code),
            final(self).left_shift_pressed == (old(self).left_shift_pressed && code
                != KeyCode::ShiftLeft),
            final(self).right_shift_pressed == (old(self).right_shift_pressed && code
                != KeyCode::ShiftRight),
            final(self).enter_pressed == (old(self).enter_pressed && code != KeyCode::Enter),
            final(self).numpad_enter_pressed == (old(self).numpad_enter_pressed && code
                != KeyCode::NumpadEnter),
    {
        match code {
            KeyCode::ShiftLeft => self.left_shift_pressed = false,
            KeyCode::ShiftRight => self.right_shift_pressed = false,
            KeyCode::Enter => self.enter_pressed = false,
            KeyCode::NumpadEnter => self.numpad_enter_pressed = false,
            _ => {},
        }
    }
}

/// Holding Enter down submits once: a key repeat of the same Enter, with no
/// key going up in between, does not submit again.
pub proof fn lemma_held_enter_submits_once(s: KeyState, code: KeyCode)
    requires
        code == KeyCode::Enter || code == KeyCode::NumpadEnter,
    ensures
        !s.after_keydown(code).submits(code),
{
}

/// After Enter goes up, pressing it again (with no shift held) submits again.
pub proof fn lemma_release_rearms_enter(s: KeyState, code: KeyCode)
    requires
        code == KeyCode::Enter || code == KeyCode::NumpadEnter,
        !s.shift_held(),
    ensures
        s.after_keyup(code).submits(code),
{
}

/// While a shift key is held no key submits the text.
pub proof fn lemma_shift_blocks_submit(s: KeyState, code: KeyCode)
    requires
        s.shift_held(),
    ensures
        !s.submits(code),
        !s.after_keydown(KeyCode::ShiftLeft).submits(code),
{
}

/// The state after a run of keys going down (`true`) and up (`false`).
pub open spec fn after_keys(s: KeyState, events: Seq<(bool, KeyCode)>) -> KeyState
    decreases events.len(),
{
    if events.len() == 0 {
        s
    } else {
        let before = after_keys(s, events.drop_last());
        let (down, code) = events.last();
        if down {
            before.after_keydown(code)
        } else {
            before.after_keyup(code)
        }
    }
}

/// A shift key that went down is held until it goes up: whatever happened
/// before, once a shift key went down and has not gone up since, no key
/// submits the text, so Shift+Enter with either shift key inserts a line.
pub proof fn lemma_held_shift_blocks_submit(
    s: KeyState,
    events: Seq<(bool, KeyCode)>,
    i: int,
    code: KeyCode,
)
    requires
        0 <= i < events.len(),
        events[i] == (true, KeyCode::ShiftLeft) || events[i] == (true, KeyCode::ShiftRight),
        forall|j: int| i < j < events.len() ==> #[trigger] events[j] != (false, events[i].1),
    ensures
        after_keys(s, events).left_shift_pressed || after_keys(s, events).right_shift_pressed,
        events[i].1 == KeyCode::ShiftLeft ==> after_keys(s, events).left_shift_pressed,
        events[i].1 == KeyCode::ShiftRight ==> after_keys(s, events).right_shift_pressed,
        !after_keys(s, events).submits(code),
    decreases events.len(),
{
    if i < events.len() - 1 {
        let d = events.drop_last();
        assert forall|j: int| i < j < d.len() implies #[trigger] d[j] != (false, d[i].1) by {
            assert(d[j] == events[j]);
        }
        lemma_held_shift_blocks_submit(s, d, i, code);
        assert(events[events.len() - 1] != (false, events[i].1));
    }
}

/// The input is disabled while it loads or when it is switched off.
pub fn input_disabled(loading: bool, is_disabled: bool) -> (r: bool)
    ensures
        r == (loading || is_disabled),
{
    loading || is_disabled
}

/// The placeholder shown: none while the input is switched off.
pub fn shown_placeholder(is_disabled: bool, placeholder: &str) -> (r: String)
    ensures
        is_disabled ==> r@ == Seq::<char>::empty(),
        !is_disabled ==> r@ == placeholder@,
{
    if is_disabled {
        String::new()
    } else {
        String::from_str(placeholder)
    }
}

/// `c` is a lower-case hexadecimal digit.
pub open spec fn is_lower_hex(c: char) -> bool {
    ('0' <= c && c <= '9') || ('a' <= c && c <= 'f')
}

/// The shape of a random (version 4) UUID in its hyphenated lower-case form:
/// 36 characters, hyphens at 8, 13, 18 and 23, lower-case hexadecimal digits
/// elsewhere, the version digit `4` at 14, and the variant digit (8, 9, a or
/// b) at 19.
pub open spec fn is_v4_uuid_text(t: Seq<char>) -> bool {
    &&& t.len() == 36
    &&& t[8] == '-' && t[13] == '-' && t[18] == '-' && t[23] == '-'
    &&& forall|i: int|
        0 <= i < 36 && i != 8 && i != 13 && i != 18 && i != 23 ==> is_lower_hex(#[trigger] t[i])
    &&& t[14] == '4'
    &&& t[19] == '8' || t[19] == '9' || t[19] == 'a' || t[19] == 'b'
}

/// A fresh random identifier: `uuid::Uuid::new_v4().to_string()`. The
/// identifier is random; only its shape is stated: `new_v4` sets the version
/// and variant bits, and the text is the hyphenated lower-case form.
#[verifier::external_body]
fn new_uuid_string() -> (r: String)
    ensures
        is_v4_uuid_text(r@),
{
    uuid::Uuid::new_v4().to_string()
}

/// The identifier of the input element: the given `id`, or a fresh random
/// UUID when `id` is empty.
pub fn input_element_id(id: &str) -> (r: String)
    ensures
        id@.len() > 0 ==> r@ == id@,
        id@.len() == 0 ==> is_v4_uuid_text(r@),
{
    if id.is_empty() {
        new_uuid_string()
    } else {
        String::from_str(id)
    }
}

/// Whether the element identifier has to follow a new, non-empty `id`.
pub fn id_changed(id: &str, current: &String) -> (r: bool)
    ensures
        r == (id@.len() > 0 && current@ != id@),
{
    if id.is_empty() {
        false
    } else {
        let owned = String::from_str(id);
        !current.eq(&owned)
    }
}

/// `n` in decimal, with a minus sign when negative.
pub open spec fn signed_decimal(n: int) -> Seq<char> {
    if n < 0 {
        seq!['-'] + decimal((-n) as nat)
    } else {
        decimal(n as nat)
    }
}

/// The decimal form of `n` (`n.to_string()`).
pub fn signed_decimal_string(n: i64) -> (r: String)
    ensures
        r@ == signed_decimal(n as int),
{
    let mut r = String::new();
    if n < 0 {
        push_char(&mut r, '-');
        let m: u64 = if n == i64::MIN {
            9223372036854775808u64
        } else {
            (-n) as u64
        };
        push_decimal(&mut r, m);
    } else {
        push_decimal(&mut r, n as u64);
    }
    assert(r@ =~= signed_decimal(n as int));
    r
}

/// The two texts of the character counter: how much the input holds, and
/// "/" followed by the largest length allowed (`max_length - 1`). The plain
/// input counts bytes; the rich input (`count_chars`) counts characters.
pub fn char_counter(text: &str, max_length: i32, count_chars: bool) -> (r: (String, String))
    requires
        max_length > i32::MIN,
    ensures
        count_chars ==> r.0@ == decimal(text@.len()),
        !count_chars ==> r.0@ == decimal(text.len() as nat),
        r.1@ == seq!['/'] + signed_decimal(max_length - 1),
{
    let count: usize = if count_chars {
        text.unicode_len()
    } else {
        text.len()
    };
    let first = decimal_string(count as u64);
    let mut second = String::new();
    push_char(&mut second, '/');
    let rest = signed_decimal_string((max_length - 1) as i64);
    second.append(rest.as_str());
    (first, second)
}

/// `lit` occurs in `h` at position `i`.
pub open spec fn lit_at(h: Seq<char>, i: int, lit: Seq<char>) -> bool {
    0 <= i && i + lit.len() <= h.len() && h.subrange(i, i + lit.len()) == lit
}

/// The text `{"Input":"` that opens an input message of the rich editor.
pub open spec fn input_open() -> Seq<char> {
    seq!['{', '"', 'I', 'n', 'p', 'u', 't', '"', ':', '"']
}

/// The text `"}` that closes it.
pub open spec fn input_close() -> Seq<char> {
    seq!['"', '}']
}

/// A match of the pattern `\{"Input":"((?:.|\n)+)"}` that starts at `s` and
/// whose closing `"}` starts at `e`: the captured text is not empty.
pub open spec fn input_match(h: Seq<char>, s: int, e: int) -> bool {
    &&& lit_at(h, s, input_open())
    &&& lit_at(h, e, input_close())
    &&& s + 11 <= e
}

fn lit_at_exec(h: &Vec<char>, i: usize, lit: &Vec<char>) -> (r: bool)
    ensures
        r == lit_at(h@, i as int, lit@),
{
    if i > h.len() || lit.len() > h.len() - i {
        return false;
    }
    let mut k: usize = 0;
    while k < lit.len()
        invariant
            i + lit@.len() <= h@.len(),
            h@.len() <= usize::MAX,
            k <= lit@.len(),
            forall|j: int| 0 <= j < k ==> h@[i + j] == lit@[j],
        decreases lit@.len() - k,
    {
        if h[i + k] != lit[k] {
            assert(h@.subrange(i as int, i + lit@.len())[k as int] != lit@[k as int]);
            return false;
        }
        k = k + 1;
    }
    assert(h@.subrange(i as int, i + lit@.len()) =~= lit@);
    true
}

/// The match that the regex engine reports for `\{"Input":"((?:.|\n)+)"}`:
/// the leftmost one, and within it the longest capture.
pub open spec fn is_reported_match(h: Seq<char>, s: int, e: int) -> bool {
    &&& input_match(h, s, e)
    &&& forall|s2: int, e2: int| s2 < s ==> !input_match(h, s2, e2)
    &&& forall|e2: int| input_match(h, s, e2) ==> e2 <= e
}

/// The text that an input message of the rich editor carries: the capture of
/// the reported match, if the pattern matches.
pub open spec fn input_text(h: Seq<char>) -> Option<Seq<char>> {
    if exists|s: int, e: int| is_reported_match(h, s, e) {
        let (s, e) = choose|s: int, e: int| is_reported_match(h, s, e);
        Some(h.subrange(s + 10, e))
    } else {
        None
    }
}

proof fn lemma_reported_match_unique(h: Seq<char>, s: int, e: int)
    requires
        is_reported_match(h, s, e),
    ensures
        input_text(h) == Some(h.subrange(s + 10, e)),
{
    let (s1, e1) = choose|s1: int, e1: int| is_reported_match(h, s1, e1);
    assert(is_reported_match(h, s1, e1));
    if s1 < s {
        assert(!input_match(h, s1, e1));
    }
    if s < s1 {
        assert(!input_match(h, s, e));
    }
    assert(s1 == s);
    assert(e1 <= e && e <= e1);
}

/// The text that an input message of the rich editor carries (see
/// `input_text`), when the pattern matches.
pub fn extract_input_text(msg: &str) -> (r: Option<String>)
    ensures
        r is None <==> !(exists|s: int, e: int| input_match(msg@, s, e)),
        match input_text(msg@) {
            Some(t) => r matches Some(x) && x@ == t,
            None => r is None,
        },
{
    let h = chars_of(msg);
    let open: Vec<char> = vec!['{', '"', 'I', 'n', 'p', 'u', 't', '"', ':', '"'];
    let close: Vec<char> = vec!['"', '}'];
    assert(open@ =~= input_open());
    assert(close@ =~= input_close());
    let n = h.len();
    if n < 2 {
        assert forall|s: int, e: int| !input_match(msg@, s, e) by {}
        return None;
    }
    // the last closing "}
    let mut k: usize = n;
    let mut e: usize = 0;
    let mut found = false;
    while k > 0
        invariant_except_break
            !found,
            forall|j: int| k <= j < n ==> !lit_at(h@, j, input_close()),
        invariant
            h@ == msg@,
            n == h@.len(),
            k <= n,
            close@ == input_close(),
        ensures
            found ==> lit_at(h@, e as int, input_close()) && e < n && forall|j: int|
                e < j < n ==> !lit_at(h@, j, input_close()),
            !found ==> forall|j: int| 0 <= j < n ==> !lit_at(h@, j, input_close()),
        decreases k,
    {
        if lit_at_exec(&h, k - 1, &close) {
            found = true;
            e = k - 1;
            break;
        }
        k = k - 1;
    }
    if !found {
        assert forall|s: int, e2: int| !input_match(msg@, s, e2) by {
            if input_match(msg@, s, e2) {
                assert(0 <= e2 < n);
            }
        }
        return None;
    }
    if e < 11 {
        assert forall|s: int, e2: int| !input_match(msg@, s, e2) by {
            if input_match(msg@, s, e2) {
                assert(e2 <= e);
            }
        }
        return None;
    }
    let mut s: usize = 0;
    while s <= e - 11
        invariant
            h@ == msg@,
            n == h@.len(),
            11 <= e < n,
            open@ == input_open(),
            lit_at(h@, e as int, input_close()),
            forall|j: int| e < j < n ==> !lit_at(h@, j, input_close()),
            forall|j: int| 0 <= j < s ==> !lit_at(h@, j, input_open()),
            s <= e - 10,
        decreases e - s,
    {
        if lit_at_exec(&h, s, &open) {
            let mut t: Vec<char> = Vec::new();
            let mut k: usize = s + 10;
            while k < e
                invariant
                    h@ == msg@,
                    n == h@.len(),
                    s + 10 <= k <= e,
                    e < n,
                    t@ == h@.subrange(s + 10, k as int),
                decreases e - k,
            {
                t.push(h[k]);
                k = k + 1;
                assert(t@ =~= h@.subrange(s + 10, k as int));
            }
            let out = string_from_chars(t.as_slice());
            assert(input_match(msg@, s as int, e as int));
            assert forall|e2: int| input_match(msg@, s as int, e2) implies e2 <= e by {
                if e2 > e {
                    assert(e2 < n);
                }
            }
            proof {
                lemma_reported_match_unique(msg@, s as int, e as int);
            }
            return Some(out);
        }
        s = s + 1;
    }
    assert forall|s2: int, e2: int| !input_match(msg@, s2, e2) by {
        if input_match(msg@, s2, e2) {
            assert(e2 <= e) by {
                if e2 > e {
                    assert(e2 < n);
                }
            }
            assert(s2 < s);
        }
    }
    None
}

/// A message that the rich editor sends back.
pub enum JSTextData {
    Init,
    Input(String),
    Cursor(i64),
    KeyPress(KeyCode),
    Submit,
}

/// What the rich input does with a message of the editor.
pub enum RichEditorAction {
    /// Take the text as the input's value and report it to `onchange`.
    SetText(String),
    /// Report the cursor position to `oncursor_update`.
    CursorUpdate(i64),
    /// Submit the current text to `onreturn`.
    Submit,
    /// Report an up or down arrow to `onup_down_arrow`.
    UpDownArrow(KeyCode),
    /// Run the focus script.
    Focus,
    /// Nothing to do.
    Ignore,
}

/// Decides what the rich input does with a message of the editor.
pub fn rich_editor_action(data: JSTextData) -> (r: RichEditorAction)
    ensures
        match data {
            JSTextData::Input(t) => r == RichEditorAction::SetText(t),
            JSTextData::Cursor(c) => r == RichEditorAction::CursorUpdate(c),
            JSTextData::Submit => r == RichEditorAction::Submit,
            JSTextData::KeyPress(code) => if code == KeyCode::ArrowDown || code
                == KeyCode::ArrowUp {
                r == RichEditorAction::UpDownArrow(code)
            } else {
                r == RichEditorAction::Ignore
            },
            JSTextData::Init => r == RichEditorAction::Focus,
        },
{
    match data {
        JSTextData::Input(t) => RichEditorAction::SetText(t),
        JSTextData::Cursor(c) => RichEditorAction::CursorUpdate(c),
        JSTextData::Submit => RichEditorAction::Submit,
        JSTextData::KeyPress(code) => {
            if code == KeyCode::ArrowDown || code == KeyCode::ArrowUp {
                RichEditorAction::UpDownArrow(code)
            } else {
                RichEditorAction::Ignore
            }
        },
        JSTextData::Init => RichEditorAction::Focus,
    }
}

/// Decodes a message of the rich editor when it is an input message, whose
/// text is taken as it stands rather than unescaped. Other messages are JSON
/// and are decoded elsewhere; for them the result is `None`.
pub fn decode_input_message(msg: &str) -> (r: Option<JSTextData>)
    ensures
        r is None <==> !(exists|s: int, e: int| input_match(msg@, s, e)),
        match input_text(msg@) {
            Some(t) => r matches Some(JSTextData::Input(x)) && x@ == t,
            None => r is None,
        },
{
    match extract_input_text(msg) {
        Some(t) => Some(JSTextData::Input(t)),
        None => None,
    }
}

} // verus!
