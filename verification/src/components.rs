use vstd::prelude::*;
use crate::text::{decimal, push_char, push_decimal};

verus! {

/// How the buttons of a slide selector look.
#[derive(Clone, Copy, Debug, PartialEq, Eq, Structural)]
pub enum ButtonsFormat {
    PlusAndMinus,
    Arrows,
}

/// The icons of the two buttons of a slide selector.
#[derive(Clone, Copy, Debug, PartialEq, Eq, Structural)]
pub enum SlideIcon {
    Minus,
    Plus,
    ArrowLeft,
    ArrowRight,
}

/// The icons of the decrease and increase buttons: plus and minus, or arrows
/// (the default).
pub fn slide_icons(format: Option<ButtonsFormat>) -> (r: (SlideIcon, SlideIcon))
    ensures
        format == Some(ButtonsFormat::PlusAndMinus) ==> r == (SlideIcon::Minus, SlideIcon::Plus),
        format != Some(ButtonsFormat::PlusAndMinus) ==> r == (
            SlideIcon::ArrowLeft,
            SlideIcon::ArrowRight,
        ),
{
    match format {
        Some(ButtonsFormat::PlusAndMinus) => (SlideIcon::Minus, SlideIcon::Plus),
        _ => (SlideIcon::ArrowLeft, SlideIcon::ArrowRight),
    }
}

/// The decrease button is disabled on the first value.
pub fn slide_minus_disabled(index: usize) -> (r: bool)
    ensures
        r == (index == 0),
{
    index == 0
}

/// The index after the decrease button is pressed, if it moves.
pub fn slide_minus(index: usize) -> (r: Option<usize>)
    ensures
        index == 0 ==> r is None,
        index > 0 ==> r == Some((index - 1) as usize),
{
    if index == 0 {
        None
    } else {
        Some(index - 1)
    }
}

/// The index after the increase button is pressed, if it moves: it stops at
/// the last value. The selector always has at least one value: `len - 1`
/// would underflow without one.
pub fn slide_plus(index: usize, len: usize) -> (r: Option<usize>)
    requires
        len > 0,
    ensures
        index >= len - 1 ==> r is None,
        index < len - 1 ==> r == Some((index + 1) as usize),
{
    if index >= len - 1 {
        None
    } else {
        Some(index + 1)
    }
}

/// The value handed to the selector's `onset` when the decrease button is
/// pressed, by its index: the value before the shown one, when the shown
/// index was not the first and the new index is within the values; nothing
/// otherwise.
pub fn slide_minus_onset(index: usize, len: usize) -> (r: Option<usize>)
    ensures
        0 < index <= len ==> r == Some((index - 1) as usize),
        !(0 < index <= len) ==> r is None,
{
    match slide_minus(index) {
        Some(new_index) => {
            if new_index < len {
                Some(new_index)
            } else {
                None
            }
        },
        None => None,
    }
}

/// The value handed to the selector's `onset` when the increase button is
/// pressed, by its index: the value after the shown one, when there is one;
/// nothing otherwise.
pub fn slide_plus_onset(index: usize, len: usize) -> (r: Option<usize>)
    requires
        len > 0,
    ensures
        index + 1 < len ==> r == Some((index + 1) as usize),
        index + 1 >= len ==> r is None,
        r matches Some(j) ==> j < len,
{
    match slide_plus(index, len) {
        Some(new_index) => {
            if new_index < len {
                Some(new_index)
            } else {
                None
            }
        },
        None => None,
    }
}

/// The text that the selector shows: the text of the value at `index`, or
/// "?" when there is no value there.
pub fn slide_value_text(texts: &Vec<String>, index: usize) -> (r: String)
    ensures
        index < texts@.len() ==> r@ == texts@[index as int]@,
        index >= texts@.len() ==> r@ == seq!['?'],
{
    if index < texts.len() {
        texts[index].clone()
    } else {
        let mut r = String::new();
        push_char(&mut r, '?');
        r
    }
}

/// Pressing increase and then decrease comes back to the same value, and the
/// index stays within the values.
pub proof fn lemma_slide_plus_minus(index: usize, len: usize)
    requires
        len > 0,
        index < len - 1,
    ensures
        index + 1 < len,
        index + 1 > 0,
        (index + 1 - 1) as usize == index,
{
}

/// The index that the selector shows: the caller's initial index wins over
/// the one it keeps.
pub fn slide_sync_index(current: usize, initial_index: usize) -> (r: usize)
    ensures
        r == initial_index,
{
    if current != initial_index {
        initial_index
    } else {
        current
    }
}

/// How a group of user pictures is drawn.
#[derive(Clone, Copy, Debug, PartialEq, Eq, Structural)]
pub struct UserImageGroupView {
    /// Participants beyond the three that are drawn (may be negative).
    pub additional_participants: i64,
    /// More than one participant.
    pub is_group: bool,
    /// Draw the placeholder instead: loading, or nobody to draw.
    pub loading: bool,
    /// How many pictures are drawn: the first participants, at most three.
    pub pictures: usize,
    /// Draw the "+n" badge for the participants beyond three.
    pub show_more: bool,
    /// Draw the typing dots in place of the badge.
    pub show_typing: bool,
}

/// Decides how a group of user pictures is drawn: at most three pictures,
/// then, for the others, "+n", or the typing dots while someone types.
pub fn user_image_group_view(participants: usize, loading: Option<bool>, typing: Option<bool>) -> (r:
    UserImageGroupView)
    requires
        participants <= i64::MAX,
    ensures
        r.additional_participants == participants - 3,
        r.is_group == (participants > 1),
        r.loading == (loading == Some(true) || participants == 0),
        r.pictures == (if r.loading {
            0
        } else if participants < 3 {
            participants as int
        } else {
            3
        }),
        r.show_more == (!r.loading && participants > 3 && typing != Some(true)),
        r.show_typing == (!r.loading && participants > 3 && typing == Some(true)),
{
    let additional = participants as i64 - 3;
    let l = match loading {
        Some(b) => b,
        None => false,
    } || participants == 0;
    let t = match typing {
        Some(b) => b,
        None => false,
    };
    let pictures: usize = if l {
        0
    } else if participants < 3 {
        participants
    } else {
        3
    };
    UserImageGroupView {
        additional_participants: additional,
        is_group: participants > 1,
        loading: l,
        pictures,
        show_more: !l && additional > 0 && !t,
        show_typing: !l && additional > 0 && t,
    }
}

/// The badge for the participants that are not drawn: "+n".
pub fn plus_badge(additional: u64) -> (r: String)
    ensures
        r@ == seq!['+'] + decimal(additional as nat),
{
    let mut r = String::new();
    push_char(&mut r, '+');
    push_decimal(&mut r, additional);
    r
}

/// `s` without the entries equal to `x`.
pub open spec fn without_value(s: Seq<Seq<char>>, x: Seq<char>) -> Seq<Seq<char>>
    decreases s.len(),
{
    if s.len() == 0 {
        s
    } else if s.last() == x {
        without_value(s.drop_last(), x)
    } else {
        without_value(s.drop_last(), x).push(s.last())
    }
}

/// The options of a select box: the initial value first, then the other
/// options in their order.
pub fn select_options(options: &Vec<String>, initial_value: &String) -> (r: Vec<String>)
    ensures
        r@.map_values(|s: String| s@) == seq![initial_value@] + without_value(
            options@.map_values(|s: String| s@),
            initial_value@,
        ),
{
    let ghost views = options@.map_values(|s: String| s@);
    let mut r: Vec<String> = Vec::new();
    r.push(initial_value.clone());
    let mut i: usize = 0;
    while i < options.len()
        invariant
            views == options@.map_values(|s: String| s@),
            i <= options@.len(),
            r@.map_values(|s: String| s@) == seq![initial_value@] + without_value(
                views.subrange(0, i as int),
                initial_value@,
            ),
        decreases options@.len() - i,
    {
        let ghost pre = views.subrange(0, i as int + 1);
        assert(pre.drop_last() =~= views.subrange(0, i as int));
        let ghost before = r@;
        if !options[i].eq(initial_value) {
            r.push(options[i].clone());
            assert(r@.map_values(|s: String| s@) =~= before.map_values(|s: String| s@).push(
                views[i as int],
            ));
        }
        i = i + 1;
    }
    assert(views.subrange(0, options@.len() as int) =~= views);
    r
}

/// Where a message stands in its group.
#[derive(Clone, Copy, Debug, PartialEq, Eq, Structural)]
pub enum Order {
    First,
    Middle,
    Last,
}

impl Order {
    /// The CSS class of the position.
    pub open spec fn spec_class(self) -> Seq<char> {
        match self {
            Order::First => seq!['m', 'e', 's', 's', 'a', 'g', 'e', '-', 'f', 'i', 'r', 's', 't'],
            Order::Middle => seq!['m', 'e', 's', 's', 'a', 'g', 'e', '-', 'm', 'i', 'd', 'd', 'l', 'e'],
            Order::Last => seq!['m', 'e', 's', 's', 'a', 'g', 'e', '-', 'l', 'a', 's', 't'],
        }
    }

    /// The CSS class of the position: "message-first", "message-middle" or
    /// "message-last".
    pub fn to_class(&self) -> (r: String)
        ensures
            r@ == self.spec_class(),
    {
        let cs: Vec<char> = match self {
            Order::First => vec!['m', 'e', 's', 's', 'a', 'g', 'e', '-', 'f', 'i', 'r', 's', 't'],
            Order::Middle => vec!['m', 'e', 's', 's', 'a', 'g', 'e', '-', 'm', 'i', 'd', 'd', 'l', 'e'],
            Order::Last => vec!['m', 'e', 's', 's', 'a', 'g', 'e', '-', 'l', 'a', 's', 't'],
        };
        let r = crate::text::string_from_chars(cs.as_slice());
        assert(r@ =~= self.spec_class());
        r
    }
}

/// The CSS classes of a message: "message", then "loading", "remote" and the
/// position's class, each left empty when it does not apply, separated by
/// spaces. A message whose position is not set is taken as the last one.
pub fn message_class(loading: bool, remote: bool, order: Option<Order>) -> (r: String)
    ensures
        r@ == seq!['m', 'e', 's', 's', 'a', 'g', 'e', ' '] + (if loading {
            seq!['l', 'o', 'a', 'd', 'i', 'n', 'g']
        } else {
            Seq::<char>::empty()
        }) + seq![' '] + (if remote {
            seq!['r', 'e', 'm', 'o', 't', 'e']
        } else {
            Seq::<char>::empty()
        }) + seq![' '] + (match order {
            Some(o) => o.spec_class(),
            None => Order::Last.spec_class(),
        }),
{
    let head: Vec<char> = vec!['m', 'e', 's', 's', 'a', 'g', 'e', ' '];
    let mut r = crate::text::string_from_chars(head.as_slice());
    let ghost s0 = r@;
    if loading {
        let w: Vec<char> = vec!['l', 'o', 'a', 'd', 'i', 'n', 'g'];
        crate::text::push_chars(&mut r, w.as_slice());
    }
    push_char(&mut r, ' ');
    if remote {
        let w: Vec<char> = vec!['r', 'e', 'm', 'o', 't', 'e'];
        crate::text::push_chars(&mut r, w.as_slice());
    }
    push_char(&mut r, ' ');
    let position = match order {
        Some(o) => o,
        None => Order::Last,
    };
    let c = position.to_class();
    r.append(c.as_str());
    assert(r@ =~= seq!['m', 'e', 's', 's', 'a', 'g', 'e', ' '] + (if loading {
        seq!['l', 'o', 'a', 'd', 'i', 'n', 'g']
    } else {
        Seq::<char>::empty()
    }) + seq![' '] + (if remote {
        seq!['r', 'e', 'm', 'o', 't', 'e']
    } else {
        Seq::<char>::empty()
    }) + seq![' '] + (match order {
        Some(o) => o.spec_class(),
        None => Order::Last.spec_class(),
    }));
    r
}

/// The text of a file size in decimal units (kB, MB, ...), as the size
/// formatter gives it.
pub uninterp spec fn decimal_size_text(size: u64) -> Seq<char>;

/// `humansize::format_size(size, DECIMAL)`: the size with a decimal (SI)
/// unit. The formatting itself is not written out here; the result is named
/// as a function of the size.
#[verifier::external_body]
fn format_size_decimal(size: u64) -> (r: String)
    ensures
        r@ == decimal_size_text(size),
{
    humansize::format_size(size, humansize::DECIMAL)
}

/// What an attachment shows: the file's name and its size in decimal units.
pub fn attachment_details(name: &str, size: u64) -> (r: (String, String))
    ensures
        r.0@ == name@,
        r.1@ == decimal_size_text(size),
{
    (String::from_str(name), format_size_decimal(size))
}


/// The life cycle of a component: its set-up, run once after it is first
/// mounted, and its clean-up, run once when it goes away.
pub struct LifeCycle<C, D> {
    oncreate: Option<C>,
    ondestroy: Option<D>,
}

impl<C, D> LifeCycle<C, D> {
    /// The set-up that is still to run, if any.
    pub closed spec fn pending_create(&self) -> Option<C> {
        self.oncreate
    }

    /// The clean-up that is still to run, if any.
    pub closed spec fn pending_destroy(&self) -> Option<D> {
        self.ondestroy
    }

    /// The life cycle made on the first render, with its set-up and its
    /// clean-up both still to run; later renders keep the same one.
    pub fn new(create: C, destroy: D) -> (r: Self)
        ensures
            r.pending_create() == Some(create),
            r.pending_destroy() == Some(destroy),
    {
        LifeCycle { oncreate: Some(create), ondestroy: Some(destroy) }
    }

    /// Hands out the set-up to run once the component is mounted; it is
    /// handed out once only, and the clean-up stays as it was.
    pub fn take_create(&mut self) -> (r: Option<C>)
        ensures
            r == old(self).pending_create(),
            final(self).pending_create() is None,
            final(self).pending_destroy() == old(self).pending_destroy(),
    {
        self.oncreate.take()
    }

    /// Hands out the clean-up to run when the component goes away; it is
    /// handed out once only, and the set-up stays as it was.
    pub fn take_destroy(&mut self) -> (r: Option<D>)
        ensures
            r == old(self).pending_destroy(),
            final(self).pending_destroy() is None,
            final(self).pending_create() == old(self).pending_create(),
    {
        self.ondestroy.take()
    }
}

/// The overlay window is opened when it is switched on, except on Windows.
pub fn should_open_overlay(is_windows: bool, enable_overlay: bool) -> (r: bool)
    ensures
        r == (!is_windows && enable_overlay),
{
    !is_windows && enable_overlay
}

/// The window is in its minimal view when narrower than the minimal width.
pub fn is_minimal_view(width: u32, minimal_width: u32) -> (r: bool)
    ensures
        r == (width < minimal_width),
{
    width < minimal_width
}

} // verus!
