use vstd::prelude::*;

verus! {

/// The actions that have a global keyboard shortcut.
#[derive(Clone, Copy, Debug, PartialEq, Eq, Structural)]
pub enum GlobalShortcut {
    IncreaseFontSize,
    DecreaseFontSize,
    ToggleMute,
    ToggleDeafen,
    OpenCloseDevTools,
    ToggleDevmode,
    SetAppVisible,
}

/// A keyboard shortcut, held as the names of its keys and modifiers in the
/// order in which they are shown.
pub struct Shortcut {
    pub keys_and_modifiers: Vec<String>,
    pub system_shortcut: bool,
}

/// The names of a shortcut's keys and modifiers.
pub open spec fn names(sc: Shortcut) -> Seq<Seq<char>> {
    sc.keys_and_modifiers@.map_values(|s: String| s@)
}

impl Shortcut {
    /// The names of the shortcut's keys and modifiers.
    pub fn get_keys_and_modifiers_as_string(&self) -> (r: Vec<String>)
        ensures
            r@.map_values(|s: String| s@) == names(*self),
    {
        let r = self.keys_and_modifiers.clone();
        assert(r@.map_values(|s: String| s@) =~= names(*self));
        r
    }
}

fn same_names(a: &Vec<String>, b: &Vec<String>) -> (r: bool)
    ensures
        r == (a@.map_values(|s: String| s@) == b@.map_values(|s: String| s@)),
{
    let ghost av = a@.map_values(|s: String| s@);
    let ghost bv = b@.map_values(|s: String| s@);
    if a.len() != b.len() {
        assert(av.len() != bv.len());
        return false;
    }
    let mut i: usize = 0;
    while i < a.len()
        invariant
            av == a@.map_values(|s: String| s@),
            bv == b@.map_values(|s: String| s@),
            a@.len() == b@.len(),
            i <= a@.len(),
            forall|j: int| 0 <= j < i ==> av[j] == bv[j],
        decreases a@.len() - i,
    {
        if !a[i].eq(&b[i]) {
            assert(av[i as int] != bv[i as int]);
            return false;
        }
        i = i + 1;
    }
    assert(av =~= bv);
    true
}

/// How many of the bindings use the key combination `combo`.
pub open spec fn uses_of(bindings: Seq<(GlobalShortcut, Shortcut)>, combo: Seq<Seq<char>>) -> nat
    decreases bindings.len(),
{
    if bindings.len() == 0 {
        0
    } else {
        uses_of(bindings.drop_last(), combo) + if names(bindings.last().1) == combo {
            1nat
        } else {
            0nat
        }
    }
}

/// Some binding uses exactly the combination `combo`: its whole list of
/// names equals it.
pub open spec fn bound_once(bindings: Seq<(GlobalShortcut, Shortcut)>, combo: Seq<Seq<char>>) -> bool {
    exists|i: int| 0 <= i < bindings.len() && #[trigger] names(bindings[i].1) == combo
}

/// Two different bindings use exactly the combination `combo`.
pub open spec fn bound_twice(bindings: Seq<(GlobalShortcut, Shortcut)>, combo: Seq<Seq<char>>) -> bool {
    exists|i: int, j: int|
        0 <= i < j < bindings.len() && #[trigger] names(bindings[i].1) == combo && #[trigger] names(
            bindings[j].1,
        ) == combo
}

/// `uses_of` counts the bindings whose whole list of names is the
/// combination: it is at least one exactly when one binding has it, and at
/// least two exactly when two different bindings have it.
pub proof fn lemma_uses_of_counts_equal_bindings(
    bindings: Seq<(GlobalShortcut, Shortcut)>,
    combo: Seq<Seq<char>>,
)
    ensures
        (uses_of(bindings, combo) >= 1) == bound_once(bindings, combo),
        (uses_of(bindings, combo) >= 2) == bound_twice(bindings, combo),
        uses_of(bindings, combo) <= bindings.len(),
    decreases bindings.len(),
{
    if bindings.len() > 0 {
        let d = bindings.drop_last();
        let n = bindings.len() - 1;
        lemma_uses_of_counts_equal_bindings(d, combo);
        assert forall|k: int| 0 <= k < d.len() implies d[k] == bindings[k] by {}
        if bound_once(d, combo) {
            let k = choose|k: int| 0 <= k < d.len() && #[trigger] names(d[k].1) == combo;
            assert(names(bindings[k].1) == combo);
        }
        if bound_twice(d, combo) {
            let (a, b) = choose|a: int, b: int|
                0 <= a < b < d.len() && #[trigger] names(d[a].1) == combo && #[trigger] names(
                    d[b].1,
                ) == combo;
            assert(names(bindings[a].1) == combo && names(bindings[b].1) == combo);
        }
        if bound_once(bindings, combo) {
            let k = choose|k: int| 0 <= k < bindings.len() && #[trigger] names(bindings[k].1) == combo;
            if k < n {
                assert(names(d[k].1) == combo);
            }
        }
        if bound_twice(bindings, combo) {
            let (a, b) = choose|a: int, b: int|
                0 <= a < b < bindings.len() && #[trigger] names(bindings[a].1) == combo
                    && #[trigger] names(bindings[b].1) == combo;
            assert(names(d[a].1) == combo);
            if b < n {
                assert(names(d[b].1) == combo);
            }
        }
        if names(bindings[n].1) == combo && bound_once(d, combo) {
            let k = choose|k: int| 0 <= k < d.len() && #[trigger] names(d[k].1) == combo;
            assert(names(bindings[k].1) == combo);
            assert(bound_twice(bindings, combo));
        }
        if names(bindings[n].1) == combo {
            assert(bound_once(bindings, combo));
        }
    }
}

/// A shortcut conflicts when its key combination is bound more than once:
/// when two different bindings have exactly its list of keys and modifiers.
pub fn check_for_conflicts(shortcut: &Shortcut, shortcuts: &Vec<(GlobalShortcut, Shortcut)>) -> (r:
    bool)
    ensures
        r == (uses_of(shortcuts@, names(*shortcut)) > 1),
        r == (exists|i: int, j: int|
            #![trigger shortcuts@[i], shortcuts@[j]]
            0 <= i < j < shortcuts@.len() && shortcuts@[i].1.keys_and_modifiers@.map_values(
                |s: String| s@,
            ) == shortcut.keys_and_modifiers@.map_values(|s: String| s@)
                && shortcuts@[j].1.keys_and_modifiers@.map_values(|s: String| s@)
                == shortcut.keys_and_modifiers@.map_values(|s: String| s@)),
{
    proof {
        lemma_uses_of_counts_equal_bindings(shortcuts@, names(*shortcut));
    }
    let mut instances: usize = 0;
    let mut i: usize = 0;
    while i < shortcuts.len()
        invariant
            i <= shortcuts@.len(),
            instances == uses_of(shortcuts@.subrange(0, i as int), names(*shortcut)),
            instances <= i,
        decreases shortcuts@.len() - i,
    {
        let ghost pre = shortcuts@.subrange(0, i as int + 1);
        assert(pre.drop_last() =~= shortcuts@.subrange(0, i as int));
        if same_names(&shortcuts[i].1.keys_and_modifiers, &shortcut.keys_and_modifiers) {
            instances = instances + 1;
        }
        i = i + 1;
    }
    assert(shortcuts@.subrange(0, shortcuts@.len() as int) =~= shortcuts@);
    proof {
        let c = names(*shortcut);
        if bound_twice(shortcuts@, c) {
            let (a, b) = choose|a: int, b: int|
                0 <= a < b < shortcuts@.len() && #[trigger] names(shortcuts@[a].1) == c
                    && #[trigger] names(shortcuts@[b].1) == c;
            assert(shortcuts@[a] == shortcuts@[a] && shortcuts@[b] == shortcuts@[b]);
        }
        if exists|a: int, b: int|
            #![trigger shortcuts@[a], shortcuts@[b]]
            0 <= a < b < shortcuts@.len() && names(shortcuts@[a].1) == c && names(shortcuts@[b].1)
                == c {
            let (a, b) = choose|a: int, b: int|
                #![trigger shortcuts@[a], shortcuts@[b]]
                0 <= a < b < shortcuts@.len() && names(shortcuts@[a].1) == c && names(
                    shortcuts@[b].1,
                ) == c;
            assert(names(shortcuts@[a].1) == c && names(shortcuts@[b].1) == c);
        }
    }
    instances > 1
}

/// The index of the first binding of `gs`, if any.
pub open spec fn binding_index(bindings: Seq<(GlobalShortcut, Shortcut)>, gs: GlobalShortcut) -> Option<
    int,
>
    decreases bindings.len(),
{
    if bindings.len() == 0 {
        None
    } else {
        match binding_index(bindings.drop_last(), gs) {
            Some(i) => Some(i),
            None => if bindings.last().0 == gs {
                Some(bindings.len() - 1)
            } else {
                None
            },
        }
    }
}

proof fn lemma_binding_index(bindings: Seq<(GlobalShortcut, Shortcut)>, gs: GlobalShortcut)
    ensures
        match binding_index(bindings, gs) {
            Some(i) => 0 <= i < bindings.len() && bindings[i].0 == gs && forall|j: int|
                0 <= j < i ==> (#[trigger] bindings[j]).0 != gs,
            None => forall|j: int| 0 <= j < bindings.len() ==> (#[trigger] bindings[j]).0 != gs,
        },
    decreases bindings.len(),
{
    if bindings.len() > 0 {
        lemma_binding_index(bindings.drop_last(), gs);
        let d = bindings.drop_last();
        assert forall|j: int| 0 <= j < d.len() implies d[j] == bindings[j] by {}
    }
}

/// The key names shown for the action `gs`: those of its first binding, or
/// none when it has no binding.
pub fn shown_binding(bindings: &Vec<(GlobalShortcut, Shortcut)>, gs: GlobalShortcut) -> (r: Vec<
    String,
>)
    ensures
        match binding_index(bindings@, gs) {
            Some(i) => r@.map_values(|s: String| s@) == names(bindings@[i].1),
            None => r@.len() == 0,
        },
{
    proof {
        lemma_binding_index(bindings@, gs);
    }
    let mut i: usize = 0;
    while i < bindings.len()
        invariant
            i <= bindings@.len(),
            forall|j: int| 0 <= j < i ==> (#[trigger] bindings@[j]).0 != gs,
            match binding_index(bindings@, gs) {
                Some(k) => 0 <= k < bindings@.len() && bindings@[k].0 == gs && forall|j: int|
                    0 <= j < k ==> (#[trigger] bindings@[j]).0 != gs,
                None => forall|j: int| 0 <= j < bindings@.len() ==> (#[trigger] bindings@[j]).0 != gs,
            },
        decreases bindings@.len() - i,
    {
        if bindings[i].0 == gs {
            return bindings[i].1.get_keys_and_modifiers_as_string();
        }
        i = i + 1;
    }
    Vec::new()
}

/// The bindings that are not for `gs`, in order.
pub open spec fn bindings_without(bindings: Seq<(GlobalShortcut, Shortcut)>, gs: GlobalShortcut) -> Seq<
    (GlobalShortcut, Shortcut),
>
    decreases bindings.len(),
{
    if bindings.len() == 0 {
        bindings
    } else if bindings.last().0 == gs {
        bindings_without(bindings.drop_last(), gs)
    } else {
        bindings_without(bindings.drop_last(), gs).push(bindings.last())
    }
}

/// Records a new shortcut for `gs`: every earlier binding of `gs` is dropped
/// and the new one is added at the end.
pub fn replace_keybind(
    keybinds: &mut Vec<(GlobalShortcut, Shortcut)>,
    gs: GlobalShortcut,
    shortcut: Shortcut,
)
    ensures
        final(keybinds)@ == bindings_without(old(keybinds)@, gs).push((gs, shortcut)),
{
    let ghost orig = old(keybinds)@;
    let mut i: usize = 0;
    let ghost mut j: int = 0;
    while i < keybinds.len()
        invariant
            0 <= i <= j <= orig.len(),
            i <= keybinds@.len(),
            keybinds@.len() - i == orig.len() - j,
            keybinds@.subrange(0, i as int) == bindings_without(orig.subrange(0, j), gs),
            keybinds@.subrange(i as int, keybinds@.len() as int) == orig.subrange(
                j,
                orig.len() as int,
            ),
        decreases keybinds@.len() - i,
    {
        let ghost pre = orig.subrange(0, j + 1);
        assert(j < orig.len());
        assert(pre.drop_last() =~= orig.subrange(0, j));
        assert(keybinds@[i as int] == orig[j]) by {
            assert(keybinds@.subrange(i as int, keybinds@.len() as int)[0] == keybinds@[i as int]);
            assert(orig.subrange(j, orig.len() as int)[0] == orig[j]);
        }
        let ghost before = keybinds@;
        if keybinds[i].0 == gs {
            keybinds.remove(i);
            assert(keybinds@.subrange(0, i as int) =~= before.subrange(0, i as int));
            assert(keybinds@.subrange(i as int, keybinds@.len() as int) =~= orig.subrange(
                j + 1,
                orig.len() as int,
            )) by {
                assert(before.subrange(i as int, before.len() as int) == orig.subrange(
                    j,
                    orig.len() as int,
                ));
                assert forall|k: int|
                    0 <= k < keybinds@.len() - i implies keybinds@.subrange(
                    i as int,
                    keybinds@.len() as int,
                )[k] == orig.subrange(j + 1, orig.len() as int)[k] by {
                    assert(keybinds@[i + k] == before[i + k + 1]);
                    assert(before.subrange(i as int, before.len() as int)[k + 1] == before[i + k
                        + 1]);
                }
            }
        } else {
            i = i + 1;
            assert(keybinds@.subrange(0, i as int) =~= before.subrange(0, i - 1).push(
                before[i - 1],
            ));
            assert(keybinds@.subrange(i as int, keybinds@.len() as int) =~= orig.subrange(
                j + 1,
                orig.len() as int,
            )) by {
                assert forall|k: int|
                    0 <= k < keybinds@.len() - i implies keybinds@.subrange(
                    i as int,
                    keybinds@.len() as int,
                )[k] == orig.subrange(j + 1, orig.len() as int)[k] by {
                    assert(before.subrange(i - 1, before.len() as int)[k + 1] == before[i + k]);
                }
            }
        }
        proof {
            j = j + 1;
        }
    }
    assert(j == orig.len()) by {
        assert(keybinds@.subrange(i as int, keybinds@.len() as int).len() == 0);
    }
    assert(orig.subrange(0, orig.len() as int) =~= orig);
    assert(keybinds@ =~= keybinds@.subrange(0, i as int));
    keybinds.push((gs, shortcut));
}

/// After a new shortcut is recorded for `gs`, the shortcut shown for `gs` is
/// the new one, and the bindings of the other actions are those from before.
pub proof fn lemma_replace_keybind(
    bindings: Seq<(GlobalShortcut, Shortcut)>,
    gs: GlobalShortcut,
    shortcut: Shortcut,
)
    ensures
        ({
            let after = bindings_without(bindings, gs).push((gs, shortcut));
            &&& binding_index(after, gs) == Some(after.len() - 1)
            &&& after[after.len() - 1].1 == shortcut
            &&& forall|other: GlobalShortcut|
                other != gs ==> bindings_without(after, other) == bindings_without(
                    bindings_without(bindings, other),
                    gs,
                ).push((gs, shortcut))
        }),
{
    lemma_without_has_none(bindings, gs);
    let w = bindings_without(bindings, gs);
    let after = w.push((gs, shortcut));
    assert(after.drop_last() =~= w);
    lemma_binding_index(w, gs);
    assert forall|other: GlobalShortcut| other != gs implies bindings_without(after, other)
        == bindings_without(bindings_without(bindings, other), gs).push((gs, shortcut)) by {
        lemma_without_commutes(bindings, gs, other);
    }
}

proof fn lemma_without_has_none(bindings: Seq<(GlobalShortcut, Shortcut)>, gs: GlobalShortcut)
    ensures
        forall|k: int|
            0 <= k < bindings_without(bindings, gs).len() ==> (#[trigger] bindings_without(
                bindings,
                gs,
            )[k]).0 != gs,
    decreases bindings.len(),
{
    if bindings.len() > 0 {
        lemma_without_has_none(bindings.drop_last(), gs);
        let w = bindings_without(bindings.drop_last(), gs);
        if bindings.last().0 != gs {
            assert forall|k: int| 0 <= k < w.push(bindings.last()).len() implies (#[trigger] w.push(
                bindings.last(),
            )[k]).0 != gs by {
                if k < w.len() {
                    assert(w.push(bindings.last())[k] == w[k]);
                }
            }
        }
    }
}

proof fn lemma_without_commutes(
    bindings: Seq<(GlobalShortcut, Shortcut)>,
    a: GlobalShortcut,
    b: GlobalShortcut,
)
    ensures
        bindings_without(bindings_without(bindings, a), b) == bindings_without(
            bindings_without(bindings, b),
            a,
        ),
    decreases bindings.len(),
{
    if bindings.len() > 0 {
        let d = bindings.drop_last();
        lemma_without_commutes(d, a, b);
        let x = bindings.last();
        let wa = bindings_without(d, a);
        let wb = bindings_without(d, b);
        if x.0 != a {
            assert(wa.push(x).drop_last() =~= wa);
        }
        if x.0 != b {
            assert(wb.push(x).drop_last() =~= wb);
        }
    }
}

/// A modifier key, as the keyboard reports it.
#[derive(Clone, Copy, Debug, PartialEq, Eq, Structural)]
pub enum Modifier {
    Alt,
    AltGraph,
    CapsLock,
    Control,
    Fn,
    FnLock,
    Meta,
    NumLock,
    ScrollLock,
    Shift,
    Symbol,
    SymbolLock,
    Hyper,
    Super,
}

/// The name under which a modifier is shown in a recorded shortcut, if it is
/// shown at all.
pub open spec fn modifier_name(m: Modifier, is_macos: bool) -> Option<Seq<char>> {
    match m {
        Modifier::Alt => Some(seq!['A', 'l', 't']),
        Modifier::Control => Some(seq!['C', 't', 'r', 'l']),
        Modifier::Shift => Some(seq!['S', 'h', 'i', 'f', 't']),
        Modifier::Meta | Modifier::Super => if is_macos {
            Some(seq!['C', 'o', 'm', 'm', 'a', 'n', 'd'])
        } else {
            Some(seq!['W', 'i', 'n', 'd', 'o', 'w', 's', ' ', 'K', 'e', 'y'])
        },
        _ => None,
    }
}

/// The names of the shown modifiers among `ms`, in order.
pub open spec fn modifier_names(ms: Seq<Modifier>, is_macos: bool) -> Seq<Seq<char>>
    decreases ms.len(),
{
    if ms.len() == 0 {
        Seq::<Seq<char>>::empty()
    } else {
        let rest = modifier_names(ms.drop_last(), is_macos);
        match modifier_name(ms.last(), is_macos) {
            Some(n) => rest.push(n),
            None => rest,
        }
    }
}

fn name_of(m: Modifier, is_macos: bool) -> (r: Option<String>)
    ensures
        match modifier_name(m, is_macos) {
            Some(n) => r matches Some(s) && s@ == n,
            None => r is None,
        },
{
    let cs: Vec<char> = match m {
        Modifier::Alt => vec!['A', 'l', 't'],
        Modifier::Control => vec!['C', 't', 'r', 'l'],
        Modifier::Shift => vec!['S', 'h', 'i', 'f', 't'],
        Modifier::Meta | Modifier::Super => {
            if is_macos {
                vec!['C', 'o', 'm', 'm', 'a', 'n', 'd']
            } else {
                vec!['W', 'i', 'n', 'd', 'o', 'w', 's', ' ', 'K', 'e', 'y']
            }
        },
        _ => {
            return None;
        },
    };
    let s = crate::text::string_from_chars(cs.as_slice());
    proof {
        match m {
            Modifier::Alt => assert(s@ =~= seq!['A', 'l', 't']),
            Modifier::Control => assert(s@ =~= seq!['C', 't', 'r', 'l']),
            Modifier::Shift => assert(s@ =~= seq!['S', 'h', 'i', 'f', 't']),
            _ => {
                if is_macos {
                    assert(s@ =~= seq!['C', 'o', 'm', 'm', 'a', 'n', 'd']);
                } else {
                    assert(s@ =~= seq!['W', 'i', 'n', 'd', 'o', 'w', 's', ' ', 'K', 'e', 'y']);
                }
            },
        }
    }
    Some(s)
}

/// The names of the held modifiers, in the order in which the keyboard lists
/// them: Alt, Ctrl, Shift, and Command (on macOS) or Windows Key (elsewhere)
/// for Meta and Super; the other modifiers are not shown.
pub fn return_string_from_modifier(modifiers: &Vec<Modifier>, is_macos: bool) -> (r: Vec<String>)
    ensures
        r@.map_values(|s: String| s@) == modifier_names(modifiers@, is_macos),
{
    let mut out: Vec<String> = Vec::new();
    let mut i: usize = 0;
    while i < modifiers.len()
        invariant
            i <= modifiers@.len(),
            out@.map_values(|s: String| s@) == modifier_names(
                modifiers@.subrange(0, i as int),
                is_macos,
            ),
        decreases modifiers@.len() - i,
    {
        let ghost pre = modifiers@.subrange(0, i as int + 1);
        assert(pre.drop_last() =~= modifiers@.subrange(0, i as int));
        let ghost before = out@;
        match name_of(modifiers[i], is_macos) {
            Some(n) => {
                out.push(n);
                assert(out@.map_values(|s: String| s@) =~= before.map_values(|s: String| s@).push(
                    out@.last()@,
                ));
            },
            None => {},
        }
        i = i + 1;
    }
    assert(modifiers@.subrange(0, modifiers@.len() as int) =~= modifiers@);
    out
}

/// A key as the keyboard reports it: the modifier and lock keys, or any
/// other key.
#[derive(Clone, Copy, Debug, PartialEq, Eq, Structural)]
pub enum Key {
    Alt,
    Control,
    Shift,
    Meta,
    AltGraph,
    CapsLock,
    Fn,
    FnLock,
    NumLock,
    ScrollLock,
    Symbol,
    SymbolLock,
    Hyper,
    Super,
    Other,
}

/// Whether a key counts as the key of a shortcut, rather than a modifier or
/// lock key.
pub fn is_it_a_key_code(key: Key) -> (r: bool)
    ensures
        r == (key == Key::Other),
{
    match key {
        Key::Other => true,
        _ => false,
    }
}

/// The upper-case form of a text, as `str::to_uppercase` gives it.
pub uninterp spec fn uppercase(s: Seq<char>) -> Seq<char>;

/// `str::to_uppercase`: the Unicode upper-case mapping of each character. The
/// mapping itself is not written out here; the result is named.
#[verifier::external_body]
fn to_uppercase(s: &str) -> (r: String)
    ensures
        r@ == uppercase(s@),
{
    s.to_uppercase()
}

/// How a recorded shortcut is drawn: each key name in upper case, and whether
/// a "+" separator follows it (after every key but the last).
pub fn keybind_pieces(keys: &Vec<String>) -> (r: Vec<(String, bool)>)
    ensures
        r@.len() == keys@.len(),
        forall|i: int|
            0 <= i < keys@.len() ==> (#[trigger] r@[i]).0@ == uppercase(keys@[i]@) && r@[i].1 == (i
                != keys@.len() - 1),
{
    let mut r: Vec<(String, bool)> = Vec::new();
    let mut i: usize = 0;
    while i < keys.len()
        invariant
            i <= keys@.len(),
            r@.len() == i,
            forall|k: int|
                0 <= k < i ==> (#[trigger] r@[k]).0@ == uppercase(keys@[k]@) && r@[k].1 == (k
                    != keys@.len() - 1),
        decreases keys@.len() - i,
    {
        let up = to_uppercase(keys[i].as_str());
        r.push((up, i != keys.len() - 1));
        i = i + 1;
    }
    r
}


/// The names of a recorded shortcut.
pub open spec fn texts(v: Seq<String>) -> Seq<Seq<char>> {
    v.map_values(|s: String| s@)
}

/// The recording of a new shortcut in the keybind settings: whether a
/// recording is under way, whether it has seen a key and a modifier since the
/// last key went up, and the names recorded by the last key going down.
pub struct KeybindRecorder {
    pub is_recording: bool,
    pub has_key: bool,
    pub has_modifier: bool,
    pub recorded: Vec<String>,
}

impl KeybindRecorder {
    /// Not recording, nothing recorded.
    pub fn new() -> (r: Self)
        ensures
            !r.is_recording,
            !r.has_key,
            !r.has_modifier,
            r.recorded@.len() == 0,
    {
        KeybindRecorder {
            is_recording: false,
            has_key: false,
            has_modifier: false,
            recorded: Vec::new(),
        }
    }

    /// The keys field got the focus: recording starts.
    pub fn focus(&mut self)
        ensures
            final(self).is_recording,
            final(self).has_key == old(self).has_key,
            final(self).has_modifier == old(self).has_modifier,
            final(self).recorded@ == old(self).recorded@,
    {
        self.is_recording = true;
    }

    /// The mask around the field was clicked: recording stops.
    pub fn cancel(&mut self)
        ensures
            !final(self).is_recording,
            final(self).has_key == old(self).has_key,
            final(self).has_modifier == old(self).has_modifier,
            final(self).recorded@ == old(self).recorded@,
    {
        self.is_recording = false;
    }

    /// A key went down. Escape stops the recording. Otherwise the names
    /// shown become the key's code name, when the key is not a modifier or
    /// lock key, followed by the names of the modifiers held.
    pub fn keydown(&mut self, escape: bool, key: Key, code_name: String, modifier_names: Vec<String>)
        ensures
            escape ==> !final(self).is_recording && final(self).has_key == old(self).has_key
                && final(self).has_modifier == old(self).has_modifier
                && final(self).recorded@ == old(self).recorded@,
            !escape ==> ({
                &&& final(self).is_recording == old(self).is_recording
                &&& final(self).has_key == (old(self).has_key || key == Key::Other)
                &&& final(self).has_modifier == (old(self).has_modifier || modifier_names@.len()
                    > 0)
                &&& texts(final(self).recorded@) == (if key == Key::Other {
                    seq![code_name@]
                } else {
                    Seq::<Seq<char>>::empty()
                }) + texts(modifier_names@)
            }),
    {
        if escape {
            self.is_recording = false;
            return;
        }
        let mut binding: Vec<String> = Vec::new();
        let ghost code = code_name@;
        if is_it_a_key_code(key) {
            self.has_key = true;
            binding.push(code_name);
        }
        let ghost first = binding@;
        if modifier_names.len() > 0 {
            self.has_modifier = true;
        }
        let mut i: usize = 0;
        while i < modifier_names.len()
            invariant
                i <= modifier_names@.len(),
                texts(binding@) == texts(first) + texts(modifier_names@.subrange(0, i as int)),
            decreases modifier_names@.len() - i,
        {
            let ghost before = binding@;
            binding.push(modifier_names[i].clone());
            assert(texts(binding@) =~= texts(before).push(modifier_names@[i as int]@));
            assert(texts(modifier_names@.subrange(0, i + 1)) =~= texts(
                modifier_names@.subrange(0, i as int),
            ).push(modifier_names@[i as int]@));
            i = i + 1;
        }
        assert(modifier_names@.subrange(0, modifier_names@.len() as int) =~= modifier_names@);
        assert(texts(first) =~= (if key == Key::Other {
            seq![code]
        } else {
            Seq::<Seq<char>>::empty()
        }));
        self.recorded = binding;
    }

    /// A key went up: the recording ends. When it was recording and saw a key
    /// and a modifier, the recorded names become the new shortcut, which is
    /// returned.
    pub fn keyup(&mut self) -> (r: Option<Vec<String>>)
        ensures
            !final(self).is_recording,
            !final(self).has_key,
            !final(self).has_modifier,
            final(self).recorded@ == old(self).recorded@,
            (old(self).is_recording && old(self).has_key && old(self).has_modifier) ==> (r matches Some(
                v,
            ) && texts(v@) == texts(old(self).recorded@)),
            !(old(self).is_recording && old(self).has_key && old(self).has_modifier) ==> r is None,
    {
        let commit = if self.is_recording && self.has_key && self.has_modifier {
            let v = self.recorded.clone();
            assert(texts(v@) =~= texts(self.recorded@));
            Some(v)
        } else {
            None
        };
        self.has_key = false;
        self.has_modifier = false;
        self.is_recording = false;
        commit
    }
}

/// The CSS classes of the keys field: "keybind-section-keys", then
/// " recording" while recording and " conflicting" when the shortcut
/// conflicts with another.
pub fn keybind_section_class(is_recording: bool, has_conflicts: bool) -> (r: String)
    ensures
        r@ == "keybind-section-keys"@ + (if is_recording {
            " recording"@
        } else {
            Seq::<char>::empty()
        }) + (if has_conflicts {
            " conflicting"@
        } else {
            Seq::<char>::empty()
        }),
{
    let mut r = String::from_str("keybind-section-keys");
    if is_recording {
        r.append(" recording");
    }
    if has_conflicts {
        r.append(" conflicting");
    }
    r
}

} // verus!
