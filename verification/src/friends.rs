use vstd::prelude::*;
use crate::text::{chars_of, is_blank, is_blank_str, push_char, push_chars, string_from_chars};

verus! {

/// The number of bytes that `c` takes in UTF-8 (`char::len_utf8`).
pub open spec fn utf8_len(c: char) -> nat {
    let v = c as u32;
    if v < 0x80 {
        1
    } else if v < 0x800 {
        2
    } else if v < 0x10000 {
        3
    } else {
        4
    }
}

fn char_utf8_len(c: char) -> (r: usize)
    ensures
        r == utf8_len(c),
{
    let v = c as u32;
    if v < 0x80 {
        1
    } else if v < 0x800 {
        2
    } else if v < 0x10000 {
        3
    } else {
        4
    }
}

/// The byte offset of the character at index `i` of `s`.
pub open spec fn byte_offset(s: Seq<char>, i: int) -> nat
    decreases i,
{
    if i <= 0 || s.len() == 0 {
        0
    } else if i > s.len() {
        byte_offset(s, s.len() as int)
    } else {
        byte_offset(s, i - 1) + utf8_len(s[i - 1])
    }
}

proof fn lemma_byte_offset_monotonic(s: Seq<char>, i: int, j: int)
    requires
        0 <= i < j <= s.len(),
    ensures
        byte_offset(s, i) < byte_offset(s, j),
    decreases j - i,
{
    if j - 1 > i {
        lemma_byte_offset_monotonic(s, i, j - 1);
    }
}

/// The byte offset `b` falls between two characters of `s` (or at its end).
pub open spec fn is_boundary(s: Seq<char>, b: int) -> bool {
    exists|i: int| 0 <= i <= s.len() && byte_offset(s, i) == b
}

/// The text between the byte offsets `from` and `to` of `s`, when both fall
/// between characters (`s.get(from..to)`); `None` otherwise.
pub open spec fn byte_range(s: Seq<char>, from: int, to: int) -> Option<Seq<char>> {
    if from <= to && is_boundary(s, from) && is_boundary(s, to) {
        let i = choose|i: int| 0 <= i <= s.len() && byte_offset(s, i) == from;
        let j = choose|j: int| 0 <= j <= s.len() && byte_offset(s, j) == to;
        Some(s.subrange(i, j))
    } else {
        None
    }
}

/// Finds the character index at byte offset `b`, if `b` falls between
/// characters.
fn char_index_at(cs: &Vec<char>, b: usize) -> (r: Option<usize>)
    ensures
        match r {
            Some(i) => i <= cs@.len() && byte_offset(cs@, i as int) == b,
            None => !is_boundary(cs@, b as int),
        },
{
    let mut i: usize = 0;
    let mut off: usize = 0;
    while i < cs.len() && off < b
        invariant
            i <= cs@.len(),
            off == byte_offset(cs@, i as int),
            forall|k: int| 0 <= k < i ==> byte_offset(cs@, k) < b,
        decreases cs@.len() - i,
    {
        let l = char_utf8_len(cs[i]);
        if l > b - off {
            // the next offset passes b
            proof {
                assert forall|k: int| 0 <= k <= cs@.len() implies byte_offset(cs@, k) != b by {
                    if k > i {
                        if k > i + 1 {
                            lemma_byte_offset_monotonic(cs@, i + 1, k);
                        }
                    }
                }
            }
            return None;
        }
        off = off + l;
        i = i + 1;
    }
    if off == b {
        Some(i)
    } else {
        proof {
            assert forall|k: int| 0 <= k <= cs@.len() implies byte_offset(cs@, k) != b by {
                if k > i {
                    lemma_byte_offset_monotonic(cs@, i as int, k);
                }
            }
        }
        None
    }
}

/// The text between two byte offsets of `s`, when both fall between
/// characters (`s.get(from..to)`).
pub fn get_byte_range(cs: &Vec<char>, from: usize, to: usize) -> (r: Option<Vec<char>>)
    ensures
        match byte_range(cs@, from as int, to as int) {
            Some(t) => r matches Some(v) && v@ == t,
            None => r is None,
        },
{
    if from > to {
        return None;
    }
    let a = char_index_at(cs, from);
    let b = char_index_at(cs, to);
    match (a, b) {
        (Some(i), Some(j)) => {
            proof {
                let ci = choose|i: int| 0 <= i <= cs@.len() && byte_offset(cs@, i) == from;
                let cj = choose|j: int| 0 <= j <= cs@.len() && byte_offset(cs@, j) == to;
                if ci < i {
                    lemma_byte_offset_monotonic(cs@, ci, i as int);
                } else if ci > i {
                    lemma_byte_offset_monotonic(cs@, i as int, ci);
                }
                if cj < j {
                    lemma_byte_offset_monotonic(cs@, cj, j as int);
                } else if cj > j {
                    lemma_byte_offset_monotonic(cs@, j as int, cj);
                }
                if i > j {
                    lemma_byte_offset_monotonic(cs@, j as int, i as int);
                }
            }
            let mut out: Vec<char> = Vec::new();
            let mut k: usize = i;
            while k < j
                invariant
                    i <= k <= j <= cs@.len(),
                    out@ == cs@.subrange(i as int, k as int),
                decreases j - k,
            {
                out.push(cs[k]);
                k = k + 1;
                assert(out@ =~= cs@.subrange(i as int, k as int));
            }
            Some(out)
        },
        _ => None,
    }
}

/// The number of bytes of `s` in UTF-8.
pub fn byte_length(cs: &Vec<char>) -> (r: usize)
    requires
        byte_offset(cs@, cs@.len() as int) <= usize::MAX,
    ensures
        r == byte_offset(cs@, cs@.len() as int),
{
    let mut i: usize = 0;
    let mut off: usize = 0;
    while i < cs.len()
        invariant
            i <= cs@.len(),
            off == byte_offset(cs@, i as int),
            byte_offset(cs@, cs@.len() as int) <= usize::MAX,
        decreases cs@.len() - i,
    {
        proof {
            if i + 1 < cs@.len() {
                lemma_byte_offset_monotonic(cs@, i + 1, cs@.len() as int);
            }
        }
        off = off + char_utf8_len(cs[i]);
        i = i + 1;
    }
    off
}

/// A DID too short to make up a name from.
#[derive(Clone, Copy, Debug, PartialEq, Eq, Structural)]
pub enum DidError {
    DidTooShort,
}

/// The name given to someone whose identity has not arrived yet: bytes 8 to
/// 10 of the DID, "...", and its last three bytes; each part must fall
/// between characters.
pub open spec fn placeholder_username(did: Seq<char>) -> Option<Seq<char>> {
    let total = byte_offset(did, did.len() as int) as int;
    match byte_range(did, 8, 11) {
        Some(start) => match byte_range(did, total - 3, total) {
            Some(end) => Some(start + seq!['.', '.', '.'] + end),
            None => None,
        },
        None => None,
    }
}

/// Makes up a username from a DID, for an identity that has not arrived yet.
pub fn default_username(did: &str) -> (r: Result<String, DidError>)
    requires
        byte_offset(did@, did@.len() as int) <= usize::MAX,
    ensures
        match placeholder_username(did@) {
            Some(name) => r matches Ok(s) && s@ == name,
            None => r == Err::<String, DidError>(DidError::DidTooShort),
        },
{
    let cs = chars_of(did);
    let start = match get_byte_range(&cs, 8, 11) {
        Some(s) => s,
        None => {
            return Err(DidError::DidTooShort);
        },
    };
    let len = byte_length(&cs);
    proof {
        // a range ending at byte 11 exists, so the text has at least 11 bytes
        let j = choose|j: int| 0 <= j <= cs@.len() && byte_offset(cs@, j) == 11;
        if j < cs@.len() {
            lemma_byte_offset_monotonic(cs@, j, cs@.len() as int);
        }
    }
    let end = match get_byte_range(&cs, len - 3, len) {
        Some(e) => e,
        None => {
            return Err(DidError::DidTooShort);
        },
    };
    let mut r = string_from_chars(start.as_slice());
    push_char(&mut r, '.');
    push_char(&mut r, '.');
    push_char(&mut r, '.');
    push_chars(&mut r, end.as_slice());
    assert(r@ =~= start@ + seq!['.', '.', '.'] + end@);
    Ok(r)
}

/// The suffix shown after an outgoing request's name: the last six
/// characters of the DID, last one first.
pub open spec fn did_suffix_spec(did: Seq<char>) -> Seq<char> {
    let k: int = if did.len() < 6 {
        did.len() as int
    } else {
        6
    };
    Seq::new(k as nat, |i: int| did[did.len() - 1 - i])
}

/// `did.chars().rev().take(6).collect()`.
pub fn did_suffix(did: &str) -> (r: String)
    ensures
        r@ == did_suffix_spec(did@),
{
    let cs = chars_of(did);
    let n = cs.len();
    let k: usize = if n < 6 {
        n
    } else {
        6
    };
    let mut out: Vec<char> = Vec::new();
    let mut i: usize = 0;
    while i < k
        invariant
            cs@ == did@,
            n == cs@.len(),
            k <= n,
            k <= 6,
            i <= k,
            out@ == Seq::new(i as nat, |x: int| cs@[n - 1 - x]),
        decreases k - i,
    {
        out.push(cs[n - 1 - i]);
        i = i + 1;
        assert(out@ =~= Seq::new(i as nat, |x: int| cs@[n - 1 - x]));
    }
    let r = string_from_chars(out.as_slice());
    assert(r@ =~= did_suffix_spec(did@));
    r
}

/// The name someone is added with: "username#short id".
pub fn short_name(username: &str, short_id: &str) -> (r: String)
    ensures
        r@ == username@ + seq!['#'] + short_id@,
{
    let mut r = String::from_str(username);
    push_char(&mut r, '#');
    r.append(short_id);
    r
}

/// Why a friend request failed.
#[derive(Clone, Copy, Debug, PartialEq, Eq, Structural)]
pub enum FriendRequestError {
    CannotSendSelfFriendRequest,
    PublicKeyIsBlocked,
    FriendExist,
    FriendRequestExist,
    Other,
}

/// The message shown when a friend request fails.
#[derive(Clone, Copy, Debug, PartialEq, Eq, Structural)]
pub enum FriendRequestMessage {
    CannotAddSelf,
    KeyBlocked,
    AddExistingFriend,
    RequestExist,
    AddFailed,
}

/// Decides the message for a failed friend request. For an error of another
/// kind, a request to one's own name is still reported as adding oneself.
pub fn friend_request_message(err: FriendRequestError, requested: &String, own_short_name: &String) -> (r:
    FriendRequestMessage)
    ensures
        r == (match err {
            FriendRequestError::CannotSendSelfFriendRequest => FriendRequestMessage::CannotAddSelf,
            FriendRequestError::PublicKeyIsBlocked => FriendRequestMessage::KeyBlocked,
            FriendRequestError::FriendExist => FriendRequestMessage::AddExistingFriend,
            FriendRequestError::FriendRequestExist => FriendRequestMessage::RequestExist,
            FriendRequestError::Other => if requested@ == own_short_name@ {
                FriendRequestMessage::CannotAddSelf
            } else {
                FriendRequestMessage::AddFailed
            },
        }),
{
    match err {
        FriendRequestError::CannotSendSelfFriendRequest => FriendRequestMessage::CannotAddSelf,
        FriendRequestError::PublicKeyIsBlocked => FriendRequestMessage::KeyBlocked,
        FriendRequestError::FriendExist => FriendRequestMessage::AddExistingFriend,
        FriendRequestError::FriendRequestExist => FriendRequestMessage::RequestExist,
        FriendRequestError::Other => {
            if requested.eq(own_short_name) {
                FriendRequestMessage::CannotAddSelf
            } else {
                FriendRequestMessage::AddFailed
            }
        },
    }
}

/// The name a new group chat gets: none when the name is empty or blank.
pub fn group_name_to_send(name: Option<String>) -> (r: Option<String>)
    ensures
        match name {
            Some(n) => if n@.len() == 0 || is_blank(n@) {
                r is None
            } else {
                r == Some(n)
            },
            None => r is None,
        },
{
    match name {
        Some(n) => {
            if n.as_str().is_empty() || is_blank_str(n.as_str()) {
                None
            } else {
                Some(n)
            }
        },
        None => None,
    }
}

/// The group name kept from the name field: none when the field's
/// validation failed.
pub fn group_name_from_input(value: String, is_valid: bool) -> (r: Option<String>)
    ensures
        is_valid ==> r == Some(value),
        !is_valid ==> r is None,
{
    if is_valid {
        Some(value)
    } else {
        None
    }
}

/// `str::to_lowercase`: the Unicode lower-case mapping of each character,
/// named here rather than written out.
pub uninterp spec fn lowercase(s: Seq<char>) -> Seq<char>;

/// `str::to_lowercase`. The mapping is not written out here; the result is
/// named as a function of the text.
#[verifier::external_body]
pub(crate) fn to_lowercase(s: &str) -> (r: String)
    ensures
        r@ == lowercase(s@),
{
    s.to_lowercase()
}

/// Whether a friend named `username` is listed for the search text `search`,
/// compared in lower case: the lower-case name is cut after as many bytes as the
/// search text has, and that head must be the lower-case search text. A name
/// shorter than the search text is not listed; `None` when the cut falls inside
/// a character, which the name filter cannot do.
pub open spec fn search_listing(username: Seq<char>, search: Seq<char>) -> Option<bool> {
    let name = lowercase(username);
    let cut = byte_offset(search, search.len() as int) as int;
    if byte_offset(name, name.len() as int) < cut {
        Some(false)
    } else {
        match byte_range(name, 0, cut) {
            Some(head) => Some(head == lowercase(search)),
            None => None,
        }
    }
}

fn same_chars(a: &Vec<char>, b: &Vec<char>) -> (r: bool)
    ensures
        r == (a@ == b@),
{
    if a.len() != b.len() {
        return false;
    }
    let mut i: usize = 0;
    while i < a.len()
        invariant
            a@.len() == b@.len(),
            i <= a@.len(),
            forall|j: int| 0 <= j < i ==> a@[j] == b@[j],
        decreases a@.len() - i,
    {
        if a[i] != b[i] {
            return false;
        }
        i = i + 1;
    }
    assert(a@ =~= b@);
    true
}

/// Whether a friend is listed for a search text in the list of friends to add
/// to a new group (see `search_listing`). `None` also when a byte length does
/// not fit in `usize`.
pub fn friend_matches_search(username: &str, search: &str) -> (r: Option<bool>)
    ensures
        ({
            let fits = byte_offset(lowercase(username@), lowercase(username@).len() as int)
                <= usize::MAX && byte_offset(search@, search@.len() as int) <= usize::MAX;
            &&& fits ==> r == search_listing(username@, search@)
            &&& !fits ==> r is None
        }),
{
    let name = to_lowercase(username);
    let lower_search = to_lowercase(search);
    let ncs = chars_of(name.as_str());
    let scs = chars_of(search);
    let lcs = chars_of(lower_search.as_str());
    if !fits_usize(&ncs) || !fits_usize(&scs) {
        return None;
    }
    let nlen = byte_length(&ncs);
    let cut = byte_length(&scs);
    if nlen < cut {
        return Some(false);
    }
    match get_byte_range(&ncs, 0, cut) {
        Some(head) => Some(same_chars(&head, &lcs)),
        None => None,
    }
}

fn fits_usize(cs: &Vec<char>) -> (r: bool)
    ensures
        r == (byte_offset(cs@, cs@.len() as int) <= usize::MAX),
{
    let mut i: usize = 0;
    let mut off: u128 = 0;
    while i < cs.len()
        invariant
            i <= cs@.len(),
            off == byte_offset(cs@, i as int),
            off <= usize::MAX,
        decreases cs@.len() - i,
    {
        let next = off + char_utf8_len(cs[i]) as u128;
        if next > usize::MAX as u128 {
            proof {
                if i + 1 < cs@.len() {
                    lemma_byte_offset_monotonic(cs@, i + 1, cs@.len() as int);
                }
            }
            return false;
        }
        off = next;
        i = i + 1;
    }
    true
}


/// The texts held in `v`, as a set.
pub open spec fn text_set(v: Seq<String>) -> Set<Seq<char>> {
    Set::new(|d: Seq<char>| exists|i: int| 0 <= i < v.len() && (#[trigger] v[i])@ == d)
}

fn holds_text(v: &Vec<String>, d: &String) -> (r: bool)
    ensures
        r == text_set(v@).contains(d@),
{
    let mut i: usize = 0;
    while i < v.len()
        invariant
            i <= v@.len(),
            forall|k: int| 0 <= k < i ==> (#[trigger] v@[k])@ != d@,
        decreases v@.len() - i,
    {
        if v[i].eq(d) {
            assert(text_set(v@).contains(d@));
            return true;
        }
        i = i + 1;
    }
    false
}

fn without_text(v: &Vec<String>, d: &String) -> (r: Vec<String>)
    ensures
        text_set(r@) == text_set(v@).remove(d@),
{
    let mut r: Vec<String> = Vec::new();
    let mut i: usize = 0;
    while i < v.len()
        invariant
            i <= v@.len(),
            forall|k: int| 0 <= k < r@.len() ==> (#[trigger] r@[k])@ != d@,
            forall|k: int|
                0 <= k < r@.len() ==> exists|j: int| 0 <= j < i && (#[trigger] v@[j])@ == (
                #[trigger] r@[k])@,
            forall|j: int|
                0 <= j < i && (#[trigger] v@[j])@ != d@ ==> exists|k: int|
                    0 <= k < r@.len() && (#[trigger] r@[k])@ == v@[j]@,
        decreases v@.len() - i,
    {
        let ghost old_r = r@;
        if !v[i].eq(d) {
            let c = v[i].clone();
            r.push(c);
            assert(r@[r@.len() - 1]@ == v@[i as int]@);
            assert forall|j: int| 0 <= j < i + 1 && (#[trigger] v@[j])@ != d@ implies exists|k: int|
                0 <= k < r@.len() && (#[trigger] r@[k])@ == v@[j]@ by {
                if j < i {
                    let k = choose|k: int| 0 <= k < old_r.len() && (#[trigger] old_r[k])@ == v@[j]@;
                    assert(r@[k] == old_r[k]);
                } else {
                    assert(r@[r@.len() - 1]@ == v@[j]@);
                }
            }
            assert forall|k: int| 0 <= k < r@.len() implies exists|j: int|
                0 <= j < i + 1 && (#[trigger] v@[j])@ == (#[trigger] r@[k])@ by {
                if k < old_r.len() {
                    let j = choose|j: int| 0 <= j < i && (#[trigger] v@[j])@ == old_r[k]@;
                    assert(r@[k] == old_r[k]);
                } else {
                    assert(v@[i as int]@ == r@[k]@);
                }
            }
        }
        i = i + 1;
    }
    assert(text_set(r@) =~= text_set(v@).remove(d@)) by {
        assert forall|x: Seq<char>| text_set(r@).contains(x) implies text_set(v@).remove(d@).contains(
            x,
        ) by {
            let k = choose|k: int| 0 <= k < r@.len() && (#[trigger] r@[k])@ == x;
            assert(r@[k]@ != d@);
        }
        assert forall|x: Seq<char>| text_set(v@).remove(d@).contains(x) implies text_set(
            r@,
        ).contains(x) by {
            let j = choose|j: int| 0 <= j < v@.len() && (#[trigger] v@[j])@ == x;
            assert(v@[j]@ != d@);
        }
    }
    r
}

/// A set of DIDs, such as the friends picked for a new group.
pub struct DidSet {
    dids: Vec<String>,
}

impl View for DidSet {
    type V = Set<Seq<char>>;

    closed spec fn view(&self) -> Set<Seq<char>> {
        text_set(self.dids@)
    }
}

impl DidSet {
    /// The empty set.
    pub fn new() -> (r: Self)
        ensures
            r@ == Set::<Seq<char>>::empty(),
    {
        let r = DidSet { dids: Vec::new() };
        assert(r@ =~= Set::<Seq<char>>::empty());
        r
    }

    /// Whether `did` is in the set.
    pub fn contains(&self, did: &String) -> (r: bool)
        ensures
            r == self@.contains(did@),
    {
        holds_text(&self.dids, did)
    }

    /// Adds `did` to the set.
    pub fn insert(&mut self, did: &String)
        ensures
            final(self)@ == old(self)@.insert(did@),
    {
        if !holds_text(&self.dids, did) {
            let ghost before = self.dids@;
            self.dids.push(did.clone());
            assert(text_set(self.dids@) =~= text_set(before).insert(did@)) by {
                assert(self.dids@[before.len() as int]@ == did@);
                assert forall|x: Seq<char>| text_set(before).contains(x) implies text_set(
                    self.dids@,
                ).contains(x) by {
                    let k = choose|k: int| 0 <= k < before.len() && (#[trigger] before[k])@ == x;
                    assert(self.dids@[k] == before[k]);
                }
                assert forall|x: Seq<char>| text_set(self.dids@).contains(x) implies text_set(
                    before,
                ).insert(did@).contains(x) by {
                    let k = choose|k: int|
                        0 <= k < self.dids@.len() && (#[trigger] self.dids@[k])@ == x;
                    if k < before.len() {
                        assert(before[k] == self.dids@[k]);
                    }
                }
            }
        } else {
            assert(old(self)@ =~= old(self)@.insert(did@));
        }
    }

    /// Takes `did` out of the set.
    pub fn remove(&mut self, did: &String)
        ensures
            final(self)@ == old(self)@.remove(did@),
    {
        self.dids = without_text(&self.dids, did);
    }

    /// Puts `did` in the set when `selected`, takes it out otherwise, as
    /// ticking or unticking a friend in the new group's list does.
    pub fn set_selected(&mut self, did: &String, selected: bool)
        ensures
            selected ==> final(self)@ == old(self)@.insert(did@),
            !selected ==> final(self)@ == old(self)@.remove(did@),
    {
        if selected {
            self.insert(did);
        } else {
            self.remove(did);
        }
    }

    /// The DIDs of the set, each once, as the recipients of the new group.
    pub fn members(&self) -> (r: Vec<String>)
        ensures
            text_set(r@) == self@,
            forall|i: int, j: int|
                0 <= i < r@.len() && 0 <= j < r@.len() && i != j ==> (#[trigger] r@[i])@ != (
                #[trigger] r@[j])@,
    {
        let mut r: Vec<String> = Vec::new();
        let mut i: usize = 0;
        while i < self.dids.len()
            invariant
                i <= self.dids@.len(),
                text_set(r@) == text_set(self.dids@.subrange(0, i as int)),
                forall|a: int, b: int|
                    0 <= a < r@.len() && 0 <= b < r@.len() && a != b ==> (#[trigger] r@[a])@ != (
                    #[trigger] r@[b])@,
            decreases self.dids@.len() - i,
        {
            let ghost pre = self.dids@.subrange(0, i as int);
            let ghost next = self.dids@.subrange(0, i + 1);
            let ghost old_r = r@;
            let d = &self.dids[i];
            if !holds_text(&r, d) {
                r.push(d.clone());
                assert forall|a: int, b: int|
                    0 <= a < r@.len() && 0 <= b < r@.len() && a != b implies (#[trigger] r@[a])@
                    != (#[trigger] r@[b])@ by {
                    if a < old_r.len() && b < old_r.len() {
                        assert(r@[a] == old_r[a] && r@[b] == old_r[b]);
                    } else if a < old_r.len() {
                        assert(r@[a] == old_r[a]);
                        assert(!text_set(old_r).contains(d@));
                    } else {
                        assert(r@[b] == old_r[b]);
                        assert(!text_set(old_r).contains(d@));
                    }
                }
            }
            assert(text_set(r@) =~= text_set(next)) by {
                assert forall|x: Seq<char>| text_set(r@).contains(x) implies text_set(
                    next,
                ).contains(x) by {
                    let k = choose|k: int| 0 <= k < r@.len() && (#[trigger] r@[k])@ == x;
                    if k < old_r.len() {
                        assert(r@[k] == old_r[k]);
                        assert(text_set(old_r).contains(x));
                        assert(text_set(pre).contains(x));
                        let j = choose|j: int| 0 <= j < pre.len() && (#[trigger] pre[j])@ == x;
                        assert(next[j] == pre[j]);
                    } else {
                        assert(next[i as int]@ == x);
                    }
                }
                assert forall|x: Seq<char>| text_set(next).contains(x) implies text_set(
                    r@,
                ).contains(x) by {
                    let j = choose|j: int| 0 <= j < next.len() && (#[trigger] next[j])@ == x;
                    if j < i {
                        assert(pre[j] == next[j]);
                        assert(text_set(pre).contains(x));
                        assert(text_set(old_r).contains(x));
                        let k = choose|k: int| 0 <= k < old_r.len() && (#[trigger] old_r[k])@ == x;
                        assert(r@[k] == old_r[k]);
                    } else {
                        if text_set(old_r).contains(x) {
                            let k = choose|k: int|
                                0 <= k < old_r.len() && (#[trigger] old_r[k])@ == x;
                            assert(r@[k] == old_r[k]);
                        } else {
                            assert(r@[old_r.len() as int]@ == x);
                        }
                    }
                }
            }
            i = i + 1;
        }
        assert(self.dids@.subrange(0, self.dids@.len() as int) =~= self.dids@);
        r
    }
}

/// The incoming friend requests whose acceptance or refusal has been sent and
/// not answered yet, by the DID of the requester. While a request is in
/// progress its buttons are disabled.
pub struct RequestsInProgress {
    accepting: DidSet,
    denying: DidSet,
}

impl RequestsInProgress {
    /// The DIDs whose acceptance is in progress.
    pub closed spec fn accepting(&self) -> Set<Seq<char>> {
        self.accepting@
    }

    /// The DIDs whose refusal is in progress.
    pub closed spec fn denying(&self) -> Set<Seq<char>> {
        self.denying@
    }

    /// Nothing in progress.
    pub fn new() -> (r: Self)
        ensures
            r.accepting() == Set::<Seq<char>>::empty(),
            r.denying() == Set::<Seq<char>>::empty(),
    {
        RequestsInProgress { accepting: DidSet::new(), denying: DidSet::new() }
    }

    /// The acceptance of the request from `did` has been sent.
    pub fn start_accept(&mut self, did: &String)
        ensures
            final(self).accepting() == old(self).accepting().insert(did@),
            final(self).denying() == old(self).denying(),
    {
        self.accepting.insert(did);
    }

    /// The refusal of the request from `did` has been sent.
    pub fn start_deny(&mut self, did: &String)
        ensures
            final(self).denying() == old(self).denying().insert(did@),
            final(self).accepting() == old(self).accepting(),
    {
        self.denying.insert(did);
    }

    /// The acceptance of the request from `did` was answered, or could not be
    /// sent.
    pub fn finish_accept(&mut self, did: &String)
        ensures
            final(self).accepting() == old(self).accepting().remove(did@),
            final(self).denying() == old(self).denying(),
    {
        self.accepting.remove(did);
    }

    /// The refusal of the request from `did` was answered, or could not be
    /// sent.
    pub fn finish_deny(&mut self, did: &String)
        ensures
            final(self).denying() == old(self).denying().remove(did@),
            final(self).accepting() == old(self).accepting(),
    {
        self.denying.remove(did);
    }

    /// Whether the accept button of the request from `did` is disabled.
    pub fn accept_disabled(&self, did: &String) -> (r: bool)
        ensures
            r == self.accepting().contains(did@),
    {
        self.accepting.contains(did)
    }

    /// Whether the refuse button of the request from `did` is disabled.
    pub fn deny_disabled(&self, did: &String) -> (r: bool)
        ensures
            r == self.denying().contains(did@),
    {
        self.denying.contains(did)
    }

    /// Whether the context menu of the request from `did` hides its items: an
    /// acceptance or a refusal of it is in progress.
    pub fn any_button_disabled(&self, did: &String) -> (r: bool)
        ensures
            r == (self.accepting().contains(did@) || self.denying().contains(did@)),
    {
        self.accepting.contains(did) || self.denying.contains(did)
    }
}

/// Adding a DID that was not in a set and taking it out again gives back the
/// set: ticking and unticking a friend, or sending an acceptance (or a
/// refusal) and getting its answer, leaves things as they were.
pub proof fn lemma_insert_then_remove_restores(before: Set<Seq<char>>, did: Seq<char>)
    requires
        !before.contains(did),
    ensures
        before.insert(did).remove(did) == before,
{
    assert(before.insert(did).remove(did) =~= before);
}

/// The "add someone" form: what the field holds, whether it passed its
/// validation, and whether a request is on its way.
pub struct AddFriendForm {
    pub input: String,
    pub input_valid: bool,
    pub in_progress: bool,
}

impl AddFriendForm {
    /// An empty form.
    pub fn new() -> (r: Self)
        ensures
            r.input@ == Seq::<char>::empty(),
            !r.input_valid,
            !r.in_progress,
    {
        AddFriendForm { input: String::new(), input_valid: false, in_progress: false }
    }

    /// The field changed, and its validation gave `is_valid`.
    pub fn edit(&mut self, value: String, is_valid: bool)
        ensures
            final(self).input == value,
            final(self).input_valid == is_valid,
            final(self).in_progress == old(self).in_progress,
    {
        self.input = value;
        self.input_valid = is_valid;
    }

    /// The add button is disabled while the field is not valid.
    pub fn add_disabled(&self) -> (r: bool)
        ensures
            r == !self.input_valid,
    {
        !self.input_valid
    }

    /// Enter was pressed, or the add button: a request for what the field
    /// holds is sent when it is valid, and is then on its way; an invalid
    /// field sends nothing and changes nothing.
    pub fn submit(&mut self) -> (r: Option<String>)
        ensures
            old(self).input_valid ==> r == Some(old(self).input) && final(self).in_progress
                && final(self).input == old(self).input && final(self).input_valid,
            !old(self).input_valid ==> r is None && final(self).input == old(self).input
                && !final(self).input_valid && final(self).in_progress == old(self).in_progress,
    {
        if !self.input_valid {
            return None;
        }
        self.in_progress = true;
        Some(self.input.clone())
    }

    /// The request was answered (or could not be sent): the form is cleared
    /// and ready again.
    pub fn answered(&mut self)
        ensures
            final(self).input@ == Seq::<char>::empty(),
            !final(self).input_valid,
            !final(self).in_progress,
    {
        self.input = String::new();
        self.input_valid = false;
        self.in_progress = false;
    }
}

} // verus!
