use vstd::prelude::*;
use crate::text::{chars_of, decimal, push_char, push_decimal, replace_all, replace_str, string_from_chars};

verus! {

/// Where a file to send lives: in the user's Constellation storage (by path)
/// or on the local disk.
pub enum Location {
    Constellation { path: String },
    Disk { path: String },
}

/// `l` is the storage file at `path`.
pub open spec fn is_storage_path(l: Location, path: Seq<char>) -> bool {
    l matches Location::Constellation { path: p } && p@ == path
}

/// The index of the first storage file at `path` in `s`, if any.
pub open spec fn selected_index(s: Seq<Location>, path: Seq<char>) -> Option<int>
    decreases s.len(),
{
    if s.len() == 0 {
        None
    } else {
        match selected_index(s.drop_last(), path) {
            Some(i) => Some(i),
            None => if is_storage_path(s.last(), path) {
                Some(s.len() - 1)
            } else {
                None
            },
        }
    }
}

proof fn lemma_selected_index(s: Seq<Location>, path: Seq<char>)
    ensures
        match selected_index(s, path) {
            Some(i) => 0 <= i < s.len() && is_storage_path(s[i], path) && forall|j: int|
                0 <= j < i ==> !is_storage_path(#[trigger] s[j], path),
            None => forall|j: int| 0 <= j < s.len() ==> !is_storage_path(#[trigger] s[j], path),
        },
    decreases s.len(),
{
    if s.len() > 0 {
        lemma_selected_index(s.drop_last(), path);
        let d = s.drop_last();
        assert forall|j: int| 0 <= j < d.len() implies d[j] == s[j] by {}
    }
}

fn path_matches(l: &Location, path: &String) -> (r: bool)
    ensures
        r == is_storage_path(*l, path@),
{
    match l {
        Location::Constellation { path: p } => p.eq(path),
        Location::Disk { .. } => false,
    }
}

/// Whether the storage file at `path` is selected to be sent.
pub fn is_file_selected(files: &Vec<Location>, path: &String) -> (r: bool)
    ensures
        r == (selected_index(files@, path@) is Some),
        r == exists|i: int| 0 <= i < files@.len() && is_storage_path(#[trigger] files@[i], path@),
{
    proof {
        lemma_selected_index(files@, path@);
    }
    match find_selected(files, path) {
        Some(_) => true,
        None => false,
    }
}

fn find_selected(files: &Vec<Location>, path: &String) -> (r: Option<usize>)
    ensures
        match selected_index(files@, path@) {
            Some(i) => r == Some(i as usize),
            None => r is None,
        },
{
    proof {
        lemma_selected_index(files@, path@);
    }
    let mut i: usize = 0;
    while i < files.len()
        invariant
            i <= files@.len(),
            forall|j: int| 0 <= j < i ==> !is_storage_path(#[trigger] files@[j], path@),
            match selected_index(files@, path@) {
                Some(k) => 0 <= k < files@.len() && is_storage_path(files@[k], path@) && forall|
                    j: int,
                | 0 <= j < k ==> !is_storage_path(#[trigger] files@[j], path@),
                None => forall|j: int|
                    0 <= j < files@.len() ==> !is_storage_path(#[trigger] files@[j], path@),
            },
        decreases files@.len() - i,
    {
        if path_matches(&files[i], path) {
            return Some(i);
        }
        i = i + 1;
    }
    None
}

/// `after` is the selection `before` once the storage file at `path` was
/// toggled: its first entry is taken out when it is selected; otherwise it
/// is added at the end, when fewer than `max_files` files are selected.
pub open spec fn toggled(before: Seq<Location>, after: Seq<Location>, path: Seq<char>, max_files: nat) -> bool {
    match selected_index(before, path) {
        Some(i) => after == before.remove(i),
        None => if before.len() < max_files {
            after.len() == before.len() + 1 && after.drop_last() == before && is_storage_path(
                after.last(),
                path,
            )
        } else {
            after == before
        },
    }
}

/// No storage path is selected twice.
pub open spec fn paths_unique(s: Seq<Location>) -> bool {
    forall|i: int, j: int, p: Seq<char>|
        0 <= i < s.len() && 0 <= j < s.len() && i != j && #[trigger] is_storage_path(s[i], p)
            ==> !#[trigger] is_storage_path(s[j], p)
}

/// Toggling keeps the selection free of a path selected twice, and within
/// `max_files` files.
pub proof fn lemma_toggle_keeps_paths_unique(
    before: Seq<Location>,
    after: Seq<Location>,
    path: Seq<char>,
    max_files: nat,
)
    requires
        paths_unique(before),
        before.len() <= max_files,
        toggled(before, after, path, max_files),
    ensures
        paths_unique(after),
        after.len() <= max_files,
{
    lemma_selected_index(before, path);
    match selected_index(before, path) {
        Some(k) => {
            assert forall|i: int, j: int, p: Seq<char>|
                0 <= i < after.len() && 0 <= j < after.len() && i != j && #[trigger] is_storage_path(
                    after[i],
                    p,
                ) implies !#[trigger] is_storage_path(after[j], p) by {
                let bi = if i < k { i } else { i + 1 };
                let bj = if j < k { j } else { j + 1 };
                assert(after[i] == before[bi]);
                assert(after[j] == before[bj]);
            }
        },
        None => {
            if before.len() < max_files {
                assert forall|i: int, j: int, p: Seq<char>|
                    0 <= i < after.len() && 0 <= j < after.len() && i != j
                        && #[trigger] is_storage_path(after[i], p) implies !#[trigger] is_storage_path(
                    after[j],
                    p,
                ) by {
                    if i < before.len() && j < before.len() {
                        assert(after[i] == before[i] && after[j] == before[j]);
                    } else if i < before.len() {
                        assert(after[i] == before[i]);
                        assert(after[j] == after.last());
                    } else {
                        assert(after[j] == before[j]);
                        assert(after[i] == after.last());
                    }
                }
            }
        },
    }
}

/// Toggling the same storage path twice gives back the selection when the
/// path was not selected (and there was room for it), and moves its entry to
/// the end when it was.
pub proof fn lemma_toggle_twice(
    a: Seq<Location>,
    b: Seq<Location>,
    c: Seq<Location>,
    path: Seq<char>,
    max_files: nat,
)
    requires
        paths_unique(a),
        a.len() <= max_files,
        toggled(a, b, path, max_files),
        toggled(b, c, path, max_files),
    ensures
        selected_index(a, path) is None && a.len() < max_files ==> c == a,
        selected_index(a, path) matches Some(i) ==> c.drop_last() == a.remove(i)
            && c.len() == a.len() && is_storage_path(c.last(), path),
{
    lemma_selected_index(a, path);
    match selected_index(a, path) {
        Some(k) => {
            lemma_selected_index(b, path);
            assert(selected_index(b, path) is None) by {
                if let Some(j) = selected_index(b, path) {
                    let bj = if j < k { j } else { j + 1 };
                    assert(b[j] == a[bj]);
                    assert(bj != k);
                    assert(is_storage_path(a[k], path));
                }
            }
        },
        None => {
            if a.len() < max_files {
                lemma_selected_index(b, path);
                assert(is_storage_path(b[b.len() - 1], path));
                assert(selected_index(b, path) is Some);
                let j = selected_index(b, path)->0;
                if j < b.len() - 1 {
                    assert(b[j] == a[j]);
                }
                assert(j == b.len() - 1);
                assert(c =~= a);
            }
        },
    }
}

/// Toggles whether the storage file at `file_path` is selected to be sent.
pub fn toggle_selected_file(files: &mut Vec<Location>, file_path: String, max_files: usize)
    ensures
        toggled(old(files)@, final(files)@, file_path@, max_files as nat),
{
    proof {
        lemma_selected_index(old(files)@, file_path@);
    }
    match find_selected(files, &file_path) {
        Some(index) => {
            files.remove(index);
        },
        None => {
            if files.len() < max_files {
                files.push(Location::Constellation { path: file_path });
                assert(files@.drop_last() =~= old(files)@);
            }
        },
    }
}

/// Selecting a file that is not selected, while there is room, and then
/// toggling it again gives back the selection as it was.
pub proof fn lemma_toggle_twice_restores(
    s: Seq<Location>,
    path: Seq<char>,
    added: Location,
    max_files: nat,
)
    requires
        selected_index(s, path) is None,
        s.len() < max_files,
        is_storage_path(added, path),
    ensures
        selected_index(s.push(added), path) == Some(s.len() as int),
        s.push(added).remove(s.len() as int) == s,
{
    assert(s.push(added).drop_last() =~= s);
    assert(s.push(added).remove(s.len() as int) =~= s);
}

/// Toggling never takes a selection of at most `max_files` files above it.
pub proof fn lemma_toggle_keeps_limit(s: Seq<Location>, path: Seq<char>, max_files: nat)
    requires
        s.len() <= max_files,
    ensures
        match selected_index(s, path) {
            Some(i) => s.remove(i).len() <= max_files,
            None => s.len() < max_files ==> s.len() + 1 <= max_files,
        },
{
    lemma_selected_index(s, path);
}

/// The checkbox of a file can no longer be ticked once `max_files` files are
/// selected.
pub fn selection_full(files: &Vec<Location>, max_files: usize) -> (r: bool)
    ensures
        r == (files@.len() >= max_files),
{
    files.len() >= max_files
}

/// The send button is disabled when no file is selected, or, when sending
/// from the storage page, no chat is selected.
pub fn send_disabled(files_selected: usize, in_files: bool, chats_selected: usize) -> (r: bool)
    ensures
        r == (files_selected == 0 || (in_files && chats_selected == 0)),
{
    files_selected == 0 || (in_files && chats_selected == 0)
}

/// The amount shown on the send button: "selected/maximum".
pub fn send_amount_text(selected: usize, max_files: usize) -> (r: String)
    ensures
        r@ == decimal(selected as nat) + seq!['/'] + decimal(max_files as nat),
{
    let mut r = String::new();
    push_decimal(&mut r, selected as u64);
    push_char(&mut r, '/');
    push_decimal(&mut r, max_files as u64);
    assert(r@ =~= decimal(selected as nat) + seq!['/'] + decimal(max_files as nat));
    r
}

/// `s` without any occurrence of `x`.
pub open spec fn without(s: Seq<u128>, x: u128) -> Seq<u128>
    decreases s.len(),
{
    if s.len() == 0 {
        s
    } else if s.last() == x {
        without(s.drop_last(), x)
    } else {
        without(s.drop_last(), x).push(s.last())
    }
}

/// Ticks or unticks a chat in the list of chats to send files to: a ticked
/// chat is taken out (every occurrence), an unticked one is added at the end.
pub fn toggle_chat_selection(chats: &mut Vec<u128>, chat_id: u128, is_checked: bool)
    ensures
        is_checked ==> final(chats)@ == without(old(chats)@, chat_id),
        !is_checked ==> final(chats)@ == old(chats)@.push(chat_id),
{
    if is_checked {
        let mut kept: Vec<u128> = Vec::new();
        let mut i: usize = 0;
        while i < chats.len()
            invariant
                i <= chats@.len(),
                chats@ == old(chats)@,
                kept@ == without(chats@.subrange(0, i as int), chat_id),
            decreases chats@.len() - i,
        {
            let ghost pre = chats@.subrange(0, i as int + 1);
            assert(pre.drop_last() =~= chats@.subrange(0, i as int));
            if chats[i] != chat_id {
                kept.push(chats[i]);
            }
            i = i + 1;
        }
        assert(chats@.subrange(0, chats@.len() as int) =~= chats@);
        *chats = kept;
    } else {
        chats.push(chat_id);
    }
}

proof fn lemma_push_contains(w: Seq<u128>, z: u128, y: u128)
    ensures
        w.push(z).contains(y) <==> (w.contains(y) || z == y),
{
    if w.push(z).contains(y) {
        let k = choose|k: int| 0 <= k < w.push(z).len() && w.push(z)[k] == y;
        if k < w.len() {
            assert(w[k] == y);
        }
    }
    if w.contains(y) {
        let k = choose|k: int| 0 <= k < w.len() && w[k] == y;
        assert(w.push(z)[k] == y);
    }
    if z == y {
        assert(w.push(z)[w.len() as int] == y);
    }
}

/// Taking a chat out leaves every other chat and no occurrence of it.
pub proof fn lemma_without_removes(s: Seq<u128>, x: u128, y: u128)
    ensures
        without(s, x).contains(y) <==> (y != x && s.contains(y)),
    decreases s.len(),
{
    if s.len() == 0 {
    } else {
        let d = s.drop_last();
        lemma_without_removes(d, x, y);
        assert(s =~= d.push(s.last()));
        lemma_push_contains(d, s.last(), y);
        if s.last() != x {
            lemma_push_contains(without(d, x), s.last(), y);
        }
    }
}

/// The text about how many files are about to be uploaded.
#[derive(Clone, Copy, Debug, PartialEq, Eq, Structural)]
pub enum UploadCountText {
    /// "n files to upload".
    Many(usize),
    /// "one file to upload".
    One,
}

/// Which text announces the files that hover over the window.
pub fn count_files_to_show(files_to_upload_len: usize) -> (r: UploadCountText)
    ensures
        files_to_upload_len > 1 ==> r == UploadCountText::Many(files_to_upload_len),
        files_to_upload_len <= 1 ==> r == UploadCountText::One,
{
    if files_to_upload_len > 1 {
        UploadCountText::Many(files_to_upload_len)
    } else {
        UploadCountText::One
    }
}

/// Script that shows the count of files to upload.
pub const FILES_TO_UPLOAD_SCRIPT: &'static str = r#"
    var element = document.getElementById('upload-file-count');
    element.textContent = '$TEXT';
"#;

/// Script that shows, during an upload, how many more files are dropped.
pub const UPDATE_FILES_TO_DROP: &'static str = r#"
    var element = document.getElementById('upload-progress-drop-files');
    element.textContent = '$TEXT1 $FILES_NUMBER $TEXT2';
"#;

/// The script that shows `text` as the count of files to upload.
pub fn files_to_upload_script(text: &str) -> (r: String)
    ensures
        r@ == replace_all(FILES_TO_UPLOAD_SCRIPT@, "$TEXT"@, text@),
{
    proof {
        reveal_strlit("$TEXT");
    }
    replace_str(FILES_TO_UPLOAD_SCRIPT, "$TEXT", text)
}

/// The script that updates the "add n files" note while files are uploaded:
/// while files hover it reads " / {add} {n} {file or files}", otherwise the
/// note is emptied. `file_text` and `files_text` are the singular and plural
/// words; the plural is used for more than one file.
pub fn files_to_drop_script(
    files_to_drop: usize,
    hovering: bool,
    add_text: &str,
    file_text: &str,
    files_text: &str,
) -> (r: String)
    ensures
        hovering ==> r@ == replace_all(
            replace_all(
                replace_all(UPDATE_FILES_TO_DROP@, "$TEXT1"@, seq![' ', '/', ' '] + add_text@),
                "$FILES_NUMBER"@,
                decimal(files_to_drop as nat),
            ),
            "$TEXT2"@,
            if files_to_drop > 1 {
                files_text@
            } else {
                file_text@
            },
        ),
        !hovering ==> r@ == replace_all(
            replace_all(
                replace_all(UPDATE_FILES_TO_DROP@, "$TEXT1"@, Seq::<char>::empty()),
                "$FILES_NUMBER"@,
                Seq::<char>::empty(),
            ),
            "$TEXT2"@,
            Seq::<char>::empty(),
        ),
{
    proof {
        reveal_strlit("$TEXT1");
        reveal_strlit("$FILES_NUMBER");
        reveal_strlit("$TEXT2");
        reveal_strlit("");
    }
    assert(""@ =~= Seq::<char>::empty());
    if hovering {
        let mut first = String::new();
        push_char(&mut first, ' ');
        push_char(&mut first, '/');
        push_char(&mut first, ' ');
        first.append(add_text);
        assert(first@ =~= seq![' ', '/', ' '] + add_text@);
        let number = crate::text::decimal_string(files_to_drop as u64);
        let s1 = replace_str(UPDATE_FILES_TO_DROP, "$TEXT1", first.as_str());
        let s2 = replace_str(s1.as_str(), "$FILES_NUMBER", number.as_str());
        let word = if files_to_drop > 1 {
            files_text
        } else {
            file_text
        };
        replace_str(s2.as_str(), "$TEXT2", word)
    } else {
        let s1 = replace_str(UPDATE_FILES_TO_DROP, "$TEXT1", "");
        let s2 = replace_str(s1.as_str(), "$FILES_NUMBER", "");
        replace_str(s2.as_str(), "$TEXT2", "")
    }
}

/// A drag-and-drop event of the window, with whether its paths are valid
/// files.
#[derive(Clone, Copy, Debug, PartialEq, Eq, Structural)]
pub enum FileDropEvent {
    Hovered { count: usize, valid: bool },
    Dropped { valid: bool },
    Other,
}

/// What the drag-and-drop loop does with an event.
#[derive(Clone, Copy, Debug, PartialEq, Eq, Structural)]
pub enum DropStep {
    /// Show that `n` files hover, then wait for the next event.
    ShowCount(usize),
    /// Take the dropped files and stop.
    Accept,
    /// Wait for the next event.
    Wait,
    /// Stop waiting.
    Stop,
}

/// Decides the drag-and-drop loop's step for an event.
pub fn drop_step(event: FileDropEvent) -> (r: DropStep)
    ensures
        match event {
            FileDropEvent::Hovered { count, valid } => if valid {
                r == DropStep::ShowCount(count)
            } else {
                r == DropStep::Wait
            },
            FileDropEvent::Dropped { valid } => if valid {
                r == DropStep::Accept
            } else {
                r == DropStep::Wait
            },
            FileDropEvent::Other => r == DropStep::Stop,
        },
{
    match event {
        FileDropEvent::Hovered { count, valid } => {
            if valid {
                DropStep::ShowCount(count)
            } else {
                DropStep::Wait
            }
        },
        FileDropEvent::Dropped { valid } => {
            if valid {
                DropStep::Accept
            } else {
                DropStep::Wait
            }
        },
        FileDropEvent::Other => DropStep::Stop,
    }
}


/// The name of the root directory of the storage.
pub const ROOT_DIR_NAME: &'static str = "root";

/// The first crumb of the path, when it is the root directory, is shown as
/// "home".
pub fn is_home_crumb(index: usize, dir_name: &String) -> (r: bool)
    ensures
        r == (dir_name@ == ROOT_DIR_NAME@ && index == 0),
{
    let root = String::from_str(ROOT_DIR_NAME);
    dir_name.eq(&root) && index == 0
}


/// The final component of a path (`Path::file_name`): `None` when the path
/// ends in `..` or has no final component. Named here rather than written out.
pub uninterp spec fn final_component(path: Seq<char>) -> Option<Seq<char>>;

/// `Path::new(path).file_name()`, as text.
#[verifier::external_body]
fn path_file_name(path: &str) -> (r: Option<String>)
    ensures
        match final_component(path@) {
            Some(n) => r matches Some(s) && s@ == n,
            None => r is None,
        },
{
    std::path::Path::new(path).file_name().and_then(|s| s.to_str()).map(|s| s.to_string())
}

/// The position of the last `.` of `name`, if it has one.
pub open spec fn last_dot(name: Seq<char>) -> Option<int>
    decreases name.len(),
{
    if name.len() == 0 {
        None
    } else if name.last() == '.' {
        Some(name.len() - 1)
    } else {
        last_dot(name.drop_last())
    }
}

/// The stem of a file name (`Path::file_stem`): the part before the last `.`,
/// or the whole name when it has no `.` or its only `.` begins it.
pub open spec fn stem_of(name: Seq<char>) -> Seq<char> {
    match last_dot(name) {
        Some(i) => if i == 0 {
            name
        } else {
            name.subrange(0, i)
        },
        None => name,
    }
}

/// The extension of a file name (`Path::extension`): the part after the last
/// `.`, if there is a `.` that does not begin the name.
pub open spec fn extension_of(name: Seq<char>) -> Option<Seq<char>> {
    match last_dot(name) {
        Some(i) => if i == 0 {
            None
        } else {
            Some(name.subrange(i + 1, name.len() as int))
        },
        None => None,
    }
}

proof fn lemma_last_dot_in_range(name: Seq<char>)
    ensures
        last_dot(name) matches Some(i) ==> 0 <= i < name.len() && name[i] == '.',
    decreases name.len(),
{
    if name.len() > 0 && name.last() != '.' {
        lemma_last_dot_in_range(name.drop_last());
    }
}

/// The stem and the extension of a file name make it up again: the stem, a
/// `.` and the extension, when there is an extension; the stem alone
/// otherwise.
pub proof fn lemma_stem_and_extension_rebuild_name(name: Seq<char>)
    ensures
        match extension_of(name) {
            Some(e) => stem_of(name) + seq!['.'] + e == name,
            None => stem_of(name) == name,
        },
{
    lemma_last_dot_in_range(name);
    if let Some(i) = last_dot(name) {
        if i != 0 {
            assert(name.subrange(0, i) + seq!['.'] + name.subrange(i + 1, name.len() as int)
                =~= name);
        }
    }
}

fn find_last_dot(cs: &Vec<char>) -> (r: Option<usize>)
    ensures
        match last_dot(cs@) {
            Some(i) => r == Some(i as usize),
            None => r is None,
        },
        r matches Some(i) ==> i < cs@.len() && last_dot(cs@) == Some(i as int),
{
    proof {
        lemma_last_dot_in_range(cs@);
    }
    let mut k: usize = cs.len();
    assert(cs@.subrange(0, k as int) =~= cs@);
    while k > 0
        invariant
            k <= cs@.len(),
            last_dot(cs@) == last_dot(cs@.subrange(0, k as int)),
        decreases k,
    {
        let ghost pre = cs@.subrange(0, k as int);
        assert(pre.drop_last() =~= cs@.subrange(0, k - 1));
        if cs[k - 1] == '.' {
            return Some(k - 1);
        }
        k = k - 1;
    }
    assert(cs@.subrange(0, 0) =~= Seq::<char>::empty());
    None
}

fn chars_between(cs: &Vec<char>, from: usize, to: usize) -> (r: Vec<char>)
    requires
        from <= to <= cs@.len(),
    ensures
        r@ == cs@.subrange(from as int, to as int),
{
    let mut r: Vec<char> = Vec::new();
    let mut k: usize = from;
    while k < to
        invariant
            from <= k <= to <= cs@.len(),
            r@ == cs@.subrange(from as int, k as int),
        decreases to - k,
    {
        r.push(cs[k]);
        k = k + 1;
        assert(r@ =~= cs@.subrange(from as int, k as int));
    }
    r
}

/// The name and the extension that the save dialog proposes when a stored file
/// is downloaded: the file stem and the extension of its name, each empty where
/// the name has none.
pub fn download_dialog_names(file_name: &str) -> (r: (String, String))
    ensures
        match final_component(file_name@) {
            Some(n) => r.0@ == stem_of(n) && r.1@ == match extension_of(n) {
                Some(e) => e,
                None => Seq::<char>::empty(),
            },
            None => r.0@ == Seq::<char>::empty() && r.1@ == Seq::<char>::empty(),
        },
{
    match path_file_name(file_name) {
        Some(name) => {
            let cs = chars_of(name.as_str());
            match find_last_dot(&cs) {
                Some(i) => {
                    let n = cs.len();
                    if i == 0 {
                        (name, String::new())
                    } else {
                        let stem_cs = chars_between(&cs, 0, i);
                        let ext_cs = chars_between(&cs, i + 1, n);
                        let stem = string_from_chars(stem_cs.as_slice());
                        let ext = string_from_chars(ext_cs.as_slice());
                        (stem, ext)
                    }
                },
                None => (name, String::new()),
            }
        },
        None => (String::new(), String::new()),
    }
}

/// The storage as the files page shows it: the directory it is in, the
/// directories opened to reach it, and the names of the folders and files
/// there.
pub struct StorageView {
    pub current_dir: String,
    pub directories_opened: Vec<String>,
    pub directories: Vec<String>,
    pub files: Vec<String>,
}

/// The storage shown after an answer of the storage service: the storage it
/// sent when the command succeeded; the one shown before when it failed.
pub fn storage_after_answer(current: StorageView, answer: Option<StorageView>) -> (next: StorageView)
    ensures
        answer matches Some(s) ==> next == s,
        answer is None ==> next == current,
{
    match answer {
        Some(s) => s,
        None => current,
    }
}

/// The command that renames a folder or a file.
pub struct RenameItem {
    pub old_name: String,
    pub new_name: String,
}

/// What the name field of a folder or file sends when it is left: a rename
/// to the typed name, when it was left with Enter; nothing otherwise.
pub fn rename_step(old_name: String, new_name: String, key_is_enter: bool) -> (cmd: Option<RenameItem>)
    ensures
        key_is_enter ==> cmd == Some((RenameItem { old_name, new_name })),
        !key_is_enter ==> cmd is None,
{
    if key_is_enter {
        Some(RenameItem { old_name, new_name })
    } else {
        None
    }
}

/// The commands that the files page sends to the storage service for a new
/// folder.
pub enum NewFolderCommand {
    CreateNewDirectory(String),
    GetItemsFromCurrentDirectory,
}

/// What the files page is editing: the item whose name is being edited, if
/// any, and whether the field for a new folder is open.
pub struct FilesEditing {
    pub renaming: Option<u128>,
    pub add_new_folder: bool,
}

impl FilesEditing {
    /// Nothing is being edited.
    pub fn new() -> (r: Self)
        ensures
            r.renaming is None,
            !r.add_new_folder,
    {
        FilesEditing { renaming: None, add_new_folder: false }
    }

    /// "Rename" was picked in the menu of the item `id`.
    pub fn start_rename(&mut self, id: u128)
        ensures
            final(self).renaming == Some(id),
            final(self).add_new_folder == old(self).add_new_folder,
    {
        self.renaming = Some(id);
    }

    /// The name field of a folder or file was left: renaming ends, and a
    /// rename is sent when it was left with Enter.
    pub fn finish_rename(&mut self, old_name: String, new_name: String, key_is_enter: bool) -> (cmd:
        Option<RenameItem>)
        ensures
            final(self).renaming is None,
            final(self).add_new_folder == old(self).add_new_folder,
            key_is_enter ==> cmd == Some((RenameItem { old_name, new_name })),
            !key_is_enter ==> cmd is None,
    {
        self.renaming = None;
        rename_step(old_name, new_name, key_is_enter)
    }

    /// A click elsewhere on the page, a folder opened, or an upload started:
    /// renaming ends.
    pub fn stop_renaming(&mut self)
        ensures
            final(self).renaming is None,
            final(self).add_new_folder == old(self).add_new_folder,
    {
        self.renaming = None;
    }

    /// The new-folder button: renaming ends and the field for a new folder
    /// opens, or closes when it was open.
    pub fn toggle_new_folder(&mut self)
        ensures
            final(self).renaming is None,
            final(self).add_new_folder == !old(self).add_new_folder,
    {
        self.renaming = None;
        self.add_new_folder = !self.add_new_folder;
    }

    /// The new folder's field was left: it closes, and with Enter the folder
    /// is created and the current directory read again, in that order.
    pub fn finish_new_folder(&mut self, name: String, key_is_enter: bool) -> (cmds: Vec<NewFolderCommand>)
        ensures
            !final(self).add_new_folder,
            final(self).renaming == old(self).renaming,
            key_is_enter ==> cmds@.len() == 2 && cmds@[0] == NewFolderCommand::CreateNewDirectory(name)
                && cmds@[1] is GetItemsFromCurrentDirectory,
            !key_is_enter ==> cmds@.len() == 0,
    {
        self.add_new_folder = false;
        let mut cmds: Vec<NewFolderCommand> = Vec::new();
        if key_is_enter {
            cmds.push(NewFolderCommand::CreateNewDirectory(name));
            cmds.push(NewFolderCommand::GetItemsFromCurrentDirectory);
        }
        cmds
    }
}

} // verus!
