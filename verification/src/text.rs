use vstd::prelude::*;

verus! {

/// `c` has the Unicode `White_Space` property, which is what `char::is_whitespace`
/// tests.
pub open spec fn is_whitespace(c: char) -> bool {
    let v = c as u32;
    ||| 0x9 <= v <= 0xD
    ||| v == 0x20
    ||| v == 0x85
    ||| v == 0xA0
    ||| v == 0x1680
    ||| 0x2000 <= v <= 0x200A
    ||| v == 0x2028
    ||| v == 0x2029
    ||| v == 0x202F
    ||| v == 0x205F
    ||| v == 0x3000
}

/// Whether `c` is a whitespace character in the sense of `char::is_whitespace`.
pub fn char_is_whitespace(c: char) -> (r: bool)
    ensures
        r == is_whitespace(c),
{
    let v = c as u32;
    (0x9 <= v && v <= 0xD) || v == 0x20 || v == 0x85 || v == 0xA0 || v == 0x1680 || (0x2000
        <= v && v <= 0x200A) || v == 0x2028 || v == 0x2029 || v == 0x202F || v == 0x205F || v
        == 0x3000
}

/// Every character of `s` is whitespace: `s.trim()` is empty.
pub open spec fn is_blank(s: Seq<char>) -> bool {
    forall|i: int| 0 <= i < s.len() ==> is_whitespace(#[trigger] s[i])
}

/// The characters of `s`, in order.
pub fn chars_of(s: &str) -> (v: Vec<char>)
    ensures
        v@ == s@,
{
    let n = s.unicode_len();
    let mut v: Vec<char> = Vec::new();
    let mut i: usize = 0;
    while i < n
        invariant
            n == s@.len(),
            i <= n,
            v@ == s@.subrange(0, i as int),
        decreases n - i,
    {
        let c = s.get_char(i);
        v.push(c);
        i = i + 1;
        assert(v@ =~= s@.subrange(0, i as int));
    }
    assert(v@ =~= s@);
    v
}

/// Appends the character `c` to `s` (`String::push`).
#[verifier::external_body]
pub(crate) fn push_char(s: &mut String, c: char)
    ensures
        final(s)@ == old(s)@.push(c),
{
    s.push(c);
}

/// Appends every character of `cs` to `s`.
pub fn push_chars(s: &mut String, cs: &[char])
    ensures
        final(s)@ == old(s)@ + cs@,
{
    let mut i: usize = 0;
    while i < cs.len()
        invariant
            i <= cs@.len(),
            s@ == old(s)@ + cs@.subrange(0, i as int),
        decreases cs@.len() - i,
    {
        push_char(s, cs[i]);
        i = i + 1;
        assert(s@ =~= old(s)@ + cs@.subrange(0, i as int));
    }
    assert(cs@.subrange(0, cs@.len() as int) =~= cs@);
}

/// A string holding exactly the characters of `cs`.
pub fn string_from_chars(cs: &[char]) -> (r: String)
    ensures
        r@ == cs@,
{
    let mut r = String::new();
    push_chars(&mut r, cs);
    assert(r@ =~= cs@);
    r
}

/// Whether `s` holds only whitespace (`s.trim().is_empty()`).
pub fn is_blank_str(s: &str) -> (r: bool)
    ensures
        r == is_blank(s@),
{
    let cs = chars_of(s);
    let mut i: usize = 0;
    while i < cs.len()
        invariant
            cs@ == s@,
            i <= cs@.len(),
            forall|j: int| 0 <= j < i ==> is_whitespace(#[trigger] cs@[j]),
        decreases cs@.len() - i,
    {
        if !char_is_whitespace(cs[i]) {
            return false;
        }
        i = i + 1;
    }
    true
}

/// The pieces of `s` between occurrences of `sep`, as `str::split` with a
/// character pattern yields them: always at least one piece.
pub open spec fn split_on(s: Seq<char>, sep: char) -> Seq<Seq<char>>
    decreases s.len(),
{
    if s.len() == 0 {
        seq![Seq::<char>::empty()]
    } else {
        let rest = split_on(s.drop_last(), sep);
        if s.last() == sep {
            rest.push(Seq::<char>::empty())
        } else {
            rest.update(rest.len() - 1, rest.last().push(s.last()))
        }
    }
}

/// Splitting always yields at least one piece.
pub proof fn lemma_split_on_nonempty(s: Seq<char>, sep: char)
    ensures
        split_on(s, sep).len() >= 1,
    decreases s.len(),
{
    if s.len() > 0 {
        lemma_split_on_nonempty(s.drop_last(), sep);
    }
}

/// A piece that ended with a line feed loses one trailing carriage return.
pub open spec fn strip_cr(line: Seq<char>) -> Seq<char> {
    if line.len() > 0 && line.last() == '\r' {
        line.drop_last()
    } else {
        line
    }
}

/// The lines of `s` as `str::lines` yields them: the text is cut at each line
/// feed, a line that ended with a line feed loses one trailing carriage return,
/// and an empty last piece (after a final line feed, or of an empty text) is
/// not a line.
pub open spec fn lines_of(s: Seq<char>) -> Seq<Seq<char>> {
    let parts = split_on(s, '\n');
    let n = parts.len();
    let head = Seq::new((n - 1) as nat, |i: int| strip_cr(parts[i]));
    if parts.last().len() == 0 {
        head
    } else {
        head.push(parts.last())
    }
}

/// The pieces of `s` between the occurrences of `sep` (`s.split(sep)`).
pub fn split_str(s: &str, sep: char) -> (r: Vec<String>)
    ensures
        r@.len() == split_on(s@, sep).len(),
        forall|i: int| 0 <= i < r@.len() ==> #[trigger] r@[i]@ == split_on(s@, sep)[i],
{
    let cs = chars_of(s);
    let mut r: Vec<String> = Vec::new();
    let mut cur: Vec<char> = Vec::new();
    let mut i: usize = 0;
    while i < cs.len()
        invariant
            cs@ == s@,
            i <= cs@.len(),
            r@.len() + 1 == split_on(cs@.subrange(0, i as int), sep).len(),
            forall|k: int|
                0 <= k < r@.len() ==> #[trigger] r@[k]@ == split_on(
                    cs@.subrange(0, i as int),
                    sep,
                )[k],
            cur@ == split_on(cs@.subrange(0, i as int), sep).last(),
        decreases cs@.len() - i,
    {
        let ghost prefix = cs@.subrange(0, i as int);
        let ghost next = cs@.subrange(0, i as int + 1);
        assert(next.drop_last() =~= prefix);
        assert(next.last() == cs@[i as int]);
        proof {
            lemma_split_on_nonempty(prefix, sep);
        }
        let c = cs[i];
        if c == sep {
            let piece = string_from_chars(cur.as_slice());
            r.push(piece);
            cur = Vec::new();
            assert(cur@ =~= Seq::<char>::empty());
        } else {
            cur.push(c);
        }
        i = i + 1;
    }
    assert(cs@.subrange(0, cs@.len() as int) =~= s@);
    let last = string_from_chars(cur.as_slice());
    r.push(last);
    r
}

/// Whether any piece of `lines` holds a character that is not whitespace.
pub open spec fn has_content(lines: Seq<Seq<char>>) -> bool {
    exists|i: int| 0 <= i < lines.len() && !is_blank(#[trigger] lines[i])
}

/// Whether some line of `lines` holds a character that is not whitespace.
pub fn any_line_has_content(lines: &Vec<String>) -> (r: bool)
    ensures
        r == has_content(lines@.map_values(|l: String| l@)),
{
    let ghost views = lines@.map_values(|l: String| l@);
    let mut i: usize = 0;
    while i < lines.len()
        invariant
            views == lines@.map_values(|l: String| l@),
            i <= lines@.len(),
            forall|j: int| 0 <= j < i ==> is_blank(#[trigger] views[j]),
        decreases lines@.len() - i,
    {
        if !is_blank_str(lines[i].as_str()) {
            assert(!is_blank(views[i as int]));
            return true;
        }
        i = i + 1;
    }
    false
}


/// `line` without one trailing carriage return.
fn strip_cr_str(line: &String) -> (r: String)
    ensures
        r@ == strip_cr(line@),
{
    let cs = chars_of(line.as_str());
    let n = cs.len();
    if n > 0 && cs[n - 1] == '\r' {
        let mut out: Vec<char> = Vec::new();
        let mut i: usize = 0;
        while i < n - 1
            invariant
                cs@ == line@,
                n == cs@.len(),
                n > 0,
                i <= n - 1,
                out@ == cs@.subrange(0, i as int),
            decreases n - 1 - i,
        {
            out.push(cs[i]);
            i = i + 1;
            assert(out@ =~= cs@.subrange(0, i as int));
        }
        assert(out@ =~= line@.drop_last());
        string_from_chars(out.as_slice())
    } else {
        line.clone()
    }
}

/// The lines of `s` (`s.lines()`).
pub fn lines_str(s: &str) -> (r: Vec<String>)
    ensures
        r@.len() == lines_of(s@).len(),
        forall|i: int| 0 <= i < r@.len() ==> #[trigger] r@[i]@ == lines_of(s@)[i],
{
    let parts = split_str(s, '\n');
    let ghost sp = split_on(s@, '\n');
    proof {
        lemma_split_on_nonempty(s@, '\n');
    }
    let n = parts.len();
    let mut r: Vec<String> = Vec::new();
    let mut i: usize = 0;
    while i < n - 1
        invariant
            n == parts@.len(),
            n == sp.len(),
            n >= 1,
            sp == split_on(s@, '\n'),
            forall|k: int| 0 <= k < n ==> #[trigger] parts@[k]@ == sp[k],
            i <= n - 1,
            r@.len() == i,
            forall|k: int| 0 <= k < i ==> #[trigger] r@[k]@ == strip_cr(sp[k]),
        decreases n - 1 - i,
    {
        let line = strip_cr_str(&parts[i]);
        r.push(line);
        i = i + 1;
    }
    let ghost head = Seq::new((n - 1) as nat, |k: int| strip_cr(sp[k]));
    assert(parts@[n - 1]@ == sp.last());
    if parts[n - 1].as_str().is_empty() {
        assert(lines_of(s@) == head);
    } else {
        let last = parts[n - 1].clone();
        r.push(last);
        assert(lines_of(s@) == head.push(sp.last()));
    }
    r
}

/// How a text is written inside a double-quoted JavaScript string literal:
/// backslash, double quote and line feed are escaped.
pub open spec fn js_escape_char(c: char) -> Seq<char> {
    if c == '\\' {
        seq!['\\', '\\']
    } else if c == '"' {
        seq!['\\', '"']
    } else if c == '\n' {
        seq!['\\', 'n']
    } else {
        seq![c]
    }
}

/// The escaping that the rich editor applies when it starts: double quote and
/// line feed are escaped, a backslash is kept as it is.
pub open spec fn js_escape_char_keep_backslash(c: char) -> Seq<char> {
    if c == '"' {
        seq!['\\', '"']
    } else if c == '\n' {
        seq!['\\', 'n']
    } else {
        seq![c]
    }
}

/// `s` with each character replaced by its escape.
pub open spec fn js_escape(s: Seq<char>) -> Seq<char>
    decreases s.len(),
{
    if s.len() == 0 {
        Seq::<char>::empty()
    } else {
        js_escape(s.drop_last()) + js_escape_char(s.last())
    }
}

/// `s` with double quotes and line feeds escaped, backslashes kept.
pub open spec fn js_escape_keep_backslash(s: Seq<char>) -> Seq<char>
    decreases s.len(),
{
    if s.len() == 0 {
        Seq::<char>::empty()
    } else {
        js_escape_keep_backslash(s.drop_last()) + js_escape_char_keep_backslash(s.last())
    }
}

/// Escapes `s` for a double-quoted JavaScript string literal, as
/// `s.replace('\\', "\\\\").replace('"', "\\\"").replace('\n', "\\n")` does.
pub fn escape_js_text(s: &str) -> (r: String)
    ensures
        r@ == js_escape(s@),
{
    let cs = chars_of(s);
    let mut r = String::new();
    let mut i: usize = 0;
    while i < cs.len()
        invariant
            cs@ == s@,
            i <= cs@.len(),
            r@ == js_escape(cs@.subrange(0, i as int)),
        decreases cs@.len() - i,
    {
        let c = cs[i];
        if c == '\\' {
            push_char(&mut r, '\\');
            push_char(&mut r, '\\');
        } else if c == '"' {
            push_char(&mut r, '\\');
            push_char(&mut r, '"');
        } else if c == '\n' {
            push_char(&mut r, '\\');
            push_char(&mut r, 'n');
        } else {
            push_char(&mut r, c);
        }
        let ghost next = cs@.subrange(0, i as int + 1);
        assert(next.drop_last() =~= cs@.subrange(0, i as int));
        assert(r@ =~= js_escape(next));
        i = i + 1;
    }
    assert(cs@.subrange(0, cs@.len() as int) =~= s@);
    r
}

/// Escapes double quotes and line feeds of `s`, keeping backslashes, as
/// `s.replace('"', "\\\"").replace('\n', "\\n")` does.
pub fn escape_js_text_keep_backslash(s: &str) -> (r: String)
    ensures
        r@ == js_escape_keep_backslash(s@),
{
    let cs = chars_of(s);
    let mut r = String::new();
    let mut i: usize = 0;
    while i < cs.len()
        invariant
            cs@ == s@,
            i <= cs@.len(),
            r@ == js_escape_keep_backslash(cs@.subrange(0, i as int)),
        decreases cs@.len() - i,
    {
        let c = cs[i];
        if c == '"' {
            push_char(&mut r, '\\');
            push_char(&mut r, '"');
        } else if c == '\n' {
            push_char(&mut r, '\\');
            push_char(&mut r, 'n');
        } else {
            push_char(&mut r, c);
        }
        let ghost next = cs@.subrange(0, i as int + 1);
        assert(next.drop_last() =~= cs@.subrange(0, i as int));
        assert(r@ =~= js_escape_keep_backslash(next));
        i = i + 1;
    }
    assert(cs@.subrange(0, cs@.len() as int) =~= s@);
    r
}


/// How a JavaScript string literal reads the escapes that `js_escape` writes:
/// a backslash and the character after it stand for a line feed when that
/// character is `n`, and for that character itself otherwise.
pub open spec fn js_unescape(t: Seq<char>) -> Seq<char>
    decreases t.len(),
{
    if t.len() == 0 {
        Seq::<char>::empty()
    } else if t[0] == '\\' && t.len() >= 2 {
        seq![
            if t[1] == 'n' {
                '\n'
            } else {
                t[1]
            },
        ] + js_unescape(t.subrange(2, t.len() as int))
    } else {
        seq![t[0]] + js_unescape(t.subrange(1, t.len() as int))
    }
}

proof fn lemma_js_escape_append(a: Seq<char>, b: Seq<char>)
    ensures
        js_escape(a + b) == js_escape(a) + js_escape(b),
    decreases b.len(),
{
    if b.len() == 0 {
        assert(a + b =~= a);
        assert(js_escape(a) + js_escape(b) =~= js_escape(a));
    } else {
        lemma_js_escape_append(a, b.drop_last());
        assert((a + b).drop_last() =~= a + b.drop_last());
        assert((a + b).last() == b.last());
        assert(js_escape(a) + js_escape(b.drop_last()) + js_escape_char(b.last()) =~= js_escape(a)
            + (js_escape(b.drop_last()) + js_escape_char(b.last())));
    }
}

proof fn lemma_js_unescape_char(c: char, rest: Seq<char>)
    ensures
        js_unescape(js_escape_char(c) + rest) == seq![c] + js_unescape(rest),
{
    let t = js_escape_char(c) + rest;
    if c == '\\' || c == '"' || c == '\n' {
        assert(t[0] == '\\');
        assert(t.subrange(2, t.len() as int) =~= rest);
    } else {
        assert(t[0] == c);
        assert(t.subrange(1, t.len() as int) =~= rest);
    }
}

/// A text written into a double-quoted JavaScript string literal with
/// `escape_js_text` reads back as the same text.
pub proof fn lemma_js_escape_reads_back(s: Seq<char>)
    ensures
        js_unescape(js_escape(s)) == s,
    decreases s.len(),
{
    if s.len() > 0 {
        let rest = s.subrange(1, s.len() as int);
        assert(s =~= seq![s[0]] + rest);
        lemma_js_escape_append(seq![s[0]], rest);
        let one = seq![s[0]];
        assert(one.drop_last() =~= Seq::<char>::empty());
        assert(one.last() == s[0]);
        assert(js_escape(one) == js_escape(one.drop_last()) + js_escape_char(s[0]));
        assert(js_escape(one) =~= js_escape_char(s[0]));
        lemma_js_unescape_char(s[0], js_escape(rest));
        lemma_js_escape_reads_back(rest);
    }
}

proof fn lemma_keep_backslash_same_without_backslash(s: Seq<char>)
    requires
        !s.contains('\\'),
    ensures
        js_escape_keep_backslash(s) == js_escape(s),
    decreases s.len(),
{
    if s.len() > 0 {
        let d = s.drop_last();
        assert(!d.contains('\\')) by {
            if d.contains('\\') {
                let k = choose|k: int| 0 <= k < d.len() && d[k] == '\\';
                assert(s[k] == '\\');
            }
        }
        lemma_keep_backslash_same_without_backslash(d);
        assert(s[s.len() - 1] != '\\');
    }
}

/// A text without a backslash, written into a double-quoted JavaScript
/// string literal with `escape_js_text_keep_backslash` (as the rich editor's
/// initial text is), reads back as the same text.
pub proof fn lemma_keep_backslash_escape_reads_back(s: Seq<char>)
    requires
        !s.contains('\\'),
    ensures
        js_unescape(js_escape_keep_backslash(s)) == s,
{
    lemma_keep_backslash_same_without_backslash(s);
    lemma_js_escape_reads_back(s);
}

/// `h` with every occurrence of `p` replaced by `r`, scanning left to right
/// without overlaps (`str::replace`). An empty `p` occurs before every
/// character and at the end.
pub open spec fn replace_all(h: Seq<char>, p: Seq<char>, r: Seq<char>) -> Seq<char>
    decreases h.len(),
{
    if p.len() == 0 {
        if h.len() == 0 {
            r
        } else {
            r + seq![h[0]] + replace_all(h.subrange(1, h.len() as int), p, r)
        }
    } else if h.len() == 0 {
        Seq::<char>::empty()
    } else if p.len() <= h.len() && h.subrange(0, p.len() as int) == p {
        r + replace_all(h.subrange(p.len() as int, h.len() as int), p, r)
    } else {
        seq![h[0]] + replace_all(h.subrange(1, h.len() as int), p, r)
    }
}

/// Whether `p` occurs in `h` at position `i`.
fn occurs_at(h: &Vec<char>, p: &Vec<char>, i: usize) -> (r: bool)
    requires
        i <= h@.len(),
    ensures
        r == (i + p@.len() <= h@.len() && h@.subrange(i as int, i + p@.len()) == p@),
{
    if p.len() > h.len() - i {
        return false;
    }
    let mut k: usize = 0;
    while k < p.len()
        invariant
            i + p@.len() <= h@.len(),
            h@.len() <= usize::MAX,
            k <= p@.len(),
            forall|j: int| 0 <= j < k ==> h@[i + j] == p@[j],
        decreases p@.len() - k,
    {
        if h[i + k] != p[k] {
            assert(h@.subrange(i as int, i + p@.len())[k as int] != p@[k as int]);
            return false;
        }
        k = k + 1;
    }
    assert(h@.subrange(i as int, i + p@.len()) =~= p@);
    true
}

/// `h` with `r` put before each character and at the end (`h.replace("", r)`).
fn replace_empty(h: &str, r: &str) -> (out: String)
    ensures
        out@ == replace_all(h@, Seq::<char>::empty(), r@),
{
    let hs = chars_of(h);
    let n = hs.len();
    let mut out = String::new();
    let mut i: usize = 0;
    assert(hs@.subrange(0, n as int) =~= hs@);
    while i < n
        invariant
            hs@ == h@,
            n == hs@.len(),
            i <= n,
            out@ + replace_all(hs@.subrange(i as int, n as int), Seq::<char>::empty(), r@)
                == replace_all(h@, Seq::<char>::empty(), r@),
        decreases n - i,
    {
        let ghost rest = hs@.subrange(i as int, n as int);
        assert(rest.subrange(1, rest.len() as int) =~= hs@.subrange(i + 1, n as int));
        assert(rest[0] == hs@[i as int]);
        let ghost before = out@;
        out.append(r);
        push_char(&mut out, hs[i]);
        assert(out@ + replace_all(hs@.subrange(i + 1, n as int), Seq::<char>::empty(), r@)
            =~= before + replace_all(rest, Seq::<char>::empty(), r@));
        i = i + 1;
    }
    let ghost before = out@;
    out.append(r);
    assert(replace_all(hs@.subrange(n as int, n as int), Seq::<char>::empty(), r@) == r@);
    out
}

/// `h` with every occurrence of `p` replaced by `r` (`h.replace(p, r)`).
pub fn replace_str(h: &str, p: &str, r: &str) -> (out: String)
    ensures
        out@ == replace_all(h@, p@, r@),
{
    if p.unicode_len() == 0 {
        assert(p@ =~= Seq::<char>::empty());
        return replace_empty(h, r);
    }
    replace_nonempty(h, p, r)
}

fn replace_nonempty(h: &str, p: &str, r: &str) -> (out: String)
    requires
        p@.len() > 0,
    ensures
        out@ == replace_all(h@, p@, r@),
{
    let hs = chars_of(h);
    let ps = chars_of(p);
    let n = hs.len();
    let mut out = String::new();
    let mut i: usize = 0;
    assert(hs@.subrange(0, n as int) =~= hs@);
    while i < n
        invariant
            hs@ == h@,
            ps@ == p@,
            n == hs@.len(),
            ps@.len() > 0,
            i <= n,
            out@ + replace_all(hs@.subrange(i as int, n as int), ps@, r@) == replace_all(
                h@,
                p@,
                r@,
            ),
        decreases n - i,
    {
        let ghost rest = hs@.subrange(i as int, n as int);
        if occurs_at(&hs, &ps, i) {
            assert(rest.subrange(0, ps@.len() as int) =~= hs@.subrange(
                i as int,
                i + ps@.len(),
            ));
            assert(rest.subrange(ps@.len() as int, rest.len() as int) =~= hs@.subrange(
                i + ps@.len(),
                n as int,
            ));
            let ghost before = out@;
            out.append(r);
            assert(out@ + replace_all(hs@.subrange(i + ps@.len(), n as int), ps@, r@) =~= before
                + replace_all(rest, ps@, r@));
            i = i + ps.len();
        } else {
            assert(!(rest.subrange(0, ps@.len() as int) == ps@) || ps@.len() > rest.len()) by {
                if ps@.len() <= rest.len() {
                    assert(rest.subrange(0, ps@.len() as int) =~= hs@.subrange(
                        i as int,
                        i + ps@.len(),
                    ));
                }
            }
            assert(rest.subrange(1, rest.len() as int) =~= hs@.subrange(i + 1, n as int));
            let ghost before = out@;
            push_char(&mut out, hs[i]);
            assert(out@ + replace_all(hs@.subrange(i + 1, n as int), ps@, r@) =~= before
                + replace_all(rest, ps@, r@));
            i = i + 1;
        }
    }
    assert(replace_all(hs@.subrange(n as int, n as int), ps@, r@) =~= Seq::<char>::empty());
    assert(out@ =~= out@ + Seq::<char>::empty());
    out
}

/// The character of the decimal digit `d`.
pub open spec fn digit_char(d: int) -> char {
    if d == 0 {
        '0'
    } else if d == 1 {
        '1'
    } else if d == 2 {
        '2'
    } else if d == 3 {
        '3'
    } else if d == 4 {
        '4'
    } else if d == 5 {
        '5'
    } else if d == 6 {
        '6'
    } else if d == 7 {
        '7'
    } else if d == 8 {
        '8'
    } else {
        '9'
    }
}

/// The decimal representation of `n`, without leading zeros.
pub open spec fn decimal(n: nat) -> Seq<char>
    decreases n,
{
    if n < 10 {
        seq![digit_char(n as int)]
    } else {
        decimal(n / 10).push(digit_char((n % 10) as int))
    }
}

fn digit(d: u64) -> (c: char)
    requires
        d < 10,
    ensures
        c == digit_char(d as int),
{
    match d {
        0 => '0',
        1 => '1',
        2 => '2',
        3 => '3',
        4 => '4',
        5 => '5',
        6 => '6',
        7 => '7',
        8 => '8',
        _ => '9',
    }
}

/// Appends the decimal representation of `n` to `s`.
pub fn push_decimal(s: &mut String, n: u64)
    ensures
        final(s)@ == old(s)@ + decimal(n as nat),
    decreases n,
{
    if n >= 10 {
        push_decimal(s, n / 10);
    }
    push_char(s, digit(n % 10));
    assert(s@ =~= old(s)@ + decimal(n as nat));
}

/// The decimal representation of `n` (`n.to_string()`).
pub fn decimal_string(n: u64) -> (r: String)
    ensures
        r@ == decimal(n as nat),
{
    let mut r = String::new();
    push_decimal(&mut r, n);
    assert(r@ =~= decimal(n as nat));
    r
}


/// `s` without its leading whitespace.
pub open spec fn trim_start(s: Seq<char>) -> Seq<char>
    decreases s.len(),
{
    if s.len() > 0 && is_whitespace(s[0]) {
        trim_start(s.subrange(1, s.len() as int))
    } else {
        s
    }
}

/// `s` without its trailing whitespace.
pub open spec fn trim_end(s: Seq<char>) -> Seq<char>
    decreases s.len(),
{
    if s.len() > 0 && is_whitespace(s.last()) {
        trim_end(s.drop_last())
    } else {
        s
    }
}

/// `s` without leading and trailing whitespace (`str::trim`).
pub open spec fn trim(s: Seq<char>) -> Seq<char> {
    trim_end(trim_start(s))
}

proof fn lemma_trim_start_skip(s: Seq<char>, a: int)
    requires
        0 <= a <= s.len(),
        forall|j: int| 0 <= j < a ==> is_whitespace(#[trigger] s[j]),
    ensures
        trim_start(s) == trim_start(s.subrange(a, s.len() as int)),
    decreases a,
{
    if a > 0 {
        assert(s.subrange(1, s.len() as int).subrange(a - 1, s.len() - 1) =~= s.subrange(
            a,
            s.len() as int,
        ));
        lemma_trim_start_skip(s.subrange(1, s.len() as int), a - 1);
    } else {
        assert(s.subrange(0, s.len() as int) =~= s);
    }
}

proof fn lemma_trim_end_skip(s: Seq<char>, b: int)
    requires
        0 <= b <= s.len(),
        forall|j: int| b <= j < s.len() ==> is_whitespace(#[trigger] s[j]),
    ensures
        trim_end(s) == trim_end(s.subrange(0, b)),
    decreases s.len() - b,
{
    if b < s.len() {
        assert(s.drop_last().subrange(0, b) =~= s.subrange(0, b));
        lemma_trim_end_skip(s.drop_last(), b);
    } else {
        assert(s.subrange(0, b) =~= s);
    }
}

/// `s` without leading and trailing whitespace (`s.trim()`).
pub fn trim_str(s: &str) -> (r: String)
    ensures
        r@ == trim(s@),
{
    let cs = chars_of(s);
    let n = cs.len();
    let mut a: usize = 0;
    while a < n && char_is_whitespace(cs[a])
        invariant
            cs@ == s@,
            n == cs@.len(),
            a <= n,
            forall|j: int| 0 <= j < a ==> is_whitespace(#[trigger] cs@[j]),
        decreases n - a,
    {
        a = a + 1;
    }
    proof {
        lemma_trim_start_skip(s@, a as int);
    }
    let ghost rest = s@.subrange(a as int, n as int);
    assert(trim_start(rest) == rest);
    let mut b: usize = n;
    while b > a && char_is_whitespace(cs[b - 1])
        invariant
            cs@ == s@,
            n == cs@.len(),
            a <= b <= n,
            forall|j: int| b <= j < n ==> is_whitespace(#[trigger] cs@[j]),
        decreases b,
    {
        b = b - 1;
    }
    proof {
        assert forall|j: int| b - a <= j < rest.len() implies is_whitespace(#[trigger] rest[j]) by {
            assert(rest[j] == cs@[a + j]);
        }
        lemma_trim_end_skip(rest, b - a);
        assert(rest.subrange(0, b - a) =~= s@.subrange(a as int, b as int));
        let t = s@.subrange(a as int, b as int);
        if t.len() > 0 {
            assert(t.last() == cs@[b - 1]);
        }
        assert(trim_end(t) == t);
    }
    let mut out: Vec<char> = Vec::new();
    let mut k: usize = a;
    while k < b
        invariant
            cs@ == s@,
            n == cs@.len(),
            a <= k <= b <= n,
            out@ == cs@.subrange(a as int, k as int),
        decreases b - k,
    {
        out.push(cs[k]);
        k = k + 1;
        assert(out@ =~= cs@.subrange(a as int, k as int));
    }
    string_from_chars(out.as_slice())
}


/// The pieces of `parts` with `sep` between each two neighbours
/// (`parts.join(sep)`).
pub open spec fn joined(parts: Seq<Seq<char>>, sep: Seq<char>) -> Seq<char>
    decreases parts.len(),
{
    if parts.len() == 0 {
        Seq::<char>::empty()
    } else if parts.len() == 1 {
        parts[0]
    } else {
        joined(parts.drop_last(), sep) + sep + parts.last()
    }
}

/// The texts of `parts` joined by `sep` (`parts.join(sep)`).
pub fn join_str(parts: &Vec<String>, sep: &str) -> (r: String)
    ensures
        r@ == joined(parts@.map_values(|p: String| p@), sep@),
{
    let ghost ps = parts@.map_values(|p: String| p@);
    let sc = chars_of(sep);
    let mut r = String::new();
    let mut i: usize = 0;
    assert(ps.subrange(0, 0) =~= Seq::<Seq<char>>::empty());
    while i < parts.len()
        invariant
            ps == parts@.map_values(|p: String| p@),
            sc@ == sep@,
            i <= parts@.len(),
            r@ == joined(ps.subrange(0, i as int), sep@),
        decreases parts@.len() - i,
    {
        let ghost before = r@;
        let ghost next = ps.subrange(0, i + 1);
        assert(next.drop_last() =~= ps.subrange(0, i as int));
        assert(next.last() == parts@[i as int]@);
        if i > 0 {
            push_chars(&mut r, sc.as_slice());
        }
        let pc = chars_of(parts[i].as_str());
        push_chars(&mut r, pc.as_slice());
        if i == 0 {
            assert(r@ =~= next[0]);
        } else {
            assert(r@ =~= before + sep@ + next.last());
        }
        i = i + 1;
    }
    assert(ps.subrange(0, parts@.len() as int) =~= ps);
    r
}

} // verus!
