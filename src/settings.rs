//! The settings file: `KEY="value"` lines, of which ten keys are the application's
//! own. Reading takes the last assignment of each key; writing keeps every other
//! line and appends the application's keys in three commented sections.

use vstd::prelude::*;
use crate::codec::{find_char_from, index_from, lemma_index_from_bounds};
use crate::records::AppSettings;
use crate::text::{same_text, slice_owned};
use crate::validation::joined;

verus! {

/// The Unicode `White_Space` property: tab to carriage return, space, next line,
/// no-break space, ogham space mark, the spaces U+2000 to U+200A, line and paragraph
/// separators, narrow no-break space, medium mathematical space and ideographic space.
pub open spec fn unicode_whitespace(c: char) -> bool {
    let u = c as u32;
    (0x09 <= u <= 0x0d) || u == 0x20 || u == 0x85 || u == 0xa0 || u == 0x1680 || (0x2000 <= u
        <= 0x200a) || u == 0x2028 || u == 0x2029 || u == 0x202f || u == 0x205f || u == 0x3000
}

/// Relies on `char::is_whitespace`, which holds exactly for the characters with the
/// Unicode `White_Space` property.
#[verifier::external_body]
fn is_whitespace(c: char) -> (r: bool)
    ensures
        r == unicode_whitespace(c),
{
    c.is_whitespace()
}

/// Which characters a trim takes off.
#[derive(Debug, Clone, Copy, PartialEq, Eq, Structural)]
pub enum Trim {
    Whitespace,
    Quote,
}

pub open spec fn trims(c: char, k: Trim) -> bool {
    match k {
        Trim::Whitespace => unicode_whitespace(c),
        Trim::Quote => c == '"',
    }
}

pub open spec fn trim_start(t: Seq<char>, k: Trim) -> Seq<char>
    decreases t.len(),
{
    if t.len() > 0 && trims(t[0], k) {
        trim_start(t.subrange(1, t.len() as int), k)
    } else {
        t
    }
}

pub open spec fn trim_end(t: Seq<char>, k: Trim) -> Seq<char>
    decreases t.len(),
{
    if t.len() > 0 && trims(t.last(), k) {
        trim_end(t.drop_last(), k)
    } else {
        t
    }
}

/// `t` without the characters of kind `k` at either end.
pub open spec fn trim(t: Seq<char>, k: Trim) -> Seq<char> {
    trim_end(trim_start(t, k), k)
}

fn char_trims(c: char, k: Trim) -> (r: bool)
    ensures
        r == trims(c, k),
{
    match k {
        Trim::Whitespace => is_whitespace(c),
        Trim::Quote => c == '"',
    }
}

/// The window `s[lo..hi]` trimmed at both ends, as a window of `s`.
fn trim_window(s: &str, lo: usize, hi: usize, k: Trim) -> (r: (usize, usize))
    requires
        lo <= hi <= s@.len(),
    ensures
        lo <= r.0 <= r.1 <= hi,
        s@.subrange(r.0 as int, r.1 as int) == trim(s@.subrange(lo as int, hi as int), k),
{
    let mut a = lo;
    loop
        invariant
            lo <= a <= hi,
            hi <= s@.len(),
            trim_start(s@.subrange(lo as int, hi as int), k) == trim_start(s@.subrange(a as int, hi as int), k),
        ensures
            lo <= a <= hi,
            trim_start(s@.subrange(lo as int, hi as int), k) == s@.subrange(a as int, hi as int),
        decreases hi - a,
    {
        if a == hi {
            break;
        }
        if !char_trims(s.get_char(a), k) {
            break;
        }
        assert(s@.subrange(a as int, hi as int).subrange(1, hi - a) =~= s@.subrange(a + 1, hi as int));
        a = a + 1;
    }
    let ghost start = s@.subrange(a as int, hi as int);
    let mut b = hi;
    loop
        invariant
            a <= b <= hi,
            hi <= s@.len(),
            start == s@.subrange(a as int, hi as int),
            trim_end(start, k) == trim_end(s@.subrange(a as int, b as int), k),
        ensures
            a <= b <= hi,
            trim_end(start, k) == s@.subrange(a as int, b as int),
        decreases b - a,
    {
        if b == a {
            break;
        }
        if !char_trims(s.get_char(b - 1), k) {
            break;
        }
        assert(s@.subrange(a as int, b as int).drop_last() =~= s@.subrange(a as int, b - 1));
        b = b - 1;
    }
    (a, b)
}

/// The line starting at `from`, without its line ending (`\n` or `\r\n`).
pub open spec fn line_at(t: Seq<char>, from: int) -> Seq<char> {
    let e = index_from(t, '\n', from);
    if e < t.len() && e > from && t[e - 1] == '\r' {
        t.subrange(from, e - 1)
    } else {
        t.subrange(from, e)
    }
}

/// The lines of `t` from position `from` on; a final line ending starts no new line.
pub open spec fn lines_from(t: Seq<char>, from: int) -> Seq<Seq<char>>
    decreases t.len() - from,
{
    if from < 0 || from >= t.len() {
        Seq::empty()
    } else {
        let e = index_from(t, '\n', from);
        if e < from || e >= t.len() {
            seq![line_at(t, from)]
        } else {
            seq![line_at(t, from)] + lines_from(t, e + 1)
        }
    }
}

pub open spec fn lines_of(t: Seq<char>) -> Seq<Seq<char>> {
    lines_from(t, 0)
}

/// The key and value a line assigns: `KEY = "value"` with blanks around the key
/// and around the value, and quotes around the value, taken off. Blank lines,
/// `#` comments and lines without `=` assign nothing.
pub open spec fn setting_of(line: Seq<char>) -> Option<(Seq<char>, Seq<char>)> {
    let l = trim(line, Trim::Whitespace);
    let eq = index_from(l, '=', 0);
    if l.len() == 0 || l[0] == '#' || eq >= l.len() {
        None
    } else {
        Some(
            (
                trim(l.subrange(0, eq), Trim::Whitespace),
                trim(trim(l.subrange(eq + 1, l.len() as int), Trim::Whitespace), Trim::Quote),
            ),
        )
    }
}

/// The value the last line assigning `key` gives it.
pub open spec fn lookup(lines: Seq<Seq<char>>, key: Seq<char>) -> Option<Seq<char>>
    decreases lines.len(),
{
    if lines.len() == 0 {
        None
    } else {
        let s = setting_of(lines.last());
        if s.is_some() && s.unwrap().0 == key {
            Some(s.unwrap().1)
        } else {
            lookup(lines.drop_last(), key)
        }
    }
}

pub open spec fn opt_view(o: Option<String>) -> Option<Seq<char>> {
    match o {
        Some(s) => Some(s@),
        None => None,
    }
}

/// The key and value a line assigns.
fn parse_line(line: &str) -> (r: Option<(String, String)>)
    ensures
        match setting_of(line@) {
            Some((k, v)) => r matches Some((a, b)) && a@ == k && b@ == v,
            None => r.is_none(),
        },
{
    let n = line.unicode_len();
    let (a, b) = trim_window(line, 0, n, Trim::Whitespace);
    assert(line@.subrange(0, n as int) =~= line@);
    let l = slice_owned(line, a, b);
    let ls = l.as_str();
    let len = ls.unicode_len();
    if len == 0 || ls.get_char(0) == '#' {
        return None;
    }
    let eq = find_char_from(ls, '=', 0);
    if eq >= len {
        return None;
    }
    let (k0, k1) = trim_window(ls, 0, eq, Trim::Whitespace);
    let (v0, v1) = trim_window(ls, eq + 1, len, Trim::Whitespace);
    let (q0, q1) = trim_window(ls, v0, v1, Trim::Quote);
    Some((slice_owned(ls, k0, k1), slice_owned(ls, q0, q1)))
}

proof fn lemma_lookup_push(seen: Seq<Seq<char>>, l: Seq<char>, key: Seq<char>)
    ensures
        lookup(seen.push(l), key) == if setting_of(l).is_some() && setting_of(l).unwrap().0 == key {
            Some(setting_of(l).unwrap().1)
        } else {
            lookup(seen, key)
        },
{
    assert(seen.push(l).drop_last() =~= seen);
}

/// The line that starts at `from` and where the next one starts.
fn next_line(content: &str, from: usize) -> (r: (String, usize))
    requires
        from < content@.len(),
    ensures
        r.0@ == line_at(content@, from as int),
        from < r.1 <= content@.len(),
        lines_from(content@, from as int) == seq![r.0@] + lines_from(content@, r.1 as int),
{
    let n = content.unicode_len();
    let e = find_char_from(content, '\n', from);
    let end = if e < n && e > from && content.get_char(e - 1) == '\r' { e - 1 } else { e };
    let line = slice_owned(content, from, end);
    let next = if e < n { e + 1 } else { n };
    proof {
        lemma_index_from_bounds(content@, '\n', from as int);
    }
    assert(e >= n ==> lines_from(content@, from as int) == seq![line@] + lines_from(content@, next as int));
    (line, next)
}

/// The new value of one field of `old` when `key` is assigned `value`.
pub open spec fn assigned(old: Option<String>, field_key: Seq<char>, key: Seq<char>, value: Seq<char>) -> Option<Seq<char>> {
    if key == field_key {
        Some(value)
    } else {
        opt_view(old)
    }
}

fn apply_setting(st: &mut AppSettings, key: &str, value: String)
    ensures
        opt_view(final(st).surrealdb_url) == assigned(old(st).surrealdb_url, "SURREALDB_URL"@, key@, value@),
        opt_view(final(st).surrealdb_ns) == assigned(old(st).surrealdb_ns, "SURREALDB_NS"@, key@, value@),
        opt_view(final(st).surrealdb_db) == assigned(old(st).surrealdb_db, "SURREALDB_DB"@, key@, value@),
        opt_view(final(st).surrealdb_user) == assigned(old(st).surrealdb_user, "SURREALDB_USER"@, key@, value@),
        opt_view(final(st).surrealdb_pass) == assigned(old(st).surrealdb_pass, "SURREALDB_PASS"@, key@, value@),
        opt_view(final(st).staff_name) == assigned(old(st).staff_name, "STAFF_NAME"@, key@, value@),
        opt_view(final(st).staff_email) == assigned(old(st).staff_email, "STAFF_EMAIL"@, key@, value@),
        opt_view(final(st).staff_phone) == assigned(old(st).staff_phone, "STAFF_PHONE"@, key@, value@),
        opt_view(final(st).staff_position) == assigned(old(st).staff_position, "STAFF_POSITION"@, key@, value@),
        opt_view(final(st).project_folder_path) == assigned(
            old(st).project_folder_path,
            "PROJECT_FOLDER_PATH"@,
            key@,
            value@,
        ),
{
    proof {
        reveal_strlit("SURREALDB_URL");
        reveal_strlit("SURREALDB_NS");
        reveal_strlit("SURREALDB_DB");
        reveal_strlit("SURREALDB_USER");
        reveal_strlit("SURREALDB_PASS");
        reveal_strlit("STAFF_NAME");
        reveal_strlit("STAFF_EMAIL");
        reveal_strlit("STAFF_PHONE");
        reveal_strlit("STAFF_POSITION");
        reveal_strlit("PROJECT_FOLDER_PATH");
        assert("SURREALDB_URL"@.len() == 13);
        assert("SURREALDB_NS"@.len() == 12);
        assert("SURREALDB_DB"@.len() == 12);
        assert("SURREALDB_USER"@.len() == 14);
        assert("SURREALDB_PASS"@.len() == 14);
        assert("STAFF_NAME"@.len() == 10);
        assert("STAFF_EMAIL"@.len() == 11);
        assert("STAFF_PHONE"@.len() == 11);
        assert("STAFF_POSITION"@.len() == 14);
        assert("PROJECT_FOLDER_PATH"@.len() == 19);
        assert("SURREALDB_NS"@[10] != "SURREALDB_DB"@[10]);
        assert("SURREALDB_USER"@[10] != "SURREALDB_PASS"@[10]);
        assert("SURREALDB_USER"@[1] != "STAFF_POSITION"@[1]);
        assert("SURREALDB_PASS"@[1] != "STAFF_POSITION"@[1]);
        assert("STAFF_EMAIL"@[6] != "STAFF_PHONE"@[6]);
    }
    if same_text(key, "SURREALDB_URL") {
        st.surrealdb_url = Some(value);
    } else if same_text(key, "SURREALDB_NS") {
        st.surrealdb_ns = Some(value);
    } else if same_text(key, "SURREALDB_DB") {
        st.surrealdb_db = Some(value);
    } else if same_text(key, "SURREALDB_USER") {
        st.surrealdb_user = Some(value);
    } else if same_text(key, "SURREALDB_PASS") {
        st.surrealdb_pass = Some(value);
    } else if same_text(key, "STAFF_NAME") {
        st.staff_name = Some(value);
    } else if same_text(key, "STAFF_EMAIL") {
        st.staff_email = Some(value);
    } else if same_text(key, "STAFF_PHONE") {
        st.staff_phone = Some(value);
    } else if same_text(key, "STAFF_POSITION") {
        st.staff_position = Some(value);
    } else if same_text(key, "PROJECT_FOLDER_PATH") {
        st.project_folder_path = Some(value);
    }
}

/// The application's settings as a settings file assigns them; keys it does not
/// know are passed over.
pub fn parse_settings(content: &str) -> (r: AppSettings)
    ensures
        opt_view(r.surrealdb_url) == lookup(lines_of(content@), "SURREALDB_URL"@),
        opt_view(r.surrealdb_ns) == lookup(lines_of(content@), "SURREALDB_NS"@),
        opt_view(r.surrealdb_db) == lookup(lines_of(content@), "SURREALDB_DB"@),
        opt_view(r.surrealdb_user) == lookup(lines_of(content@), "SURREALDB_USER"@),
        opt_view(r.surrealdb_pass) == lookup(lines_of(content@), "SURREALDB_PASS"@),
        opt_view(r.staff_name) == lookup(lines_of(content@), "STAFF_NAME"@),
        opt_view(r.staff_email) == lookup(lines_of(content@), "STAFF_EMAIL"@),
        opt_view(r.staff_phone) == lookup(lines_of(content@), "STAFF_PHONE"@),
        opt_view(r.staff_position) == lookup(lines_of(content@), "STAFF_POSITION"@),
        opt_view(r.project_folder_path) == lookup(lines_of(content@), "PROJECT_FOLDER_PATH"@),
{
    let n = content.unicode_len();
    let mut st = AppSettings {
        surrealdb_url: None,
        surrealdb_ns: None,
        surrealdb_db: None,
        surrealdb_user: None,
        surrealdb_pass: None,
        staff_name: None,
        staff_email: None,
        staff_phone: None,
        staff_position: None,
        project_folder_path: None,
    };
    let mut from: usize = 0;
    let ghost mut seen: Seq<Seq<char>> = Seq::empty();
    assert(seen + lines_from(content@, 0) =~= lines_of(content@));
    while from < n
        invariant
            n == content@.len(),
            from <= n,
            seen + lines_from(content@, from as int) == lines_of(content@),
            opt_view(st.surrealdb_url) == lookup(seen, "SURREALDB_URL"@),
            opt_view(st.surrealdb_ns) == lookup(seen, "SURREALDB_NS"@),
            opt_view(st.surrealdb_db) == lookup(seen, "SURREALDB_DB"@),
            opt_view(st.surrealdb_user) == lookup(seen, "SURREALDB_USER"@),
            opt_view(st.surrealdb_pass) == lookup(seen, "SURREALDB_PASS"@),
            opt_view(st.staff_name) == lookup(seen, "STAFF_NAME"@),
            opt_view(st.staff_email) == lookup(seen, "STAFF_EMAIL"@),
            opt_view(st.staff_phone) == lookup(seen, "STAFF_PHONE"@),
            opt_view(st.staff_position) == lookup(seen, "STAFF_POSITION"@),
            opt_view(st.project_folder_path) == lookup(seen, "PROJECT_FOLDER_PATH"@),
        decreases n - from,
    {
        let (line, next) = next_line(content, from);
        let ghost l = line@;
        proof {
            lemma_lookup_push(seen, l, "SURREALDB_URL"@);
            lemma_lookup_push(seen, l, "SURREALDB_NS"@);
            lemma_lookup_push(seen, l, "SURREALDB_DB"@);
            lemma_lookup_push(seen, l, "SURREALDB_USER"@);
            lemma_lookup_push(seen, l, "SURREALDB_PASS"@);
            lemma_lookup_push(seen, l, "STAFF_NAME"@);
            lemma_lookup_push(seen, l, "STAFF_EMAIL"@);
            lemma_lookup_push(seen, l, "STAFF_PHONE"@);
            lemma_lookup_push(seen, l, "STAFF_POSITION"@);
            lemma_lookup_push(seen, l, "PROJECT_FOLDER_PATH"@);
            assert(seen.push(l) + lines_from(content@, next as int) =~= seen + lines_from(content@, from as int));
        }
        match parse_line(line.as_str()) {
            Some((k, v)) => apply_setting(&mut st, k.as_str(), v),
            None => {},
        }
        proof {
            seen = seen.push(l);
        }
        from = next;
    }
    assert(seen =~= lines_of(content@));
    st
}

/// The ten keys the application writes itself.
pub open spec fn managed_key(k: Seq<char>) -> bool {
    k == "SURREALDB_URL"@ || k == "SURREALDB_NS"@ || k == "SURREALDB_DB"@ || k == "SURREALDB_USER"@
        || k == "SURREALDB_PASS"@ || k == "STAFF_NAME"@ || k == "STAFF_EMAIL"@ || k == "STAFF_PHONE"@
        || k == "STAFF_POSITION"@ || k == "PROJECT_FOLDER_PATH"@
}

/// The lines of an existing file that survive a save: every line but those
/// assigning one of the application's keys, each with its blanks trimmed.
pub open spec fn kept_lines(lines: Seq<Seq<char>>) -> Seq<Seq<char>>
    decreases lines.len(),
{
    if lines.len() == 0 {
        Seq::empty()
    } else {
        let rest = kept_lines(lines.drop_last());
        let s = setting_of(lines.last());
        if s.is_some() && managed_key(s.unwrap().0) {
            rest
        } else {
            rest.push(trim(lines.last(), Trim::Whitespace))
        }
    }
}

/// The line `KEY="value"` for a value that is set, nothing otherwise.
pub open spec fn assignment(key: Seq<char>, o: Option<String>) -> Seq<Seq<char>> {
    match o {
        Some(v) => seq![key + "=\""@ + v@ + "\""@],
        None => Seq::empty(),
    }
}

/// The application's own lines, in three sections each led by a blank line and a
/// comment.
pub open spec fn settings_lines(s: AppSettings) -> Seq<Seq<char>> {
    seq![""@, "# SurrealDB Configuration"@] + assignment("SURREALDB_URL"@, s.surrealdb_url) + assignment(
        "SURREALDB_NS"@,
        s.surrealdb_ns,
    ) + assignment("SURREALDB_DB"@, s.surrealdb_db) + assignment("SURREALDB_USER"@, s.surrealdb_user)
        + assignment("SURREALDB_PASS"@, s.surrealdb_pass) + seq![""@, "# Staff Information"@]
        + assignment("STAFF_NAME"@, s.staff_name) + assignment("STAFF_EMAIL"@, s.staff_email)
        + assignment("STAFF_PHONE"@, s.staff_phone) + assignment("STAFF_POSITION"@, s.staff_position)
        + seq![""@, "# Project Configuration"@] + assignment(
        "PROJECT_FOLDER_PATH"@,
        s.project_folder_path,
    )
}

/// The texts of a list of strings.
pub open spec fn texts(v: Seq<String>) -> Seq<Seq<char>> {
    v.map_values(|s: String| s@)
}

fn is_managed(k: &str) -> (r: bool)
    ensures
        r == managed_key(k@),
{
    same_text(k, "SURREALDB_URL") || same_text(k, "SURREALDB_NS") || same_text(k, "SURREALDB_DB")
        || same_text(k, "SURREALDB_USER") || same_text(k, "SURREALDB_PASS") || same_text(
        k,
        "STAFF_NAME",
    ) || same_text(k, "STAFF_EMAIL") || same_text(k, "STAFF_PHONE") || same_text(k, "STAFF_POSITION")
        || same_text(k, "PROJECT_FOLDER_PATH")
}

fn push_line(out: &mut Vec<String>, line: &str)
    ensures
        texts(final(out)@) == texts(old(out)@).push(line@),
{
    let ghost before = out@;
    out.push(line.to_owned());
    assert(texts(out@) =~= texts(before).push(line@));
}

fn push_assignment(out: &mut Vec<String>, key: &str, value: &Option<String>)
    ensures
        texts(final(out)@) == texts(old(out)@) + assignment(key@, *value),
{
    let ghost before = out@;
    match value {
        Some(v) => {
            let mut line = key.to_owned();
            line.append("=\"");
            line.append(v.as_str());
            line.append("\"");
            out.push(line);
            assert(texts(out@) =~= texts(before) + assignment(key@, *value));
        },
        None => {
            assert(texts(out@) =~= texts(before) + assignment(key@, *value));
        },
    }
}

/// `lines` joined with `sep`.
fn join_lines(lines: &Vec<String>, sep: &str) -> (r: String)
    ensures
        r@ == joined(texts(lines@), sep@),
{
    let n = lines.len();
    let mut out = String::new();
    let mut i: usize = 0;
    while i < n
        invariant
            n == lines@.len(),
            i <= n,
            out@ == joined(texts(lines@.subrange(0, i as int)), sep@),
        decreases n - i,
    {
        assert(texts(lines@.subrange(0, i + 1)).drop_last() =~= texts(lines@.subrange(0, i as int)));
        assert(texts(lines@.subrange(0, i + 1)).last() == lines@[i as int]@);
        if i > 0 {
            out.append(sep);
        }
        out.append(lines[i].as_str());
        i = i + 1;
    }
    assert(lines@.subrange(0, n as int) =~= lines@);
    out
}

/// The settings file after saving `settings` over `existing`: the surviving lines
/// of `existing`, then the application's sections, joined by line feeds.
pub fn render_settings(existing: &str, settings: &AppSettings) -> (r: String)
    ensures
        r@ == joined(kept_lines(lines_of(existing@)) + settings_lines(*settings), "\n"@),
{
    let n = existing.unicode_len();
    let mut out: Vec<String> = Vec::new();
    let mut from: usize = 0;
    let ghost mut seen: Seq<Seq<char>> = Seq::empty();
    assert(seen + lines_from(existing@, 0) =~= lines_of(existing@));
    while from < n
        invariant
            n == existing@.len(),
            from <= n,
            seen + lines_from(existing@, from as int) == lines_of(existing@),
            texts(out@) == kept_lines(seen),
        decreases n - from,
    {
        let (line, next) = next_line(existing, from);
        let ghost l = line@;
        proof {
            assert(seen.push(l).drop_last() =~= seen);
            assert(seen.push(l) + lines_from(existing@, next as int) =~= seen + lines_from(existing@, from as int));
        }
        let keep = match parse_line(line.as_str()) {
            Some((k, _)) => !is_managed(k.as_str()),
            None => true,
        };
        if keep {
            let len = line.as_str().unicode_len();
            let (a, b) = trim_window(line.as_str(), 0, len, Trim::Whitespace);
            assert(line@.subrange(0, len as int) =~= line@);
            let t = slice_owned(line.as_str(), a, b);
            push_line(&mut out, t.as_str());
        }
        proof {
            seen = seen.push(l);
        }
        from = next;
    }
    assert(seen =~= lines_of(existing@));
    let ghost kept = texts(out@);
    push_line(&mut out, "");
    push_line(&mut out, "# SurrealDB Configuration");
    push_assignment(&mut out, "SURREALDB_URL", &settings.surrealdb_url);
    push_assignment(&mut out, "SURREALDB_NS", &settings.surrealdb_ns);
    push_assignment(&mut out, "SURREALDB_DB", &settings.surrealdb_db);
    push_assignment(&mut out, "SURREALDB_USER", &settings.surrealdb_user);
    push_assignment(&mut out, "SURREALDB_PASS", &settings.surrealdb_pass);
    push_line(&mut out, "");
    push_line(&mut out, "# Staff Information");
    push_assignment(&mut out, "STAFF_NAME", &settings.staff_name);
    push_assignment(&mut out, "STAFF_EMAIL", &settings.staff_email);
    push_assignment(&mut out, "STAFF_PHONE", &settings.staff_phone);
    push_assignment(&mut out, "STAFF_POSITION", &settings.staff_position);
    push_line(&mut out, "");
    push_line(&mut out, "# Project Configuration");
    push_assignment(&mut out, "PROJECT_FOLDER_PATH", &settings.project_folder_path);
    assert(texts(out@) =~= kept + settings_lines(*settings));
    join_lines(&out, "\n")
}

} // verus!
