use vstd::prelude::*;
use vstd::string::StringExecFns;

use crate::json::{
    all_ws, decimal, is_digit, is_json_ws, json_escape, lemma_decimal_digits, lemma_read_number,
    lemma_read_string, lemma_skip_ws, lemma_then, push_char, push_decimal, quoted, read_number,
    read_string, skip_ws, then,
};
use crate::preset::{FieldMode, Preset, RenderMode, field_mode_name, preset_name, render_mode_name};

verus! {

/// One user-written remark, tagged with the object-id of the control that
/// was being manipulated and with the context it was written in.
#[derive(Debug, Clone)]
pub struct Remark {
    pub object_id: String,
    pub value: String,
    pub note: String,
    pub unix_ms: u128,
    pub preset: String,
    pub render_mode: String,
    pub field_mode: String,
}

impl Default for Remark {
    fn default() -> (r: Remark)
        ensures
            r.object_id@ == Seq::<char>::empty(),
            r.value@ == Seq::<char>::empty(),
            r.note@ == Seq::<char>::empty(),
            r.unix_ms == 0,
            r.preset@ == Seq::<char>::empty(),
            r.render_mode@ == Seq::<char>::empty(),
            r.field_mode@ == Seq::<char>::empty(),
    {
        Remark {
            object_id: String::new(),
            value: String::new(),
            note: String::new(),
            unix_ms: 0,
            preset: String::new(),
            render_mode: String::new(),
            field_mode: String::new(),
        }
    }
}

/// A JSON object member: the quoted key, a colon and a space, then the value.
#[verifier::opaque]
pub open spec fn member(key: Seq<char>, value: Seq<char>) -> Seq<char> {
    quoted(key) + (seq![':', ' '] + value)
}

/// The pieces of text `ps` one after the other.
pub open spec fn flatten(ps: Seq<Seq<char>>) -> Seq<char>
    decreases ps.len(),
{
    if ps.len() == 0 {
        Seq::empty()
    } else {
        flatten(ps.drop_last()) + ps.last()
    }
}

/// The pieces of one remark's JSON object: the opening brace, then the
/// seven members separated by ", ", then the closing brace.
pub open spec fn remark_pieces(r: Remark) -> Seq<Seq<char>> {
    seq![
        seq![' ', ' ', ' ', ' ', '{', ' '],
        member("object_id"@, quoted(r.object_id@)),
        seq![',', ' '],
        member("value"@, quoted(r.value@)),
        seq![',', ' '],
        member("note"@, quoted(r.note@)),
        seq![',', ' '],
        member("unix_ms"@, decimal(r.unix_ms as nat)),
        seq![',', ' '],
        member("preset"@, quoted(r.preset@)),
        seq![',', ' '],
        member("render_mode"@, quoted(r.render_mode@)),
        seq![',', ' '],
        member("field_mode"@, quoted(r.field_mode@)),
        seq![' ', '}'],
    ]
}

/// The JSON object text of one remark (one line of the log's array).
pub open spec fn remark_item(r: Remark) -> Seq<char> {
    flatten(remark_pieces(r))
}

/// The remark objects, separated by a comma and a line break.
pub open spec fn remark_items(rs: Seq<Remark>) -> Seq<char>
    decreases rs.len(),
{
    if rs.len() == 0 {
        Seq::empty()
    } else if rs.len() == 1 {
        remark_item(rs[0])
    } else {
        remark_items(rs.drop_last()) + (seq![',', '\n'] + remark_item(rs.last()))
    }
}

/// The remarks array: its items between brackets, on lines of their own.
pub open spec fn remark_array(rs: Seq<Remark>) -> Seq<char> {
    seq!['[', '\n'] + (remark_items(rs) + seq!['\n', ' ', ' ', ']'])
}

/// Line break and indentation between the document's members.
pub open spec fn doc_sep() -> Seq<char> {
    seq![',', '\n', ' ', ' ']
}

/// The pieces of the remark-log document.
pub open spec fn document_pieces(rs: Seq<Remark>, now_ms: nat) -> Seq<Seq<char>> {
    seq![
        seq!['{', '\n', ' ', ' '],
        member("schema"@, quoted("hopf-sta-viz/ui-remarks@1"@)),
        doc_sep(),
        member("app"@, quoted("hopf-sta-viz"@)),
        doc_sep(),
        member("generated_unix_ms"@, decimal(now_ms)),
        doc_sep(),
        member("count"@, decimal(rs.len())),
        doc_sep(),
        member("remarks"@, remark_array(rs)),
        seq!['\n', '}', '\n'],
    ]
}

/// The whole remark-log document, stamped with the time `now_ms` it was written.
pub open spec fn remarks_document(rs: Seq<Remark>, now_ms: nat) -> Seq<char> {
    flatten(document_pieces(rs, now_ms))
}

/// Appending piece `k` after the first `k` pieces gives the first `k + 1`.
proof fn lemma_append_piece(start: Seq<char>, ps: Seq<Seq<char>>, k: int, before: Seq<char>, after: Seq<char>)
    requires
        0 <= k < ps.len(),
        before == start + flatten(ps.take(k)),
        after == before + ps[k],
    ensures
        after == start + flatten(ps.take(k + 1)),
{
    assert(ps.take(k + 1).drop_last() =~= ps.take(k));
    assert(ps.take(k + 1).last() == ps[k]);
    assert(after =~= start + flatten(ps.take(k + 1)));
}

fn append_quoted(o: &mut String, s: &str)
    ensures
        final(o)@ == old(o)@ + quoted(s@),
{
    let ghost start = o@;
    push_char(o, '"');
    let e = json_escape(s);
    o.append(e.as_str());
    push_char(o, '"');
    assert(o@ =~= start + quoted(s@));
}

fn append_key(o: &mut String, key: &str)
    ensures
        final(o)@ == old(o)@ + (quoted(key@) + seq![':', ' ']),
{
    let ghost start = o@;
    append_quoted(o, key);
    push_char(o, ':');
    push_char(o, ' ');
    assert(o@ =~= start + (quoted(key@) + seq![':', ' ']));
}

fn append_member_str(o: &mut String, key: &str, value: &str)
    ensures
        final(o)@ == old(o)@ + member(key@, quoted(value@)),
{
    reveal(member);
    let ghost start = o@;
    append_key(o, key);
    append_quoted(o, value);
    assert(o@ =~= start + member(key@, quoted(value@)));
}

fn append_member_num(o: &mut String, key: &str, n: u128)
    ensures
        final(o)@ == old(o)@ + member(key@, decimal(n as nat)),
{
    reveal(member);
    let ghost start = o@;
    append_key(o, key);
    push_decimal(o, n);
    assert(o@ =~= start + member(key@, decimal(n as nat)));
}

fn push_chars(o: &mut String, cs: &[char])
    ensures
        final(o)@ == old(o)@ + cs@,
{
    let ghost start = o@;
    for i in 0..cs.len()
        invariant
            o@ == start + cs@.take(i as int),
    {
        push_char(o, cs[i]);
        assert(cs@.take(i + 1) =~= cs@.take(i as int).push(cs@[i as int]));
    }
    assert(cs@.take(cs@.len() as int) =~= cs@);
}

fn append_remark(o: &mut String, r: &Remark)
    ensures
        final(o)@ == old(o)@ + remark_item(*r),
{
    let ghost ps = remark_pieces(*r);
    let ghost start = o@;
    assert(o@ == start + flatten(ps.take(0))) by {
        assert(ps.take(0) =~= Seq::<Seq<char>>::empty());
        assert(o@ =~= start + Seq::<char>::empty());
    }
    let ghost b = o@;
    push_chars(o, &[' ', ' ', ' ', ' ', '{', ' ']);
    proof { lemma_append_piece(start, ps, 0, b, o@); }
    let ghost b = o@;
    append_member_str(o, "object_id", r.object_id.as_str());
    proof { lemma_append_piece(start, ps, 1, b, o@); }
    let ghost b = o@;
    push_chars(o, &[',', ' ']);
    proof { lemma_append_piece(start, ps, 2, b, o@); }
    let ghost b = o@;
    append_member_str(o, "value", r.value.as_str());
    proof { lemma_append_piece(start, ps, 3, b, o@); }
    let ghost b = o@;
    push_chars(o, &[',', ' ']);
    proof { lemma_append_piece(start, ps, 4, b, o@); }
    let ghost b = o@;
    append_member_str(o, "note", r.note.as_str());
    proof { lemma_append_piece(start, ps, 5, b, o@); }
    let ghost b = o@;
    push_chars(o, &[',', ' ']);
    proof { lemma_append_piece(start, ps, 6, b, o@); }
    let ghost b = o@;
    append_member_num(o, "unix_ms", r.unix_ms);
    proof { lemma_append_piece(start, ps, 7, b, o@); }
    let ghost b = o@;
    push_chars(o, &[',', ' ']);
    proof { lemma_append_piece(start, ps, 8, b, o@); }
    let ghost b = o@;
    append_member_str(o, "preset", r.preset.as_str());
    proof { lemma_append_piece(start, ps, 9, b, o@); }
    let ghost b = o@;
    push_chars(o, &[',', ' ']);
    proof { lemma_append_piece(start, ps, 10, b, o@); }
    let ghost b = o@;
    append_member_str(o, "render_mode", r.render_mode.as_str());
    proof { lemma_append_piece(start, ps, 11, b, o@); }
    let ghost b = o@;
    push_chars(o, &[',', ' ']);
    proof { lemma_append_piece(start, ps, 12, b, o@); }
    let ghost b = o@;
    append_member_str(o, "field_mode", r.field_mode.as_str());
    proof { lemma_append_piece(start, ps, 13, b, o@); }
    let ghost b = o@;
    push_chars(o, &[' ', '}']);
    proof { lemma_append_piece(start, ps, 14, b, o@); }
    assert(ps.take(15) =~= ps);
}

fn append_remark_array(o: &mut String, remarks: &Vec<Remark>)
    ensures
        final(o)@ == old(o)@ + remark_array(remarks@),
{
    let ghost start = o@;
    push_chars(o, &['[', '\n']);
    let ghost head = o@;
    assert(remarks@.take(0) =~= Seq::<Remark>::empty());
    assert(head =~= head + remark_items(remarks@.take(0)));
    for i in 0..remarks.len()
        invariant
            o@ == head + remark_items(remarks@.take(i as int)),
    {
        if i > 0 {
            push_chars(o, &[',', '\n']);
        }
        append_remark(o, &remarks[i]);
        assert(remarks@.take(i + 1).drop_last() =~= remarks@.take(i as int));
        assert(o@ =~= head + remark_items(remarks@.take(i + 1)));
    }
    assert(remarks@.take(remarks.len() as int) =~= remarks@);
    push_chars(o, &['\n', ' ', ' ', ']']);
    assert(o@ =~= start + remark_array(remarks@));
}

/// Serializes the remark log (the contents of `ui-remarks.json`), stamped
/// with the wall-clock time `now_ms` in milliseconds since the Unix epoch.
pub fn remarks_json(remarks: &Vec<Remark>, now_ms: u128) -> (text: String)
    ensures
        text@ == remarks_document(remarks@, now_ms as nat),
        read_document(text@) == Some(remark_log(remarks@, now_ms as nat)),
{
    proof { lemma_read_document(remarks@, now_ms as nat); }
    let mut text = String::new();
    let ghost ps = document_pieces(remarks@, now_ms as nat);
    let ghost start = text@;
    assert(text@ == start + flatten(ps.take(0))) by {
        assert(ps.take(0) =~= Seq::<Seq<char>>::empty());
        assert(text@ =~= start + Seq::<char>::empty());
    }
    let ghost b = text@;
    push_chars(&mut text, &['{', '\n', ' ', ' ']);
    proof { lemma_append_piece(start, ps, 0, b, text@); }
    let ghost b = text@;
    append_member_str(&mut text, "schema", "hopf-sta-viz/ui-remarks@1");
    proof { lemma_append_piece(start, ps, 1, b, text@); }
    let ghost b = text@;
    push_chars(&mut text, &[',', '\n', ' ', ' ']);
    proof { lemma_append_piece(start, ps, 2, b, text@); }
    let ghost b = text@;
    append_member_str(&mut text, "app", "hopf-sta-viz");
    proof { lemma_append_piece(start, ps, 3, b, text@); }
    let ghost b = text@;
    push_chars(&mut text, &[',', '\n', ' ', ' ']);
    proof { lemma_append_piece(start, ps, 4, b, text@); }
    let ghost b = text@;
    append_member_num(&mut text, "generated_unix_ms", now_ms);
    proof { lemma_append_piece(start, ps, 5, b, text@); }
    let ghost b = text@;
    push_chars(&mut text, &[',', '\n', ' ', ' ']);
    proof { lemma_append_piece(start, ps, 6, b, text@); }
    let ghost b = text@;
    append_member_num(&mut text, "count", remarks.len() as u128);
    proof { lemma_append_piece(start, ps, 7, b, text@); }
    let ghost b = text@;
    push_chars(&mut text, &[',', '\n', ' ', ' ']);
    proof { lemma_append_piece(start, ps, 8, b, text@); }
    let ghost b = text@;
    append_key(&mut text, "remarks");
    append_remark_array(&mut text, remarks);
    assert(text@ =~= b + member("remarks"@, remark_array(remarks@))) by {
        reveal(member);
    }
    proof { lemma_append_piece(start, ps, 9, b, text@); }
    let ghost b = text@;
    push_chars(&mut text, &['\n', '}', '\n']);
    proof { lemma_append_piece(start, ps, 10, b, text@); }
    assert(ps.take(11) =~= ps);
    assert(text@ =~= remarks_document(remarks@, now_ms as nat));
    text
}

/// Unicode `White_Space` code points (the whitespace `str::trim` removes).
pub open spec fn is_white_space(c: char) -> bool {
    let v = c as u32;
    (0x9 <= v && v <= 0xD) || v == 0x20 || v == 0x85 || v == 0xA0 || v == 0x1680
        || (0x2000 <= v && v <= 0x200A) || v == 0x2028 || v == 0x2029 || v == 0x202F
        || v == 0x205F || v == 0x3000
}

/// In ASCII, exactly tab, line feed, vertical tab, form feed, carriage return
/// and space are whitespace: no printable character other than space is.
pub proof fn lemma_ascii_white_space(c: char)
    ensures
        (c as u32) < 0x80 ==> (is_white_space(c) <==> (c == '\t' || c == '\n' || c == '\u{b}' || c
            == '\u{c}' || c == '\r' || c == ' ')),
        0x21 <= (c as u32) <= 0x7e ==> !is_white_space(c),
{
}

/// The whitespace is exactly the 25 code points of the Unicode `White_Space`
/// property (what `char::is_whitespace` accepts).
pub proof fn lemma_white_space_points(c: char)
    ensures
        is_white_space(c) <==> set![
            '\t', '\n', '\u{b}', '\u{c}', '\r', ' ', '\u{85}', '\u{a0}', '\u{1680}', '\u{2000}',
            '\u{2001}', '\u{2002}', '\u{2003}', '\u{2004}', '\u{2005}', '\u{2006}', '\u{2007}',
            '\u{2008}', '\u{2009}', '\u{200a}', '\u{2028}', '\u{2029}', '\u{202f}', '\u{205f}',
            '\u{3000}',
        ].contains(c),
{
}

/// `t` is `s` with its leading and trailing whitespace removed.
pub open spec fn is_trim_of(s: Seq<char>, t: Seq<char>) -> bool {
    exists|i: int, j: int|
        0 <= i <= j <= s.len() && t == s.subrange(i, j) && (forall|k: int|
            0 <= k < i ==> is_white_space(#[trigger] s[k])) && (forall|k: int|
            j <= k < s.len() ==> is_white_space(#[trigger] s[k])) && (i < j ==> !is_white_space(
            s[i],
        ) && !is_white_space(s[j - 1]))
}

/// Whether `c` is Unicode `White_Space`.
fn white_space(c: char) -> (b: bool)
    ensures
        b == is_white_space(c),
{
    let v = c as u32;
    (0x9 <= v && v <= 0xD) || v == 0x20 || v == 0x85 || v == 0xA0 || v == 0x1680 || (0x2000 <= v
        && v <= 0x200A) || v == 0x2028 || v == 0x2029 || v == 0x202F || v == 0x205F || v == 0x3000
}

/// The slice of `s` without its leading and trailing Unicode `White_Space`
/// (what `str::trim` gives).
fn trim_str(s: &str) -> (t: &str)
    ensures
        is_trim_of(s@, t@),
{
    let mut cs: Vec<char> = Vec::new();
    for c in it: s.chars()
        invariant
            it.seq() == s@,
            cs@ == s@.take(it.index()),
    {
        assert(s@.take(it.index() + 1) == s@.take(it.index()).push(c));
        cs.push(c);
    }
    assert(cs@ =~= s@);
    let n: usize = cs.len();
    let mut i: usize = 0;
    while i < n
        invariant
            i <= n,
            n == s@.len(),
            cs@ == s@,
            forall|k: int| 0 <= k < i ==> is_white_space(#[trigger] s@[k]),
        ensures
            i <= n,
            forall|k: int| 0 <= k < i ==> is_white_space(#[trigger] s@[k]),
            i < n ==> !is_white_space(s@[i as int]),
        decreases n - i,
    {
        if !white_space(cs[i]) {
            break;
        }
        i = i + 1;
    }
    let mut j: usize = n;
    while j > i
        invariant
            i <= j <= n,
            n == s@.len(),
            cs@ == s@,
            forall|k: int| j <= k < n ==> is_white_space(#[trigger] s@[k]),
        ensures
            i <= j <= n,
            forall|k: int| j <= k < n ==> is_white_space(#[trigger] s@[k]),
            i < j ==> !is_white_space(s@[j - 1]),
        decreases j - i,
    {
        if !white_space(cs[j - 1]) {
            break;
        }
        j = j - 1;
    }
    let t = s.substring_char(i, j);
    assert(is_trim_of(s@, t@)) by {
        assert(t@ == s@.subrange(i as int, j as int));
    }
    t
}

/// Trimming keeps text that neither starts nor ends with whitespace as it
/// is: a note "too dim!" stays "too dim!".
pub proof fn lemma_trim_unpadded(s: Seq<char>, t: Seq<char>)
    requires
        is_trim_of(s, t),
        s.len() > 0,
        !is_white_space(s[0]),
        !is_white_space(s[s.len() - 1]),
    ensures
        t == s,
{
    let (i, j) = choose|i: int, j: int|
        0 <= i <= j <= s.len() && t == s.subrange(i, j) && (forall|k: int|
            0 <= k < i ==> is_white_space(#[trigger] s[k])) && (forall|k: int|
            j <= k < s.len() ==> is_white_space(#[trigger] s[k])) && (i < j ==> !is_white_space(
            s[i],
        ) && !is_white_space(s[j - 1]));
    if i > 0 {
        assert(is_white_space(s[0]));
    }
    if j < s.len() {
        assert(is_white_space(s[s.len() - 1]));
    }
    assert(t =~= s);
}

/// A trimmed text is empty exactly when the whole text is whitespace.
pub proof fn lemma_trim_empty(s: Seq<char>, t: Seq<char>)
    requires
        is_trim_of(s, t),
    ensures
        t.len() == 0 <==> forall|k: int| 0 <= k < s.len() ==> is_white_space(#[trigger] s[k]),
{
    let (i, j) = choose|i: int, j: int|
        0 <= i <= j <= s.len() && t == s.subrange(i, j) && (forall|k: int|
            0 <= k < i ==> is_white_space(#[trigger] s[k])) && (forall|k: int|
            j <= k < s.len() ==> is_white_space(#[trigger] s[k])) && (i < j ==> !is_white_space(
            s[i],
        ) && !is_white_space(s[j - 1]));
    if t.len() == 0 {
        assert forall|k: int| 0 <= k < s.len() implies is_white_space(#[trigger] s[k]) by {
            if k >= i {
                assert(k >= j);
            }
        }
    } else {
        assert(!is_white_space(s[i]));
    }
}

/// Live state of the F1 help popup and the accumulated remark log.
#[derive(Debug)]
pub struct HelpLog {
    /// object-id of the control whose remark popup is open.
    pub open_id: Option<String>,
    pub open_help: String,
    pub open_value: String,
    pub draft: String,
    pub remarks: Vec<Remark>,
    pub flush_requested: bool,
    pub last_log_path: Option<String>,
}

impl Default for HelpLog {
    fn default() -> (h: HelpLog)
        ensures
            h.open_id is None,
            h.open_help@ == Seq::<char>::empty(),
            h.open_value@ == Seq::<char>::empty(),
            h.draft@ == Seq::<char>::empty(),
            h.remarks@ == Seq::<Remark>::empty(),
            !h.flush_requested,
            h.last_log_path is None,
    {
        HelpLog {
            open_id: None,
            open_help: String::new(),
            open_value: String::new(),
            draft: String::new(),
            remarks: Vec::new(),
            flush_requested: false,
            last_log_path: None,
        }
    }
}

/// The popup of `h` is open on the control `id`.
pub open spec fn open_on(h: HelpLog, id: Seq<char>) -> bool {
    h.open_id matches Some(x) && x@ == id
}

/// Logging from the popup of `h` appends a remark: the popup is open and
/// its draft holds more than whitespace.
pub open spec fn draft_logs(h: HelpLog) -> bool {
    h.open_id is Some && exists|k: int| 0 <= k < h.draft@.len() && !is_white_space(#[trigger] h.draft@[k])
}

/// `new` is `old` after the popup's "Log remark" button, the flush request
/// aside: the popup is closed; if `old`'s draft logs, one remark with the
/// control's id and value, the trimmed draft, the time and the view context
/// is appended and the draft emptied, and otherwise the log and the draft
/// are kept.
pub open spec fn submitted(
    old: HelpLog,
    new: HelpLog,
    unix_ms: u128,
    preset: Preset,
    render_mode: RenderMode,
    field_mode: FieldMode,
) -> bool {
    &&& new.open_id is None
    &&& new.open_help == old.open_help
    &&& new.open_value == old.open_value
    &&& new.last_log_path == old.last_log_path
    &&& draft_logs(old) ==> {
        let r = new.remarks@.last();
        &&& new.remarks@.len() == old.remarks@.len() + 1
        &&& new.remarks@.drop_last() == old.remarks@
        &&& open_on(old, r.object_id@)
        &&& r.value@ == old.open_value@
        &&& is_trim_of(old.draft@, r.note@)
        &&& r.unix_ms == unix_ms
        &&& r.preset@ == preset_name(preset)
        &&& r.render_mode@ == render_mode_name(render_mode)
        &&& r.field_mode@ == field_mode_name(field_mode)
        &&& new.draft@ == Seq::<char>::empty()
    }
    &&& !draft_logs(old) ==> {
        &&& new.remarks@ == old.remarks@
        &&& new.draft == old.draft
    }
}

/// `new` is `old` with the popup closed, the flush request aside.
pub open spec fn closed(old: HelpLog, new: HelpLog) -> bool {
    &&& new.open_id is None
    &&& new.open_help == old.open_help
    &&& new.open_value == old.open_value
    &&& new.draft == old.draft
    &&& new.remarks@ == old.remarks@
    &&& new.last_log_path == old.last_log_path
}

/// `new` is `old`, the flush request aside.
pub open spec fn kept(old: HelpLog, new: HelpLog) -> bool {
    &&& new.open_id == old.open_id
    &&& new.open_help == old.open_help
    &&& new.open_value == old.open_value
    &&& new.draft == old.draft
    &&& new.remarks@ == old.remarks@
    &&& new.last_log_path == old.last_log_path
}

/// `new` is `old`, the last written path aside.
pub open spec fn kept_but_path(old: HelpLog, new: HelpLog) -> bool {
    &&& new.open_id == old.open_id
    &&& new.open_help == old.open_help
    &&& new.open_value == old.open_value
    &&& new.draft == old.draft
    &&& new.remarks@ == old.remarks@
    &&& new.flush_requested == old.flush_requested
}

/// What the user did with the remark popup during one frame.
#[derive(Copy, Clone, PartialEq, Eq, Structural, Debug)]
pub enum PopupClick {
    /// Neither button was clicked (or no popup is open).
    Idle,
    /// "Log remark" was clicked.
    Log,
    /// "Close" was clicked (and "Log remark" was not).
    Close,
}

impl HelpLog {
    /// F1 over a control: open the remark popup for `id`, showing its help
    /// text `doc` and current value, with an empty draft.
    pub fn open(&mut self, id: &str, doc: &str, value: String)
        ensures
            open_on(*final(self), id@),
            final(self).open_help@ == doc@,
            final(self).open_value@ == value@,
            final(self).draft@ == Seq::<char>::empty(),
            final(self).remarks@ == old(self).remarks@,
            final(self).flush_requested == old(self).flush_requested,
            final(self).last_log_path == old(self).last_log_path,
    {
        self.open_id = Some(String::from_str(id));
        self.open_help = String::from_str(doc);
        self.open_value = value;
        self.draft = String::new();
    }

    /// Close the popup without logging anything.
    pub fn close(&mut self)
        ensures
            final(self).open_id is None,
            final(self).open_help == old(self).open_help,
            final(self).open_value == old(self).open_value,
            final(self).draft == old(self).draft,
            final(self).remarks@ == old(self).remarks@,
            final(self).flush_requested == old(self).flush_requested,
            final(self).last_log_path == old(self).last_log_path,
    {
        self.open_id = None;
    }

    /// The popup's "Log remark" button. When the popup is open and the draft
    /// holds more than whitespace, a remark carrying the trimmed draft, the
    /// control's id and value, the time `unix_ms` and the view context is
    /// appended, the draft is emptied and a flush is requested. The popup
    /// closes either way. Returns whether a remark was appended.
    pub fn submit(
        &mut self,
        unix_ms: u128,
        preset: Preset,
        render_mode: RenderMode,
        field_mode: FieldMode,
    ) -> (logged: bool)
        ensures
            submitted(*old(self), *final(self), unix_ms, preset, render_mode, field_mode),
            logged == draft_logs(*old(self)),
            logged ==> final(self).flush_requested,
            !logged ==> final(self).flush_requested == old(self).flush_requested,
    {
        let mut logged = false;
        match &self.open_id {
            Some(id) => {
                let note = trim_str(self.draft.as_str());
                proof {
                    lemma_trim_empty(self.draft@, note@);
                }
                if note.unicode_len() > 0 {
                    let remark = Remark {
                        object_id: id.clone(),
                        value: self.open_value.clone(),
                        note: String::from_str(note),
                        unix_ms,
                        preset: String::from_str(preset.name()),
                        render_mode: String::from_str(render_mode.name()),
                        field_mode: String::from_str(field_mode.name()),
                    };
                    self.remarks.push(remark);
                    self.draft = String::new();
                    self.flush_requested = true;
                    logged = true;
                }
            },
            None => {},
        }
        self.open_id = None;
        proof {
            if logged {
                assert(self.remarks@.drop_last() =~= old(self).remarks@);
            }
        }
        logged
    }

    /// Consume a pending flush request: true exactly when one was pending.
    pub fn take_flush(&mut self) -> (pending: bool)
        ensures
            pending == old(self).flush_requested,
            !final(self).flush_requested,
            final(self).open_id == old(self).open_id,
            final(self).open_help == old(self).open_help,
            final(self).open_value == old(self).open_value,
            final(self).draft == old(self).draft,
            final(self).remarks@ == old(self).remarks@,
            final(self).last_log_path == old(self).last_log_path,
    {
        let pending = self.flush_requested;
        self.flush_requested = false;
        pending
    }

    /// The end of one UI frame for the remark popup: apply the popup's click
    /// (log the draft, or close), then consume the flush request. Returns
    /// whether the remark log file must be written now: exactly when a flush
    /// was already pending or this frame appended a remark. At most one
    /// remark is appended, and no flush request is left afterwards.
    pub fn end_frame(
        &mut self,
        click: PopupClick,
        unix_ms: u128,
        preset: Preset,
        render_mode: RenderMode,
        field_mode: FieldMode,
    ) -> (write: bool)
        ensures
            click == PopupClick::Log ==> submitted(*old(self), *final(self), unix_ms, preset, render_mode, field_mode),
            click == PopupClick::Close ==> closed(*old(self), *final(self)),
            click == PopupClick::Idle ==> kept(*old(self), *final(self)),
            !final(self).flush_requested,
            write == (old(self).flush_requested || final(self).remarks@.len() > old(self).remarks@.len()),
            final(self).remarks@.len() <= old(self).remarks@.len() + 1,
    {
        match click {
            PopupClick::Log => {
                self.submit(unix_ms, preset, render_mode, field_mode);
            },
            PopupClick::Close => self.close(),
            PopupClick::Idle => {},
        }
        self.take_flush()
    }

    /// Record the outcome of writing the remark log file: the path it was
    /// written to, or `None` when the write failed, which keeps the last
    /// path shown.
    pub fn note_write(&mut self, written: Option<String>)
        ensures
            final(self).last_log_path == (match written {
                Some(p) => Some(p),
                None => old(self).last_log_path,
            }),
            kept_but_path(*old(self), *final(self)),
    {
        match written {
            Some(p) => self.last_log_path = Some(p),
            None => {},
        }
    }
}

/// What a JSON reader finds in one remark object.
pub struct RemarkFields {
    pub object_id: Seq<char>,
    pub value: Seq<char>,
    pub note: Seq<char>,
    pub unix_ms: nat,
    pub preset: Seq<char>,
    pub render_mode: Seq<char>,
    pub field_mode: Seq<char>,
}

/// What a JSON reader finds in a remark-log document.
pub struct RemarkLog {
    pub schema: Seq<char>,
    pub app: Seq<char>,
    pub generated_unix_ms: nat,
    pub count: nat,
    pub remarks: Seq<RemarkFields>,
}

/// The fields of a remark, as text and number.
pub open spec fn fields_of(r: Remark) -> RemarkFields {
    RemarkFields {
        object_id: r.object_id@,
        value: r.value@,
        note: r.note@,
        unix_ms: r.unix_ms as nat,
        preset: r.preset@,
        render_mode: r.render_mode@,
        field_mode: r.field_mode@,
    }
}

/// The fields of each remark, in order.
pub open spec fn fields_seq(rs: Seq<Remark>) -> Seq<RemarkFields> {
    rs.map_values(|r: Remark| fields_of(r))
}

/// Reads an object member's key `key` and its colon; gives what follows.
pub open spec fn member_key(t: Seq<char>, key: Seq<char>) -> Option<Seq<char>> {
    match read_string(skip_ws(t)) {
        Some((k, t1)) => if k == key {
            then(t1, ':')
        } else {
            None
        },
        None => None,
    }
}

/// Reads a member `key` whose value is a string.
pub open spec fn str_member(t: Seq<char>, key: Seq<char>) -> Option<(Seq<char>, Seq<char>)> {
    match member_key(t, key) {
        Some(t1) => read_string(skip_ws(t1)),
        None => None,
    }
}

/// Reads a member `key` whose value is a non-negative integer.
pub open spec fn num_member(t: Seq<char>, key: Seq<char>) -> Option<(nat, Seq<char>)> {
    match member_key(t, key) {
        Some(t1) => read_number(skip_ws(t1)),
        None => None,
    }
}

/// Reads a string member `key` and the punctuation `c` after it.
#[verifier::opaque]
pub open spec fn str_then(t: Seq<char>, key: Seq<char>, c: char) -> Option<(Seq<char>, Seq<char>)> {
    match str_member(t, key) {
        Some((v, t1)) => match then(t1, c) {
            Some(t2) => Some((v, t2)),
            None => None,
        },
        None => None,
    }
}

/// Reads a number member `key` and the punctuation `c` after it.
#[verifier::opaque]
pub open spec fn num_then(t: Seq<char>, key: Seq<char>, c: char) -> Option<(nat, Seq<char>)> {
    match num_member(t, key) {
        Some((v, t1)) => match then(t1, c) {
            Some(t2) => Some((v, t2)),
            None => None,
        },
        None => None,
    }
}

/// Reads one remark object: its seven members in order.
pub open spec fn read_remark(t: Seq<char>) -> Option<(RemarkFields, Seq<char>)> {
    match then(t, '{') {
        None => None,
        Some(t) => match str_then(t, "object_id"@, ',') {
            None => None,
            Some((object_id, t)) => match str_then(t, "value"@, ',') {
                None => None,
                Some((value, t)) => match str_then(t, "note"@, ',') {
                    None => None,
                    Some((note, t)) => match num_then(t, "unix_ms"@, ',') {
                        None => None,
                        Some((unix_ms, t)) => match str_then(t, "preset"@, ',') {
                            None => None,
                            Some((preset, t)) => match str_then(t, "render_mode"@, ',') {
                                None => None,
                                Some((render_mode, t)) => match str_then(t, "field_mode"@, '}') {
                                    None => None,
                                    Some((field_mode, t)) => Some(
                                        (
                                            RemarkFields {
                                                object_id,
                                                value,
                                                note,
                                                unix_ms,
                                                preset,
                                                render_mode,
                                                field_mode,
                                            },
                                            t,
                                        ),
                                    ),
                                },
                            },
                        },
                    },
                },
            },
        },
    }
}

/// Reads `n >= 1` remark objects separated by commas, and the closing bracket.
pub open spec fn read_elements(t: Seq<char>, n: nat) -> Option<(Seq<RemarkFields>, Seq<char>)>
    decreases n,
{
    match read_remark(t) {
        None => None,
        Some((f, t1)) => if n <= 1 {
            match then(t1, ']') {
                Some(t2) => Some((seq![f], t2)),
                None => None,
            }
        } else {
            match then(t1, ',') {
                Some(t2) => match read_elements(t2, (n - 1) as nat) {
                    Some((fs, t3)) => Some((seq![f] + fs, t3)),
                    None => None,
                },
                None => None,
            }
        },
    }
}

/// Reads an array of exactly `n` remark objects.
pub open spec fn read_array(t: Seq<char>, n: nat) -> Option<(Seq<RemarkFields>, Seq<char>)> {
    match then(t, '[') {
        None => None,
        Some(t1) => if n == 0 {
            match then(t1, ']') {
                Some(t2) => Some((Seq::empty(), t2)),
                None => None,
            }
        } else {
            read_elements(t1, n)
        },
    }
}

/// Reads a whole remark-log document, its members in the order the log
/// writes them: schema, app, time stamp, count, and an array of exactly
/// `count` remarks, with nothing but whitespace after the closing brace.
pub open spec fn read_document(t: Seq<char>) -> Option<RemarkLog> {
    match then(t, '{') {
        None => None,
        Some(t) => match str_member(t, "schema"@) {
            None => None,
            Some((schema, t)) => match then(t, ',') {
                None => None,
                Some(t) => match str_member(t, "app"@) {
                    None => None,
                    Some((app, t)) => match then(t, ',') {
                        None => None,
                        Some(t) => match num_member(t, "generated_unix_ms"@) {
                            None => None,
                            Some((generated_unix_ms, t)) => match then(t, ',') {
                                None => None,
                                Some(t) => match num_member(t, "count"@) {
                                    None => None,
                                    Some((count, t)) => match then(t, ',') {
                                        None => None,
                                        Some(t) => match member_key(t, "remarks"@) {
                                            None => None,
                                            Some(t) => match read_array(t, count) {
                                                None => None,
                                                Some((remarks, t)) => match then(t, '}') {
                                                    None => None,
                                                    Some(t) => if skip_ws(t).len() == 0 {
                                                        Some(
                                                            RemarkLog {
                                                                schema,
                                                                app,
                                                                generated_unix_ms,
                                                                count,
                                                                remarks,
                                                            },
                                                        )
                                                    } else {
                                                        None
                                                    },
                                                },
                                            },
                                        },
                                    },
                                },
                            },
                        },
                    },
                },
            },
        },
    }
}

/// The pieces from `k` on, followed by `rest`, split into piece `k` and the
/// pieces after it.
proof fn lemma_pieces_split(ps: Seq<Seq<char>>, k: int, rest: Seq<char>)
    requires
        0 <= k < ps.len(),
    ensures
        flatten(ps.skip(k)) + rest == ps[k] + (flatten(ps.skip(k + 1)) + rest),
{
    lemma_flatten_front(ps.skip(k));
    assert(ps.skip(k).drop_first() =~= ps.skip(k + 1));
    assert(ps.skip(k)[0] == ps[k]);
    assert(flatten(ps.skip(k)) + rest =~= ps[k] + (flatten(ps.skip(k + 1)) + rest));
}

proof fn lemma_flatten_front(ps: Seq<Seq<char>>)
    requires
        ps.len() > 0,
    ensures
        flatten(ps) == ps[0] + flatten(ps.drop_first()),
    decreases ps.len(),
{
    if ps.len() == 1 {
        assert(ps.drop_last() =~= Seq::<Seq<char>>::empty());
        assert(ps.drop_first() =~= Seq::<Seq<char>>::empty());
        assert(flatten(ps) =~= ps[0] + flatten(ps.drop_first()));
    } else {
        lemma_flatten_front(ps.drop_last());
        assert(ps.drop_last().drop_first() =~= ps.drop_first().drop_last());
        assert(ps.drop_first().last() == ps.last());
        assert(flatten(ps) =~= ps[0] + flatten(ps.drop_first()));
    }
}

proof fn lemma_member_key(w: Seq<char>, key: Seq<char>, v: Seq<char>, r: Seq<char>)
    requires
        all_ws(w),
    ensures
        member_key(w + (member(key, v) + r), key) == Some(seq![' '] + (v + r)),
{
    reveal(member);
    let q = quoted(key) + (seq![':', ' '] + (v + r));
    assert(w + (member(key, v) + r) =~= w + q);
    assert(q[0] == '"');
    lemma_skip_ws(w, q);
    assert(q =~= quoted(key) + (seq![':', ' '] + (v + r)));
    lemma_read_string(key, seq![':', ' '] + (v + r));
    assert(seq![':', ' '] + (v + r) =~= Seq::<char>::empty() + (seq![':'] + (seq![' '] + (v + r))));
    lemma_then(Seq::<char>::empty(), ':', seq![' '] + (v + r));
}

proof fn lemma_str_member(w: Seq<char>, key: Seq<char>, s: Seq<char>, r: Seq<char>)
    requires
        all_ws(w),
    ensures
        str_member(w + (member(key, quoted(s)) + r), key) == Some((s, r)),
{
    lemma_member_key(w, key, quoted(s), r);
    assert((quoted(s) + r)[0] == '"');
    lemma_skip_ws(seq![' '], quoted(s) + r);
    lemma_read_string(s, r);
}

proof fn lemma_num_member(w: Seq<char>, key: Seq<char>, n: nat, r: Seq<char>)
    requires
        all_ws(w),
        r.len() > 0 && !is_digit(r[0]),
    ensures
        num_member(w + (member(key, decimal(n)) + r), key) == Some((n, r)),
{
    lemma_member_key(w, key, decimal(n), r);
    lemma_decimal_digits(n);
    assert((decimal(n) + r)[0] == decimal(n)[0]);
    lemma_skip_ws(seq![' '], decimal(n) + r);
    lemma_read_number(n, r);
}

/// Punctuation `c` after whitespace `w`, where the text is given as the
/// piece `w + [c] + more` followed by `rest`.
proof fn lemma_then_piece(w: Seq<char>, c: char, more: Seq<char>, rest: Seq<char>)
    requires
        all_ws(w),
        !is_json_ws(c),
    ensures
        then((w + (seq![c] + more)) + rest, c) == Some(more + rest),
{
    assert((w + (seq![c] + more)) + rest =~= w + (seq![c] + (more + rest)));
    lemma_then(w, c, more + rest);
}

/// One remark's text followed by `rest`, grouped member by member.
pub open spec fn item_nested(r: Remark, rest: Seq<char>) -> Seq<char> {
    seq![' ', ' ', ' ', ' ', '{', ' '] + (member("object_id"@, quoted(r.object_id@)) + (seq![',', ' ']
        + (member("value"@, quoted(r.value@)) + (seq![',', ' '] + (member("note"@, quoted(r.note@))
        + (seq![',', ' '] + (member("unix_ms"@, decimal(r.unix_ms as nat)) + (seq![',', ' '] + (
    member("preset"@, quoted(r.preset@)) + (seq![',', ' '] + (member(
        "render_mode"@,
        quoted(r.render_mode@),
    ) + (seq![',', ' '] + (member("field_mode"@, quoted(r.field_mode@)) + (seq![' ', '}']
        + rest))))))))))))))
}

proof fn lemma_item_nested(r: Remark, rest: Seq<char>)
    ensures
        remark_item(r) + rest == item_nested(r, rest),
{
    let ps = remark_pieces(r);
    lemma_pieces_split(ps, 0, rest);
    lemma_pieces_split(ps, 1, rest);
    lemma_pieces_split(ps, 2, rest);
    lemma_pieces_split(ps, 3, rest);
    lemma_pieces_split(ps, 4, rest);
    lemma_pieces_split(ps, 5, rest);
    lemma_pieces_split(ps, 6, rest);
    lemma_pieces_split(ps, 7, rest);
    lemma_pieces_split(ps, 8, rest);
    lemma_pieces_split(ps, 9, rest);
    lemma_pieces_split(ps, 10, rest);
    lemma_pieces_split(ps, 11, rest);
    lemma_pieces_split(ps, 12, rest);
    lemma_pieces_split(ps, 13, rest);
    lemma_pieces_split(ps, 14, rest);
    assert(ps.skip(0) =~= ps);
    assert(ps.skip(15) =~= Seq::<Seq<char>>::empty());
    assert(flatten(ps.skip(15)) + rest =~= rest);
}

proof fn lemma_str_then(key: Seq<char>, s: Seq<char>, w: Seq<char>, c: char, more: Seq<char>, x: Seq<char>)
    requires
        all_ws(w),
        !is_json_ws(c),
    ensures
        str_then(seq![' '] + (member(key, quoted(s)) + ((w + (seq![c] + more)) + x)), key, c) == Some((s, more + x)),
{
    reveal(str_then);
    reveal(num_then);
    assert(all_ws(seq![' ']));
    lemma_str_member(seq![' '], key, s, (w + (seq![c] + more)) + x);
    lemma_then_piece(w, c, more, x);
}

proof fn lemma_num_then(key: Seq<char>, n: nat, c: char, more: Seq<char>, x: Seq<char>)
    requires
        !is_json_ws(c),
        !is_digit(c),
    ensures
        num_then(seq![' '] + (member(key, decimal(n)) + ((seq![c] + more) + x)), key, c) == Some((n, more + x)),
{
    reveal(str_then);
    reveal(num_then);
    assert(all_ws(seq![' ']));
    assert(((seq![c] + more) + x)[0] == c);
    lemma_num_member(seq![' '], key, n, (seq![c] + more) + x);
    assert(all_ws(Seq::<char>::empty()));
    lemma_then_piece(Seq::<char>::empty(), c, more, x);
    assert(Seq::<char>::empty() + (seq![c] + more) =~= seq![c] + more);
}

/// One serialized remark, after whitespace `w`, reads back as its fields.
pub proof fn lemma_read_remark(w: Seq<char>, r: Remark, rest: Seq<char>)
    requires
        all_ws(w),
    ensures
        read_remark(w + (remark_item(r) + rest)) == Some((fields_of(r), rest)),
{
    lemma_item_nested(r, rest);
    let sp = seq![' '];
    let cs = seq![',', ' '];
    let e = Seq::<char>::empty();
    assert(all_ws(e));
    assert(cs =~= e + (seq![','] + sp));
    let t7 = seq![' ', '}'] + rest;
    assert(t7 =~= (sp + (seq!['}'] + e)) + rest);
    assert(all_ws(sp));
    lemma_str_then("field_mode"@, r.field_mode@, sp, '}', e, rest);
    assert(e + rest =~= rest);
    let t6 = cs + (member("field_mode"@, quoted(r.field_mode@)) + t7);
    assert(t6 =~= (e + (seq![','] + sp)) + (member("field_mode"@, quoted(r.field_mode@)) + t7));
    lemma_str_then("render_mode"@, r.render_mode@, e, ',', sp, member("field_mode"@, quoted(r.field_mode@)) + t7);
    let t5 = cs + (member("render_mode"@, quoted(r.render_mode@)) + t6);
    assert(t5 =~= (e + (seq![','] + sp)) + (member("render_mode"@, quoted(r.render_mode@)) + t6));
    lemma_str_then("preset"@, r.preset@, e, ',', sp, member("render_mode"@, quoted(r.render_mode@)) + t6);
    let t4 = cs + (member("preset"@, quoted(r.preset@)) + t5);
    assert(t4 =~= (seq![','] + sp) + (member("preset"@, quoted(r.preset@)) + t5));
    lemma_num_then("unix_ms"@, r.unix_ms as nat, ',', sp, member("preset"@, quoted(r.preset@)) + t5);
    let t3 = cs + (member("unix_ms"@, decimal(r.unix_ms as nat)) + t4);
    assert(t3 =~= (e + (seq![','] + sp)) + (member("unix_ms"@, decimal(r.unix_ms as nat)) + t4));
    lemma_str_then("note"@, r.note@, e, ',', sp, member("unix_ms"@, decimal(r.unix_ms as nat)) + t4);
    let t2 = cs + (member("note"@, quoted(r.note@)) + t3);
    assert(t2 =~= (e + (seq![','] + sp)) + (member("note"@, quoted(r.note@)) + t3));
    lemma_str_then("value"@, r.value@, e, ',', sp, member("note"@, quoted(r.note@)) + t3);
    let t1 = cs + (member("value"@, quoted(r.value@)) + t2);
    assert(t1 =~= (e + (seq![','] + sp)) + (member("value"@, quoted(r.value@)) + t2));
    lemma_str_then("object_id"@, r.object_id@, e, ',', sp, member("value"@, quoted(r.value@)) + t2);
    let t0 = member("object_id"@, quoted(r.object_id@)) + t1;
    assert(item_nested(r, rest) == seq![' ', ' ', ' ', ' ', '{', ' '] + t0);
    let sp4 = seq![' ', ' ', ' ', ' '];
    assert(all_ws(w + sp4)) by {
        assert forall|i: int| 0 <= i < (w + sp4).len() implies is_json_ws(#[trigger] (w + sp4)[i]) by {
            if i < w.len() {
                assert((w + sp4)[i] == w[i]);
            }
        }
    }
    assert(w + (seq![' ', ' ', ' ', ' ', '{', ' '] + t0) =~= (w + sp4) + (seq!['{'] + (sp + t0)));
    lemma_then(w + sp4, '{', sp + t0);
}


/// The remark objects, split into the first and the rest.
proof fn lemma_items_front(rs: Seq<Remark>)
    requires
        rs.len() >= 2,
    ensures
        remark_items(rs) == remark_item(rs[0]) + (seq![',', '\n'] + remark_items(rs.drop_first())),
    decreases rs.len(),
{
    let sep = seq![',', '\n'];
    let tl = rs.drop_first();
    if rs.len() == 2 {
        assert(rs.drop_last().len() == 1);
        assert(remark_items(rs.drop_last()) == remark_item(rs[0]));
        assert(tl.len() == 1);
        assert(remark_items(tl) == remark_item(rs[1]));
        assert(remark_items(rs) =~= remark_item(rs[0]) + (sep + remark_items(tl)));
    } else {
        let dl = rs.drop_last();
        lemma_items_front(dl);
        assert(dl.drop_first() =~= tl.drop_last());
        assert(dl[0] == rs[0]);
        assert(tl.last() == rs.last());
        assert(remark_items(tl) == remark_items(tl.drop_last()) + (sep + remark_item(tl.last())));
        assert(remark_items(rs) =~= remark_item(rs[0]) + (sep + remark_items(tl)));
    }
}

/// The array's items, after a line break, read back as the remarks' fields,
/// up to and including the closing bracket.
proof fn lemma_read_elements(rs: Seq<Remark>, r2: Seq<char>)
    requires
        rs.len() >= 1,
    ensures
        read_elements(seq!['\n'] + (remark_items(rs) + (seq!['\n', ' ', ' ', ']'] + r2)), rs.len())
            == Some((fields_seq(rs), r2)),
    decreases rs.len(),
{
    let nl = seq!['\n'];
    let close = seq!['\n', ' ', ' ', ']'];
    let ws3 = seq!['\n', ' ', ' '];
    assert(all_ws(nl));
    assert(all_ws(ws3));
    let e = Seq::<char>::empty();
    assert(all_ws(e));
    if rs.len() == 1 {
        let x = close + r2;
        assert(remark_items(rs) == remark_item(rs[0]));
        lemma_read_remark(nl, rs[0], x);
        assert(x =~= ws3 + (seq![']'] + r2));
        lemma_then(ws3, ']', r2);
        assert(fields_seq(rs) =~= seq![fields_of(rs[0])]);
    } else {
        let tl = rs.drop_first();
        lemma_items_front(rs);
        let inner = nl + (remark_items(tl) + (close + r2));
        let x = seq![',', '\n'] + (remark_items(tl) + (close + r2));
        assert(remark_items(rs) + (close + r2) =~= remark_item(rs[0]) + x);
        lemma_read_remark(nl, rs[0], x);
        assert(x =~= e + (seq![','] + inner));
        lemma_then(e, ',', inner);
        lemma_read_elements(tl, r2);
        assert(fields_seq(rs) =~= seq![fields_of(rs[0])] + fields_seq(tl));
    }
}


/// The separator between the document's members is read as a comma.
proof fn lemma_doc_sep(next: Seq<char>)
    ensures
        then(doc_sep() + next, ',') == Some(seq!['\n', ' ', ' '] + next),
{
    let e = Seq::<char>::empty();
    assert(all_ws(e));
    assert(doc_sep() + next =~= e + (seq![','] + (seq!['\n', ' ', ' '] + next)));
    lemma_then(e, ',', seq!['\n', ' ', ' '] + next);
}

/// The array member's value, after the key's colon, reads back as the
/// remarks' fields; `rest` is what follows the closing bracket.
proof fn lemma_read_array(rs: Seq<Remark>, rest: Seq<char>)
    ensures
        read_array(seq![' '] + (remark_array(rs) + rest), rs.len()) == Some((fields_seq(rs), rest)),
{
    let sp = seq![' '];
    let nl = seq!['\n'];
    let close = seq!['\n', ' ', ' ', ']'];
    let inner = nl + (remark_items(rs) + (close + rest));
    assert(all_ws(sp));
    assert(sp + (remark_array(rs) + rest) =~= sp + (seq!['['] + inner));
    lemma_then(sp, '[', inner);
    if rs.len() == 0 {
        let ws4 = seq!['\n', '\n', ' ', ' '];
        assert(all_ws(ws4));
        assert(remark_items(rs) == Seq::<char>::empty());
        assert(inner =~= ws4 + (seq![']'] + rest));
        lemma_then(ws4, ']', rest);
        assert(fields_seq(rs) =~= Seq::<RemarkFields>::empty());
    } else {
        lemma_read_elements(rs, rest);
    }
}

/// What reading a remark-log document should give: the fixed schema and
/// app names, the time stamp, the count, and each remark's fields in order.
pub open spec fn remark_log(rs: Seq<Remark>, now_ms: nat) -> RemarkLog {
    RemarkLog {
        schema: "hopf-sta-viz/ui-remarks@1"@,
        app: "hopf-sta-viz"@,
        generated_unix_ms: now_ms,
        count: rs.len(),
        remarks: fields_seq(rs),
    }
}

/// The remark-log document parses back as JSON to its schema, app, time
/// stamp, count, and the seven fields of every remark, in order.
pub proof fn lemma_read_document(rs: Seq<Remark>, now_ms: nat)
    ensures
        read_document(remarks_document(rs, now_ms)) == Some(remark_log(rs, now_ms)),
        remark_log(rs, now_ms).schema == "hopf-sta-viz/ui-remarks@1"@,
        remark_log(rs, now_ms).app == "hopf-sta-viz"@,
        remark_log(rs, now_ms).generated_unix_ms == now_ms,
        remark_log(rs, now_ms).count == rs.len(),
        remark_log(rs, now_ms).remarks.len() == rs.len(),
        forall|i: int| 0 <= i < rs.len() ==> #[trigger] remark_log(rs, now_ms).remarks[i] == fields_of(rs[i]),
{
    let ps = document_pieces(rs, now_ms);
    let e = Seq::<char>::empty();
    let ws3 = seq!['\n', ' ', ' '];
    let nl = seq!['\n'];
    assert(all_ws(e));
    assert(all_ws(ws3));
    assert(all_ws(nl));
    let t0 = flatten(ps.skip(0)) + e;
    let t1 = flatten(ps.skip(1)) + e;
    let t2 = flatten(ps.skip(2)) + e;
    let t3 = flatten(ps.skip(3)) + e;
    let t4 = flatten(ps.skip(4)) + e;
    let t5 = flatten(ps.skip(5)) + e;
    let t6 = flatten(ps.skip(6)) + e;
    let t7 = flatten(ps.skip(7)) + e;
    let t8 = flatten(ps.skip(8)) + e;
    let t9 = flatten(ps.skip(9)) + e;
    let t10 = flatten(ps.skip(10)) + e;
    let t11 = flatten(ps.skip(11)) + e;
    lemma_pieces_split(ps, 0, e);
    lemma_pieces_split(ps, 1, e);
    lemma_pieces_split(ps, 2, e);
    lemma_pieces_split(ps, 3, e);
    lemma_pieces_split(ps, 4, e);
    lemma_pieces_split(ps, 5, e);
    lemma_pieces_split(ps, 6, e);
    lemma_pieces_split(ps, 7, e);
    lemma_pieces_split(ps, 8, e);
    lemma_pieces_split(ps, 9, e);
    lemma_pieces_split(ps, 10, e);
    assert(ps.skip(0) =~= ps);
    assert(ps.skip(11) =~= Seq::<Seq<char>>::empty());
    assert(t11 =~= e);
    assert(t0 =~= remarks_document(rs, now_ms));
    // The opening brace.
    assert(t0 =~= e + (seq!['{'] + (ws3 + t1)));
    lemma_then(e, '{', ws3 + t1);
    // schema, app
    lemma_str_member(ws3, "schema"@, "hopf-sta-viz/ui-remarks@1"@, t2);
    lemma_doc_sep(t3);
    lemma_str_member(ws3, "app"@, "hopf-sta-viz"@, t4);
    lemma_doc_sep(t5);
    // generated_unix_ms, count
    assert(t6[0] == ',');
    lemma_num_member(ws3, "generated_unix_ms"@, now_ms, t6);
    lemma_doc_sep(t7);
    assert(t8[0] == ',');
    lemma_num_member(ws3, "count"@, rs.len(), t8);
    lemma_doc_sep(t9);
    // remarks
    lemma_member_key(ws3, "remarks"@, remark_array(rs), t10);
    lemma_read_array(rs, t10);
    // The closing brace and the final line break.
    assert(t10 =~= nl + (seq!['}'] + nl));
    lemma_then(nl, '}', nl);
    lemma_skip_ws(nl, e);
    assert(nl + e =~= nl);
}

} // verus!
