use hopf_sta_viz::json::{json_escape, push_decimal};
use hopf_sta_viz::preset::{FieldMode, Preset, RenderMode};
use hopf_sta_viz::remarks::{remarks_json, HelpLog, PopupClick, Remark};

#[test]
fn escape_specials() {
    assert_eq!(json_escape("plain text"), "plain text");
    assert_eq!(json_escape("a\"b"), "a\\\"b");
    assert_eq!(json_escape("back\\slash"), "back\\\\slash");
    assert_eq!(json_escape("l1\nl2\r\tx"), "l1\\nl2\\r\\tx");
    assert_eq!(json_escape("\u{1}\u{1f}"), "\\u0001\\u001f");
    assert_eq!(json_escape("Rañada · ok"), "Rañada · ok");
    assert_eq!(json_escape(""), "");
}

#[test]
fn escape_is_per_character() {
    let a = "x\"\n";
    let b = "\u{7}y\\";
    assert_eq!(json_escape(&format!("{a}{b}")), format!("{}{}", json_escape(a), json_escape(b)));
    for c in json_escape("\u{0}\u{8}\u{1b} \"").chars() {
        assert!(c as u32 >= 0x20);
    }
}

#[test]
fn decimal_text() {
    let mut s = String::from("n=");
    push_decimal(&mut s, 0);
    assert_eq!(s, "n=0");
    let mut s = String::new();
    push_decimal(&mut s, 1_700_000_000_123);
    assert_eq!(s, "1700000000123");
    let mut s = String::new();
    push_decimal(&mut s, u128::MAX);
    assert_eq!(s, u128::MAX.to_string());
}

fn remark(id: &str, note: &str, ms: u128) -> Remark {
    Remark {
        object_id: id.to_string(),
        value: "1.5".to_string(),
        note: note.to_string(),
        unix_ms: ms,
        preset: "Hopfion".to_string(),
        render_mode: "Fdtd".to_string(),
        field_mode: "Both".to_string(),
    }
}

#[test]
fn remark_log_document() {
    let empty = remarks_json(&Vec::new(), 5);
    assert_eq!(
        empty,
        "{\n  \"schema\": \"hopf-sta-viz/ui-remarks@1\",\n  \"app\": \"hopf-sta-viz\",\n  \"generated_unix_ms\": 5,\n  \"count\": 0,\n  \"remarks\": [\n\n  ]\n}\n"
    );
    let rs = vec![remark("sim.play", "too \"dim\"", 10), remark("fdtd.dt", "ok", 11)];
    let doc = remarks_json(&rs, 12);
    let expected = "{\n  \"schema\": \"hopf-sta-viz/ui-remarks@1\",\n  \"app\": \"hopf-sta-viz\",\n  \"generated_unix_ms\": 12,\n  \"count\": 2,\n  \"remarks\": [\n    { \"object_id\": \"sim.play\", \"value\": \"1.5\", \"note\": \"too \\\"dim\\\"\", \"unix_ms\": 10, \"preset\": \"Hopfion\", \"render_mode\": \"Fdtd\", \"field_mode\": \"Both\" },\n    { \"object_id\": \"fdtd.dt\", \"value\": \"1.5\", \"note\": \"ok\", \"unix_ms\": 11, \"preset\": \"Hopfion\", \"render_mode\": \"Fdtd\", \"field_mode\": \"Both\" }\n  ]\n}\n";
    assert_eq!(doc, expected);
}

#[test]
fn remark_default_is_empty() {
    let r = Remark::default();
    assert!(r.object_id.is_empty() && r.note.is_empty() && r.unix_ms == 0);
    let h = HelpLog::default();
    assert!(h.open_id.is_none() && h.remarks.is_empty() && !h.flush_requested);
}

#[test]
fn help_log_submit_trims_and_logs() {
    let mut h = HelpLog::default();
    h.open("fdtd.dt", "Time step.", "0.45".to_string());
    assert_eq!(h.open_id.as_deref(), Some("fdtd.dt"));
    assert_eq!(h.open_help, "Time step.");
    h.draft = "  \t too fast here \n".to_string();
    let logged = h.submit(1234, Preset::Trefoil, RenderMode::Fdtd, FieldMode::Poynting);
    assert!(logged);
    assert!(h.open_id.is_none());
    assert!(h.draft.is_empty());
    assert_eq!(h.remarks.len(), 1);
    let r = &h.remarks[0];
    assert_eq!(r.object_id, "fdtd.dt");
    assert_eq!(r.value, "0.45");
    assert_eq!(r.note, "too fast here");
    assert_eq!(r.unix_ms, 1234);
    assert_eq!(r.preset, "Trefoil");
    assert_eq!(r.render_mode, "Fdtd");
    assert_eq!(r.field_mode, "Poynting");
    assert!(h.take_flush());
    assert!(!h.take_flush());
}

#[test]
fn help_log_blank_draft_logs_nothing() {
    let mut h = HelpLog::default();
    h.open("sim.play", "Run or pause.", "true".to_string());
    h.draft = " \u{3000}\n\t".to_string();
    assert!(!h.submit(1, Preset::Hopfion, RenderMode::Lines, FieldMode::E));
    assert!(h.remarks.is_empty());
    assert!(h.open_id.is_none());
    assert!(!h.take_flush());
    // With the popup closed, submitting does nothing.
    h.draft = "note".to_string();
    assert!(!h.submit(2, Preset::Hopfion, RenderMode::Lines, FieldMode::E));
    assert!(h.remarks.is_empty());
}

#[test]
fn help_log_close_keeps_draft() {
    let mut h = HelpLog::default();
    h.open("a", "b", "c".to_string());
    h.draft = "half-written".to_string();
    h.close();
    assert!(h.open_id.is_none());
    assert_eq!(h.draft, "half-written");
    h.open("a", "b", "c".to_string());
    assert!(h.draft.is_empty());
}

/// Decodes the body of a JSON string literal (no surrounding quotes).
fn decode_json_body(t: &str) -> String {
    let mut out = String::new();
    let mut it = t.chars();
    while let Some(c) = it.next() {
        if c != '\\' {
            out.push(c);
            continue;
        }
        match it.next().unwrap() {
            '"' => out.push('"'),
            '\\' => out.push('\\'),
            '/' => out.push('/'),
            'n' => out.push('\n'),
            'r' => out.push('\r'),
            't' => out.push('\t'),
            'b' => out.push('\u{8}'),
            'f' => out.push('\u{c}'),
            'u' => {
                let hex: String = (0..4).map(|_| it.next().unwrap()).collect();
                out.push(char::from_u32(u32::from_str_radix(&hex, 16).unwrap()).unwrap());
            }
            other => panic!("bad escape {other}"),
        }
    }
    out
}

#[test]
fn escape_decodes_back() {
    for s in ["plain", "a\"b\\c", "l1\nl2\r\tx", "\u{0}\u{8}\u{c}\u{1b}\u{1f}", "Rañada · ok", ""] {
        let o = json_escape(s);
        assert!(o.chars().all(|c| (c as u32) >= 0x20));
        assert_eq!(decode_json_body(&o), s);
    }
}

#[test]
fn trim_removes_unicode_white_space() {
    let mut h = HelpLog::default();
    h.open("x", "y", "1".to_string());
    h.draft = "\u{3000}\u{a0} a\u{2003}b \u{85}\r\n".to_string();
    assert!(h.submit(5, Preset::Hopfion, RenderMode::Lines, FieldMode::E));
    assert_eq!(h.remarks[0].note, "a\u{2003}b");
}

#[test]
fn end_frame_writes_when_a_remark_is_added() {
    let mut h = HelpLog::default();
    // Nothing open, nothing pending: no write.
    assert!(!h.end_frame(PopupClick::Idle, 1, Preset::Hopfion, RenderMode::Lines, FieldMode::E));
    // Logging a remark asks for exactly one write.
    h.open("sim.speed", "Speed.", "1.0".to_string());
    h.draft = " slow ".to_string();
    assert!(h.end_frame(PopupClick::Log, 7, Preset::Trefoil, RenderMode::Fdtd, FieldMode::B));
    assert_eq!(h.remarks.len(), 1);
    assert_eq!(h.remarks[0].note, "slow");
    assert!(h.open_id.is_none() && !h.flush_requested);
    assert!(!h.end_frame(PopupClick::Idle, 8, Preset::Trefoil, RenderMode::Fdtd, FieldMode::B));
    // A blank draft or a close logs nothing and writes nothing.
    h.open("sim.speed", "Speed.", "1.0".to_string());
    h.draft = "   ".to_string();
    assert!(!h.end_frame(PopupClick::Log, 9, Preset::Trefoil, RenderMode::Fdtd, FieldMode::B));
    h.open("sim.speed", "Speed.", "1.0".to_string());
    h.draft = "kept".to_string();
    assert!(!h.end_frame(PopupClick::Close, 10, Preset::Trefoil, RenderMode::Fdtd, FieldMode::B));
    assert_eq!(h.draft, "kept");
    assert_eq!(h.remarks.len(), 1);
    // A pending flush is written even when nothing else happens.
    h.flush_requested = true;
    assert!(h.end_frame(PopupClick::Idle, 11, Preset::Trefoil, RenderMode::Fdtd, FieldMode::B));
    assert!(!h.flush_requested);
}

#[test]
fn note_write_keeps_last_path_on_failure() {
    let mut h = HelpLog::default();
    h.note_write(None);
    assert!(h.last_log_path.is_none());
    h.note_write(Some("/tmp/ui-remarks.json".to_string()));
    assert_eq!(h.last_log_path.as_deref(), Some("/tmp/ui-remarks.json"));
    h.note_write(None);
    assert_eq!(h.last_log_path.as_deref(), Some("/tmp/ui-remarks.json"));
}
