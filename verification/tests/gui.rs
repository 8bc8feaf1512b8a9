//! The GUI client: its keys, its window, its connections and its settings.
use asd::gui::app::{App, AppCmd, Effect, Keyboard, Message, Status, MAX_SCROLL};
use asd::gui::conn::{Action, ConnEvent, Connection, HostCmd, UiEvent};
use asd::gui::key::{map_ime_char, map_key, Key, Modifiers, Named};
use asd::gui::model::{Host, HostKind, HostState, Model, RemoteSpec, LOCAL_ID};
use asd::gui::render::{
    abs_row, extract_selection_text, paint, viewport_row, GuiSelection, Ink, Op,
};
use asd::gui::route::{Delivery, Switchboard};
use asd::gui::settings::{
    config_path, connection_form, connections_page, parse_port, AuthKind, ConnectionsBody,
    SettingsConfig, SettingsMsg, SettingsPage, Slot, SshAuth, SshConnection, SshForm,
};
use asd::gui::theme::rail;
use asd::gui::view::{
    brand_tag, host_head, host_label, session_row, sidebar_foot, size_text, terminal_pane, Dot,
    Pane,
};
use asd::gui::vt::{
    CellSnapshot, CellWidth, Cursor, Key as VtKey, KeyEvent, Mods, RenderSnapshot, Rgb, StyleFlags,
    UnderlineKind,
};
use asd::gui::window::{
    Message as WindowMessage, Request as WindowRequest, Status as WindowStatus, Window, WorkerEvent,
};
use asd::proto::code::{NO_SUCH_SESSION, SESSION_EXITED};
use asd::proto::{AgentState, ClientKind, Frame, SessionInfo, TerminalAppearance, PROTO_VERSION};

#[test]
fn character_maps_with_text() {
    let ev = map_key(&Key::Character("a".into()), Modifiers::empty()).unwrap();
    assert_eq!(ev.key, VtKey::Char('a'));
    assert_eq!(ev.text.as_deref(), Some("a"));
    assert!(!ev.mods.ctrl);
}

#[test]
fn ctrl_modifier_is_carried() {
    let ctrl = Modifiers {
        control: true,
        ..Modifiers::empty()
    };
    let ev = map_key(&Key::Character("c".into()), ctrl).unwrap();
    assert_eq!(ev.key, VtKey::Char('c'));
    assert!(ev.mods.ctrl);
}

#[test]
fn named_keys_map() {
    assert_eq!(
        map_key(&Key::Named(Named::Enter), Modifiers::empty())
            .unwrap()
            .key,
        VtKey::Enter
    );
    assert_eq!(
        map_key(&Key::Named(Named::ArrowUp), Modifiers::empty())
            .unwrap()
            .key,
        VtKey::ArrowUp
    );
    assert_eq!(
        map_key(&Key::Named(Named::F5), Modifiers::empty())
            .unwrap()
            .key,
        VtKey::F(5)
    );
}

#[test]
fn unidentified_is_ignored() {
    assert!(map_key(&Key::Unidentified, Modifiers::empty()).is_none());
}

#[test]
fn only_the_space_bar_types_among_the_named_keys() {
    let space = map_key(&Key::Named(Named::Space), Modifiers::empty()).unwrap();
    assert_eq!(space.key, VtKey::Char(' '));
    assert_eq!(space.text.as_deref(), Some(" "));
    let tab = map_key(&Key::Named(Named::Tab), Modifiers::empty()).unwrap();
    assert_eq!(tab.text, None);
    assert!(map_key(&Key::Named(Named::Other), Modifiers::empty()).is_none());
    assert!(map_key(&Key::Character(String::new()), Modifiers::empty()).is_none());
}

#[test]
fn composed_characters_are_typed_and_control_codes_are_not() {
    let ev = map_ime_char('中', Modifiers::empty()).unwrap();
    assert_eq!(ev.key, VtKey::Char('中'));
    assert_eq!(ev.text.as_deref(), Some("中"));
    for c in ['\u{0}', '\n', '\u{1f}', '\u{7f}', '\u{9f}'] {
        assert!(map_ime_char(c, Modifiers::empty()).is_none(), "{c:?}");
    }
    assert!(map_ime_char('\u{a0}', Modifiers::empty()).is_some());
}

/// A cell with a glyph in it.
fn cell(glyph: &str) -> CellSnapshot {
    CellSnapshot {
        grapheme: glyph.to_string(),
        width: CellWidth::Narrow,
        fg: None,
        bg: None,
        flags: StyleFlags {
            bold: false,
            italic: false,
            faint: false,
            inverse: false,
            invisible: false,
            strikethrough: false,
            overline: false,
            underline: UnderlineKind::Absent,
        },
    }
}

const FG: Rgb = Rgb {
    r: 200,
    g: 201,
    b: 202,
};
const BG: Rgb = Rgb { r: 1, g: 2, b: 3 };

/// A screen whose rows show these texts, a blank being an empty cell.
fn snap(rows: &[&str]) -> RenderSnapshot {
    let cols = rows.iter().map(|r| r.chars().count()).max().unwrap_or(0);
    let cells = rows
        .iter()
        .map(|row| {
            let mut line: Vec<CellSnapshot> = row
                .chars()
                .map(|c| {
                    if c == ' ' {
                        cell("")
                    } else {
                        cell(&c.to_string())
                    }
                })
                .collect();
            line.resize(cols, cell(""));
            line
        })
        .collect();
    RenderSnapshot {
        cols: cols as u16,
        rows: rows.len() as u16,
        foreground: FG,
        background: BG,
        cells,
        cursor: Cursor {
            visible: false,
            position: None,
        },
    }
}

fn select(anchor: (u16, usize), head: (u16, usize)) -> GuiSelection {
    GuiSelection { anchor, head }
}

#[test]
fn a_selection_copies_its_cells_line_by_line() {
    let s = snap(&["hello  ", "  world", "again"]);
    assert_eq!(
        extract_selection_text(&s, select((1, 0), (3, 0)), 0),
        "ell"
    );
    // The ends may come in either order.
    assert_eq!(
        extract_selection_text(&s, select((4, 1), (2, 0)), 0),
        "llo\n  wor"
    );
    // A line loses the blanks at its end, not the ones at its start.
    assert_eq!(
        extract_selection_text(&s, select((0, 0), (6, 2)), 0),
        "hello\n  world\nagain"
    );
}

#[test]
fn a_selection_follows_the_text_and_is_cut_at_the_view() {
    let s = snap(&["one", "two", "six"]);
    let sel = select((0, 10), (2, 12));
    // The viewport's top is row 11: the first line has scrolled out.
    assert_eq!(extract_selection_text(&s, sel, 11), "one\ntwo");
    assert_eq!(extract_selection_text(&s, sel, 10), "one\ntwo\nsix");
    assert_eq!(extract_selection_text(&s, sel, 8), "six");
    assert_eq!(extract_selection_text(&s, sel, 13), "", "all above");
    assert_eq!(extract_selection_text(&s, sel, 3), "", "all below");
}

#[test]
fn a_selection_has_no_direction_and_no_blank_ends() {
    let s = snap(&["one  ", "     ", "six  "]);
    let cells: Vec<(u16, usize)> = (8..14).flat_map(|y| [(0, y), (2, y), (4, y)]).collect();
    for p in &cells {
        for q in &cells {
            let text = extract_selection_text(&s, select(*p, *q), 10);
            assert_eq!(text, extract_selection_text(&s, select(*q, *p), 10));
            assert!(text.split('\n').all(|line| !line.ends_with(' ')), "{text:?}");
            assert!(text.split('\n').count() <= 3, "{text:?}");
        }
    }
}

#[test]
fn the_second_half_of_a_wide_cell_adds_nothing() {
    let mut s = snap(&["ab."]);
    s.cells[0][0] = CellSnapshot {
        width: CellWidth::Wide,
        ..cell("中")
    };
    s.cells[0][1] = CellSnapshot {
        width: CellWidth::SpacerTail,
        ..cell("")
    };
    assert_eq!(extract_selection_text(&s, select((0, 0), (2, 0)), 0), "中.");
}

#[test]
fn rows_go_to_the_scrollback_and_back() {
    assert_eq!(abs_row(40, 2), 42);
    assert_eq!(viewport_row(42, 40, 24), Some(2));
    assert_eq!(viewport_row(39, 40, 24), None);
    assert_eq!(viewport_row(64, 40, 24), None);
}

/// A glyph of the default look.
fn glyph(x: usize, text: &str, color: Rgb, faint: bool) -> Op {
    Op::Glyph {
        x,
        y: 0,
        text: text.to_string(),
        ink: Ink { color, faint },
        wide: false,
        bold: false,
        italic: false,
    }
}

#[test]
fn a_screen_is_painted_cell_by_cell() {
    let mut s = snap(&["a b"]);
    s.cells[0][2].bg = Some(Rgb { r: 9, g: 9, b: 9 });
    s.cells[0][2].flags.faint = true;
    assert_eq!(
        paint(&s, None, 0),
        vec![
            Op::Clear { color: BG },
            glyph(0, "a", FG, false),
            Op::Fill {
                x: 2,
                y: 0,
                span: 1,
                color: Rgb { r: 9, g: 9, b: 9 }
            },
            Op::Fill {
                x: 2,
                y: 0,
                span: 1,
                color: Rgb { r: 9, g: 9, b: 9 }
            },
            glyph(2, "b", FG, true),
        ]
    );
}

#[test]
fn a_selected_cell_is_inverted() {
    let s = snap(&["ab"]);
    let ops = paint(&s, Some(select((1, 5), (1, 5))), 5);
    assert_eq!(
        ops,
        vec![
            Op::Clear { color: BG },
            glyph(0, "a", FG, false),
            Op::Fill {
                x: 1,
                y: 0,
                span: 1,
                color: FG
            },
            glyph(1, "b", BG, false),
        ]
    );
    // With the view elsewhere the same cell is not selected.
    assert_eq!(paint(&s, Some(select((1, 5), (1, 5))), 4).len(), 3);
}

#[test]
fn inverse_invisible_and_lined_cells() {
    let mut s = snap(&["x"]);
    s.cells[0][0].flags.inverse = true;
    s.cells[0][0].flags.invisible = true;
    s.cells[0][0].flags.underline = UnderlineKind::Double;
    s.cells[0][0].flags.strikethrough = true;
    let ink = Ink {
        color: BG,
        faint: false,
    };
    assert_eq!(
        paint(&s, None, 0),
        vec![
            Op::Clear { color: BG },
            Op::Fill {
                x: 0,
                y: 0,
                span: 1,
                color: FG
            },
            Op::Underline {
                x: 0,
                y: 0,
                span: 1,
                double: true,
                ink
            },
            Op::Strike {
                x: 0,
                y: 0,
                span: 1,
                ink
            },
        ]
    );
}

#[test]
fn the_cursor_is_a_block_with_its_glyph_on_it() {
    let mut s = snap(&["ab"]);
    s.cursor = Cursor {
        visible: true,
        position: Some((1, 0)),
    };
    let ops = paint(&s, None, 0);
    assert_eq!(
        ops[ops.len() - 2..],
        [
            Op::Fill {
                x: 1,
                y: 0,
                span: 1,
                color: FG
            },
            glyph(1, "b", BG, false)
        ]
    );
    s.cursor.visible = false;
    assert_eq!(paint(&s, None, 0).len(), 3);
}

/// A saved connection.
fn conn(name: &str, port: u16) -> SshConnection {
    SshConnection {
        name: name.to_string(),
        host: "gpu-01".to_string(),
        user: "root".to_string(),
        port,
        auth: SshAuth::default(),
    }
}

#[test]
fn a_connection_is_labelled_by_its_address() {
    assert_eq!(conn("a", 22).label(), "root@gpu-01");
    assert_eq!(conn("a", 2222).label(), "root@gpu-01:2222");
    assert_eq!(conn("a", 22).auth.tag(), "key");
    assert_eq!(
        SshAuth::Password {
            password: "p".into()
        }
        .tag(),
        "password"
    );
    assert_eq!(config_path("/home/u/.local/share/asd"), "/home/u/.local/share/asd/config.json");
}

#[test]
fn a_port_is_a_number_from_1_to_65535() {
    assert_eq!(parse_port("1"), Some(1));
    assert_eq!(parse_port("22"), Some(22));
    assert_eq!(parse_port("+22"), Some(22));
    assert_eq!(parse_port("00022"), Some(22));
    assert_eq!(parse_port("65535"), Some(65535));
    for bad in ["", "+", "0", "+0", "000", "-1", "65536", "99999999999999", "2 2", "0x16", "２２"] {
        assert_eq!(parse_port(bad), None, "{bad:?}");
    }
}

/// A form that can be saved.
fn form() -> SshForm {
    SshForm {
        name: " My server ".into(),
        host: "gpu-01".into(),
        user: " root".into(),
        ..SshForm::default()
    }
}

#[test]
fn the_first_missing_field_is_named() {
    let reason = |f: SshForm| f.invalid_reason();
    assert_eq!(reason(form()), None);
    assert_eq!(
        reason(SshForm {
            name: "  ".into(),
            host: String::new(),
            ..form()
        }),
        Some("Name is required.")
    );
    assert_eq!(
        reason(SshForm {
            host: String::new(),
            ..form()
        }),
        Some("Host is required.")
    );
    assert_eq!(
        reason(SshForm {
            user: "\t".into(),
            ..form()
        }),
        Some("User is required.")
    );
    for port in ["many", "0", "65536"] {
        let asked = SshForm {
            port: port.into(),
            ..form()
        };
        assert_eq!(asked.into_connection(), None);
        assert_eq!(reason(asked), Some("Port must be a number (1–65535)."));
    }
    assert_eq!(
        reason(SshForm {
            auth_kind: AuthKind::Password,
            ..form()
        }),
        Some("Password is required.")
    );
    assert!(!SshForm::default().valid());
}

#[test]
fn a_form_becomes_a_connection_without_the_blanks_around_its_fields() {
    let made = form().into_connection().unwrap();
    assert_eq!(
        made,
        SshConnection {
            name: "My server".into(),
            host: "gpu-01".into(),
            user: "root".into(),
            port: 22,
            auth: SshAuth::Key {
                key_path: String::new(),
                passphrase: String::new()
            },
        }
    );
    // Opened and saved again unchanged, it stays the same.
    assert_eq!(
        SshForm::from_conn(&made, 0).into_connection(),
        Some(made)
    );
    assert_eq!(SshForm::default().into_connection(), None);
}

#[test]
fn the_form_shows_the_fields_of_its_authentication() {
    let page = connection_form(&form(), &vec![]);
    assert_eq!(page.heading, "New connection");
    assert_eq!(page.reason, None);
    let labels: Vec<&str> = page.identity.iter().map(|f| f.label).collect();
    assert_eq!(labels, ["Name", "Host", "Port", "User"]);
    let auth: Vec<Slot> = page.auth.iter().map(|f| f.slot).collect();
    assert_eq!(auth, [Slot::KeyPath, Slot::Passphrase]);

    let with_password = SshForm {
        auth_kind: AuthKind::Password,
        index: Some(0),
        ..form()
    };
    let page = connection_form(&with_password, &vec![]);
    assert_eq!(page.heading, "Edit connection");
    assert_eq!(page.reason, Some("Password is required."));
    assert_eq!(page.auth.len(), 1);
    assert!(page.auth[0].secure && page.auth[0].required);
    assert_eq!(
        page.auth[0].slot.typed("x".into()),
        SettingsMsg::FormPassword("x".into())
    );
}

#[test]
fn a_second_connection_to_the_same_host_is_refused() {
    let saved = vec![conn("old", 22)];
    assert_eq!(
        connection_form(&form(), &saved).reason,
        Some("A connection to this host already exists.")
    );
    // The one that is edited does not count against itself.
    let own = SshForm {
        index: Some(0),
        ..form()
    };
    assert_eq!(connection_form(&own, &saved).reason, None);
    let other_port = SshForm {
        port: "2222".into(),
        ..form()
    };
    assert_eq!(connection_form(&other_port, &saved).reason, None);
}

#[test]
fn the_connections_page_shows_the_form_or_the_list() {
    let none = connections_page(&vec![], &None);
    assert!(none.add);
    assert_eq!(none.body, ConnectionsBody::Empty);
    let list = connections_page(&vec![conn("a", 22), conn("b", 23)], &None);
    match list.body {
        ConnectionsBody::List(rows) => {
            assert_eq!(rows[1].name, "b");
            assert_eq!(rows[1].label, "root@gpu-01:23");
            assert_eq!(rows[1].tag, "key");
        }
        other => panic!("expected a list, got {other:?}"),
    }
    let editing = connections_page(&vec![conn("a", 22)], &Some(form()));
    assert!(!editing.add);
    assert!(matches!(editing.body, ConnectionsBody::Form(_)));
}

/// A session of the sidebar.
fn session(name: &str, clients: u32) -> SessionInfo {
    SessionInfo {
        name: name.to_string(),
        command: "bash".to_string(),
        title: String::new(),
        created_ms: 0,
        idle_ms: 0,
        running: false,
        state: AgentState::Unknown,
        attached_clients: clients,
        pid: 1,
        cols: 80,
        rows: 24,
    }
}

/// How to reach a remote.
fn remote(host: &str) -> RemoteSpec {
    RemoteSpec {
        user: "root".to_string(),
        host: host.to_string(),
        port: 22,
        auth: SshAuth::default(),
        name: format!("the {host}"),
    }
}

#[test]
fn hosts_come_and_go() {
    let mut m = Model::with_local();
    let a = m.add_remote(remote("a"));
    let b = m.add_remote(remote("b"));
    assert_eq!((a, b), (1, 2));
    assert!(m.has_remote("root", "b", 22));
    assert!(!m.has_remote("root", "b", 23));
    m.select(b, "s0".to_string());
    m.remove_host(a);
    assert!(m.is_active(b, "s0"));
    m.remove_host(b);
    assert_eq!(m.active, None, "nothing of a removed host is on view");
    assert_eq!(m.hosts.len(), 1);
    assert!(m.host(LOCAL_ID).is_some());
    assert!(m.host(b).is_none());
    assert_eq!(m.add_remote(remote("c")), 3, "ids are not used again");
}

#[test]
fn sessions_and_states_go_to_their_host() {
    let mut m = Model::with_local();
    let a = m.add_remote(remote("a"));
    m.set_sessions(a, vec![session("x", 0), session("y", 0)]);
    m.set_sessions(LOCAL_ID, vec![session("z", 0)]);
    m.set_state(a, HostState::Up);
    assert_eq!(m.total_sessions(), 3);
    assert_eq!(m.host(a).unwrap().state, HostState::Up);
    assert_eq!(m.host(LOCAL_ID).unwrap().state, HostState::Connecting);
    m.set_state(99, HostState::Up);
    m.reset_states();
    assert_eq!(m.host(a).unwrap().state, HostState::Connecting);
    assert_eq!(brand_tag(&m), "3 sessions · 2 hosts");
}

/// A window with a supervisor, and the local host's sessions listed.
fn app() -> App {
    let mut app = App::new(None, 80, 24, 0, SettingsConfig::default());
    assert_eq!(app.update(Message::Supervisor), vec![]);
    app
}

/// A window with a session on view.
fn viewing() -> App {
    let mut a = app();
    a.update(Message::Select(LOCAL_ID, "s0".into()));
    a
}

fn press(text: &str) -> Message {
    Message::Keyboard(Keyboard::Pressed {
        key: Key::Character(text.to_string()),
        modifiers: Modifiers::empty(),
        text: None,
    })
}

fn set_active(name: &str) -> Effect {
    Effect::Send(AppCmd::SetActive {
        host: LOCAL_ID,
        name: name.to_string(),
        cols: 80,
        rows: 24,
    })
}

#[test]
fn the_first_list_puts_a_session_on_view() {
    let list = |names: &[&str]| {
        Message::Ui(UiEvent::Sessions {
            host: LOCAL_ID,
            sessions: names.iter().map(|n| session(n, 0)).collect(),
        })
    };
    let mut a = app();
    assert_eq!(a.title(), "asd");
    assert_eq!(a.update(list(&[])), vec![], "nothing to show yet");
    assert_eq!(
        a.update(list(&["s0", "s1"])),
        vec![Effect::Repaint, set_active("s0")]
    );
    assert_eq!(a.title(), "asd — s0");
    assert_eq!(a.update(list(&["s1"])), vec![], "the view stays");

    let mut named = App::new(Some("s1".into()), 80, 24, 0, SettingsConfig::default());
    named.update(Message::Supervisor);
    named.update(list(&["s0", "s1"]));
    assert!(named.model.is_active(LOCAL_ID, "s1"));

    let mut missing = App::new(Some("gone".into()), 80, 24, 0, SettingsConfig::default());
    missing.update(list(&["s0", "s1"]));
    assert!(missing.model.is_active(LOCAL_ID, "s0"));
    assert_eq!(missing.preferred, None);
}

#[test]
fn selecting_the_session_on_view_changes_nothing() {
    let mut a = viewing();
    assert_eq!(a.update(Message::Select(LOCAL_ID, "s0".into())), vec![]);
    assert_eq!(
        a.update(Message::Select(LOCAL_ID, "s1".into())),
        vec![Effect::Repaint, set_active("s1")]
    );
}

#[test]
fn frames_of_another_session_are_dropped() {
    let mut a = viewing();
    let frame = |name: &str| {
        Message::Ui(UiEvent::Frame {
            host: LOCAL_ID,
            name: name.to_string(),
            snap: Box::new(snap(&["hi"])),
            session_wants_mouse: true,
            base: 7,
        })
    };
    assert_eq!(a.update(frame("s9")), vec![]);
    assert!(a.frame.is_none());
    assert_eq!(a.update(frame("s0")), vec![Effect::Repaint]);
    assert_eq!(a.frame_base, 7);
    assert!(a.session_wants_mouse);
    assert_eq!(a.status, Status::Live);
}

#[test]
fn typing_snaps_back_to_the_bottom() {
    let mut a = viewing();
    a.update(Message::MouseScroll(5));
    a.update(Message::MouseMove { col: 1, row: 1 });
    a.update(Message::MousePress);
    assert!(a.selection.is_some());
    let sent = a.update(press("x"));
    assert_eq!(sent.len(), 2);
    assert_eq!(sent[0], Effect::Send(AppCmd::Scroll(0)));
    assert!(matches!(&sent[1], Effect::Send(AppCmd::Key(k)) if k.key == VtKey::Char('x')));
    assert_eq!(a.scroll, 0);
    assert!(a.selection.is_none());
    // Without a session nothing is typed.
    assert_eq!(app().update(press("x")), vec![]);
}

#[test]
fn composed_text_is_sent_character_by_character() {
    let mut a = viewing();
    let chars = |sent: Vec<Effect>| -> String {
        sent.into_iter()
            .map(|e| match e {
                Effect::Send(AppCmd::Key(KeyEvent {
                    key: VtKey::Char(c),
                    ..
                })) => c,
                other => panic!("expected a key, got {other:?}"),
            })
            .collect()
    };
    assert_eq!(
        chars(a.update(Message::ImeCommit("中\n文".into()))),
        "中文"
    );
    let typed = Message::Keyboard(Keyboard::Pressed {
        key: Key::Unidentified,
        modifiers: Modifiers::empty(),
        text: Some("字".into()),
    });
    assert_eq!(chars(a.update(typed)), "字");
    assert_eq!(a.update(Message::Keyboard(Keyboard::Other)), vec![]);
}

#[test]
fn the_wheel_stays_within_the_scrollback() {
    let mut a = viewing();
    assert_eq!(
        a.update(Message::MouseScroll(3)),
        vec![Effect::Send(AppCmd::Scroll(3))]
    );
    assert_eq!(
        a.update(Message::MouseScroll(i32::MAX)),
        vec![Effect::Send(AppCmd::Scroll(MAX_SCROLL))]
    );
    assert_eq!(a.update(Message::MouseScroll(1)), vec![], "at the top");
    assert_eq!(
        a.update(Message::MouseScroll(-i32::MAX)),
        vec![Effect::Send(AppCmd::Scroll(0))]
    );
    assert_eq!(a.update(Message::MouseScroll(-1)), vec![], "at the bottom");
}

#[test]
fn a_drag_copies_what_it_covers() {
    let mut a = viewing();
    a.update(Message::Ui(UiEvent::Frame {
        host: LOCAL_ID,
        name: "s0".into(),
        snap: Box::new(snap(&["hello", "world"])),
        session_wants_mouse: false,
        base: 100,
    }));
    a.update(Message::MouseMove { col: 1, row: 0 });
    a.update(Message::MousePress);
    a.update(Message::MouseMove { col: 2, row: 1 });
    assert_eq!(a.selection, Some(select((1, 100), (2, 101))));
    assert_eq!(
        a.update(Message::MouseRelease),
        vec![Effect::Copy("ello\nwor".into())]
    );
    assert_eq!(a.selection, None);
    assert_eq!(a.update(Message::MouseRelease), vec![]);
}

#[test]
fn a_resize_is_passed_on_once() {
    let mut a = app();
    assert_eq!(a.update(Message::Resized { cols: 80, rows: 24 }), vec![]);
    assert_eq!(
        a.update(Message::Resized {
            cols: 100,
            rows: 30
        }),
        vec![Effect::Send(AppCmd::Resize {
            cols: 100,
            rows: 30
        })]
    );
    assert_eq!(size_text(&a), "100 × 30");
    a.update(Message::Tick(99));
    assert_eq!(a.now_ms, 99);
}

#[test]
fn a_lost_host_or_an_ended_session_is_shown() {
    let mut a = viewing();
    assert_eq!(terminal_pane(&a), Pane::Terminal);
    a.update(Message::Ui(UiEvent::SessionEnded {
        host: LOCAL_ID,
        name: "s0".into(),
        msg: "exit 0".into(),
    }));
    assert_eq!(terminal_pane(&a), Pane::Note("session ended: exit 0".into()));
    a.update(Message::Ui(UiEvent::State {
        host: 5,
        state: HostState::Down("elsewhere".into()),
    }));
    assert_eq!(a.status, Status::Ended("exit 0".into()));
    a.update(Message::Ui(UiEvent::State {
        host: LOCAL_ID,
        state: HostState::Down("gone".into()),
    }));
    assert_eq!(terminal_pane(&a), Pane::Note("connection lost: gone".into()));
    assert_eq!(
        terminal_pane(&app()),
        Pane::Note("Select a session, or connect a host to start.".into())
    );
    assert_eq!(
        sidebar_foot(&a.model),
        (false, "daemon down · click to reconnect")
    );
}

/// A window with two saved connections.
fn app_with_saved() -> App {
    let mut b = conn("b", 22);
    b.host = "gpu-02".into();
    let config = SettingsConfig {
        ssh_connections: vec![conn("a", 22), b],
    };
    let mut a = App::new(None, 80, 24, 0, config);
    a.update(Message::Supervisor);
    a
}

#[test]
fn a_saved_connection_is_connected_once() {
    let mut a = app_with_saved();
    a.update(Message::ToggleConnectMenu);
    assert!(a.connect_menu_open);
    let sent = a.update(Message::ConnectSaved(1));
    assert!(!a.connect_menu_open);
    assert!(
        matches!(&sent[..], [Effect::Send(AppCmd::AddRemote { id: 1, remote })] if remote.host == "gpu-02")
    );
    assert_eq!(a.update(Message::ConnectSaved(1)), vec![]);
    assert_eq!(a.update(Message::ConnectSaved(9)), vec![]);
    assert_eq!(a.model.hosts.len(), 2);

    // A supervisor that starts anew hears of it again, and of the view.
    a.update(Message::Select(1, "s".into()));
    a.update(Message::Reconnect);
    assert_eq!(a.generation, 1);
    let replayed = a.update(Message::Supervisor);
    assert!(matches!(
        &replayed[..],
        [
            Effect::Send(AppCmd::AddRemote { id: 1, .. }),
            Effect::Send(AppCmd::SetActive { host: 1, .. })
        ]
    ));
    assert_eq!(
        a.update(Message::RemoveHost(1)),
        vec![Effect::Send(AppCmd::RemoveHost { id: 1 })]
    );
}

#[test]
fn the_settings_panel_edits_the_saved_connections() {
    let mut a = app_with_saved();
    let say = |a: &mut App, m: SettingsMsg| a.update(Message::Settings(m));
    a.update(Message::OpenConnections);
    assert!(a.show_settings);
    assert_eq!(a.settings_page, SettingsPage::Connections);

    say(&mut a, SettingsMsg::AddConnection);
    assert_eq!(
        say(&mut a, SettingsMsg::SaveConnection),
        vec![],
        "an empty form is not saved"
    );
    assert!(a.settings_form.is_some());
    say(&mut a, SettingsMsg::FormName("c".into()));
    say(&mut a, SettingsMsg::FormHost("gpu-03".into()));
    say(&mut a, SettingsMsg::FormUser("me".into()));
    say(&mut a, SettingsMsg::FormPort("2200".into()));
    say(&mut a, SettingsMsg::FormAuthKind(AuthKind::Password));
    say(&mut a, SettingsMsg::FormPassword("pw".into()));
    assert_eq!(say(&mut a, SettingsMsg::SaveConnection), vec![Effect::Save]);
    assert_eq!(a.saved_ssh.len(), 3);
    assert_eq!(a.saved_ssh[2].label(), "me@gpu-03:2200");
    assert!(a.settings_form.is_none());

    say(&mut a, SettingsMsg::EditConnection(0));
    say(&mut a, SettingsMsg::FormKeyPath(" ~/.ssh/id ".into()));
    say(&mut a, SettingsMsg::FormPassphrase("secret".into()));
    say(&mut a, SettingsMsg::SaveConnection);
    assert_eq!(
        a.saved_ssh[0].auth,
        SshAuth::Key {
            key_path: "~/.ssh/id".into(),
            passphrase: "secret".into()
        }
    );
    assert_eq!(
        say(&mut a, SettingsMsg::DeleteConnection(0)),
        vec![Effect::Save]
    );
    assert_eq!(a.saved_ssh[0].name, "b");
    assert_eq!(say(&mut a, SettingsMsg::DeleteConnection(7)), vec![]);

    say(&mut a, SettingsMsg::EditConnection(0));
    say(&mut a, SettingsMsg::CancelEdit);
    assert!(a.settings_form.is_none());
    say(&mut a, SettingsMsg::AddConnection);
    say(&mut a, SettingsMsg::Nav(SettingsPage::General));
    assert!(a.settings_form.is_none());
    say(&mut a, SettingsMsg::AddConnection);
    a.update(Message::ToggleSettings);
    assert!(!a.show_settings && a.settings_form.is_none());
    a.update(Message::ToggleSettings);
    say(&mut a, SettingsMsg::Close);
    assert!(!a.show_settings);
}

#[test]
fn what_the_sidebar_shows() {
    let up = Host {
        id: 3,
        kind: HostKind::Ssh(remote("gpu")),
        state: HostState::Up,
        sessions: vec![session("s0", 2)],
    };
    let head = host_head(&up);
    assert_eq!((head.dot, head.right.as_str()), (Dot::Fine, "1"));
    assert!(head.removable && !head.tagged);
    assert_eq!(host_label(&up), "the gpu");
    let mut m = Model::with_local();
    m.select(3, "s0".into());
    let row = session_row(&m, &up, &up.sessions[0]);
    assert!(row.selected && row.filled);
    assert_eq!(row.peers, Some(2));
    let local = host_head(m.host(LOCAL_ID).unwrap());
    assert_eq!(
        (local.dot, local.right.as_str(), local.removable),
        (Dot::Local, "connecting", false)
    );
    m.set_state(LOCAL_ID, HostState::Up);
    assert_eq!(sidebar_foot(&m), (true, "daemon up · proto v1"));
    assert_ne!(rail(true), rail(false));
    assert_eq!(
        rail(false),
        Rgb {
            r: 0xF3,
            g: 0xB2,
            b: 0x4C
        }
    );
}

/// A connection whose handshake is behind.
fn connected() -> Connection {
    let (mut c, hello) = Connection::new(4);
    assert!(matches!(
        &hello[..],
        [Action::Write {
            frame: Frame::Hello {
                proto_version: PROTO_VERSION,
                kind: ClientKind::Gui
            },
            or_end: Some("handshake write failed")
        }]
    ));
    let up = c.step(ConnEvent::Received(Frame::HelloAck {
        proto_version: PROTO_VERSION,
        daemon_version: "1".into(),
    }));
    assert!(matches!(
        &up[..],
        [Action::Emit(UiEvent::State {
            host: 4,
            state: HostState::Up
        })]
    ));
    c
}

fn attach(c: &mut Connection, name: &str) -> Vec<Action> {
    c.step(ConnEvent::Told(HostCmd::Attach {
        name: name.to_string(),
        cols: 0,
        rows: 24,
    }))
}

fn output(c: &mut Connection) -> Vec<Action> {
    c.step(ConnEvent::Received(Frame::Output { bytes: vec![1] }))
}

fn snapshot(c: &mut Connection, byte: u8) -> Vec<Action> {
    c.step(ConnEvent::Received(Frame::Snapshot { vt: vec![byte] }))
}

#[test]
fn a_rejected_handshake_says_why() {
    let (mut c, _) = Connection::new(1);
    let end = c.step(ConnEvent::Received(Frame::Error {
        code: 1,
        msg: "too old".into(),
    }));
    assert!(
        matches!(&end[..], [Action::End(Some(r))] if r == "handshake rejected (1): too old")
    );
    let (mut c, _) = Connection::new(1);
    let end = c.step(ConnEvent::Received(Frame::Ack));
    assert!(matches!(&end[..], [Action::End(Some(r))] if r == "no handshake ack"));
    let (mut c, _) = Connection::new(1);
    let end = c.step(ConnEvent::Closed);
    assert!(matches!(&end[..], [Action::End(Some(r))] if r == "no handshake ack"));
}

#[test]
fn nothing_is_written_before_the_daemon_greets_back() {
    let (mut c, _) = Connection::new(1);
    assert!(c.step(ConnEvent::Tick).is_empty());
    assert!(attach(&mut c, "a").is_empty());
    assert!(c.step(ConnEvent::Told(HostCmd::Create)).is_empty());
    assert!(c.step(ConnEvent::Encoded(vec![13])).is_empty());
    assert!(c.step(ConnEvent::Untold).is_empty());
    assert_eq!(c.attached, None);
    assert_eq!(c.pending_attach, 0);
}

#[test]
fn a_quick_switch_shows_only_the_last_session() {
    let mut c = connected();
    let first = attach(&mut c, "a");
    assert!(matches!(
        &first[..],
        [
            Action::Open { cols: 1, rows: 24 },
            Action::Write {
                frame: Frame::Attach {
                    cols: 0,
                    view_id: 0,
                    read_only: false,
                    appearance: TerminalAppearance {
                        foreground: None,
                        background: None
                    },
                    ..
                },
                or_end: Some("attach write failed")
            }
        ]
    ));
    let second = attach(&mut c, "b");
    assert!(matches!(
        &second[0],
        Action::Write {
            frame: Frame::Detach,
            or_end: None
        }
    ));
    attach(&mut c, "a");
    assert!(output(&mut c).is_empty(), "output of a session left behind");
    assert!(snapshot(&mut c, 1).is_empty());
    assert!(snapshot(&mut c, 2).is_empty());
    let shown = snapshot(&mut c, 3);
    assert!(
        matches!(&shown[..], [Action::Feed(b), Action::Show { scroll: 0 }] if b[..] == [3])
    );
    assert!(matches!(&output(&mut c)[..], [Action::Feed(_), Action::Show { .. }]));
}

#[test]
fn an_exit_during_a_switch_does_not_end_the_new_session() {
    let mut c = connected();
    attach(&mut c, "a");
    snapshot(&mut c, 1);
    attach(&mut c, "b");
    let exited = || {
        ConnEvent::Received(Frame::Error {
            code: SESSION_EXITED,
            msg: "done".into(),
        })
    };
    assert!(c.step(exited()).is_empty());
    snapshot(&mut c, 2);
    let ended = c.step(exited());
    assert!(matches!(
        &ended[..],
        [Action::Drop, Action::Emit(UiEvent::SessionEnded { name, .. })] if name == "b"
    ));
    assert!(c.step(exited()).is_empty());
}

#[test]
fn a_refused_attach_is_not_waited_for() {
    let mut c = connected();
    attach(&mut c, "gone");
    c.step(ConnEvent::Received(Frame::Error {
        code: NO_SUCH_SESSION,
        msg: "no".into(),
    }));
    attach(&mut c, "here");
    assert_eq!(snapshot(&mut c, 1).len(), 2, "the next screen is shown");
}

#[test]
fn a_detached_connection_draws_nothing() {
    let mut c = connected();
    attach(&mut c, "a");
    let left = c.step(ConnEvent::Told(HostCmd::Detach));
    assert!(matches!(
        &left[..],
        [
            Action::Write {
                frame: Frame::Detach,
                or_end: None
            },
            Action::Drop
        ]
    ));
    assert!(snapshot(&mut c, 1).is_empty());
    let key = KeyEvent {
        key: VtKey::Enter,
        mods: Mods {
            shift: false,
            ctrl: false,
            alt: false,
            super_key: false,
        },
        text: None,
    };
    assert!(c.step(ConnEvent::Told(HostCmd::Key(key.clone()))).is_empty());
    attach(&mut c, "a");
    assert!(matches!(
        &c.step(ConnEvent::Told(HostCmd::Key(key)))[..],
        [Action::Encode(_)]
    ));
}

#[test]
fn a_frame_says_where_its_view_begins() {
    let mut c = connected();
    attach(&mut c, "a");
    assert!(matches!(
        &c.step(ConnEvent::Told(HostCmd::Scroll(30)))[..],
        [Action::Show { scroll: 30 }]
    ));
    let shown = |rows| ConnEvent::Shown {
        snap: Box::new(snap(&["x"])),
        wants_mouse: true,
        scrollback_rows: rows,
    };
    let base = |actions: Vec<Action>| match &actions[..] {
        [Action::Emit(UiEvent::Frame { base, name, .. })] if name == "a" => *base,
        other => panic!("expected a frame, got {other:?}"),
    };
    assert_eq!(base(c.step(shown(100))), 70);
    assert_eq!(base(c.step(shown(10))), 0);
}

#[test]
fn the_rest_of_what_a_connection_does() {
    let mut c = connected();
    assert!(matches!(
        &c.step(ConnEvent::Tick)[..],
        [Action::Write {
            frame: Frame::ListSessions,
            or_end: Some("list write failed")
        }]
    ));
    assert!(c.step(ConnEvent::Encoded(vec![])).is_empty());
    assert!(matches!(
        &c.step(ConnEvent::Encoded(vec![13]))[..],
        [Action::Write {
            frame: Frame::Input { .. },
            or_end: Some("input write failed")
        }]
    ));
    assert!(matches!(
        &c.step(ConnEvent::Told(HostCmd::Create))[..],
        [Action::Write {
            frame: Frame::Create {
                name: None,
                cmd: None,
                cwd: None
            },
            or_end: Some("create write failed")
        }]
    ));
    assert_eq!(
        c.step(ConnEvent::Told(HostCmd::Kill { name: "x".into() }))
            .len(),
        2
    );
    assert!(matches!(
        &c.step(ConnEvent::Received(Frame::Created { name: "n".into() }))[..],
        [
            Action::Emit(UiEvent::Created { .. }),
            Action::Write { or_end: None, .. }
        ]
    ));
    assert!(matches!(
        &c.step(ConnEvent::Received(Frame::SessionList { sessions: vec![] }))[..],
        [Action::Emit(UiEvent::Sessions { host: 4, .. })]
    ));
    assert!(c
        .step(ConnEvent::Told(HostCmd::Resize { cols: 9, rows: 9 }))
        .is_empty());
    assert!(
        matches!(&c.step(ConnEvent::Closed)[..], [Action::End(Some(r))] if r == "connection closed")
    );
    attach(&mut c, "a");
    assert_eq!(
        c.step(ConnEvent::Told(HostCmd::Resize { cols: 9, rows: 0 }))
            .len(),
        3
    );
    assert!(matches!(
        &c.step(ConnEvent::Untold)[..],
        [Action::Write { .. }, Action::End(None)]
    ));
    let mut idle = connected();
    assert!(matches!(
        &idle.step(ConnEvent::Told(HostCmd::Shutdown))[..],
        [Action::End(None)]
    ));
}

#[test]
fn commands_reach_the_host_they_are_for() {
    let mut board = Switchboard::new();
    let add = || AppCmd::AddRemote {
        id: 1,
        remote: remote("a"),
    };
    assert!(matches!(
        &board.route(add())[..],
        [Delivery::Spawn { id: 1, .. }]
    ));
    assert!(board.route(add()).is_empty(), "it is running already");
    let show = |host| AppCmd::SetActive {
        host,
        name: "s".to_string(),
        cols: 80,
        rows: 24,
    };
    let attach_to = |host| Delivery::Tell {
        host,
        cmd: HostCmd::Attach {
            name: "s".to_string(),
            cols: 80,
            rows: 24,
        },
    };
    assert!(board.route(AppCmd::Scroll(1)).is_empty(), "nothing on view");
    assert_eq!(board.route(show(LOCAL_ID)), vec![attach_to(LOCAL_ID)]);
    assert_eq!(
        board.route(show(1)),
        vec![
            Delivery::Tell {
                host: LOCAL_ID,
                cmd: HostCmd::Detach
            },
            attach_to(1)
        ]
    );
    assert_eq!(
        board.route(AppCmd::Scroll(7)),
        vec![Delivery::Tell {
            host: 1,
            cmd: HostCmd::Scroll(7)
        }]
    );
    assert_eq!(
        board.route(AppCmd::Kill {
            host: LOCAL_ID,
            name: "x".into()
        }),
        vec![Delivery::Tell {
            host: LOCAL_ID,
            cmd: HostCmd::Kill { name: "x".into() }
        }]
    );
    assert!(board.route(AppCmd::Create { host: 8 }).is_empty());
    assert_eq!(
        board.route(AppCmd::RemoveHost { id: 1 }),
        vec![Delivery::Tell {
            host: 1,
            cmd: HostCmd::Shutdown
        }]
    );
    assert_eq!(board.active, None);
    assert!(board.route(show(1)).is_empty(), "it is gone");
}

#[test]
fn a_single_window_reconnects_on_r() {
    let mut w = Window::new(80, 24);
    let press = |text: &str| WindowMessage::Pressed {
        key: Key::Character(text.to_string()),
        modifiers: Modifiers::empty(),
    };
    assert_eq!(w.update(press("x")), None, "nobody to tell yet");
    w.update(WindowMessage::Connected);
    assert!(matches!(w.update(press("r")), Some(WindowRequest::Key(_))));
    assert_eq!(
        w.update(WindowMessage::Worker(WorkerEvent::Frame(Box::new(snap(
            &["x"]
        ))))),
        Some(WindowRequest::Repaint)
    );
    assert_eq!(w.status, WindowStatus::Live);
    assert_eq!(
        w.update(WindowMessage::Resized {
            cols: 100,
            rows: 30
        }),
        Some(WindowRequest::Resize {
            cols: 100,
            rows: 30
        })
    );
    let last = WorkerEvent::Disconnected("gone".into());
    assert!(last.is_last());
    w.update(WindowMessage::Worker(last));
    assert_eq!(
        w.note().as_deref(),
        Some("[disconnected: gone]  —  press r to reconnect")
    );
    assert!(w.keeps_connection());
    assert_eq!(w.update(press("x")), None);
    assert_eq!(w.update(press("r")), Some(WindowRequest::Repaint));
    assert_eq!((w.generation, w.cols, w.rows), (1, 100, 30));
    assert_eq!(w.status, WindowStatus::Connecting);
    w.update(WindowMessage::Worker(WorkerEvent::SessionEnded(
        "exit".into(),
    )));
    assert!(!w.keeps_connection());
    assert_eq!(
        w.note().as_deref(),
        Some("[session ended: exit]  —  press r to reconnect")
    );
    assert_eq!(w.update(WindowMessage::OtherKey), None);
}
