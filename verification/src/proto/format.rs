//! The protocol's frames as bytes: which number each frame has, and which fields
//! follow it in which order.
use crate::proto::codec;
use crate::proto::frames;
use crate::proto::frames::FrameView;
use crate::proto::wire;
use crate::proto::{AgentState, ClientKind, TerminalAppearance, TerminalColor};
use vstd::prelude::*;
use vstd::utf8::*;

verus! {

/// Fields one behind the other.
pub open spec fn all(parts: Seq<Seq<u8>>) -> Seq<u8>
    decreases parts.len(),
{
    if parts.len() == 0 {
        Seq::empty()
    } else {
        all(parts.drop_last()) + parts.last()
    }
}

/// A number: seven bits to a byte, the lowest first, every byte but the last with its
/// top bit set.
pub open spec fn number(n: nat) -> Seq<u8>
    decreases n,
{
    if n < 128 {
        seq![n as u8]
    } else {
        seq![(128 + n % 128) as u8] + number(n / 128)
    }
}

/// Bytes behind their number.
pub open spec fn bytes(b: Seq<u8>) -> Seq<u8> {
    number(b.len()) + b
}

/// A text: its UTF-8 behind the number of its bytes.
pub open spec fn text(s: Seq<char>) -> Seq<u8> {
    bytes(encode_utf8(s))
}

/// Yes or no.
pub open spec fn flag(b: bool) -> Seq<u8> {
    seq![if b { 1u8 } else { 0u8 }]
}

/// A text behind a 1, or a 0 where there is none.
pub open spec fn maybe_text(s: Option<Seq<char>>) -> Seq<u8> {
    match s {
        Some(t) => seq![1u8] + text(t),
        None => seq![0u8],
    }
}

/// The number of a kind of client.
pub open spec fn kind_number(k: ClientKind) -> nat {
    match k {
        ClientKind::Gui => 0,
        ClientKind::Cli => 1,
        ClientKind::Proxy => 2,
        ClientKind::Tui => 3,
    }
}

/// A colour: red, green and blue behind a 1, or a 0 where there is none.
pub open spec fn maybe_color(c: Option<TerminalColor>) -> Seq<u8> {
    match c {
        Some(c) => seq![1u8, c.r, c.g, c.b],
        None => seq![0u8],
    }
}

proof fn lemma_number(n: nat)
    ensures
        wire::varint(n) == number(n),
    decreases n,
{
    if n >= 128 {
        lemma_number(n / 128);
    }
}

proof fn lemma_1(p0: Seq<u8>)
    ensures
        all(seq![p0]) == p0,
{
    assert(seq![p0].drop_last() =~= Seq::<Seq<u8>>::empty());
    assert(all(Seq::<Seq<u8>>::empty()) =~= Seq::<u8>::empty());
    assert(all(seq![p0]) =~= p0);
}

proof fn lemma_2(p0: Seq<u8>, p1: Seq<u8>)
    ensures
        all(seq![p0, p1]) == p0 + p1,
{
    lemma_1(p0);
    assert(seq![p0, p1].drop_last() =~= seq![p0]);
}

proof fn lemma_3(p0: Seq<u8>, p1: Seq<u8>, p2: Seq<u8>)
    ensures
        all(seq![p0, p1, p2]) == p0 + p1 + p2,
{
    lemma_2(p0, p1);
    assert(seq![p0, p1, p2].drop_last() =~= seq![p0, p1]);
}

proof fn lemma_4(p0: Seq<u8>, p1: Seq<u8>, p2: Seq<u8>, p3: Seq<u8>)
    ensures
        all(seq![p0, p1, p2, p3]) == p0 + p1 + p2 + p3,
{
    lemma_3(p0, p1, p2);
    assert(seq![p0, p1, p2, p3].drop_last() =~= seq![p0, p1, p2]);
}

proof fn lemma_5(p0: Seq<u8>, p1: Seq<u8>, p2: Seq<u8>, p3: Seq<u8>, p4: Seq<u8>)
    ensures
        all(seq![p0, p1, p2, p3, p4]) == p0 + p1 + p2 + p3 + p4,
{
    lemma_4(p0, p1, p2, p3);
    assert(seq![p0, p1, p2, p3, p4].drop_last() =~= seq![p0, p1, p2, p3]);
}

proof fn lemma_6(p0: Seq<u8>, p1: Seq<u8>, p2: Seq<u8>, p3: Seq<u8>, p4: Seq<u8>, p5: Seq<u8>)
    ensures
        all(seq![p0, p1, p2, p3, p4, p5]) == p0 + p1 + p2 + p3 + p4 + p5,
{
    lemma_5(p0, p1, p2, p3, p4);
    assert(seq![p0, p1, p2, p3, p4, p5].drop_last() =~= seq![p0, p1, p2, p3, p4]);
}

proof fn lemma_7(p0: Seq<u8>, p1: Seq<u8>, p2: Seq<u8>, p3: Seq<u8>, p4: Seq<u8>, p5: Seq<u8>, p6: Seq<u8>)
    ensures
        all(seq![p0, p1, p2, p3, p4, p5, p6]) == p0 + p1 + p2 + p3 + p4 + p5 + p6,
{
    lemma_6(p0, p1, p2, p3, p4, p5);
    assert(seq![p0, p1, p2, p3, p4, p5, p6].drop_last() =~= seq![p0, p1, p2, p3, p4, p5]);
}

proof fn lemma_numbers()
    ensures
        forall|n: nat| #[trigger] wire::varint(n) == number(n),
{
    assert forall|n: nat| #[trigger] wire::varint(n) == number(n) by {
        lemma_number(n);
    }
}

proof fn lemma_hello(proto_version: u32, kind: ClientKind)
    ensures
        codec::payload_of(FrameView::Hello { proto_version, kind }) == all(seq![number(0), number(proto_version as nat), number(kind_number(kind))]),
{
    lemma_numbers();
    lemma_3(number(0), number(proto_version as nat), number(kind_number(kind)));
    assert(codec::payload_of(FrameView::Hello { proto_version, kind }) =~= all(seq![number(0), number(proto_version as nat), number(kind_number(kind))]));
}

proof fn lemma_hello_ack(proto_version: u32, daemon_version: Seq<char>)
    ensures
        codec::payload_of(FrameView::HelloAck { proto_version, daemon_version }) == all(seq![number(1), number(proto_version as nat), text(daemon_version)]),
{
    lemma_numbers();
    lemma_3(number(1), number(proto_version as nat), text(daemon_version));
    assert(codec::payload_of(FrameView::HelloAck { proto_version, daemon_version }) =~= all(seq![number(1), number(proto_version as nat), text(daemon_version)]));
}

proof fn lemma_list_sessions()
    ensures
        codec::payload_of(FrameView::ListSessions) == all(seq![number(2)]),
{
    lemma_numbers();
    lemma_1(number(2));
    assert(codec::payload_of(FrameView::ListSessions) =~= all(seq![number(2)]));
}

proof fn lemma_create(name: Option<Seq<char>>, cmd: Option<Seq<char>>, cwd: Option<Seq<char>>)
    ensures
        codec::payload_of(FrameView::Create { name, cmd, cwd }) == all(seq![number(4), maybe_text(name), maybe_text(cmd), maybe_text(cwd)]),
{
    lemma_numbers();
    lemma_4(number(4), maybe_text(name), maybe_text(cmd), maybe_text(cwd));
    assert(codec::payload_of(FrameView::Create { name, cmd, cwd }) =~= all(seq![number(4), maybe_text(name), maybe_text(cmd), maybe_text(cwd)]));
}

proof fn lemma_created(name: Seq<char>)
    ensures
        codec::payload_of(FrameView::Created { name }) == all(seq![number(5), text(name)]),
{
    lemma_numbers();
    lemma_2(number(5), text(name));
    assert(codec::payload_of(FrameView::Created { name }) =~= all(seq![number(5), text(name)]));
}

proof fn lemma_kill(name: Seq<char>)
    ensures
        codec::payload_of(FrameView::Kill { name }) == all(seq![number(6), text(name)]),
{
    lemma_numbers();
    lemma_2(number(6), text(name));
    assert(codec::payload_of(FrameView::Kill { name }) =~= all(seq![number(6), text(name)]));
}

proof fn lemma_rename(name: Seq<char>, new_name: Seq<char>)
    ensures
        codec::payload_of(FrameView::Rename { name, new_name }) == all(seq![number(7), text(name), text(new_name)]),
{
    lemma_numbers();
    lemma_3(number(7), text(name), text(new_name));
    assert(codec::payload_of(FrameView::Rename { name, new_name }) =~= all(seq![number(7), text(name), text(new_name)]));
}

proof fn lemma_snapshot(vt: Seq<u8>)
    ensures
        codec::payload_of(FrameView::Snapshot { vt }) == all(seq![number(9), bytes(vt)]),
{
    lemma_numbers();
    lemma_2(number(9), bytes(vt));
    assert(codec::payload_of(FrameView::Snapshot { vt }) =~= all(seq![number(9), bytes(vt)]));
}

proof fn lemma_output(b: Seq<u8>)
    ensures
        codec::payload_of(FrameView::Output { bytes: b }) == all(seq![number(10), bytes(b)]),
{
    lemma_numbers();
    lemma_2(number(10), bytes(b));
    assert(codec::payload_of(FrameView::Output { bytes: b }) =~= all(seq![number(10), bytes(b)]));
}

proof fn lemma_input(b: Seq<u8>)
    ensures
        codec::payload_of(FrameView::Input { bytes: b }) == all(seq![number(11), bytes(b)]),
{
    lemma_numbers();
    lemma_2(number(11), bytes(b));
    assert(codec::payload_of(FrameView::Input { bytes: b }) =~= all(seq![number(11), bytes(b)]));
}

proof fn lemma_resize(cols: u16, rows: u16)
    ensures
        codec::payload_of(FrameView::Resize { cols, rows }) == all(seq![number(12), number(cols as nat), number(rows as nat)]),
{
    lemma_numbers();
    lemma_3(number(12), number(cols as nat), number(rows as nat));
    assert(codec::payload_of(FrameView::Resize { cols, rows }) =~= all(seq![number(12), number(cols as nat), number(rows as nat)]));
}

proof fn lemma_detach()
    ensures
        codec::payload_of(FrameView::Detach) == all(seq![number(13)]),
{
    lemma_numbers();
    lemma_1(number(13));
    assert(codec::payload_of(FrameView::Detach) =~= all(seq![number(13)]));
}

proof fn lemma_fetch_history(start: u32, count: u32)
    ensures
        codec::payload_of(FrameView::FetchHistory { start, count }) == all(seq![number(14), number(start as nat), number(count as nat)]),
{
    lemma_numbers();
    lemma_3(number(14), number(start as nat), number(count as nat));
    assert(codec::payload_of(FrameView::FetchHistory { start, count }) =~= all(seq![number(14), number(start as nat), number(count as nat)]));
}

proof fn lemma_refresh()
    ensures
        codec::payload_of(FrameView::Refresh) == all(seq![number(16)]),
{
    lemma_numbers();
    lemma_1(number(16));
    assert(codec::payload_of(FrameView::Refresh) =~= all(seq![number(16)]));
}

proof fn lemma_send_input(name: Seq<char>, b: Seq<u8>, enter: bool)
    ensures
        codec::payload_of(FrameView::SendInput { name, bytes: b, enter }) == all(seq![number(17), text(name), bytes(b), flag(enter)]),
{
    lemma_numbers();
    lemma_4(number(17), text(name), bytes(b), flag(enter));
    assert(codec::payload_of(FrameView::SendInput { name, bytes: b, enter }) =~= all(seq![number(17), text(name), bytes(b), flag(enter)]));
}

proof fn lemma_ack()
    ensures
        codec::payload_of(FrameView::Ack) == all(seq![number(18)]),
{
    lemma_numbers();
    lemma_1(number(18));
    assert(codec::payload_of(FrameView::Ack) =~= all(seq![number(18)]));
}

proof fn lemma_peek_reply(cols: u16, rows: u16, cursor_col: u16, cursor_row: u16, title: Seq<char>, screen: Seq<u8>)
    ensures
        codec::payload_of(FrameView::PeekReply { cols, rows, cursor_col, cursor_row, title, screen }) == all(seq![number(20), number(cols as nat), number(rows as nat), number(cursor_col as nat), number(cursor_row as nat), text(title), bytes(screen)]),
{
    lemma_numbers();
    lemma_7(number(20), number(cols as nat), number(rows as nat), number(cursor_col as nat), number(cursor_row as nat), text(title), bytes(screen));
    assert(codec::payload_of(FrameView::PeekReply { cols, rows, cursor_col, cursor_row, title, screen }) =~= all(seq![number(20), number(cols as nat), number(rows as nat), number(cursor_col as nat), number(cursor_row as nat), text(title), bytes(screen)]));
}

proof fn lemma_inspect(name: Seq<char>)
    ensures
        codec::payload_of(FrameView::Inspect { name }) == all(seq![number(21), text(name)]),
{
    lemma_numbers();
    lemma_2(number(21), text(name));
    assert(codec::payload_of(FrameView::Inspect { name }) =~= all(seq![number(21), text(name)]));
}

proof fn lemma_follow(name: Seq<char>)
    ensures
        codec::payload_of(FrameView::Follow { name }) == all(seq![number(23), text(name)]),
{
    lemma_numbers();
    lemma_2(number(23), text(name));
    assert(codec::payload_of(FrameView::Follow { name }) =~= all(seq![number(23), text(name)]));
}

proof fn lemma_unfollow(name: Seq<char>)
    ensures
        codec::payload_of(FrameView::Unfollow { name }) == all(seq![number(24), text(name)]),
{
    lemma_numbers();
    lemma_2(number(24), text(name));
    assert(codec::payload_of(FrameView::Unfollow { name }) =~= all(seq![number(24), text(name)]));
}

proof fn lemma_view_revoked(name: Seq<char>, view_id: u64)
    ensures
        codec::payload_of(FrameView::ViewRevoked { name, view_id }) == all(seq![number(26), text(name), number(view_id as nat)]),
{
    lemma_numbers();
    lemma_3(number(26), text(name), number(view_id as nat));
    assert(codec::payload_of(FrameView::ViewRevoked { name, view_id }) =~= all(seq![number(26), text(name), number(view_id as nat)]));
}

proof fn lemma_view_renamed(old_name: Seq<char>, new_name: Seq<char>, view_id: u64)
    ensures
        codec::payload_of(FrameView::ViewRenamed { old_name, new_name, view_id }) == all(seq![number(27), text(old_name), text(new_name), number(view_id as nat)]),
{
    lemma_numbers();
    lemma_4(number(27), text(old_name), text(new_name), number(view_id as nat));
    assert(codec::payload_of(FrameView::ViewRenamed { old_name, new_name, view_id }) =~= all(seq![number(27), text(old_name), text(new_name), number(view_id as nat)]));
}

proof fn lemma_error(code: u32, msg: Seq<char>)
    ensures
        codec::payload_of(FrameView::Error { code, msg }) == all(seq![number(28), number(code as nat), text(msg)]),
{
    lemma_numbers();
    lemma_3(number(28), number(code as nat), text(msg));
    assert(codec::payload_of(FrameView::Error { code, msg }) =~= all(seq![number(28), number(code as nat), text(msg)]));
}

proof fn lemma_host_metrics()
    ensures
        codec::payload_of(FrameView::HostMetrics) == all(seq![number(29)]),
{
    lemma_numbers();
    lemma_1(number(29));
    assert(codec::payload_of(FrameView::HostMetrics) =~= all(seq![number(29)]));
}

/// Law: every frame begins with its own number.
pub proof fn law_frames_are_numbered(v: FrameView)
    ensures
        v is Hello ==> codec::payload_of(v).len() > 0 && codec::payload_of(v)[0] == 0,
        v is HelloAck ==> codec::payload_of(v).len() > 0 && codec::payload_of(v)[0] == 1,
        v is ListSessions ==> codec::payload_of(v).len() > 0 && codec::payload_of(v)[0] == 2,
        v is SessionList ==> codec::payload_of(v).len() > 0 && codec::payload_of(v)[0] == 3,
        v is Create ==> codec::payload_of(v).len() > 0 && codec::payload_of(v)[0] == 4,
        v is Created ==> codec::payload_of(v).len() > 0 && codec::payload_of(v)[0] == 5,
        v is Kill ==> codec::payload_of(v).len() > 0 && codec::payload_of(v)[0] == 6,
        v is Rename ==> codec::payload_of(v).len() > 0 && codec::payload_of(v)[0] == 7,
        v is Attach ==> codec::payload_of(v).len() > 0 && codec::payload_of(v)[0] == 8,
        v is Snapshot ==> codec::payload_of(v).len() > 0 && codec::payload_of(v)[0] == 9,
        v is Output ==> codec::payload_of(v).len() > 0 && codec::payload_of(v)[0] == 10,
        v is Input ==> codec::payload_of(v).len() > 0 && codec::payload_of(v)[0] == 11,
        v is Resize ==> codec::payload_of(v).len() > 0 && codec::payload_of(v)[0] == 12,
        v is Detach ==> codec::payload_of(v).len() > 0 && codec::payload_of(v)[0] == 13,
        v is FetchHistory ==> codec::payload_of(v).len() > 0 && codec::payload_of(v)[0] == 14,
        v is History ==> codec::payload_of(v).len() > 0 && codec::payload_of(v)[0] == 15,
        v is Refresh ==> codec::payload_of(v).len() > 0 && codec::payload_of(v)[0] == 16,
        v is SendInput ==> codec::payload_of(v).len() > 0 && codec::payload_of(v)[0] == 17,
        v is Ack ==> codec::payload_of(v).len() > 0 && codec::payload_of(v)[0] == 18,
        v is Peek ==> codec::payload_of(v).len() > 0 && codec::payload_of(v)[0] == 19,
        v is PeekReply ==> codec::payload_of(v).len() > 0 && codec::payload_of(v)[0] == 20,
        v is Inspect ==> codec::payload_of(v).len() > 0 && codec::payload_of(v)[0] == 21,
        v is InspectReply ==> codec::payload_of(v).len() > 0 && codec::payload_of(v)[0] == 22,
        v is Follow ==> codec::payload_of(v).len() > 0 && codec::payload_of(v)[0] == 23,
        v is Unfollow ==> codec::payload_of(v).len() > 0 && codec::payload_of(v)[0] == 24,
        v is FollowStatus ==> codec::payload_of(v).len() > 0 && codec::payload_of(v)[0] == 25,
        v is ViewRevoked ==> codec::payload_of(v).len() > 0 && codec::payload_of(v)[0] == 26,
        v is ViewRenamed ==> codec::payload_of(v).len() > 0 && codec::payload_of(v)[0] == 27,
        v is Error ==> codec::payload_of(v).len() > 0 && codec::payload_of(v)[0] == 28,
        v is HostMetrics ==> codec::payload_of(v).len() > 0 && codec::payload_of(v)[0] == 29,
        v is HostMetricsReply ==> codec::payload_of(v).len() > 0 && codec::payload_of(v)[0] == 30,
{
}

/// Law: behind its number a frame has its fields, in the order the protocol gives
/// them.
pub proof fn law_frames_are_laid_out(v: FrameView)
    ensures
        match v {
            FrameView::Hello { proto_version, kind } => codec::payload_of(v) == all(
                seq![number(0), number(proto_version as nat), number(kind_number(kind))],
            ),
            FrameView::HelloAck { proto_version, daemon_version } => codec::payload_of(v) == all(
                seq![number(1), number(proto_version as nat), text(daemon_version)],
            ),
            FrameView::ListSessions => codec::payload_of(v) == all(
                seq![number(2)],
            ),
            FrameView::Create { name, cmd, cwd } => codec::payload_of(v) == all(
                seq![number(4), maybe_text(name), maybe_text(cmd), maybe_text(cwd)],
            ),
            FrameView::Created { name } => codec::payload_of(v) == all(
                seq![number(5), text(name)],
            ),
            FrameView::Kill { name } => codec::payload_of(v) == all(
                seq![number(6), text(name)],
            ),
            FrameView::Rename { name, new_name } => codec::payload_of(v) == all(
                seq![number(7), text(name), text(new_name)],
            ),
            FrameView::Snapshot { vt } => codec::payload_of(v) == all(
                seq![number(9), bytes(vt)],
            ),
            FrameView::Output { bytes: b } => codec::payload_of(v) == all(
                seq![number(10), bytes(b)],
            ),
            FrameView::Input { bytes: b } => codec::payload_of(v) == all(
                seq![number(11), bytes(b)],
            ),
            FrameView::Resize { cols, rows } => codec::payload_of(v) == all(
                seq![number(12), number(cols as nat), number(rows as nat)],
            ),
            FrameView::Detach => codec::payload_of(v) == all(
                seq![number(13)],
            ),
            FrameView::FetchHistory { start, count } => codec::payload_of(v) == all(
                seq![number(14), number(start as nat), number(count as nat)],
            ),
            FrameView::Refresh => codec::payload_of(v) == all(
                seq![number(16)],
            ),
            FrameView::SendInput { name, bytes: b, enter } => codec::payload_of(v) == all(
                seq![number(17), text(name), bytes(b), flag(enter)],
            ),
            FrameView::Ack => codec::payload_of(v) == all(
                seq![number(18)],
            ),
            FrameView::PeekReply { cols, rows, cursor_col, cursor_row, title, screen } => codec::payload_of(v) == all(
                seq![number(20), number(cols as nat), number(rows as nat), number(cursor_col as nat), number(cursor_row as nat), text(title), bytes(screen)],
            ),
            FrameView::Inspect { name } => codec::payload_of(v) == all(
                seq![number(21), text(name)],
            ),
            FrameView::Follow { name } => codec::payload_of(v) == all(
                seq![number(23), text(name)],
            ),
            FrameView::Unfollow { name } => codec::payload_of(v) == all(
                seq![number(24), text(name)],
            ),
            FrameView::ViewRevoked { name, view_id } => codec::payload_of(v) == all(
                seq![number(26), text(name), number(view_id as nat)],
            ),
            FrameView::ViewRenamed { old_name, new_name, view_id } => codec::payload_of(v) == all(
                seq![number(27), text(old_name), text(new_name), number(view_id as nat)],
            ),
            FrameView::Error { code, msg } => codec::payload_of(v) == all(
                seq![number(28), number(code as nat), text(msg)],
            ),
            FrameView::HostMetrics => codec::payload_of(v) == all(
                seq![number(29)],
            ),
            _ => true,
        },
{
    match v {
        FrameView::Hello { proto_version, kind } => lemma_hello(proto_version, kind),
        FrameView::HelloAck { proto_version, daemon_version } => lemma_hello_ack(proto_version, daemon_version),
        FrameView::ListSessions => lemma_list_sessions(),
        FrameView::Create { name, cmd, cwd } => lemma_create(name, cmd, cwd),
        FrameView::Created { name } => lemma_created(name),
        FrameView::Kill { name } => lemma_kill(name),
        FrameView::Rename { name, new_name } => lemma_rename(name, new_name),
        FrameView::Snapshot { vt } => lemma_snapshot(vt),
        FrameView::Output { bytes: b } => lemma_output(b),
        FrameView::Input { bytes: b } => lemma_input(b),
        FrameView::Resize { cols, rows } => lemma_resize(cols, rows),
        FrameView::Detach => lemma_detach(),
        FrameView::FetchHistory { start, count } => lemma_fetch_history(start, count),
        FrameView::Refresh => lemma_refresh(),
        FrameView::SendInput { name, bytes: b, enter } => lemma_send_input(name, b, enter),
        FrameView::Ack => lemma_ack(),
        FrameView::PeekReply { cols, rows, cursor_col, cursor_row, title, screen } => lemma_peek_reply(cols, rows, cursor_col, cursor_row, title, screen),
        FrameView::Inspect { name } => lemma_inspect(name),
        FrameView::Follow { name } => lemma_follow(name),
        FrameView::Unfollow { name } => lemma_unfollow(name),
        FrameView::ViewRevoked { name, view_id } => lemma_view_revoked(name, view_id),
        FrameView::ViewRenamed { old_name, new_name, view_id } => lemma_view_renamed(old_name, new_name, view_id),
        FrameView::Error { code, msg } => lemma_error(code, msg),
        FrameView::HostMetrics => lemma_host_metrics(),
        _ => {},
    }
}

/// Law: asking for a session gives its name, the pane's columns and rows, the view's
/// id, the pane's foreground and background, and whether it is only to be read.
pub proof fn law_attach_is_laid_out(
    name: Seq<char>,
    cols: u16,
    rows: u16,
    view_id: u64,
    appearance: TerminalAppearance,
    read_only: bool,
)
    ensures
        codec::payload_of(
            FrameView::Attach { name, cols, rows, view_id, appearance, read_only },
        ) == all(
            seq![
                number(8) + text(name),
                number(cols as nat),
                number(rows as nat),
                number(view_id as nat),
                maybe_color(appearance.foreground),
                maybe_color(appearance.background),
                flag(read_only),
            ],
        ),
{
    lemma_numbers();
    lemma_7(
        number(8) + text(name),
        number(cols as nat),
        number(rows as nat),
        number(view_id as nat),
        maybe_color(appearance.foreground),
        maybe_color(appearance.background),
        flag(read_only),
    );
    let (fg, bg) = (maybe_color(appearance.foreground), maybe_color(appearance.background));
    let r6 = wire::wire_flag(read_only, Seq::empty());
    assert(r6 =~= flag(read_only));
    let r5 = frames::wire_appearance(appearance, r6);
    lemma_color(appearance.background, r6);
    lemma_color(appearance.foreground, frames::wire_maybe_color(appearance.background, r6));
    assert(r5 == fg + (bg + r6));
    let r2 = wire::wire_small(rows, wire::wire_long(view_id, r5));
    assert(r2 == number(rows as nat) + (number(view_id as nat) + r5));
    let r1 = wire::wire_small(cols, r2);
    let named = wire::wire_text(name, r1);
    assert(named =~= text(name) + r1);
    assert(codec::payload_of(
        FrameView::Attach { name, cols, rows, view_id, appearance, read_only },
    ) == number(8) + named);
    lemma_nested(
        number(8),
        text(name),
        number(cols as nat),
        number(rows as nat),
        number(view_id as nat),
        fg,
        bg,
        r6,
    );
}

proof fn lemma_color(c: Option<TerminalColor>, rest: Seq<u8>)
    ensures
        frames::wire_maybe_color(c, rest) == maybe_color(c) + rest,
{
    assert(frames::wire_maybe_color(c, rest) =~= maybe_color(c) + rest);
}

proof fn lemma_nested(
    a: Seq<u8>,
    b: Seq<u8>,
    c: Seq<u8>,
    d: Seq<u8>,
    e: Seq<u8>,
    f: Seq<u8>,
    g: Seq<u8>,
    h: Seq<u8>,
)
    ensures
        a + (b + (c + (d + (e + (f + (g + h)))))) == a + b + c + d + e + f + g + h,
{
    let n = g + h;
    assert(e + (f + n) =~= (e + f + g) + h);
    assert(d + (e + (f + n)) =~= (d + e + f + g) + h);
    assert(c + (d + (e + (f + n))) =~= (c + d + e + f + g) + h);
    assert(b + (c + (d + (e + (f + n)))) =~= (b + c + d + e + f + g) + h);
    assert(a + (b + c + d + e + f + g + h) =~= a + b + c + d + e + f + g + h);
}

/// Law: a session's state has its own number.
pub proof fn law_states_are_numbered(rest: Seq<u8>)
    ensures
        frames::wire_state(AgentState::Working, rest) == seq![0u8] + rest,
        frames::wire_state(AgentState::Blocked, rest) == seq![1u8] + rest,
        frames::wire_state(AgentState::Idle, rest) == seq![2u8] + rest,
        frames::wire_state(AgentState::Unknown, rest) == seq![3u8] + rest,
{
}

/// Law: a frame on the wire is the number of its payload's bytes, in four bytes with
/// the lowest first, and its payload.
pub proof fn law_frames_are_framed(v: FrameView)
    requires
        codec::payload_of(v).len() <= u32::MAX,
    ensures
        ({
            let w = codec::framed(v);
            let n = codec::payload_of(v).len();
            &&& w.len() == 4 + n
            &&& w[0] + 256 * w[1] + 65536 * w[2] + 16777216 * w[3] == n
            &&& w.skip(4) == codec::payload_of(v)
        }),
{
    assert(codec::framed(v).skip(4) =~= codec::payload_of(v));
}

} // verus!
