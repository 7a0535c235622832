//! What holds of a connection from one end to the other: between them lie the two
//! machines of the client, the two of the server, and a network that carries the
//! messages of all connections together.

use crate::envelope;
use crate::protocol::MessageView;
use crate::relay;
use crate::relay::{DownloadEventView, UploadEventView, UploadState};
use crate::server;
use crate::server::ActionView;
use crate::session;
use crate::session::SessionView;
use crate::sse;
use crate::tcp_relay;
use crate::tcp_relay::{ReadActionView, ReadState, SinkEventView, TargetEventView};
use crate::tcp_relay::{WritePhase, WriteState};
use crate::transfer;
use crate::transfer::{PackActionView, PackEventView, PackState, PullEventView, PullState};
use crate::transfer::{PushActionView, PushEventView, PushState};
use crate::tunnel;
use crate::tunnel::{DispatchView, TunnelEventView, TunnelView};
use vstd::prelude::*;

verus! {

broadcast use vstd::seq::group_seq_axioms;

// Messages of one connection.

/// The message is for the connection.
pub open spec fn names(m: MessageView, conn_id: u32) -> bool {
    match m {
        MessageView::Connect { conn_id: id, .. } => id == conn_id,
        MessageView::Data { conn_id: id, .. } => id == conn_id,
        MessageView::Close { conn_id: id } => id == conn_id,
        MessageView::Error { conn_id: id, .. } => id == Some(conn_id),
        MessageView::Exec { conn_id: id, .. } => id == conn_id,
        MessageView::Resize { conn_id: id, .. } => id == conn_id,
        MessageView::ExitStatus { conn_id: id, .. } => id == conn_id,
        MessageView::Abort { conn_id: id } => id == conn_id,
        MessageView::Pull { conn_id: id, .. } => id == conn_id,
        MessageView::Push { conn_id: id, .. } => id == conn_id,
        MessageView::Ping | MessageView::Pong | MessageView::Reset => false,
    }
}

/// Those of the messages that are for the connection, in order.
pub open spec fn of_connection(ms: Seq<MessageView>, conn_id: u32) -> Seq<MessageView>
    decreases ms.len(),
{
    if ms.len() == 0 {
        Seq::empty()
    } else if names(ms[0], conn_id) {
        seq![ms[0]] + of_connection(ms.skip(1), conn_id)
    } else {
        of_connection(ms.skip(1), conn_id)
    }
}

/// The last message but one is lost.
pub open spec fn loses_one(sent: Seq<MessageView>, got: Seq<MessageView>) -> bool {
    sent.len() >= 2 && got == sent.remove(sent.len() - 2)
}

/// What gets through of the messages that one end hands to the network. It sends one
/// after the other and stops at the first that is lost; then it may still say so.
pub open spec fn gets_through(sent: Seq<MessageView>, got: Seq<MessageView>) -> bool {
    ||| got.is_prefix_of(sent)
    ||| loses_one(sent, got) && (sent.last() is Abort || sent.last() is Error)
}

/// The bytes of all pieces, one after the other.
pub open spec fn flat(chunks: Seq<Seq<u8>>) -> Seq<u8>
    decreases chunks.len(),
{
    if chunks.len() == 0 {
        Seq::empty()
    } else {
        chunks[0] + flat(chunks.skip(1))
    }
}

proof fn flat_of_concat(x: Seq<Seq<u8>>, y: Seq<Seq<u8>>)
    ensures
        flat(x + y) == flat(x) + flat(y),
    decreases x.len(),
{
    if x.len() == 0 {
        assert(x + y =~= y);
        assert(flat(x) + flat(y) =~= flat(y));
    } else {
        flat_of_concat(x.skip(1), y);
        assert((x + y).skip(1) =~= x.skip(1) + y);
        assert(flat(x + y) =~= flat(x) + flat(y));
    }
}

proof fn flat_of_prefix(x: Seq<Seq<u8>>, y: Seq<Seq<u8>>)
    requires
        x.is_prefix_of(y),
    ensures
        flat(x).is_prefix_of(flat(y)),
{
    let rest = y.skip(x.len() as int);
    assert(y =~= x + rest);
    flat_of_concat(x, rest);
    assert(flat(x) =~= flat(y).subrange(0, flat(x).len() as int));
}

/// Pieces and at most one word behind them: what gets through is the first of the pieces,
/// and perhaps the word.
proof fn parts_that_get_through(
    conn_id: u32,
    chunks: Seq<Seq<u8>>,
    words: Seq<MessageView>,
    got: Seq<MessageView>,
) -> (k: int)
    requires
        ({
            let sent = relay::as_data(conn_id, chunks) + words;
            got.is_prefix_of(sent) || (loses_one(sent, got) && words.len() == 1)
        }),
        words.len() <= 1,
    ensures
        0 <= k <= chunks.len(),
        got == relay::as_data(conn_id, chunks.take(k)) || got == relay::as_data(
            conn_id,
            chunks.take(k),
        ) + words,
        got.len() > k && got.is_prefix_of(relay::as_data(conn_id, chunks) + words) ==> k
            == chunks.len(),
{
    let sent = relay::as_data(conn_id, chunks) + words;
    let n = chunks.len() as int;
    if got.is_prefix_of(sent) {
        assert(got =~= sent.subrange(0, got.len() as int));
        if got.len() <= n {
            let k = got.len() as int;
            assert(got =~= relay::as_data(conn_id, chunks.take(k)));
            k
        } else {
            assert(chunks.take(n) =~= chunks);
            assert(got =~= sent);
            n
        }
    } else {
        let k = n - 1;
        assert(got =~= relay::as_data(conn_id, chunks.take(k)) + words);
        k
    }
}

/// Where there is no word, the last message is a piece and no farewell.
proof fn pieces_are_no_farewell(conn_id: u32, chunks: Seq<Seq<u8>>, words: Seq<MessageView>)
    requires
        words.len() <= 1,
        chunks.len() + words.len() > 0,
    ensures
        ({
            let sent = relay::as_data(conn_id, chunks) + words;
            &&& sent.last() is Abort || sent.last() is Error ==> words.len() == 1
            &&& words.len() == 1 ==> sent.last() == words[0]
        }),
{
    let sent = relay::as_data(conn_id, chunks) + words;
    if words.len() == 0 {
        assert(sent.last() == relay::as_data(conn_id, chunks)[chunks.len() - 1]);
    }
}

// From the application to the target.

/// The bytes that reach the sink of the connection while the server handles the messages.
pub open spec fn sunk<W, A, R, S>(
    s: SessionView<W, A, R, S>,
    ms: Seq<MessageView>,
    allow_exec: bool,
    allow_transfer: bool,
    conn_id: u32,
) -> Seq<Seq<u8>>
    decreases ms.len(),
{
    if ms.len() == 0 {
        Seq::empty()
    } else {
        let (next, action) = server::handled(s, ms[0], allow_exec, allow_transfer);
        let own = match action {
            ActionView::Deliver { conn_id: id, data } => if id == conn_id && session::at(
                s.writers,
                conn_id,
            ) is Some {
                seq![data]
            } else {
                Seq::empty()
            },
            _ => Seq::empty(),
        };
        own + sunk(next, ms.skip(1), allow_exec, allow_transfer, conn_id)
    }
}

proof fn nothing_is_sunk<W, A, R, S>(
    s: SessionView<W, A, R, S>,
    ms: Seq<MessageView>,
    allow_exec: bool,
    allow_transfer: bool,
    conn_id: u32,
)
    requires
        of_connection(ms, conn_id).len() == 0,
    ensures
        sunk(s, ms, allow_exec, allow_transfer, conn_id) == Seq::<Seq<u8>>::empty(),
    decreases ms.len(),
{
    if ms.len() > 0 {
        assert(!names(ms[0], conn_id));
        let next = server::handled(s, ms[0], allow_exec, allow_transfer).0;
        nothing_is_sunk(next, ms.skip(1), allow_exec, allow_transfer, conn_id);
    }
}

proof fn data_is_sunk<W, A, R, S>(
    s: SessionView<W, A, R, S>,
    ms: Seq<MessageView>,
    allow_exec: bool,
    allow_transfer: bool,
    conn_id: u32,
    chunks: Seq<Seq<u8>>,
    words: Seq<MessageView>,
)
    requires
        session::at(s.writers, conn_id) is Some,
        of_connection(ms, conn_id) == relay::as_data(conn_id, chunks) + words,
        words.len() <= 1,
        words.len() == 1 ==> words[0] is Close || words[0] is Abort,
    ensures
        sunk(s, ms, allow_exec, allow_transfer, conn_id) == chunks,
    decreases ms.len(),
{
    let all = of_connection(ms, conn_id);
    if ms.len() == 0 {
        assert(all.len() == chunks.len() + words.len());
        assert(chunks =~= Seq::<Seq<u8>>::empty());
    } else {
        let m = ms[0];
        let rest = ms.skip(1);
        let (next, action) = server::handled(s, m, allow_exec, allow_transfer);
        let more = sunk(next, rest, allow_exec, allow_transfer, conn_id);
        if !names(m, conn_id) {
            server::connections_are_independent(s, m, allow_exec, allow_transfer, conn_id);
            data_is_sunk(next, rest, allow_exec, allow_transfer, conn_id, chunks, words);
            assert(Seq::<Seq<u8>>::empty() + more =~= more);
        } else {
            assert(all[0] == m);
            assert(all.skip(1) =~= of_connection(rest, conn_id));
            if chunks.len() > 0 {
                assert(all[0] == relay::as_data(conn_id, chunks)[0]);
                assert(all.skip(1) =~= relay::as_data(conn_id, chunks.skip(1)) + words);
                data_is_sunk(next, rest, allow_exec, allow_transfer, conn_id, chunks.skip(1), words);
                assert(seq![chunks[0]] + more =~= chunks);
            } else {
                assert(all[0] == words[0]);
                nothing_is_sunk(next, rest, allow_exec, allow_transfer, conn_id);
                assert(Seq::<Seq<u8>>::empty() + more =~= chunks);
            }
        }
    }
}

/// The bytes that the half which writes to the target takes from its sink.
pub open spec fn sink_data(events: Seq<SinkEventView>) -> Seq<Seq<u8>>
    decreases events.len(),
{
    if events.len() == 0 {
        Seq::empty()
    } else {
        (match events[0] {
            SinkEventView::Data(data) => seq![data],
            _ => Seq::empty(),
        }) + sink_data(events.skip(1))
    }
}

proof fn empty_pieces_hold_nothing(events: Seq<SinkEventView>)
    ensures
        flat(tcp_relay::bytes_received(events)) == flat(sink_data(events)),
    decreases events.len(),
{
    if events.len() > 0 {
        empty_pieces_hold_nothing(events.skip(1));
        let rest = tcp_relay::bytes_received(events.skip(1));
        let more = sink_data(events.skip(1));
        match events[0] {
            SinkEventView::Data(data) => {
                flat_of_concat(seq![data], more);
                reveal_with_fuel(flat, 2);
                if data.len() == 0 {
                    assert(Seq::<Seq<u8>>::empty() + rest =~= rest);
                    assert(flat(seq![data]) =~= Seq::<u8>::empty());
                    assert(Seq::<u8>::empty() + flat(more) =~= flat(more));
                } else {
                    flat_of_concat(seq![data], rest);
                }
            },
            _ => {
                assert(Seq::<Seq<u8>>::empty() + rest =~= rest);
                assert(Seq::<Seq<u8>>::empty() + more =~= more);
            },
        }
    }
}

/// What the application sends reaches the target byte by byte, in order, without a gap and
/// without a byte of another connection; and all of it once everything was taken. So it is
/// whatever the application does, however the messages of other connections come in
/// between, and wherever the network fails.
pub proof fn what_is_sent_is_written<W, A, R, S>(
    conn_id: u32,
    sent: Seq<UploadEventView>,
    s: SessionView<W, A, R, S>,
    ms: Seq<MessageView>,
    allow_exec: bool,
    allow_transfer: bool,
    written: Seq<SinkEventView>,
)
    requires
        relay::upload_possible(conn_id, UploadState::Reading, sent),
        gets_through(
            relay::messages_sent(relay::upload_run(conn_id, UploadState::Reading, sent).1),
            of_connection(ms, conn_id),
        ),
        session::at(s.writers, conn_id) is Some,
        tcp_relay::write_possible(
            conn_id,
            WriteState { phase: WritePhase::Idle, watching: false },
            written,
        ),
        sink_data(written).is_prefix_of(sunk(s, ms, allow_exec, allow_transfer, conn_id)),
    ensures
        ({
            let start = WriteState { phase: WritePhase::Idle, watching: false };
            let at_target = flat(
                tcp_relay::bytes_written(tcp_relay::write_run(conn_id, start, written).1),
            );
            let from_app = flat(relay::bytes_uploaded(sent));
            &&& at_target.is_prefix_of(from_app)
            &&& sink_data(written).len() == relay::bytes_uploaded(sent).len() ==> at_target
                == from_app
        }),
{
    let start = WriteState { phase: WritePhase::Idle, watching: false };
    let chunks = relay::bytes_uploaded(sent);
    let words = relay::closing_words(conn_id, UploadState::Reading, sent);
    relay::the_server_gets_the_upload(conn_id, UploadState::Reading, sent);
    let got = of_connection(ms, conn_id);
    if loses_one(relay::as_data(conn_id, chunks) + words, got) {
        pieces_are_no_farewell(conn_id, chunks, words);
    }
    let k = parts_that_get_through(conn_id, chunks, words, got);
    let taken = chunks.take(k);
    if got == relay::as_data(conn_id, taken) {
        assert(got =~= relay::as_data(conn_id, taken) + Seq::<MessageView>::empty());
        data_is_sunk(s, ms, allow_exec, allow_transfer, conn_id, taken, Seq::empty());
    } else {
        data_is_sunk(s, ms, allow_exec, allow_transfer, conn_id, taken, words);
    }
    tcp_relay::uploads_keep_their_order(conn_id, start, written);
    empty_pieces_hold_nothing(written);
    let data = sink_data(written);
    assert(data =~= taken.subrange(0, data.len() as int));
    assert(data =~= chunks.subrange(0, data.len() as int));
    flat_of_prefix(data, chunks);
    if data.len() == chunks.len() {
        assert(data =~= chunks);
    }
}

// From the target to the application.

/// The messages that the half which reads the target hands to the stream.
pub open spec fn messages_said(actions: Seq<ReadActionView>) -> Seq<MessageView>
    decreases actions.len(),
{
    if actions.len() == 0 {
        Seq::empty()
    } else {
        (match actions[0] {
            ReadActionView::Send { message, .. } => seq![message],
            _ => Seq::empty(),
        }) + messages_said(actions.skip(1))
    }
}

/// The word behind the bytes, where there is one.
pub open spec fn last_word(
    conn_id: u32,
    state: ReadState,
    events: Seq<TargetEventView>,
) -> Seq<MessageView> {
    messages_said(tcp_relay::read_run(conn_id, state, events).1).skip(
        tcp_relay::bytes_read(events).len() as int,
    )
}

proof fn the_reader_says(conn_id: u32, state: ReadState, events: Seq<TargetEventView>)
    requires
        tcp_relay::read_possible(conn_id, state, events),
    ensures
        ({
            let words = last_word(conn_id, state, events);
            &&& messages_said(tcp_relay::read_run(conn_id, state, events).1) == relay::as_data(
                conn_id,
                tcp_relay::bytes_read(events),
            ) + words
            &&& words.len() <= 1
            &&& state != ReadState::Reading && state != ReadState::Forwarding ==> words.len() == 0
                && tcp_relay::bytes_read(events).len() == 0
            &&& words.len() == 1 ==> words[0] is Error || {
                &&& words[0] == (MessageView::Close { conn_id })
                &&& events.contains(TargetEventView::Eof)
            }
        }),
    decreases events.len(),
{
    let said = messages_said(tcp_relay::read_run(conn_id, state, events).1);
    let chunks = tcp_relay::bytes_read(events);
    if events.len() == 0 {
        assert(said =~= relay::as_data(conn_id, chunks) + said.skip(0));
    } else {
        let first = events[0];
        let tail = events.skip(1);
        let (next, action) = tcp_relay::read_step(conn_id, state, first);
        let rest = tcp_relay::read_run(conn_id, next, tail).1;
        assert((seq![action] + rest).skip(1) =~= rest);
        the_reader_says(conn_id, next, tail);
        let more = tcp_relay::bytes_read(tail);
        let words = last_word(conn_id, next, tail);
        let later = messages_said(rest);
        match first {
            TargetEventView::Chunk(data) => {
                let m = MessageView::Data { conn_id, data };
                assert(said == seq![m] + later);
                assert(chunks == seq![data] + more);
                assert(relay::as_data(conn_id, chunks) =~= seq![m] + relay::as_data(conn_id, more));
                assert(said =~= relay::as_data(conn_id, chunks) + words);
                assert(said.skip(chunks.len() as int) =~= words);
            },
            _ => {
                assert(chunks =~= more);
                match action {
                    ReadActionView::Send { message, .. } => {
                        assert(more.len() == 0 && words.len() == 0);
                        assert(later =~= Seq::<MessageView>::empty());
                        assert(said =~= seq![message]);
                        assert(relay::as_data(conn_id, chunks) + said =~= said);
                        assert(said.skip(0) =~= said);
                        if first == TargetEventView::Eof {
                            assert(events[0] == TargetEventView::Eof);
                        }
                    },
                    _ => {
                        assert(said =~= later);
                        assert(said.skip(chunks.len() as int) =~= words);
                    },
                }
            },
        }
        if tail.contains(TargetEventView::Eof) {
            let i = choose|i: int| 0 <= i < tail.len() && tail[i] == TargetEventView::Eof;
            assert(events[i + 1] == tail[i]);
        }
    }
}

/// The events that the client's tunnel has for the connection while the messages come in.
pub open spec fn events_for<T>(t: TunnelView<T>, ms: Seq<MessageView>, conn_id: u32) -> Seq<
    TunnelEventView,
>
    decreases ms.len(),
{
    if ms.len() == 0 {
        Seq::empty()
    } else {
        let (next, d) = tunnel::dispatched(t, ms[0]);
        let own = match d {
            DispatchView::Deliver { conn_id: id, event } => if id == conn_id {
                seq![event]
            } else {
                Seq::empty()
            },
            _ => Seq::empty(),
        };
        own + events_for(next, ms.skip(1), conn_id)
    }
}

/// What a message of the server is for the client.
pub open spec fn event_of(m: MessageView) -> TunnelEventView {
    match m {
        MessageView::Data { data, .. } => TunnelEventView::Data(data),
        MessageView::Error { message, .. } => TunnelEventView::Error(message),
        MessageView::ExitStatus { code, .. } => TunnelEventView::Exit(code),
        _ => TunnelEventView::Close,
    }
}

/// The message is one that the server sends for a connection.
pub open spec fn from_server(m: MessageView) -> bool {
    m is Data || m is Close || m is Error || m is ExitStatus
}

proof fn events_of_messages<T>(t: TunnelView<T>, ms: Seq<MessageView>, conn_id: u32)
    requires
        forall|i: int|
            0 <= i < of_connection(ms, conn_id).len() ==> from_server(
                #[trigger] of_connection(ms, conn_id)[i],
            ),
    ensures
        events_for(t, ms, conn_id) == of_connection(ms, conn_id).map_values(
            |m: MessageView| event_of(m),
        ),
    decreases ms.len(),
{
    let f = |m: MessageView| event_of(m);
    let all = of_connection(ms, conn_id);
    if ms.len() == 0 {
        assert(events_for(t, ms, conn_id) =~= all.map_values(f));
    } else {
        let rest = ms.skip(1);
        let later = of_connection(rest, conn_id);
        let next = tunnel::dispatched(t, ms[0]).0;
        if names(ms[0], conn_id) {
            assert(all[0] == ms[0]);
            assert(from_server(all[0]));
            assert(all.skip(1) =~= later);
            assert forall|i: int| 0 <= i < later.len() implies from_server(#[trigger] later[i]) by {
                assert(all[i + 1] == later[i]);
                assert(from_server(all[i + 1]));
            }
            events_of_messages(next, rest, conn_id);
            assert(all.map_values(f) =~= seq![event_of(ms[0])] + later.map_values(f));
        } else {
            events_of_messages(next, rest, conn_id);
            assert(Seq::<TunnelEventView>::empty() + events_for(next, rest, conn_id)
                =~= events_for(next, rest, conn_id));
        }
    }
}

/// The events that the download takes from the tunnel.
pub open spec fn tunnel_events(events: Seq<DownloadEventView>) -> Seq<TunnelEventView>
    decreases events.len(),
{
    if events.len() == 0 {
        Seq::empty()
    } else {
        (match events[0] {
            DownloadEventView::Event(e) => seq![e],
            _ => Seq::empty(),
        }) + tunnel_events(events.skip(1))
    }
}

/// The bytes in the events.
pub open spec fn data_in(events: Seq<TunnelEventView>) -> Seq<Seq<u8>>
    decreases events.len(),
{
    if events.len() == 0 {
        Seq::empty()
    } else {
        (match events[0] {
            TunnelEventView::Data(data) => seq![data],
            _ => Seq::empty(),
        }) + data_in(events.skip(1))
    }
}

proof fn delivered_data(events: Seq<DownloadEventView>)
    ensures
        flat(relay::bytes_delivered(events)) == flat(data_in(tunnel_events(events))),
    decreases events.len(),
{
    if events.len() > 0 {
        let tail = events.skip(1);
        delivered_data(tail);
        let te = tunnel_events(tail);
        let rest = relay::bytes_delivered(tail);
        let more = data_in(te);
        match events[0] {
            DownloadEventView::Event(e) => {
                assert((seq![e] + te).skip(1) =~= te);
                match e {
                    TunnelEventView::Data(data) => {
                        flat_of_concat(seq![data], more);
                        reveal_with_fuel(flat, 2);
                        if data.len() == 0 {
                            assert(Seq::<Seq<u8>>::empty() + rest =~= rest);
                            assert(flat(seq![data]) =~= Seq::<u8>::empty());
                            assert(Seq::<u8>::empty() + flat(more) =~= flat(more));
                        } else {
                            flat_of_concat(seq![data], rest);
                        }
                    },
                    _ => {
                        assert(Seq::<Seq<u8>>::empty() + rest =~= rest);
                        assert(Seq::<Seq<u8>>::empty() + more =~= more);
                    },
                }
            },
            _ => {
                assert(Seq::<Seq<u8>>::empty() + rest =~= rest);
                assert(Seq::<TunnelEventView>::empty() + te =~= te);
            },
        }
    }
}

/// Data events, with others behind them.
proof fn data_before_the_end(
    events: Seq<TunnelEventView>,
    chunks: Seq<Seq<u8>>,
    end: Seq<TunnelEventView>,
)
    requires
        events == chunks.map_values(|d: Seq<u8>| TunnelEventView::Data(d)) + end,
        forall|i: int| 0 <= i < end.len() ==> !(#[trigger] end[i] is Data),
    ensures
        data_in(events) == chunks,
    decreases events.len(),
{
    let f = |d: Seq<u8>| TunnelEventView::Data(d);
    if chunks.len() > 0 {
        assert(events[0] == TunnelEventView::Data(chunks[0]));
        assert(events.skip(1) =~= chunks.skip(1).map_values(f) + end);
        data_before_the_end(events.skip(1), chunks.skip(1), end);
        assert(seq![chunks[0]] + chunks.skip(1) =~= chunks);
    } else {
        assert(events =~= end);
        if end.len() > 0 {
            let later = end.skip(1);
            assert(!(end[0] is Data));
            assert forall|i: int| 0 <= i < later.len() implies !(#[trigger] later[i] is Data) by {
                assert(later[i] == end[i + 1]);
            }
            assert(later =~= chunks.map_values(f) + later);
            data_before_the_end(later, chunks, later);
            assert(events.skip(1) =~= later);
        }
        assert(data_in(events) =~= chunks);
    }
}

proof fn completed_by_close(s: relay::DownloadState, events: Seq<DownloadEventView>)
    requires
        relay::tells_complete(relay::download_run(s, events).1),
    ensures
        tunnel_events(events).contains(TunnelEventView::Close),
    decreases events.len(),
{
    let (next, action) = relay::download_step(s, events[0]);
    let tail = events.skip(1);
    let rest = relay::download_run(next, tail).1;
    assert((seq![action] + rest).skip(1) =~= rest);
    let te = tunnel_events(tail);
    let own = match events[0] {
        DownloadEventView::Event(e) => seq![e],
        _ => Seq::empty(),
    };
    assert(tunnel_events(events) == own + te);
    if action is Shutdown || action is ShutdownAndEnd {
        relay::only_close_completes(s, events[0]);
        assert((own + te)[0] == TunnelEventView::Close);
    } else {
        completed_by_close(next, tail);
        let i = choose|i: int| 0 <= i < te.len() && te[i] == TunnelEventView::Close;
        assert((own + te)[own.len() + i] == TunnelEventView::Close);
    }
}

/// What the target sends reaches the application byte by byte, in order, without a gap and
/// without a byte of another connection. And an application that is told that the response
/// is complete has all of it: the target had finished, and every byte was written.
pub proof fn what_is_read_is_delivered<T>(
    conn_id: u32,
    read: Seq<TargetEventView>,
    t: TunnelView<T>,
    ms: Seq<MessageView>,
    received: Seq<DownloadEventView>,
)
    requires
        tcp_relay::read_possible(conn_id, ReadState::Reading, read),
        gets_through(
            messages_said(tcp_relay::read_run(conn_id, ReadState::Reading, read).1),
            of_connection(ms, conn_id),
        ),
        relay::download_possible(relay::download_start(), received),
        tunnel_events(received).is_prefix_of(events_for(t, ms, conn_id)),
    ensures
        ({
            let actions = relay::download_run(relay::download_start(), received).1;
            let at_app = flat(relay::bytes_downloaded(actions));
            let from_target = flat(tcp_relay::bytes_read(read));
            &&& at_app.is_prefix_of(from_target)
            &&& relay::tells_complete(actions) ==> {
                &&& at_app == from_target
                &&& read.contains(TargetEventView::Eof)
            }
        }),
{
    let start = relay::download_start();
    let chunks = tcp_relay::bytes_read(read);
    let words = last_word(conn_id, ReadState::Reading, read);
    the_reader_says(conn_id, ReadState::Reading, read);
    let got = of_connection(ms, conn_id);
    if loses_one(relay::as_data(conn_id, chunks) + words, got) {
        pieces_are_no_farewell(conn_id, chunks, words);
    }
    let k = parts_that_get_through(conn_id, chunks, words, got);
    assert forall|i: int| 0 <= i < got.len() implies from_server(#[trigger] got[i]) by {
        if i < k {
            assert(got[i] == relay::as_data(conn_id, chunks.take(k))[i]);
        } else {
            assert(got[i] == words[i - k]);
        }
    }
    events_of_messages(t, ms, conn_id);
    let all = events_for(t, ms, conn_id);
    let te = tunnel_events(received);
    let n = te.len() as int;
    assert(te =~= all.subrange(0, n));
    let j = if n <= k {
        n
    } else {
        k
    };
    let first = chunks.take(j);
    let end = te.skip(j);
    let f = |d: Seq<u8>| TunnelEventView::Data(d);
    assert forall|i: int| 0 <= i < j implies te[i] == first.map_values(f)[i] by {
        assert(te[i] == all[i]);
        assert(all[i] == event_of(got[i]));
        assert(got[i] == relay::as_data(conn_id, chunks.take(k))[i]);
    }
    assert(te =~= first.map_values(f) + end);
    if end.len() > 0 {
        assert(end[0] == all[k]);
        assert(all[k] == event_of(got[k]));
        assert(got[k] == words[0]);
        assert(end.len() == 1);
    }
    data_before_the_end(te, first, end);
    relay::downloads_keep_their_order(start, received);
    delivered_data(received);
    assert(first =~= chunks.subrange(0, j));
    flat_of_prefix(first, chunks);
    if relay::tells_complete(relay::download_run(start, received).1) {
        completed_by_close(start, received);
        let i = choose|i: int| 0 <= i < te.len() && te[i] == TunnelEventView::Close;
        if i < j {
            assert(te[i] == first.map_values(f)[i]);
        }
        assert(got.len() > k);
        assert(words[0] is Close);
        assert(k == chunks.len());
        assert(first =~= chunks);
    }
}

// Archives on their way to the server.

/// The messages of an upload.
pub open spec fn messages_pushed(actions: Seq<PushActionView>) -> Seq<MessageView>
    decreases actions.len(),
{
    if actions.len() == 0 {
        Seq::empty()
    } else {
        (match actions[0] {
            PushActionView::Send(m) => seq![m],
            PushActionView::CloseAndConfirm(m) => seq![m],
            PushActionView::CloseAndFail { message, .. } => seq![message],
            _ => Seq::empty(),
        }) + messages_pushed(actions.skip(1))
    }
}

proof fn the_uploader_says(conn_id: u32, state: PushState, events: Seq<PushEventView>) -> (words:
    Seq<MessageView>)
    requires
        transfer::push_possible(conn_id, state, events),
    ensures
        messages_pushed(transfer::push_run(conn_id, state, events).1) == relay::as_data(
            conn_id,
            transfer::bytes_to_push(events),
        ) + words,
        words.len() <= 1,
        words.len() == 1 ==> words[0] is Close,
        state == PushState::Confirming || state == PushState::Ended ==> words.len() == 0
            && transfer::bytes_to_push(events).len() == 0,
    decreases events.len(),
{
    let said = messages_pushed(transfer::push_run(conn_id, state, events).1);
    let chunks = transfer::bytes_to_push(events);
    let none = Seq::<MessageView>::empty();
    if events.len() == 0 {
        assert(said =~= relay::as_data(conn_id, chunks) + none);
        none
    } else {
        let tail = events.skip(1);
        let (next, action) = transfer::push_step(conn_id, state, events[0]);
        let rest = transfer::push_run(conn_id, next, tail).1;
        assert((seq![action] + rest).skip(1) =~= rest);
        let words = the_uploader_says(conn_id, next, tail);
        let more = transfer::bytes_to_push(tail);
        let later = messages_pushed(rest);
        match action {
            PushActionView::Send(m) => {
                let data = events[0]->Chunk_0;
                assert(relay::as_data(conn_id, chunks) =~= seq![m] + relay::as_data(
                    conn_id,
                    more,
                )) by {
                    assert(chunks =~= seq![data] + more);
                }
                assert(said =~= relay::as_data(conn_id, chunks) + words);
                words
            },
            PushActionView::CloseAndConfirm(m) => {
                assert(chunks =~= more);
                assert(later =~= none);
                assert(said =~= relay::as_data(conn_id, chunks) + seq![m]);
                seq![m]
            },
            PushActionView::CloseAndFail { message, .. } => {
                assert(chunks =~= more);
                assert(later =~= none);
                assert(said =~= relay::as_data(conn_id, chunks) + seq![message]);
                seq![message]
            },
            _ => {
                assert(chunks =~= more);
                assert(said =~= later);
                words
            },
        }
    }
}

/// The archive that is packed on the client reaches the unpacker on the server byte by byte,
/// in order and without a gap; and all of it once as many pieces have arrived as were packed.
pub proof fn what_is_packed_is_unpacked<W, A, R, S>(
    conn_id: u32,
    packed: Seq<PushEventView>,
    s: SessionView<W, A, R, S>,
    ms: Seq<MessageView>,
    allow_exec: bool,
    allow_transfer: bool,
)
    requires
        transfer::push_possible(conn_id, PushState::Streaming, packed),
        ({
            let sent = messages_pushed(
                transfer::push_run(conn_id, PushState::Streaming, packed).1,
            );
            let got = of_connection(ms, conn_id);
            got.is_prefix_of(sent) || (loses_one(sent, got) && sent.last() is Close)
        }),
        session::at(s.writers, conn_id) is Some,
    ensures
        ({
            let arrived = sunk(s, ms, allow_exec, allow_transfer, conn_id);
            let archive = transfer::bytes_to_push(packed);
            &&& flat(arrived).is_prefix_of(flat(archive))
            &&& arrived.len() == archive.len() ==> arrived == archive
        }),
{
    let chunks = transfer::bytes_to_push(packed);
    let words = the_uploader_says(conn_id, PushState::Streaming, packed);
    let got = of_connection(ms, conn_id);
    let sent = relay::as_data(conn_id, chunks) + words;
    if loses_one(sent, got) && words.len() == 0 {
        assert(sent.last() == relay::as_data(conn_id, chunks)[chunks.len() - 1]);
    }
    let k = parts_that_get_through(conn_id, chunks, words, got);
    let taken = chunks.take(k);
    if got == relay::as_data(conn_id, taken) {
        assert(got =~= relay::as_data(conn_id, taken) + Seq::<MessageView>::empty());
        data_is_sunk(s, ms, allow_exec, allow_transfer, conn_id, taken, Seq::empty());
    } else {
        data_is_sunk(s, ms, allow_exec, allow_transfer, conn_id, taken, words);
    }
    assert(taken =~= chunks.subrange(0, k));
    flat_of_prefix(taken, chunks);
    if taken.len() == chunks.len() {
        assert(taken =~= chunks);
    }
}

// Archives on their way to the client.

/// The messages with which the server sends an archive.
pub open spec fn messages_packed(actions: Seq<PackActionView>) -> Seq<MessageView>
    decreases actions.len(),
{
    if actions.len() == 0 {
        Seq::empty()
    } else {
        (match actions[0] {
            PackActionView::Send(m) => seq![m],
            PackActionView::Report(ms) => ms,
            _ => Seq::empty(),
        }) + messages_packed(actions.skip(1))
    }
}

/// The words behind an archive: none yet, the exit code 0 where it is complete, or an error.
pub open spec fn closes_archive(
    conn_id: u32,
    events: Seq<PackEventView>,
    words: Seq<MessageView>,
) -> bool {
    ||| words.len() == 0
    ||| words == transfer::outcome_messages(conn_id, None) && events.contains(
        PackEventView::Packed(None),
    )
    ||| words.len() == 1 && words[0] is Error
}

proof fn the_packer_says(conn_id: u32, state: PackState, events: Seq<PackEventView>) -> (words: Seq<
    MessageView,
>)
    requires
        transfer::pack_possible(conn_id, state, events),
    ensures
        messages_packed(transfer::pack_run(conn_id, state, events).1) == relay::as_data(
            conn_id,
            transfer::bytes_packed(events),
        ) + words,
        closes_archive(conn_id, events, words),
        state != PackState::Streaming && state != PackState::Sending ==> transfer::bytes_packed(
            events,
        ).len() == 0,
        state == PackState::Ended ==> words.len() == 0,
    decreases events.len(),
{
    let said = messages_packed(transfer::pack_run(conn_id, state, events).1);
    let chunks = transfer::bytes_packed(events);
    let none = Seq::<MessageView>::empty();
    if events.len() == 0 {
        assert(said =~= relay::as_data(conn_id, chunks) + none);
        none
    } else {
        let tail = events.skip(1);
        let (next, action) = transfer::pack_step(conn_id, state, events[0]);
        let rest = transfer::pack_run(conn_id, next, tail).1;
        assert((seq![action] + rest).skip(1) =~= rest);
        let words = the_packer_says(conn_id, next, tail);
        let more = transfer::bytes_packed(tail);
        let later = messages_packed(rest);
        let good = PackEventView::Packed(None);
        if tail.contains(good) {
            let i = choose|i: int| 0 <= i < tail.len() && tail[i] == good;
            assert(events[i + 1] == tail[i]);
        }
        match action {
            PackActionView::Send(m) => {
                let data = events[0]->Chunk_0;
                assert(relay::as_data(conn_id, chunks) =~= seq![m] + relay::as_data(
                    conn_id,
                    more,
                )) by {
                    assert(chunks =~= seq![data] + more);
                }
                assert(said =~= relay::as_data(conn_id, chunks) + words);
                words
            },
            PackActionView::Report(ms) => {
                assert(chunks =~= more);
                assert(later =~= none);
                assert(said =~= relay::as_data(conn_id, chunks) + ms);
                assert(events.contains(events[0]));
                ms
            },
            _ => {
                assert(chunks =~= more);
                assert(said =~= later);
                words
            },
        }
    }
}

/// The events that a download takes from the tunnel.
pub open spec fn pull_events(events: Seq<PullEventView>) -> Seq<TunnelEventView>
    decreases events.len(),
{
    if events.len() == 0 {
        Seq::empty()
    } else {
        (match events[0] {
            PullEventView::Event(e) => seq![e],
            _ => Seq::empty(),
        }) + pull_events(events.skip(1))
    }
}

proof fn pulled_data(events: Seq<PullEventView>)
    ensures
        transfer::bytes_pulled(events) == data_in(pull_events(events)),
    decreases events.len(),
{
    if events.len() > 0 {
        let tail = events.skip(1);
        pulled_data(tail);
        let te = pull_events(tail);
        match events[0] {
            PullEventView::Event(e) => {
                assert((seq![e] + te).skip(1) =~= te);
            },
            _ => {
                assert(Seq::<TunnelEventView>::empty() + te =~= te);
                assert(transfer::bytes_pulled(events) =~= transfer::bytes_pulled(tail));
            },
        }
    }
}

proof fn pulled_event(events: Seq<PullEventView>, e: TunnelEventView)
    requires
        events.contains(PullEventView::Event(e)),
    ensures
        pull_events(events).contains(e),
    decreases events.len(),
{
    let i = choose|i: int| 0 <= i < events.len() && events[i] == PullEventView::Event(e);
    let tail = events.skip(1);
    let te = pull_events(tail);
    let own = match events[0] {
        PullEventView::Event(first) => seq![first],
        _ => Seq::empty(),
    };
    if i == 0 {
        assert((own + te)[0] == e);
    } else {
        assert(tail[i - 1] == events[i]);
        pulled_event(tail, e);
        let j = choose|j: int| 0 <= j < te.len() && te[j] == e;
        assert((own + te)[own.len() + j] == e);
    }
}

/// The archive that is packed on the server reaches the unpacker on the client byte by byte,
/// in order and without a gap. And a download that succeeds while its unpacker took every piece
/// has all of it: the packer had succeeded, and every byte was handed on.
pub proof fn what_is_served_is_unpacked<T>(
    conn_id: u32,
    packed: Seq<PackEventView>,
    t: TunnelView<T>,
    ms: Seq<MessageView>,
    received: Seq<PullEventView>,
)
    requires
        transfer::pack_possible(conn_id, PackState::Streaming, packed),
        of_connection(ms, conn_id).is_prefix_of(
            messages_packed(transfer::pack_run(conn_id, PackState::Streaming, packed).1),
        ),
        transfer::pull_possible(conn_id, PullState::Receiving, received),
        pull_events(received).is_prefix_of(events_for(t, ms, conn_id)),
    ensures
        ({
            let actions = transfer::pull_run(conn_id, PullState::Receiving, received).1;
            let fed = flat(transfer::bytes_fed(actions));
            let archive = flat(transfer::bytes_packed(packed));
            &&& fed.is_prefix_of(archive)
            &&& transfer::pull_succeeds(actions) && !received.contains(PullEventView::Fed(false))
                ==> {
                &&& fed == archive
                &&& packed.contains(PackEventView::Packed(None))
            }
        }),
{
    let chunks = transfer::bytes_packed(packed);
    let words = the_packer_says(conn_id, PackState::Streaming, packed);
    let data = relay::as_data(conn_id, chunks);
    let sent = data + words;
    let got = of_connection(ms, conn_id);
    assert(got =~= sent.subrange(0, got.len() as int));
    let n = chunks.len() as int;
    assert forall|i: int| 0 <= i < got.len() implies from_server(#[trigger] got[i]) && (i >= n
        ==> !(got[i] is Data)) by {
        if i < n {
            assert(got[i] == data[i]);
        } else {
            assert(got[i] == words[i - n]);
        }
    }
    events_of_messages(t, ms, conn_id);
    let all = events_for(t, ms, conn_id);
    let te = pull_events(received);
    assert(te =~= all.subrange(0, te.len() as int));
    let j = if te.len() <= n {
        te.len() as int
    } else {
        n
    };
    let first = chunks.take(j);
    let end = te.skip(j);
    let f = |d: Seq<u8>| TunnelEventView::Data(d);
    assert forall|i: int| 0 <= i < j implies te[i] == first.map_values(f)[i] by {
        assert(te[i] == all[i]);
        assert(all[i] == event_of(got[i]));
        assert(got[i] == data[i]);
    }
    assert(te =~= first.map_values(f) + end);
    assert forall|i: int| 0 <= i < end.len() implies !(#[trigger] end[i] is Data) by {
        assert(end[i] == all[j + i]);
        assert(all[j + i] == event_of(got[j + i]));
        assert(got[j + i] == words[j + i - n]);
    }
    data_before_the_end(te, first, end);
    transfer::downloads_are_fed_in_order(conn_id, PullState::Receiving, received);
    pulled_data(received);
    assert(first =~= chunks.subrange(0, j));
    flat_of_prefix(first, chunks);
    let actions = transfer::pull_run(conn_id, PullState::Receiving, received).1;
    if transfer::pull_succeeds(actions) && !received.contains(PullEventView::Fed(false)) {
        let good = TunnelEventView::Exit(0);
        transfer::downloads_are_confirmed(conn_id, PullState::Receiving, received);
        pulled_event(received, good);
        let i = choose|i: int| 0 <= i < te.len() && te[i] == good;
        if i < j {
            assert(te[i] == first.map_values(f)[i]);
        }
        assert(te[i] == all[i]);
        assert(all[i] == event_of(got[i]));
        assert(got[i] == words[i - n]);
        assert(j == n);
        assert(first =~= chunks);
        assert(words[i - n] is ExitStatus);
    }
}

// A message on the stream.

/// The data of the item is the message, sealed with the key; a comment carries none.
pub open spec fn item_carries(
    key: Seq<u8>,
    item: sse::StreamItem,
    m: Option<MessageView>,
) -> bool {
    match (item, m) {
        (sse::StreamItem::Event { text, data }, Some(m)) => sse::is_event_of(text, data)
            && envelope::carries(key, data, m),
        (sse::StreamItem::Comment, None) => true,
        _ => false,
    }
}

/// What the server puts on the stream under a key is what a client with that key reads off
/// it: each event yields its message and no other, each comment yields none, in order.
pub proof fn messages_cross_the_stream(
    key: Seq<u8>,
    items: Seq<sse::StreamItem>,
    sent: Seq<Option<MessageView>>,
)
    requires
        items.len() == sent.len(),
        forall|i: int|
            0 <= i < items.len() ==> item_carries(key, #[trigger] items[i], sent[i]),
    ensures
        sse::events(sse::stream_text(items)).len() == sent.len(),
        forall|i: int|
            #![trigger sent[i]]
            0 <= i < sent.len() ==> {
                let read = sse::data_of(sse::events(sse::stream_text(items))[i]);
                match sent[i] {
                    None => read.len() == 0,
                    Some(m) => {
                        &&& read.len() == 1
                        &&& read[0] is Some
                        &&& forall|r: MessageView|
                            #[trigger] envelope::holds(key, read[0]->0, r) <==> r == m
                    },
                }
            },
{
    assert forall|i: int| 0 <= i < items.len() implies sse::well_formed(#[trigger] items[i]) by {
        assert(item_carries(key, items[i], sent[i]));
    }
    sse::stream_round_trip(items);
    assert forall|i: int|
        #![trigger sent[i]]
        0 <= i < sent.len() implies {
        let read = sse::data_of(sse::events(sse::stream_text(items))[i]);
        match sent[i] {
            None => read.len() == 0,
            Some(m) => {
                &&& read.len() == 1
                &&& read[0] is Some
                &&& forall|r: MessageView|
                    #[trigger] envelope::holds(key, read[0]->0, r) <==> r == m
            },
        }
    } by {
        assert(item_carries(key, items[i], sent[i]));
        match (items[i], sent[i]) {
            (sse::StreamItem::Event { text, data }, Some(m)) => {
                assert forall|r: MessageView| #[trigger] envelope::holds(key, data, r) <==> r
                    == m by {
                    envelope::what_is_sealed_is_opened(key, data, m, r);
                }
            },
            _ => {},
        }
    }
}

} // verus!
