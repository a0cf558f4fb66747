//! Wire protocol codec: each envelope travels as one canonical JSON frame,
//! a tagged object in the exact byte form the encoder produces (tag first,
//! then the remaining fields in declaration order, no extra whitespace,
//! hyphenated session ids).
//!
//! The decoder accepts exactly those canonical frames, by deliberate
//! decision: a permissive JSON reader would also take reordered fields,
//! whitespace and other id spellings, but fixing one byte form keeps the
//! grammar, its proofs and its round trip exact, and every ordinary
//! tagged-JSON serializer emits the canonical form anyway. Every other
//! input is reported as malformed, which costs the sender one recoverable
//! error envelope and never ends the connection.

use vstd::prelude::*;
use vstd::utf8::encode_utf8;

use crate::messages::{ClientMessage, OutputStream, ServerMessage, SessionStatus};
use crate::uid::{
    Uid, hex_char, hex_digit, is_uid_text, lemma_uid_text_round_trip, uid_of_text, uid_text,
};

verus! {

// ---------------------------------------------------------------------------
// The literal pieces of a frame.
// ---------------------------------------------------------------------------
/// The whole ping frame: `{"type":"ping"}` (15 bytes).
pub open spec fn ping_frame() -> Seq<u8> {
    seq![123u8, 34u8, 116u8, 121u8, 112u8, 101u8, 34u8, 58u8, 34u8, 112u8, 105u8, 110u8, 103u8, 34u8, 125u8]
}

fn ping_frame_vec() -> (r: Vec<u8>)
    ensures
        r@ == ping_frame(),
{
    let mut v: Vec<u8> = Vec::new();
    v.extend_from_slice(&[123, 34, 116, 121, 112, 101, 34, 58, 34, 112, 105, 110, 103, 34, 125]);
    proof {
        assert(v@ =~= ping_frame());
    }
    v
}

/// The whole pong frame: `{"type":"pong"}` (15 bytes).
pub open spec fn pong_frame() -> Seq<u8> {
    seq![123u8, 34u8, 116u8, 121u8, 112u8, 101u8, 34u8, 58u8, 34u8, 112u8, 111u8, 110u8, 103u8, 34u8, 125u8]
}

fn pong_frame_vec() -> (r: Vec<u8>)
    ensures
        r@ == pong_frame(),
{
    let mut v: Vec<u8> = Vec::new();
    v.extend_from_slice(&[123, 34, 116, 121, 112, 101, 34, 58, 34, 112, 111, 110, 103, 34, 125]);
    proof {
        assert(v@ =~= pong_frame());
    }
    v
}

/// Opening of a subscribe frame, up to the session id: `{"type":"subscribe","session_id":"` (34 bytes).
pub open spec fn sub_head() -> Seq<u8> {
    seq![123u8, 34u8, 116u8, 121u8, 112u8, 101u8, 34u8, 58u8, 34u8, 115u8, 117u8, 98u8, 115u8, 99u8, 114u8, 105u8, 98u8, 101u8, 34u8, 44u8, 34u8, 115u8, 101u8, 115u8, 115u8, 105u8, 111u8, 110u8, 95u8, 105u8, 100u8, 34u8, 58u8, 34u8]
}

fn sub_head_vec() -> (r: Vec<u8>)
    ensures
        r@ == sub_head(),
{
    let mut v: Vec<u8> = Vec::new();
    v.extend_from_slice(&[123, 34, 116, 121, 112, 101, 34, 58, 34, 115, 117, 98, 115, 99, 114, 105, 98, 101, 34, 44, 34, 115, 101, 115, 115, 105, 111, 110, 95, 105, 100, 34, 58, 34]);
    proof {
        assert(v@ =~= sub_head());
    }
    v
}

/// Opening of an unsubscribe frame, up to the session id: `{"type":"unsubscribe","session_id":"` (36 bytes).
pub open spec fn unsub_head() -> Seq<u8> {
    seq![123u8, 34u8, 116u8, 121u8, 112u8, 101u8, 34u8, 58u8, 34u8, 117u8, 110u8, 115u8, 117u8, 98u8, 115u8, 99u8, 114u8, 105u8, 98u8, 101u8, 34u8, 44u8, 34u8, 115u8, 101u8, 115u8, 115u8, 105u8, 111u8, 110u8, 95u8, 105u8, 100u8, 34u8, 58u8, 34u8]
}

fn unsub_head_vec() -> (r: Vec<u8>)
    ensures
        r@ == unsub_head(),
{
    let mut v: Vec<u8> = Vec::new();
    v.extend_from_slice(&[123, 34, 116, 121, 112, 101, 34, 58, 34, 117, 110, 115, 117, 98, 115, 99, 114, 105, 98, 101, 34, 44, 34, 115, 101, 115, 115, 105, 111, 110, 95, 105, 100, 34, 58, 34]);
    proof {
        assert(v@ =~= unsub_head());
    }
    v
}

/// Opening of a cancel frame, up to the session id: `{"type":"cancel","session_id":"` (31 bytes).
pub open spec fn cancel_head() -> Seq<u8> {
    seq![123u8, 34u8, 116u8, 121u8, 112u8, 101u8, 34u8, 58u8, 34u8, 99u8, 97u8, 110u8, 99u8, 101u8, 108u8, 34u8, 44u8, 34u8, 115u8, 101u8, 115u8, 115u8, 105u8, 111u8, 110u8, 95u8, 105u8, 100u8, 34u8, 58u8, 34u8]
}

fn cancel_head_vec() -> (r: Vec<u8>)
    ensures
        r@ == cancel_head(),
{
    let mut v: Vec<u8> = Vec::new();
    v.extend_from_slice(&[123, 34, 116, 121, 112, 101, 34, 58, 34, 99, 97, 110, 99, 101, 108, 34, 44, 34, 115, 101, 115, 115, 105, 111, 110, 95, 105, 100, 34, 58, 34]);
    proof {
        assert(v@ =~= cancel_head());
    }
    v
}

/// Opening of a subscribed acknowledgement, up to the session id: `{"type":"subscribed","session_id":"` (35 bytes).
pub open spec fn subd_head() -> Seq<u8> {
    seq![123u8, 34u8, 116u8, 121u8, 112u8, 101u8, 34u8, 58u8, 34u8, 115u8, 117u8, 98u8, 115u8, 99u8, 114u8, 105u8, 98u8, 101u8, 100u8, 34u8, 44u8, 34u8, 115u8, 101u8, 115u8, 115u8, 105u8, 111u8, 110u8, 95u8, 105u8, 100u8, 34u8, 58u8, 34u8]
}

fn subd_head_vec() -> (r: Vec<u8>)
    ensures
        r@ == subd_head(),
{
    let mut v: Vec<u8> = Vec::new();
    v.extend_from_slice(&[123, 34, 116, 121, 112, 101, 34, 58, 34, 115, 117, 98, 115, 99, 114, 105, 98, 101, 100, 34, 44, 34, 115, 101, 115, 115, 105, 111, 110, 95, 105, 100, 34, 58, 34]);
    proof {
        assert(v@ =~= subd_head());
    }
    v
}

/// Opening of an unsubscribed acknowledgement, up to the session id: `{"type":"unsubscribed","session_id":"` (37 bytes).
pub open spec fn unsubd_head() -> Seq<u8> {
    seq![123u8, 34u8, 116u8, 121u8, 112u8, 101u8, 34u8, 58u8, 34u8, 117u8, 110u8, 115u8, 117u8, 98u8, 115u8, 99u8, 114u8, 105u8, 98u8, 101u8, 100u8, 34u8, 44u8, 34u8, 115u8, 101u8, 115u8, 115u8, 105u8, 111u8, 110u8, 95u8, 105u8, 100u8, 34u8, 58u8, 34u8]
}

fn unsubd_head_vec() -> (r: Vec<u8>)
    ensures
        r@ == unsubd_head(),
{
    let mut v: Vec<u8> = Vec::new();
    v.extend_from_slice(&[123, 34, 116, 121, 112, 101, 34, 58, 34, 117, 110, 115, 117, 98, 115, 99, 114, 105, 98, 101, 100, 34, 44, 34, 115, 101, 115, 115, 105, 111, 110, 95, 105, 100, 34, 58, 34]);
    proof {
        assert(v@ =~= unsubd_head());
    }
    v
}

/// Opening of an output frame, up to the session id: `{"type":"output","session_id":"` (31 bytes).
pub open spec fn output_head() -> Seq<u8> {
    seq![123u8, 34u8, 116u8, 121u8, 112u8, 101u8, 34u8, 58u8, 34u8, 111u8, 117u8, 116u8, 112u8, 117u8, 116u8, 34u8, 44u8, 34u8, 115u8, 101u8, 115u8, 115u8, 105u8, 111u8, 110u8, 95u8, 105u8, 100u8, 34u8, 58u8, 34u8]
}

fn output_head_vec() -> (r: Vec<u8>)
    ensures
        r@ == output_head(),
{
    let mut v: Vec<u8> = Vec::new();
    v.extend_from_slice(&[123, 34, 116, 121, 112, 101, 34, 58, 34, 111, 117, 116, 112, 117, 116, 34, 44, 34, 115, 101, 115, 115, 105, 111, 110, 95, 105, 100, 34, 58, 34]);
    proof {
        assert(v@ =~= output_head());
    }
    v
}

/// Middle of an output frame, between the session id and the stream name: `","stream":"` (12 bytes).
pub open spec fn stream_mid() -> Seq<u8> {
    seq![34u8, 44u8, 34u8, 115u8, 116u8, 114u8, 101u8, 97u8, 109u8, 34u8, 58u8, 34u8]
}

fn stream_mid_vec() -> (r: Vec<u8>)
    ensures
        r@ == stream_mid(),
{
    let mut v: Vec<u8> = Vec::new();
    v.extend_from_slice(&[34, 44, 34, 115, 116, 114, 101, 97, 109, 34, 58, 34]);
    proof {
        assert(v@ =~= stream_mid());
    }
    v
}

/// Middle of an output frame, between the stream name and the content: `","content":"` (13 bytes).
pub open spec fn content_mid() -> Seq<u8> {
    seq![34u8, 44u8, 34u8, 99u8, 111u8, 110u8, 116u8, 101u8, 110u8, 116u8, 34u8, 58u8, 34u8]
}

fn content_mid_vec() -> (r: Vec<u8>)
    ensures
        r@ == content_mid(),
{
    let mut v: Vec<u8> = Vec::new();
    v.extend_from_slice(&[34, 44, 34, 99, 111, 110, 116, 101, 110, 116, 34, 58, 34]);
    proof {
        assert(v@ =~= content_mid());
    }
    v
}

/// Opening of a status frame, up to the session id: `{"type":"status","session_id":"` (31 bytes).
pub open spec fn status_head() -> Seq<u8> {
    seq![123u8, 34u8, 116u8, 121u8, 112u8, 101u8, 34u8, 58u8, 34u8, 115u8, 116u8, 97u8, 116u8, 117u8, 115u8, 34u8, 44u8, 34u8, 115u8, 101u8, 115u8, 115u8, 105u8, 111u8, 110u8, 95u8, 105u8, 100u8, 34u8, 58u8, 34u8]
}

fn status_head_vec() -> (r: Vec<u8>)
    ensures
        r@ == status_head(),
{
    let mut v: Vec<u8> = Vec::new();
    v.extend_from_slice(&[123, 34, 116, 121, 112, 101, 34, 58, 34, 115, 116, 97, 116, 117, 115, 34, 44, 34, 115, 101, 115, 115, 105, 111, 110, 95, 105, 100, 34, 58, 34]);
    proof {
        assert(v@ =~= status_head());
    }
    v
}

/// Middle of a status frame, between the session id and the status name: `","status":"` (12 bytes).
pub open spec fn status_mid() -> Seq<u8> {
    seq![34u8, 44u8, 34u8, 115u8, 116u8, 97u8, 116u8, 117u8, 115u8, 34u8, 58u8, 34u8]
}

fn status_mid_vec() -> (r: Vec<u8>)
    ensures
        r@ == status_mid(),
{
    let mut v: Vec<u8> = Vec::new();
    v.extend_from_slice(&[34, 44, 34, 115, 116, 97, 116, 117, 115, 34, 58, 34]);
    proof {
        assert(v@ =~= status_mid());
    }
    v
}

/// Opening of an error frame, up to the message text: `{"type":"error","message":"` (27 bytes).
pub open spec fn error_head() -> Seq<u8> {
    seq![123u8, 34u8, 116u8, 121u8, 112u8, 101u8, 34u8, 58u8, 34u8, 101u8, 114u8, 114u8, 111u8, 114u8, 34u8, 44u8, 34u8, 109u8, 101u8, 115u8, 115u8, 97u8, 103u8, 101u8, 34u8, 58u8, 34u8]
}

fn error_head_vec() -> (r: Vec<u8>)
    ensures
        r@ == error_head(),
{
    let mut v: Vec<u8> = Vec::new();
    v.extend_from_slice(&[123, 34, 116, 121, 112, 101, 34, 58, 34, 101, 114, 114, 111, 114, 34, 44, 34, 109, 101, 115, 115, 97, 103, 101, 34, 58, 34]);
    proof {
        assert(v@ =~= error_head());
    }
    v
}

/// Closing of every frame whose last field is a string: `"}` (2 bytes).
pub open spec fn frame_tail() -> Seq<u8> {
    seq![34u8, 125u8]
}

fn frame_tail_vec() -> (r: Vec<u8>)
    ensures
        r@ == frame_tail(),
{
    let mut v: Vec<u8> = Vec::new();
    v.extend_from_slice(&[34, 125]);
    proof {
        assert(v@ =~= frame_tail());
    }
    v
}

/// The name of the standard output stream: `stdout` (6 bytes).
pub open spec fn stdout_name() -> Seq<u8> {
    seq![115u8, 116u8, 100u8, 111u8, 117u8, 116u8]
}

fn stdout_name_vec() -> (r: Vec<u8>)
    ensures
        r@ == stdout_name(),
{
    let mut v: Vec<u8> = Vec::new();
    v.extend_from_slice(&[115, 116, 100, 111, 117, 116]);
    proof {
        assert(v@ =~= stdout_name());
    }
    v
}

/// The name of the standard error stream: `stderr` (6 bytes).
pub open spec fn stderr_name() -> Seq<u8> {
    seq![115u8, 116u8, 100u8, 101u8, 114u8, 114u8]
}

fn stderr_name_vec() -> (r: Vec<u8>)
    ensures
        r@ == stderr_name(),
{
    let mut v: Vec<u8> = Vec::new();
    v.extend_from_slice(&[115, 116, 100, 101, 114, 114]);
    proof {
        assert(v@ =~= stderr_name());
    }
    v
}

/// The name of the idle status: `idle` (4 bytes).
pub open spec fn idle_name() -> Seq<u8> {
    seq![105u8, 100u8, 108u8, 101u8]
}

fn idle_name_vec() -> (r: Vec<u8>)
    ensures
        r@ == idle_name(),
{
    let mut v: Vec<u8> = Vec::new();
    v.extend_from_slice(&[105, 100, 108, 101]);
    proof {
        assert(v@ =~= idle_name());
    }
    v
}

/// The name of the running status: `running` (7 bytes).
pub open spec fn running_name() -> Seq<u8> {
    seq![114u8, 117u8, 110u8, 110u8, 105u8, 110u8, 103u8]
}

fn running_name_vec() -> (r: Vec<u8>)
    ensures
        r@ == running_name(),
{
    let mut v: Vec<u8> = Vec::new();
    v.extend_from_slice(&[114, 117, 110, 110, 105, 110, 103]);
    proof {
        assert(v@ =~= running_name());
    }
    v
}

/// The name of the completed status: `completed` (9 bytes).
pub open spec fn completed_name() -> Seq<u8> {
    seq![99u8, 111u8, 109u8, 112u8, 108u8, 101u8, 116u8, 101u8, 100u8]
}

fn completed_name_vec() -> (r: Vec<u8>)
    ensures
        r@ == completed_name(),
{
    let mut v: Vec<u8> = Vec::new();
    v.extend_from_slice(&[99, 111, 109, 112, 108, 101, 116, 101, 100]);
    proof {
        assert(v@ =~= completed_name());
    }
    v
}

/// The name of the error status: `error` (5 bytes).
pub open spec fn error_name() -> Seq<u8> {
    seq![101u8, 114u8, 114u8, 111u8, 114u8]
}

fn error_name_vec() -> (r: Vec<u8>)
    ensures
        r@ == error_name(),
{
    let mut v: Vec<u8> = Vec::new();
    v.extend_from_slice(&[101, 114, 114, 111, 114]);
    proof {
        assert(v@ =~= error_name());
    }
    v
}

/// The name of the cancelled status: `cancelled` (9 bytes).
pub open spec fn cancelled_name() -> Seq<u8> {
    seq![99u8, 97u8, 110u8, 99u8, 101u8, 108u8, 108u8, 101u8, 100u8]
}

fn cancelled_name_vec() -> (r: Vec<u8>)
    ensures
        r@ == cancelled_name(),
{
    let mut v: Vec<u8> = Vec::new();
    v.extend_from_slice(&[99, 97, 110, 99, 101, 108, 108, 101, 100]);
    proof {
        assert(v@ =~= cancelled_name());
    }
    v
}

/// The lower-case name of an output stream.
pub open spec fn stream_name(st: OutputStream) -> Seq<u8> {
    match st {
        OutputStream::Stdout => stdout_name(),
        OutputStream::Stderr => stderr_name(),
    }
}

fn stream_name_vec(st: &OutputStream) -> (r: Vec<u8>)
    ensures
        r@ == stream_name(*st),
{
    match st {
        OutputStream::Stdout => stdout_name_vec(),
        OutputStream::Stderr => stderr_name_vec(),
    }
}

/// The lower-case name of a session status.
pub open spec fn status_name(st: SessionStatus) -> Seq<u8> {
    match st {
        SessionStatus::Idle => idle_name(),
        SessionStatus::Running => running_name(),
        SessionStatus::Completed => completed_name(),
        SessionStatus::Error => error_name(),
        SessionStatus::Cancelled => cancelled_name(),
    }
}

fn status_name_vec(st: &SessionStatus) -> (r: Vec<u8>)
    ensures
        r@ == status_name(*st),
{
    match st {
        SessionStatus::Idle => idle_name_vec(),
        SessionStatus::Running => running_name_vec(),
        SessionStatus::Completed => completed_name_vec(),
        SessionStatus::Error => error_name_vec(),
        SessionStatus::Cancelled => cancelled_name_vec(),
    }
}

// ---------------------------------------------------------------------------
// JSON string escaping.
// ---------------------------------------------------------------------------
/// How one byte of a string field appears inside a frame: quote, backslash
/// and the control bytes are escaped, every other byte stands as itself.
pub open spec fn esc_byte(b: u8) -> Seq<u8> {
    if b == 34 {
        seq![92u8, 34u8]
    } else if b == 92 {
        seq![92u8, 92u8]
    } else if b == 8 {
        seq![92u8, 98u8]
    } else if b == 12 {
        seq![92u8, 102u8]
    } else if b == 10 {
        seq![92u8, 110u8]
    } else if b == 13 {
        seq![92u8, 114u8]
    } else if b == 9 {
        seq![92u8, 116u8]
    } else if b < 32 {
        seq![92u8, 117u8, 48u8, 48u8, hex_char(b / 16), hex_char(b % 16)]
    } else {
        seq![b]
    }
}

/// A whole byte string as it appears inside a frame.
pub open spec fn escape(s: Seq<u8>) -> Seq<u8>
    decreases s.len(),
{
    if s.len() == 0 {
        Seq::empty()
    } else {
        esc_byte(s[0]) + escape(s.drop_first())
    }
}

proof fn lemma_escape_one(b: u8)
    ensures
        escape(seq![b]) == esc_byte(b),
{
    assert(seq![b].drop_first() =~= Seq::<u8>::empty());
    assert(escape(Seq::<u8>::empty()) == Seq::<u8>::empty());
    assert(escape(seq![b]) == esc_byte(b) + Seq::<u8>::empty());
    assert(esc_byte(b) + Seq::<u8>::empty() =~= esc_byte(b));
}

proof fn lemma_escape_append(a: Seq<u8>, b: Seq<u8>)
    ensures
        escape(a + b) == escape(a) + escape(b),
    decreases a.len(),
{
    if a.len() == 0 {
        assert(a + b =~= b);
        assert(escape(a) + escape(b) =~= escape(b));
    } else {
        assert((a + b).len() > 0);
        assert((a + b)[0] == a[0]);
        assert((a + b).drop_first() =~= a.drop_first() + b);
        lemma_escape_append(a.drop_first(), b);
        assert(esc_byte(a[0]) + (escape(a.drop_first()) + escape(b)) =~= (esc_byte(a[0]) + escape(
            a.drop_first(),
        )) + escape(b));
    }
}

/// Writes a byte string in its escaped frame form.
fn escape_bytes(s: &[u8]) -> (r: Vec<u8>)
    ensures
        r@ == escape(s@),
{
    let mut out: Vec<u8> = Vec::new();
    let mut i: usize = 0;
    while i < s.len()
        invariant
            i <= s@.len(),
            out@ == escape(s@.take(i as int)),
        decreases s@.len() - i,
    {
        let b = s[i];
        proof {
            assert(s@.take(i + 1) =~= s@.take(i as int) + seq![s@[i as int]]);
            lemma_escape_append(s@.take(i as int), seq![s@[i as int]]);
            lemma_escape_one(s@[i as int]);
        }
        if b == 34 {
            out.push(92);
            out.push(34);
        } else if b == 92 {
            out.push(92);
            out.push(92);
        } else if b == 8 {
            out.push(92);
            out.push(98);
        } else if b == 12 {
            out.push(92);
            out.push(102);
        } else if b == 10 {
            out.push(92);
            out.push(110);
        } else if b == 13 {
            out.push(92);
            out.push(114);
        } else if b == 9 {
            out.push(92);
            out.push(116);
        } else if b < 32 {
            out.push(92);
            out.push(117);
            out.push(48);
            out.push(48);
            out.push(hex_digit(b / 16));
            out.push(hex_digit(b % 16));
        } else {
            out.push(b);
        }
        proof {
            assert(out@ =~= escape(s@.take(i + 1)));
        }
        i = i + 1;
    }
    proof {
        assert(s@.take(s@.len() as int) =~= s@);
    }
    out
}

// ---------------------------------------------------------------------------
// Encoding.
// ---------------------------------------------------------------------------
/// The one frame that carries a client command.
pub open spec fn spec_encode_client(m: ClientMessage) -> Seq<u8> {
    match m {
        ClientMessage::Subscribe { session_id } => sub_head() + uid_text(session_id.value)
            + frame_tail(),
        ClientMessage::Unsubscribe { session_id } => unsub_head() + uid_text(session_id.value)
            + frame_tail(),
        ClientMessage::Cancel { session_id } => cancel_head() + uid_text(session_id.value)
            + frame_tail(),
        ClientMessage::Ping => ping_frame(),
    }
}

/// The one frame that carries a hub event.
pub open spec fn spec_encode_server(m: ServerMessage) -> Seq<u8> {
    match m {
        ServerMessage::Subscribed { session_id } => subd_head() + uid_text(session_id.value)
            + frame_tail(),
        ServerMessage::Unsubscribed { session_id } => unsubd_head() + uid_text(session_id.value)
            + frame_tail(),
        ServerMessage::Output { session_id, stream, content } => output_head() + uid_text(
            session_id.value,
        ) + stream_mid() + stream_name(stream) + content_mid() + escape(encode_utf8(content@))
            + frame_tail(),
        ServerMessage::Status { session_id, status } => status_head() + uid_text(session_id.value)
            + status_mid() + status_name(status) + frame_tail(),
        ServerMessage::Error { message } => error_head() + escape(encode_utf8(message@))
            + frame_tail(),
        ServerMessage::Pong => pong_frame(),
    }
}

/// Writes a client command as its frame.
pub fn encode_client_message(m: &ClientMessage) -> (r: Vec<u8>)
    ensures
        r@ == spec_encode_client(*m),
{
    let mut out: Vec<u8> = Vec::new();
    match m {
        ClientMessage::Subscribe { session_id } => {
            let mut h = sub_head_vec();
            out.append(&mut h);
            let mut u = session_id.to_text();
            out.append(&mut u);
            let mut t = frame_tail_vec();
            out.append(&mut t);
        },
        ClientMessage::Unsubscribe { session_id } => {
            let mut h = unsub_head_vec();
            out.append(&mut h);
            let mut u = session_id.to_text();
            out.append(&mut u);
            let mut t = frame_tail_vec();
            out.append(&mut t);
        },
        ClientMessage::Cancel { session_id } => {
            let mut h = cancel_head_vec();
            out.append(&mut h);
            let mut u = session_id.to_text();
            out.append(&mut u);
            let mut t = frame_tail_vec();
            out.append(&mut t);
        },
        ClientMessage::Ping => {
            let mut h = ping_frame_vec();
            out.append(&mut h);
        },
    }
    proof {
        assert(out@ =~= spec_encode_client(*m));
    }
    out
}

/// Writes a hub event as its frame.
pub fn encode_server_message(m: &ServerMessage) -> (r: Vec<u8>)
    ensures
        r@ == spec_encode_server(*m),
{
    let mut out: Vec<u8> = Vec::new();
    match m {
        ServerMessage::Subscribed { session_id } => {
            let mut h = subd_head_vec();
            out.append(&mut h);
            let mut u = session_id.to_text();
            out.append(&mut u);
            let mut t = frame_tail_vec();
            out.append(&mut t);
        },
        ServerMessage::Unsubscribed { session_id } => {
            let mut h = unsubd_head_vec();
            out.append(&mut h);
            let mut u = session_id.to_text();
            out.append(&mut u);
            let mut t = frame_tail_vec();
            out.append(&mut t);
        },
        ServerMessage::Output { session_id, stream, content } => {
            let mut h = output_head_vec();
            out.append(&mut h);
            let mut u = session_id.to_text();
            out.append(&mut u);
            let mut m1 = stream_mid_vec();
            out.append(&mut m1);
            let mut sn = stream_name_vec(stream);
            out.append(&mut sn);
            let mut m2 = content_mid_vec();
            out.append(&mut m2);
            let mut c = escape_bytes(content.as_str().as_bytes());
            out.append(&mut c);
            let mut t = frame_tail_vec();
            out.append(&mut t);
        },
        ServerMessage::Status { session_id, status } => {
            let mut h = status_head_vec();
            out.append(&mut h);
            let mut u = session_id.to_text();
            out.append(&mut u);
            let mut m1 = status_mid_vec();
            out.append(&mut m1);
            let mut sn = status_name_vec(status);
            out.append(&mut sn);
            let mut t = frame_tail_vec();
            out.append(&mut t);
        },
        ServerMessage::Error { message } => {
            let mut h = error_head_vec();
            out.append(&mut h);
            let mut e = escape_bytes(message.as_str().as_bytes());
            out.append(&mut e);
            let mut t = frame_tail_vec();
            out.append(&mut t);
        },
        ServerMessage::Pong => {
            let mut h = pong_frame_vec();
            out.append(&mut h);
        },
    }
    proof {
        assert(out@ =~= spec_encode_server(*m));
    }
    out
}

// ---------------------------------------------------------------------------
// Decoding.
// ---------------------------------------------------------------------------
/// The session id bytes of a command frame with the given opening.
pub open spec fn frame_uid_text(s: Seq<u8>, head: Seq<u8>) -> Seq<u8> {
    s.subrange(head.len() as int, head.len() as int + 36)
}

/// Whether a byte string is a command frame with the given opening and a
/// well-formed session id.
pub open spec fn frame_matches(s: Seq<u8>, head: Seq<u8>) -> bool {
    &&& s.len() == head.len() + 38
    &&& s.subrange(0, head.len() as int) == head
    &&& s.subrange(head.len() as int + 36, head.len() as int + 38) == frame_tail()
    &&& is_uid_text(frame_uid_text(s, head))
}

/// The command read from a byte string, or nothing when the bytes are not a
/// canonical command frame.
pub open spec fn spec_decode_client(s: Seq<u8>) -> Option<ClientMessage> {
    if s == ping_frame() {
        Some(ClientMessage::Ping)
    } else if frame_matches(s, sub_head()) {
        Some(
            ClientMessage::Subscribe {
                session_id: Uid { value: uid_of_text(frame_uid_text(s, sub_head())) },
            },
        )
    } else if frame_matches(s, unsub_head()) {
        Some(
            ClientMessage::Unsubscribe {
                session_id: Uid { value: uid_of_text(frame_uid_text(s, unsub_head())) },
            },
        )
    } else if frame_matches(s, cancel_head()) {
        Some(
            ClientMessage::Cancel {
                session_id: Uid { value: uid_of_text(frame_uid_text(s, cancel_head())) },
            },
        )
    } else {
        None
    }
}

/// Whether the bytes of `s` starting at `off` are exactly `pat`.
fn match_at(s: &[u8], off: usize, pat: &[u8]) -> (r: bool)
    requires
        off <= s@.len(),
    ensures
        r == (off + pat@.len() <= s@.len() && s@.subrange(off as int, off + pat@.len()) == pat@),
{
    if pat.len() > s.len() - off {
        return false;
    }
    let mut i: usize = 0;
    while i < pat.len()
        invariant
            i <= pat@.len(),
            off + pat@.len() <= s@.len(),
            s@.len() <= usize::MAX,
            forall|k: int| 0 <= k < i ==> s@[off + k] == pat@[k],
        decreases pat@.len() - i,
    {
        proof {
            assert(off + i < s@.len());
        }
        if s[off + i] != pat[i] {
            proof {
                assert(s@.subrange(off as int, off + pat@.len())[i as int] == s@[off + i]);
            }
            return false;
        }
        i = i + 1;
    }
    proof {
        assert(s@.subrange(off as int, off + pat@.len()) =~= pat@);
    }
    true
}

/// Reads the session id of a command frame with the given opening, or
/// nothing when the bytes are not such a frame.
fn try_uid_frame(s: &[u8], head: &[u8]) -> (r: Option<Uid>)
    ensures
        frame_matches(s@, head@) ==> r == (Some(
            Uid { value: uid_of_text(frame_uid_text(s@, head@)) },
        )),
        !frame_matches(s@, head@) ==> r is None,
{
    if s.len() < 38 || s.len() - 38 != head.len() {
        return None;
    }
    if !match_at(s, 0, head) {
        return None;
    }
    let tail = frame_tail_vec();
    if !match_at(s, head.len() + 36, tail.as_slice()) {
        return None;
    }
    let mid = &s[head.len()..head.len() + 36];
    Uid::parse_text(mid)
}

/// Reads a client command from a byte string; every input that is not a
/// canonical command frame is reported as malformed.
pub fn decode_client_message(s: &[u8]) -> (r: Option<ClientMessage>)
    ensures
        r == spec_decode_client(s@),
{
    let ping = ping_frame_vec();
    if s.len() == ping.len() {
        if match_at(s, 0, ping.as_slice()) {
            proof {
                assert(s@.subrange(0, s@.len() as int) =~= s@);
            }
            return Some(ClientMessage::Ping);
        }
        proof {
            if s@ == ping_frame() {
                assert(s@.subrange(0, ping_frame().len() as int) =~= ping_frame());
            }
        }
    }
    let sub = sub_head_vec();
    if let Some(u) = try_uid_frame(s, sub.as_slice()) {
        return Some(ClientMessage::Subscribe { session_id: u });
    }
    let unsub = unsub_head_vec();
    if let Some(u) = try_uid_frame(s, unsub.as_slice()) {
        return Some(ClientMessage::Unsubscribe { session_id: u });
    }
    let cancel = cancel_head_vec();
    if let Some(u) = try_uid_frame(s, cancel.as_slice()) {
        return Some(ClientMessage::Cancel { session_id: u });
    }
    None
}

// ---------------------------------------------------------------------------
// The codec round trip.
// ---------------------------------------------------------------------------
/// Every client command reads back from its own frame.
pub proof fn lemma_client_codec_round_trip(m: ClientMessage)
    ensures
        spec_decode_client(spec_encode_client(m)) == Some(m),
{
    let s = spec_encode_client(m);
    match m {
        ClientMessage::Ping => {
        },
        ClientMessage::Subscribe { session_id } => {
            lemma_uid_text_round_trip(session_id.value);
            assert(s.subrange(0, sub_head().len() as int) =~= sub_head());
            assert(frame_uid_text(s, sub_head()) =~= uid_text(session_id.value));
            assert(s.subrange(sub_head().len() as int + 36, sub_head().len() as int + 38)
                =~= frame_tail());
            assert(frame_matches(s, sub_head()));
        },
        ClientMessage::Unsubscribe { session_id } => {
            lemma_uid_text_round_trip(session_id.value);
            assert(s.subrange(0, unsub_head().len() as int) =~= unsub_head());
            assert(frame_uid_text(s, unsub_head()) =~= uid_text(session_id.value));
            assert(s.subrange(unsub_head().len() as int + 36, unsub_head().len() as int + 38)
                =~= frame_tail());
            assert(frame_matches(s, unsub_head()));
        },
        ClientMessage::Cancel { session_id } => {
            lemma_uid_text_round_trip(session_id.value);
            assert(s.subrange(0, cancel_head().len() as int) =~= cancel_head());
            assert(frame_uid_text(s, cancel_head()) =~= uid_text(session_id.value));
            assert(s.subrange(cancel_head().len() as int + 36, cancel_head().len() as int + 38)
                =~= frame_tail());
            assert(frame_matches(s, cancel_head()));
        },
    }
}

} // verus!
