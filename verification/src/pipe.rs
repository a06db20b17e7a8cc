//! The decisions of the pipe that joins a shell's PTY to its Hermytt
//! session: what each websocket frame from Hermytt asks of the shell, and
//! what each read from the PTY sends.

use vstd::prelude::*;
use vstd::string::*;
use vstd::utf8::*;
use crate::bridge::{parse_resize, resize_of_parse};
use crate::json::json_parse;
use crate::text::utf8_text;

verus! {

/// A websocket frame received from Hermytt, as the pipe reads it.
#[derive(Debug)]
pub enum WsFrame {
    Binary(Vec<u8>),
    Text(String),
    Close,
    /// A ping, a pong or a raw frame.
    Other,
}

/// What the pipe does with a frame from Hermytt.
#[derive(Debug, PartialEq, Eq)]
pub enum InboundAction {
    /// Resize the shell's terminal.
    Resize { cols: u16, rows: u16 },
    /// Write these bytes to the shell's PTY.
    Write(Vec<u8>),
    /// Stop the pipe.
    Stop,
    /// Ignore the frame.
    Skip,
}

/// What the pipe does with a read from the shell's PTY.
#[derive(Debug, PartialEq, Eq)]
pub enum OutboundAction {
    /// Send these bytes to Hermytt as a binary frame.
    Send(Vec<u8>),
    /// Close the websocket and stop.
    Stop,
}

/// The bytes a data frame carries: a text frame's text in UTF-8.
pub open spec fn frame_bytes(f: WsFrame) -> Seq<u8> {
    match f {
        WsFrame::Binary(d) => d@,
        WsFrame::Text(t) => encode_utf8(t@),
        _ => Seq::empty(),
    }
}

/// The resize request that the bytes `raw` spell, if they are UTF-8 text
/// holding one.
pub open spec fn resize_of_bytes(raw: Seq<u8>) -> Option<(u16, u16)> {
    if valid_utf8(raw) {
        resize_of_parse(json_parse(decode_utf8(raw)))
    } else {
        None
    }
}

/// The resize request in raw frame bytes, if any.
pub fn resize_in_bytes(raw: &Vec<u8>) -> (r: Option<(u16, u16)>)
    ensures
        r == resize_of_bytes(raw@),
{
    match utf8_text(raw.as_slice()) {
        Some(text) => {
            proof {
                encode_utf8_decode_utf8(text@);
            }
            parse_resize(text)
        },
        None => None,
    }
}

/// What the pipe does with frame `f`: a close frame stops it, a control
/// frame is ignored, a data frame that holds a resize request resizes the
/// terminal, and any other data frame is written to the PTY.
pub fn inbound_action(f: WsFrame) -> (r: InboundAction)
    ensures
        match f {
            WsFrame::Close => r is Stop,
            WsFrame::Other => r is Skip,
            _ => match resize_of_bytes(frame_bytes(f)) {
                Some((cols, rows)) => r == (InboundAction::Resize { cols, rows }),
                None => r matches InboundAction::Write(d) && d@ == frame_bytes(f),
            },
        },
        f matches WsFrame::Text(t) ==> (r matches InboundAction::Write(d) ==> d@ == encode_utf8(t@)),
        f matches WsFrame::Binary(b) ==> (r matches InboundAction::Write(d) ==> d@ == b@),
        r is Write || r is Resize <==> (f is Text || f is Binary),
{
    let raw = match f {
        WsFrame::Binary(d) => d,
        WsFrame::Text(t) => t.as_str().as_bytes_vec(),
        WsFrame::Close => return InboundAction::Stop,
        WsFrame::Other => return InboundAction::Skip,
    };
    match resize_in_bytes(&raw) {
        Some((cols, rows)) => InboundAction::Resize { cols, rows },
        None => InboundAction::Write(raw),
    }
}

/// What the pipe does with a read from the PTY (`None` for a failed read):
/// an empty read (end of file) or a failure stops it, data is sent on.
pub fn outbound_action(read: Option<Vec<u8>>) -> (r: OutboundAction)
    ensures
        match read {
            Some(d) => if d@.len() == 0 { r is Stop } else { r == OutboundAction::Send(d) },
            None => r is Stop,
        },
{
    match read {
        Some(d) => if d.len() == 0 { OutboundAction::Stop } else { OutboundAction::Send(d) },
        None => OutboundAction::Stop,
    }
}

} // verus!
