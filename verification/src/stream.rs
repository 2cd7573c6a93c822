//! Byte-frame codecs for the example line and location protocols.

use vstd::prelude::*;

verus! {

/// Why a frame could not be produced: more bytes are needed, the peer asked
/// to close, the bytes are not a frame, or something else went wrong.
#[derive(Debug)]
pub enum FrameError {
    Incomplete,
    Exit,
    ParseError(String),
    Other(String),
}

/// A frame of the echo protocol: one line in, one line out.
#[derive(Clone, Debug)]
pub enum EchoFrame {
    Request(String),
    Response(String),
    Unknown(String),
    Empty,
}

/// Whitespace, as the line protocol trims it.
pub open spec fn is_ws_byte(b: u8) -> bool {
    b == 32 || b == 9 || b == 13 || b == 10
}

/// The first position at or after `i` holding a line feed, or the length.
pub open spec fn find_nl(bs: Seq<u8>, i: nat) -> nat
    decreases bs.len() - i,
{
    if i >= bs.len() {
        bs.len()
    } else if bs[i as int] == 10 {
        i
    } else {
        find_nl(bs, i + 1)
    }
}

/// The bytes without their trailing whitespace.
pub open spec fn trim_end_b(s: Seq<u8>) -> Seq<u8>
    decreases s,
{
    if s.len() > 0 && is_ws_byte(s[s.len() - 1]) {
        trim_end_b(s.subrange(0, s.len() - 1))
    } else {
        s
    }
}

/// The bytes without their leading whitespace.
pub open spec fn trim_start_b(s: Seq<u8>) -> Seq<u8>
    decreases s,
{
    if s.len() > 0 && is_ws_byte(s[0]) {
        trim_start_b(s.subrange(1, s.len() as int))
    } else {
        s
    }
}

/// The bytes with whitespace trimmed from both ends.
pub open spec fn trimmed(s: Seq<u8>) -> Seq<u8> {
    trim_start_b(trim_end_b(s))
}

/// The line read from the front of the buffer: up to and including the
/// first line feed, or the whole buffer.
pub open spec fn line_len(bs: Seq<u8>) -> nat {
    if find_nl(bs, 0) < bs.len() {
        find_nl(bs, 0) + 1
    } else {
        bs.len()
    }
}

/// Whether `b` is whitespace; see [`is_ws_byte`].
fn is_ws_b_exec(b: u8) -> (r: bool)
    ensures
        r == is_ws_byte(b),
{
    b == 32 || b == 9 || b == 13 || b == 10
}

impl EchoFrame {
    /// Reads one line and answers it: `hello` earns `world`, `haha` earns
    /// `xixi`, `bye` and `quit` close the connection, an empty buffer needs
    /// more bytes, and anything else is not a command.  Returns the frame
    /// and how many bytes were consumed.
    pub fn read(buf: &[u8]) -> (r: Result<(EchoFrame, usize), FrameError>)
        ensures
            buf@.len() == 0 <==> r matches Err(FrameError::Incomplete),
            r matches Ok((f, n)) ==> {
                &&& n == line_len(buf@)
                &&& (f matches EchoFrame::Response(s) && (
                    (trimmed(buf@.subrange(0, n as int)) == seq![104u8, 101u8, 108u8, 108u8, 111u8]
                        && s@ == "world\r\n"@) || (trimmed(buf@.subrange(0, n as int)) == seq![
                        104u8,
                        97u8,
                        104u8,
                        97u8,
                    ] && s@ == "xixi\r\n"@)))
            },
            r matches Err(FrameError::Exit) ==> (trimmed(
                buf@.subrange(0, line_len(buf@) as int),
            ) == seq![98u8, 121u8, 101u8] || trimmed(buf@.subrange(0, line_len(buf@) as int))
                == seq![113u8, 117u8, 105u8, 116u8]),
    {
        let len = buf.len();
        if len == 0 {
            return Err(FrameError::Incomplete);
        }
        let mut nl: usize = 0;
        while nl < len && buf[nl] != 10
            invariant
                nl <= len,
                len == buf@.len(),
                find_nl(buf@, 0) == find_nl(buf@, nl as nat),
            decreases len - nl,
        {
            nl = nl + 1;
        }
        let consumed: usize = if nl < len {
            nl + 1
        } else {
            len
        };
        let ghost line = buf@.subrange(0, consumed as int);
        let mut end = consumed;
        while end > 0 && is_ws_b_exec(buf[end - 1])
            invariant
                end <= consumed <= len,
                len == buf@.len(),
                trim_end_b(line) == trim_end_b(buf@.subrange(0, end as int)),
            decreases end,
        {
            proof {
                assert(buf@.subrange(0, end as int).subrange(0, end - 1) =~= buf@.subrange(
                    0,
                    end - 1,
                ));
            }
            end = end - 1;
        }
        proof {
            assert(trim_end_b(buf@.subrange(0, end as int)) == buf@.subrange(0, end as int));
        }
        let mut start: usize = 0;
        while start < end && is_ws_b_exec(buf[start])
            invariant
                start <= end <= len,
                len == buf@.len(),
                trim_end_b(line) == buf@.subrange(0, end as int),
                trim_start_b(buf@.subrange(0, end as int)) == trim_start_b(
                    buf@.subrange(start as int, end as int),
                ),
            decreases end - start,
        {
            proof {
                assert(buf@.subrange(start as int, end as int).subrange(
                    1,
                    end - start,
                ) =~= buf@.subrange(start as int + 1, end as int));
            }
            start = start + 1;
        }
        proof {
            assert(trim_start_b(buf@.subrange(start as int, end as int)) == buf@.subrange(
                start as int,
                end as int,
            ));
            assert(trimmed(line) == buf@.subrange(start as int, end as int));
        }
        let n = end - start;
        if n == 5 && buf[start] == 104 && buf[start + 1] == 101 && buf[start + 2] == 108 && buf[
            start + 3] == 108 && buf[start + 4] == 111 {
            proof {
                assert(trimmed(line) =~= seq![104u8, 101u8, 108u8, 108u8, 111u8]);
            }
            Ok((EchoFrame::Response(String::from_str("world\r\n")), consumed))
        } else if n == 4 && buf[start] == 104 && buf[start + 1] == 97 && buf[start + 2] == 104
            && buf[start + 3] == 97 {
            proof {
                assert(trimmed(line) =~= seq![104u8, 97u8, 104u8, 97u8]);
            }
            Ok((EchoFrame::Response(String::from_str("xixi\r\n")), consumed))
        } else if n == 3 && buf[start] == 98 && buf[start + 1] == 121 && buf[start + 2] == 101 {
            proof {
                assert(trimmed(line) =~= seq![98u8, 121u8, 101u8]);
            }
            Err(FrameError::Exit)
        } else if n == 4 && buf[start] == 113 && buf[start + 1] == 117 && buf[start + 2] == 105
            && buf[start + 3] == 116 {
            proof {
                assert(trimmed(line) =~= seq![113u8, 117u8, 105u8, 116u8]);
            }
            Err(FrameError::Exit)
        } else {
            Err(FrameError::ParseError(String::from_str("unrecognised command")))
        }
    }

    /// The line this frame writes to the peer: a response writes its text,
    /// anything else writes a refusal.
    pub fn write(&self) -> (r: String)
        ensures
            match self {
                EchoFrame::Response(s) => r@ == s@,
                _ => r@ == "unknown command\r\n"@,
            },
    {
        match self {
            EchoFrame::Response(s) => s.clone(),
            _ => String::from_str("unknown command\r\n"),
        }
    }
}

/// The connection loop's answer to one read frame.
pub struct EchoFrameHandle {}

impl EchoFrameHandle {
    /// What to send back for a frame the reader produced: responses are
    /// echoed, everything else is refused in words.
    pub fn respond(frame: &EchoFrame) -> (r: String)
        ensures
            match frame {
                EchoFrame::Response(s) => r@ == s@,
                _ => r@ == "unknown command\r\n"@,
            },
    {
        frame.write()
    }
}

/// A frame of the location protocol: a position report of eight raw bytes.
#[derive(Clone, Debug)]
pub enum JT808Frame {
    P0200([u8; 8]),
    Empty,
}

impl JT808Frame {
    /// Reads one frame: a `~` marker followed by eight payload bytes; a
    /// short or unmarked buffer yields no frame.  Returns the frame and how
    /// many bytes were consumed.
    pub fn read(buf: &[u8]) -> (r: Result<(JT808Frame, usize), FrameError>)
        ensures
            buf@.len() == 0 <==> r matches Err(FrameError::Incomplete),
            r matches Ok((f, n)) ==> {
                if buf@.len() >= 9 && buf@[0] == 126 {
                    &&& n == 9
                    &&& f matches JT808Frame::P0200(data) && data@ =~= buf@.subrange(1, 9)
                } else {
                    n == 1 && f is Empty
                }
            },
    {
        let len = buf.len();
        if len == 0 {
            return Err(FrameError::Incomplete);
        }
        if buf[0] == 126 {
            if len >= 9 {
                let data: [u8; 8] = [
                    buf[1],
                    buf[2],
                    buf[3],
                    buf[4],
                    buf[5],
                    buf[6],
                    buf[7],
                    buf[8],
                ];
                Ok((JT808Frame::P0200(data), 9))
            } else {
                Ok((JT808Frame::Empty, 1))
            }
        } else {
            Ok((JT808Frame::Empty, 1))
        }
    }
}

/// The connection loop's decision for the location protocol.
pub struct JT808Handle {}

impl JT808Handle {
    /// Whether the loop keeps reading after this frame: only a position
    /// report does.
    pub fn keep_reading(frame: &JT808Frame) -> (r: bool)
        ensures
            r == (*frame is P0200),
    {
        match frame {
            JT808Frame::P0200(_) => true,
            JT808Frame::Empty => false,
        }
    }
}

} // verus!
