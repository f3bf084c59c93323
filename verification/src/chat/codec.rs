//! Frames of the chat: each message travels as a length in two bytes, the
//! high one first, and as many bytes of payload.

use vstd::prelude::*;
use crate::error::Error;
use crate::util::bytes::slice_copy;

verus! {

/// What a client asks of the chat.
#[derive(Debug)]
pub enum ChatRequest {
    /// Asks for the rooms.
    List,
    /// Enters a room.
    Join(String),
    /// Says something.
    Message(String),
    /// Asks whether the server is there.
    Ping,
}

/// What the chat answers.
#[derive(Debug)]
pub enum ChatResponse {
    /// The server is there.
    Ping,
    /// The rooms.
    Rooms(Vec<String>),
    /// A room was entered.
    Joined(String),
    /// Something was said.
    Message(String),
}

/// The longest payload that a frame can hold.
pub const MAX_PAYLOAD: usize = 65535;

/// The frame of a payload.
pub open spec fn framed(payload: Seq<u8>) -> Seq<u8> {
    seq![(payload.len() / 256) as u8, (payload.len() % 256) as u8] + payload
}

/// The length that the first two bytes of a buffer announce.
pub open spec fn announced_length(src: Seq<u8>) -> int {
    src[0] * 256 + src[1]
}

/// Whether a buffer begins with a whole frame.
pub open spec fn has_frame(src: Seq<u8>) -> bool {
    src.len() >= 2 && src.len() >= announced_length(src) + 2
}

/// Takes the payload of the first frame out of a buffer, where the buffer
/// holds a whole frame; else the buffer stays as it is.
fn take_frame(src: &mut Vec<u8>) -> (r: Option<Vec<u8>>)
    ensures
        match r {
            Some(p) => has_frame(old(src)@) && p@ == old(src)@.subrange(
                2,
                announced_length(old(src)@) + 2,
            ) && final(src)@ == old(src)@.skip(announced_length(old(src)@) + 2),
            None => !has_frame(old(src)@) && final(src)@ == old(src)@,
        },
{
    if src.len() < 2 {
        return None;
    }
    let size = src[0] as usize * 256 + src[1] as usize;
    if src.len() - 2 < size {
        return None;
    }
    let payload = slice_copy(src.as_slice(), 2, size + 2);
    let rest = slice_copy(src.as_slice(), size + 2, src.len());
    assert(rest@ =~= old(src)@.skip(size + 2));
    *src = rest;
    Some(payload)
}

/// Puts the frame of a payload behind what a buffer holds. A payload that
/// no frame can hold is refused, and the buffer stays as it is.
fn put_frame(payload: &[u8], dst: &mut Vec<u8>) -> (r: Result<(), Error>)
    ensures
        match r {
            Ok(_) => payload@.len() <= MAX_PAYLOAD && final(dst)@ == old(dst)@ + framed(payload@),
            Err(e) => e == Error::FrameTooLong && payload@.len() > MAX_PAYLOAD && final(dst)@
                == old(dst)@,
        },
{
    if payload.len() > MAX_PAYLOAD {
        return Err(Error::FrameTooLong);
    }
    dst.push((payload.len() / 256) as u8);
    dst.push((payload.len() % 256) as u8);
    let mut i: usize = 0;
    while i < payload.len()
        invariant
            i <= payload.len(),
            payload@.len() <= MAX_PAYLOAD,
            dst@ == old(dst)@ + framed(payload@).take(2 + i),
        decreases payload.len() - i,
    {
        dst.push(payload[i]);
        assert(framed(payload@).take(2 + i + 1) =~= framed(payload@).take(2 + i).push(
            payload@[i as int],
        ));
        i += 1;
    }
    assert(framed(payload@).take(2 + payload.len()) =~= framed(payload@));
    Ok(())
}

/// A frame that was put can be taken again: the payload comes back, and
/// what followed the frame stays in the buffer.
pub proof fn lemma_frame_round_trip(payload: Seq<u8>, rest: Seq<u8>)
    requires
        payload.len() <= MAX_PAYLOAD,
    ensures
        has_frame(framed(payload) + rest),
        announced_length(framed(payload) + rest) == payload.len(),
        (framed(payload) + rest).subrange(2, payload.len() as int + 2) == payload,
        (framed(payload) + rest).skip(payload.len() as int + 2) == rest,
{
    let all = framed(payload) + rest;
    assert(all[0] == (payload.len() / 256) as u8);
    assert(all[1] == (payload.len() % 256) as u8);
    assert(all.subrange(2, payload.len() as int + 2) =~= payload);
    assert(all.skip(payload.len() as int + 2) =~= rest);
}

/// The frames between a client and the server, as the server reads and
/// writes them.
#[derive(Debug)]
pub struct ChatCodec;

/// The frames between a client and the server, as a client reads and
/// writes them.
#[derive(Debug)]
pub struct ClientChatCodec;

impl ChatCodec {
    /// Takes the payload of the next request out of the buffer, where a
    /// whole frame has arrived.
    pub fn decode(&mut self, src: &mut Vec<u8>) -> (r: Option<Vec<u8>>)
        ensures
            match r {
                Some(p) => has_frame(old(src)@) && p@ == old(src)@.subrange(
                    2,
                    announced_length(old(src)@) + 2,
                ) && final(src)@ == old(src)@.skip(announced_length(old(src)@) + 2),
                None => !has_frame(old(src)@) && final(src)@ == old(src)@,
            },
    {
        take_frame(src)
    }

    /// Puts the frame of a response into the buffer.
    pub fn encode(&mut self, payload: &[u8], dst: &mut Vec<u8>) -> (r: Result<(), Error>)
        ensures
            match r {
                Ok(_) => payload@.len() <= MAX_PAYLOAD && final(dst)@ == old(dst)@ + framed(
                    payload@,
                ),
                Err(e) => e == Error::FrameTooLong && payload@.len() > MAX_PAYLOAD && final(dst)@
                    == old(dst)@,
            },
    {
        put_frame(payload, dst)
    }
}

impl ClientChatCodec {
    /// Takes the payload of the next response out of the buffer, where a
    /// whole frame has arrived.
    pub fn decode(&mut self, src: &mut Vec<u8>) -> (r: Option<Vec<u8>>)
        ensures
            match r {
                Some(p) => has_frame(old(src)@) && p@ == old(src)@.subrange(
                    2,
                    announced_length(old(src)@) + 2,
                ) && final(src)@ == old(src)@.skip(announced_length(old(src)@) + 2),
                None => !has_frame(old(src)@) && final(src)@ == old(src)@,
            },
    {
        take_frame(src)
    }

    /// Puts the frame of a request into the buffer.
    pub fn encode(&mut self, payload: &[u8], dst: &mut Vec<u8>) -> (r: Result<(), Error>)
        ensures
            match r {
                Ok(_) => payload@.len() <= MAX_PAYLOAD && final(dst)@ == old(dst)@ + framed(
                    payload@,
                ),
                Err(e) => e == Error::FrameTooLong && payload@.len() > MAX_PAYLOAD && final(dst)@
                    == old(dst)@,
            },
    {
        put_frame(payload, dst)
    }
}

} // verus!
