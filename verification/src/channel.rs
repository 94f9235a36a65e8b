//! Object framing on the host/sandbox pipe pair: one whole JSON text
//! per message, terminated by a carriage return and a newline. The
//! reader frames by terminator, so several sequential messages on one
//! pipe are read back one at a time.
use vstd::prelude::*;

verus! {

/// The terminator appended to every message.
pub open spec fn spec_frame(payload: Seq<char>) -> Seq<char> {
    payload + "\r\n"@
}

/// Index of the first newline in `s`, if any.
pub open spec fn find_newline(s: Seq<char>) -> Option<int>
    decreases s.len(),
{
    if s.len() == 0 {
        None
    } else if s[0] == '\n' {
        Some(0)
    } else {
        match find_newline(s.drop_first()) {
            Some(i) => Some(i + 1),
            None => None,
        }
    }
}

/// The message before a trailing carriage return, which the framing
/// writes and the reader strips.
pub open spec fn strip_cr(s: Seq<char>) -> Seq<char> {
    if s.len() > 0 && s[s.len() - 1] == '\r' {
        s.drop_last()
    } else {
        s
    }
}

/// What reading one frame from a buffered stream yields: the text up
/// to the first newline with its trailing carriage return stripped,
/// and everything after the newline; nothing while no newline has
/// arrived yet.
pub open spec fn spec_take_frame(s: Seq<char>) -> Option<(Seq<char>, Seq<char>)> {
    match find_newline(s) {
        Some(i) => Some((strip_cr(s.take(i)), s.skip(i + 1))),
        None => None,
    }
}

/// `find_newline` returns the first newline: everything before it is
/// something else, and a newline-free text has no index at all.
pub proof fn lemma_find_newline(s: Seq<char>)
    ensures
        find_newline(s) matches Some(i) ==> 0 <= i < s.len() && s[i] == '\n' && forall|k: int|
            0 <= k < i ==> s[k] != '\n',
        find_newline(s) is None ==> forall|k: int| 0 <= k < s.len() ==> s[k] != '\n',
    decreases s.len(),
{
    if s.len() > 0 && s[0] != '\n' {
        lemma_find_newline(s.drop_first());
        assert forall|k: int| 0 <= k < s.len() && s[k] == '\n' implies find_newline(
            s,
        ) is Some by {
            if k > 0 {
                assert(s.drop_first()[k - 1] == '\n');
            }
        }
        match find_newline(s) {
            Some(i) => {
                assert forall|k: int| 0 <= k < i implies s[k] != '\n' by {
                    if k > 0 {
                        assert(s.drop_first()[k - 1] == s[k]);
                    }
                }
            },
            None => {},
        }
    }
}

/// Frames one message for the channel: the payload followed by the
/// terminator, written as a single unit.
pub fn frame_message(payload: &str) -> (r: String)
    ensures
        r@ == spec_frame(payload@),
{
    let mut r = payload.to_owned();
    r.append("\r\n");
    r
}

/// Takes one whole frame off the front of a buffered stream. Returns
/// the framed message and the remainder, or nothing while the buffer
/// holds no complete frame yet; the caller then waits for more bytes.
pub fn take_frame(buf: &str) -> (r: Option<(String, String)>)
    ensures
        r matches Some(p) ==> spec_take_frame(buf@) == Some((p.0@, p.1@)),
        r is None ==> spec_take_frame(buf@) is None,
{
    let n = buf.unicode_len();
    let mut i: usize = 0;
    let mut found = false;
    while i < n && !found
        invariant
            0 <= i <= n,
            n == buf@.len(),
            forall|k: int| 0 <= k < i ==> buf@[k] != '\n',
            found ==> i < n && buf@[i as int] == '\n',
        decreases n - i + if found { 0int } else { 1int },
    {
        if buf.get_char(i) == '\n' {
            found = true;
        } else {
            i = i + 1;
        }
    }
    proof {
        lemma_find_newline(buf@);
    }
    if !found {
        return None;
    }
    let mut end = i;
    if end > 0 && buf.get_char(end - 1) == '\r' {
        end = end - 1;
    }
    let message = buf.substring_char(0, end).to_owned();
    let rest = buf.substring_char(i + 1, n).to_owned();
    proof {
        assert(find_newline(buf@) == Some(i as int));
        assert(message@ =~= strip_cr(buf@.take(i as int)));
        assert(rest@ =~= buf@.skip(i as int + 1));
    }
    Some((message, rest))
}

/// The framing law: a newline-free message written as one frame and
/// followed by whatever comes later is read back exactly, with the
/// later bytes untouched.
pub proof fn lemma_frame_round_trip(payload: Seq<char>, rest: Seq<char>)
    requires
        forall|k: int| 0 <= k < payload.len() ==> payload[k] != '\n',
    ensures
        spec_take_frame(spec_frame(payload) + rest) == Some((payload, rest)),
{
    reveal_strlit("\r\n");
    let s = spec_frame(payload) + rest;
    lemma_find_newline(s);
    let i = payload.len() as int + 1;
    assert(s[i] == '\n');
    assert forall|k: int| 0 <= k < i implies s[k] != '\n' by {
        if k < payload.len() {
            assert(s[k] == payload[k]);
        } else {
            assert(s[k] == '\r');
        }
    }
    assert(find_newline(s) == Some(i));
    assert(s.take(i) =~= payload + seq!['\r']);
    assert(strip_cr(s.take(i)) =~= payload);
    assert(s.skip(i + 1) =~= rest);
}

} // verus!
