//! The framing of responses.
//!
//! A response is whatever the device sends up to a sentinel. The bytes come
//! from the port in pieces; the session gathers them until the sentinel is
//! there, and then gives the text of the response.

use crate::error::IoError;
use crate::focus::Focus;
use vstd::prelude::*;
use vstd::utf8::{decode_utf8, valid_utf8};

verus! {

/// The number of bytes that one read asks the port for.
pub const READ_SIZE: usize = 1024;

/// How the serial port of a device is opened.
#[derive(Debug, Clone, Copy, PartialEq, Eq, Structural)]
pub struct LinkSettings {
    /// The speed of the line in bits per second.
    pub baud_rate: u32,
    /// The number of data bits in a character.
    pub data_bits: u8,
    /// Whether a parity bit follows the data bits.
    pub parity: bool,
    /// The number of stop bits after a character.
    pub stop_bits: u8,
    /// Whether the flow of bytes is controlled by the line.
    pub flow_control: bool,
    /// Whether the host asserts that it is ready (DTR).
    pub data_terminal_ready: bool,
    /// Whether the port is taken for this program alone.
    pub exclusive: bool,
    /// The number of seconds after which a read gives up.
    pub timeout_secs: u64,
}

/// The settings of the link to every device: 115200 baud, eight data bits,
/// no parity, one stop bit, no flow control, the host ready, the port
/// shared, and reads that give up after five seconds.
pub fn link_settings() -> (settings: LinkSettings)
    ensures
        settings == (LinkSettings {
            baud_rate: 115_200,
            data_bits: 8,
            parity: false,
            stop_bits: 1,
            flow_control: false,
            data_terminal_ready: true,
            exclusive: false,
            timeout_secs: 5,
        }),
{
    LinkSettings {
        baud_rate: 115_200,
        data_bits: 8,
        parity: false,
        stop_bits: 1,
        flow_control: false,
        data_terminal_ready: true,
        exclusive: false,
        timeout_secs: 5,
    }
}

/// What the port did since the last step of a read.
#[derive(Debug, Clone, PartialEq, Eq)]
pub enum ReadEvent {
    /// Nothing yet: a new response is to be read.
    Start,
    /// These bytes arrived; none at all is a read that came back empty.
    Received(Vec<u8>),
    /// The read was interrupted before any byte arrived.
    Interrupted,
    /// The read failed otherwise, or ran into its timeout.
    Failed(IoError),
}

/// What the port must do next for a read.
#[derive(Debug, Clone, PartialEq, Eq)]
pub enum ReadStep {
    /// Read up to `READ_SIZE` bytes and report them.
    Read,
    /// The response is complete: this is its text.
    Done(String),
    /// The read has failed for good.
    Failed(IoError),
}

/// The sentinel that ends a response: carriage return, line feed, full stop,
/// carriage return, line feed.
pub open spec fn marker() -> Seq<u8> {
    seq![13u8, 10u8, 46u8, 13u8, 10u8]
}

/// Whether the sentinel stands at position `i` of `s`.
pub open spec fn marker_at(s: Seq<u8>, i: int) -> bool {
    0 <= i && i + 5 <= s.len() && s.subrange(i, i + 5) == marker()
}

/// The first position at or after `from` where the sentinel stands, or the
/// length of `s` where it stands at none.
pub open spec fn find_marker(s: Seq<u8>, from: int) -> int
    decreases s.len() - from,
{
    if from < 0 || from + 5 > s.len() {
        s.len() as int
    } else if marker_at(s, from) {
        from
    } else {
        find_marker(s, from + 1)
    }
}

/// Whether the sentinel stands anywhere in `s`.
pub open spec fn has_marker(s: Seq<u8>) -> bool {
    find_marker(s, 0) < s.len()
}

/// The bytes without any sentinel: the first one is taken out, again and
/// again, until none is left.
pub open spec fn strip_markers(s: Seq<u8>) -> Seq<u8>
    decreases s.len(),
{
    let i = find_marker(s, 0);
    if 0 <= i && i + 5 <= s.len() {
        strip_markers(s.take(i) + s.skip(i + 5))
    } else {
        s
    }
}

/// The bytes that are not NUL, in order.
pub open spec fn without_nul(s: Seq<u8>) -> Seq<u8>
    decreases s.len(),
{
    if s.len() == 0 {
        s
    } else if s.last() != 0 {
        without_nul(s.drop_last()).push(s.last())
    } else {
        without_nul(s.drop_last())
    }
}

/// The buffer after bytes have arrived: they are added at its end, NUL
/// bytes left out.
pub open spec fn accumulate(buffer: Seq<u8>, chunk: Seq<u8>) -> Seq<u8> {
    buffer + without_nul(chunk)
}

/// ASCII whitespace: space, tab, line feed, form feed, carriage return.
pub open spec fn is_ascii_space(b: u8) -> bool {
    b == 32 || b == 9 || b == 10 || b == 12 || b == 13
}

/// The bytes without ASCII whitespace at their end.
pub open spec fn trim_end(s: Seq<u8>) -> Seq<u8>
    decreases s.len(),
{
    if s.len() > 0 && is_ascii_space(s.last()) {
        trim_end(s.drop_last())
    } else {
        s
    }
}

/// The bytes without ASCII whitespace at their beginning.
pub open spec fn trim_start(s: Seq<u8>) -> Seq<u8>
    decreases s.len(),
{
    if s.len() > 0 && is_ascii_space(s[0]) {
        trim_start(s.drop_first())
    } else {
        s
    }
}

/// The bytes of a response once it is complete: all sentinels taken out,
/// then ASCII whitespace trimmed from both ends.
pub open spec fn response_bytes(buffer: Seq<u8>) -> Seq<u8> {
    trim_start(trim_end(strip_markers(buffer)))
}

/// What a read does with an event: the buffer that it leaves and the step
/// that it asks for.
pub open spec fn read_step(buffer: Seq<u8>, event: ReadEvent) -> (Seq<u8>, ReadModel) {
    match event {
        ReadEvent::Start => (Seq::empty(), ReadModel::Read),
        ReadEvent::Interrupted => (buffer, ReadModel::Read),
        ReadEvent::Failed(e) => (buffer, ReadModel::Failed(e)),
        ReadEvent::Received(chunk) => {
            let all = accumulate(buffer, chunk@);
            if !has_marker(all) {
                (all, ReadModel::Read)
            } else if valid_utf8(response_bytes(all)) {
                (strip_markers(all), ReadModel::Done(decode_utf8(response_bytes(all))))
            } else {
                (strip_markers(all), ReadModel::Failed(IoError::InvalidUtf8))
            }
        },
    }
}

/// What a `ReadStep` says.
pub enum ReadModel {
    Read,
    Done(Seq<char>),
    Failed(IoError),
}

impl View for ReadStep {
    type V = ReadModel;

    open spec fn view(&self) -> ReadModel {
        match self {
            ReadStep::Read => ReadModel::Read,
            ReadStep::Done(text) => ReadModel::Done(text@),
            ReadStep::Failed(e) => ReadModel::Failed(*e),
        }
    }
}

/// `String::from_utf8` gives the text that the bytes encode where they are
/// valid UTF-8, and nothing otherwise.
#[verifier::external_body]
fn text_from_utf8(bytes: Vec<u8>) -> (text: Option<String>)
    ensures
        text is Some <==> valid_utf8(bytes@),
        text is Some ==> text.unwrap()@ == decode_utf8(bytes@),
{
    String::from_utf8(bytes).ok()
}

/// Filtering NUL bytes out of two runs of bytes, one after the other, is
/// filtering them out of the two runs joined.
pub proof fn lemma_without_nul_concat(a: Seq<u8>, b: Seq<u8>)
    ensures
        without_nul(a + b) == without_nul(a) + without_nul(b),
    decreases b.len(),
{
    if b.len() == 0 {
        assert(a + b == a);
        assert(without_nul(a) + without_nul(b) == without_nul(a));
    } else {
        lemma_without_nul_concat(a, b.drop_last());
        assert((a + b).drop_last() == a + b.drop_last());
        assert((a + b).last() == b.last());
        if b.last() != 0 {
            assert((without_nul(a) + without_nul(b.drop_last())).push(b.last()) == without_nul(a)
                + without_nul(b.drop_last()).push(b.last()));
        }
    }
}

/// A response that arrives in two reads leaves the buffer as it would be
/// had it arrived in one.
pub proof fn lemma_read_in_pieces(buffer: Seq<u8>, first: Seq<u8>, second: Seq<u8>)
    ensures
        accumulate(accumulate(buffer, first), second) == accumulate(buffer, first + second),
{
    lemma_without_nul_concat(first, second);
    assert((buffer + without_nul(first)) + without_nul(second) == buffer + (without_nul(first)
        + without_nul(second)));
}

/// The position of the first sentinel in `buffer`, or its length.
fn first_marker(buffer: &Vec<u8>) -> (at: usize)
    ensures
        at == find_marker(buffer@, 0),
        at == buffer.len() || at + 5 <= buffer.len(),
{
    let n = buffer.len();
    if n < 5 {
        return n;
    }
    let mut i: usize = 0;
    while i <= n - 5
        invariant
            n == buffer.len(),
            n >= 5,
            find_marker(buffer@, 0) == find_marker(buffer@, i as int),
        decreases n - i,
    {
        let ghost here = buffer@.subrange(i as int, i + 5);
        if buffer[i] == 13 && buffer[i + 1] == 10 && buffer[i + 2] == 46 && buffer[i + 3] == 13
            && buffer[i + 4] == 10 {
            assert(here == marker());
            return i;
        }
        assert(here != marker()) by {
            assert(here[0] == buffer@[i as int]);
            assert(here[1] == buffer@[i + 1]);
            assert(here[2] == buffer@[i + 2]);
            assert(here[3] == buffer@[i + 3]);
            assert(here[4] == buffer@[i + 4]);
        }
        i += 1;
    }
    n
}

/// Takes every sentinel out of the buffer.
fn drain_markers(buffer: &mut Vec<u8>)
    ensures
        final(buffer)@ == strip_markers(old(buffer)@),
{
    loop
        invariant
            strip_markers(buffer@) == strip_markers(old(buffer)@),
        ensures
            buffer@ == strip_markers(old(buffer)@),
        decreases buffer.len(),
    {
        let at = first_marker(buffer);
        if at >= buffer.len() {
            break;
        }
        let ghost before = buffer@;
        let mut rest: Vec<u8> = Vec::new();
        let mut i: usize = 0;
        while i < buffer.len()
            invariant
                0 <= i <= buffer.len(),
                at + 5 <= buffer.len(),
                rest@ == if i <= at {
                    buffer@.take(i as int)
                } else if i <= at + 5 {
                    buffer@.take(at as int)
                } else {
                    buffer@.take(at as int) + buffer@.subrange(at + 5, i as int)
                },
            decreases buffer.len() - i,
        {
            if i < at || i >= at + 5 {
                rest.push(buffer[i]);
            }
            i += 1;
        }
        assert(buffer@.subrange(at + 5, buffer.len() as int) == buffer@.skip(at + 5));
        assert(buffer@.take(at as int) + buffer@.subrange(at + 5, at + 5) == buffer@.take(
            at as int,
        ));
        *buffer = rest;
        assert(buffer@ == before.take(at as int) + before.skip(at + 5));
    }
}

/// The part of the buffer between the whitespace at its two ends.
fn trimmed(buffer: &Vec<u8>) -> (part: Vec<u8>)
    ensures
        part@ == trim_start(trim_end(buffer@)),
{
    let mut end: usize = buffer.len();
    assert(buffer@.take(end as int) == buffer@);
    while end > 0 && (buffer[end - 1] == 32 || buffer[end - 1] == 9 || buffer[end - 1] == 10
        || buffer[end - 1] == 12 || buffer[end - 1] == 13)
        invariant
            0 <= end <= buffer.len(),
            trim_end(buffer@) == trim_end(buffer@.take(end as int)),
        decreases end,
    {
        assert(buffer@.take(end as int).drop_last() == buffer@.take(end - 1));
        end -= 1;
    }
    assert(trim_end(buffer@) == buffer@.take(end as int));
    let mut start: usize = 0;
    assert(buffer@.subrange(0, end as int) == buffer@.take(end as int));
    while start < end && (buffer[start] == 32 || buffer[start] == 9 || buffer[start] == 10
        || buffer[start] == 12 || buffer[start] == 13)
        invariant
            0 <= start <= end <= buffer.len(),
            trim_start(buffer@.take(end as int)) == trim_start(
                buffer@.subrange(start as int, end as int),
            ),
        decreases end - start,
    {
        assert(buffer@.subrange(start as int, end as int).drop_first() == buffer@.subrange(
            start + 1,
            end as int,
        ));
        start += 1;
    }
    let mut part: Vec<u8> = Vec::new();
    let mut i: usize = start;
    while i < end
        invariant
            start <= i <= end <= buffer.len(),
            part@ == buffer@.subrange(start as int, i as int),
        decreases end - i,
    {
        part.push(buffer[i]);
        i += 1;
    }
    part
}

/// Once the sentinels are taken out, none is left.
pub proof fn lemma_strip_markers_leaves_none(s: Seq<u8>)
    ensures
        !has_marker(strip_markers(s)),
    decreases s.len(),
{
    let i = find_marker(s, 0);
    if 0 <= i && i + 5 <= s.len() {
        lemma_strip_markers_leaves_none(s.take(i) + s.skip(i + 5));
    } else {
        lemma_find_marker_bounds(s, 0);
    }
}

/// The sentinel is found at a position where it stands, or not at all.
pub proof fn lemma_find_marker_bounds(s: Seq<u8>, from: int)
    requires
        0 <= from,
    ensures
        find_marker(s, from) == s.len() || (from <= find_marker(s, from) && marker_at(
            s,
            find_marker(s, from),
        )),
    decreases s.len() - from,
{
    if from + 5 <= s.len() && !marker_at(s, from) {
        lemma_find_marker_bounds(s, from + 1);
    }
}

/// A response has no ASCII whitespace at either end.
pub proof fn lemma_response_is_trimmed(buffer: Seq<u8>)
    ensures
        response_bytes(buffer).len() > 0 ==> !is_ascii_space(response_bytes(buffer)[0])
            && !is_ascii_space(response_bytes(buffer).last()),
{
    let stripped = strip_markers(buffer);
    lemma_trim_end(stripped);
    lemma_trim_start(trim_end(stripped));
}

/// What is trimmed at its end is the beginning of the bytes, and does not
/// end in ASCII whitespace.
pub proof fn lemma_trim_end(s: Seq<u8>)
    ensures
        trim_end(s).len() <= s.len(),
        trim_end(s) == s.take(trim_end(s).len() as int),
        trim_end(s).len() > 0 ==> !is_ascii_space(trim_end(s).last()),
    decreases s.len(),
{
    if s.len() > 0 && is_ascii_space(s.last()) {
        lemma_trim_end(s.drop_last());
        assert(s.drop_last().take(trim_end(s).len() as int) == s.take(trim_end(s).len() as int));
    } else {
        assert(s.take(s.len() as int) == s);
    }
}

/// What is trimmed at its beginning is the end of the bytes, and does not
/// begin with ASCII whitespace.
pub proof fn lemma_trim_start(s: Seq<u8>)
    ensures
        trim_start(s).len() <= s.len(),
        trim_start(s) == s.skip(s.len() - trim_start(s).len()),
        trim_start(s).len() > 0 ==> !is_ascii_space(trim_start(s)[0]),
        trim_start(s).len() > 0 ==> trim_start(s).last() == s.last(),
    decreases s.len(),
{
    if s.len() > 0 && is_ascii_space(s[0]) {
        let t = s.drop_first();
        lemma_trim_start(t);
        assert(t.skip(t.len() - trim_start(t).len()) == s.skip(s.len() - trim_start(s).len()));
    } else {
        assert(s.skip(0) == s);
    }
}

/// Whether a response is gathered in one read or in two makes no
/// difference: where the first piece does not complete the response, reading
/// the second piece after it leaves the buffer and asks for the step that
/// reading both pieces at once does.
pub proof fn lemma_split_read(buffer: Seq<u8>, first: Vec<u8>, second: Vec<u8>, whole: Vec<u8>)
    requires
        whole@ == first@ + second@,
        !has_marker(accumulate(buffer, first@)),
    ensures
        read_step(read_step(buffer, ReadEvent::Received(first)).0, ReadEvent::Received(second))
            == read_step(buffer, ReadEvent::Received(whole)),
{
    lemma_read_in_pieces(buffer, first@, second@);
}

impl Focus {
    /// One step of reading a response.
    ///
    /// A read starts with an empty buffer. Bytes that arrive are added to
    /// the buffer, NUL bytes left out, until the sentinel stands anywhere in
    /// it; a read that came back empty or was interrupted is tried again.
    /// Then all sentinels are taken out, ASCII whitespace is trimmed from
    /// both ends and the rest is the response, which must be valid UTF-8. An
    /// empty response is an acknowledgement. Any other failure of the port
    /// ends the read.
    pub fn read(&mut self, event: ReadEvent) -> (step: ReadStep)
        ensures
            (final(self).response_buffer@, step@) == read_step(old(self).response_buffer@, event),
            final(self).awaiting_ack == old(self).awaiting_ack,
            final(self).cursor == old(self).cursor,
    {
        match event {
            ReadEvent::Start => {
                self.response_buffer.clear();
                ReadStep::Read
            },
            ReadEvent::Interrupted => ReadStep::Read,
            ReadEvent::Failed(e) => ReadStep::Failed(e),
            ReadEvent::Received(chunk) => {
                let ghost before = self.response_buffer@;
                let mut i: usize = 0;
                while i < chunk.len()
                    invariant
                        0 <= i <= chunk.len(),
                        self.response_buffer@ == before + without_nul(chunk@.take(i as int)),
                        self.awaiting_ack == old(self).awaiting_ack,
                        self.cursor == old(self).cursor,
                    decreases chunk.len() - i,
                {
                    assert(chunk@.take(i + 1).drop_last() == chunk@.take(i as int));
                    if chunk[i] != 0 {
                        self.response_buffer.push(chunk[i]);
                        assert(self.response_buffer@ == before + without_nul(chunk@.take(i + 1)));
                    }
                    i += 1;
                }
                assert(chunk@.take(chunk.len() as int) == chunk@);
                let at = first_marker(&self.response_buffer);
                if at >= self.response_buffer.len() {
                    return ReadStep::Read;
                }
                drain_markers(&mut self.response_buffer);
                let part = trimmed(&self.response_buffer);
                match text_from_utf8(part) {
                    Some(text) => ReadStep::Done(text),
                    None => ReadStep::Failed(IoError::InvalidUtf8),
                }
            },
        }
    }
}

} // verus!
