//! The chat-completion client's verified half.
//!
//! The transport itself — opening the streaming connection and reading
//! its line-delimited event frames — stays with the caller. This module
//! pins everything the protocol depends on: how the conversation history
//! is windowed and framed into messages, how one received line is
//! classified, and how content fragments are batched into the chunks the
//! stream's consumers see.

use vstd::prelude::*;

use crate::text::{concat_all, StrMap};

verus! {

/// One conversation turn.
#[derive(Debug)]
pub struct ChatMessage {
    pub role: String,
    pub content: String,
}

impl ChatMessage {
    /// A copy of the message.
    pub fn duplicate(&self) -> (r: ChatMessage)
        ensures
            r == *self,
    {
        ChatMessage { role: self.role.clone(), content: self.content.clone() }
    }

    /// Wraps text the model produced as an assistant turn.
    pub fn assistant(content: String) -> (r: ChatMessage)
        ensures
            r.role@ == "assistant"@,
            r.content == content,
    {
        ChatMessage { role: String::from_str("assistant"), content }
    }
}

/// Why the model stopped producing tokens.
#[derive(Debug, Clone, Copy, PartialEq, Eq, Structural)]
pub enum FinishReason {
    Length,
    Stop,
}

impl Default for FinishReason {
    fn default() -> (r: FinishReason)
        ensures
            r == FinishReason::Stop,
    {
        FinishReason::Stop
    }
}

/// The request categories the bot distinguishes.
#[derive(Debug, Clone, Copy, PartialEq, Eq, Structural)]
pub enum ChatCategory {
    Conversational,
    InformativeOffline,
    InformativeOnline,
    ImageDescribe,
    ImageTranscribe,
    Link,
    Help,
}

/// Token accounting reported with a buffered completion.
#[derive(Debug, Clone, Copy, PartialEq, Eq, Structural)]
pub struct ChatUsage {
    pub prompt_tokens: u32,
    pub completion_tokens: u32,
    pub total_tokens: u32,
}

/// One alternative of a buffered completion.
#[derive(Debug)]
pub struct ChatResponseChoice {
    pub index: usize,
    pub message: ChatMessage,
    pub finish_reason: FinishReason,
}

/// A buffered completion answer.
#[derive(Debug)]
pub struct ChatResponse {
    pub object: String,
    pub created: u64,
    pub choices: Vec<ChatResponseChoice>,
    pub usage: ChatUsage,
}

/// One alternative of a streamed completion frame.
#[derive(Debug)]
pub struct ChatResponseStreamChoice {
    pub delta: StrMap,
    pub index: usize,
    pub finish_reason: Option<FinishReason>,
}

/// One streamed completion frame.
#[derive(Debug)]
pub struct ChatResponseStream {
    pub choices: Vec<ChatResponseStreamChoice>,
    pub id: String,
    pub object: String,
    pub created: u64,
    pub model: String,
}

/// The slice of `history` the model sees: its most recent `window` turns.
pub open spec fn windowed(history: Seq<ChatMessage>, window: nat) -> Seq<ChatMessage> {
    if window >= history.len() {
        history
    } else {
        history.skip(history.len() - window)
    }
}

/// Frames one completion call: the windowed history, then a system turn
/// holding the rendered prompt header, then the user's input.
pub fn window_messages(
    history: &Vec<ChatMessage>,
    window: usize,
    header: &str,
    message: String,
) -> (r: Vec<ChatMessage>)
    ensures
        r@.len() == windowed(history@, window as nat).len() + 2,
        forall|i: int|
            0 <= i < windowed(history@, window as nat).len() ==> r@[i] == windowed(
                history@,
                window as nat,
            )[i],
        r@[r@.len() - 2].role@ == "system"@,
        r@[r@.len() - 2].content@ == header@,
        r@[r@.len() - 1].role@ == "user"@,
        r@[r@.len() - 1].content == message,
{
    let n = history.len();
    let start: usize = if window >= n {
        0
    } else {
        n - window
    };
    let ghost win = windowed(history@, window as nat);
    proof {
        assert(win =~= history@.skip(start as int));
    }
    let mut out: Vec<ChatMessage> = Vec::new();
    let mut i: usize = start;
    while i < n
        invariant
            n == history@.len(),
            start <= i <= n,
            win == history@.skip(start as int),
            out@.len() == i - start,
            forall|j: int| 0 <= j < out@.len() ==> out@[j] == win[j],
        decreases n - i,
    {
        out.push(history[i].duplicate());
        proof {
            assert(win[i - start] == history@[i as int]);
        }
        i = i + 1;
    }
    out.push(ChatMessage { role: String::from_str("system"), content: String::from_str(header) });
    out.push(ChatMessage { role: String::from_str("user"), content: message });
    out
}

/// Number of leading whitespace characters.
pub open spec fn leading_ws(s: Seq<char>) -> nat
    decreases s.len(),
{
    if s.len() > 0 && is_ws(s[0]) {
        (1 + leading_ws(s.skip(1))) as nat
    } else {
        0
    }
}

/// Number of trailing whitespace characters.
pub open spec fn trailing_ws(s: Seq<char>) -> nat
    decreases s.len(),
{
    if s.len() > 0 && is_ws(s.last()) {
        (1 + trailing_ws(s.drop_last())) as nat
    } else {
        0
    }
}

/// The whitespace an event line can carry around its payload.
pub open spec fn is_ws(c: char) -> bool {
    c == ' ' || c == '\t' || c == '\n' || c == '\r'
}

/// `s` with every leading and trailing whitespace character removed.
pub open spec fn trim_ws_spec(s: Seq<char>) -> Seq<char> {
    if leading_ws(s) == s.len() {
        Seq::<char>::empty()
    } else {
        s.subrange(leading_ws(s) as int, s.len() - trailing_ws(s))
    }
}

proof fn lemma_leading_ws_index(s: Seq<char>, i: int)
    requires
        0 <= i <= s.len(),
        forall|j: int| 0 <= j < i ==> is_ws(s[j]),
        i == s.len() || !is_ws(s[i]),
    ensures
        leading_ws(s) == i,
    decreases s.len(),
{
    if i > 0 {
        assert(is_ws(s[0]));
        assert(forall|j: int| 0 <= j < i - 1 ==> s.skip(1)[j] == s[j + 1]);
        assert(i - 1 == s.skip(1).len() || s.skip(1)[i - 1] == s[i]);
        lemma_leading_ws_index(s.skip(1), i - 1);
    }
}

proof fn lemma_trailing_ws_index(s: Seq<char>, h: int)
    requires
        0 <= h <= s.len(),
        forall|j: int| h <= j < s.len() ==> is_ws(s[j]),
        h == 0 || !is_ws(s[h - 1]),
    ensures
        trailing_ws(s) == s.len() - h,
    decreases s.len(),
{
    if h == s.len() {
        if s.len() > 0 {
            assert(s.last() == s[s.len() - 1]);
        }
    } else {
        assert(is_ws(s.last()));
        assert(forall|j: int| h <= j < s.drop_last().len() ==> s.drop_last()[j] == s[j]);
        assert(h == 0 || s.drop_last()[h - 1] == s[h - 1]);
        lemma_trailing_ws_index(s.drop_last(), h);
    }
}

/// Whether `c` is whitespace an event line can carry.
fn is_ws_exec(c: char) -> (r: bool)
    ensures
        r == is_ws(c),
{
    c == ' ' || c == '\t' || c == '\n' || c == '\r'
}

/// Strips leading and trailing whitespace from an event line.
pub fn trim_ws(source: &str) -> (r: String)
    ensures
        r@ == trim_ws_spec(source@),
{
    let n = source.unicode_len();
    let mut lo: usize = 0;
    while lo < n && is_ws_exec(source.get_char(lo))
        invariant
            n == source@.len(),
            lo <= n,
            forall|j: int| 0 <= j < lo ==> is_ws(source@[j]),
        decreases n - lo,
    {
        lo = lo + 1;
    }
    proof {
        lemma_leading_ws_index(source@, lo as int);
    }
    if lo == n {
        return String::new();
    }
    let mut hi: usize = n;
    while hi > lo && is_ws_exec(source.get_char(hi - 1))
        invariant
            n == source@.len(),
            lo <= hi <= n,
            lo < n,
            !is_ws(source@[lo as int]),
            forall|j: int| hi <= j < n ==> is_ws(source@[j]),
        decreases hi,
    {
        hi = hi - 1;
    }
    proof {
        if hi == lo {
            assert(is_ws(source@[lo as int]));
        }
        lemma_trailing_ws_index(source@, hi as int);
    }
    String::from_str(source.substring_char(lo, hi))
}

/// The content fragment one event line's JSON payload carries: the
/// `content` entry of the first choice's delta, when the payload parses
/// and that entry is a string. A function of the characters alone.
pub uninterp spec fn frame_content_of(s: Seq<char>) -> Option<Seq<char>>;

/// Relies on `serde_json::from_str::<Value>`: parses the payload and
/// walks `choices[0].delta.content`; a payload that does not parse, or
/// without that path, carries no fragment.
#[verifier::external_body]
fn frame_content(s: &str) -> (r: Option<String>)
    ensures
        r is Some <==> frame_content_of(s@) is Some,
        r is Some ==> frame_content_of(s@) == Some(r->0@),
{
    let v: serde_json::Value = serde_json::from_str(s).ok()?;
    Some(v.get("choices")?.get(0)?.get("delta")?.get("content")?.as_str()?.to_string())
}

/// What one received event line means for the stream.
#[derive(Debug)]
pub enum LineStep {
    /// The upstream is finished; flush the final batch.
    Done,
    /// The line carried one content fragment.
    Fragment(String),
    /// Not an event frame, or a frame without content: skipped silently.
    Skip,
}

/// Whether the line is the terminator frame.
pub open spec fn is_done_line(line: Seq<char>) -> bool {
    trim_ws_spec(line) == "data: [DONE]"@
}

/// Classifies one received line: the terminator ends the stream; a
/// `data: ` frame contributes its content fragment, if any; anything
/// else — a blank line, another field, an unparseable frame — is skipped.
pub fn classify_line(line: &str) -> (r: LineStep)
    ensures
        r is Done <==> is_done_line(line@),
        !is_done_line(line@) && prefix_is_data(line@) ==> ({
            match frame_content_of(trim_ws_spec(line@.skip(6))) {
                Some(c) => r matches LineStep::Fragment(f) && f@ == c,
                None => r is Skip,
            }
        }),
        !is_done_line(line@) && !prefix_is_data(line@) ==> r is Skip,
{
    let trimmed = trim_ws(line);
    if crate::text::str_eq(trimmed.as_str(), "data: [DONE]") {
        return LineStep::Done;
    }
    if crate::text::str_starts_with(line, "data: ") {
        proof {
            reveal_strlit("data: ");
        }
        let n = line.unicode_len();
        let payload = line.substring_char(6, n);
        proof {
            assert(payload@ =~= line@.skip(6));
        }
        let payload = trim_ws(payload);
        match frame_content(payload.as_str()) {
            Some(c) => LineStep::Fragment(c),
            None => LineStep::Skip,
        }
    } else {
        proof {
            reveal_strlit("data: ");
        }
        LineStep::Skip
    }
}

/// Whether the line opens an event frame.
pub open spec fn prefix_is_data(line: Seq<char>) -> bool {
    line.len() >= "data: "@.len() && line.subrange(0, "data: "@.len() as int) == "data: "@
}

/// How many content fragments make one emitted chunk.
pub const CHAT_CHUNKS: usize = 25;

/// Batches content fragments into evenly sized chunks: every
/// twenty-fifth fragment closes a chunk, and whatever remains — even
/// nothing — is flushed as the final chunk when the upstream signals
/// completion.
pub struct ChunkBatcher {
    buf: Vec<String>,
    fragments: Ghost<Seq<Seq<char>>>,
    emitted: Ghost<Seq<Seq<char>>>,
}

impl ChunkBatcher {
    /// Every fragment pushed so far.
    pub closed spec fn fragments(&self) -> Seq<Seq<char>> {
        self.fragments@
    }

    /// Every chunk emitted so far.
    pub closed spec fn emitted(&self) -> Seq<Seq<char>> {
        self.emitted@
    }

    /// The fragments waiting for the next chunk.
    pub closed spec fn pending(&self) -> Seq<Seq<char>> {
        self.buf@.map_values(|s: String| s@)
    }

    /// No text is lost or reordered: the emitted chunks plus the pending
    /// batch spell out exactly the pushed fragments. A batch never holds
    /// a full chunk's worth.
    pub open spec fn wf(&self) -> bool {
        concat_all(self.emitted()) + concat_all(self.pending()) == concat_all(self.fragments())
            && self.pending().len() < CHAT_CHUNKS
    }

    pub fn new() -> (r: ChunkBatcher)
        ensures
            r.wf(),
            r.fragments() == Seq::<Seq<char>>::empty(),
            r.emitted() == Seq::<Seq<char>>::empty(),
            r.pending() == Seq::<Seq<char>>::empty(),
    {
        let r = ChunkBatcher {
            buf: Vec::new(),
            fragments: Ghost(Seq::empty()),
            emitted: Ghost(Seq::empty()),
        };
        proof {
            assert(r.pending() =~= Seq::<Seq<char>>::empty());
            assert(concat_all(Seq::<Seq<char>>::empty()) + concat_all(
                Seq::<Seq<char>>::empty(),
            ) =~= concat_all(Seq::<Seq<char>>::empty()));
        }
        r
    }

    /// Takes one fragment; returns the closed chunk when this fragment
    /// completes a batch.
    pub fn push_fragment(&mut self, frag: String) -> (r: Option<String>)
        requires
            old(self).wf(),
        ensures
            final(self).wf(),
            final(self).fragments() == old(self).fragments().push(frag@),
            old(self).pending().len() == CHAT_CHUNKS - 1 ==> r is Some && r->0@ == concat_all(
                old(self).pending().push(frag@),
            ) && final(self).emitted() == old(self).emitted().push(r->0@)
                && final(self).pending() == Seq::<Seq<char>>::empty(),
            old(self).pending().len() < CHAT_CHUNKS - 1 ==> r is None && final(self).emitted()
                == old(self).emitted() && final(self).pending() == old(self).pending().push(frag@),
    {
        let ghost fragv = frag@;
        let ghost old_pending = self.pending();
        self.buf.push(frag);
        self.fragments = Ghost(self.fragments@.push(fragv));
        proof {
            assert(self.pending() =~= old_pending.push(fragv));
            crate::text::lemma_concat_all_snoc(old(self).fragments(), fragv);
            crate::text::lemma_concat_all_snoc(old_pending, fragv);
        }
        if self.buf.len() == CHAT_CHUNKS {
            let chunk = crate::text::concat_strings(&self.buf);
            self.buf.clear();
            self.emitted = Ghost(self.emitted@.push(chunk@));
            proof {
                assert(self.pending() =~= Seq::<Seq<char>>::empty());
                crate::text::lemma_concat_all_snoc(old(self).emitted(), chunk@);
                assert(concat_all(self.emitted()) + concat_all(self.pending()) =~= concat_all(
                    self.fragments(),
                ));
            }
            Some(chunk)
        } else {
            proof {
                assert(concat_all(self.emitted()) + concat_all(self.pending()) =~= concat_all(
                    self.fragments(),
                ));
            }
            None
        }
    }

    /// Flushes the final, possibly partial — possibly empty — chunk.
    pub fn finish(self) -> (r: String)
        requires
            self.wf(),
        ensures
            r@ == concat_all(self.pending()),
            concat_all(self.emitted()) + r@ == concat_all(self.fragments()),
    {
        crate::text::concat_strings(&self.buf)
    }
}

/// Nothing the model streams is dropped: after the final flush, the
/// emitted chunks concatenate to exactly the concatenation of every
/// fragment received, in order.
pub proof fn lemma_batcher_text(b: ChunkBatcher)
    requires
        b.wf(),
    ensures
        concat_all(b.emitted().push(concat_all(b.pending()))) == concat_all(b.fragments()),
{
    crate::text::lemma_concat_all_snoc(b.emitted(), concat_all(b.pending()));
}

} // verus!
