//! A chat REPL for a local language model: the conversation history, how a
//! typed line is read, and how the streamed reply is assembled.

use crate::text::{
    decode_lossy, is_white_space, is_blank, lemma_trimmed_empty_iff_blank, lines, lines_of, trim, trimmed, utf8_lossy,
    views,
};
use vstd::prelude::*;

verus! {

/// One turn of the conversation.
pub struct Message {
    pub role: String,
    pub content: String,
}

/// One line of the streamed reply, once parsed: part of the answer, and
/// whether the answer is complete.
pub struct ChatChunk {
    pub message: Option<Message>,
    pub done: Option<bool>,
}

/// What a typed line asks for.
pub enum Prompt {
    /// `exit` or `quit`: leave the REPL.
    Quit,
    /// Anything else: send this text (the line without surrounding white
    /// space) to the model.
    Say(String),
}

/// The conversation so far.
pub struct Conversation {
    pub history: Vec<Message>,
}

/// The reply being streamed back.
pub struct Reply {
    pub text: String,
}

/// The model the REPL talks to.
pub open spec fn model_name() -> Seq<char> {
    "gemma3:4b"@
}

/// The endpoint of the model server's chat interface.
pub open spec fn chat_endpoint() -> Seq<char> {
    "http://localhost:11434/api/chat"@
}

/// The role and content of each message.
pub open spec fn turns(history: Seq<Message>) -> Seq<(Seq<char>, Seq<char>)> {
    history.map_values(|m: Message| (m.role@, m.content@))
}

/// The lines of a streamed chunk worth parsing: its lines, decoded
/// leniently from UTF-8, without the blank ones.
pub open spec fn chunk_lines_of(bytes: Seq<u8>) -> Seq<Seq<char>> {
    lines_of(utf8_lossy(bytes)).filter(|l: Seq<char>| !is_blank(l))
}

/// Whether a line holds a character other than white space.
pub open spec fn has_content(l: Seq<char>) -> bool {
    exists|k: int| 0 <= k < l.len() && !is_white_space(#[trigger] l[k])
}

/// A streamed chunk keeps, in order, exactly those of its lines that hold a
/// character other than white space: every such line is kept, every kept
/// line is one of the chunk's lines and has such a character.
pub proof fn lemma_chunk_lines_keep_content(bytes: Seq<u8>)
    ensures
        ({
            let ls = lines_of(utf8_lossy(bytes));
            let kept = chunk_lines_of(bytes);
            &&& kept == ls.filter(|l: Seq<char>| has_content(l))
            &&& forall|i: int| 0 <= i < ls.len() && has_content(ls[i]) ==> kept.contains(#[trigger] ls[i])
            &&& forall|i: int| 0 <= i < kept.len() ==> has_content(#[trigger] kept[i])
            &&& forall|i: int| 0 <= i < kept.len() ==> ls.contains(#[trigger] kept[i])
        }),
{
    let ls = lines_of(utf8_lossy(bytes));
    let p1 = |l: Seq<char>| !is_blank(l);
    let p2 = |l: Seq<char>| has_content(l);
    assert(p1 =~= p2);
    let kept = ls.filter(p2);
    assert forall|i: int| 0 <= i < ls.len() && has_content(ls[i]) implies kept.contains(#[trigger] ls[i]) by {
        ls.lemma_filter_contains(p2, i);
    }
    assert forall|i: int| 0 <= i < kept.len() implies has_content(#[trigger] kept[i]) by {
        ls.lemma_filter_pred(p2, i);
    }
    assert forall|i: int| 0 <= i < kept.len() implies ls.contains(#[trigger] kept[i]) by {
        assert(kept.contains(kept[i]));
        ls.lemma_filter_contains_rev(p2, kept[i]);
    }
}

/// The model's name.
pub fn model() -> (s: String)
    ensures
        s@ == model_name(),
{
    String::from_str("gemma3:4b")
}

/// The address of the chat interface.
pub fn endpoint() -> (s: String)
    ensures
        s@ == chat_endpoint(),
{
    String::from_str("http://localhost:11434/api/chat")
}

/// Reads a typed line.
pub fn read_prompt(line: &str) -> (p: Prompt)
    ensures
        (trimmed(line@) == "exit"@ || trimmed(line@) == "quit"@) <==> p is Quit,
        p matches Prompt::Say(t) ==> t@ == trimmed(line@),
{
    let t = trim(line);
    if t == String::from_str("exit") || t == String::from_str("quit") {
        Prompt::Quit
    } else {
        Prompt::Say(t)
    }
}

/// The lines of a streamed chunk worth parsing: its lenient UTF-8 decoding
/// split into lines, without the blank ones.
pub fn chunk_lines(bytes: &[u8]) -> (r: Vec<String>)
    ensures
        views(r@) == chunk_lines_of(bytes@),
        views(r@) == lines_of(utf8_lossy(bytes@)).filter(|l: Seq<char>| has_content(l)),
{
    proof {
        lemma_chunk_lines_keep_content(bytes@);
    }
    let text = decode_lossy(bytes);
    let all = lines(text.as_str());
    let ghost ls = views(all@);
    let mut r: Vec<String> = Vec::new();
    let n = all.len();
    let mut i: usize = 0;
    while i < n
        invariant
            n == all@.len(),
            ls == views(all@),
            i <= n,
            views(r@) == ls.take(i as int).filter(|l: Seq<char>| !is_blank(l)),
        decreases n - i,
    {
        let t = trim(all[i].as_str());
        proof {
            lemma_trimmed_empty_iff_blank(all@[i as int]@);
            assert(ls.take(i + 1).drop_last() =~= ls.take(i as int));
            reveal_with_fuel(Seq::filter, 1);
        }
        let ghost before = views(r@);
        if !t.as_str().is_empty() {
            r.push(all[i].clone());
            assert(views(r@) =~= before.push(ls[i as int]));
        } else {
            assert(views(r@) =~= before);
        }
        i = i + 1;
    }
    assert(ls.take(n as int) =~= ls);
    r
}

impl Conversation {
    /// An empty conversation.
    pub fn new() -> (c: Conversation)
        ensures
            c.history@ == Seq::<Message>::empty(),
    {
        Conversation { history: Vec::new() }
    }

    /// Adds what the user said.
    pub fn push_user(&mut self, content: String)
        ensures
            turns(final(self).history@) == turns(old(self).history@).push(("user"@, content@)),
    {
        let ghost before = self.history@;
        let ghost c = content@;
        self.history.push(Message { role: String::from_str("user"), content });
        assert(turns(self.history@) =~= turns(before).push(("user"@, c)));
    }

    /// Adds the model's answer, complete or cut short.
    pub fn push_assistant(&mut self, content: String)
        ensures
            turns(final(self).history@) == turns(old(self).history@).push(("assistant"@, content@)),
    {
        let ghost before = self.history@;
        let ghost c = content@;
        self.history.push(Message { role: String::from_str("assistant"), content });
        assert(turns(self.history@) =~= turns(before).push(("assistant"@, c)));
    }
}

impl Reply {
    /// A reply with nothing received yet.
    pub fn new() -> (r: Reply)
        ensures
            r.text@ == Seq::<char>::empty(),
    {
        Reply { text: String::new() }
    }

    /// Takes in one parsed line of the stream: its text, if any, is added to
    /// the reply. Returns whether the line marks the answer complete, after
    /// which the rest of the chunk's lines are skipped.
    pub fn absorb(&mut self, chunk: &ChatChunk) -> (done: bool)
        ensures
            final(self).text@ == match chunk.message {
                Some(m) => old(self).text@ + m.content@,
                None => old(self).text@,
            },
            done == (chunk.done == Some(true)),
    {
        match &chunk.message {
            Some(m) => self.text.append(m.content.as_str()),
            None => {},
        }
        match chunk.done {
            Some(d) => d,
            None => false,
        }
    }
}

} // verus!
