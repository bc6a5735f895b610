//! The transcript's message model: messages are ordered lists of typed
//! blocks (assistant text, reasoning, tool invocations, user text). Tool
//! parameters are an insertion-ordered list with unique names whose values
//! only ever grow during streaming.

use vstd::prelude::*;
use crate::text::{
    chars_of_str,
    string_of_chars,
    subrange_vec,
    append_chars,
    push_decimal,
    spec_decimal,
    spec_is_blank,
    chars_is_blank,
};

verus! {

/// Lifecycle status of a tool invocation.
#[derive(Clone, Copy, Debug, PartialEq, Eq, Structural)]
pub enum ToolStatus {
    Pending,
    Running,
    Success,
    Error,
}

/// A streamed tool parameter value.
#[derive(Debug)]
pub struct ParameterValue {
    pub value: String,
}

impl ParameterValue {
    pub fn new(value: String) -> (r: ParameterValue)
        ensures
            r.value@ == value@,
    {
        ParameterValue { value }
    }

    /// Appends streamed content to the value.
    pub fn append_value(&mut self, content: &str)
        ensures
            final(self).value@ == old(self).value@ + content@,
    {
        let mut cs = chars_of_str(self.value.as_str());
        let add = chars_of_str(content);
        append_chars(&mut cs, &add);
        self.value = string_of_chars(&cs);
    }

    /// The value shown for a regular parameter: long values are cut to 97
    /// characters plus an ellipsis.
    pub fn get_display_value(&self) -> (r: String)
        ensures
            self.value@.len() <= 100 ==> r@ == self.value@,
            self.value@.len() > 100 ==> r@ == self.value@.take(97) + "..."@,
    {
        proof {
            reveal_strlit("...");
        }
        let cs = chars_of_str(self.value.as_str());
        if cs.len() > 100 {
            let mut head = subrange_vec(&cs, 0, 97);
            let dots = chars_of_str("...");
            append_chars(&mut head, &dots);
            string_of_chars(&head)
        } else {
            string_of_chars(&cs)
        }
    }
}

/// One named tool parameter.
#[derive(Debug)]
pub struct ToolParam {
    pub name: String,
    pub value: ParameterValue,
}

/// Parameter names are unique (insertion order is the vector order).
pub open spec fn spec_params_unique(ps: Seq<ToolParam>) -> bool {
    forall|i: int, j: int|
        0 <= i < j < ps.len() ==> (#[trigger] ps[i]).name@ != (#[trigger] ps[j]).name@
}

/// The index of the parameter named `name`, if present.
pub open spec fn spec_param_index(ps: Seq<ToolParam>, name: Seq<char>) -> Option<int> {
    if exists|i: int| 0 <= i < ps.len() && (#[trigger] ps[i]).name@ == name {
        Some(choose|i: int| 0 <= i < ps.len() && (#[trigger] ps[i]).name@ == name)
    } else {
        None
    }
}

/// A tool invocation block: name, stable id, ordered parameters, status,
/// optional status message and streamed output.
#[derive(Debug)]
pub struct ToolUseBlock {
    pub name: String,
    pub id: String,
    pub parameters: Vec<ToolParam>,
    pub status: ToolStatus,
    pub status_message: Option<String>,
    pub output: Option<String>,
}

impl ToolUseBlock {
    pub open spec fn spec_wf(self) -> bool {
        spec_params_unique(self.parameters@)
    }

    pub fn new(name: String, id: String) -> (r: ToolUseBlock)
        ensures
            r.spec_wf(),
            r.name@ == name@,
            r.id@ == id@,
            r.parameters@.len() == 0,
            r.status is Pending,
            r.status_message is None,
            r.output is None,
    {
        ToolUseBlock {
            name,
            id,
            parameters: Vec::new(),
            status: ToolStatus::Pending,
            status_message: None,
            output: None,
        }
    }

    /// The value of the parameter named `name`, if present.
    pub fn param_value(&self, name: &str) -> (r: Option<String>)
        requires
            self.spec_wf(),
        ensures
            match spec_param_index(self.parameters@, name@) {
                Some(i) => r matches Some(v) && v@ == self.parameters@[i].value.value@,
                None => r is None,
            },
    {
        let mut i: usize = 0;
        while i < self.parameters.len()
            invariant
                self.spec_wf(),
                i <= self.parameters@.len(),
                forall|j: int| 0 <= j < i ==> (#[trigger] self.parameters@[j]).name@ != name@,
            decreases self.parameters@.len() - i,
        {
            if str_eq(self.parameters[i].name.as_str(), name) {
                proof {
                    let w = choose|w: int|
                        0 <= w < self.parameters@.len() && (#[trigger] self.parameters@[w]).name@
                            == name@;
                    assert(w == i);
                }
                let cs = chars_of_str(self.parameters[i].value.value.as_str());
                return Some(string_of_chars(&cs));
            }
            i += 1;
        }
        None
    }

    /// Appends to the parameter named `name`, or records it as new; the
    /// first occurrence keeps its position and later values only append.
    pub fn add_or_update_parameter(&mut self, name: String, value: String)
        requires
            old(self).spec_wf(),
        ensures
            final(self).spec_wf(),
            final(self).name == old(self).name,
            final(self).id == old(self).id,
            final(self).status == old(self).status,
            final(self).status_message == old(self).status_message,
            final(self).output == old(self).output,
            match spec_param_index(old(self).parameters@, name@) {
                Some(i) => {
                    &&& final(self).parameters@.len() == old(self).parameters@.len()
                    &&& final(self).parameters@[i].name@ == name@
                    &&& final(self).parameters@[i].value.value@ == old(
                        self,
                    ).parameters@[i].value.value@ + value@
                    &&& forall|j: int|
                        0 <= j < old(self).parameters@.len() && j != i ==> ((#[trigger] final(self).parameters@[j]).name@
                            == old(self).parameters@[j].name@ && final(self).parameters@[j].value.value@
                            == old(self).parameters@[j].value.value@)
                },
                None => {
                    &&& final(self).parameters@.len() == old(self).parameters@.len() + 1
                    &&& final(self).parameters@.last().name@ == name@
                    &&& final(self).parameters@.last().value.value@ == value@
                    &&& forall|j: int|
                        0 <= j < old(self).parameters@.len() ==> ((#[trigger] final(self).parameters@[j]).name@
                            == old(self).parameters@[j].name@ && final(self).parameters@[j].value.value@
                            == old(self).parameters@[j].value.value@)
                },
            },
    {
        let ghost orig = self.parameters@;
        let mut i: usize = 0;
        while i < self.parameters.len()
            invariant
                orig == old(self).parameters@,
                self.spec_wf(),
                self.parameters@ == orig,
                self.name == old(self).name,
                self.id == old(self).id,
                self.status == old(self).status,
                self.status_message == old(self).status_message,
                self.output == old(self).output,
                i <= self.parameters@.len(),
                forall|j: int| 0 <= j < i ==> (#[trigger] self.parameters@[j]).name@ != name@,
            decreases self.parameters@.len() - i,
        {
            if str_eq(self.parameters[i].name.as_str(), name.as_str()) {
                proof {
                    let w = choose|w: int|
                        0 <= w < orig.len() && (#[trigger] orig[w]).name@ == name@;
                    assert(w == i);
                }
                let mut p = self.parameters.remove(i);
                p.value.append_value(value.as_str());
                self.parameters.insert(i, p);
                proof {
                    assert(self.parameters@ =~= orig.update(
                        i as int,
                        self.parameters@[i as int],
                    ));
                    assert forall|a: int, b: int|
                        0 <= a < b < self.parameters@.len() implies (#[trigger]
                    self.parameters@[a]).name@ != (#[trigger] self.parameters@[b]).name@ by {
                        assert(self.parameters@[a].name@ == orig[a].name@);
                        assert(self.parameters@[b].name@ == orig[b].name@);
                    }
                    assert(orig[i as int].name@ == name@);
                    assert(spec_param_index(orig, name@) matches Some(w) && w == i as int) by {
                        let w = choose|w: int|
                            0 <= w < orig.len() && (#[trigger] orig[w]).name@ == name@;
                        if w != i {
                            if w < i {
                                assert(orig[w].name@ != orig[i as int].name@);
                            } else {
                                assert(orig[i as int].name@ != orig[w].name@);
                            }
                        }
                    }
                    assert(self.parameters@[i as int].name@ == name@);
                    assert(self.parameters@[i as int].value.value@ == orig[i as int].value.value@
                        + value@);
                    assert forall|j: int|
                        0 <= j < orig.len() && j != i as int implies ((#[trigger]
                    self.parameters@[j]).name@ == orig[j].name@ && self.parameters@[j].value.value@
                        == orig[j].value.value@) by {
                        assert(self.parameters@[j] == orig[j]);
                    }

                }
                return ;
            }
            i += 1;
        }
        let ghost gname = name@;
        let p = ToolParam { name, value: ParameterValue::new(value) };
        let ghost pv = p;
        self.parameters.push(p);
        proof {
            assert(self.parameters@ == orig.push(pv));
            assert(spec_param_index(orig, gname) is None) by {
                if spec_param_index(orig, gname) is Some {
                    let w = choose|w: int|
                        0 <= w < orig.len() && (#[trigger] orig[w]).name@ == gname;
                    assert(false);
                }
            }
            assert(self.parameters@.last() == pv);
            assert forall|j: int|
                0 <= j < orig.len() implies ((#[trigger] self.parameters@[j]).name@
                == orig[j].name@ && self.parameters@[j].value.value@ == orig[j].value.value@) by {
                assert(self.parameters@[j] == orig[j]);
            }
            assert forall|a: int, b: int|
                0 <= a < b < self.parameters@.len() implies (#[trigger]
            self.parameters@[a]).name@ != (#[trigger] self.parameters@[b]).name@ by {
                if b < orig.len() {
                    assert(self.parameters@[a] == orig[a] && self.parameters@[b] == orig[b]);
                } else {
                    assert(self.parameters@[a] == orig[a]);
                    assert(self.parameters@[b] == pv);
                }
            }
        }
    }
}

/// Plain assistant (or user) text.
#[derive(Debug)]
pub struct PlainTextBlock {
    pub content: String,
}

impl PlainTextBlock {
    pub fn new() -> (r: PlainTextBlock)
        ensures
            r.content@.len() == 0,
    {
        PlainTextBlock { content: String::new() }
    }
}

/// Assistant reasoning text, with the time it started.
#[derive(Debug)]
pub struct ThinkingBlock {
    pub content: String,
    pub start_ms: u64,
}

impl ThinkingBlock {
    pub fn new(start_ms: u64) -> (r: ThinkingBlock)
        ensures
            r.content@.len() == 0,
            r.start_ms == start_ms,
    {
        ThinkingBlock { content: String::new(), start_ms }
    }

    /// How long the block has run, as seconds or minutes and seconds.
    pub fn formatted_duration(&self, now_ms: u64) -> (r: String)
        ensures
            ({
                let secs = crate::chunking::spec_age_ms(now_ms, self.start_ms) / 1000;
                if secs < 60 {
                    r@ == spec_decimal(secs as nat) + "s"@
                } else {
                    r@ == spec_decimal((secs / 60) as nat) + "m"@ + spec_decimal(
                        (secs % 60) as nat,
                    ) + "s"@
                }
            }),
    {
        proof {
            reveal_strlit("s");
            reveal_strlit("m");
        }
        let secs = crate::chunking::age_ms(now_ms, self.start_ms) / 1000;
        let mut out: Vec<char> = Vec::new();
        if secs < 60 {
            push_decimal(&mut out, secs);
            out.push('s');
            proof {
                assert(out@ =~= spec_decimal(secs as nat) + "s"@);
            }
        } else {
            push_decimal(&mut out, secs / 60);
            out.push('m');
            push_decimal(&mut out, secs % 60);
            out.push('s');
            proof {
                assert(out@ =~= spec_decimal((secs / 60) as nat) + "m"@ + spec_decimal(
                    (secs % 60) as nat,
                ) + "s"@);
            }
        }
        string_of_chars(&out)
    }
}

/// One block of a message.
#[derive(Debug)]
pub enum MessageBlock {
    PlainText(PlainTextBlock),
    Thinking(ThinkingBlock),
    ToolUse(ToolUseBlock),
    UserText(PlainTextBlock),
}

/// A block has content when its text is not all whitespace, or, for a tool
/// block, when the tool has a name.
pub open spec fn spec_block_has_content(b: MessageBlock) -> bool {
    match b {
        MessageBlock::PlainText(t) => !spec_is_blank(t.content@),
        MessageBlock::Thinking(t) => !spec_is_blank(t.content@),
        MessageBlock::ToolUse(t) => t.name@.len() > 0,
        MessageBlock::UserText(t) => !spec_is_blank(t.content@),
    }
}

pub open spec fn spec_block_wf(b: MessageBlock) -> bool {
    match b {
        MessageBlock::ToolUse(t) => t.spec_wf(),
        _ => true,
    }
}

impl MessageBlock {
    pub fn has_content(&self) -> (r: bool)
        ensures
            r == spec_block_has_content(*self),
    {
        match self {
            MessageBlock::PlainText(t) => {
                let cs = chars_of_str(t.content.as_str());
                !chars_is_blank(&cs)
            },
            MessageBlock::Thinking(t) => {
                let cs = chars_of_str(t.content.as_str());
                !chars_is_blank(&cs)
            },
            MessageBlock::ToolUse(t) => !t.name.as_str().is_empty(),
            MessageBlock::UserText(t) => {
                let cs = chars_of_str(t.content.as_str());
                !chars_is_blank(&cs)
            },
        }
    }

    /// Appends streamed content to a text-bearing block; tool blocks are
    /// untouched (their parameters stream separately).
    pub fn append_content(&mut self, content: &str)
        ensures
            match *old(self) {
                MessageBlock::PlainText(t) => *final(self) matches MessageBlock::PlainText(u)
                    && u.content@ == t.content@ + content@,
                MessageBlock::Thinking(t) => *final(self) matches MessageBlock::Thinking(u)
                    && u.content@ == t.content@ + content@ && u.start_ms == t.start_ms,
                MessageBlock::ToolUse(_) => *final(self) == *old(self),
                MessageBlock::UserText(t) => *final(self) matches MessageBlock::UserText(u)
                    && u.content@ == t.content@ + content@,
            },
    {
        match self {
            MessageBlock::PlainText(t) => {
                let mut cs = chars_of_str(t.content.as_str());
                let add = chars_of_str(content);
                append_chars(&mut cs, &add);
                t.content = string_of_chars(&cs);
            },
            MessageBlock::Thinking(t) => {
                let mut cs = chars_of_str(t.content.as_str());
                let add = chars_of_str(content);
                append_chars(&mut cs, &add);
                t.content = string_of_chars(&cs);
            },
            MessageBlock::ToolUse(_) => {},
            MessageBlock::UserText(t) => {
                let mut cs = chars_of_str(t.content.as_str());
                let add = chars_of_str(content);
                append_chars(&mut cs, &add);
                t.content = string_of_chars(&cs);
            },
        }
    }
}

/// A message: ordered blocks, a finalized flag, and the flag saying its
/// streamed content already went to scrollback.
#[derive(Debug)]
pub struct LiveMessage {
    pub blocks: Vec<MessageBlock>,
    pub finalized: bool,
    pub streamed_to_scrollback: bool,
}

/// A message has content when some block does.
pub open spec fn spec_message_has_content(m: LiveMessage) -> bool {
    exists|i: int| 0 <= i < m.blocks@.len() && spec_block_has_content(#[trigger] m.blocks@[i])
}

pub open spec fn spec_message_wf(m: LiveMessage) -> bool {
    forall|i: int| 0 <= i < m.blocks@.len() ==> spec_block_wf(#[trigger] m.blocks@[i])
}

impl LiveMessage {
    pub fn new() -> (r: LiveMessage)
        ensures
            r.blocks@.len() == 0,
            !r.finalized,
            !r.streamed_to_scrollback,
            spec_message_wf(r),
    {
        LiveMessage { blocks: Vec::new(), finalized: false, streamed_to_scrollback: false }
    }

    pub fn add_block(&mut self, block: MessageBlock)
        ensures
            final(self).blocks@ == old(self).blocks@.push(block),
            final(self).finalized == old(self).finalized,
            final(self).streamed_to_scrollback == old(self).streamed_to_scrollback,
    {
        self.blocks.push(block);
    }

    pub fn has_content(&self) -> (r: bool)
        ensures
            r == spec_message_has_content(*self),
    {
        let mut i: usize = 0;
        while i < self.blocks.len()
            invariant
                i <= self.blocks@.len(),
                forall|j: int| 0 <= j < i ==> !spec_block_has_content(#[trigger] self.blocks@[j]),
            decreases self.blocks@.len() - i,
        {
            if self.blocks[i].has_content() {
                return true;
            }
            i += 1;
        }
        false
    }

    /// The index of the first tool block with the given id, if any.
    pub fn find_tool_block(&self, tool_id: &str) -> (r: Option<usize>)
        ensures
            match r {
                Some(i) => 0 <= i < self.blocks@.len() && (self.blocks@[i as int]
                    matches MessageBlock::ToolUse(t) && t.id@ == tool_id@)
                    && spec_tool_index(self.blocks@, tool_id@) == Some(i as int),
                None => spec_tool_index(self.blocks@, tool_id@) is None,
            },
    {
        let mut i: usize = 0;
        while i < self.blocks.len()
            invariant
                i <= self.blocks@.len(),
                forall|j: int|
                    0 <= j < i ==> !((#[trigger] self.blocks@[j]) matches MessageBlock::ToolUse(t)
                        && t.id@ == tool_id@),
            decreases self.blocks@.len() - i,
        {
            match &self.blocks[i] {
                MessageBlock::ToolUse(t) => {
                    if str_eq(t.id.as_str(), tool_id) {
                        proof {
                            lemma_tool_index_found(self.blocks@, tool_id@, i as int);
                        }
                        return Some(i);
                    }
                },
                _ => {},
            }
            i += 1;
        }
        proof {
            lemma_tool_index_missing(self.blocks@, tool_id@);
        }
        None
    }
}

/// Character-for-character equality of two strings.
pub fn str_eq(a: &str, b: &str) -> (r: bool)
    ensures
        r == (a@ == b@),
{
    let ca = chars_of_str(a);
    let cb = chars_of_str(b);
    if ca.len() != cb.len() {
        return false;
    }
    let mut i: usize = 0;
    while i < ca.len()
        invariant
            ca@ == a@,
            cb@ == b@,
            ca@.len() == cb@.len(),
            i <= ca@.len(),
            forall|j: int| 0 <= j < i ==> ca@[j] == cb@[j],
        decreases ca@.len() - i,
    {
        if ca[i] != cb[i] {
            return false;
        }
        i += 1;
    }
    proof {
        assert(a@ =~= b@);
    }
    true
}

/// The first tool block with the given id, if any.
pub open spec fn spec_tool_index(blocks: Seq<MessageBlock>, id: Seq<char>) -> Option<int>
    decreases blocks.len(),
{
    if blocks.len() == 0 {
        None
    } else if blocks[0] matches MessageBlock::ToolUse(t) && t.id@ == id {
        Some(0)
    } else {
        match spec_tool_index(blocks.drop_first(), id) {
            Some(i) => Some(i + 1),
            None => None,
        }
    }
}

/// A scan that found no earlier match and a match at `i` pins the first
/// index.
pub proof fn lemma_tool_index_found(blocks: Seq<MessageBlock>, id: Seq<char>, i: int)
    requires
        0 <= i < blocks.len(),
        blocks[i] matches MessageBlock::ToolUse(t) && t.id@ == id,
        forall|j: int|
            0 <= j < i ==> !((#[trigger] blocks[j]) matches MessageBlock::ToolUse(t) && t.id@
                == id),
    ensures
        spec_tool_index(blocks, id) == Some(i),
    decreases i,
{
    if i > 0 {
        assert(forall|j: int|
            0 <= j < i - 1 ==> !((#[trigger] blocks.drop_first()[j])
                matches MessageBlock::ToolUse(t) && t.id@ == id));
        assert(blocks.drop_first()[i - 1] == blocks[i]);
        lemma_tool_index_found(blocks.drop_first(), id, i - 1);
        assert(!(blocks[0] matches MessageBlock::ToolUse(t) && t.id@ == id));
    }
}

/// A scan that found no match at all means there is none.
pub proof fn lemma_tool_index_missing(blocks: Seq<MessageBlock>, id: Seq<char>)
    requires
        forall|j: int|
            0 <= j < blocks.len() ==> !((#[trigger] blocks[j]) matches MessageBlock::ToolUse(t)
                && t.id@ == id),
    ensures
        spec_tool_index(blocks, id) is None,
    decreases blocks.len(),
{
    if blocks.len() > 0 {
        assert(forall|j: int|
            0 <= j < blocks.len() - 1 ==> blocks.drop_first()[j] == (#[trigger] blocks[j + 1]));
        lemma_tool_index_missing(blocks.drop_first(), id);
    }
}

} // verus!

