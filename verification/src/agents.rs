//! The stock agents: their types, the factory that names them, the prompt
//! builders' settings, and the aggregation helpers that merge several agents'
//! results into one response.
//!
//! Prompt assembly itself — template filling, timestamps, generation — is the
//! application's side.

use vstd::prelude::*;
use crate::strutil;
use vstd::string::StrSliceExecFns;

verus! {

/// The stock agent kinds.
#[derive(Debug, Clone, Copy, PartialEq, Eq, Structural)]
pub enum AgentType {
    /// Condenses a conversation turn into a summary.
    ConversationSummarizer,
    /// The main conversational agent.
    Chat,
    /// Routes input to agents and tools.
    Router,
}

/// Names the stock agents.
pub struct AgentFactory;

impl AgentFactory {
    /// Every stock agent kind, in catalog order.
    pub fn available_types() -> (r: Vec<AgentType>)
        ensures
            r@ == seq![AgentType::ConversationSummarizer, AgentType::Chat, AgentType::Router],
    {
        let mut v: Vec<AgentType> = Vec::new();
        v.push(AgentType::ConversationSummarizer);
        v.push(AgentType::Chat);
        v.push(AgentType::Router);
        proof {
            assert(v@ =~= seq![
                AgentType::ConversationSummarizer,
                AgentType::Chat,
                AgentType::Router,
            ]);
        }
        v
    }

    /// The agent kind a name stands for, when it names one.
    pub fn get_type_by_name(name: &str) -> (r: Option<AgentType>)
        ensures
            r == spec_type_by_name(name@),
    {
        proof {
            reveal_strlit("conversation_summarizer");
            reveal_strlit("chat");
            reveal_strlit("router");
        }
        if strutil::str_eq(name, "conversation_summarizer") {
            Some(AgentType::ConversationSummarizer)
        } else if strutil::str_eq(name, "chat") {
            Some(AgentType::Chat)
        } else if strutil::str_eq(name, "router") {
            Some(AgentType::Router)
        } else {
            None
        }
    }
}

/// The agent kind each name stands for.
pub open spec fn spec_type_by_name(name: Seq<char>) -> Option<AgentType> {
    if name == "conversation_summarizer"@ {
        Some(AgentType::ConversationSummarizer)
    } else if name == "chat"@ {
        Some(AgentType::Chat)
    } else if name == "router"@ {
        Some(AgentType::Router)
    } else {
        None
    }
}

/// Prompt settings of the conversational agent.
#[derive(Debug, Clone, PartialEq)]
pub struct ChatPromptBuilder {
    /// The name the agent answers under.
    pub agent_nick: String,
}

impl ChatPromptBuilder {
    /// A builder answering under `nick`.
    pub fn with_nick(nick: String) -> (r: ChatPromptBuilder)
        ensures
            r.agent_nick == nick,
    {
        ChatPromptBuilder { agent_nick: nick }
    }
}

/// Prompt settings of the routing agent.
#[derive(Debug, Clone, PartialEq)]
pub struct RouterPromptBuilder {
    /// Agents input can be routed to.
    pub available_agents: Vec<String>,
    /// Tools input can be routed to.
    pub available_tools: Vec<String>,
}

impl RouterPromptBuilder {
    /// A builder routing to the given agents and tools.
    pub fn with_agents_and_tools(agents: Vec<String>, tools: Vec<String>) -> (r:
        RouterPromptBuilder)
        ensures
            r.available_agents == agents,
            r.available_tools == tools,
    {
        RouterPromptBuilder { available_agents: agents, available_tools: tools }
    }
}

/// Prompt settings of the summarizing agent; its prompt is fixed.
#[derive(Debug, Clone, PartialEq, Eq, Structural)]
pub struct ConversationSummarizerPromptBuilder;

/// The plain template-filling prompt builder.
#[derive(Debug, Clone, PartialEq, Eq, Structural)]
pub struct DefaultPromptBuilder;

/// One prompt builder, named by kind to avoid dynamic dispatch.
#[derive(Debug, Clone, PartialEq)]
pub enum PromptBuilderInstance {
    /// The plain template filler.
    Default(DefaultPromptBuilder),
    /// The conversational agent's builder.
    Chat(ChatPromptBuilder),
    /// The routing agent's builder.
    Router(RouterPromptBuilder),
    /// The summarizing agent's builder.
    ConversationSummarizer(ConversationSummarizerPromptBuilder),
}

/// What one agent answered.
#[derive(Debug, Clone, PartialEq)]
pub struct AgentResult {
    /// The agent that answered.
    pub agent_name: String,
    /// Its response text.
    pub response: String,
    /// Its failure, when it failed.
    pub error: Option<String>,
    /// How long it took, milliseconds.
    pub execution_time_ms: u64,
}

/// What one tool returned; the payload is carried as rendered text.
#[derive(Debug, Clone, PartialEq)]
pub struct ToolResult {
    /// The tool that ran.
    pub tool_name: String,
    /// Its rendered result.
    pub result: String,
    /// Its failure, when it failed.
    pub error: Option<String>,
    /// How long it took, milliseconds.
    pub execution_time_ms: u64,
}

/// Merges agents' results into one response.
pub struct WorkflowAggregator;

/// Index of the first successful agent result, when one exists.
pub open spec fn spec_first_success(rs: Seq<AgentResult>, i: int) -> Option<int>
    decreases rs.len() - i,
{
    if i < 0 || i >= rs.len() {
        None
    } else if rs[i].error is None {
        Some(i)
    } else {
        spec_first_success(rs, i + 1)
    }
}

/// The display name of an agent.
pub open spec fn spec_display_name(agent: Seq<char>) -> Seq<char> {
    if agent == "chat"@ {
        "对话助手"@
    } else if agent == "conversation_summarizer"@ {
        "对话总结"@
    } else if agent == "persona_extractor"@ {
        "画像分析"@
    } else if agent == "router"@ {
        "路由智能体"@
    } else {
        agent
    }
}

/// The dispatch priority of an agent; smaller runs first.
pub open spec fn spec_agent_priority(agent: Seq<char>) -> u8 {
    if agent == "chat"@ {
        1
    } else if agent == "router"@ {
        2
    } else if agent == "conversation_summarizer"@ {
        3
    } else if agent == "persona_extractor"@ {
        4
    } else {
        99
    }
}

impl WorkflowAggregator {
    /// The first successful agent's response, or a fixed notice when every
    /// agent failed.
    pub fn single_agent_response(agent_results: &Vec<AgentResult>) -> (r: String)
        ensures
            match spec_first_success(agent_results@, 0) {
                Some(i) => r@ == agent_results@[i].response@,
                None => r@ == "所有智能体执行失败"@,
            },
    {
        let n = agent_results.len();
        let mut i: usize = 0;
        while i < n
            invariant
                n == agent_results@.len(),
                i <= n,
                spec_first_success(agent_results@, 0) == spec_first_success(
                    agent_results@,
                    i as int,
                ),
            decreases n - i,
        {
            if match &agent_results[i].error {
                Some(_) => false,
                None => true,
            } {
                return agent_results[i].response.clone();
            }
            i += 1;
        }
        String::from_str("所有智能体执行失败")
    }

    /// The display name of an agent, per [`spec_display_name`].
    pub fn get_agent_display_name(agent_name: &str) -> (r: String)
        ensures
            r@ == spec_display_name(agent_name@),
    {
        proof {
            reveal_strlit("chat");
            reveal_strlit("conversation_summarizer");
            reveal_strlit("persona_extractor");
            reveal_strlit("router");
        }
        if strutil::str_eq(agent_name, "chat") {
            String::from_str("对话助手")
        } else if strutil::str_eq(agent_name, "conversation_summarizer") {
            String::from_str("对话总结")
        } else if strutil::str_eq(agent_name, "persona_extractor") {
            String::from_str("画像分析")
        } else if strutil::str_eq(agent_name, "router") {
            String::from_str("路由智能体")
        } else {
            String::from_str(agent_name)
        }
    }

    /// The dispatch priority of an agent, per [`spec_agent_priority`].
    pub fn get_agent_priority(agent_name: &str) -> (r: u8)
        ensures
            r == spec_agent_priority(agent_name@),
    {
        proof {
            reveal_strlit("chat");
            reveal_strlit("conversation_summarizer");
            reveal_strlit("persona_extractor");
            reveal_strlit("router");
        }
        if strutil::str_eq(agent_name, "chat") {
            1
        } else if strutil::str_eq(agent_name, "router") {
            2
        } else if strutil::str_eq(agent_name, "conversation_summarizer") {
            3
        } else if strutil::str_eq(agent_name, "persona_extractor") {
            4
        } else {
            99
        }
    }

    /// Shortens `text` to its first `max_length` UTF-8 bytes, marking the
    /// cut with an ellipsis; text of no more bytes than that is returned
    /// whole. `max_length` must fall on a character boundary when it cuts.
    pub fn truncate_text(text: &str, max_length: usize) -> (r: String)
        requires
            spec_byte_len(text@) <= max_length || spec_is_byte_boundary(
                text@,
                max_length as int,
            ),
        ensures
            spec_byte_len(text@) <= max_length ==> r@ == text@,
            spec_byte_len(text@) > max_length ==> r@ == spec_take_bytes(
                text@,
                max_length as int,
            ) + "..."@,
    {
        let n = text.unicode_len();
        let mut i: usize = 0;
        let mut used: usize = 0;
        let mut stop = false;
        proof {
            assert(text@.take(0) =~= Seq::<char>::empty());
            assert(text@.skip(0) =~= text@);
        }
        while i < n && !stop
            invariant
                n == text@.len(),
                i <= n,
                used == spec_byte_len(text@.take(i as int)),
                used <= max_length,
                !stop ==> spec_take_bytes(text@, max_length as int) == text@.take(i as int)
                    + spec_take_bytes(text@.skip(i as int), max_length - used),
                stop ==> spec_byte_len(text@) > max_length && spec_take_bytes(
                    text@,
                    max_length as int,
                ) == text@.take(i as int),
            decreases n - i + (if stop {
                0int
            } else {
                1int
            }),
        {
            let c = text.get_char(i);
            let cl = char_utf8_len(c);
            proof {
                assert(text@.skip(i as int)[0] == text@[i as int]);
                assert(text@.skip(i as int).drop_first() =~= text@.skip(i + 1));
                lemma_byte_len_nonneg(text@.skip(i + 1));
            }
            if cl > max_length - used {
                proof {
                    lemma_byte_len_add(text@.take(i as int), text@.skip(i as int));
                    assert(text@.take(i as int) + text@.skip(i as int) =~= text@);
                    assert(spec_byte_len(text@.skip(i as int)) == cl + spec_byte_len(
                        text@.skip(i + 1),
                    ));
                    assert(spec_take_bytes(text@.skip(i as int), max_length - used)
                        =~= Seq::<char>::empty());
                    assert(spec_take_bytes(text@, max_length as int) =~= text@.take(i as int));
                }
                stop = true;
            } else {
                proof {
                    let rest = text@.skip(i as int);
                    assert(spec_take_bytes(rest, max_length - used) == seq![text@[i as int]]
                        + spec_take_bytes(text@.skip(i + 1), max_length - used - cl));
                    assert(text@.take(i + 1) =~= text@.take(i as int) + seq![text@[i as int]]);
                    lemma_byte_len_add(text@.take(i as int), seq![text@[i as int]]);
                    lemma_byte_len_singleton(text@[i as int]);
                    assert(text@.take(i + 1) + spec_take_bytes(
                        text@.skip(i + 1),
                        max_length - used - cl,
                    ) =~= text@.take(i as int) + spec_take_bytes(rest, max_length - used));
                }
                used = used + cl;
                i += 1;
            }
        }
        if stop {
            let cut = text.substring_char(0, i);
            let mut s = String::from_str(cut);
            s.append("...");
            proof {
                assert(text@.subrange(0, i as int) =~= text@.take(i as int));
                assert(s@ =~= spec_take_bytes(text@, max_length as int) + "..."@);
            }
            s
        } else {
            proof {
                assert(text@.take(n as int) =~= text@);
                assert(text@.skip(n as int) =~= Seq::<char>::empty());
                assert(spec_take_bytes(text@.skip(n as int), max_length - used)
                    =~= Seq::<char>::empty());
                assert(text@ + Seq::<char>::empty() =~= text@);
            }
            String::from_str(text)
        }
    }
}

/// The bytes a character occupies in UTF-8.
pub open spec fn spec_utf8_len(c: char) -> int {
    if (c as u32) < 0x80 {
        1
    } else if (c as u32) < 0x800 {
        2
    } else if (c as u32) < 0x10000 {
        3
    } else {
        4
    }
}

/// The bytes a character sequence occupies in UTF-8.
pub open spec fn spec_byte_len(s: Seq<char>) -> int
    decreases s.len(),
{
    if s.len() == 0 {
        0
    } else {
        spec_utf8_len(s[0]) + spec_byte_len(s.drop_first())
    }
}

/// Whether `n` falls on a character boundary of the UTF-8 encoding of `s`:
/// some prefix of `s` encodes to exactly `n` bytes.
pub open spec fn spec_is_byte_boundary(s: Seq<char>, n: int) -> bool {
    exists|k: int| 0 <= k <= s.len() && spec_byte_len(#[trigger] s.take(k)) == n
}

/// The longest prefix of `s` whose UTF-8 encoding fits in `budget` bytes.
pub open spec fn spec_take_bytes(s: Seq<char>, budget: int) -> Seq<char>
    decreases s.len(),
{
    if s.len() == 0 {
        s
    } else if spec_utf8_len(s[0]) <= budget {
        seq![s[0]] + spec_take_bytes(s.drop_first(), budget - spec_utf8_len(s[0]))
    } else {
        Seq::empty()
    }
}

/// A character sequence occupies at least one byte per character.
proof fn lemma_byte_len_nonneg(s: Seq<char>)
    ensures
        spec_byte_len(s) >= s.len(),
    decreases s.len(),
{
    if s.len() > 0 {
        lemma_byte_len_nonneg(s.drop_first());
    }
}

/// A single character's sequence occupies its own UTF-8 length.
proof fn lemma_byte_len_singleton(c: char)
    ensures
        spec_byte_len(seq![c]) == spec_utf8_len(c),
{
    assert(seq![c].len() == 1 && seq![c][0] == c);
    assert(seq![c].drop_first() =~= Seq::<char>::empty());
    assert(spec_byte_len(Seq::<char>::empty()) == 0);
}

/// UTF-8 lengths add over concatenation.
proof fn lemma_byte_len_add(a: Seq<char>, b: Seq<char>)
    ensures
        spec_byte_len(a + b) == spec_byte_len(a) + spec_byte_len(b),
    decreases a.len(),
{
    if a.len() == 0 {
        assert(a + b =~= b);
    } else {
        assert((a + b).drop_first() =~= a.drop_first() + b);
        lemma_byte_len_add(a.drop_first(), b);
    }
}

/// The UTF-8 length of one character.
fn char_utf8_len(c: char) -> (r: usize)
    ensures
        r == spec_utf8_len(c),
{
    let u = c as u32;
    if u < 0x80 {
        1
    } else if u < 0x800 {
        2
    } else if u < 0x10000 {
        3
    } else {
        4
    }
}

} // verus!
