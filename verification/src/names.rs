//! The names of JSON members, told apart.
use vstd::prelude::*;

verus! {

/// The lengths of the names that JSON members have here, and characters in which names of
/// one length differ: no two of them are one name.
pub proof fn lemma_names()
    ensures
        "n"@.len() == 1,
        "id"@.len() == 2,
        "cwd"@.len() == 3,
        "pid"@.len() == 3,
        "cwd"@[0] == 'c',
        "pid"@[0] == 'p',
        "code"@.len() == 4,
        "data"@.len() == 4,
        "item"@.len() == 4,
        "name"@.len() == 4,
        "part"@.len() == 4,
        "role"@.len() == 4,
        "text"@.len() == 4,
        "turn"@.len() == 4,
        "type"@.len() == 4,
        "code"@[0] == 'c' && "code"@[1] == 'o',
        "data"@[0] == 'd' && "data"@[1] == 'a',
        "item"@[0] == 'i' && "item"@[1] == 't',
        "name"@[0] == 'n' && "name"@[1] == 'a',
        "part"@[0] == 'p' && "part"@[1] == 'a',
        "role"@[0] == 'r' && "role"@[1] == 'o',
        "text"@[0] == 't' && "text"@[1] == 'e',
        "turn"@[0] == 't' && "turn"@[1] == 'u',
        "type"@[0] == 't' && "type"@[1] == 'y',
        "delta"@.len() == 5,
        "error"@.len() == 5,
        "index"@.len() == 5,
        "input"@.len() == 5,
        "limit"@.len() == 5,
        "model"@.len() == 5,
        "param"@.len() == 5,
        "store"@.len() == 5,
        "tools"@.len() == 5,
        "total"@.len() == 5,
        "usage"@.len() == 5,
        "delta"@[0] == 'd' && "delta"@[2] == 'l',
        "error"@[0] == 'e' && "error"@[2] == 'r',
        "index"@[0] == 'i' && "index"@[2] == 'd',
        "input"@[0] == 'i' && "input"@[2] == 'p',
        "limit"@[0] == 'l' && "limit"@[2] == 'm',
        "model"@[0] == 'm' && "model"@[2] == 'd',
        "param"@[0] == 'p' && "param"@[2] == 'r',
        "store"@[0] == 's' && "store"@[2] == 'o',
        "tools"@[0] == 't' && "tools"@[2] == 'o',
        "total"@[0] == 't' && "total"@[2] == 't',
        "usage"@[0] == 'u' && "usage"@[2] == 'a',
        "config"@.len() == 6,
        "cursor"@.len() == 6,
        "effort"@.len() == 6,
        "itemId"@.len() == 6,
        "method"@.len() == 6,
        "object"@.len() == 6,
        "output"@.len() == 6,
        "params"@.len() == 6,
        "result"@.len() == 6,
        "status"@.len() == 6,
        "stream"@.len() == 6,
        "thread"@.len() == 6,
        "config"@[0] == 'c' && "config"@[2] == 'n',
        "cursor"@[0] == 'c' && "cursor"@[2] == 'r',
        "effort"@[0] == 'e' && "effort"@[2] == 'f',
        "itemId"@[0] == 'i' && "itemId"@[2] == 'e',
        "method"@[0] == 'm' && "method"@[2] == 't',
        "object"@[0] == 'o' && "object"@[2] == 'j',
        "output"@[0] == 'o' && "output"@[2] == 't',
        "params"@[0] == 'p' && "params"@[2] == 'r',
        "result"@[0] == 'r' && "result"@[2] == 's',
        "status"@[0] == 's' && "status"@[2] == 'a',
        "stream"@[0] == 's' && "stream"@[2] == 'r',
        "thread"@[0] == 't' && "thread"@[2] == 'r',
        "account"@.len() == 7,
        "choices"@.len() == 7,
        "content"@.len() == 7,
        "created"@.len() == 7,
        "item_id"@.len() == 7,
        "message"@.len() == 7,
        "sandbox"@.len() == 7,
        "version"@.len() == 7,
        "account"@[4] == 'u',
        "choices"@[4] == 'c',
        "content"@[4] == 'e',
        "created"@[4] == 't',
        "item_id"@[4] == '_',
        "message"@[4] == 'a',
        "sandbox"@[4] == 'b',
        "version"@[4] == 'i',
        "instance"@.len() == 8,
        "logprobs"@.len() == 8,
        "messages"@.len() == 8,
        "owned_by"@.len() == 8,
        "response"@.len() == 8,
        "stopping"@.len() == 8,
        "threadId"@.len() == 8,
        "instance"@[0] == 'i',
        "logprobs"@[0] == 'l',
        "messages"@[0] == 'm',
        "owned_by"@[0] == 'o',
        "response"@[0] == 'r',
        "stopping"@[0] == 's',
        "threadId"@[0] == 't',
        "ephemeral"@.len() == 9,
        "reasoning"@.len() == 9,
        "willRetry"@.len() == 9,
        "ephemeral"@[0] == 'e',
        "reasoning"@[0] == 'r',
        "willRetry"@[0] == 'w',
        "clientInfo"@.len() == 10,
        "created_at"@.len() == 10,
        "nextCursor"@.len() == 10,
        "repository"@.len() == 10,
        "tokenUsage"@.len() == 10,
        "tool_calls"@.len() == 10,
        "clientInfo"@[2] == 'i',
        "created_at"@[2] == 'e',
        "nextCursor"@[2] == 'x',
        "repository"@[2] == 'p',
        "tokenUsage"@[2] == 'k',
        "tool_calls"@[2] == 'o',
        "annotations"@.len() == 11,
        "description"@.len() == 11,
        "inputTokens"@.len() == 11,
        "mcp_servers"@.len() == 11,
        "tool_choice"@.len() == 11,
        "totalTokens"@.len() == 11,
        "annotations"@[3] == 'o',
        "description"@[3] == 'c',
        "inputTokens"@[3] == 'u',
        "mcp_servers"@[3] == '_',
        "tool_choice"@[3] == 'l',
        "totalTokens"@[3] == 'a',
        "input_tokens"@.len() == 12,
        "instructions"@.len() == 12,
        "outputTokens"@.len() == 12,
        "output_index"@.len() == 12,
        "refreshToken"@.len() == 12,
        "total_tokens"@.len() == 12,
        "input_tokens"@[0] == 'i' && "input_tokens"@[6] == 't',
        "instructions"@[0] == 'i' && "instructions"@[6] == 'c',
        "outputTokens"@[0] == 'o' && "outputTokens"@[6] == 'T',
        "output_index"@[0] == 'o' && "output_index"@[6] == '_',
        "refreshToken"@[0] == 'r' && "refreshToken"@[6] == 'h',
        "total_tokens"@[0] == 't' && "total_tokens"@[6] == 't',
        "cached_tokens"@.len() == 13,
        "content_index"@.len() == 13,
        "finish_reason"@.len() == 13,
        "function_call"@.len() == 13,
        "includeLayers"@.len() == 13,
        "include_usage"@.len() == 13,
        "output_tokens"@.len() == 13,
        "prompt_tokens"@.len() == 13,
        "text_elements"@.len() == 13,
        "cached_tokens"@[0] == 'c' && "cached_tokens"@[7] == 't',
        "content_index"@[0] == 'c' && "content_index"@[7] == '_',
        "finish_reason"@[0] == 'f' && "finish_reason"@[7] == 'r',
        "function_call"@[0] == 'f' && "function_call"@[7] == 'n',
        "includeLayers"@[0] == 'i' && "includeLayers"@[7] == 'L',
        "include_usage"@[0] == 'i' && "include_usage"@[7] == '_',
        "output_tokens"@[0] == 'o' && "output_tokens"@[7] == 't',
        "prompt_tokens"@[0] == 'p' && "prompt_tokens"@[7] == 't',
        "text_elements"@[0] == 't' && "text_elements"@[7] == 'e',
        "approvalPolicy"@.len() == 14,
        "stream_options"@.len() == 14,
        "approvalPolicy"@[0] == 'a',
        "stream_options"@[0] == 's',
        "sequence_number"@.len() == 15,
        "baseInstructions"@.len() == 16,
        "reasoning_effort"@.len() == 16,
        "reasoning_tokens"@.len() == 16,
        "baseInstructions"@[10] == 'c',
        "reasoning_effort"@[10] == 'e',
        "reasoning_tokens"@[10] == 't',
        "cachedInputTokens"@.len() == 17,
        "completion_tokens"@.len() == 17,
        "cachedInputTokens"@[1] == 'a',
        "completion_tokens"@[1] == 'o',
        "incomplete_details"@.len() == 18,
        "parallel_tool_calls"@.len() == 19,
        "input_tokens_details"@.len() == 20,
        "developerInstructions"@.len() == 21,
        "output_tokens_details"@.len() == 21,
        "prompt_tokens_details"@.len() == 21,
        "reasoningOutputTokens"@.len() == 21,
        "developerInstructions"@[0] == 'd',
        "output_tokens_details"@[0] == 'o',
        "prompt_tokens_details"@[0] == 'p',
        "reasoningOutputTokens"@[0] == 'r',
        "completion_tokens_details"@.len() == 25,
{
    reveal_strlit("n");
    reveal_strlit("id");
    reveal_strlit("cwd");
    reveal_strlit("pid");
    reveal_strlit("code");
    reveal_strlit("data");
    reveal_strlit("item");
    reveal_strlit("name");
    reveal_strlit("part");
    reveal_strlit("role");
    reveal_strlit("text");
    reveal_strlit("turn");
    reveal_strlit("type");
    reveal_strlit("delta");
    reveal_strlit("error");
    reveal_strlit("index");
    reveal_strlit("input");
    reveal_strlit("limit");
    reveal_strlit("model");
    reveal_strlit("param");
    reveal_strlit("store");
    reveal_strlit("tools");
    reveal_strlit("total");
    reveal_strlit("usage");
    reveal_strlit("config");
    reveal_strlit("cursor");
    reveal_strlit("effort");
    reveal_strlit("itemId");
    reveal_strlit("method");
    reveal_strlit("object");
    reveal_strlit("output");
    reveal_strlit("params");
    reveal_strlit("result");
    reveal_strlit("status");
    reveal_strlit("stream");
    reveal_strlit("thread");
    reveal_strlit("account");
    reveal_strlit("choices");
    reveal_strlit("content");
    reveal_strlit("created");
    reveal_strlit("item_id");
    reveal_strlit("message");
    reveal_strlit("sandbox");
    reveal_strlit("version");
    reveal_strlit("instance");
    reveal_strlit("logprobs");
    reveal_strlit("messages");
    reveal_strlit("owned_by");
    reveal_strlit("response");
    reveal_strlit("stopping");
    reveal_strlit("threadId");
    reveal_strlit("ephemeral");
    reveal_strlit("reasoning");
    reveal_strlit("willRetry");
    reveal_strlit("clientInfo");
    reveal_strlit("created_at");
    reveal_strlit("nextCursor");
    reveal_strlit("repository");
    reveal_strlit("tokenUsage");
    reveal_strlit("tool_calls");
    reveal_strlit("annotations");
    reveal_strlit("description");
    reveal_strlit("inputTokens");
    reveal_strlit("mcp_servers");
    reveal_strlit("tool_choice");
    reveal_strlit("totalTokens");
    reveal_strlit("input_tokens");
    reveal_strlit("instructions");
    reveal_strlit("outputTokens");
    reveal_strlit("output_index");
    reveal_strlit("refreshToken");
    reveal_strlit("total_tokens");
    reveal_strlit("cached_tokens");
    reveal_strlit("content_index");
    reveal_strlit("finish_reason");
    reveal_strlit("function_call");
    reveal_strlit("includeLayers");
    reveal_strlit("include_usage");
    reveal_strlit("output_tokens");
    reveal_strlit("prompt_tokens");
    reveal_strlit("text_elements");
    reveal_strlit("approvalPolicy");
    reveal_strlit("stream_options");
    reveal_strlit("sequence_number");
    reveal_strlit("baseInstructions");
    reveal_strlit("reasoning_effort");
    reveal_strlit("reasoning_tokens");
    reveal_strlit("cachedInputTokens");
    reveal_strlit("completion_tokens");
    reveal_strlit("incomplete_details");
    reveal_strlit("parallel_tool_calls");
    reveal_strlit("input_tokens_details");
    reveal_strlit("developerInstructions");
    reveal_strlit("output_tokens_details");
    reveal_strlit("prompt_tokens_details");
    reveal_strlit("reasoningOutputTokens");
    reveal_strlit("completion_tokens_details");
}

} // verus!
