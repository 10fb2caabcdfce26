use vstd::prelude::*;

verus! {

/// A number that tells the words of the protocol apart: made of the length of a word, its
/// first character and the one in its middle.
pub open spec fn word_code(word: Seq<char>) -> int {
    word.len() * 1_000_000 + (word[0] as u32) * 1_000 + (word[word.len() as int / 2] as u32)
}

/// The words of the protocol are all different.
pub proof fn lemma_words()
    ensures
        word_code("id"@) == 2105100,
        word_code("error"@) == 5101114,
        word_code("items"@) == 5105101,
        word_code("status"@) == 6115116,
        word_code("threadId"@) == 8116097,
        word_code("turnId"@) == 6116110,
        word_code("text"@) == 4116120,
        word_code("server"@) == 6115118,
        word_code("data"@) == 4100116,
        word_code("turns"@) == 5116114,
        word_code("turn"@) == 4116114,
        word_code("type"@) == 4116112,
        word_code("schemaVersion"@) == 13115086,
        word_code("itemId"@) == 6105109,
        word_code("method"@) == 6109104,
        word_code("source"@) == 6115114,
        word_code("progress"@) == 8112114,
        word_code("assistantResponses"@) == 18097082,
        word_code("params"@) == 6112097,
        word_code("title"@) == 5116116,
        word_code("thread"@) == 6116101,
        word_code("sortDirection"@) == 13115114,
        word_code("nextCursor"@) == 10110117,
        word_code("message"@) == 7109115,
        word_code("itemsView"@) == 9105115,
        word_code("finalAssistantText"@) == 18102115,
        word_code("delta"@) == 5100108,
        word_code("content"@) == 7099116,
        word_code("approvalPolicy"@) == 14097108,
        word_code("textElements"@) == 12116101,
        word_code("startedAt"@) == 9115116,
        word_code("result"@) == 6114117,
        word_code("name"@) == 4110109,
        word_code("itemAliases"@) == 11105108,
        word_code("item"@) == 4105101,
        word_code("input"@) == 5105112,
        word_code("grantedAt"@) == 9103116,
        word_code("expiresAt"@) == 9101114,
        word_code("experimentalApi"@) == 15101101,
        word_code("description"@) == 11100105,
        word_code("cursor"@) == 6099115,
        word_code("code"@) == 4099100,
        word_code("clientInfo"@) == 10099116,
        word_code("capabilities"@) == 12099108,
        word_code("completedAt"@) == 11099101,
        word_code("limit"@) == 5108109,
        word_code("expectedTurnId"@) == 14101100,
        word_code("sandboxPolicy"@) == 13115120,
        word_code("sandbox"@) == 7115100,
        word_code("excludeTurns"@) == 12101101,
        word_code("model"@) == 5109100,
        word_code("effort"@) == 6101111,
        word_code("serviceTier"@) == 11115099,
        word_code("version"@) == 7118115,
        word_code("completed"@) == 9099108,
        word_code("failed"@) == 6102108,
        word_code("interrupted"@) == 11105114,
        word_code("inProgress"@) == 10105103,
        word_code("running"@) == 7114110,
        word_code("pending"@) == 7112100,
        word_code("attached"@) == 8097099,
        word_code("accepted"@) == 8097112,
        word_code("assistantMessage"@) == 16097116,
        word_code("agentMessage"@) == 12097101,
        word_code("userMessage"@) == 11117101,
        word_code("poll"@) == 4112108,
        word_code("snapshot"@) == 8115115,
        word_code("desc"@) == 4100115,
        word_code("full"@) == 4102108,
        word_code("item/started"@) == 12105116,
        word_code("item/completed"@) == 14105109,
        word_code("item/agentMessage/delta"@) == 23105101,
        word_code("turn/completed"@) == 14116109,
{
    reveal_strlit("id");
    reveal_strlit("error");
    reveal_strlit("items");
    reveal_strlit("status");
    reveal_strlit("threadId");
    reveal_strlit("turnId");
    reveal_strlit("text");
    reveal_strlit("server");
    reveal_strlit("data");
    reveal_strlit("turns");
    reveal_strlit("turn");
    reveal_strlit("type");
    reveal_strlit("schemaVersion");
    reveal_strlit("itemId");
    reveal_strlit("method");
    reveal_strlit("source");
    reveal_strlit("progress");
    reveal_strlit("assistantResponses");
    reveal_strlit("params");
    reveal_strlit("title");
    reveal_strlit("thread");
    reveal_strlit("sortDirection");
    reveal_strlit("nextCursor");
    reveal_strlit("message");
    reveal_strlit("itemsView");
    reveal_strlit("finalAssistantText");
    reveal_strlit("delta");
    reveal_strlit("content");
    reveal_strlit("approvalPolicy");
    reveal_strlit("textElements");
    reveal_strlit("startedAt");
    reveal_strlit("result");
    reveal_strlit("name");
    reveal_strlit("itemAliases");
    reveal_strlit("item");
    reveal_strlit("input");
    reveal_strlit("grantedAt");
    reveal_strlit("expiresAt");
    reveal_strlit("experimentalApi");
    reveal_strlit("description");
    reveal_strlit("cursor");
    reveal_strlit("code");
    reveal_strlit("clientInfo");
    reveal_strlit("capabilities");
    reveal_strlit("completedAt");
    reveal_strlit("limit");
    reveal_strlit("expectedTurnId");
    reveal_strlit("sandboxPolicy");
    reveal_strlit("sandbox");
    reveal_strlit("excludeTurns");
    reveal_strlit("model");
    reveal_strlit("effort");
    reveal_strlit("serviceTier");
    reveal_strlit("version");
    reveal_strlit("completed");
    reveal_strlit("failed");
    reveal_strlit("interrupted");
    reveal_strlit("inProgress");
    reveal_strlit("running");
    reveal_strlit("pending");
    reveal_strlit("attached");
    reveal_strlit("accepted");
    reveal_strlit("assistantMessage");
    reveal_strlit("agentMessage");
    reveal_strlit("userMessage");
    reveal_strlit("poll");
    reveal_strlit("snapshot");
    reveal_strlit("desc");
    reveal_strlit("full");
    reveal_strlit("item/started");
    reveal_strlit("item/completed");
    reveal_strlit("item/agentMessage/delta");
    reveal_strlit("turn/completed");
}

} // verus!
