//! What the processor decides around its calls to a language model: the chat
//! messages a request carries, how a reply is read, and how similarity scores
//! give a yes-or-no answer.
use vstd::prelude::*;

use crate::exception::{plain, Exception};
use crate::processor::openai::OpenAIChatCompletionResponse;
use crate::processor::registers::{message_models, ContextMessage, MessageModel};
use crate::text::{chars_of, concat, owned, string_from_chars, trim, trimmed_single_line,
    without_line_feeds};

verus! {

/// The role of the system message that opens every chat.
pub open spec fn system_role() -> Seq<char> {
    seq!['s', 'y', 's', 't', 'e', 'm']
}

/// The role of the messages of the program's user.
pub open spec fn user_role() -> Seq<char> {
    seq!['u', 's', 'e', 'r']
}

/// The role of the model's own messages.
pub open spec fn assistant_role() -> Seq<char> {
    seq!['a', 's', 's', 'i', 's', 't', 'a', 'n', 't']
}

/// The instructions that the system message gives the model.
pub open spec fn system_prompt() -> Seq<char> {
    "You are a precise assistant inside a program. Follow the instruction in the last message exactly and answer only with what it asks for."@
}

/// What an evaluation adds after its question.
pub open spec fn evaluation_suffix() -> Seq<char> {
    "\nAnswer with exactly one word: YES or NO, TRUE or FALSE.\n\nAnswer only:"@
}

/// What `str::to_lowercase` gives: the text with every character replaced by
/// its Unicode lowercase mapping.
pub uninterp spec fn unicode_lowercase(s: Seq<char>) -> Seq<char>;

/// `str::to_lowercase`. Its result is named, not stated: it depends on the
/// text alone.
#[verifier::external_body]
fn to_lowercase(s: &str) -> (r: String)
    ensures
        r@ == unicode_lowercase(s@),
{
    s.to_lowercase()
}

/// One message of a chat request.
#[derive(Debug)]
pub struct OpenAIChatCompletionRequestText {
    pub role: String,
    pub content: String,
}

impl View for OpenAIChatCompletionRequestText {
    type V = MessageModel;

    open spec fn view(&self) -> MessageModel {
        MessageModel { role: self.role@, content: self.content@ }
    }
}

/// The models of a sequence of chat messages.
pub open spec fn chat_models(s: Seq<OpenAIChatCompletionRequestText>) -> Seq<MessageModel> {
    s.map_values(|m: OpenAIChatCompletionRequestText| m@)
}

/// `acc` with `m` added: joined to the last message, after a line feed, when
/// both have the same role.
pub open spec fn merge_step(acc: Seq<MessageModel>, m: MessageModel) -> Seq<MessageModel> {
    if acc.len() > 0 && acc.last().role == m.role {
        acc.drop_last().push(
            MessageModel { role: m.role, content: acc.last().content.push('\n') + m.content },
        )
    } else {
        acc.push(m)
    }
}

/// The messages with each run of messages of one role joined into one.
pub open spec fn merged(s: Seq<MessageModel>) -> Seq<MessageModel>
    decreases s.len(),
{
    if s.len() == 0 {
        Seq::empty()
    } else {
        merge_step(merged(s.drop_last()), s.last())
    }
}

/// The role that message `i` of a valid chat must have, from the third on:
/// assistant and user in turn.
pub open spec fn expected_role(i: int) -> Seq<char> {
    if i % 2 == 0 {
        assistant_role()
    } else {
        user_role()
    }
}

/// A chat that the model accepts: a system message, then a user message,
/// then assistant and user messages in turn, ending with a user message.
pub open spec fn valid_messages(s: Seq<MessageModel>) -> bool {
    &&& s.len() >= 2
    &&& s[0].role == system_role()
    &&& s[1].role == user_role()
    &&& forall|i: int| 2 <= i < s.len() ==> #[trigger] s[i].role == expected_role(i)
    &&& s.last().role == user_role()
}

/// The messages of a request: the system prompt, the context, then `content`
/// from the user.
pub open spec fn raw_messages(content: Seq<char>, context: Seq<MessageModel>) -> Seq<MessageModel> {
    seq![MessageModel { role: system_role(), content: system_prompt() }] + context + seq![
        MessageModel { role: user_role(), content },
    ]
}

/// The largest score, or 0 when there is none.
pub open spec fn best_score(scores: Seq<u32>) -> u32
    decreases scores.len(),
{
    if scores.len() == 0 {
        0
    } else {
        let rest = best_score(scores.drop_last());
        if scores.last() > rest {
            scores.last()
        } else {
            rest
        }
    }
}

/// The answer of an evaluation: 1 (yes) when the answer is closer to a
/// "true" word than to any "false" word, else 0 (no).
pub open spec fn verdict(true_scores: Seq<u32>, false_scores: Seq<u32>) -> u32 {
    if best_score(true_scores) > best_score(false_scores) {
        1
    } else {
        0
    }
}

/// Where and how chat requests are sent. The text model's sampling settings,
/// which are floating-point numbers, are kept by the program that sends.
pub struct TextGenerationConfig {
    pub text_model: String,
    pub base_url: String,
    pub chat_completion_endpoint: String,
    pub timeout_secs: u64,
    pub debug_chat: bool,
}

/// The words that an evaluation's answer is compared with.
pub struct BooleanEvalParams {
    pub true_values: Vec<String>,
    pub false_values: Vec<String>,
    pub embedding_model: String,
}

impl BooleanEvalParams {
    /// "YES" and "TRUE" against "NO" and "FALSE", compared with the given
    /// embedding model.
    pub fn for_model(embedding_model: &str) -> (p: BooleanEvalParams)
        ensures
            p.true_values@.map_values(|s: String| s@) == seq!["YES"@, "TRUE"@],
            p.false_values@.map_values(|s: String| s@) == seq!["NO"@, "FALSE"@],
            p.embedding_model@ == embedding_model@,
    {
        let mut true_values: Vec<String> = Vec::new();
        true_values.push(owned("YES"));
        true_values.push(owned("TRUE"));
        let mut false_values: Vec<String> = Vec::new();
        false_values.push(owned("NO"));
        false_values.push(owned("FALSE"));
        let p = BooleanEvalParams { true_values, false_values, embedding_model: owned(embedding_model) };
        assert(p.true_values@.map_values(|s: String| s@) =~= seq!["YES"@, "TRUE"@]);
        assert(p.false_values@.map_values(|s: String| s@) =~= seq!["NO"@, "FALSE"@]);
        p
    }
}

pub struct LanguageLogicUnit;

impl LanguageLogicUnit {
    /// A reply without surrounding white space and without line feeds.
    pub fn trim_response(value: &str) -> (r: String)
        ensures
            r@ == without_line_feeds(trim(value@)),
    {
        let cs = chars_of(value);
        let t = trimmed_single_line(cs.as_slice());
        string_from_chars(t.as_slice())
    }

    /// Joins each run of consecutive messages of one role into one message,
    /// their contents separated by a line feed.
    pub fn merge_messages_by_role(messages: &[OpenAIChatCompletionRequestText]) -> (r: Result<
        Vec<OpenAIChatCompletionRequestText>,
        Exception,
    >)
        ensures
            r matches Ok(v) && chat_models(v@) == merged(chat_models(messages@)),
    {
        let mut out: Vec<OpenAIChatCompletionRequestText> = Vec::new();
        let mut i: usize = 0;
        assert(chat_models(messages@.take(0)) =~= Seq::<MessageModel>::empty());
        while i < messages.len()
            invariant
                i <= messages.len(),
                chat_models(out@) == merged(chat_models(messages@.take(i as int))),
            decreases messages.len() - i,
        {
            let ghost prefix = chat_models(messages@.take(i as int));
            let ghost next = chat_models(messages@.take(i + 1));
            assert(next.drop_last() =~= prefix);
            assert(next.last() == messages@[i as int]@);
            let message = &messages[i];
            let n = out.len();
            if n > 0 && out[n - 1].role == message.role {
                let last = out.pop();
                match last {
                    Some(last) => {
                        let ghost before = last.content@;
                        let mut content = last.content;
                        content.append("\n");
                        content.append(message.content.as_str());
                        proof {
                            reveal_strlit("\n");
                            assert(content@ =~= before.push('\n') + message.content@);
                        }
                        out.push(OpenAIChatCompletionRequestText { role: last.role, content });
                    },
                    None => {},
                }
            } else {
                out.push(
                    OpenAIChatCompletionRequestText {
                        role: message.role.clone(),
                        content: message.content.clone(),
                    },
                );
            }
            i += 1;
            assert(chat_models(out@) =~= merged(next));
        }
        assert(messages@.take(messages.len() as int) =~= messages@);
        Ok(out)
    }

    /// Checks that a chat starts with a system message and a user message,
    /// goes on with assistant and user messages in turn, and ends with a
    /// user message.
    pub fn validate_messages(messages: &[OpenAIChatCompletionRequestText]) -> (r: Result<
        (),
        Exception,
    >)
        ensures
            r is Ok <==> valid_messages(chat_models(messages@)),
            r matches Err(e) ==> e is LanguageLogic,
    {
        let ghost s = chat_models(messages@);
        let system = owned("system");
        let user = owned("user");
        let assistant = owned("assistant");
        proof {
            reveal_strlit("system");
            reveal_strlit("user");
            reveal_strlit("assistant");
            assert(system@ =~= system_role());
            assert(user@ =~= user_role());
            assert(assistant@ =~= assistant_role());
        }
        if messages.len() < 2 {
            return Err(
                Exception::LanguageLogic(
                    plain("Messages must contain at least a system and a user message."),
                ),
            );
        }
        assert(s[0] == messages@[0]@ && s[1] == messages@[1]@);
        if !(messages[0].role == system) {
            return Err(
                Exception::LanguageLogic(plain("The first message must be a system message.")),
            );
        }
        if !(messages[1].role == user) {
            return Err(
                Exception::LanguageLogic(plain("The second message must be a user message.")),
            );
        }
        let mut i: usize = 2;
        while i < messages.len()
            invariant
                2 <= i <= messages.len(),
                s == chat_models(messages@),
                system@ == system_role(),
                user@ == user_role(),
                assistant@ == assistant_role(),
                forall|k: int| 2 <= k < i ==> #[trigger] s[k].role == expected_role(k),
            decreases messages.len() - i,
        {
            assert(s[i as int] == messages@[i as int]@);
            let expected = if i % 2 == 0 {
                &assistant
            } else {
                &user
            };
            assert(expected@ == expected_role(i as int));
            if !(messages[i].role == *expected) {
                assert(s[i as int].role != expected_role(i as int));
                return Err(Exception::LanguageLogic(plain("Unexpected role in messages.")));
            }
            i += 1;
        }
        assert(s.last() == messages@[messages.len() - 1]@);
        if !(messages[messages.len() - 1].role == user) {
            return Err(Exception::LanguageLogic(plain("Messages must end with a user message.")));
        }
        Ok(())
    }

    /// The messages of a chat request for `content` after the messages of
    /// `context`, joined by role and checked.
    pub fn chat_messages(content: &str, context: &[ContextMessage]) -> (r: Result<
        Vec<OpenAIChatCompletionRequestText>,
        Exception,
    >)
        ensures
            r is Ok <==> valid_messages(merged(raw_messages(content@, message_models(context@)))),
            r matches Ok(v) ==> chat_models(v@) == merged(
                raw_messages(content@, message_models(context@)),
            ),
            r matches Err(e) ==> e is LanguageLogic,
    {
        let mut messages: Vec<OpenAIChatCompletionRequestText> = Vec::new();
        messages.push(
            OpenAIChatCompletionRequestText {
                role: owned("system"),
                content: owned(
                    "You are a precise assistant inside a program. Follow the instruction in the last message exactly and answer only with what it asks for.",
                ),
            },
        );
        proof {
            reveal_strlit("system");
            reveal_strlit("user");
            assert("system"@ =~= system_role());
            assert("user"@ =~= user_role());
        }
        assert(messages@[0]@ == MessageModel { role: system_role(), content: system_prompt() });
        assert(chat_models(messages@) =~= seq![
            MessageModel { role: system_role(), content: system_prompt() },
        ] + message_models(context@.take(0)));
        let mut i: usize = 0;
        while i < context.len()
            invariant
                i <= context.len(),
                chat_models(messages@) == seq![
                    MessageModel { role: system_role(), content: system_prompt() },
                ] + message_models(context@.take(i as int)),
            decreases context.len() - i,
        {
            let ghost before = chat_models(messages@);
            messages.push(
                OpenAIChatCompletionRequestText {
                    role: context[i].role.clone(),
                    content: context[i].content.clone(),
                },
            );
            assert(chat_models(messages@) =~= before.push(context@[i as int]@));
            assert(message_models(context@.take(i + 1)) =~= message_models(context@.take(i as int)).push(
                context@[i as int]@,
            ));
            i += 1;
            assert(chat_models(messages@) =~= seq![
                MessageModel { role: system_role(), content: system_prompt() },
            ] + message_models(context@.take(i as int)));
        }
        messages.push(OpenAIChatCompletionRequestText { role: owned("user"), content: owned(content) });
        assert(context@.take(context.len() as int) =~= context@);
        assert(chat_models(messages@) =~= raw_messages(content@, message_models(context@)));
        let merged_messages = match Self::merge_messages_by_role(messages.as_slice()) {
            Ok(m) => m,
            Err(e) => {
                return Err(e);
            },
        };
        match Self::validate_messages(merged_messages.as_slice()) {
            Ok(()) => Ok(merged_messages),
            Err(e) => Err(e),
        }
    }

    /// The text of a chat reply: the content of its first choice, trimmed
    /// and without line feeds. A reply without choices is an error.
    pub fn reply_text(response: &OpenAIChatCompletionResponse) -> (r: Result<String, Exception>)
        ensures
            r is Ok <==> response.choices@.len() > 0,
            r matches Ok(t) ==> t@ == without_line_feeds(
                trim(response.choices@[0].message.content@),
            ),
            r matches Err(e) ==> e is LanguageLogic,
    {
        if response.choices.len() == 0 {
            return Err(
                Exception::LanguageLogic(plain("No choices returned from chat completion.")),
            );
        }
        Ok(Self::trim_response(response.choices[0].message.content.as_str()))
    }

    /// The largest of the scores, or 0 when there is none.
    pub fn best_similarity_match(scores: &[u32]) -> (best: u32)
        ensures
            best == best_score(scores@),
    {
        let mut best: u32 = 0;
        let mut i: usize = 0;
        assert(scores@.take(0) =~= Seq::<u32>::empty());
        while i < scores.len()
            invariant
                i <= scores.len(),
                best == best_score(scores@.take(i as int)),
            decreases scores.len() - i,
        {
            assert(scores@.take(i + 1).drop_last() =~= scores@.take(i as int));
            if scores[i] > best {
                best = scores[i];
            }
            i += 1;
        }
        assert(scores@.take(scores.len() as int) =~= scores@);
        best
    }

    /// The answer of an evaluation from the similarity of its reply to each
    /// "true" word and to each "false" word: 1 for yes, 0 for no.
    pub fn boolean_verdict(true_scores: &[u32], false_scores: &[u32]) -> (v: u32)
        ensures
            v == verdict(true_scores@, false_scores@),
    {
        let best_true = Self::best_similarity_match(true_scores);
        let best_false = Self::best_similarity_match(false_scores);
        if best_true > best_false {
            1
        } else {
            0
        }
    }

    /// The pairs of texts whose similarity an evaluation compares: the reply
    /// against each candidate word, both in lowercase.
    pub fn similarity_queries(value: &str, candidates: &[String]) -> (q: Vec<(String, String)>)
        ensures
            q@.len() == candidates@.len(),
            forall|i: int|
                0 <= i < q@.len() ==> (#[trigger] q@[i]).0@ == unicode_lowercase(value@)
                    && q@[i].1@ == unicode_lowercase(candidates@[i]@),
    {
        let mut q: Vec<(String, String)> = Vec::new();
        let mut i: usize = 0;
        while i < candidates.len()
            invariant
                i <= candidates.len(),
                q@.len() == i,
                forall|k: int|
                    0 <= k < i ==> (#[trigger] q@[k]).0@ == unicode_lowercase(value@) && q@[k].1@
                        == unicode_lowercase(candidates@[k]@),
            decreases candidates.len() - i,
        {
            q.push((to_lowercase(value), to_lowercase(candidates[i].as_str())));
            i += 1;
        }
        q
    }

    /// The prompt of an evaluation: the question and the instruction to
    /// answer with one yes-or-no word.
    pub fn evaluation_prompt(question: &str) -> (p: String)
        ensures
            p@ == question@ + evaluation_suffix(),
    {
        concat(question, "\nAnswer with exactly one word: YES or NO, TRUE or FALSE.\n\nAnswer only:")
    }
}

} // verus!

verus! {

// ---------------------------------------------------------------------------
// Laws
// ---------------------------------------------------------------------------

/// No two neighbouring messages of `s` have the same role.
pub open spec fn alternating(s: Seq<MessageModel>) -> bool {
    forall|i: int| 0 <= i < s.len() - 1 ==> #[trigger] s[i].role != s[i + 1].role
}

/// After joining by role, no two neighbouring messages have the same role,
/// and the first message keeps its role.
pub proof fn lemma_merged_alternates(s: Seq<MessageModel>)
    ensures
        alternating(merged(s)),
        merged(s).len() <= s.len(),
        s.len() > 0 ==> merged(s).len() > 0 && merged(s)[0].role == s[0].role,
        s.len() > 0 ==> merged(s).last().role == s.last().role,
    decreases s.len(),
{
    if s.len() > 0 {
        let p = s.drop_last();
        lemma_merged_alternates(p);
        let acc = merged(p);
        let m = s.last();
        if acc.len() > 0 && acc.last().role == m.role {
            let out = merged(s);
            assert(out.len() == acc.len());
            assert forall|i: int| 0 <= i < out.len() - 1 implies #[trigger] out[i].role != out[i
                + 1].role by {
                assert(out[i] == acc[i]);
                if i + 1 < out.len() - 1 {
                    assert(out[i + 1] == acc[i + 1]);
                }
            }
            if p.len() > 0 {
                assert(p[0] == s[0]);
            }
        } else {
            let out = merged(s);
            assert forall|i: int| 0 <= i < out.len() - 1 implies #[trigger] out[i].role != out[i
                + 1].role by {
                assert(out[i] == acc[i]);
                if i + 1 < acc.len() {
                    assert(out[i + 1] == acc[i + 1]);
                }
            }
            if p.len() > 0 {
                assert(p[0] == s[0]);
            }
        }
    }
}

/// A sequence whose neighbours differ in role is left as it is.
pub proof fn lemma_merged_of_alternating(s: Seq<MessageModel>)
    requires
        alternating(s),
    ensures
        merged(s) == s,
    decreases s.len(),
{
    if s.len() > 0 {
        let p = s.drop_last();
        assert forall|i: int| 0 <= i < p.len() - 1 implies #[trigger] p[i].role != p[i + 1].role by {
            assert(p[i] == s[i] && p[i + 1] == s[i + 1]);
        }
        lemma_merged_of_alternating(p);
        if p.len() > 0 {
            assert(s[p.len() - 1].role != s[p.len() as int].role);
        }
        assert(p.push(s.last()) =~= s);
    }
}

/// Joining messages by role twice gives what joining once gives.
pub proof fn lemma_merge_idempotent(s: Seq<MessageModel>)
    ensures
        merged(merged(s)) == merged(s),
{
    lemma_merged_alternates(s);
    lemma_merged_of_alternating(merged(s));
}

/// The best score is at least every score, and is one of them when there is
/// any.
pub proof fn lemma_best_score(scores: Seq<u32>)
    ensures
        forall|i: int| 0 <= i < scores.len() ==> scores[i] <= #[trigger] best_score(scores),
        scores.len() > 0 ==> exists|i: int| 0 <= i < scores.len() && scores[i] == best_score(scores),
        scores.len() == 0 ==> best_score(scores) == 0,
    decreases scores.len(),
{
    if scores.len() > 0 {
        let p = scores.drop_last();
        lemma_best_score(p);
        assert forall|i: int| 0 <= i < scores.len() implies scores[i] <= #[trigger] best_score(
            scores,
        ) by {
            if i < p.len() {
                assert(scores[i] == p[i]);
            }
        }
        if scores.last() > best_score(p) {
            assert(scores[scores.len() - 1] == best_score(scores));
        } else if p.len() > 0 {
            let j = choose|j: int| 0 <= j < p.len() && p[j] == best_score(p);
            assert(scores[j] == best_score(scores));
        } else {
            assert(scores[0] == best_score(scores));
        }
    }
}

/// An evaluation answers yes exactly when some "true" score is above 0 and
/// beats every "false" score.
pub proof fn lemma_verdict(true_scores: Seq<u32>, false_scores: Seq<u32>)
    ensures
        verdict(true_scores, false_scores) == 0 || verdict(true_scores, false_scores) == 1,
        verdict(true_scores, false_scores) == 1 <==> exists|i: int|
            0 <= i < true_scores.len() && 0 < #[trigger] true_scores[i] && forall|j: int|
                0 <= j < false_scores.len() ==> false_scores[j] < true_scores[i],
{
    lemma_best_score(true_scores);
    lemma_best_score(false_scores);
    if verdict(true_scores, false_scores) == 1 {
        assert(true_scores.len() > 0);
        let i = choose|i: int| 0 <= i < true_scores.len() && true_scores[i] == best_score(true_scores);
        assert forall|j: int| 0 <= j < false_scores.len() implies false_scores[j] < #[trigger] true_scores[i] by {
            assert(false_scores[j] <= best_score(false_scores));
        }
        assert(0 <= i < true_scores.len() && 0 < true_scores[i] && forall|j: int|
            0 <= j < false_scores.len() ==> false_scores[j] < true_scores[i]);
    } else {
        if exists|i: int|
            0 <= i < true_scores.len() && 0 < #[trigger] true_scores[i] && forall|j: int|
                0 <= j < false_scores.len() ==> false_scores[j] < true_scores[i] {
            let i = choose|i: int|
                0 <= i < true_scores.len() && 0 < #[trigger] true_scores[i] && forall|j: int|
                    0 <= j < false_scores.len() ==> false_scores[j] < true_scores[i];
            assert(true_scores[i] <= best_score(true_scores));
            if false_scores.len() > 0 {
                let j = choose|j: int| 0 <= j < false_scores.len() && false_scores[j] == best_score(false_scores);
                assert(false_scores[j] < true_scores[i]);
            }
        }
    }
}

/// A trimmed reply holds no line feed.
pub proof fn lemma_trimmed_single_line(s: Seq<char>)
    ensures
        !without_line_feeds(trim(s)).contains('\n'),
{
    lemma_no_line_feeds(trim(s));
}

proof fn lemma_no_line_feeds(s: Seq<char>)
    ensures
        !without_line_feeds(s).contains('\n'),
    decreases s.len(),
{
    if s.len() > 0 {
        lemma_no_line_feeds(s.drop_last());
        let p = without_line_feeds(s.drop_last());
        if s.last() != '\n' {
            assert forall|i: int| 0 <= i < p.push(s.last()).len() implies p.push(s.last())[i] != '\n' by {
                if i < p.len() {
                    assert(p.push(s.last())[i] == p[i]);
                }
            }
        }
    }
}

} // verus!

verus! {

/// A chat is valid exactly when it is a system message followed by a user
/// message and then any number of exchanges, each an assistant message
/// followed by a user message: message 0 is the system's, every odd place
/// holds a user message, every even place after 0 an assistant message, and
/// the length is even.
pub proof fn lemma_valid_chat_shape(s: Seq<MessageModel>)
    ensures
        valid_messages(s) <==> {
            &&& s.len() >= 2
            &&& s.len() % 2 == 0
            &&& s[0].role == system_role()
            &&& forall|i: int|
                1 <= i < s.len() ==> #[trigger] s[i].role == (if i % 2 == 1 {
                    user_role()
                } else {
                    assistant_role()
                })
        },
{
    assert(user_role() != assistant_role()) by {
        assert(user_role().len() != assistant_role().len());
    }
    if valid_messages(s) {
        let n = s.len() as int;
        if n > 2 {
            assert(s[n - 1].role == expected_role(n - 1));
            assert((n - 1) % 2 == 1);
        }
        assert forall|i: int| 1 <= i < s.len() implies #[trigger] s[i].role == (if i % 2 == 1 {
            user_role()
        } else {
            assistant_role()
        }) by {
            if i >= 2 {
                assert(s[i].role == expected_role(i));
            }
        }
    }
    if s.len() >= 2 && s.len() % 2 == 0 && s[0].role == system_role() && forall|i: int|
        1 <= i < s.len() ==> #[trigger] s[i].role == (if i % 2 == 1 {
            user_role()
        } else {
            assistant_role()
        }) {
        assert(s[1].role == user_role());
        assert forall|i: int| 2 <= i < s.len() implies #[trigger] s[i].role == expected_role(i) by {
            assert(s[i].role == (if i % 2 == 1 {
                user_role()
            } else {
                assistant_role()
            }));
        }
        assert(s.last() == s[s.len() - 1]);
        assert((s.len() - 1) % 2 == 1);
    }
}

} // verus!

verus! {

/// Two neighbouring messages of one role become one, their contents joined
/// by a line feed; messages of different roles stay apart, unchanged.
pub proof fn lemma_merge_pair(m1: MessageModel, m2: MessageModel)
    ensures
        m1.role == m2.role ==> merged(seq![m1, m2]) == seq![
            MessageModel { role: m1.role, content: m1.content + seq!['\n'] + m2.content },
        ],
        m1.role != m2.role ==> merged(seq![m1, m2]) == seq![m1, m2],
{
    let s = seq![m1, m2];
    assert(s.drop_last() =~= seq![m1]);
    assert(seq![m1].drop_last() =~= Seq::<MessageModel>::empty());
    assert(merged(Seq::<MessageModel>::empty()) == Seq::<MessageModel>::empty());
    assert(merged(seq![m1]) == merge_step(Seq::<MessageModel>::empty(), m1));
    assert(Seq::<MessageModel>::empty().push(m1) =~= seq![m1]);
    assert(merged(seq![m1]) =~= seq![m1]);
    assert(m1.content.push('\n') + m2.content =~= m1.content + seq!['\n'] + m2.content);
    assert(seq![m1].drop_last().push(
        MessageModel { role: m1.role, content: m1.content.push('\n') + m2.content },
    ) =~= seq![MessageModel { role: m1.role, content: m1.content + seq!['\n'] + m2.content }]);
    assert(seq![m1].push(m2) =~= s);
}

} // verus!
