//! The tier catalog and the chat-completion data model.

use crate::text::{
    all_white, lemma_trimmed_padding, lemma_trimmed_upper, to_chars, trim_range, trimmed, upper,
    upper_equals,
};
use uuid::Uuid;
use vstd::prelude::*;

verus! {

/// A service tier. The set is closed and carries no order.
#[derive(Clone, Copy, Debug, PartialEq, Eq, Structural)]
pub enum Tier {
    Nano,
    Standard,
    Pro,
    Max,
}

impl Tier {
    /// The upper-case name under which the tier is written in model
    /// identifiers and in configuration.
    pub open spec fn name(self) -> Seq<char> {
        match self {
            Tier::Nano => seq!['N', 'A', 'N', 'O'],
            Tier::Standard => seq!['S', 'T', 'A', 'N', 'D', 'A', 'R', 'D'],
            Tier::Pro => seq!['P', 'R', 'O'],
            Tier::Max => seq!['M', 'A', 'X'],
        }
    }

    /// The tier's name with only its first letter in upper case, as worker
    /// replies quote it.
    pub open spec fn label(self) -> Seq<char> {
        match self {
            Tier::Nano => seq!['N', 'a', 'n', 'o'],
            Tier::Standard => seq!['S', 't', 'a', 'n', 'd', 'a', 'r', 'd'],
            Tier::Pro => seq!['P', 'r', 'o'],
            Tier::Max => seq!['M', 'a', 'x'],
        }
    }

    /// The tier that `text` names: trimmed and folded to upper case it must
    /// be exactly one of the four names.
    pub open spec fn spec_parse(text: Seq<char>) -> Option<Tier> {
        let word = upper(trimmed(text));
        if word == Tier::Nano.name() {
            Some(Tier::Nano)
        } else if word == Tier::Standard.name() {
            Some(Tier::Standard)
        } else if word == Tier::Pro.name() {
            Some(Tier::Pro)
        } else if word == Tier::Max.name() {
            Some(Tier::Max)
        } else {
            None
        }
    }

    /// Parses a tier name, ignoring ASCII case and surrounding white space.
    pub fn parse(s: &str) -> (r: Option<Tier>)
        ensures
            r == Tier::spec_parse(s@),
    {
        let chars = to_chars(s);
        let r = Tier::parse_chars(&chars, 0, chars.len());
        assert(chars@.subrange(0, chars.len() as int) =~= s@);
        r
    }

    /// Parses the tier name that `chars[from..to]` holds.
    pub fn parse_chars(chars: &Vec<char>, from: usize, to: usize) -> (r: Option<Tier>)
        requires
            from <= to <= chars.len(),
        ensures
            r == Tier::spec_parse(chars@.subrange(from as int, to as int)),
    {
        let (a, b) = trim_range(chars, from, to);
        proof {
            reveal_strlit("NANO");
            reveal_strlit("STANDARD");
            reveal_strlit("PRO");
            reveal_strlit("MAX");
            assert("NANO"@ =~= Tier::Nano.name());
            assert("STANDARD"@ =~= Tier::Standard.name());
            assert("PRO"@ =~= Tier::Pro.name());
            assert("MAX"@ =~= Tier::Max.name());
        }
        if upper_equals(chars, a, b, "NANO") {
            Some(Tier::Nano)
        } else if upper_equals(chars, a, b, "STANDARD") {
            Some(Tier::Standard)
        } else if upper_equals(chars, a, b, "PRO") {
            Some(Tier::Pro)
        } else if upper_equals(chars, a, b, "MAX") {
            Some(Tier::Max)
        } else {
            None
        }
    }

    /// The tier's label as text.
    pub fn label_str(self) -> (r: &'static str)
        ensures
            r@ == self.label(),
    {
        proof {
            reveal_strlit("Nano");
            reveal_strlit("Standard");
            reveal_strlit("Pro");
            reveal_strlit("Max");
            assert("Nano"@ =~= Tier::Nano.label());
            assert("Standard"@ =~= Tier::Standard.label());
            assert("Pro"@ =~= Tier::Pro.label());
            assert("Max"@ =~= Tier::Max.label());
        }
        match self {
            Tier::Nano => "Nano",
            Tier::Standard => "Standard",
            Tier::Pro => "Pro",
            Tier::Max => "Max",
        }
    }
}

/// One turn of a conversation.
#[derive(Clone, Debug)]
pub struct ChatMessage {
    pub role: String,
    pub content: String,
}

/// What a `ChatMessage` holds.
pub struct ChatMessageView {
    pub role: Seq<char>,
    pub content: Seq<char>,
}

impl View for ChatMessage {
    type V = ChatMessageView;

    open spec fn view(&self) -> ChatMessageView {
        ChatMessageView { role: self.role@, content: self.content@ }
    }
}

/// A chat-completion request. The messages are in conversation order.
#[derive(Clone, Debug)]
pub struct ChatCompletionRequest {
    /// A tier name, alone or after a namespace and a colon.
    pub model: String,
    pub messages: Vec<ChatMessage>,
    pub max_tokens: Option<u32>,
}

/// What a `ChatCompletionRequest` holds.
pub struct ChatCompletionRequestView {
    pub model: Seq<char>,
    pub messages: Seq<ChatMessageView>,
    pub max_tokens: Option<u32>,
}

/// The views of `messages`, in order.
pub open spec fn message_views(messages: Seq<ChatMessage>) -> Seq<ChatMessageView> {
    Seq::new(messages.len(), |i: int| messages[i]@)
}

impl View for ChatCompletionRequest {
    type V = ChatCompletionRequestView;

    open spec fn view(&self) -> ChatCompletionRequestView {
        ChatCompletionRequestView {
            model: self.model@,
            messages: message_views(self.messages@),
            max_tokens: self.max_tokens,
        }
    }
}

/// Token counters of a response.
#[derive(Clone, Copy, Debug, PartialEq, Eq, Structural)]
pub struct Usage {
    pub prompt_tokens: u32,
    pub completion_tokens: u32,
    pub total_tokens: u32,
}

/// One alternative of a response.
#[derive(Clone, Debug)]
pub struct Choice {
    pub index: u32,
    pub message: ChatMessage,
    pub finish_reason: String,
}

/// What a `Choice` holds.
pub struct ChoiceView {
    pub index: u32,
    pub message: ChatMessageView,
    pub finish_reason: Seq<char>,
}

impl View for Choice {
    type V = ChoiceView;

    open spec fn view(&self) -> ChoiceView {
        ChoiceView {
            index: self.index,
            message: self.message@,
            finish_reason: self.finish_reason@,
        }
    }
}

/// A chat-completion response.
#[derive(Clone, Debug)]
pub struct ChatCompletionResponse {
    pub id: String,
    /// Seconds since the Unix epoch.
    pub created: i64,
    pub model: String,
    pub choices: Vec<Choice>,
    pub usage: Usage,
}

/// What a `ChatCompletionResponse` holds.
pub struct ChatCompletionResponseView {
    pub id: Seq<char>,
    pub created: i64,
    pub model: Seq<char>,
    pub choices: Seq<ChoiceView>,
    pub usage: Usage,
}

/// The views of `choices`, in order.
pub open spec fn choice_views(choices: Seq<Choice>) -> Seq<ChoiceView> {
    Seq::new(choices.len(), |i: int| choices[i]@)
}

impl View for ChatCompletionResponse {
    type V = ChatCompletionResponseView;

    open spec fn view(&self) -> ChatCompletionResponseView {
        ChatCompletionResponseView {
            id: self.id@,
            created: self.created,
            model: self.model@,
            choices: choice_views(self.choices@),
            usage: self.usage,
        }
    }
}

/// What every response identifier starts with.
pub open spec fn id_prefix() -> Seq<char> {
    seq!['a', 'u', 'r', 'i', 'a', '_']
}

/// Whether `c` is a decimal digit or one of `a` to `f`.
pub open spec fn is_lower_hex(c: char) -> bool {
    ('0' <= c <= '9') || ('a' <= c <= 'f')
}

/// The shape of a random (version 4) UUID in its hyphenated lower-case
/// form: 36 characters in groups of 8, 4, 4, 4 and 12 hexadecimal digits
/// with `-` between them, the third group starting with the version digit
/// `4` and the fourth with one of `8`, `9`, `a`, `b`.
pub open spec fn is_uuid_text(s: Seq<char>) -> bool {
    &&& s.len() == 36
    &&& forall|i: int|
        0 <= i < 36 ==> if i == 8 || i == 13 || i == 18 || i == 23 {
            #[trigger] s[i] == '-'
        } else {
            is_lower_hex(s[i])
        }
    &&& s[14] == '4'
    &&& (s[19] == '8' || s[19] == '9' || s[19] == 'a' || s[19] == 'b')
}

/// Whether `s` is a response identifier: the prefix, then a UUID text.
pub open spec fn is_response_id(s: Seq<char>) -> bool {
    &&& s.len() == 42
    &&& s.subrange(0, 6) == id_prefix()
    &&& is_uuid_text(s.subrange(6, 42))
}

/// A fresh random UUID as text. Calls `uuid::Uuid::new_v4` and renders the
/// result with the `Display` of `uuid::Uuid`. Trusted: that every outcome has
/// the hyphenated lower-case shape of a version 4 UUID. Which UUID comes back
/// is left open.
#[verifier::external_body]
fn random_uuid_text() -> (r: String)
    ensures
        is_uuid_text(r@),
{
    Uuid::new_v4().to_string()
}

/// The response identifier made of `token`.
pub fn id_from_token(token: &str) -> (id: String)
    ensures
        id@ == id_prefix() + token@,
{
    proof {
        reveal_strlit("auria_");
        assert("auria_"@ =~= id_prefix());
    }
    String::from_str("auria_").concat(token)
}

/// A new response identifier: the prefix, then a fresh random UUID.
pub fn new_id() -> (id: String)
    ensures
        is_response_id(id@),
{
    let token = random_uuid_text();
    let id = id_from_token(token.as_str());
    assert(id@.subrange(0, 6) =~= id_prefix());
    assert(id@.subrange(6, 42) =~= token@);
    id
}

/// Each tier is parsed back from its own name.
pub proof fn lemma_parse_names(tier: Tier)
    ensures
        Tier::spec_parse(tier.name()) == Some(tier),
{
    let name = tier.name();
    assert(crate::text::trims_to(name, 0, name.len() as int));
    crate::text::lemma_trimmed_at(name, 0, name.len() as int);
    assert(name.subrange(0, name.len() as int) =~= name);
    assert(upper(name) =~= name);
    assert(Tier::Nano.name().len() == 4 && Tier::Standard.name().len() == 8);
    assert(Tier::Pro.name()[0] == 'P' && Tier::Max.name()[0] == 'M');
}

/// Parsing ignores ASCII case: texts that agree once folded to upper case
/// name the same tier, or both name none.
pub proof fn lemma_parse_ignores_case(a: Seq<char>, b: Seq<char>)
    requires
        upper(a) == upper(b),
    ensures
        Tier::spec_parse(a) == Tier::spec_parse(b),
{
    lemma_trimmed_upper(a);
    lemma_trimmed_upper(b);
}

/// Parsing ignores surrounding white space: `text` between two runs of white
/// space names what `text` names.
pub proof fn lemma_parse_ignores_padding(pre: Seq<char>, text: Seq<char>, post: Seq<char>)
    requires
        all_white(pre),
        all_white(post),
    ensures
        Tier::spec_parse(pre + text + post) == Tier::spec_parse(text),
{
    lemma_trimmed_padding(pre, text, post);
}

} // verus!
