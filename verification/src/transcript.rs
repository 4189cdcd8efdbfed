//! What the speech service reports, and the transcript that is kept of it.

use vstd::prelude::*;

use crate::text::{chars_of, decimal, decimal_text, trim_end, trimmed_end};
use crate::words::{
    extend_window, extended, grown, law_extension_stays_in_window, law_trimming_keeps_words, words,
    MAX_WORDS,
};

verus! {

/// A piece of recognised or translated speech.
#[derive(Debug)]
pub struct SonioxToken {
    pub text: String,
    pub is_final: Option<bool>,
    pub translation_status: Option<String>,
}

/// A message of the speech service.
#[derive(Debug)]
pub struct SonioxMessage {
    pub tokens: Option<Vec<SonioxToken>>,
    pub error: Option<String>,
    pub error_code: Option<i64>,
}

/// The transcript to show: for the source and for the target language the
/// text that is settled, and the text that may still change.
#[derive(Debug, Clone)]
pub struct TranscriptEvent {
    pub source_stable: String,
    pub source_live: String,
    pub target_stable: String,
    pub target_live: String,
    pub has_target: bool,
}

impl Default for TranscriptEvent {
    fn default() -> (event: Self)
        ensures
            event.source_stable@.len() == 0,
            event.source_live@.len() == 0,
            event.target_stable@.len() == 0,
            event.target_live@.len() == 0,
            !event.has_target,
    {
        TranscriptEvent {
            source_stable: String::new(),
            source_live: String::new(),
            target_stable: String::new(),
            target_live: String::new(),
            has_target: false,
        }
    }
}

/// The language that a token is in.
#[derive(Debug, Clone, Copy, PartialEq, Eq, Structural)]
pub enum Bucket {
    Source,
    Target,
}

/// The language of a token with the given translation status: the target
/// language if the token is a translation, the source language otherwise.
pub open spec fn status_bucket(status: Option<String>) -> Bucket {
    match status {
        Some(status) => if status@ == "translation"@ {
            Bucket::Target
        } else {
            Bucket::Source
        },
        None => Bucket::Source,
    }
}

/// The language of a token with the given translation status.
pub fn bucket_of(status: &Option<String>) -> (bucket: Bucket)
    ensures
        bucket == status_bucket(*status),
{
    match status {
        Some(status) => if *status.as_str() == *"translation" {
            Bucket::Target
        } else {
            Bucket::Source
        },
        None => Bucket::Source,
    }
}

/// The token carries speech: it is neither empty nor markup, which begins with
/// `<`.
pub open spec fn carries_speech(token: SonioxToken) -> bool {
    token.text@.len() > 0 && token.text@[0] != '<'
}

/// Whether the token carries speech.
pub fn is_meaningful(token: &SonioxToken) -> (meaningful: bool)
    ensures
        meaningful == carries_speech(*token),
{
    let chars = chars_of(token.text.as_str());
    chars.len() > 0 && chars[0] != '<'
}

/// Some token of the list carries speech.
pub open spec fn any_speech(tokens: Seq<SonioxToken>) -> bool {
    exists|i: int| 0 <= i < tokens.len() && carries_speech(#[trigger] tokens[i])
}

/// What a token adds to the text of the given language that is settled or, if
/// not `settled`, may still change.
pub open spec fn share(token: SonioxToken, bucket: Bucket, settled: bool) -> Seq<char> {
    if carries_speech(token) && status_bucket(token.translation_status) == bucket && (
    token.is_final == Some(true)) == settled {
        token.text@
    } else {
        Seq::empty()
    }
}

/// The texts of the tokens that carry speech in the given language and are
/// settled or not, one after another.
pub open spec fn gathered(tokens: Seq<SonioxToken>, bucket: Bucket, settled: bool) -> Seq<char>
    decreases tokens.len(),
{
    if tokens.len() == 0 {
        Seq::empty()
    } else {
        gathered(tokens.drop_last(), bucket, settled) + share(tokens.last(), bucket, settled)
    }
}

/// The report of an error of the speech service, with its code if it has one
/// other than zero.
pub open spec fn error_report(code: Option<i64>, error: Seq<char>) -> Seq<char> {
    match code {
        Some(code) => if code != 0 {
            "Soniox ["@ + decimal(code as int) + "]: "@ + error
        } else {
            "Soniox: "@ + error
        },
        None => "Soniox: "@ + error,
    }
}

/// The report of an error of the speech service.
pub fn report_error(code: Option<i64>, error: &str) -> (report: String)
    ensures
        report@ == error_report(code, error@),
{
    let number: i64 = code.unwrap_or(0);
    let mut report = String::new();
    if number != 0 {
        report.append("Soniox [");
        report.append(decimal_text(number).as_str());
        report.append("]: ");
    } else {
        report.append("Soniox: ");
    }
    report.append(error);
    assert(report@ == error_report(code, error@));
    report
}

/// The texts of the tokens of one message, by language and by whether they
/// are settled.
pub struct Gathered {
    pub source_final: String,
    pub source_live: String,
    pub target_final: String,
    pub target_live: String,
    pub any: bool,
}

/// Gathers the texts of the tokens that carry speech.
pub fn gather(tokens: &Vec<SonioxToken>) -> (texts: Gathered)
    ensures
        texts.source_final@ == gathered(tokens@, Bucket::Source, true),
        texts.source_live@ == gathered(tokens@, Bucket::Source, false),
        texts.target_final@ == gathered(tokens@, Bucket::Target, true),
        texts.target_live@ == gathered(tokens@, Bucket::Target, false),
        texts.any == any_speech(tokens@),
{
    let mut source_final = String::new();
    let mut source_live = String::new();
    let mut target_final = String::new();
    let mut target_live = String::new();
    let mut any = false;
    let mut at: usize = 0;
    while at < tokens.len()
        invariant
            at <= tokens.len(),
            source_final@ == gathered(tokens@.take(at as int), Bucket::Source, true),
            source_live@ == gathered(tokens@.take(at as int), Bucket::Source, false),
            target_final@ == gathered(tokens@.take(at as int), Bucket::Target, true),
            target_live@ == gathered(tokens@.take(at as int), Bucket::Target, false),
            any == any_speech(tokens@.take(at as int)),
        decreases tokens.len() - at,
    {
        let token = &tokens[at];
        let ghost head = tokens@.take(at + 1);
        proof {
            assert(head.drop_last() == tokens@.take(at as int));
            assert(head.last() == *token);
            assert(any_speech(head) == (any || carries_speech(*token))) by {
                if any {
                    let i = choose|i: int|
                        0 <= i < at && carries_speech(#[trigger] tokens@.take(at as int)[i]);
                    assert(carries_speech(head[i]));
                }
                if carries_speech(*token) {
                    assert(carries_speech(head[at as int]));
                }
                if any_speech(head) && !carries_speech(*token) {
                    let i = choose|i: int|
                        0 <= i < head.len() && carries_speech(#[trigger] head[i]);
                    assert(carries_speech(tokens@.take(at as int)[i]));
                }
            }
        }
        if is_meaningful(token) {
            any = true;
            let settled = match token.is_final {
                Some(settled) => settled,
                None => false,
            };
            match (bucket_of(&token.translation_status), settled) {
                (Bucket::Source, true) => source_final.append(token.text.as_str()),
                (Bucket::Source, false) => source_live.append(token.text.as_str()),
                (Bucket::Target, true) => target_final.append(token.text.as_str()),
                (Bucket::Target, false) => target_live.append(token.text.as_str()),
            }
        }
        assert(source_final@ == gathered(head, Bucket::Source, true));
        assert(source_live@ == gathered(head, Bucket::Source, false));
        assert(target_final@ == gathered(head, Bucket::Target, true));
        assert(target_live@ == gathered(head, Bucket::Target, false));
        at += 1;
    }
    assert(tokens@.take(tokens@.len() as int) == tokens@);
    Gathered { source_final, source_live, target_final, target_live, any }
}

/// What arrives from the speech service.
#[derive(Debug)]
pub enum Incoming {
    /// A text message: what it says, if it could be read.
    Text(Option<SonioxMessage>),
    /// A message of another kind.
    Other,
    /// The service closed the connection.
    Closed,
    /// The connection failed.
    Failed,
    /// There are no more messages.
    Ended,
}

/// What to do about an arrival.
#[derive(Debug)]
pub enum Reaction {
    /// Nothing: wait for the next message.
    Continue,
    /// Show the transcript, and wait for the next message.
    Show(TranscriptEvent),
    /// Report an error, and stop receiving.
    Report(String),
    /// Stop receiving.
    Stop,
}

/// The settled text of both languages, under a rolling window each.
pub struct Transcript {
    source_stable: String,
    target_stable: String,
    has_target: bool,
}

impl Transcript {
    /// The settled text in the source language.
    pub closed spec fn source(&self) -> Seq<char> {
        self.source_stable@
    }

    /// The settled text in the target language.
    pub closed spec fn target(&self) -> Seq<char> {
        self.target_stable@
    }

    /// Whether speech is translated.
    pub closed spec fn translates(&self) -> bool {
        self.has_target
    }

    /// Both texts keep within the window.
    pub open spec fn wf(&self) -> bool {
        &&& words(self.source()).len() <= MAX_WORDS
        &&& words(self.target()).len() <= MAX_WORDS
    }

    /// Neither text changed, nor whether speech is translated.
    pub open spec fn same_as(&self, other: &Self) -> bool {
        &&& self.source() == other.source()
        &&& self.target() == other.target()
        &&& self.translates() == other.translates()
    }

    /// The transcript after the given tokens: the settled ones were added to
    /// the text of their language.
    pub open spec fn took(&self, before: &Self, tokens: Seq<SonioxToken>) -> bool {
        &&& self.source() == extended(before.source(), gathered(tokens, Bucket::Source, true))
        &&& self.target() == extended(before.target(), gathered(tokens, Bucket::Target, true))
        &&& self.translates() == before.translates()
    }

    /// The event shows this transcript without the white space at the end of
    /// its texts, and beside it the tokens that may still change.
    pub open spec fn shown_by(&self, event: TranscriptEvent, tokens: Seq<SonioxToken>) -> bool {
        &&& event.source_stable@ == trimmed_end(self.source())
        &&& event.source_live@ == gathered(tokens, Bucket::Source, false)
        &&& event.target_stable@ == trimmed_end(self.target())
        &&& event.target_live@ == gathered(tokens, Bucket::Target, false)
        &&& event.has_target == self.translates()
    }

    /// A transcript without text.
    pub fn new(has_target: bool) -> (transcript: Self)
        ensures
            transcript.source().len() == 0,
            transcript.target().len() == 0,
            transcript.translates() == has_target,
            transcript.wf(),
    {
        Transcript { source_stable: String::new(), target_stable: String::new(), has_target }
    }

    /// Takes in the tokens of a message. Without one that carries speech
    /// nothing changes and there is nothing to show.
    pub fn take_tokens(&mut self, tokens: &Vec<SonioxToken>) -> (event: Option<TranscriptEvent>)
        ensures
            old(self).wf() ==> final(self).wf(),
            if any_speech(tokens@) {
                &&& final(self).took(old(self), tokens@)
                &&& event matches Some(event) && final(self).shown_by(event, tokens@)
            } else {
                &&& final(self).same_as(old(self))
                &&& event is None
            },
    {
        let texts = gather(tokens);
        if !texts.any {
            return None;
        }
        proof {
            if self.wf() {
                law_extension_stays_in_window(self.source(), texts.source_final@);
                law_extension_stays_in_window(self.target(), texts.target_final@);
            }
        }
        extend_window(&mut self.source_stable, texts.source_final.as_str());
        extend_window(&mut self.target_stable, texts.target_final.as_str());
        Some(
            TranscriptEvent {
                source_stable: trim_end(self.source_stable.as_str()),
                source_live: texts.source_live,
                target_stable: trim_end(self.target_stable.as_str()),
                target_live: texts.target_live,
                has_target: self.has_target,
            },
        )
    }

    /// Reacts to what arrives from the speech service. A message that reports
    /// an error ends the transcript; one that could not be read is passed
    /// over.
    pub fn receive(&mut self, incoming: Incoming) -> (reaction: Reaction)
        ensures
            old(self).wf() ==> final(self).wf(),
            match incoming {
                Incoming::Text(Some(message)) => match (message.error, message.tokens) {
                    (Some(error), _) => {
                        &&& reaction matches Reaction::Report(report) && report@ == error_report(
                            message.error_code,
                            error@,
                        )
                        &&& final(self).same_as(old(self))
                    },
                    (None, Some(tokens)) => if any_speech(tokens@) {
                        &&& reaction matches Reaction::Show(event) && final(self).shown_by(
                            event,
                            tokens@,
                        )
                        &&& final(self).took(old(self), tokens@)
                    } else {
                        reaction is Continue && final(self).same_as(old(self))
                    },
                    (None, None) => reaction is Continue && final(self).same_as(old(self)),
                },
                Incoming::Text(None) | Incoming::Other => reaction is Continue
                    && final(self).same_as(old(self)),
                Incoming::Closed | Incoming::Failed | Incoming::Ended => reaction is Stop
                    && final(self).same_as(old(self)),
            },
    {
        match incoming {
            Incoming::Text(Some(message)) => {
                if let Some(error) = message.error {
                    return Reaction::Report(report_error(message.error_code, error.as_str()));
                }
                if let Some(tokens) = message.tokens {
                    if let Some(event) = self.take_tokens(&tokens) {
                        return Reaction::Show(event);
                    }
                }
                Reaction::Continue
            },
            Incoming::Text(None) => Reaction::Continue,
            Incoming::Other => Reaction::Continue,
            Incoming::Closed => Reaction::Stop,
            Incoming::Failed => Reaction::Stop,
            Incoming::Ended => Reaction::Stop,
        }
    }
}

/// Tokens gathered in two lists are those gathered in one: where a message
/// ends makes no difference to what is gathered.
pub proof fn law_gathering_in_parts(
    first: Seq<SonioxToken>,
    second: Seq<SonioxToken>,
    bucket: Bucket,
    settled: bool,
)
    ensures
        gathered(first + second, bucket, settled) == gathered(first, bucket, settled) + gathered(
            second,
            bucket,
            settled,
        ),
    decreases second.len(),
{
    if second.len() == 0 {
        assert(first + second == first);
    } else {
        law_gathering_in_parts(first, second.drop_last(), bucket, settled);
        assert((first + second).drop_last() == first + second.drop_last());
    }
}

/// Empty tokens and markup leave no trace: without them the same is gathered.
pub proof fn law_markup_is_dropped(tokens: Seq<SonioxToken>, bucket: Bucket, settled: bool)
    ensures
        gathered(tokens.filter(|token: SonioxToken| carries_speech(token)), bucket, settled)
            == gathered(tokens, bucket, settled),
    decreases tokens.len(),
{
    reveal(Seq::filter);
    let speech = |token: SonioxToken| carries_speech(token);
    if tokens.len() > 0 {
        law_markup_is_dropped(tokens.drop_last(), bucket, settled);
        let kept = tokens.drop_last().filter(speech);
        if carries_speech(tokens.last()) {
            assert(kept.push(tokens.last()).drop_last() == kept);
        }
    }
}

/// Text that may still change is not kept: tokens none of which is final
/// leave both texts of the transcript as they were.
pub proof fn law_live_text_is_not_kept(
    text: Seq<char>,
    tokens: Seq<SonioxToken>,
    bucket: Bucket,
)
    requires
        forall|i: int| 0 <= i < tokens.len() ==> (#[trigger] tokens[i]).is_final != Some(true),
    ensures
        extended(text, gathered(tokens, bucket, true)) == text,
{
    lemma_nothing_settled(tokens, bucket);
}

proof fn lemma_nothing_settled(tokens: Seq<SonioxToken>, bucket: Bucket)
    requires
        forall|i: int| 0 <= i < tokens.len() ==> (#[trigger] tokens[i]).is_final != Some(true),
    ensures
        gathered(tokens, bucket, true).len() == 0,
    decreases tokens.len(),
{
    if tokens.len() > 0 {
        let init = tokens.drop_last();
        assert forall|i: int| 0 <= i < init.len() implies (#[trigger] init[i]).is_final != Some(
            true,
        ) by {
            assert(init[i] == tokens[i]);
        }
        lemma_nothing_settled(init, bucket);
        assert(tokens[tokens.len() - 1].is_final != Some(true));
    }
}

/// Each token that carries speech is shown once: it goes to one language, and
/// there to the settled text or to the text that may still change.
pub proof fn law_speech_goes_to_one_place(token: SonioxToken)
    ensures
        share(token, Bucket::Source, true).len() + share(token, Bucket::Source, false).len()
            + share(token, Bucket::Target, true).len() + share(token, Bucket::Target, false).len()
            == (if carries_speech(token) {
            token.text@.len()
        } else {
            0
        }),
{
}

/// Tokens without speech add nothing: taking them in and leaving the
/// transcript as it was are the same.
pub proof fn law_silence_changes_nothing(
    tokens: Seq<SonioxToken>,
    before: Transcript,
    after: Transcript,
)
    requires
        !any_speech(tokens),
    ensures
        after.took(&before, tokens) <==> after.same_as(&before),
{
    lemma_nothing_gathered(tokens, Bucket::Source, true);
    lemma_nothing_gathered(tokens, Bucket::Target, true);
}

proof fn lemma_nothing_gathered(tokens: Seq<SonioxToken>, bucket: Bucket, settled: bool)
    requires
        !any_speech(tokens),
    ensures
        gathered(tokens, bucket, settled).len() == 0,
    decreases tokens.len(),
{
    if tokens.len() > 0 {
        let init = tokens.drop_last();
        assert(!any_speech(init)) by {
            if any_speech(init) {
                let i = choose|i: int| 0 <= i < init.len() && carries_speech(#[trigger] init[i]);
                assert(carries_speech(tokens[i]));
            }
        }
        lemma_nothing_gathered(init, bucket, settled);
        assert(!carries_speech(tokens[tokens.len() - 1]));
    }
}

/// However long a recording lasts, the settled texts that are shown hold at
/// most `MAX_WORDS` words each, and they are the words that are kept.
pub proof fn law_shown_text_stays_in_window(
    transcript: Transcript,
    event: TranscriptEvent,
    tokens: Seq<SonioxToken>,
)
    requires
        transcript.wf(),
        transcript.shown_by(event, tokens),
    ensures
        words(event.source_stable@) == words(transcript.source()),
        words(event.target_stable@) == words(transcript.target()),
        words(event.source_stable@).len() <= MAX_WORDS,
        words(event.target_stable@).len() <= MAX_WORDS,
{
    law_trimming_keeps_words(transcript.source());
    law_trimming_keeps_words(transcript.target());
}

/// What each message settles in the given language.
pub open spec fn settled_texts(messages: Seq<Seq<SonioxToken>>, bucket: Bucket) -> Seq<Seq<char>> {
    messages.map_values(|tokens: Seq<SonioxToken>| gathered(tokens, bucket, true))
}

/// The transcript is what was settled: through whatever messages it came to be
/// from an empty one, its texts are those that the messages settled, in order,
/// under the rolling window.
pub proof fn law_transcript_is_what_was_settled(
    states: Seq<Transcript>,
    messages: Seq<Seq<SonioxToken>>,
)
    requires
        states.len() == messages.len() + 1,
        states[0].source().len() == 0,
        states[0].target().len() == 0,
        forall|i: int|
            #![trigger messages[i]]
            0 <= i < messages.len() ==> states[i + 1].took(&states[i], messages[i]),
    ensures
        states.last().source() == grown(settled_texts(messages, Bucket::Source)),
        states.last().target() == grown(settled_texts(messages, Bucket::Target)),
    decreases messages.len(),
{
    if messages.len() == 0 {
        assert(states.last().source() == Seq::<char>::empty());
        assert(states.last().target() == Seq::<char>::empty());
    } else {
        let init = messages.drop_last();
        let earlier = states.drop_last();
        assert forall|i: int|
            #![trigger init[i]]
            0 <= i < init.len() implies earlier[i + 1].took(&earlier[i], init[i]) by {
            assert(init[i] == messages[i]);
        }
        law_transcript_is_what_was_settled(earlier, init);
        let last = messages.len() - 1;
        assert(states[last + 1].took(&states[last], messages[last]));
        assert(settled_texts(messages, Bucket::Source).drop_last() == settled_texts(
            init,
            Bucket::Source,
        ));
        assert(settled_texts(messages, Bucket::Target).drop_last() == settled_texts(
            init,
            Bucket::Target,
        ));
    }
}

} // verus!
