//! Tokens and the transcript that is made of them.

use vstd::prelude::*;

use crate::laws::words::{law_extended_text_is_rolled, rolled};
use crate::text::{decimal, is_white_space, trimmed_end};
use crate::transcript::{
    bucket_of, carries_speech, gather, gathered, is_meaningful, law_gathering_in_parts,
    report_error, share, Bucket, Gathered, Incoming, Reaction, SonioxMessage, SonioxToken,
    Transcript, TranscriptEvent,
};

verus! {

/// The status says that a token is a translation.
pub open spec fn is_translation(status: Option<String>) -> bool {
    status matches Some(status) && status@ == "translation"@
}

/// A token belongs to the target language if its status is `translation`, and
/// to the source language with any other status or none.
pub proof fn law_bucket_of(status: &Option<String>, bucket: Bucket)
    requires
        call_ensures(bucket_of, (status,), bucket),
    ensures
        bucket == Bucket::Target <==> is_translation(*status),
        bucket == Bucket::Source <==> !is_translation(*status),
{
}

/// A token carries speech unless it is empty or begins with `<`.
pub proof fn law_is_meaningful(token: &SonioxToken, meaningful: bool)
    requires
        call_ensures(is_meaningful, (token,), meaningful),
    ensures
        meaningful <==> token.text@.len() > 0 && token.text@[0] != '<',
{
}

/// What a token adds to a text, if anything, is its own text: to that of the
/// target language if it is a translation and to that of the source language
/// otherwise, whether it is settled or not; and to the settled text just if it
/// is final.
pub proof fn law_share_goes_by_status(token: SonioxToken, bucket: Bucket, settled: bool)
    ensures
        share(token, bucket, settled).len() > 0 ==> {
            &&& share(token, bucket, settled) == token.text@
            &&& token.text@[0] != '<'
            &&& bucket == Bucket::Target <==> is_translation(token.translation_status)
            &&& settled <==> token.is_final == Some(true)
        },
        token.text@.len() > 0 && token.text@[0] != '<' && (bucket == Bucket::Target
            <==> is_translation(token.translation_status)) && (settled <==> token.is_final == Some(
            true,
        )) ==> share(token, bucket, settled) == token.text@,
{
}

/// From no tokens nothing is gathered.
pub proof fn law_gather_nothing(tokens: &Vec<SonioxToken>, texts: Gathered)
    requires
        call_ensures(gather, (tokens,), texts),
        tokens@.len() == 0,
    ensures
        texts.source_final@.len() == 0,
        texts.source_live@.len() == 0,
        texts.target_final@.len() == 0,
        texts.target_live@.len() == 0,
        !texts.any,
{
}

/// A single token goes to one of the four texts as it stands, and leaves the
/// others empty; one that carries no speech leaves all of them empty.
pub proof fn law_gather_one(tokens: &Vec<SonioxToken>, texts: Gathered)
    requires
        call_ensures(gather, (tokens,), texts),
        tokens@.len() == 1,
    ensures
        ({
            let token = tokens@[0];
            let speech = token.text@.len() > 0 && token.text@[0] != '<';
            let translated = is_translation(token.translation_status);
            let settled = token.is_final == Some(true);
            let nothing = Seq::<char>::empty();
            &&& texts.any == speech
            &&& texts.source_final@ == (if speech && !translated && settled {
                token.text@
            } else {
                nothing
            })
            &&& texts.source_live@ == (if speech && !translated && !settled {
                token.text@
            } else {
                nothing
            })
            &&& texts.target_final@ == (if speech && translated && settled {
                token.text@
            } else {
                nothing
            })
            &&& texts.target_live@ == (if speech && translated && !settled {
                token.text@
            } else {
                nothing
            })
        }),
{
    let token = tokens@[0];
    assert(tokens@.drop_last() == Seq::<SonioxToken>::empty());
    assert forall|bucket: Bucket, settled: bool| #[trigger]
        gathered(tokens@, bucket, settled) == share(token, bucket, settled) by {
        reveal_with_fuel(gathered, 2);
        assert(Seq::<char>::empty() + share(token, bucket, settled) == share(
            token,
            bucket,
            settled,
        ));
    }
    if carries_speech(token) {
        assert(carries_speech(tokens@[0]));
    }
}

/// Tokens are gathered one after another: what is gathered from two lists in a
/// row is what is gathered from the first and then from the second.
pub proof fn law_gather_in_parts(
    all: &Vec<SonioxToken>,
    first: &Vec<SonioxToken>,
    second: &Vec<SonioxToken>,
    texts: Gathered,
    one: Gathered,
    other: Gathered,
)
    requires
        all@ == first@ + second@,
        call_ensures(gather, (all,), texts),
        call_ensures(gather, (first,), one),
        call_ensures(gather, (second,), other),
    ensures
        texts.source_final@ == one.source_final@ + other.source_final@,
        texts.source_live@ == one.source_live@ + other.source_live@,
        texts.target_final@ == one.target_final@ + other.target_final@,
        texts.target_live@ == one.target_live@ + other.target_live@,
        texts.any == (one.any || other.any),
{
    law_gathering_in_parts(first@, second@, Bucket::Source, true);
    law_gathering_in_parts(first@, second@, Bucket::Source, false);
    law_gathering_in_parts(first@, second@, Bucket::Target, true);
    law_gathering_in_parts(first@, second@, Bucket::Target, false);
    if one.any {
        let i = choose|i: int| 0 <= i < first@.len() && carries_speech(#[trigger] first@[i]);
        assert(carries_speech(all@[i]));
    }
    if other.any {
        let i = choose|i: int| 0 <= i < second@.len() && carries_speech(#[trigger] second@[i]);
        assert(carries_speech(all@[i + first@.len()]));
    }
    if texts.any {
        let i = choose|i: int| 0 <= i < all@.len() && carries_speech(#[trigger] all@[i]);
        if i < first@.len() {
            assert(carries_speech(first@[i]));
        } else {
            assert(carries_speech(second@[i - first@.len()]));
        }
    }
}

/// There is something to show just if some token is neither empty nor markup.
pub proof fn law_gather_any(tokens: &Vec<SonioxToken>, texts: Gathered)
    requires
        call_ensures(gather, (tokens,), texts),
    ensures
        texts.any <==> exists|i: int|
            0 <= i < tokens@.len() && (#[trigger] tokens@[i]).text@.len() > 0
                && tokens@[i].text@[0] != '<',
{
    if texts.any {
        let i = choose|i: int| 0 <= i < tokens@.len() && carries_speech(#[trigger] tokens@[i]);
        assert(tokens@[i].text@.len() > 0);
    }
    if exists|i: int|
        0 <= i < tokens@.len() && (#[trigger] tokens@[i]).text@.len() > 0 && tokens@[i].text@[0]
            != '<' {
        let i = choose|i: int|
            0 <= i < tokens@.len() && (#[trigger] tokens@[i]).text@.len() > 0
                && tokens@[i].text@[0] != '<';
        assert(carries_speech(tokens@[i]));
    }
}

/// The report names the service, then the code in brackets unless it is zero or
/// missing, then the error as it stands.
pub proof fn law_report_error(code: Option<i64>, error: &str, report: String)
    requires
        call_ensures(report_error, (code, error), report),
    ensures
        code is None || code == Some(0i64) ==> report@ == "Soniox: "@ + error@,
        code matches Some(number) ==> number != 0 ==> report@ == "Soniox ["@ + decimal(
            number as int,
        ) + "]: "@ + error@,
{
}

/// The event shows the settled texts without the white space at their end.
pub open spec fn shows(shown: Seq<char>, text: Seq<char>) -> bool {
    &&& shown.len() <= text.len()
    &&& shown == text.take(shown.len() as int)
    &&& forall|i: int| shown.len() <= i < text.len() ==> is_white_space(#[trigger] text[i])
    &&& shown.len() > 0 ==> !is_white_space(shown.last())
}

/// What a message with the given gathered texts does to a transcript: settled
/// texts are added to those of their language, and the event shows the result
/// with the texts that may still change beside it.
pub open spec fn takes_in(
    before: Transcript,
    after: Transcript,
    texts: Gathered,
    event: TranscriptEvent,
) -> bool {
    &&& rolled(before.source(), texts.source_final@, after.source())
    &&& rolled(before.target(), texts.target_final@, after.target())
    &&& after.translates() == before.translates()
    &&& shows(event.source_stable@, after.source())
    &&& shows(event.target_stable@, after.target())
    &&& event.source_live@ == texts.source_live@
    &&& event.target_live@ == texts.target_live@
    &&& event.has_target == before.translates()
}

/// Nothing of a transcript changed.
pub open spec fn stays(before: Transcript, after: Transcript) -> bool {
    &&& after.source() == before.source()
    &&& after.target() == before.target()
    &&& after.translates() == before.translates()
}

/// By default nothing is shown.
pub proof fn law_default_event(event: TranscriptEvent)
    requires
        call_ensures(TranscriptEvent::default, (), event),
    ensures
        event.source_stable@.len() == 0,
        event.source_live@.len() == 0,
        event.target_stable@.len() == 0,
        event.target_live@.len() == 0,
        !event.has_target,
{
}

/// A new transcript has no text, and translates if it is told to.
pub proof fn law_new_transcript(has_target: bool, transcript: Transcript)
    requires
        call_ensures(Transcript::new, (has_target,), transcript),
    ensures
        transcript.source() == Seq::<char>::empty(),
        transcript.target() == Seq::<char>::empty(),
        transcript.translates() == has_target,
{
    assert(transcript.source() == Seq::<char>::empty());
    assert(transcript.target() == Seq::<char>::empty());
}

proof fn lemma_shows(text: Seq<char>)
    ensures
        shows(trimmed_end(text), text),
    decreases text.len(),
{
    if text.len() > 0 && is_white_space(text.last()) {
        let init = text.drop_last();
        lemma_shows(init);
        let short = trimmed_end(init);
        assert(init.take(short.len() as int) == text.take(short.len() as int));
        assert forall|i: int| short.len() <= i < text.len() implies is_white_space(
            #[trigger] text[i],
        ) by {
            if i < init.len() {
                assert(init[i] == text[i]);
            }
        }
    } else {
        assert(text.take(text.len() as int) == text);
    }
}

/// A transcript takes in what is gathered from the tokens of a message, if any
/// of them carries speech, and is left alone otherwise.
pub proof fn law_take_tokens(
    transcript: &mut Transcript,
    tokens: &Vec<SonioxToken>,
    texts: Gathered,
    event: Option<TranscriptEvent>,
)
    requires
        call_ensures(gather, (tokens,), texts),
        call_ensures(Transcript::take_tokens, (transcript, tokens), event),
    ensures
        texts.any ==> (event matches Some(event) && takes_in(
            *old(transcript),
            *final(transcript),
            texts,
            event,
        )),
        !texts.any ==> event is None && stays(*old(transcript), *final(transcript)),
{
    law_extended_text_is_rolled(old(transcript).source(), texts.source_final@);
    law_extended_text_is_rolled(old(transcript).target(), texts.target_final@);
    lemma_shows(final(transcript).source());
    lemma_shows(final(transcript).target());
}

/// A message with tokens that carry speech is taken in and shown.
pub proof fn law_receive_speech(
    transcript: &mut Transcript,
    message: SonioxMessage,
    tokens: &Vec<SonioxToken>,
    texts: Gathered,
    reaction: Reaction,
)
    requires
        message.error is None,
        message.tokens == Some(*tokens),
        call_ensures(gather, (tokens,), texts),
        call_ensures(Transcript::receive, (transcript, Incoming::Text(Some(message))), reaction),
    ensures
        texts.any ==> (reaction matches Reaction::Show(event) && takes_in(
            *old(transcript),
            *final(transcript),
            texts,
            event,
        )),
        !texts.any ==> reaction is Continue && stays(*old(transcript), *final(transcript)),
{
    law_extended_text_is_rolled(old(transcript).source(), texts.source_final@);
    law_extended_text_is_rolled(old(transcript).target(), texts.target_final@);
    lemma_shows(final(transcript).source());
    lemma_shows(final(transcript).target());
}

/// A message with an error is reported, whatever else it holds, and the
/// transcript is left alone.
pub proof fn law_receive_error(
    transcript: &mut Transcript,
    message: SonioxMessage,
    error: &str,
    report: String,
    reaction: Reaction,
)
    requires
        message.error matches Some(text) && text@ == error@,
        call_ensures(report_error, (message.error_code, error), report),
        call_ensures(Transcript::receive, (transcript, Incoming::Text(Some(message))), reaction),
    ensures
        reaction matches Reaction::Report(said) && said@ == report@,
        stays(*old(transcript), *final(transcript)),
{
}

/// Anything else that arrives leaves the transcript alone. A connection that is
/// closed, failed or out of messages stops it; a message without tokens, one
/// that cannot be read and one of another kind are passed over.
pub proof fn law_receive_other(
    transcript: &mut Transcript,
    incoming: Incoming,
    reaction: Reaction,
)
    requires
        call_ensures(Transcript::receive, (transcript, incoming), reaction),
        incoming matches Incoming::Text(Some(message)) ==> message.error is None
            && message.tokens is None,
    ensures
        stays(*old(transcript), *final(transcript)),
        reaction is Stop <==> incoming is Closed || incoming is Failed || incoming is Ended,
        reaction is Continue <==> incoming is Text || incoming is Other,
{
}

} // verus!
