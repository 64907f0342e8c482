//! The rule applied to every payload before it is echoed back.

use vstd::prelude::*;
use crate::message::{Message, MessageView};
use crate::text::split_last;

verus! {

/// What the echo rule makes of a message: a text payload is reversed
/// character by character, everything else is left as it is.
pub open spec fn transformed(message: MessageView) -> MessageView {
    match message {
        MessageView::Text(text) => MessageView::Text(text.reverse()),
        other => other,
    }
}

/// Whether a sequence reads the same in both directions.
pub open spec fn is_palindrome<A>(s: Seq<A>) -> bool {
    forall|i: int| 0 <= i < s.len() ==> #[trigger] s[i] == s[s.len() - 1 - i]
}

/// Reverses the character sequence of `text`.
pub fn reverse_text(text: &str) -> (out: String)
    ensures
        out@ == text@.reverse(),
{
    let mut out = String::new();
    let mut rest: &str = text;
    while !rest.is_empty()
        invariant
            rest@.len() <= text@.len(),
            rest@ == text@.take(rest@.len() as int),
            out@ == text@.reverse().take(text@.len() - rest@.len()),
        decreases rest@.len(),
    {
        let (front, last) = split_last(rest);
        out.append(last);
        rest = front;
    }
    out
}

/// Applies the echo rule to a message.
pub fn transform(message: Message) -> (out: Message)
    ensures
        out@ == transformed(message@),
{
    match message {
        Message::Text(text) => Message::Text(reverse_text(text.as_str())),
        Message::Binary(data) => Message::Binary(data),
        Message::Close => Message::Close,
        Message::Control => Message::Control,
    }
}

/// Reversing a sequence twice gives the sequence back.
pub proof fn lemma_reverse_round_trip<A>(s: Seq<A>)
    ensures
        s.reverse().reverse() == s,
{
    assert(s.reverse().reverse() =~= s);
}

/// Applying the echo rule twice gives the message back as it was.
pub proof fn lemma_transform_round_trip(message: MessageView)
    ensures
        transformed(transformed(message)) == message,
{
    if let MessageView::Text(text) = message {
        lemma_reverse_round_trip(text);
    }
}

/// A sequence is left unchanged by reversal exactly when it is a palindrome.
pub proof fn lemma_reverse_fixes_palindromes<A>(s: Seq<A>)
    ensures
        s.reverse() == s <==> is_palindrome(s),
{
    if s.reverse() == s {
        assert forall|i: int| 0 <= i < s.len() implies #[trigger] s[i] == s[s.len() - 1 - i] by {
            assert(s.reverse()[i] == s[s.len() - 1 - i]);
        }
    }
    if is_palindrome(s) {
        assert(s.reverse() =~= s);
    }
}

/// A message is left unchanged by the echo rule exactly when it is a text
/// whose characters form a palindrome, or not a text at all. Those are
/// also the only messages on which applying the rule twice is the same
/// as applying it once.
pub proof fn lemma_transform_fixes_palindromes(message: MessageView)
    ensures
        transformed(message) == message <==> (message matches MessageView::Text(text)
            ==> is_palindrome(text)),
        transformed(transformed(message)) == transformed(message) <==> (message matches MessageView::Text(
            text,
        ) ==> is_palindrome(text)),
{
    lemma_transform_round_trip(message);
    if let MessageView::Text(text) = message {
        lemma_reverse_fixes_palindromes(text);
    }
}

} // verus!
