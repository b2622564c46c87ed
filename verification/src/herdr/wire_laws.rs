//! What is made of each line that herdr sends, and what is sent to it.
use vstd::prelude::*;

use crate::herdr::json::{json_member, json_object, json_quoted, json_value, text_member};
use crate::herdr::wire::{
    acknowledges, answers, hears, is_acknowledgement, line_value, request_text, topic_text,
    unwraps, Fault, Heard,
};
use crate::strings::{lemma_says, says, trim};

verus! {

/// An error in a reply is the answer, whatever else the reply holds: its code
/// and its message are handed on, each from its own member.
pub proof fn law_an_error_in_a_reply_is_the_answer(
    reply: Seq<char>,
    error: Seq<char>,
    r: Result<String, Fault>,
)
    requires
        json_member(reply, "error"@) == Some(error),
        unwraps(reply, r),
    ensures
        r matches Err(Fault::Api(e)) && (text_member(error, "code"@) matches Some(code) ==> e.code@
            == code) && (text_member(error, "message"@) matches Some(message) ==> e.message@
            == message) && (text_member(error, "code"@) is None ==> e.code@ == "unknown"@),
{
}

/// A reply without an error is answered by its result, and one without either is
/// a fault of its own that shows the reply.
pub proof fn law_a_reply_is_answered_by_its_result(reply: Seq<char>, r: Result<String, Fault>)
    requires
        json_member(reply, "error"@) is None,
        unwraps(reply, r),
    ensures
        json_member(reply, "result"@) matches Some(result) ==> (r matches Ok(json) && json@
            == result),
        json_member(reply, "result"@) is None ==> (r matches Err(Fault::Other(s)) && says(
            s@,
            reply,
        )),
{
    if json_member(reply, "result"@) is None {
        let s = match r {
            Err(Fault::Other(s)) => s@,
            _ => Seq::empty(),
        };
        assert(s =~= "herdr replied without a result: "@ + reply + Seq::<char>::empty());
        lemma_says(s, "herdr replied without a result: "@, reply, Seq::empty());
    }
}

/// No line at all is a fault that names the method that was not answered; an
/// answer is what its line holds.
pub proof fn law_silence_is_a_fault(
    method: Seq<char>,
    line: Option<Seq<char>>,
    json: Seq<char>,
    r: Result<String, Fault>,
)
    requires
        answers(method, line, r),
    ensures
        line is None ==> (r matches Err(Fault::Other(s)) && says(s@, "`"@ + method + "`"@)),
        line matches Some(l) ==> (trim(l).len() > 0 && json_value(trim(l)) == Ok::<
            Seq<char>,
            Seq<char>,
        >(json) ==> unwraps(json, r)),
        line matches Some(l) ==> (line_value(l) matches Err(why) ==> (r matches Err(Fault::Other(
            s,
        )) && s@ == why)),
        line matches Some(l) ==> (trim(l).len() > 0 ==> (json_value(trim(l)) matches Err(cause)
            ==> (r matches Err(Fault::Other(s)) && cause.is_suffix_of(s@)))),
{
    if let Some(l) = line {
        if let Err(cause) = json_value(trim(l)) {
            let text = crate::herdr::wire::not_json(trim(l), cause);
            assert(text.subrange(text.len() - cause.len(), text.len() as int) =~= cause);
        }
    }
    if line is None {
        reveal_strlit("herdr closed the connection without replying to `");
        reveal_strlit("herdr closed the connection without replying to ");
        reveal_strlit("`");
        assert("herdr closed the connection without replying to `"@
            =~= "herdr closed the connection without replying to "@ + "`"@);
        let text = "herdr closed the connection without replying to `"@ + method + "`"@;
        let piece = "`"@ + method + "`"@;
        assert(text =~= "herdr closed the connection without replying to "@ + piece + Seq::<
            char,
        >::empty());
        lemma_says(
            text,
            "herdr closed the connection without replying to "@,
            piece,
            Seq::empty(),
        );
    }
}

/// White space around a line does not count, and a line of white space says
/// nothing.
pub proof fn law_white_space_around_a_line_does_not_count(a: Seq<char>, b: Seq<char>)
    requires
        trim(a) == trim(b),
    ensures
        line_value(a) == line_value(b),
        trim(a).len() == 0 ==> line_value(a) == Ok::<Option<Seq<char>>, Seq<char>>(None),
        trim(a).len() > 0 ==> (line_value(a) is Ok <==> json_value(trim(a)) is Ok),
{
}

/// A request is one line: its method under a name of its own, its method, and
/// what it is asked with.
pub proof fn law_a_request_is_one_object_on_a_line(method: Seq<char>, params: Seq<char>)
    ensures
        request_text(method, params).last() == '\n',
        exists|members: Seq<(Seq<char>, Seq<char>)>|
            #![trigger json_object(members)]
            request_text(method, params) == json_object(members).push('\n') && members.len() == 3
                && members.contains(("id"@, json_quoted("sheep:"@ + method))) && members.contains(
                ("method"@, json_quoted(method)),
            ) && members.contains(("params"@, params)),
        exists|members: Seq<(Seq<char>, Seq<char>)>|
            #![trigger json_object(members)]
            topic_text(method) == json_object(members) && members.len() == 1 && members[0] == (
                "type"@,
                json_quoted(method),
            ),
{
    reveal_strlit("\n");
    let members = seq![
        ("id"@, json_quoted("sheep:"@ + method)),
        ("method"@, json_quoted(method)),
        ("params"@, params),
    ];
    assert(members[0] == ("id"@, json_quoted("sheep:"@ + method)));
    assert(members[1] == ("method"@, json_quoted(method)));
    assert(members[2] == ("params"@, params));
    assert(request_text(method, params) =~= json_object(members).push('\n'));
    let one = seq![("type"@, json_quoted(method))];
    assert(topic_text(method) == json_object(one));
}

/// A subscription has begun when herdr says that it has, and only then; a fault
/// is handed on.
pub proof fn law_a_subscription_begins_when_herdr_says_so(
    kind: Option<Seq<char>>,
    r: Result<(), Fault>,
    result: Result<String, Fault>,
    s: Result<(), Fault>,
)
    requires
        is_acknowledgement(kind, r),
        acknowledges(result, s),
    ensures
        r is Ok <==> kind == Some("subscription_started"@),
        s is Ok <==> (result matches Ok(json) && text_member(json@, "type"@) == Some(
            "subscription_started"@,
        )),
        result matches Err(f) ==> s == Err::<(), Fault>(f),
{
}

/// An error ends a subscription, a line with the name of an event is that event
/// with its data, and any other line is passed over.
pub proof fn law_a_line_is_an_event_an_error_or_nothing(
    error: Option<Seq<char>>,
    kind: Option<Seq<char>>,
    data: Option<Seq<char>>,
    r: Heard,
)
    requires
        hears(error, kind, data, r),
    ensures
        error is Some <==> r is Failed,
        error is None && kind is None <==> r is Nothing,
        r matches Heard::Event(e) ==> kind == Some(e.kind@) && (data matches Some(d) ==> e.data@
            == d),
        error matches Some(why) ==> (r matches Heard::Failed(s) && says(s@, why)),
{
    if let Some(why) = error {
        if let Heard::Failed(s) = r {
            assert(s@ =~= "herdr ended the subscription: "@ + why + Seq::<char>::empty());
            lemma_says(s@, "herdr ended the subscription: "@, why, Seq::empty());
        }
    }
}

} // verus!
