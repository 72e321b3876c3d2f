//! What the agent's reply stream becomes: the assistant's text with its
//! reasoning blocks removed.
use vstd::prelude::*;
use crate::json::{
    json_get, json_get_exec, json_get_text, json_get_text_exec, json_parse, spec_json_parse,
    JsonValue,
};
use crate::text::{
    chars_eq_str, chars_of, find, find_exec, lemma_find_from_found, lines, lines_exec, push_all,
    push_str, slice_chars, strip_prefix, strip_prefix_exec, string_of, trim, trim_chars,
};

verus! {

/// The tag that opens a reasoning block.
pub open spec fn think_open() -> Seq<char> {
    seq!['<', 't', 'h', 'i', 'n', 'k', '>']
}

/// The tag that closes a reasoning block.
pub open spec fn think_close() -> Seq<char> {
    seq!['<', '/', 't', 'h', 'i', 'n', 'k', '>']
}

/// `s` with every `<think>`…`</think>` block cut out, scanning left to right;
/// an opening tag without a closing one cuts off the rest of the text.
pub open spec fn think_removed(s: Seq<char>) -> Seq<char>
    decreases s.len(),
{
    match find(s, think_open()) {
        None => s,
        Some(i) => {
            let rest = s.subrange(i + 7, s.len() as int);
            match find(rest, think_close()) {
                None => s.subrange(0, i),
                Some(j) => {
                    proof {
                        lemma_find_from_found(s, think_open(), 0);
                        lemma_find_from_found(rest, think_close(), 0);
                    }
                    s.subrange(0, i) + think_removed(rest.subrange(j + 8, rest.len() as int))
                },
            }
        },
    }
}

/// The displayed answer: `think_removed` and then trimmed.
pub open spec fn spec_strip_think_blocks(s: Seq<char>) -> Seq<char> {
    trim(think_removed(s))
}

/// Removes `<think>`…`</think>` blocks from `text` and trims the result.
pub fn strip_think_blocks(text: &str) -> (r: String)
    ensures
        r@ == spec_strip_think_blocks(text@),
{
    let open: Vec<char> = vec!['<', 't', 'h', 'i', 'n', 'k', '>'];
    let close: Vec<char> = vec!['<', '/', 't', 'h', 'i', 'n', 'k', '>'];
    assert(open@ =~= think_open());
    assert(close@ =~= think_close());
    let mut out: Vec<char> = Vec::new();
    let mut rem = chars_of(text);
    loop
        invariant_except_break
            think_removed(text@) == out@ + think_removed(rem@),
            open@ == think_open(),
            close@ == think_close(),
        ensures
            out@ == think_removed(text@),
        decreases rem.len(),
    {
        match find_exec(rem.as_slice(), open.as_slice()) {
            None => {
                push_all(&mut out, rem.as_slice());
                break ;
            },
            Some(i) => {
                proof {
                    lemma_find_from_found(rem@, think_open(), 0);
                }
                let head = slice_chars(rem.as_slice(), 0, i);
                let ghost out0 = out@;
                push_all(&mut out, head.as_slice());
                let after = slice_chars(rem.as_slice(), i + 7, rem.len());
                match find_exec(after.as_slice(), close.as_slice()) {
                    None => {
                        assert(out@ =~= out0 + think_removed(rem@));
                        break ;
                    },
                    Some(j) => {
                        proof {
                            lemma_find_from_found(after@, think_close(), 0);
                        }
                        let next = slice_chars(after.as_slice(), j + 8, after.len());
                        assert(out@ + think_removed(next@) =~= out0 + (head@ + think_removed(
                            next@,
                        )));
                        rem = next;
                    },
                }
            },
        }
    }
    let t = trim_chars(&out);
    string_of(t.as_slice())
}


// ---------------------------------------------------------------------------
// Reply events
// ---------------------------------------------------------------------------

/// Result<String, String> as values.
pub open spec fn result_view(r: Result<String, String>) -> Result<Seq<char>, Seq<char>> {
    match r {
        Ok(s) => Ok(s@),
        Err(e) => Err(e@),
    }
}

/// The texts of the content items whose `type` is `"text"` and whose `text`
/// is a string, in order.
pub open spec fn item_texts(items: Seq<JsonValue>) -> Seq<Seq<char>>
    decreases items.len(),
{
    if items.len() == 0 {
        seq![]
    } else {
        let rest = item_texts(items.drop_last());
        let item = items.last();
        if json_get_text(item, "type"@) == Some("text"@) && json_get_text(item, "text"@) is Some {
            rest.push(json_get_text(item, "text"@)->0)
        } else {
            rest
        }
    }
}

/// The text pieces of a `Message` event: those of `message.content` when it
/// is an array, none otherwise.
pub open spec fn message_texts(v: JsonValue) -> Seq<Seq<char>> {
    match json_get(v, "message"@) {
        Some(m) => match json_get(m, "content"@) {
            Some(JsonValue::Array(items)) => item_texts(items@),
            _ => seq![],
        },
        None => seq![],
    }
}

/// The role that a `Message` event gives in `message.role`.
pub open spec fn message_role(v: JsonValue) -> Option<Seq<char>> {
    match json_get(v, "message"@) {
        Some(m) => json_get_text(m, "role"@),
        None => None,
    }
}

/// What one event does to the collected text pieces and the last error:
/// an assistant `Message` adds its pieces, an `Error` replaces the last error
/// by its `error` text (by nothing when that is not a string), all else is
/// ignored.
pub open spec fn apply_event(
    st: (Seq<Seq<char>>, Option<Seq<char>>),
    v: JsonValue,
) -> (Seq<Seq<char>>, Option<Seq<char>>) {
    if json_get_text(v, "type"@) == Some("Message"@) {
        if message_role(v) == Some("assistant"@) {
            (st.0 + message_texts(v), st.1)
        } else {
            st
        }
    } else if json_get_text(v, "type"@) == Some("Error"@) {
        (st.0, json_get_text(v, "error"@))
    } else {
        st
    }
}

/// `apply_event` over the events in order, from no pieces and no error.
pub open spec fn fold_events(events: Seq<JsonValue>) -> (Seq<Seq<char>>, Option<Seq<char>>)
    decreases events.len(),
{
    if events.len() == 0 {
        (seq![], None)
    } else {
        apply_event(fold_events(events.drop_last()), events.last())
    }
}

/// The pieces joined with `"\n"` between them.
pub open spec fn join_lines(pieces: Seq<Seq<char>>) -> Seq<char>
    decreases pieces.len(),
{
    if pieces.len() == 0 {
        seq![]
    } else if pieces.len() == 1 {
        pieces[0]
    } else {
        join_lines(pieces.drop_last()) + seq!['\n'] + pieces.last()
    }
}

/// The answer that a stream of events gives: the joined pieces without
/// reasoning blocks when there are pieces; else the last error; else empty.
pub open spec fn reply_outcome(events: Seq<JsonValue>) -> Result<Seq<char>, Seq<char>> {
    let st = fold_events(events);
    if st.0.len() > 0 {
        Ok(spec_strip_think_blocks(join_lines(st.0)))
    } else if st.1 is Some {
        Err(st.1->0)
    } else {
        Ok(seq![])
    }
}

/// Whether the optional string spells `lit`.
fn text_is(s: Option<&String>, lit: &str) -> (b: bool)
    ensures
        b == (s matches Some(t) && t@ == lit@),
{
    match s {
        Some(t) => {
            let c = chars_of(t.as_str());
            chars_eq_str(c.as_slice(), lit)
        },
        None => false,
    }
}

/// Appends the text pieces of `items` to `pieces`.
fn push_item_texts(pieces: &mut Vec<String>, items: &Vec<JsonValue>)
    ensures
        final(pieces)@.len() == old(pieces)@.len() + item_texts(items@).len(),
        forall|k: int| 0 <= k < old(pieces)@.len() ==> #[trigger] final(pieces)@[k] == old(pieces)@[k],
        forall|k: int|
            0 <= k < item_texts(items@).len() ==> #[trigger] final(pieces)@[old(pieces)@.len() + k]@
                == item_texts(items@)[k],
{
    let mut i: usize = 0;
    while i < items.len()
        invariant
            0 <= i <= items.len(),
            pieces@.len() == old(pieces)@.len() + item_texts(items@.take(i as int)).len(),
            forall|k: int| 0 <= k < old(pieces)@.len() ==> #[trigger] pieces@[k] == old(pieces)@[k],
            forall|k: int|
                0 <= k < item_texts(items@.take(i as int)).len() ==> #[trigger] pieces@[old(
                    pieces,
                )@.len() + k]@ == item_texts(items@.take(i as int))[k],
        decreases items.len() - i,
    {
        let item = &items[i];
        assert(items@.take(i + 1).drop_last() =~= items@.take(i as int));
        assert(items@.take(i + 1).last() == items@[i as int]);
        let ty = json_get_text_exec(item, "type");
        let tx = json_get_text_exec(item, "text");
        if text_is(ty, "text") {
            match tx {
                Some(t) => {
                    pieces.push(t.clone());
                },
                None => {},
            }
        }
        i = i + 1;
    }
    assert(items@.take(items.len() as int) =~= items@);
}

/// Folds one event into the collected pieces and last error.
fn apply_event_exec(pieces: &mut Vec<String>, last_error: &mut Option<String>, v: &JsonValue)
    ensures
        ({
            let before = (old(pieces)@.map_values(|p: String| p@), match *old(last_error) {
                Some(e) => Some(e@),
                None => None,
            });
            let after = apply_event(before, *v);
            &&& final(pieces)@.map_values(|p: String| p@) == after.0
            &&& match *final(last_error) {
                Some(e) => after.1 == Some(e@),
                None => after.1 is None,
            }
        }),
{
    let ty = json_get_text_exec(v, "type");
    if text_is(ty, "Message") {
        let role = match json_get_exec(v, "message") {
            Some(m) => json_get_text_exec(m, "role"),
            None => None,
        };
        if text_is(role, "assistant") {
            let content = match json_get_exec(v, "message") {
                Some(m) => json_get_exec(m, "content"),
                None => None,
            };
            match content {
                Some(JsonValue::Array(items)) => {
                    let ghost p0 = pieces@;
                    push_item_texts(pieces, items);
                    assert(message_texts(*v) == item_texts(items@));
                    let ghost lhs = pieces@.map_values(|p: String| p@);
                    let ghost rhs = p0.map_values(|p: String| p@) + item_texts(items@);
                    assert(lhs.len() == rhs.len());
                    assert forall|k: int| 0 <= k < lhs.len() implies lhs[k] == rhs[k] by {
                        if k < p0.len() {
                            assert(pieces@[k] == p0[k]);
                        } else {
                            assert(pieces@[p0.len() + (k - p0.len())]@ == item_texts(items@)[k
                                - p0.len()]);
                        }
                    }
                    assert(pieces@.map_values(|p: String| p@) =~= p0.map_values(|p: String| p@)
                        + message_texts(*v));
                },
                _ => {
                    assert(message_texts(*v) =~= Seq::<Seq<char>>::empty());
                    assert(pieces@.map_values(|p: String| p@) =~= pieces@.map_values(
                        |p: String| p@,
                    ) + message_texts(*v));
                },
            }
        }
    } else if text_is(ty, "Error") {
        *last_error = match json_get_text_exec(v, "error") {
            Some(e) => Some(e.clone()),
            None => None,
        };
    }
}

/// The answer that the parsed events give (see `reply_outcome`).
pub fn goose_reply_from_events(events: &Vec<JsonValue>) -> (r: Result<String, String>)
    ensures
        result_view(r) == reply_outcome(events@),
{
    let mut pieces: Vec<String> = Vec::new();
    let mut last_error: Option<String> = None;
    let mut i: usize = 0;
    while i < events.len()
        invariant
            0 <= i <= events.len(),
            ({
                let st = fold_events(events@.take(i as int));
                &&& pieces@.map_values(|p: String| p@) == st.0
                &&& match last_error {
                    Some(e) => st.1 == Some(e@),
                    None => st.1 is None,
                }
            }),
        decreases events.len() - i,
    {
        assert(events@.take(i + 1).drop_last() =~= events@.take(i as int));
        apply_event_exec(&mut pieces, &mut last_error, &events[i]);
        i = i + 1;
    }
    assert(events@.take(events.len() as int) =~= events@);
    if pieces.len() > 0 {
        let joined = join_pieces(&pieces);
        Ok(strip_think_blocks(joined.as_str()))
    } else {
        match last_error {
            Some(e) => Err(e),
            None => Ok(String::new()),
        }
    }
}

/// The pieces joined with newlines.
fn join_pieces(pieces: &Vec<String>) -> (r: String)
    ensures
        r@ == join_lines(pieces@.map_values(|p: String| p@)),
{
    let ghost views = pieces@.map_values(|p: String| p@);
    let mut out: Vec<char> = Vec::new();
    let mut i: usize = 0;
    while i < pieces.len()
        invariant
            0 <= i <= pieces.len(),
            views == pieces@.map_values(|p: String| p@),
            out@ == join_lines(views.take(i as int)),
        decreases pieces.len() - i,
    {
        let ghost prev = out@;
        if i > 0 {
            out.push('\n');
        }
        push_str(&mut out, pieces[i].as_str());
        proof {
            let t = views.take(i + 1);
            assert(t.drop_last() =~= views.take(i as int));
            if i == 0 {
                assert(out@ =~= t[0]);
            } else {
                assert(out@ =~= join_lines(t.drop_last()) + seq!['\n'] + t.last());
            }
        }
        i = i + 1;
    }
    assert(views.take(pieces.len() as int) =~= views);
    string_of(out.as_slice())
}


// ---------------------------------------------------------------------------
// The event stream
// ---------------------------------------------------------------------------

/// The prefix of a server-sent-events data line.
pub open spec fn data_prefix() -> Seq<char> {
    seq!['d', 'a', 't', 'a', ':', ' ']
}

/// The payloads of the lines that start with `"data: "`, in order.
pub open spec fn data_payloads(ls: Seq<Seq<char>>) -> Seq<Seq<char>>
    decreases ls.len(),
{
    if ls.len() == 0 {
        seq![]
    } else {
        let rest = data_payloads(ls.drop_last());
        match strip_prefix(ls.last(), data_prefix()) {
            Some(p) => rest.push(p),
            None => rest,
        }
    }
}

/// The data payloads of an event stream.
pub open spec fn sse_payloads(text: Seq<char>) -> Seq<Seq<char>> {
    data_payloads(lines(text))
}

/// Each payload parsed, or the error of the first one that does not parse.
pub open spec fn parse_all(ps: Seq<Seq<char>>) -> Result<Seq<JsonValue>, Seq<char>>
    decreases ps.len(),
{
    if ps.len() == 0 {
        Ok(seq![])
    } else {
        match parse_all(ps.drop_last()) {
            Err(e) => Err(e),
            Ok(vs) => match spec_json_parse(ps.last()) {
                Ok(v) => Ok(vs.push(v)),
                Err(e) => Err(e),
            },
        }
    }
}

/// What the whole reply stream gives: the error of the first payload that is
/// not JSON, after `"Failed to parse Goose event: "`; else `reply_outcome`.
pub open spec fn spec_parse_sse(text: Seq<char>) -> Result<Seq<char>, Seq<char>> {
    match parse_all(sse_payloads(text)) {
        Err(e) => Err("Failed to parse Goose event: "@ + e),
        Ok(vs) => reply_outcome(vs),
    }
}

/// The data payloads of the event stream `text`.
pub fn sse_data_payloads(text: &str) -> (r: Vec<Vec<char>>)
    ensures
        r@.len() == sse_payloads(text@).len(),
        forall|k: int| 0 <= k < r@.len() ==> #[trigger] r@[k]@ == sse_payloads(text@)[k],
{
    let chars = chars_of(text);
    let ls = lines_exec(chars.as_slice());
    let prefix: Vec<char> = vec!['d', 'a', 't', 'a', ':', ' '];
    assert(prefix@ =~= data_prefix());
    let ghost lv = lines(text@);
    let mut out: Vec<Vec<char>> = Vec::new();
    let mut i: usize = 0;
    while i < ls.len()
        invariant
            0 <= i <= ls.len(),
            ls@.len() == lv.len(),
            forall|k: int| 0 <= k < ls@.len() ==> #[trigger] ls@[k]@ == lv[k],
            prefix@ == data_prefix(),
            out@.len() == data_payloads(lv.take(i as int)).len(),
            forall|k: int|
                0 <= k < out@.len() ==> #[trigger] out@[k]@ == data_payloads(lv.take(i as int))[k],
        decreases ls.len() - i,
    {
        assert(lv.take(i + 1).drop_last() =~= lv.take(i as int));
        assert(lv.take(i + 1).last() == ls@[i as int]@);
        match strip_prefix_exec(ls[i].as_slice(), prefix.as_slice()) {
            Some(p) => {
                out.push(p);
            },
            None => {},
        }
        i = i + 1;
    }
    assert(lv.take(ls.len() as int) =~= lv);
    out
}

/// Reads the agent's event stream: the text of the assistant's messages,
/// joined by newlines, without reasoning blocks and trimmed; or the last
/// error event's text when there is no message text; or an error for the
/// first data line that is not JSON.
pub fn parse_goose_sse_response(event_text: &str) -> (r: Result<String, String>)
    ensures
        result_view(r) == spec_parse_sse(event_text@),
{
    let payloads = sse_data_payloads(event_text);
    let ghost ps = sse_payloads(event_text@);
    let mut events: Vec<JsonValue> = Vec::new();
    let mut i: usize = 0;
    while i < payloads.len()
        invariant
            0 <= i <= payloads.len(),
            ps == sse_payloads(event_text@),
            payloads@.len() == ps.len(),
            forall|k: int| 0 <= k < payloads@.len() ==> #[trigger] payloads@[k]@ == ps[k],
            parse_all(ps.take(i as int)) == Ok::<Seq<JsonValue>, Seq<char>>(events@),
        decreases payloads.len() - i,
    {
        assert(ps.take(i + 1).drop_last() =~= ps.take(i as int));
        assert(ps.take(i + 1).last() == payloads@[i as int]@);
        let data = string_of(payloads[i].as_slice());
        match json_parse(data.as_str()) {
            Ok(v) => {
                events.push(v);
            },
            Err(e) => {
                proof {
                    assert(data@ == ps.take(i + 1).last());
                    assert(parse_all(ps.take(i + 1)) == Err::<Seq<JsonValue>, Seq<char>>(e@));
                    lemma_parse_all_err_extends(ps, i as int + 1);
                }
                let mut msg: Vec<char> = Vec::new();
                push_str(&mut msg, "Failed to parse Goose event: ");
                push_str(&mut msg, e.as_str());
                assert(msg@ =~= "Failed to parse Goose event: "@ + e@);
                return Err(string_of(msg.as_slice()));
            },
        }
        i = i + 1;
    }
    assert(ps.take(payloads.len() as int) =~= ps);
    goose_reply_from_events(&events)
}

/// Once a prefix of the payloads holds an error, the whole list gives it.
proof fn lemma_parse_all_err_extends(ps: Seq<Seq<char>>, i: int)
    requires
        0 <= i <= ps.len(),
        parse_all(ps.take(i)) is Err,
    ensures
        parse_all(ps) == parse_all(ps.take(i)),
    decreases ps.len() - i,
{
    if i == ps.len() {
        assert(ps.take(i) =~= ps);
    } else {
        assert(ps.take(i + 1).drop_last() =~= ps.take(i));
        lemma_parse_all_err_extends(ps, i + 1);
    }
}


// ---------------------------------------------------------------------------
// Laws of the displayed answer
// ---------------------------------------------------------------------------

proof fn lemma_trim_start_solid(s: Seq<char>)
    ensures
        crate::text::trim_start(s).len() > 0 ==> !crate::text::is_white(crate::text::trim_start(s)[0]),
    decreases s.len(),
{
    if s.len() > 0 && crate::text::is_white(s[0]) {
        lemma_trim_start_solid(s.drop_first());
    }
}

proof fn lemma_trim_end_solid(s: Seq<char>)
    ensures
        crate::text::trim_end(s).len() > 0 ==> !crate::text::is_white(crate::text::trim_end(s).last()),
        crate::text::trim_end(s).len() > 0 ==> crate::text::trim_end(s)[0] == s[0],
    decreases s.len(),
{
    if s.len() > 0 && crate::text::is_white(s.last()) {
        lemma_trim_end_solid(s.drop_last());
        if crate::text::trim_end(s.drop_last()).len() > 0 {
            assert(s.drop_last()[0] == s[0]);
        }
    }
}

/// A trimmed text neither starts nor ends with whitespace.
pub proof fn law_trim_has_solid_ends(s: Seq<char>)
    ensures
        trim(s).len() > 0 ==> !crate::text::is_white(trim(s)[0]) && !crate::text::is_white(
            trim(s).last(),
        ),
{
    lemma_trim_start_solid(s);
    lemma_trim_end_solid(crate::text::trim_start(s));
}

/// The displayed answer neither starts nor ends with whitespace.
pub proof fn law_answer_has_solid_ends(text: Seq<char>)
    ensures
        spec_strip_think_blocks(text).len() > 0 ==> !crate::text::is_white(
            spec_strip_think_blocks(text)[0],
        ) && !crate::text::is_white(spec_strip_think_blocks(text).last()),
{
    law_trim_has_solid_ends(think_removed(text));
}

/// A text without a `<think>` tag is only trimmed.
pub proof fn law_no_think_tag_only_trims(text: Seq<char>)
    requires
        find(text, think_open()) is None,
    ensures
        spec_strip_think_blocks(text) == trim(text),
{
}


proof fn lemma_trim_start_shorter(s: Seq<char>)
    ensures
        crate::text::trim_start(s).len() <= s.len(),
    decreases s.len(),
{
    if s.len() > 0 && crate::text::is_white(s[0]) {
        lemma_trim_start_shorter(s.drop_first());
    }
}

proof fn lemma_trim_end_shorter(s: Seq<char>)
    ensures
        crate::text::trim_end(s).len() <= s.len(),
    decreases s.len(),
{
    if s.len() > 0 && crate::text::is_white(s.last()) {
        lemma_trim_end_shorter(s.drop_last());
    }
}

proof fn lemma_think_removed_shorter(s: Seq<char>)
    ensures
        think_removed(s).len() <= s.len(),
    decreases s.len(),
{
    match find(s, think_open()) {
        None => {},
        Some(i) => {
            lemma_find_from_found(s, think_open(), 0);
            let rest = s.subrange(i + 7, s.len() as int);
            match find(rest, think_close()) {
                None => {},
                Some(j) => {
                    lemma_find_from_found(rest, think_close(), 0);
                    lemma_think_removed_shorter(rest.subrange(j + 8, rest.len() as int));
                },
            }
        },
    }
}

/// Trimming a trimmed text changes nothing.
pub proof fn law_trim_idempotent(s: Seq<char>)
    ensures
        trim(trim(s)) == trim(s),
{
    let t = trim(s);
    law_trim_has_solid_ends(s);
    if t.len() == 0 {
        crate::text::lemma_trim_start_at(t, 0);
        assert(crate::text::trim_start(t) =~= t);
        crate::text::lemma_trim_end_at(t, 0);
        assert(crate::text::trim_end(t) =~= t);
    } else {
        crate::text::lemma_trim_start_at(t, 0);
        assert(t.subrange(0, t.len() as int) =~= t);
        crate::text::lemma_trim_end_at(t, t.len() as int);
    }
}

/// The displayed answer is already trimmed and is no longer than the text
/// it came from.
pub proof fn law_answer_trimmed_and_no_longer(text: Seq<char>)
    ensures
        trim(spec_strip_think_blocks(text)) == spec_strip_think_blocks(text),
        spec_strip_think_blocks(text).len() <= text.len(),
{
    law_trim_idempotent(think_removed(text));
    lemma_think_removed_shorter(text);
    lemma_trim_start_shorter(think_removed(text));
    lemma_trim_end_shorter(crate::text::trim_start(think_removed(text)));
}

} // verus!
