//! The callback adapter: one entry point per foreign callback slot.
//!
//! During a parse the foreign parser invokes its callbacks strictly
//! sequentially, in document order, handing each one raw payloads. The
//! boundary outside this crate copies those payloads into owned values and
//! calls the functions below, which decode them into events and push them
//! onto the bridge channel — exactly one push per invocation, except that a
//! structured error whose severity code is unrecognized is dropped rather
//! than guessed into a severity. Because every invocation appends at the
//! channel's producer end, the consumer observes the callback sequence
//! itself: nothing is reordered, dropped or duplicated by the bridge.

use vstd::prelude::*;

use crate::channel::EventChannel;
use crate::error::{classified, xmlError, ErrorData};
use crate::{
    atts_model, events_of, nested_ok, res_model, spec_well_formed, stream_model, Attributes,
    EventModel, ParseEvent, ParseResult, ResultModel,
};

verus! {

/// One callback invocation, with its payloads already copied into owned
/// values: element and attribute text as owned strings, an attribute buffer
/// as its flat name/value slots, a structured error as its owned record.
#[derive(Clone, Debug, PartialEq, Eq)]
pub enum Callback {
    StartDocument,
    EndDocument,
    StartElement(String, Vec<Option<String>>),
    EndElement(String),
    Characters(String),
    IgnorableWhitespace(String),
    Comment(String),
    CdataBlock(String),
    StructuredError(xmlError),
}

/// What one callback invocation contributes to the stream: one decoded
/// result for every invocation, except a structured error with an
/// unrecognized severity code, which contributes nothing.
pub open spec fn decode(call: Callback) -> Option<ResultModel> {
    match call {
        Callback::StartDocument => Some(Ok(EventModel::StartDocument)),
        Callback::EndDocument => Some(Ok(EventModel::EndDocument)),
        Callback::StartElement(name, entries) => Some(
            Ok(EventModel::StartElement(name@, atts_model(entries@))),
        ),
        Callback::EndElement(name) => Some(Ok(EventModel::EndElement(name@))),
        Callback::Characters(text) => Some(Ok(EventModel::Characters(text@))),
        Callback::IgnorableWhitespace(text) => Some(
            Ok(EventModel::IgnorableWhitespace(text@)),
        ),
        Callback::Comment(text) => Some(Ok(EventModel::Comment(text@))),
        Callback::CdataBlock(text) => Some(Ok(EventModel::CdataBlock(text@))),
        Callback::StructuredError(rec) => match classified(rec) {
            Some(err) => Some(Err(err@)),
            None => None,
        },
    }
}

/// A contribution as a (possibly empty) stream segment.
pub open spec fn opt_seq(o: Option<ResultModel>) -> Seq<ResultModel> {
    match o {
        Some(m) => seq![m],
        None => Seq::empty(),
    }
}

/// The stream that a sequence of callback invocations produces: each
/// invocation's contribution, in invocation order.
pub open spec fn decode_stream(calls: Seq<Callback>) -> Seq<ResultModel>
    decreases calls.len(),
{
    if calls.len() == 0 {
        Seq::empty()
    } else {
        opt_seq(decode(calls[0])) + decode_stream(calls.drop_first())
    }
}

/// Pushing one result onto a stream extends its content by that result's
/// content.
proof fn lemma_stream_model_push(s: Seq<ParseResult>, r: ParseResult)
    ensures
        stream_model(s.push(r)) == stream_model(s).push(res_model(r)),
{
    assert(stream_model(s.push(r)) =~= stream_model(s).push(res_model(r)));
}

/// The document has begun: forwards `StartDocument`.
pub fn start_document(ctx: &mut EventChannel)
    ensures
        stream_model(final(ctx)@) == stream_model(old(ctx)@).push(Ok(EventModel::StartDocument)),
{
    let ev: ParseResult = Ok(ParseEvent::StartDocument);
    proof {
        lemma_stream_model_push(ctx@, ev);
    }
    ctx.send(ev);
}

/// The document has been fully processed: forwards `EndDocument`.
pub fn end_document(ctx: &mut EventChannel)
    ensures
        stream_model(final(ctx)@) == stream_model(old(ctx)@).push(Ok(EventModel::EndDocument)),
{
    let ev: ParseResult = Ok(ParseEvent::EndDocument);
    proof {
        lemma_stream_model_push(ctx@, ev);
    }
    ctx.send(ev);
}

/// An opening tag was seen: decodes the flat attribute buffer into an owned
/// attribute list and forwards `StartElement`. The element name is the
/// literal form the foreign parser reported; no namespace prefix is
/// resolved or stripped.
pub fn start_element(ctx: &mut EventChannel, name: String, atts: &Vec<Option<String>>)
    ensures
        stream_model(final(ctx)@) == stream_model(old(ctx)@).push(
            Ok(EventModel::StartElement(name@, atts_model(atts@))),
        ),
{
    let decoded = Attributes::from_buf(atts);
    let ev: ParseResult = Ok(ParseEvent::StartElement(name, decoded));
    proof {
        lemma_stream_model_push(ctx@, ev);
    }
    ctx.send(ev);
}

/// A closing tag was seen: forwards `EndElement` with the literal name.
pub fn end_element(ctx: &mut EventChannel, name: String)
    ensures
        stream_model(final(ctx)@) == stream_model(old(ctx)@).push(
            Ok(EventModel::EndElement(name@)),
        ),
{
    let ev: ParseResult = Ok(ParseEvent::EndElement(name));
    proof {
        lemma_stream_model_push(ctx@, ev);
    }
    ctx.send(ev);
}

/// A run of character data was seen: forwards `Characters`.
pub fn characters(ctx: &mut EventChannel, text: String)
    ensures
        stream_model(final(ctx)@) == stream_model(old(ctx)@).push(
            Ok(EventModel::Characters(text@)),
        ),
{
    let ev: ParseResult = Ok(ParseEvent::Characters(text));
    proof {
        lemma_stream_model_push(ctx@, ev);
    }
    ctx.send(ev);
}

/// A run of ignorable whitespace was seen: forwards `IgnorableWhitespace`.
/// Invoked only when the handler registers the dedicated slot.
pub fn ignorable_whitespace(ctx: &mut EventChannel, text: String)
    ensures
        stream_model(final(ctx)@) == stream_model(old(ctx)@).push(
            Ok(EventModel::IgnorableWhitespace(text@)),
        ),
{
    let ev: ParseResult = Ok(ParseEvent::IgnorableWhitespace(text));
    proof {
        lemma_stream_model_push(ctx@, ev);
    }
    ctx.send(ev);
}

/// A comment was seen: forwards `Comment`.
pub fn comment(ctx: &mut EventChannel, text: String)
    ensures
        stream_model(final(ctx)@) == stream_model(old(ctx)@).push(
            Ok(EventModel::Comment(text@)),
        ),
{
    let ev: ParseResult = Ok(ParseEvent::Comment(text));
    proof {
        lemma_stream_model_push(ctx@, ev);
    }
    ctx.send(ev);
}

/// A `CDATA` block was seen: forwards `CdataBlock`.
pub fn cdata_block(ctx: &mut EventChannel, text: String)
    ensures
        stream_model(final(ctx)@) == stream_model(old(ctx)@).push(
            Ok(EventModel::CdataBlock(text@)),
        ),
{
    let ev: ParseResult = Ok(ParseEvent::CdataBlock(text));
    proof {
        lemma_stream_model_push(ctx@, ev);
    }
    ctx.send(ev);
}

/// A structured error was reported: classifies it and forwards the typed
/// error, or drops the report when its severity code is unrecognized — an
/// unclassifiable report is never passed on under a guessed severity.
pub fn serror(ctx: &mut EventChannel, rec: &xmlError)
    ensures
        stream_model(final(ctx)@) == (match classified(*rec) {
            Some(err) => stream_model(old(ctx)@).push(Err(err@)),
            None => stream_model(old(ctx)@),
        }),
{
    match ErrorData::from_ptr(rec) {
        Some(err) => {
            let res: ParseResult = Err(err);
            proof {
                lemma_stream_model_push(ctx@, res);
            }
            ctx.send(res);
        },
        None => {},
    }
}

/// Forwards one callback invocation: the channel grows by exactly that
/// invocation's contribution.
pub fn deliver(ctx: &mut EventChannel, call: Callback)
    ensures
        stream_model(final(ctx)@) == stream_model(old(ctx)@) + opt_seq(decode(call)),
{
    let ghost contribution = opt_seq(decode(call));
    match call {
        Callback::StartDocument => start_document(ctx),
        Callback::EndDocument => end_document(ctx),
        Callback::StartElement(name, entries) => start_element(ctx, name, &entries),
        Callback::EndElement(name) => end_element(ctx, name),
        Callback::Characters(text) => characters(ctx, text),
        Callback::IgnorableWhitespace(text) => ignorable_whitespace(ctx, text),
        Callback::Comment(text) => comment(ctx, text),
        Callback::CdataBlock(text) => cdata_block(ctx, text),
        Callback::StructuredError(rec) => serror(ctx, &rec),
    }
    proof {
        assert(stream_model(ctx@) =~= stream_model(old(ctx)@) + contribution);
    }
}

/// Replays a whole sequence of callback invocations into a fresh channel:
/// the synchronous parse shape, in which the channel holds the complete
/// stream — each invocation's contribution, in invocation order, nothing
/// else — by the time the consumer reads.
pub fn replay(calls: Vec<Callback>) -> (r: EventChannel)
    ensures
        stream_model(r@) == decode_stream(calls@),
{
    let mut remaining = calls;
    let mut ctx = EventChannel::new();
    proof {
        assert(stream_model(ctx@) =~= Seq::empty());
    }
    loop
        invariant
            stream_model(ctx@) + decode_stream(remaining@) == decode_stream(calls@),
        ensures
            stream_model(ctx@) == decode_stream(calls@),
        decreases remaining@.len(),
    {
        if remaining.len() == 0 {
            proof {
                assert(stream_model(ctx@) + decode_stream(remaining@) =~= stream_model(ctx@));
            }
            break;
        }
        let ghost pre = remaining@;
        let call = remaining.remove(0);
        proof {
            assert(remaining@ =~= pre.drop_first());
        }
        deliver(&mut ctx, call);
        proof {
            assert(stream_model(ctx@) + decode_stream(remaining@) =~= decode_stream(calls@));
        }
    }
    ctx
}

/// Appending one more callback invocation appends exactly its contribution
/// to the stream: the bridge extends the stream at the end, in invocation
/// order, and never revises what came before.
pub proof fn lemma_decode_stream_snoc(calls: Seq<Callback>, call: Callback)
    ensures
        decode_stream(calls.push(call)) == decode_stream(calls) + opt_seq(decode(call)),
    decreases calls.len(),
{
    if calls.len() == 0 {
        assert(calls.push(call)[0] == call);
        assert(calls.push(call).drop_first() =~= Seq::<Callback>::empty());
        assert(decode_stream(Seq::<Callback>::empty()) == Seq::<ResultModel>::empty());
        assert(decode_stream(calls.push(call)) == opt_seq(decode(call)) + Seq::<
            ResultModel,
        >::empty());
        assert(opt_seq(decode(call)) + Seq::<ResultModel>::empty() =~= opt_seq(decode(call)));
        assert(decode_stream(calls) + opt_seq(decode(call)) =~= opt_seq(decode(call)));
    } else {
        let tail = calls.drop_first();
        assert(calls.push(call)[0] == calls[0]);
        assert(calls.push(call).drop_first() =~= tail.push(call));
        assert(decode_stream(calls.push(call)) == opt_seq(decode(calls[0])) + decode_stream(
            tail.push(call),
        ));
        lemma_decode_stream_snoc(tail, call);
        assert(decode_stream(calls) == opt_seq(decode(calls[0])) + decode_stream(tail));
        assert(opt_seq(decode(calls[0])) + (decode_stream(tail) + opt_seq(decode(call))) =~= (
        opt_seq(decode(calls[0])) + decode_stream(tail)) + opt_seq(decode(call)));
    }
}

/// Whether a callback sequence closes every element it opens, in order:
/// replayed onto a stack of open names, every `EndElement` invocation names
/// the innermost open element, and the stack is empty at the end.
pub open spec fn call_nesting_ok(calls: Seq<Callback>, stack: Seq<Seq<char>>) -> bool
    decreases calls.len(),
{
    if calls.len() == 0 {
        stack.len() == 0
    } else {
        match calls[0] {
            Callback::StartElement(name, _) => call_nesting_ok(
                calls.drop_first(),
                stack.push(name@),
            ),
            Callback::EndElement(name) => stack.len() > 0 && stack.last() == name@
                && call_nesting_ok(calls.drop_first(), stack.drop_last()),
            _ => call_nesting_ok(calls.drop_first(), stack),
        }
    }
}

/// Whether a whole parse's callback sequence is well formed: it opens with
/// the document start, closes with the document end, and its element
/// invocations nest. This is how the foreign parser drives the callbacks
/// for every document it accepts.
pub open spec fn calls_well_formed(calls: Seq<Callback>) -> bool {
    &&& calls.len() >= 2
    &&& calls[0] == Callback::StartDocument
    &&& calls.last() == Callback::EndDocument
    &&& call_nesting_ok(calls, Seq::empty())
}

/// What one invocation contributes to the events of the stream: its event,
/// unless it contributes an error entry or nothing.
pub open spec fn events_head(o: Option<ResultModel>) -> Seq<EventModel> {
    match o {
        Some(Ok(ev)) => seq![ev],
        Some(Err(_)) => Seq::empty(),
        None => Seq::empty(),
    }
}

/// Peeling one invocation off the front of a callback sequence peels its
/// event contribution off the front of the stream's events.
proof fn lemma_events_of_step(calls: Seq<Callback>)
    requires
        calls.len() > 0,
    ensures
        events_of(decode_stream(calls)) == events_head(decode(calls[0])) + events_of(
            decode_stream(calls.drop_first()),
        ),
{
    let ds = decode_stream(calls);
    let dsr = decode_stream(calls.drop_first());
    assert(ds == opt_seq(decode(calls[0])) + dsr);
    match decode(calls[0]) {
        Some(res) => {
            assert(ds[0] == res);
            assert(ds.drop_first() =~= dsr);
            match res {
                Ok(ev) => {
                    assert(events_of(ds) == seq![ev] + events_of(dsr));
                },
                Err(_) => {
                    assert(events_of(ds) == Seq::<EventModel>::empty() + events_of(dsr));
                    assert(Seq::<EventModel>::empty() + events_of(dsr) =~= events_of(dsr));
                },
            }
        },
        None => {
            assert(ds =~= dsr);
            assert(events_head(decode(calls[0])) + events_of(dsr) =~= events_of(dsr));
        },
    }
}

/// Replaying well-nested callback invocations yields well-nested events:
/// each invocation's contribution keeps the stack of open names in step.
proof fn lemma_events_nesting(calls: Seq<Callback>, stack: Seq<Seq<char>>)
    requires
        call_nesting_ok(calls, stack),
    ensures
        nested_ok(events_of(decode_stream(calls)), stack),
    decreases calls.len(),
{
    let ds = decode_stream(calls);
    if calls.len() == 0 {
        assert(ds == Seq::<ResultModel>::empty());
        assert(events_of(ds).len() == 0);
    } else {
        let rest = calls.drop_first();
        let evs = events_of(ds);
        let evr = events_of(decode_stream(rest));
        lemma_events_of_step(calls);
        match calls[0] {
            Callback::StartElement(name, atts) => {
                let ev = EventModel::StartElement(name@, atts_model(atts@));
                assert(evs == seq![ev] + evr);
                assert(evs[0] == ev);
                assert(evs.drop_first() =~= evr);
                lemma_events_nesting(rest, stack.push(name@));
                assert(nested_ok(evs, stack));
            },
            Callback::EndElement(name) => {
                let ev = EventModel::EndElement(name@);
                assert(evs == seq![ev] + evr);
                assert(evs[0] == ev);
                assert(evs.drop_first() =~= evr);
                lemma_events_nesting(rest, stack.drop_last());
                assert(nested_ok(evs, stack));
            },
            Callback::StructuredError(rec) => {
                assert(events_head(decode(calls[0])).len() == 0);
                assert(evs =~= evr);
                lemma_events_nesting(rest, stack);
                assert(nested_ok(evs, stack));
            },
            _ => {
                assert(decode(calls[0]) matches Some(r) && r is Ok);
                let ev = decode(calls[0])->0->Ok_0;
                assert(!(ev is StartElement) && !(ev is EndElement));
                assert(evs == seq![ev] + evr);
                assert(evs[0] == ev);
                assert(evs.drop_first() =~= evr);
                lemma_events_nesting(rest, stack);
                assert(nested_ok(evs, stack));
            },
        }
    }
}

/// A callback sequence that ends with the document end contributes at
/// least that event, and it comes last.
proof fn lemma_events_last(calls: Seq<Callback>)
    requires
        calls.len() > 0,
        calls.last() == Callback::EndDocument,
    ensures
        events_of(decode_stream(calls)).len() > 0,
        events_of(decode_stream(calls)).last() == EventModel::EndDocument,
    decreases calls.len(),
{
    let evs = events_of(decode_stream(calls));
    let rest = calls.drop_first();
    let evr = events_of(decode_stream(rest));
    lemma_events_of_step(calls);
    if calls.len() == 1 {
        assert(calls[0] == Callback::EndDocument);
        assert(rest =~= Seq::<Callback>::empty());
        assert(decode_stream(rest) == Seq::<ResultModel>::empty());
        assert(evr.len() == 0);
        assert(evs =~= seq![EventModel::EndDocument]);
    } else {
        assert(rest.last() == calls.last());
        lemma_events_last(rest);
        assert(evs == events_head(decode(calls[0])) + evr);
        assert(evs.last() == evr.last());
    }
}

/// A parse whose callbacks are well formed yields a well-formed event
/// stream: the events begin with `StartDocument`, end with `EndDocument`,
/// and the element events nest, closing every open name in order. The
/// foreign parser drives well-formed callback sequences for the documents
/// it accepts; the bridge preserves that shape into the stream.
pub proof fn lemma_well_formed_calls_well_formed_stream(calls: Seq<Callback>)
    requires
        calls_well_formed(calls),
    ensures
        spec_well_formed(events_of(decode_stream(calls))),
{
    let evs = events_of(decode_stream(calls));
    let rest = calls.drop_first();
    let evr = events_of(decode_stream(rest));
    lemma_events_of_step(calls);
    assert(evs == seq![EventModel::StartDocument] + evr);
    assert(rest.last() == calls.last());
    lemma_events_last(rest);
    assert(evs.len() >= 2);
    assert(evs[0] == EventModel::StartDocument);
    assert(evs.last() == evr.last());
    lemma_events_nesting(calls, Seq::empty());
}

/// Replaying a given sequence of callback invocations determines the stream
/// completely: two channels filled by the same invocations — the same input
/// fed through two independent sessions — hold structurally equal streams.
/// No state leaks from one session into the next.
pub proof fn lemma_replay_deterministic(
    calls: Seq<Callback>,
    first: EventChannel,
    second: EventChannel,
)
    requires
        stream_model(first@) == decode_stream(calls),
        stream_model(second@) == decode_stream(calls),
    ensures
        stream_model(first@) == stream_model(second@),
{
}

} // verus!
