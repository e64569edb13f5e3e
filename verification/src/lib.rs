//! A bridge from a callback-driven XML parser to an ordered stream of
//! parse events.
//!
//! The foreign parser reports document structure by invoking callbacks; this
//! crate defines the event vocabulary, decodes the raw callback payloads into
//! owned values, classifies structured error reports, and forwards everything
//! through an ordered channel to the consumer. The unsafe boundary itself
//! (raw pointers, the foreign call) lives outside this crate; every function
//! here works on plain owned values and is verified.

pub mod adapter;
pub mod channel;
pub mod error;
pub mod handler;
pub mod text;

use vstd::prelude::*;
use vstd::string::StringExecFns;

verus! {

/// An event reported by the parser. Each event owns its text content: no
/// borrowed data from the foreign parser's buffers survives past the
/// callback that produced the event.
#[derive(Clone, Debug, PartialEq, Eq)]
pub enum ParseEvent {
    /// The document has begun to be processed.
    StartDocument,
    /// The document processing has finished.
    EndDocument,
    /// An opening tag was parsed: its literal name and its attributes.
    StartElement(String, Attributes),
    /// A closing tag was parsed.
    EndElement(String),
    /// Some characters between tags were received.
    Characters(String),
    /// A run of whitespace the grammar considers ignorable was received.
    /// Reported only when the handler registers the dedicated slot.
    IgnorableWhitespace(String),
    /// A comment was parsed.
    Comment(String),
    /// A `CDATA` block was parsed.
    CdataBlock(String),
}

/// The mathematical content of a parse event: every text payload as a
/// sequence of characters, an attribute list as a sequence of name/value
/// pairs.
pub ghost enum EventModel {
    StartDocument,
    EndDocument,
    StartElement(Seq<char>, Seq<(Seq<char>, Seq<char>)>),
    EndElement(Seq<char>),
    Characters(Seq<char>),
    IgnorableWhitespace(Seq<char>),
    Comment(Seq<char>),
    CdataBlock(Seq<char>),
}

impl View for ParseEvent {
    type V = EventModel;

    open spec fn view(&self) -> EventModel {
        match *self {
            ParseEvent::StartDocument => EventModel::StartDocument,
            ParseEvent::EndDocument => EventModel::EndDocument,
            ParseEvent::StartElement(ref name, ref atts) => EventModel::StartElement(
                name@,
                atts@,
            ),
            ParseEvent::EndElement(ref name) => EventModel::EndElement(name@),
            ParseEvent::Characters(ref text) => EventModel::Characters(text@),
            ParseEvent::IgnorableWhitespace(ref text) => EventModel::IgnorableWhitespace(text@),
            ParseEvent::Comment(ref text) => EventModel::Comment(text@),
            ParseEvent::CdataBlock(ref text) => EventModel::CdataBlock(text@),
        }
    }
}

/// Either a parse event wrapped in `Ok` or some error data wrapped in `Err`:
/// the unit value that flows through the bridge channel.
pub type ParseResult = Result<ParseEvent, error::ErrorData>;

/// The mathematical content of one channel entry.
pub type ResultModel = Result<EventModel, error::ErrorModel>;

/// The content of a single parse result.
pub open spec fn res_model(r: ParseResult) -> ResultModel {
    match r {
        Ok(ev) => Ok(ev@),
        Err(err) => Err(err@),
    }
}

/// The content of a sequence of parse results, in order.
pub open spec fn stream_model(s: Seq<ParseResult>) -> Seq<ResultModel> {
    s.map_values(|r: ParseResult| res_model(r))
}

/// The content of a sequence of events, in order.
pub open spec fn events_model(s: Seq<ParseEvent>) -> Seq<EventModel> {
    s.map_values(|e: ParseEvent| e@)
}

/// The events among a stream's entries, in order, with the error entries
/// left aside.
pub open spec fn events_of(stream: Seq<ResultModel>) -> Seq<EventModel>
    decreases stream.len(),
{
    if stream.len() == 0 {
        Seq::empty()
    } else {
        (match stream[0] {
            Ok(ev) => seq![ev],
            Err(_) => Seq::<EventModel>::empty(),
        }) + events_of(stream.drop_first())
    }
}

/// Whether a sequence of events closes every open element in order:
/// replaying the events onto a stack of open names, every `EndElement`
/// matches the innermost open name, and the stack is empty at the end.
pub open spec fn nested_ok(evs: Seq<EventModel>, stack: Seq<Seq<char>>) -> bool
    decreases evs.len(),
{
    if evs.len() == 0 {
        stack.len() == 0
    } else {
        match evs[0] {
            EventModel::StartElement(name, _) => nested_ok(evs.drop_first(), stack.push(name)),
            EventModel::EndElement(name) => stack.len() > 0 && stack.last() == name && nested_ok(
                evs.drop_first(),
                stack.drop_last(),
            ),
            _ => nested_ok(evs.drop_first(), stack),
        }
    }
}

/// Whether a complete event stream is well formed: it begins with
/// `StartDocument`, ends with `EndDocument`, and its element events nest
/// correctly.
pub open spec fn spec_well_formed(evs: Seq<EventModel>) -> bool {
    &&& evs.len() >= 2
    &&& evs[0] == EventModel::StartDocument
    &&& evs.last() == EventModel::EndDocument
    &&& nested_ok(evs, Seq::empty())
}

/// Checks that a complete event stream is well formed: it begins with
/// `StartDocument`, ends with `EndDocument`, and element events nest
/// correctly — replayed onto a stack of open names, every closing tag
/// matches the innermost open one and the stack empties exactly when the
/// stream ends.
pub fn well_formed(events: &Vec<ParseEvent>) -> (r: bool)
    ensures
        r == spec_well_formed(events_model(events@)),
{
    let ghost evs = events_model(events@);
    let n = events.len();
    if n < 2 {
        return false;
    }
    proof {
        assert(evs[0] == events@[0]@);
        assert(evs.last() == events@[n - 1]@);
    }
    if !(matches!(events[0], ParseEvent::StartDocument)) {
        return false;
    }
    if !(matches!(events[n - 1], ParseEvent::EndDocument)) {
        return false;
    }
    let mut stack: Vec<String> = Vec::new();
    let mut i: usize = 0;
    proof {
        assert(evs.skip(0) =~= evs);
        assert(stack@.map_values(|s: String| s@) =~= Seq::<Seq<char>>::empty());
    }
    while i < n
        invariant
            i <= n,
            n == events@.len(),
            evs == events_model(events@),
            nested_ok(evs, Seq::empty()) == nested_ok(
                evs.skip(i as int),
                stack@.map_values(|s: String| s@),
            ),
        decreases n - i,
    {
        proof {
            assert(evs.skip(i as int)[0] == events@[i as int]@);
            assert(evs.skip(i as int).drop_first() =~= evs.skip(i + 1));
        }
        match &events[i] {
            ParseEvent::StartElement(name, _) => {
                let copy = name.clone();
                proof {
                    assert(stack@.push(copy).map_values(|s: String| s@) =~= stack@.map_values(
                        |s: String| s@,
                    ).push(copy@));
                }
                stack.push(copy);
            },
            ParseEvent::EndElement(name) => {
                let ghost models = stack@.map_values(|s: String| s@);
                match stack.pop() {
                    Some(top) => {
                        proof {
                            assert(models.last() == top@);
                            assert(stack@.map_values(|s: String| s@) =~= models.drop_last());
                        }
                        if !(top == *name) {
                            return false;
                        }
                    },
                    None => {
                        return false;
                    },
                }
            },
            _ => {},
        }
        i += 1;
    }
    proof {
        assert(evs.skip(n as int) =~= Seq::<EventModel>::empty());
    }
    stack.len() == 0
}

/// A single attribute of an element: a name and a value, both owned.
#[derive(Clone, Debug, PartialEq, Eq)]
pub struct Attribute {
    pub name: String,
    pub value: String,
}

impl View for Attribute {
    type V = (Seq<char>, Seq<char>);

    open spec fn view(&self) -> (Seq<char>, Seq<char>) {
        (self.name@, self.value@)
    }
}

/// A list of attributes, in document order. Names need not be unique;
/// duplicates are preserved and lookup returns the first match.
#[derive(Clone, Debug, PartialEq, Eq)]
pub struct Attributes(pub Vec<Attribute>);

impl View for Attributes {
    type V = Seq<(Seq<char>, Seq<char>)>;

    open spec fn view(&self) -> Seq<(Seq<char>, Seq<char>)> {
        self.0@.map_values(|a: Attribute| a@)
    }
}

/// The attribute list denoted by a flat buffer of alternating name and value
/// slots, where `None` stands for an absent (null) entry. Pairs are taken
/// until the first slot that is absent or missing; in particular an absent
/// name slot terminates the list.
pub open spec fn atts_model(entries: Seq<Option<String>>) -> Seq<(Seq<char>, Seq<char>)>
    decreases entries.len(),
{
    if entries.len() >= 2 && entries[0] is Some && entries[1] is Some {
        seq![(entries[0]->0@, entries[1]->0@)] + atts_model(entries.skip(2))
    } else {
        Seq::empty()
    }
}

/// The value of the first attribute whose name is `key`, if any.
pub open spec fn find_model(atts: Seq<(Seq<char>, Seq<char>)>, key: Seq<char>) -> Option<
    Seq<char>,
>
    decreases atts.len(),
{
    if atts.len() == 0 {
        None
    } else if atts[0].0 == key {
        Some(atts[0].1)
    } else {
        find_model(atts.drop_first(), key)
    }
}

impl Attributes {
    /// Decodes a flat buffer of alternating name and value slots into an
    /// owned attribute list, copying every entry. Decoding stops strictly at
    /// the first absent name slot and never looks past it; an empty buffer
    /// yields an empty list.
    pub fn from_buf(entries: &Vec<Option<String>>) -> (r: Attributes)
        ensures
            r@ == atts_model(entries@),
    {
        let mut out: Vec<Attribute> = Vec::new();
        let mut i: usize = 0;
        proof {
            assert(entries@.skip(0) =~= entries@);
            assert(out@.map_values(|a: Attribute| a@) =~= Seq::empty());
        }
        loop
            invariant
                i <= entries@.len(),
                out@.map_values(|a: Attribute| a@) + atts_model(entries@.skip(i as int))
                    == atts_model(entries@),
            ensures
                out@.map_values(|a: Attribute| a@) == atts_model(entries@),
            decreases entries@.len() - i,
        {
            if i >= entries.len() || i + 1 >= entries.len() {
                proof {
                    assert(atts_model(entries@.skip(i as int)) =~= Seq::empty());
                }
                break;
            }
            if entries[i].is_none() || entries[i + 1].is_none() {
                proof {
                    assert(entries@.skip(i as int)[0] == entries@[i as int]);
                    assert(entries@.skip(i as int)[1] == entries@[i + 1]);
                    assert(atts_model(entries@.skip(i as int)) =~= Seq::empty());
                }
                break;
            }
            let name = entries[i].as_ref().unwrap().clone();
            let value = entries[i + 1].as_ref().unwrap().clone();
            proof {
                let tail = entries@.skip(i as int);
                assert(tail[0] == entries@[i as int]);
                assert(tail[1] == entries@[i + 1]);
                assert(tail.skip(2) =~= entries@.skip(i + 2));
                assert((out@.push(Attribute { name, value })).map_values(|a: Attribute| a@)
                    =~= out@.map_values(|a: Attribute| a@) + seq![(name@, value@)]);
                assert(out@.map_values(|a: Attribute| a@) + seq![(name@, value@)] + atts_model(
                    entries@.skip(i + 2),
                ) =~= out@.map_values(|a: Attribute| a@) + atts_model(tail));
            }
            out.push(Attribute { name, value });
            i += 2;
        }
        Attributes(out)
    }

    /// Returns the value of the first attribute named `name`, or `None` when
    /// no attribute carries that name. Absence is an ordinary result, not an
    /// error.
    pub fn find<'a>(&'a self, name: &str) -> (r: Option<&'a str>)
        ensures
            match r {
                Some(v) => find_model(self@, name@) == Some(v@),
                None => find_model(self@, name@) is None,
            },
    {
        let key: String = name.to_owned();
        let n = self.0.len();
        let mut i: usize = 0;
        proof {
            assert(self@.skip(0) =~= self@);
        }
        while i < n
            invariant
                n == self.0@.len(),
                i <= n,
                key@ == name@,
                find_model(self@, name@) == find_model(self@.skip(i as int), name@),
            decreases n - i,
        {
            proof {
                assert(self@.skip(i as int)[0] == self@[i as int]);
                assert(self@.skip(i as int).drop_first() =~= self@.skip(i + 1));
            }
            if self.0[i].name == key {
                return Some(self.0[i].value.as_str());
            }
            i += 1;
        }
        proof {
            assert(self@.skip(n as int) =~= Seq::empty());
        }
        None
    }

    /// Returns the value of the first attribute named `name`; the attribute
    /// must be present.
    pub fn get<'a>(&'a self, name: &str) -> (r: &'a str)
        requires
            find_model(self@, name@) is Some,
        ensures
            Some(r@) == find_model(self@, name@),
    {
        self.find(name).unwrap()
    }

    /// Like `find`, but hands back an owned copy of the value.
    pub fn find_clone(&self, name: &str) -> (r: Option<String>)
        ensures
            match r {
                Some(v) => find_model(self@, name@) == Some(v@),
                None => find_model(self@, name@) is None,
            },
    {
        match self.find(name) {
            Some(v) => Some(v.to_owned()),
            None => None,
        }
    }

    /// Like `get`, but hands back an owned copy of the value.
    pub fn get_clone(&self, name: &str) -> (r: String)
        requires
            find_model(self@, name@) is Some,
        ensures
            Some(r@) == find_model(self@, name@),
    {
        self.get(name).to_owned()
    }

    /// Renders the list as ` name="value"` segments, in document order: the
    /// form the attributes take inside a rendered opening tag.
    pub fn to_text(&self) -> (r: String)
        ensures
            r@ == atts_text_model(self@),
    {
        let mut s = String::new();
        let n = self.0.len();
        let mut i: usize = 0;
        proof {
            assert(self@.skip(0) =~= self@);
            assert(s@ + atts_text_model(self@) =~= atts_text_model(self@));
        }
        while i < n
            invariant
                i <= n,
                n == self.0@.len(),
                s@ + atts_text_model(self@.skip(i as int)) == atts_text_model(self@),
            decreases n - i,
        {
            proof {
                assert(self@.skip(i as int)[0] == self@[i as int]);
                assert(self@.skip(i as int).drop_first() =~= self@.skip(i + 1));
            }
            s.append(" ");
            s.append(self.0[i].name.as_str());
            s.append("=\"");
            s.append(self.0[i].value.as_str());
            s.append("\"");
            proof {
                assert(s@ + atts_text_model(self@.skip(i + 1)) =~= atts_text_model(self@));
            }
            i += 1;
        }
        proof {
            assert(atts_text_model(self@.skip(n as int)) =~= Seq::<char>::empty());
            assert(s@ =~= atts_text_model(self@));
        }
        s
    }
}

/// The text rendering of an attribute list: one ` name="value"` segment per
/// attribute, in document order.
pub open spec fn atts_text_model(atts: Seq<(Seq<char>, Seq<char>)>) -> Seq<char>
    decreases atts.len(),
{
    if atts.len() == 0 {
        Seq::empty()
    } else {
        " "@ + atts[0].0 + "=\""@ + atts[0].1 + "\""@ + atts_text_model(atts.drop_first())
    }
}

/// The text rendering of an event, in the shape the document source would
/// show: tags in angle brackets, comments and CDATA in their delimiters,
/// document boundaries as labels.
pub open spec fn event_text_model(e: EventModel) -> Seq<char> {
    match e {
        EventModel::StartDocument => "START DOCUMENT"@,
        EventModel::EndDocument => "END DOCUMENT"@,
        EventModel::StartElement(name, atts) => "<"@ + name + atts_text_model(atts) + ">"@,
        EventModel::EndElement(name) => "</"@ + name + ">"@,
        EventModel::Characters(text) => text,
        EventModel::IgnorableWhitespace(text) => text,
        EventModel::Comment(text) => "<!--"@ + text + "-->"@,
        EventModel::CdataBlock(text) => "<![CDATA["@ + text + "]]>"@,
    }
}

impl ParseEvent {
    /// Renders this event in the shape the document source would show.
    pub fn to_text(&self) -> (r: String)
        ensures
            r@ == event_text_model(self@),
    {
        match self {
            ParseEvent::StartDocument => "START DOCUMENT".to_owned(),
            ParseEvent::EndDocument => "END DOCUMENT".to_owned(),
            ParseEvent::StartElement(name, atts) => {
                let mut s = "<".to_owned();
                s.append(name.as_str());
                let rendered = atts.to_text();
                s.append(rendered.as_str());
                s.append(">");
                proof {
                    assert(s@ =~= event_text_model(self@));
                }
                s
            },
            ParseEvent::EndElement(name) => {
                let mut s = "</".to_owned();
                s.append(name.as_str());
                s.append(">");
                proof {
                    assert(s@ =~= event_text_model(self@));
                }
                s
            },
            ParseEvent::Characters(text) => text.clone(),
            ParseEvent::IgnorableWhitespace(text) => text.clone(),
            ParseEvent::Comment(text) => {
                let mut s = "<!--".to_owned();
                s.append(text.as_str());
                s.append("-->");
                proof {
                    assert(s@ =~= event_text_model(self@));
                }
                s
            },
            ParseEvent::CdataBlock(text) => {
                let mut s = "<![CDATA[".to_owned();
                s.append(text.as_str());
                s.append("]]>");
                proof {
                    assert(s@ =~= event_text_model(self@));
                }
                s
            },
        }
    }
}

} // verus!
