use vstd::prelude::*;
use xml::reader::XmlEvent as ReaderEvent;

verus! {

/// One element of a decoded markup stream: an opening tag with its attributes,
/// character data, a closing tag, or a decode fault that ends the stream.
pub enum RawEvent {
    Open { name: String, attrs: Vec<(String, String)> },
    Text { text: String },
    Close { name: String },
    Fault,
}

/// The mathematical shape of one stream element.
pub enum EventV {
    Open { name: Seq<char>, attrs: Seq<(Seq<char>, Seq<char>)> },
    Text { text: Seq<char> },
    Close { name: Seq<char> },
    Fault,
}

impl View for RawEvent {
    type V = EventV;

    open spec fn view(&self) -> EventV {
        match self {
            RawEvent::Open { name, attrs } => EventV::Open {
                name: name@,
                attrs: attrs@.map_values(|p: (String, String)| (p.0@, p.1@)),
            },
            RawEvent::Text { text } => EventV::Text { text: text@ },
            RawEvent::Close { name } => EventV::Close { name: name@ },
            RawEvent::Fault => EventV::Fault,
        }
    }
}

/// The views of a sequence of stream elements.
pub open spec fn views_of(evs: Seq<RawEvent>) -> Seq<EventV> {
    evs.map_values(|e: RawEvent| e@)
}

/// What the markup decoder emits for a feed text: the opening tags, character
/// runs and closing tags in document order; a decode error is reported as one
/// final `Fault` element.
pub uninterp spec fn events_of(text: Seq<char>) -> Seq<EventV>;

/// Relies on `xml::reader::EventReader`: decoding a text yields a determined
/// event stream, with element and attribute names reported by local name.
#[verifier::external_body]
pub fn read_events(text: &str) -> (r: Vec<RawEvent>)
    ensures
        views_of(r@) == events_of(text@),
{
    let mut out: Vec<RawEvent> = Vec::new();
    for ev in xml::reader::EventReader::from_str(text) {
        match ev {
            Ok(ReaderEvent::StartElement { name, attributes, .. }) => out.push(RawEvent::Open {
                name: name.local_name,
                attrs: attributes.into_iter().map(|a| (a.name.local_name, a.value)).collect(),
            }),
            Ok(ReaderEvent::Characters(text)) => out.push(RawEvent::Text { text }),
            Ok(ReaderEvent::EndElement { name }) => out.push(RawEvent::Close { name: name.local_name }),
            Ok(_) => {}
            Err(_) => { out.push(RawEvent::Fault); break; }
        }
    }
    out
}

/// Relies on `str`'s `PartialEq`: equality holds exactly of equal character
/// sequences.
#[verifier::external_body]
pub fn str_eq(a: &str, b: &str) -> (r: bool)
    ensures
        r == (a@ == b@),
{
    a == b
}

/// The value of the last attribute named `key`, mirroring a map built from the
/// attribute list where a later entry overrides an earlier one.
pub open spec fn attr_get(attrs: Seq<(Seq<char>, Seq<char>)>, key: Seq<char>) -> Option<Seq<char>>
    decreases attrs.len(),
{
    if attrs.len() == 0 {
        None::<Seq<char>>
    } else if attrs.last().0 == key {
        Some(attrs.last().1)
    } else {
        attr_get(attrs.drop_last(), key)
    }
}

/// Whether some attribute is named `key`.
pub open spec fn attr_has(attrs: Seq<(Seq<char>, Seq<char>)>, key: Seq<char>) -> bool {
    attr_get(attrs, key) is Some
}

/// No decode fault occurs among the first `n` stream elements.
pub open spec fn fault_free_prefix(evs: Seq<EventV>, n: int) -> bool {
    forall|j: int| 0 <= j < n ==> !(evs[j] is Fault)
}

/// The view of an attribute list.
pub open spec fn attrs_view(attrs: Seq<(String, String)>) -> Seq<(Seq<char>, Seq<char>)> {
    attrs.map_values(|p: (String, String)| (p.0@, p.1@))
}

/// Looks an attribute up by name, later entries overriding earlier ones.
pub fn lookup_attr(attrs: &Vec<(String, String)>, key: &str) -> (r: Option<String>)
    ensures
        match r {
            Some(v) => attr_get(attrs_view(attrs@), key@) == Some(v@),
            None => attr_get(attrs_view(attrs@), key@) is None,
        },
{
    let ghost all = attrs_view(attrs@);
    let mut i: usize = attrs.len();
    proof {
        assert(all.subrange(0, i as int) =~= all);
    }
    while i > 0
        invariant
            i <= attrs.len(),
            all == attrs_view(attrs@),
            all.len() == attrs@.len(),
            attr_get(all, key@) == attr_get(all.subrange(0, i as int), key@),
        decreases i,
    {
        i = i - 1;
        if str_eq(attrs[i].0.as_str(), key) {
            proof {
                assert(all.subrange(0, i + 1 as int).last() == all[i as int]);
                assert(all[i as int].0 == key@);
            }
            return Some(attrs[i].1.clone());
        }
        proof {
            assert(all.subrange(0, i + 1 as int).last() == all[i as int]);
            assert(all.subrange(0, i + 1 as int).drop_last() =~= all.subrange(0, i as int));
        }
    }
    proof {
        assert(all.subrange(0, 0) =~= Seq::<(Seq<char>, Seq<char>)>::empty());
    }
    None
}

/// Whether an attribute named `key` is present.
pub fn has_attr(attrs: &Vec<(String, String)>, key: &str) -> (r: bool)
    ensures
        r == attr_has(attrs_view(attrs@), key@),
{
    match lookup_attr(attrs, key) {
        Some(_) => true,
        None => false,
    }
}

} // verus!
