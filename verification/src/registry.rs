use vstd::prelude::*;

use crate::graph::{NodeInfo, PortDirection, PortInfo};
use crate::messages::PwEvent;
use crate::text::{chars_of, find_from, first_occurrence, str_eq};

verus! {

broadcast use vstd::string::group_string_axioms;

/// The text that precedes the sink name in the default-sink metadata value.
pub open spec fn name_key() -> Seq<char> {
    seq!['"', 'n', 'a', 'm', 'e', '"', ':', '"']
}

/// The sink name held in a default-sink metadata value such as
/// `{"name":"alsa_output.pci-..."}`: the text after the first `"name":"`
/// up to the next `"`.
pub open spec fn default_sink_name_of(value: Seq<char>) -> Option<Seq<char>> {
    match first_occurrence(value, name_key(), 0) {
        Some(i) => {
            let start = i + name_key().len();
            match first_occurrence(value, seq!['"'], start) {
                Some(end) => Some(value.subrange(start, end)),
                None => None,
            }
        },
        None => None,
    }
}

/// Reads the sink name out of a default-sink metadata value.
pub fn parse_default_sink_name(value: &str) -> (r: Option<String>)
    ensures
        match r {
            Some(s) => default_sink_name_of(value@) == Some(s@),
            None => default_sink_name_of(value@) is None,
        },
{
    let v = chars_of(value);
    let key = chars_of("\"name\":\"");
    proof {
        reveal_strlit("\"name\":\"");
        assert(key@ =~= name_key());
    }
    let n_chars: usize = v.len();
    match find_from(&v, &key, 0) {
        None => None,
        Some(i) => {
            assert(crate::text::occurs_at(v@, key@, i as int));
            let start = i + key.len();
            let quote: Vec<char> = vec!['"'];
            assert(quote@ =~= seq!['"']);
            match find_from(&v, &quote, start) {
                None => None,
                Some(end) => {
                    let name = value.substring_char(start, end);
                    Some(name.to_owned())
                },
            }
        },
    }
}

/// The metadata value PipeWire writes for a default sink named `name`.
pub open spec fn default_sink_value(name: Seq<char>) -> Seq<char> {
    seq!['{'] + name_key() + name + seq!['"', '}']
}

/// A sink name without a double quote in it is read back unchanged from
/// the metadata value that names it as the default sink.
pub proof fn law_default_sink_name_round_trip(name: Seq<char>)
    requires
        !name.contains('"'),
    ensures
        default_sink_name_of(default_sink_value(name)) == Some(name),
{
    let v = default_sink_value(name);
    let key = name_key();
    assert(v.subrange(1, 1 + key.len() as int) =~= key);
    assert(!crate::text::occurs_at(v, key, 0)) by {
        assert(v.subrange(0, key.len() as int)[0] != key[0]);
    }
    crate::text::lemma_first_at_unique(v, key, 0, 1);
    let start: int = 1 + key.len() as int;
    let end: int = start + name.len() as int;
    assert(v.subrange(end, end + 1) =~= seq!['"']);
    assert forall|j: int| start <= j < end implies !crate::text::occurs_at(v, seq!['"'], j) by {
        assert(v[j] == name[j - start]);
        assert(v.subrange(j, j + 1)[0] == v[j]);
    }
    crate::text::lemma_first_at_unique(v, seq!['"'], start, end);
    assert(v.subrange(start, end) =~= name);
}

/// An ASCII decimal digit.
pub open spec fn is_digit(c: char) -> bool {
    '0' <= c <= '9'
}

/// The number a decimal digit stands for.
pub open spec fn digit_value(c: char) -> int {
    (c as int) - ('0' as int)
}

/// The number a string of decimal digits stands for.
pub open spec fn decimal_value(d: Seq<char>) -> int
    decreases d.len(),
{
    if d.len() == 0 {
        0
    } else {
        decimal_value(d.drop_last()) * 10 + digit_value(d.last())
    }
}

/// The digits of an unsigned number written with an optional leading `+`.
pub open spec fn unsigned_digits(s: Seq<char>) -> Seq<char> {
    if s.len() > 0 && s[0] == '+' {
        s.drop_first()
    } else {
        s
    }
}

/// What `str::parse::<u32>` gives: the number, where the text is one or
/// more decimal digits after an optional `+` and the number fits in a `u32`.
pub open spec fn u32_from_text(s: Seq<char>) -> Option<u32> {
    let d = unsigned_digits(s);
    if d.len() > 0 && (forall|i: int| 0 <= i < d.len() ==> is_digit(#[trigger] d[i])) && decimal_value(d)
        <= u32::MAX {
        Some(decimal_value(d) as u32)
    } else {
        None
    }
}

/// A longer string of digits stands for at least as much as its prefix.
proof fn lemma_decimal_prefix(d: Seq<char>, k: int)
    requires
        0 <= k <= d.len(),
        forall|i: int| 0 <= i < d.len() ==> is_digit(#[trigger] d[i]),
    ensures
        decimal_value(d) >= decimal_value(d.take(k)),
        decimal_value(d) >= 0,
    decreases d.len(),
{
    if d.len() == 0 {
        assert(d.take(k) =~= d);
    } else if k == d.len() {
        assert(d.take(k) =~= d);
        lemma_decimal_prefix(d.drop_last(), 0);
    } else {
        let p = d.drop_last();
        assert(p.take(k) =~= d.take(k));
        lemma_decimal_prefix(p, k);
        assert(is_digit(d[d.len() - 1]));
    }
}

/// Reads an unsigned 32-bit number as `str::parse::<u32>` does.
pub fn parse_u32(s: &str) -> (r: Option<u32>)
    ensures
        r == u32_from_text(s@),
{
    let v = chars_of(s);
    let n: usize = v.len();
    let start: usize = if n > 0 && v[0] == '+' { 1 } else { 0 };
    let ghost d = unsigned_digits(s@);
    assert(d =~= v@.subrange(start as int, n as int));
    if start == n {
        return None;
    }
    let mut acc: u64 = 0;
    let mut i: usize = start;
    while i < n
        invariant
            start <= i <= n,
            n == v@.len(),
            d == unsigned_digits(s@),
            d == v@.subrange(start as int, n as int),
            forall|j: int| 0 <= j < i - start ==> is_digit(#[trigger] d[j]),
            acc == decimal_value(d.take(i - start)),
            acc <= u32::MAX,
        decreases n - i,
    {
        let c = v[i];
        if !('0' <= c && c <= '9') {
            assert(d[i - start] == c);
            assert(!is_digit(d[i - start]));
            assert(!(forall|j: int| 0 <= j < d.len() ==> is_digit(#[trigger] d[j])));
            return None;
        }
        let digit: u64 = (c as u32 - '0' as u32) as u64;
        assert(acc * 10 <= 42949672950) by (nonlinear_arith)
            requires
                acc <= 4294967295u64,
        ;
        proof {
            let t = d.take(i - start + 1);
            assert(t.drop_last() =~= d.take(i - start));
            assert(t.last() == c);
        }
        acc = acc * 10 + digit;
        assert(acc == decimal_value(d.take(i - start + 1)));
        if acc > 0xffff_ffff {
            proof {
                if forall|j: int| 0 <= j < d.len() ==> is_digit(#[trigger] d[j]) {
                    lemma_decimal_prefix(d, i - start + 1);
                    assert(decimal_value(d) > u32::MAX);
                }
            }
            return None;
        }
        i = i + 1;
    }
    assert(d.take(n - start) =~= d);
    Some(acc as u32)
}

/// The node id a port names in its `node.id` property, or 0 where the
/// property is missing or is not a number.
pub open spec fn node_id_of_prop(value: Option<&str>) -> u32 {
    match value {
        Some(s) => match u32_from_text(s@) {
            Some(n) => n,
            None => 0,
        },
        None => 0,
    }
}

/// The direction a port names in its `port.direction` property: `in` or
/// `out`, anything else being unknown.
pub open spec fn direction_of_prop(value: Option<&str>) -> PortDirection {
    match value {
        Some(s) => if s@ == seq!['i', 'n'] {
            PortDirection::Input
        } else if s@ == seq!['o', 'u', 't'] {
            PortDirection::Output
        } else {
            PortDirection::Unknown
        },
        None => PortDirection::Unknown,
    }
}

/// Reads the node id out of a port's `node.id` property.
pub fn node_id_from_prop(value: Option<&str>) -> (r: u32)
    ensures
        r == node_id_of_prop(value),
{
    match value {
        Some(s) => match parse_u32(s) {
            Some(n) => n,
            None => 0,
        },
        None => 0,
    }
}

/// Reads a port's direction out of its `port.direction` property.
pub fn port_direction_from_prop(value: Option<&str>) -> (r: PortDirection)
    ensures
        r == direction_of_prop(value),
{
    proof {
        reveal_strlit("in");
        reveal_strlit("out");
        assert("in"@ =~= seq!['i', 'n']);
        assert("out"@ =~= seq!['o', 'u', 't']);
    }
    match value {
        Some(s) => if str_eq(s, "in") {
            PortDirection::Input
        } else if str_eq(s, "out") {
            PortDirection::Output
        } else {
            PortDirection::Unknown
        },
        None => PortDirection::Unknown,
    }
}

/// The text of a property, the empty text where it is missing.
pub open spec fn prop_text(value: Option<&str>) -> Seq<char> {
    match value {
        Some(s) => s@,
        None => Seq::empty(),
    }
}

/// The media class of an audio sink: `Audio/Sink`.
pub open spec fn audio_sink_class() -> Seq<char> {
    seq!['A', 'u', 'd', 'i', 'o', '/', 'S', 'i', 'n', 'k']
}

/// Whether a media class names an audio sink.
pub fn is_audio_sink(media_class: &str) -> (r: bool)
    ensures
        r == (media_class@ == audio_sink_class()),
{
    proof {
        reveal_strlit("Audio/Sink");
        assert("Audio/Sink"@ =~= audio_sink_class());
    }
    str_eq(media_class, "Audio/Sink")
}

/// The text of a property, the empty string where it is missing.
pub fn prop_or_empty(value: Option<&str>) -> (r: String)
    ensures
        r@ == prop_text(value),
{
    match value {
        Some(s) => s.to_owned(),
        None => String::new(),
    }
}

/// The node that a registry global of type node describes, from its
/// `node.name`, `node.description` and `media.class` properties.
pub fn node_from_props(id: u32, name: Option<&str>, description: Option<&str>, media_class: Option<&str>) -> (r:
    NodeInfo)
    ensures
        r.id == id,
        r.name@ == prop_text(name),
        r.description@ == prop_text(description),
        r.media_class@ == prop_text(media_class),
{
    NodeInfo {
        id,
        name: prop_or_empty(name),
        description: prop_or_empty(description),
        media_class: prop_or_empty(media_class),
    }
}

/// The port that a registry global of type port describes, from its
/// `port.name`, `node.id` and `port.direction` properties.
pub fn port_from_props(id: u32, port_name: Option<&str>, node_id: Option<&str>, direction: Option<&str>) -> (r:
    PortInfo)
    ensures
        r.id == id,
        r.name@ == prop_text(port_name),
        r.node_id == node_id_of_prop(node_id),
        r.direction == direction_of_prop(direction),
{
    PortInfo {
        id,
        node_id: node_id_from_prop(node_id),
        name: prop_or_empty(port_name),
        direction: port_direction_from_prop(direction),
    }
}

/// The events a newly seen node gives: the node itself and, for an audio
/// sink, the sink's appearance.
pub fn node_added_events(node: NodeInfo) -> (r: Vec<PwEvent>)
    ensures
        r.len() == if node.media_class@ == audio_sink_class() { 2int } else { 1int },
        r[0] == PwEvent::NodeAdded(node),
        node.media_class@ == audio_sink_class() ==> r[1] == (PwEvent::SinkAdded {
            name: node.name,
            description: node.description,
        }),
{
    let sink = is_audio_sink(node.media_class.as_str());
    let name = node.name.clone();
    let description = node.description.clone();
    let mut r: Vec<PwEvent> = Vec::new();
    r.push(PwEvent::NodeAdded(node));
    if sink {
        r.push(PwEvent::SinkAdded { name, description });
    }
    r
}

/// The events a removed registry global gives: it is forgotten both as a
/// node and as a port.
pub fn removal_events(id: u32) -> (r: Vec<PwEvent>)
    ensures
        r@ == seq![PwEvent::NodeRemoved(id), PwEvent::PortRemoved(id)],
{
    let mut r: Vec<PwEvent> = Vec::new();
    r.push(PwEvent::NodeRemoved(id));
    r.push(PwEvent::PortRemoved(id));
    assert(r@ =~= seq![PwEvent::NodeRemoved(id), PwEvent::PortRemoved(id)]);
    r
}

/// Whether a metadata object, by its `metadata.name`, is the one that holds
/// the default devices.
pub fn is_default_metadata(name: Option<&str>) -> (r: bool)
    ensures
        r == (prop_text(name) == seq!['d', 'e', 'f', 'a', 'u', 'l', 't']),
{
    proof {
        reveal_strlit("default");
        assert("default"@ =~= seq!['d', 'e', 'f', 'a', 'u', 'l', 't']);
    }
    let n = prop_or_empty(name);
    str_eq(n.as_str(), "default")
}

/// The metadata key under which the default sink is stored.
pub open spec fn default_sink_key() -> Seq<char> {
    seq!['d', 'e', 'f', 'a', 'u', 'l', 't', '.', 'a', 'u', 'd', 'i', 'o', '.', 's', 'i', 'n', 'k']
}

/// The new default sink that a change of a default-metadata property
/// announces, if it announces one.
pub fn default_sink_from_property(key: Option<&str>, value: Option<&str>) -> (r: Option<String>)
    ensures
        match r {
            Some(name) => key.is_some() && key.unwrap()@ == default_sink_key() && value.is_some()
                && default_sink_name_of(value.unwrap()@) == Some(name@),
            None => !(key.is_some() && key.unwrap()@ == default_sink_key() && value.is_some()
                && default_sink_name_of(value.unwrap()@).is_some()),
        },
{
    proof {
        reveal_strlit("default.audio.sink");
        assert("default.audio.sink"@ =~= default_sink_key());
    }
    match (key, value) {
        (Some(k), Some(v)) => if str_eq(k, "default.audio.sink") {
            parse_default_sink_name(v)
        } else {
            None
        },
        _ => None,
    }
}

/// A property that is present is read whole, every character of it in
/// order, spaces included; a missing one reads as empty text.
pub proof fn law_prop_text(value: Option<&str>)
    ensures
        value matches Some(s) ==> prop_text(value).len() == s@.len() && forall|i: int|
            0 <= i < s@.len() ==> #[trigger] prop_text(value)[i] == s@[i],
        value is None ==> prop_text(value).len() == 0,
{
}

/// A node read from properties that are all present carries them whole.
pub proof fn law_node_props_whole(id: u32, name: &str, description: &str, media_class: &str, r: NodeInfo)
    requires
        r.id == id,
        r.name@ == prop_text(Some(name)),
        r.description@ == prop_text(Some(description)),
        r.media_class@ == prop_text(Some(media_class)),
    ensures
        r.name@ == name@,
        r.description@ == description@,
        r.media_class@ == media_class@,
{
    law_prop_text(Some(name));
    law_prop_text(Some(description));
    law_prop_text(Some(media_class));
    assert(r.name@ =~= name@);
    assert(r.description@ =~= description@);
    assert(r.media_class@ =~= media_class@);
}

} // verus!
