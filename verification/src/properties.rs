//! The open-ended property bag a layer can carry.
//!
//! Properties are user-defined name/value annotations, independent of the
//! format's fixed schema. Within one bag a name maps to one value: inserting
//! a name again replaces the value it had.

use vstd::prelude::*;

use crate::dispatch::{lemma_skip_to_bounds, skip_subtree, skip_to};
use crate::error::{Error, ErrorV};
use crate::events::{attrs_view, lemma_name_literals, AttrV, Attribute, Event, EventStream, EventV};

verus! {

/// The map a sequence of name/value entries denotes; a later entry with the
/// same name replaces an earlier one.
pub open spec fn map_of(entries: Seq<(String, String)>) -> Map<Seq<char>, Seq<char>>
    decreases entries.len(),
{
    if entries.len() == 0 {
        Map::empty()
    } else {
        map_of(entries.drop_last()).insert(entries.last().0@, entries.last().1@)
    }
}

/// Whether every entry has its own name.
pub open spec fn distinct_names(entries: Seq<(String, String)>) -> bool {
    forall|i: int, j: int| 0 <= i < j < entries.len() ==> entries[i].0@ != entries[j].0@
}

proof fn lemma_map_of_push(entries: Seq<(String, String)>, e: (String, String))
    ensures
        map_of(entries.push(e)) == map_of(entries).insert(e.0@, e.1@),
{
    assert(entries.push(e).drop_last() =~= entries);
}

proof fn lemma_map_of_remove(entries: Seq<(String, String)>, i: int)
    requires
        0 <= i < entries.len(),
        forall|j: int| 0 <= j < entries.len() && j != i ==> entries[j].0@ != entries[i].0@,
    ensures
        map_of(entries) == map_of(entries.remove(i)).insert(entries[i].0@, entries[i].1@),
    decreases entries.len(),
{
    let k = entries[i].0@;
    let v = entries[i].1@;
    if i == entries.len() - 1 {
        assert(entries.remove(i) =~= entries.drop_last());
    } else {
        let rest = entries.drop_last();
        let last = entries.last();
        assert(entries.remove(i).drop_last() =~= rest.remove(i));
        assert(entries.remove(i).last() == last);
        lemma_map_of_remove(rest, i);
        let m = map_of(rest.remove(i));
        assert(m.insert(k, v).insert(last.0@, last.1@) =~= m.insert(last.0@, last.1@).insert(k, v));
    }
}

proof fn lemma_map_of_lookup(entries: Seq<(String, String)>, k: Seq<char>)
    requires
        distinct_names(entries),
    ensures
        map_of(entries).contains_key(k) <==> exists|j: int| 0 <= j < entries.len() && entries[j].0@ == k,
        forall|i: int| 0 <= i < entries.len() && entries[i].0@ == k ==> map_of(entries)[k] == entries[i].1@,
    decreases entries.len(),
{
    if entries.len() > 0 {
        let rest = entries.drop_last();
        let last = entries.last();
        let n = entries.len() - 1;
        assert(distinct_names(rest));
        lemma_map_of_lookup(rest, k);
        if k == last.0@ {
            assert(entries[n].0@ == k);
            assert forall|i: int| 0 <= i < entries.len() && entries[i].0@ == k implies map_of(
                entries,
            )[k] == entries[i].1@ by {
                if i < n {
                    assert(entries[i].0@ != entries[n].0@);
                    assert(false);
                }
            }
        } else {
            if map_of(rest).contains_key(k) {
                let j = choose|j: int| 0 <= j < rest.len() && rest[j].0@ == k;
                assert(entries[j].0@ == k);
            }
            if exists|j: int| 0 <= j < entries.len() && entries[j].0@ == k {
                let j = choose|j: int| 0 <= j < entries.len() && entries[j].0@ == k;
                assert(j != n);
                assert(rest[j].0@ == k);
            }
            assert forall|i: int| 0 <= i < entries.len() && entries[i].0@ == k implies map_of(
                entries,
            )[k] == entries[i].1@ by {
                assert(i != n);
                assert(rest[i].0@ == k);
            }
        }
    }
}

/// A mapping from property name to raw property value, each name unique.
#[derive(Debug)]
pub struct Properties {
    entries: Vec<(String, String)>,
}

impl View for Properties {
    type V = Map<Seq<char>, Seq<char>>;

    closed spec fn view(&self) -> Map<Seq<char>, Seq<char>> {
        map_of(self.entries@)
    }
}

impl Properties {
    /// Whether the bag's entries are one per name.
    pub closed spec fn wf(&self) -> bool {
        distinct_names(self.entries@)
    }

    /// An empty bag.
    pub fn new() -> (r: Properties)
        ensures
            r@ == Map::<Seq<char>, Seq<char>>::empty(),
            r.wf(),
    {
        Properties { entries: Vec::new() }
    }

    fn find(&self, name: &String) -> (r: Option<usize>)
        ensures
            match r {
                Some(i) => 0 <= i < self.entries@.len() && self.entries@[i as int].0@ == name@,
                None => forall|j: int| 0 <= j < self.entries@.len() ==> self.entries@[j].0@ != name@,
            },
    {
        let mut i: usize = 0;
        while i < self.entries.len()
            invariant
                i <= self.entries@.len(),
                forall|j: int| 0 <= j < i ==> self.entries@[j].0@ != name@,
            decreases self.entries@.len() - i,
        {
            if self.entries[i].0 == *name {
                return Some(i);
            }
            i += 1;
        }
        None
    }

    /// Binds `name` to `value`, replacing the value `name` had, if any.
    pub fn insert(&mut self, name: String, value: String)
        requires
            old(self).wf(),
        ensures
            final(self).wf(),
            final(self)@ == old(self)@.insert(name@, value@),
    {
        let ghost entries0 = self.entries@;
        match self.find(&name) {
            Some(i) => {
                self.entries.remove(i);
                proof {
                    lemma_map_of_remove(entries0, i as int);
                    let m = map_of(entries0.remove(i as int));
                    assert(m.insert(entries0[i as int].0@, entries0[i as int].1@).insert(name@, value@)
                        =~= m.insert(name@, value@));
                }
                self.entries.push((name, value));
                proof {
                    lemma_map_of_push(entries0.remove(i as int), (name, value));
                }
            },
            None => {
                self.entries.push((name, value));
                proof {
                    lemma_map_of_push(entries0, (name, value));
                }
            },
        }
    }

    /// The value bound to `name`, if any.
    pub fn get(&self, name: &str) -> (r: Option<&String>)
        requires
            self.wf(),
        ensures
            match r {
                Some(v) => self@.contains_key(name@) && self@[name@] == v@,
                None => !self@.contains_key(name@),
            },
    {
        proof {
            lemma_map_of_lookup(self.entries@, name@);
        }
        let key = name.to_owned();
        match self.find(&key) {
            Some(i) => Some(&self.entries[i].1),
            None => None,
        }
    }

    /// Whether `name` is bound at all.
    pub fn contains(&self, name: &str) -> (r: bool)
        requires
            self.wf(),
        ensures
            r == self@.contains_key(name@),
    {
        match self.get(name) {
            Some(_) => true,
            None => false,
        }
    }
}

/// The scan of a "property" start tag's attributes for its `name` and
/// `value` slots, the first attribute of each name winning.
pub open spec fn scan_property(
    attrs: Seq<AttrV>,
    i: int,
    name: Option<Seq<char>>,
    value: Option<Seq<char>>,
) -> (Option<Seq<char>>, Option<Seq<char>>)
    decreases attrs.len() - i,
{
    if i < 0 || i >= attrs.len() {
        (name, value)
    } else {
        let a = attrs[i];
        if a.name == "name"@ && name is None {
            scan_property(attrs, i + 1, Some(a.value), value)
        } else if a.name == "value"@ && value is None {
            scan_property(attrs, i + 1, name, Some(a.value))
        } else {
            scan_property(attrs, i + 1, name, value)
        }
    }
}

/// The name/value pair a "property" start tag's attributes denote; both
/// attributes are required.
pub open spec fn prop_of_attrs(attrs: Seq<AttrV>) -> Result<(Seq<char>, Seq<char>), ErrorV> {
    match scan_property(attrs, 0, None, None) {
        (None, _) => Err(ErrorV::MissingAttribute { name: "name"@ }),
        (Some(_), None) => Err(ErrorV::MissingAttribute { name: "value"@ }),
        (Some(n), Some(v)) => Ok((n, v)),
    }
}

/// Reads one property's name and value off a "property" start tag's
/// attributes.
fn prop_from_attrs(attrs: &Vec<Attribute>) -> (r: Result<(String, String), Error>)
    ensures
        match r {
            Ok(kv) => prop_of_attrs(attrs_view(attrs@)) == Ok::<_, ErrorV>((kv.0@, kv.1@)),
            Err(e) => prop_of_attrs(attrs_view(attrs@)) == Err::<(Seq<char>, Seq<char>), _>(e@),
        },
{
    proof {
        lemma_name_literals();
    }
    let ghost av = attrs_view(attrs@);
    let name_name: String = "name".to_owned();
    let value_name: String = "value".to_owned();
    let mut name: Option<String> = None;
    let mut value: Option<String> = None;
    let mut i: usize = 0;
    while i < attrs.len()
        invariant
            i <= attrs@.len(),
            av == attrs_view(attrs@),
            av.len() == attrs@.len(),
            name_name@ == "name"@,
            value_name@ == "value"@,
            "name"@ != "value"@,
            scan_property(av, 0, None, None) == scan_property(
                av,
                i as int,
                match name {
                    Some(ref s) => Some(s@),
                    None => None,
                },
                match value {
                    Some(ref s) => Some(s@),
                    None => None,
                },
            ),
        decreases attrs@.len() - i,
    {
        let a = &attrs[i];
        assert(av[i as int] == attrs@[i as int]@);
        if a.name == name_name {
            if name.is_none() {
                name = Some(a.value.clone());
            }
        } else if a.name == value_name {
            if value.is_none() {
                value = Some(a.value.clone());
            }
        }
        i += 1;
    }
    match name {
        None => Err(Error::MissingAttribute { name: name_name }),
        Some(n) => match value {
            None => Err(Error::MissingAttribute { name: value_name }),
            Some(v) => Ok((n, v)),
        },
    }
}

/// The property map read from the events of a "properties" element's
/// subtree, `pos` standing just after its start tag and `acc` holding what
/// earlier "property" children put in. Each "property" child binds its name
/// to its value (a later binding replacing an earlier one) and its own
/// subtree is skipped; unrecognized children are skipped whole; the
/// element's end tag completes the map. If the events run out first, the
/// document is malformed.
pub open spec fn parse_props_from(
    events: Seq<EventV>,
    pos: int,
    acc: Map<Seq<char>, Seq<char>>,
) -> Result<(Map<Seq<char>, Seq<char>>, int), ErrorV>
    decreases events.len() - pos,
    via parse_props_from_decreases
{
    if pos < 0 || pos >= events.len() {
        Err(ErrorV::StructuralError)
    } else {
        match events[pos] {
            EventV::Other => parse_props_from(events, pos + 1, acc),
            EventV::End { name } => if name == "properties"@ {
                Ok((acc, pos + 1))
            } else {
                parse_props_from(events, pos + 1, acc)
            },
            EventV::Start { name, attrs } => {
                if name == "property"@ {
                    match prop_of_attrs(attrs) {
                        Err(e) => Err(e),
                        Ok(kv) => match skip_to(events, pos + 1, 1) {
                            None => Err(ErrorV::StructuralError),
                            Some(np) => parse_props_from(events, np, acc.insert(kv.0, kv.1)),
                        },
                    }
                } else {
                    match skip_to(events, pos + 1, 1) {
                        None => Err(ErrorV::StructuralError),
                        Some(np) => parse_props_from(events, np, acc),
                    }
                }
            },
        }
    }
}

#[via_fn]
proof fn parse_props_from_decreases(events: Seq<EventV>, pos: int, acc: Map<Seq<char>, Seq<char>>) {
    lemma_skip_to_bounds(events, pos + 1, 1);
}

/// Parsing a property bag moves strictly forward and never past the end of
/// the events.
pub proof fn lemma_parse_props_bounds(events: Seq<EventV>, pos: int, acc: Map<Seq<char>, Seq<char>>)
    ensures
        parse_props_from(events, pos, acc) matches Ok(r) ==> pos < r.1 <= events.len(),
    decreases events.len() - pos,
{
    if 0 <= pos < events.len() {
        match events[pos] {
            EventV::Other => lemma_parse_props_bounds(events, pos + 1, acc),
            EventV::End { .. } => lemma_parse_props_bounds(events, pos + 1, acc),
            EventV::Start { name, attrs } => {
                lemma_skip_to_bounds(events, pos + 1, 1);
                match skip_to(events, pos + 1, 1) {
                    None => {},
                    Some(np) => {
                        if name == "property"@ {
                            match prop_of_attrs(attrs) {
                                Err(_) => {},
                                Ok(kv) => lemma_parse_props_bounds(
                                    events,
                                    np,
                                    acc.insert(kv.0, kv.1),
                                ),
                            }
                        } else {
                            lemma_parse_props_bounds(events, np, acc);
                        }
                    },
                }
            },
        }
    }
}

/// Parses the subtree of a "properties" element, whose start tag has just
/// been consumed, into a fresh property bag.
pub fn parse_properties(src: &mut EventStream) -> (r: Result<Properties, Error>)
    ensures
        final(src).events() == old(src).events(),
        match r {
            Ok(p) => p.wf() && parse_props_from(
                old(src).events(),
                old(src).pos(),
                Map::empty(),
            ) == Ok::<_, ErrorV>((p@, final(src).pos())),
            Err(e) => parse_props_from(old(src).events(), old(src).pos(), Map::empty()) == Err::<
                (Map<Seq<char>, Seq<char>>, int),
                _,
            >(e@),
        },
{
    proof {
        lemma_name_literals();
        src.lemma_pos_bound();
    }
    let properties_name: String = "properties".to_owned();
    let property_name: String = "property".to_owned();
    let mut props = Properties::new();
    loop
        invariant
            src.events() == old(src).events(),
            0 <= old(src).pos(),
            props.wf(),
            properties_name@ == "properties"@,
            property_name@ == "property"@,
            parse_props_from(old(src).events(), old(src).pos(), Map::empty()) == parse_props_from(
                old(src).events(),
                src.pos(),
                props@,
            ),
        decreases src.events().len() - src.pos(),
    {
        proof {
            src.lemma_pos_bound();
        }
        let ghost pos_top = src.pos();
        match src.next() {
            None => {
                return Err(Error::StructuralError);
            },
            Some(e) => match e {
                Event::Other => {},
                Event::End { name } => {
                    if name == properties_name {
                        return Ok(props);
                    }
                },
                Event::Start { name, attrs } => {
                    proof {
                        lemma_skip_to_bounds(old(src).events(), pos_top + 1, 1);
                    }
                    if name == property_name {
                        match prop_from_attrs(&attrs) {
                            Err(er) => {
                                return Err(er);
                            },
                            Ok((k, v)) => match skip_subtree(src) {
                                Err(er) => {
                                    return Err(er);
                                },
                                Ok(()) => {
                                    props.insert(k, v);
                                },
                            },
                        }
                    } else {
                        match skip_subtree(src) {
                            Err(er) => {
                                return Err(er);
                            },
                            Ok(()) => {},
                        }
                    }
                },
            },
        }
    }
}

} // verus!
