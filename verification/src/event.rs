//! The lexical HTML events that drive the builder: start tags with their
//! attribute lists, end tags, and character data. An external tokenizer
//! produces these; the builder and the renderer only ever see this type.

use vstd::prelude::*;

verus! {

/// One attribute of a start tag.
#[derive(Clone, Debug, PartialEq, Eq)]
pub struct Attribute {
    pub name: String,
    pub value: String,
}

/// View of one attribute.
pub struct AttrV {
    pub name: Seq<char>,
    pub value: Seq<char>,
}

impl View for Attribute {
    type V = AttrV;

    open spec fn view(&self) -> AttrV {
        AttrV { name: self.name@, value: self.value@ }
    }
}

/// View of an attribute list.
pub open spec fn attrs_v(s: Seq<Attribute>) -> Seq<AttrV>
    decreases s,
{
    if s.len() == 0 {
        Seq::empty()
    } else {
        attrs_v(s.drop_last()).push(s.last()@)
    }
}

pub proof fn lemma_attrs_v_push(s: Seq<Attribute>, x: Attribute)
    ensures
        attrs_v(s.push(x)) == attrs_v(s).push(x@),
{
    assert(s.push(x).drop_last() =~= s);
    assert(s.push(x).last() == x);
}

pub proof fn lemma_attrs_v_props(s: Seq<Attribute>)
    ensures
        attrs_v(s).len() == s.len(),
        forall|i: int| 0 <= i < s.len() ==> attrs_v(s)[i] == (#[trigger] s[i])@,
    decreases s.len(),
{
    if s.len() > 0 {
        lemma_attrs_v_props(s.drop_last());
        assert forall|i: int| 0 <= i < s.len() implies attrs_v(s)[i] == s[i]@ by {
            if i < s.len() - 1 {
                assert(s.drop_last()[i] == s[i]);
            } else {
                assert(s[i] == s.last());
            }
        }
    }
}

/// One lexical HTML event.
#[derive(Clone, Debug, PartialEq, Eq)]
pub enum HtmlEvent {
    StartTag { name: String, attrs: Vec<Attribute>, self_closing: bool },
    EndTag { name: String },
    Characters(String),
}

/// View of one lexical HTML event.
pub enum EventV {
    Start { name: Seq<char>, attrs: Seq<AttrV>, self_closing: bool },
    End { name: Seq<char> },
    Chars(Seq<char>),
}

impl View for HtmlEvent {
    type V = EventV;

    open spec fn view(&self) -> EventV {
        match self {
            HtmlEvent::StartTag { name, attrs, self_closing } => EventV::Start {
                name: name@,
                attrs: attrs_v(attrs@),
                self_closing: *self_closing,
            },
            HtmlEvent::EndTag { name } => EventV::End { name: name@ },
            HtmlEvent::Characters(t) => EventV::Chars(t@),
        }
    }
}

impl DeepView for HtmlEvent {
    type V = EventV;

    open spec fn deep_view(&self) -> EventV {
        self.view()
    }
}

/// The value of the first attribute with the given name, if any.
pub open spec fn attr_get(s: Seq<AttrV>, key: Seq<char>) -> Option<Seq<char>>
    decreases s.len(),
{
    if s.len() == 0 {
        Option::None
    } else if s[0].name == key {
        Option::Some(s[0].value)
    } else {
        attr_get(s.subrange(1, s.len() as int), key)
    }
}

proof fn lemma_attr_get_from_scan(s: Seq<AttrV>, key: Seq<char>, i: int)
    requires
        0 <= i <= s.len(),
        forall|j: int| 0 <= j < i ==> (#[trigger] s[j]).name != key,
        i < s.len() ==> s[i].name == key,
    ensures
        i < s.len() ==> attr_get(s, key) == Option::Some(s[i].value),
        i == s.len() ==> attr_get(s, key) is None,
    decreases s.len(),
{
    if s.len() == 0 {
    } else if s[0].name == key {
        assert(i == 0);
    } else {
        let t = s.subrange(1, s.len() as int);
        assert(forall|j: int| 0 <= j < t.len() ==> #[trigger] t[j] == s[j + 1]);
        lemma_attr_get_from_scan(t, key, i - 1);
    }
}

/// Looks up the first attribute with the given name and copies its value.
pub fn get_attr(attrs: &Vec<Attribute>, key: &str) -> (r: Option<String>)
    ensures
        crate::model::opt_str_v(r) == attr_get(attrs_v(attrs@), key@),
{
    proof {
        lemma_attrs_v_props(attrs@);
    }
    let ghost sv = attrs_v(attrs@);
    let mut i: usize = 0;
    while i < attrs.len()
        invariant
            0 <= i <= attrs.len(),
            sv == attrs_v(attrs@),
            sv.len() == attrs@.len(),
            forall|j: int| 0 <= j < attrs@.len() ==> sv[j] == (#[trigger] attrs@[j])@,
            forall|j: int| 0 <= j < i ==> (#[trigger] sv[j]).name != key@,
        decreases attrs.len() - i,
    {
        if crate::text::str_eq(attrs[i].name.as_str(), key) {
            proof {
                lemma_attr_get_from_scan(sv, key@, i as int);
            }
            return Option::Some(attrs[i].value.clone());
        }
        i += 1;
    }
    proof {
        lemma_attr_get_from_scan(sv, key@, i as int);
    }
    Option::None
}

/// Whether an attribute with the given name is present.
pub fn has_attr(attrs: &Vec<Attribute>, key: &str) -> (r: bool)
    ensures
        r == (attr_get(attrs_v(attrs@), key@) is Some),
{
    let got = get_attr(attrs, key);
    match got {
        Option::Some(_) => true,
        Option::None => false,
    }
}

} // verus!
