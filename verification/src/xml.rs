//! The element tree that node descriptions are read from.
//!
//! An `Element` holds what a reader of XML text found: the tag, the
//! attributes in document order, the text directly inside the element and
//! the child elements in document order.

use crate::text::chars_of;
use crate::text::str_eq;
use crate::text::trim_bounds;
use crate::text::trimmed;
use vstd::prelude::*;
use vstd::string::StrSliceExecFns;
use vstd::string::StringExecFns;

verus! {

/// One attribute of an element.
#[derive(Debug)]
pub struct Attribute {
    pub name: String,
    pub value: String,
}

/// One element of a document.
#[derive(Debug)]
pub struct Element {
    pub tag: String,
    pub attributes: Vec<Attribute>,
    pub text: String,
    pub children: Vec<Element>,
}

/// The value of the first attribute called `name`.
pub open spec fn attribute_value(attributes: Seq<Attribute>, name: Seq<char>) -> Option<Seq<char>>
    decreases attributes.len(),
{
    if attributes.len() == 0 {
        None
    } else if attributes[0].name@ == name {
        Some(attributes[0].value@)
    } else {
        attribute_value(attributes.drop_first(), name)
    }
}

/// Whether there is a child at `pos` and its tag is `tag`.
pub open spec fn child_has_tag(children: Seq<Element>, pos: int, tag: Seq<char>) -> bool {
    0 <= pos < children.len() && children[pos].tag@ == tag
}

/// `s` without the blanks at its two ends.
pub fn trim_str(s: &str) -> (t: &str)
    ensures
        t@ == trimmed(s@),
{
    let chars = chars_of(s);
    let (from, to) = trim_bounds(chars.as_slice());
    s.substring_char(from, to)
}

impl Element {
    /// An element with the given tag and nothing in it.
    pub fn new(tag: &str) -> (e: Element)
        ensures
            e.tag@ == tag@,
            e.attributes@.len() == 0,
            e.text@.len() == 0,
            e.children@.len() == 0,
    {
        Element {
            tag: String::from_str(tag),
            attributes: Vec::new(),
            text: String::new(),
            children: Vec::new(),
        }
    }

    /// The element with one more attribute at the end.
    pub fn with_attribute(self, name: &str, value: &str) -> (e: Element)
        ensures
            e.tag == self.tag,
            e.text == self.text,
            e.children == self.children,
            e.attributes@.len() == self.attributes@.len() + 1,
            e.attributes@.drop_last() == self.attributes@,
            e.attributes@.last().name@ == name@,
            e.attributes@.last().value@ == value@,
    {
        let mut e = self;
        e.attributes.push(Attribute { name: String::from_str(name), value: String::from_str(value) });
        e
    }

    /// The element with the given text in place of its own.
    pub fn with_text(self, text: &str) -> (e: Element)
        ensures
            e.tag == self.tag,
            e.attributes == self.attributes,
            e.children == self.children,
            e.text@ == text@,
    {
        let mut e = self;
        e.text = String::from_str(text);
        e
    }

    /// The element with one more child at the end.
    pub fn with_child(self, child: Element) -> (e: Element)
        ensures
            e.tag == self.tag,
            e.attributes == self.attributes,
            e.text == self.text,
            e.children@ == self.children@.push(child),
    {
        let mut e = self;
        e.children.push(child);
        e
    }

    /// Whether the tag of the element is `tag`.
    pub fn has_tag(&self, tag: &str) -> (b: bool)
        ensures
            b == (self.tag@ == tag@),
    {
        str_eq(self.tag.as_str(), tag)
    }

    /// Whether there is a child at `pos` and its tag is `tag`.
    pub fn child_is(&self, pos: usize, tag: &str) -> (b: bool)
        ensures
            b == child_has_tag(self.children@, pos as int, tag@),
            b ==> pos < usize::MAX,
    {
        pos < self.children.len() && self.children[pos].has_tag(tag)
    }

    /// The value of the first attribute called `name`.
    pub fn attribute(&self, name: &str) -> (value: Option<&str>)
        ensures
            match value {
                Some(v) => attribute_value(self.attributes@, name@) == Some(v@),
                None => attribute_value(self.attributes@, name@) is None,
            },
    {
        let mut i: usize = 0;
        assert(self.attributes@.skip(0) =~= self.attributes@);
        while i < self.attributes.len()
            invariant
                i <= self.attributes.len(),
                attribute_value(self.attributes@, name@) == attribute_value(
                    self.attributes@.skip(i as int),
                    name@,
                ),
            decreases self.attributes.len() - i,
        {
            proof {
                assert(self.attributes@.skip(i as int).drop_first() =~= self.attributes@.skip(
                    i + 1,
                ));
            }
            if str_eq(self.attributes[i].name.as_str(), name) {
                return Some(self.attributes[i].value.as_str());
            }
            i = i + 1;
        }
        None
    }

    /// The text of the element without the blanks at its two ends.
    pub fn trimmed_text(&self) -> (t: &str)
        ensures
            t@ == trimmed(self.text@),
    {
        trim_str(self.text.as_str())
    }
}

} // verus!
