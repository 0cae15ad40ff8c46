//! A small string buffer for writing HTML: open and close tags, quoted
//! attributes, and escaped text. Escaping goes through the html-escape crate.

use vstd::prelude::*;
use vstd::string::StringExecFns;
use crate::outside::{escape_text, escape_attr, escaped_text, escaped_attr};

verus! {

/// The two characters opening a tag whose attributes follow.
pub open spec fn tag_open_prefix(tag: Seq<char>) -> Seq<char> {
    "<"@ + tag
}

/// A complete open tag with no attributes.
pub open spec fn otag(tag: Seq<char>) -> Seq<char> {
    "<"@ + tag + ">"@
}

/// A close tag.
pub open spec fn ctag(tag: Seq<char>) -> Seq<char> {
    "</"@ + tag + ">"@
}

/// One double-quoted attribute, its value escaped.
pub open spec fn sattr(name: Seq<char>, value: Seq<char>) -> Seq<char> {
    " "@ + name + "=\""@ + escaped_attr(value) + "\""@
}

/// A buffer for writing HTML into.
#[derive(Debug)]
pub struct Buffer {
    pub out: String,
}

impl Buffer {
    /// Creates a new empty buffer.
    pub fn new() -> (r: Buffer)
        ensures
            r.out@ == Seq::<char>::empty(),
    {
        Buffer { out: String::new() }
    }

    /// Returns the buffer's contents.
    pub fn finish(self) -> (r: String)
        ensures
            r@ == self.out@,
    {
        self.out
    }

    /// Writes an open tag without closing its bracket, so attributes can
    /// follow.
    pub fn open_partial(&mut self, tag: &str)
        ensures
            final(self).out@ == old(self).out@ + tag_open_prefix(tag@),
    {
        self.out.append("<");
        self.out.append(tag);
        proof {
            assert(self.out@ =~= old(self).out@ + tag_open_prefix(tag@));
        }
    }

    /// Closes the bracket of an open tag.
    pub fn seal(&mut self)
        ensures
            final(self).out@ == old(self).out@ + ">"@,
    {
        self.out.append(">");
    }

    /// Closes the bracket of a void tag.
    pub fn seal_void(&mut self)
        ensures
            final(self).out@ == old(self).out@ + " />"@,
    {
        self.out.append(" />");
    }

    /// Writes a complete open tag with no attributes.
    pub fn open(&mut self, tag: &str)
        ensures
            final(self).out@ == old(self).out@ + otag(tag@),
    {
        self.open_partial(tag);
        self.seal();
        proof {
            assert(self.out@ =~= old(self).out@ + otag(tag@));
        }
    }

    /// Writes one double-quoted attribute; the value is escaped.
    pub fn attr(&mut self, name: &str, value: &str)
        ensures
            final(self).out@ == old(self).out@ + sattr(name@, value@),
    {
        self.out.append(" ");
        self.out.append(name);
        self.out.append("=\"");
        let escaped = escape_attr(value);
        self.out.append(escaped.as_str());
        self.out.append("\"");
        proof {
            assert(self.out@ =~= old(self).out@ + sattr(name@, value@));
        }
    }

    /// Writes text content, escaped for an HTML text context.
    pub fn text(&mut self, content: &str)
        ensures
            final(self).out@ == old(self).out@ + escaped_text(content@),
    {
        let escaped = escape_text(content);
        self.out.append(escaped.as_str());
    }

    /// Writes a close tag.
    pub fn close(&mut self, tag: &str)
        ensures
            final(self).out@ == old(self).out@ + ctag(tag@),
    {
        self.out.append("</");
        self.out.append(tag);
        self.out.append(">");
        proof {
            assert(self.out@ =~= old(self).out@ + ctag(tag@));
        }
    }
}

} // verus!
