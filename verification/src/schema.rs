//! A minimal document-schema node: a string scalar, optionally pinned to one
//! literal value. The collaborator walking the document tree hands each
//! scalar's text in; everything else about the tree stays outside the core.

use vstd::prelude::*;

verus! {

/// A schema expecting a string scalar; with a literal, exactly that string.
#[derive(Debug, Clone)]
pub struct YamlSchemaString {
    pub literal: Option<String>,
}

impl YamlSchemaString {
    pub fn new(literal: Option<String>) -> (r: Self)
        ensures
            r.literal == literal,
    {
        Self { literal }
    }

    /// A human-readable description: the pinned literal in quotes, or the
    /// word for the expected kind.
    pub fn get_description(&self) -> (r: String)
        ensures
            self.literal matches Some(l) ==> r@ == "\""@ + l@ + "\""@,
            self.literal is None ==> r@ == "string"@,
    {
        match &self.literal {
            Some(literal) => {
                let mut description = String::from_str("\"");
                description.append(literal.as_str());
                description.append("\"");
                description
            },
            None => String::from_str("string"),
        }
    }

    /// Whether a node satisfies this schema: it must be a scalar (handed in
    /// as its text; a non-scalar node is `None`), and with a pinned literal,
    /// exactly that text.
    pub fn validate(&self, scalar: Option<&str>) -> (r: bool)
        ensures
            r == (scalar matches Some(s) && (self.literal matches Some(l) ==> l@ == s@)),
    {
        match scalar {
            Some(s) => match &self.literal {
                Some(l) => {
                    let owned = s.to_owned();
                    *l == owned
                },
                None => true,
            },
            None => false,
        }
    }
}

} // verus!
