//! The doc block builder: renders an opening marker, a description, a blank
//! separator, parameter and return tags and a closing marker, each line after
//! the first prefixed with the indentation of the declaration.
use vstd::prelude::*;
use vstd::string::StringExecFns;
use crate::text::opt_chars;

verus! {

/// `/**` and a line break.
pub open spec fn opening() -> Seq<char> {
    seq!['/', '*', '*', '\n']
}

/// ` * `, the start of every inner line after the indentation.
pub open spec fn star() -> Seq<char> {
    seq![' ', '*', ' ']
}

pub open spec fn newline() -> Seq<char> {
    seq!['\n']
}

/// The description line.
pub open spec fn description_line(indent: Seq<char>, description: Seq<char>) -> Seq<char> {
    indent + star() + description + newline()
}

/// The blank separator line.
pub open spec fn space_line(indent: Seq<char>) -> Seq<char> {
    indent + seq![' ', '*', '\n']
}

/// The type shown in a tag: the declared one, or `unknown`.
pub open spec fn type_text(declared: Option<Seq<char>>) -> Seq<char> {
    match declared {
        Some(t) => t,
        None => unknown(),
    }
}

pub open spec fn unknown() -> Seq<char> {
    seq!['u', 'n', 'k', 'n', 'o', 'w', 'n']
}

/// `name`, `name="default"`, `[name]` or `[name="default"]`.
pub open spec fn rendered_name(name: Seq<char>, optional: bool, default: Option<Seq<char>>) -> Seq<
    char,
> {
    let inner = match default {
        Some(d) => name + seq!['=', '"'] + d + seq!['"'],
        None => name,
    };
    if optional {
        seq!['['] + inner + seq![']']
    } else {
        inner
    }
}

/// `@param {type} name - description`, without indentation or line break.
pub open spec fn param_tag(
    name: Seq<char>,
    declared: Option<Seq<char>>,
    optional: bool,
    default: Option<Seq<char>>,
    description: Seq<char>,
) -> Seq<char> {
    seq!['@', 'p', 'a', 'r', 'a', 'm', ' ', '{'] + type_text(declared) + seq!['}', ' ']
        + rendered_name(name, optional, default) + seq![' ', '-', ' '] + description
}

/// `@returns {type} description`, without indentation or line break.
pub open spec fn returns_tag(return_type: Seq<char>, description: Seq<char>) -> Seq<char> {
    seq!['@', 'r', 'e', 't', 'u', 'r', 'n', 's', ' ', '{'] + return_type + seq!['}', ' ']
        + description
}

/// A tag line: indentation, ` * `, the tag, a line break.
pub open spec fn tag_line(indent: Seq<char>, tag: Seq<char>) -> Seq<char> {
    indent + star() + tag + newline()
}

/// The closing marker line, without a line break.
pub open spec fn closing(indent: Seq<char>) -> Seq<char> {
    indent + seq![' ', '*', '/']
}

/// A doc block under construction.
#[derive(Debug)]
pub struct JsDoc {
    indentation: String,
    formatted: String,
}

impl JsDoc {
    /// The indentation given at creation.
    pub closed spec fn indentation(&self) -> Seq<char> {
        self.indentation@
    }

    /// The text rendered so far.
    pub closed spec fn formatted(&self) -> Seq<char> {
        self.formatted@
    }

    /// A block that holds only its opening marker line.
    pub fn new(indentation: &str) -> (r: JsDoc)
        ensures
            r.indentation() == indentation@,
            r.formatted() == opening(),
    {
        proof {
            reveal_strlit("/**\n");
        }
        JsDoc { indentation: indentation.to_owned(), formatted: "/**\n".to_owned() }
    }

    /// Appends the closing marker and returns the whole block.
    pub fn build(&mut self) -> (r: String)
        ensures
            r@ == old(self).formatted() + closing(old(self).indentation()),
            final(self).formatted() == r@,
            final(self).indentation() == old(self).indentation(),
    {
        proof {
            reveal_strlit(" */");
        }
        self.formatted.append(self.indentation.as_str());
        self.formatted.append(" */");
        assert(self.formatted@ =~= old(self).formatted() + closing(old(self).indentation()));
        self.formatted.clone()
    }

    /// Appends the description line.
    pub fn add_description(&mut self, description: &str) -> (r: &mut JsDoc)
        ensures
            r.formatted() == old(self).formatted() + description_line(
                old(self).indentation(),
                description@,
            ),
            r.indentation() == old(self).indentation(),
            *final(self) == *final(r),
    {
        proof {
            reveal_strlit(" * ");
            reveal_strlit("\n");
        }
        self.formatted.append(self.indentation.as_str());
        self.formatted.append(" * ");
        self.formatted.append(description);
        self.formatted.append("\n");
        assert(self.formatted@ =~= old(self).formatted() + description_line(
            old(self).indentation(),
            description@,
        ));
        self
    }

    /// Appends the blank separator line.
    pub fn add_space(&mut self) -> (r: &mut JsDoc)
        ensures
            r.formatted() == old(self).formatted() + space_line(old(self).indentation()),
            r.indentation() == old(self).indentation(),
            *final(self) == *final(r),
    {
        proof {
            reveal_strlit(" *\n");
        }
        self.formatted.append(self.indentation.as_str());
        self.formatted.append(" *\n");
        assert(self.formatted@ =~= old(self).formatted() + space_line(old(self).indentation()));
        self
    }

    /// Appends a parameter tag line. The type shows as `unknown` when none is
    /// given; an optional name is bracketed; a default is shown as
    /// `name="default"`.
    pub fn add_param(
        &mut self,
        param: &str,
        param_type: Option<String>,
        optional: bool,
        default: Option<String>,
        description: &str,
    ) -> (r: &mut JsDoc)
        ensures
            r.formatted() == old(self).formatted() + tag_line(
                old(self).indentation(),
                param_tag(param@, opt_chars(param_type), optional, opt_chars(default), description@),
            ),
            r.indentation() == old(self).indentation(),
            *final(self) == *final(r),
    {
        proof {
            reveal_strlit(" * ");
            reveal_strlit("@param {");
            reveal_strlit("unknown");
            reveal_strlit("} ");
            reveal_strlit("[");
            reveal_strlit("]");
            reveal_strlit("=\"");
            reveal_strlit("\"");
            reveal_strlit(" - ");
            reveal_strlit("\n");
        }
        let ghost declared = opt_chars(param_type);
        let ghost dflt = opt_chars(default);
        let ghost start = self.formatted@;
        self.formatted.append(self.indentation.as_str());
        self.formatted.append(" * ");
        self.formatted.append("@param {");
        match &param_type {
            Some(t) => self.formatted.append(t.as_str()),
            None => self.formatted.append("unknown"),
        }
        self.formatted.append("} ");
        let ghost before_name = self.formatted@;
        if optional {
            self.formatted.append("[");
        }
        self.formatted.append(param);
        match &default {
            Some(d) => {
                self.formatted.append("=\"");
                self.formatted.append(d.as_str());
                self.formatted.append("\"");
            },
            None => {},
        }
        if optional {
            self.formatted.append("]");
        }
        assert(self.formatted@ =~= before_name + rendered_name(param@, optional, dflt));
        self.formatted.append(" - ");
        self.formatted.append(description);
        self.formatted.append("\n");
        assert(self.formatted@ =~= start + tag_line(
            old(self).indentation(),
            param_tag(param@, declared, optional, dflt, description@),
        ));
        self
    }

    /// Appends the return tag line.
    pub fn add_return(&mut self, return_type: &str, description: &str) -> (r: &mut JsDoc)
        ensures
            r.formatted() == old(self).formatted() + tag_line(
                old(self).indentation(),
                returns_tag(return_type@, description@),
            ),
            r.indentation() == old(self).indentation(),
            *final(self) == *final(r),
    {
        proof {
            reveal_strlit(" * ");
            reveal_strlit("@returns {");
            reveal_strlit("} ");
            reveal_strlit("\n");
        }
        self.formatted.append(self.indentation.as_str());
        self.formatted.append(" * ");
        self.formatted.append("@returns {");
        self.formatted.append(return_type);
        self.formatted.append("} ");
        self.formatted.append(description);
        self.formatted.append("\n");
        assert(self.formatted@ =~= old(self).formatted() + tag_line(
            old(self).indentation(),
            returns_tag(return_type@, description@),
        ));
        self
    }
}

} // verus!
