//! Comment harvesting: tells a structured doc block from a plain comment and
//! turns a plain comment into a one-line description.
use vstd::prelude::*;
use crate::text::{chars_of, copy_range, string_of, trim, trim_chars};

verus! {

/// How a comment found before a declaration is treated.
pub enum CommentKind {
    /// The comment opens with `/**`: it is kept as it stands.
    AlreadyFormatted,
    /// Any other comment, with the description drawn from it.
    PlainDescription(String),
}

/// The comment opens with the structured-doc marker `/**`.
pub open spec fn is_doc_block(c: Seq<char>) -> bool {
    c.len() >= 3 && c[0] == '/' && c[1] == '*' && c[2] == '*'
}

/// `s` without the run of `ch` it starts with.
pub open spec fn strip_leading(s: Seq<char>, ch: char) -> Seq<char>
    decreases s.len(),
{
    if s.len() > 0 && s[0] == ch {
        strip_leading(s.drop_first(), ch)
    } else {
        s
    }
}

/// The comment without its delimiters: `/*` and a closing `*/` for a block
/// comment, the leading run of `/` for a line comment.
pub open spec fn strip_delimiters(c: Seq<char>) -> Seq<char> {
    if c.len() >= 2 && c[0] == '/' && c[1] == '*' {
        let body = c.subrange(2, c.len() as int);
        if body.len() >= 2 && body[body.len() - 2] == '*' && body[body.len() - 1] == '/' {
            body.subrange(0, body.len() - 2)
        } else {
            body
        }
    } else {
        strip_leading(c, '/')
    }
}

/// One line of a comment, trimmed and without its leading `*` markers.
pub open spec fn clean_line(line: Seq<char>) -> Seq<char> {
    trim(strip_leading(trim(line), '*'))
}

/// What a line adds to the description: nothing when it is empty or an
/// `@` tag, else the cleaned line.
pub open spec fn line_part(line: Seq<char>) -> Seq<char> {
    let t = clean_line(line);
    if t.len() == 0 || t[0] == '@' {
        Seq::empty()
    } else {
        t
    }
}

/// The description drawn from `rest`, when `line` holds the part of the
/// current line read so far: the parts of all lines, with no separator.
pub open spec fn describe(line: Seq<char>, rest: Seq<char>) -> Seq<char>
    decreases rest.len(),
{
    if rest.len() == 0 {
        line_part(line)
    } else if rest[0] == '\n' {
        line_part(line) + describe(Seq::empty(), rest.drop_first())
    } else {
        describe(line.push(rest[0]), rest.drop_first())
    }
}

/// The description that a plain comment yields.
pub open spec fn description_of(c: Seq<char>) -> Seq<char> {
    describe(Seq::empty(), strip_delimiters(c))
}

/// What the harvester makes of a comment.
pub open spec fn harvest_of(c: Seq<char>) -> Option<Seq<char>> {
    if is_doc_block(c) {
        None
    } else {
        Some(description_of(c))
    }
}

impl CommentKind {
    /// `None` for a doc block, else the description.
    pub open spec fn view(&self) -> Option<Seq<char>> {
        match self {
            CommentKind::AlreadyFormatted => None,
            CommentKind::PlainDescription(d) => Some(d@),
        }
    }
}

/// `s[from..]` without the run of `ch` it starts with.
fn strip_leading_chars(s: &Vec<char>, from: usize, ch: char) -> (r: Vec<char>)
    requires
        from <= s.len(),
    ensures
        r@ == strip_leading(s@.subrange(from as int, s.len() as int), ch),
{
    let mut i: usize = from;
    while i < s.len() && s[i] == ch
        invariant
            from <= i <= s.len(),
            strip_leading(s@.subrange(i as int, s.len() as int), ch) == strip_leading(
                s@.subrange(from as int, s.len() as int),
                ch,
            ),
        decreases s.len() - i,
    {
        assert(s@.subrange(i as int, s.len() as int).drop_first() =~= s@.subrange(
            i + 1,
            s.len() as int,
        ));
        i = i + 1;
    }
    copy_range(s, i, s.len())
}

fn strip_delimiter_chars(c: &Vec<char>) -> (r: Vec<char>)
    ensures
        r@ == strip_delimiters(c@),
{
    if c.len() >= 2 && c[0] == '/' && c[1] == '*' {
        let n = c.len();
        if n >= 4 && c[n - 2] == '*' && c[n - 1] == '/' {
            copy_range(c, 2, n - 2)
        } else {
            copy_range(c, 2, n)
        }
    } else {
        assert(c@.subrange(0, c.len() as int) =~= c@);
        strip_leading_chars(c, 0, '/')
    }
}

fn line_part_chars(line: &Vec<char>) -> (r: Vec<char>)
    ensures
        r@ == line_part(line@),
{
    let t = trim_chars(line);
    assert(t@.subrange(0, t.len() as int) =~= t@);
    let s = strip_leading_chars(&t, 0, '*');
    let u = trim_chars(&s);
    if u.len() == 0 || u[0] == '@' {
        Vec::new()
    } else {
        u
    }
}

/// Strips the comment markers from a plain comment (one that is no doc
/// block) and joins what is left of its
/// lines into one description: each line is trimmed and loses its leading
/// `*` markers; empty lines and `@` tag lines are dropped.
pub fn parse_comment(comment: &str) -> (r: String)
    requires
        !is_doc_block(comment@),
    ensures
        r@ == description_of(comment@),
{
    let c = chars_of(comment);
    let body = strip_delimiter_chars(&c);
    let mut out: Vec<char> = Vec::new();
    let mut line: Vec<char> = Vec::new();
    let mut i: usize = 0;
    assert(body@.subrange(0, body.len() as int) =~= body@);
    while i < body.len()
        invariant
            i <= body.len(),
            out@ + describe(line@, body@.subrange(i as int, body.len() as int)) == description_of(
                comment@,
            ),
            body@ == strip_delimiters(comment@),
            c@ == comment@,
        decreases body.len() - i,
    {
        let ghost rest = body@.subrange(i as int, body.len() as int);
        assert(rest.drop_first() =~= body@.subrange(i + 1, body.len() as int));
        if body[i] == '\n' {
            let part = line_part_chars(&line);
            let mut part_mut = part;
            let ghost before = out@;
            out.append(&mut part_mut);
            assert(out@ == before + line_part(line@));
            assert(out@ + describe(Seq::empty(), rest.drop_first()) =~= before + (line_part(line@)
                + describe(Seq::empty(), rest.drop_first())));
            line = Vec::new();
        } else {
            line.push(body[i]);
        }
        i = i + 1;
    }
    let part = line_part_chars(&line);
    let mut part_mut = part;
    out.append(&mut part_mut);
    string_of(&out)
}

/// Sorts a comment: a doc block is kept as it stands, any other comment
/// gives its description.
pub fn harvest_comment(comment: &str) -> (r: CommentKind)
    ensures
        r@ == harvest_of(comment@),
{
    let c = chars_of(comment);
    if c.len() >= 3 && c[0] == '/' && c[1] == '*' && c[2] == '*' {
        CommentKind::AlreadyFormatted
    } else {
        CommentKind::PlainDescription(parse_comment(comment))
    }
}

} // verus!
