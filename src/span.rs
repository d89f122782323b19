use vstd::prelude::*;

verus! {

/// A region of source text, as character offsets `[start, end)`.
#[derive(Clone, Copy, Debug, PartialEq, Eq, Structural)]
pub struct Span {
    pub start: usize,
    pub end: usize,
}

impl Span {
    pub open spec fn new_spec(start: usize, end: usize) -> Span {
        Span { start, end }
    }

    pub open spec fn join_spec(a: Span, b: Span) -> Span {
        Span {
            start: if a.start <= b.start { a.start } else { b.start },
            end: if a.end >= b.end { a.end } else { b.end },
        }
    }

    pub fn new(start: usize, end: usize) -> (r: Span)
        ensures
            r == Span::new_spec(start, end),
    {
        Span { start, end }
    }

    /// A span that covers no source text.
    pub fn dummy() -> (r: Span)
        ensures
            r.start == 0 && r.end == 0,
    {
        Span { start: 0, end: 0 }
    }

    /// The smallest span that covers both `a` and `b`.
    pub fn join(a: Span, b: Span) -> (r: Span)
        ensures
            r == Span::join_spec(a, b),
    {
        let start = if a.start <= b.start { a.start } else { b.start };
        let end = if a.end >= b.end { a.end } else { b.end };
        Span { start, end }
    }
}

/// A name together with the place it was written. Two identifiers are the
/// same name when their texts agree, wherever they were written.
#[derive(Clone, Debug)]
pub struct Ident {
    pub name: String,
    pub span: Span,
}

impl Ident {
    pub fn new(name: String, span: Span) -> (r: Ident)
        ensures
            r.name@ == name@,
            r.span == span,
    {
        Ident { name, span }
    }

    pub fn as_str(&self) -> (r: &str)
        ensures
            r@ == self.name@,
    {
        self.name.as_str()
    }

    pub fn span(&self) -> (r: Span)
        ensures
            r == self.span,
    {
        self.span
    }

    /// Whether two identifiers spell the same name.
    pub fn same_name(&self, other: &Ident) -> (r: bool)
        ensures
            r == (self.name@ == other.name@),
    {
        self.name == other.name
    }

    /// A copy of this identifier.
    pub fn duplicate(&self) -> (r: Ident)
        ensures
            r == *self,
    {
        Ident { name: self.name.clone(), span: self.span }
    }
}

} // verus!
