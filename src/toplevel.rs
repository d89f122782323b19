//! Top-level statements: an item with the attributes written above it.
use vstd::prelude::*;

use crate::span::{Ident, Span};
use crate::fmt::skip_ws_from;
use crate::text::{chars_of, is_whitespace, is_ws, string_of};

verus! {

/// Something written between `[` and `]`.
#[derive(Clone, Debug)]
pub struct SquareBrackets<T> {
    pub inner: T,
    pub span: Span,
}

impl<T> SquareBrackets<T> {
    pub fn get(&self) -> (r: &T)
        ensures
            *r == self.inner,
    {
        &self.inner
    }
}

/// Something written between `(` and `)`.
#[derive(Clone, Debug)]
pub struct Parens<T> {
    pub inner: T,
    pub span: Span,
}

impl<T> Parens<T> {
    pub fn get(&self) -> (r: &T)
        ensures
            *r == self.inner,
    {
        &self.inner
    }
}

/// `name` or `name(arg, ...)`.
#[derive(Clone, Debug)]
pub struct Attribute {
    pub name: Ident,
    pub args: Option<Parens<Vec<Ident>>>,
}

/// `#[attribute]`, with the span of the whole.
#[derive(Clone, Debug)]
pub struct AttributeDecl {
    pub attribute: SquareBrackets<Attribute>,
    pub span: Span,
}

impl AttributeDecl {
    pub fn span(&self) -> (r: Span)
        ensures
            r == self.span,
    {
        self.span
    }
}

/// An item's name, if its kind has one, and its span.
#[derive(Clone, Debug)]
pub struct ItemDecl {
    pub name: Option<Ident>,
    pub span: Span,
}

#[derive(Clone, Debug)]
pub enum Item {
    Fn(ItemDecl),
    Struct(ItemDecl),
    Enum(ItemDecl),
    Trait(ItemDecl),
    Abi(ItemDecl),
    Impl(ItemDecl),
    Const(ItemDecl),
    Storage(ItemDecl),
}

pub open spec fn item_decl(item: Item) -> ItemDecl {
    match item {
        Item::Fn(d) => d,
        Item::Struct(d) => d,
        Item::Enum(d) => d,
        Item::Trait(d) => d,
        Item::Abi(d) => d,
        Item::Impl(d) => d,
        Item::Const(d) => d,
        Item::Storage(d) => d,
    }
}

/// The keyword that introduces each kind of item.
pub open spec fn item_keyword(item: Item) -> Seq<char> {
    match item {
        Item::Fn(_) => "fn"@,
        Item::Struct(_) => "struct"@,
        Item::Enum(_) => "enum"@,
        Item::Trait(_) => "trait"@,
        Item::Abi(_) => "abi"@,
        Item::Impl(_) => "impl"@,
        Item::Const(_) => "const"@,
        Item::Storage(_) => "storage"@,
    }
}

impl Item {
    pub fn span(&self) -> (r: Span)
        ensures
            r == item_decl(*self).span,
    {
        match self {
            Item::Fn(d) | Item::Struct(d) | Item::Enum(d) | Item::Trait(d) | Item::Abi(d)
            | Item::Impl(d) | Item::Const(d) | Item::Storage(d) => d.span,
        }
    }
}

pub struct TopLevelStatement {
    pub attribute_list: Vec<AttributeDecl>,
    pub item: Item,
}

impl TopLevelStatement {
    /// From the first attribute, if any, to the end of the item.
    pub fn span(&self) -> (r: Span)
        ensures
            self.attribute_list@.len() == 0 ==> r == item_decl(self.item).span,
            self.attribute_list@.len() > 0 ==> r == Span::join_spec(
                self.attribute_list@[0].span,
                item_decl(self.item).span,
            ),
    {
        if self.attribute_list.len() == 0 {
            self.item.span()
        } else {
            Span::join(self.attribute_list[0].span(), self.item.span())
        }
    }
}

#[derive(Clone, Copy, Debug, PartialEq, Eq, Structural)]
pub enum ParseErrorKind {
    ExpectedOpenBracket,
    ExpectedCloseBracket,
    ExpectedIdent,
    ExpectedCloseParen,
    UnknownItem,
    UnclosedItem,
}

/// Where parsing stopped, and what it expected there.
#[derive(Clone, Copy, Debug, PartialEq, Eq, Structural)]
pub struct ParseError {
    pub position: usize,
    pub kind: ParseErrorKind,
}

pub open spec fn ident_start(c: char) -> bool {
    ('a' <= c && c <= 'z') || ('A' <= c && c <= 'Z') || c == '_'
}

pub open spec fn ident_char(c: char) -> bool {
    ident_start(c) || ('0' <= c && c <= '9')
}

pub open spec fn is_ident_text(t: Seq<char>) -> bool {
    t.len() > 0 && ident_start(t[0]) && forall|i: int| 0 <= i < t.len() ==> ident_char(#[trigger] t[i])
}

/// `id` is an identifier written in `src` at its own span.
pub open spec fn ident_in(src: Seq<char>, id: Ident) -> bool {
    &&& id.span.start <= id.span.end <= src.len()
    &&& id.name@ == src.subrange(id.span.start as int, id.span.end as int)
    &&& is_ident_text(id.name@)
}

/// `a` is an attribute written in `src` at its own span: `#` first, `]`
/// last, its name and arguments identifiers written where their spans say.
pub open spec fn attribute_in(src: Seq<char>, a: AttributeDecl) -> bool {
    &&& a.span.start < a.span.end <= src.len()
    &&& src[a.span.start as int] == '#'
    &&& src[a.span.end - 1] == ']'
    &&& a.attribute.span.end == a.span.end
    &&& ident_in(src, a.attribute.inner.name)
    &&& a.span.start < a.attribute.inner.name.span.start
    &&& a.attribute.inner.name.span.end < a.span.end
    &&& match a.attribute.inner.args {
        Some(p) => forall|i: int|
            0 <= i < p.inner@.len() ==> ident_in(src, #[trigger] p.inner@[i]),
        None => true,
    }
}

/// `item` is written in `src` at its span: it starts with its keyword and
/// ends with `}` or `;`.
pub open spec fn item_in(src: Seq<char>, item: Item) -> bool {
    let d = item_decl(item);
    let kw = item_keyword(item);
    &&& d.span.start + kw.len() <= d.span.end <= src.len()
    &&& src.subrange(d.span.start as int, d.span.start + kw.len()) == kw
    &&& (src[d.span.end - 1] == '}' || src[d.span.end - 1] == ';')
    &&& (d.name matches Some(n) ==> ident_in(src, n))
}

// ---------------------------------------------------------------------------
// The grammar, over character positions
// ---------------------------------------------------------------------------

pub open spec fn ident_end(s: Seq<char>, p: nat) -> nat
    decreases s.len() - p,
{
    if p < s.len() && ident_char(s[p as int]) {
        ident_end(s, p + 1)
    } else {
        p
    }
}

/// The end of the identifier that starts at `p`, if one does.
pub open spec fn ident_at(s: Seq<char>, p: nat) -> Option<nat> {
    if p < s.len() && ident_start(s[p as int]) {
        Some(ident_end(s, p + 1))
    } else {
        None
    }
}

/// Arguments from the identifier expected at `p`, after those in `acc`:
/// their spans and the position after the closing `)`.
pub open spec fn args_from(s: Seq<char>, p: nat, acc: Seq<(nat, nat)>) -> Option<(Seq<(nat, nat)>, nat)>
    decreases s.len() - p,
{
    match ident_at(s, p) {
        None => None,
        Some(e) => {
            let acc2 = acc.push((p, e));
            let j = skip_ws_from(s, e);
            if j < s.len() && s[j as int] == ')' {
                Some((acc2, j + 1))
            } else if j < s.len() && s[j as int] == ',' {
                let i = skip_ws_from(s, j + 1);
                if i < s.len() && s[i as int] == ')' {
                    Some((acc2, i + 1))
                } else if p < i <= s.len() {
                    args_from(s, i, acc2)
                } else {
                    None
                }
            } else {
                None
            }
        },
    }
}

/// The argument list whose `(` is at `p`.
pub open spec fn args_spec(s: Seq<char>, p: nat) -> Option<(Seq<(nat, nat)>, nat)> {
    let i = skip_ws_from(s, p + 1);
    if i < s.len() && s[i as int] == ')' {
        Some((Seq::empty(), i + 1))
    } else {
        args_from(s, i, Seq::empty())
    }
}

/// An attribute as positions: where it starts, its name's span, its
/// arguments' spans if it has parentheses, and where it ends.
pub type AttrModel = (nat, (nat, nat), Option<Seq<(nat, nat)>>, nat);

/// The attribute whose `#` is at `p`: `#`, `[`, a name, optionally an
/// argument list, `]`, with white space allowed between them.
pub open spec fn attr_spec(s: Seq<char>, p: nat) -> Option<AttrModel> {
    let b = skip_ws_from(s, p + 1);
    if !(b < s.len() && s[b as int] == '[') {
        None
    } else {
        let i = skip_ws_from(s, b + 1);
        match ident_at(s, i) {
            None => None,
            Some(e) => {
                let j = skip_ws_from(s, e);
                if j < s.len() && s[j as int] == '(' {
                    match args_spec(s, j) {
                        None => None,
                        Some((a, k)) => {
                            let j2 = skip_ws_from(s, k);
                            if j2 < s.len() && s[j2 as int] == ']' {
                                Some((p, (i, e), Some(a), j2 + 1))
                            } else {
                                None
                            }
                        },
                    }
                } else if j < s.len() && s[j as int] == ']' {
                    Some((p, (i, e), None, j + 1))
                } else {
                    None
                }
            },
        }
    }
}

/// The attributes from `p` (white space already skipped), and where the
/// item after them starts.
pub open spec fn attrs_spec(s: Seq<char>, p: nat) -> Option<(Seq<AttrModel>, nat)>
    decreases s.len() - p,
{
    if p < s.len() && s[p as int] == '#' {
        match attr_spec(s, p) {
            None => None,
            Some(a) => {
                let q = skip_ws_from(s, a.3);
                if p < q <= s.len() {
                    match attrs_spec(s, q) {
                        None => None,
                        Some((rest, r)) => Some((seq![a] + rest, r)),
                    }
                } else {
                    None
                }
            },
        }
    } else {
        Some((Seq::empty(), p))
    }
}

/// Where the item body from `p` ends, at brace depth `depth`.
pub open spec fn item_end_spec(s: Seq<char>, p: nat, depth: nat) -> Option<nat>
    decreases s.len() - p,
{
    if p >= s.len() {
        None
    } else {
        let c = s[p as int];
        if c == '{' {
            item_end_spec(s, p + 1, depth + 1)
        } else if c == '}' {
            if depth <= 1 {
                Some(p + 1)
            } else {
                item_end_spec(s, p + 1, (depth - 1) as nat)
            }
        } else if c == ';' && depth == 0 {
            Some(p + 1)
        } else {
            item_end_spec(s, p + 1, depth)
        }
    }
}

pub open spec fn is_item_keyword(kw: Seq<char>) -> bool {
    kw == "fn"@ || kw == "struct"@ || kw == "enum"@ || kw == "trait"@ || kw == "abi"@ || kw == "impl"@
        || kw == "const"@ || kw == "storage"@
}

/// The item at `p`: where its keyword ends, its name's span if its kind
/// has one, and where it ends.
pub open spec fn item_spec(s: Seq<char>, p: nat) -> Option<(nat, Option<(nat, nat)>, nat)> {
    match ident_at(s, p) {
        None => None,
        Some(k) => {
            let kw = s.subrange(p as int, k as int);
            if !is_item_keyword(kw) {
                None
            } else if kw == "impl"@ || kw == "storage"@ {
                match item_end_spec(s, k, 0) {
                    None => None,
                    Some(end) => Some((k, None, end)),
                }
            } else {
                let i = skip_ws_from(s, k);
                match ident_at(s, i) {
                    None => None,
                    Some(e) => match item_end_spec(s, e, 0) {
                        None => None,
                        Some(end) => Some((k, Some((i, e)), end)),
                    },
                }
            }
        },
    }
}

/// A whole top-level statement: its attributes, where its item starts, and
/// the item.
pub open spec fn top_spec(s: Seq<char>) -> Option<(Seq<AttrModel>, nat, (nat, Option<(nat, nat)>, nat))> {
    match attrs_spec(s, skip_ws_from(s, 0)) {
        None => None,
        Some((attrs, p)) => match item_spec(s, p) {
            None => None,
            Some(it) => Some((attrs, p, it)),
        },
    }
}

pub open spec fn span_pair(id: Ident) -> (nat, nat) {
    (id.span.start as nat, id.span.end as nat)
}

pub open spec fn span_pairs(ids: Seq<Ident>) -> Seq<(nat, nat)> {
    ids.map_values(|id: Ident| span_pair(id))
}

pub open spec fn attr_model(a: AttributeDecl) -> AttrModel {
    (
        a.span.start as nat,
        span_pair(a.attribute.inner.name),
        match a.attribute.inner.args {
            Some(p) => Some(span_pairs(p.inner@)),
            None => None,
        },
        a.span.end as nat,
    )
}

pub open spec fn attr_models(v: Seq<AttributeDecl>) -> Seq<AttrModel> {
    v.map_values(|a: AttributeDecl| attr_model(a))
}

pub open spec fn name_model(n: Option<Ident>) -> Option<(nat, nat)> {
    match n {
        Some(id) => Some(span_pair(id)),
        None => None,
    }
}

// ---------------------------------------------------------------------------
// The parser
// ---------------------------------------------------------------------------

fn skip_ws(cs: &Vec<char>, p: usize) -> (r: usize)
    requires
        p <= cs@.len(),
    ensures
        r as nat == skip_ws_from(cs@, p as nat),
        p <= r <= cs@.len(),
{
    let mut i = p;
    while i < cs.len() && is_whitespace(cs[i])
        invariant
            p <= i <= cs@.len(),
            skip_ws_from(cs@, i as nat) == skip_ws_from(cs@, p as nat),
        decreases cs@.len() - i,
    {
        i = i + 1;
    }
    i
}

fn is_ident_start(c: char) -> (r: bool)
    ensures
        r == ident_start(c),
{
    ('a' <= c && c <= 'z') || ('A' <= c && c <= 'Z') || c == '_'
}

fn is_ident_char(c: char) -> (r: bool)
    ensures
        r == ident_char(c),
{
    is_ident_start(c) || ('0' <= c && c <= '9')
}

/// The identifier that starts at `p`, and the position after it.
fn parse_ident(cs: &Vec<char>, p: usize) -> (r: Result<(Ident, usize), ParseError>)
    requires
        p <= cs@.len(),
    ensures
        match ident_at(cs@, p as nat) {
            None => r is Err,
            Some(e) => r matches Ok((id, e2)) && e2 as nat == e && ident_in(cs@, id) && id.span.start
                == p && id.span.end == e2 && e2 <= cs@.len(),
        },
{
    if p >= cs.len() || !is_ident_start(cs[p]) {
        return Err(ParseError { position: p, kind: ParseErrorKind::ExpectedIdent });
    }
    let mut e = p + 1;
    while e < cs.len() && is_ident_char(cs[e])
        invariant
            p < e <= cs@.len(),
            ident_start(cs@[p as int]),
            forall|k: int| p <= k < e ==> ident_char(#[trigger] cs@[k]),
            ident_end(cs@, e as nat) == ident_end(cs@, p as nat + 1),
        decreases cs@.len() - e,
    {
        e = e + 1;
    }
    let name = string_of(cs, p, e);
    proof {
        assert forall|i: int| 0 <= i < name@.len() implies ident_char(#[trigger] name@[i]) by {
            assert(name@[i] == cs@[p + i]);
        }
    }
    Ok((Ident::new(name, Span::new(p, e)), e))
}

/// The parenthesised argument list that starts at `p` (on its `(`).
fn parse_args(cs: &Vec<char>, p: usize) -> (r: Result<(Parens<Vec<Ident>>, usize), ParseError>)
    requires
        p < cs@.len(),
        cs@[p as int] == '(',
    ensures
        match args_spec(cs@, p as nat) {
            None => r is Err,
            Some((a, k)) => r matches Ok((args, e)) && e as nat == k && span_pairs(args.inner@) == a
                && args.span == Span::new_spec(p, e) && p < e <= cs@.len() && forall|i: int|
                0 <= i < args.inner@.len() ==> ident_in(cs@, #[trigger] args.inner@[i]),
        },
{
    let mut args: Vec<Ident> = Vec::new();
    let n = cs.len();
    let mut i = skip_ws(cs, if p < n { p + 1 } else { p });
    if i < cs.len() && cs[i] == ')' {
        assert(span_pairs(args@) =~= Seq::<(nat, nat)>::empty());
        return Ok((Parens { inner: args, span: Span::new(p, i + 1) }, i + 1));
    }
    assert(span_pairs(args@) =~= Seq::<(nat, nat)>::empty());
    loop
        invariant
            p < i <= cs@.len(),
            args_spec(cs@, p as nat) == args_from(cs@, i as nat, span_pairs(args@)),
            forall|k: int| 0 <= k < args@.len() ==> ident_in(cs@, #[trigger] args@[k]),
        decreases cs@.len() - i,
    {
        let ghost acc = span_pairs(args@);
        let (id, e) = match parse_ident(cs, i) {
            Ok(x) => x,
            Err(err) => {
                return Err(err);
            },
        };
        args.push(id);
        assert(span_pairs(args@) =~= acc.push((i as nat, e as nat)));
        let j = skip_ws(cs, e);
        if j < cs.len() && cs[j] == ')' {
            return Ok((Parens { inner: args, span: Span::new(p, j + 1) }, j + 1));
        }
        if j < cs.len() && cs[j] == ',' {
            let i2 = skip_ws(cs, j + 1);
            if i2 < cs.len() && cs[i2] == ')' {
                return Ok((Parens { inner: args, span: Span::new(p, i2 + 1) }, i2 + 1));
            }
            i = i2;
        } else {
            return Err(ParseError { position: j, kind: ParseErrorKind::ExpectedCloseParen });
        }
    }
}

/// The attribute that starts at `p` (on its `#`).
fn parse_attribute(cs: &Vec<char>, p: usize) -> (r: Result<(AttributeDecl, usize), ParseError>)
    requires
        p < cs@.len(),
        cs@[p as int] == '#',
    ensures
        match attr_spec(cs@, p as nat) {
            None => r is Err,
            Some(m) => r matches Ok((a, e)) && attr_model(a) == m && e as nat == m.3 && attribute_in(cs@, a)
                && e <= cs@.len(),
        },
{
    let n = cs.len();
    let b = skip_ws(cs, if p < n { p + 1 } else { p });
    if b >= cs.len() || cs[b] != '[' {
        return Err(ParseError { position: b, kind: ParseErrorKind::ExpectedOpenBracket });
    }
    let i = skip_ws(cs, b + 1);
    let (name, e) = match parse_ident(cs, i) {
        Ok(x) => x,
        Err(err) => {
            return Err(err);
        },
    };
    let mut j = skip_ws(cs, e);
    let mut args: Option<Parens<Vec<Ident>>> = None;
    if j < cs.len() && cs[j] == '(' {
        match parse_args(cs, j) {
            Ok((a, k)) => {
                args = Some(a);
                j = skip_ws(cs, k);
            },
            Err(err) => {
                return Err(err);
            },
        }
    }
    if j >= cs.len() || cs[j] != ']' {
        return Err(ParseError { position: j, kind: ParseErrorKind::ExpectedCloseBracket });
    }
    let attribute = SquareBrackets { inner: Attribute { name, args }, span: Span::new(b, j + 1) };
    Ok((AttributeDecl { attribute, span: Span::new(p, j + 1) }, j + 1))
}

/// Whether `cs[from..to]` spells `word`.
fn spells(cs: &Vec<char>, from: usize, to: usize, word: &str) -> (r: bool)
    requires
        from <= to <= cs@.len(),
    ensures
        r == (cs@.subrange(from as int, to as int) == word@),
{
    let n = word.unicode_len();
    if to - from != n {
        return false;
    }
    let mut i: usize = 0;
    while i < n
        invariant
            n == word@.len(),
            to - from == n,
            from <= to <= cs@.len(),
            i <= n,
            forall|k: int| 0 <= k < i ==> cs@[from + k] == word@[k],
        decreases n - i,
    {
        if cs[from + i] != word.get_char(i) {
            assert(cs@.subrange(from as int, to as int)[i as int] != word@[i as int]);
            return false;
        }
        i = i + 1;
    }
    assert(cs@.subrange(from as int, to as int) =~= word@);
    true
}

/// The end of the item body that follows `p`: just past the `}` that closes
/// its first `{`, or past a `;` met before any `{`.
fn item_end(cs: &Vec<char>, p: usize) -> (r: Option<usize>)
    requires
        p <= cs@.len(),
    ensures
        match item_end_spec(cs@, p as nat, 0) {
            None => r is None,
            Some(e) => r matches Some(e2) && e2 as nat == e && p < e2 <= cs@.len() && (cs@[e2 - 1] == '}'
                || cs@[e2 - 1] == ';'),
        },
{
    let n = cs.len();
    let mut depth: usize = 0;
    let mut i = p;
    while i < n
        invariant
            n == cs@.len(),
            p <= i <= n,
            depth <= i - p,
            item_end_spec(cs@, p as nat, 0) == item_end_spec(cs@, i as nat, depth as nat),
        decreases n - i,
    {
        let c = cs[i];
        if c == '{' {
            depth = depth + 1;
        } else if c == '}' {
            if depth <= 1 {
                return Some(i + 1);
            }
            depth = depth - 1;
        } else if c == ';' && depth == 0 {
            return Some(i + 1);
        }
        i = i + 1;
    }
    None
}

/// The item that starts at `p`.
fn parse_item(cs: &Vec<char>, p: usize) -> (r: Result<(Item, usize), ParseError>)
    requires
        p <= cs@.len(),
    ensures
        match item_spec(cs@, p as nat) {
            None => r is Err,
            Some((k, name, end)) => r matches Ok((item, e)) && e as nat == end && item_decl(item).span
                == Span::new_spec(p, e) && item_keyword(item) == cs@.subrange(p as int, k as int)
                && name_model(item_decl(item).name) == name && item_in(cs@, item),
        },
{
    let (kw, k) = match parse_ident(cs, p) {
        Ok(x) => x,
        Err(_) => {
            return Err(ParseError { position: p, kind: ParseErrorKind::UnknownItem });
        },
    };
    proof {
        reveal_strlit("fn");
        reveal_strlit("struct");
        reveal_strlit("enum");
        reveal_strlit("trait");
        reveal_strlit("abi");
        reveal_strlit("impl");
        reveal_strlit("const");
        reveal_strlit("storage");
    }
    let is_fn = spells(cs, p, k, "fn");
    let is_struct = spells(cs, p, k, "struct");
    let is_enum = spells(cs, p, k, "enum");
    let is_trait = spells(cs, p, k, "trait");
    let is_abi = spells(cs, p, k, "abi");
    let is_impl = spells(cs, p, k, "impl");
    let is_const = spells(cs, p, k, "const");
    let is_storage = spells(cs, p, k, "storage");
    if !(is_fn || is_struct || is_enum || is_trait || is_abi || is_impl || is_const || is_storage) {
        return Err(ParseError { position: p, kind: ParseErrorKind::UnknownItem });
    }
    let mut name: Option<Ident> = None;
    let mut after = k;
    if !(is_impl || is_storage) {
        let i = skip_ws(cs, k);
        match parse_ident(cs, i) {
            Ok((id, e)) => {
                name = Some(id);
                after = e;
            },
            Err(err) => {
                return Err(err);
            },
        }
    }
    let end = match item_end(cs, after) {
        Some(e) => e,
        None => {
            return Err(ParseError { position: after, kind: ParseErrorKind::UnclosedItem });
        },
    };
    let decl = ItemDecl { name, span: Span::new(p, end) };
    let item = if is_fn {
        Item::Fn(decl)
    } else if is_struct {
        Item::Struct(decl)
    } else if is_enum {
        Item::Enum(decl)
    } else if is_trait {
        Item::Trait(decl)
    } else if is_abi {
        Item::Abi(decl)
    } else if is_impl {
        Item::Impl(decl)
    } else if is_const {
        Item::Const(decl)
    } else {
        Item::Storage(decl)
    };
    Ok((item, end))
}

/// Parses one top-level statement: any number of attributes, then an item.
/// It succeeds exactly when the text follows the grammar of [`top_spec`],
/// and then holds what that grammar reads, written where its spans say.
pub fn parse_top_level(src: &str) -> (r: Result<TopLevelStatement, ParseError>)
    ensures
        match top_spec(src@) {
            None => r is Err,
            Some((attrs, p, (k, name, end))) => r matches Ok(stmt) && {
                &&& attr_models(stmt.attribute_list@) == attrs
                &&& item_decl(stmt.item).span == Span::new_spec(p as usize, end as usize)
                &&& item_keyword(stmt.item) == src@.subrange(p as int, k as int)
                &&& name_model(item_decl(stmt.item).name) == name
                &&& item_in(src@, stmt.item)
                &&& forall|i: int|
                    0 <= i < stmt.attribute_list@.len() ==> attribute_in(src@, #[trigger] stmt.attribute_list@[i])
            },
        },
{
    let cs = chars_of(src);
    let mut attribute_list: Vec<AttributeDecl> = Vec::new();
    let p0 = skip_ws(&cs, 0);
    assert(skip_ws_from(src@, 0) == p0 as nat);
    let mut p = p0;
    assert(attr_models(attribute_list@) =~= Seq::<AttrModel>::empty());
    while p < cs.len() && cs[p] == '#'
        invariant
            cs@ == src@,
            p <= cs@.len(),
            skip_ws_from(src@, 0) == p0 as nat,
            forall|i: int| 0 <= i < attribute_list@.len() ==> attribute_in(src@, #[trigger] attribute_list@[i]),
            attrs_spec(cs@, p0 as nat) == match attrs_spec(cs@, p as nat) {
                None => None,
                Some((rest, r)) => Some((attr_models(attribute_list@) + rest, r)),
            },
        decreases cs@.len() - p,
    {
        let ghost before = attr_models(attribute_list@);
        let (a, e) = match parse_attribute(&cs, p) {
            Ok(x) => x,
            Err(err) => {
                assert(attrs_spec(cs@, p as nat) is None);
                return Err(err);
            },
        };
        attribute_list.push(a);
        assert(attr_models(attribute_list@) =~= before.push(attr_model(a)));
        let q = skip_ws(&cs, e);
        proof {
            match attrs_spec(cs@, q as nat) {
                None => {},
                Some((rest, r)) => {
                    assert(before + (seq![attr_model(a)] + rest) =~= before.push(attr_model(a)) + rest);
                },
            }
        }
        p = q;
    }
    assert(attrs_spec(cs@, p as nat) == Some((Seq::<AttrModel>::empty(), p as nat)));
    assert(attr_models(attribute_list@) + Seq::<AttrModel>::empty() =~= attr_models(attribute_list@));
    let (item, _) = match parse_item(&cs, p) {
        Ok(x) => x,
        Err(err) => {
            return Err(err);
        },
    };
    Ok(TopLevelStatement { attribute_list, item })
}

} // verus!
