//! Formatting of `use`, `dep` and data-type declarations in source text.
use vstd::prelude::*;

use crate::text::{
    chars_of, is_whitespace, is_ws, push_char, string_of, stripped_string_of, strip_ws,
};

verus! {

/// Lines longer than this are broken where the formatter can.
pub const MAX_LINE_LENGTH: usize = 100;

/// Marks a line that the formatter has already produced.
pub const ALREADY_FORMATTED_LINE_PATTERN: &'static str = "#___#";

pub const NEW_LINE_PATTERN: &'static str = "\n";

pub open spec fn views(v: Seq<String>) -> Seq<Seq<char>> {
    v.map_values(|s: String| s@)
}

pub open spec fn is_sep(c: char) -> bool {
    c == ',' || c == '{' || c == '}'
}

/// Tokens so far, and the text since the last separator.
pub open spec fn tok_state(s: Seq<char>) -> (Seq<Seq<char>>, Seq<char>)
    decreases s.len(),
{
    if s.len() == 0 {
        (Seq::empty(), Seq::empty())
    } else {
        let (toks, seg) = tok_state(s.drop_last());
        let c = s.last();
        if is_sep(c) {
            let stripped = strip_ws(seg);
            let toks2 = if stripped.len() > 0 {
                toks.push(stripped)
            } else {
                toks
            };
            (toks2.push(seq![c]), Seq::empty())
        } else {
            (toks, seg.push(c))
        }
    }
}

/// The tokens of a line: each `,`, `{` and `}` on its own, the text between
/// them without white space (dropped when nothing is left), and the text
/// after the last separator as it stands.
pub open spec fn tokenize_spec(s: Seq<char>) -> Seq<Seq<char>> {
    let (toks, seg) = tok_state(s);
    if seg.len() > 0 {
        toks.push(seg)
    } else {
        toks
    }
}

fn is_separator(c: char) -> (r: bool)
    ensures
        r == is_sep(c),
{
    c == ',' || c == '{' || c == '}'
}

fn single(c: char) -> (r: String)
    ensures
        r@ == seq![c],
{
    let mut s = String::new();
    push_char(&mut s, c);
    s
}

/// Splits a line into tokens on separators, keeping the separators.
pub fn tokenize(line: &str) -> (r: Vec<String>)
    ensures
        views(r@) == tokenize_spec(line@),
{
    let cs = chars_of(line);
    let mut buffer: Vec<String> = Vec::new();
    let mut current: usize = 0;
    let mut i: usize = 0;
    while i < cs.len()
        invariant
            cs@ == line@,
            current <= i <= cs@.len(),
            views(buffer@) == tok_state(cs@.subrange(0, i as int)).0,
            cs@.subrange(current as int, i as int) == tok_state(cs@.subrange(0, i as int)).1,
        decreases cs@.len() - i,
    {
        let ghost pre = cs@.subrange(0, i as int);
        assert(cs@.subrange(0, i as int + 1).drop_last() =~= pre);
        let c = cs[i];
        if is_separator(c) {
            let stripped = stripped_string_of(&cs, current, i);
            if stripped.unicode_len() > 0 {
                buffer.push(stripped);
            }
            buffer.push(single(c));
            current = i + 1;
            proof {
                assert(cs@.subrange(current as int, i as int + 1) =~= Seq::<char>::empty());
            }
        } else {
            assert(cs@.subrange(current as int, i as int + 1) =~= cs@.subrange(current as int, i as int).push(c));
        }
        proof {
            assert(views(buffer@) =~= tok_state(cs@.subrange(0, i as int + 1)).0);
        }
        i = i + 1;
    }
    assert(cs@.subrange(0, cs@.len() as int) =~= cs@);
    if current < cs.len() {
        buffer.push(string_of(&cs, current, cs.len()));
    }
    assert(views(buffer@) =~= tokenize_spec(line@));
    buffer
}

/// Removes all white space from a path such as `a :: b`.
pub fn format_delineated_path(line: &str) -> (r: String)
    ensures
        r@ == strip_ws(line@),
{
    let cs = chars_of(line);
    assert(cs@.subrange(0, cs@.len() as int) =~= cs@);
    stripped_string_of(&cs, 0, cs.len())
}


// ---------------------------------------------------------------------------
// Breaking long `use` lines
// ---------------------------------------------------------------------------

/// The line, trimmed of white space at its end, ends with a comma.
pub open spec fn ends_with_comma(line: Seq<char>) -> bool
    decreases line.len(),
{
    if line.len() == 0 {
        false
    } else if is_ws(line.last()) {
        ends_with_comma(line.drop_last())
    } else {
        line.last() == ','
    }
}

/// Lines finished so far, the line being built, and the nesting depth.
pub open spec fn wrap_state(toks: Seq<Seq<char>>, k: nat) -> (Seq<Seq<char>>, Seq<char>, int)
    decreases k,
{
    if k == 0 || k > toks.len() {
        (Seq::empty(), Seq::empty(), 0)
    } else {
        let (lines, line, depth) = wrap_state(toks, (k - 1) as nat);
        let tok = toks[k - 1];
        let depth2 = if tok == seq!['{'] {
            depth + 1
        } else if tok == seq!['}'] {
            depth - 1
        } else {
            depth
        };
        let tok2 = if tok == seq![','] && k < toks.len() {
            tok + " "@
        } else {
            tok
        };
        let line2 = line + tok2;
        if line2.len() >= MAX_LINE_LENGTH && ends_with_comma(line2) && depth2 <= 1 {
            (lines.push(line2 + "\n    "@), Seq::empty(), depth2)
        } else {
            (lines, line2, depth2)
        }
    }
}

/// The tokens laid out on lines: a comma followed by more gets a space, and
/// once a line reaches the maximum length (counted in characters) at a comma
/// outside nested braces it ends there with a newline and an indent.
pub open spec fn wrap_lines(toks: Seq<Seq<char>>) -> Seq<Seq<char>> {
    let (lines, line, _) = wrap_state(toks, toks.len());
    if line.len() > 0 {
        lines.push(line)
    } else {
        lines
    }
}

fn is_single(s: &String, c: char) -> (r: bool)
    ensures
        r == (s@ == seq![c]),
{
    if s.unicode_len() == 1 {
        let d = s.as_str().get_char(0);
        assert(s@.len() == 1 && s@[0] == d);
        if d == c {
            assert(s@ =~= seq![c]);
            true
        } else {
            false
        }
    } else {
        false
    }
}

fn line_ends_with_comma(line: &String) -> (r: bool)
    ensures
        r == ends_with_comma(line@),
{
    let cs = chars_of(line.as_str());
    let mut k = cs.len();
    assert(cs@.subrange(0, k as int) =~= cs@);
    while k > 0 && is_whitespace(cs[k - 1])
        invariant
            cs@ == line@,
            k <= cs@.len(),
            ends_with_comma(line@) == ends_with_comma(cs@.subrange(0, k as int)),
        decreases k,
    {
        assert(cs@.subrange(0, k as int).drop_last() =~= cs@.subrange(0, k as int - 1));
        k = k - 1;
    }
    if k == 0 {
        false
    } else {
        assert(cs@.subrange(0, k as int).last() == cs@[k - 1]);
        cs[k - 1] == ','
    }
}

/// Lays a sorted `use` expression out on lines of bounded length.
pub fn format_use_stmnt_length(s: &str) -> (r: Vec<String>)
    ensures
        views(r@) == wrap_lines(tokenize_spec(s@)),
{
    let buff = tokenize(s);
    let ghost toks = tokenize_spec(s@);
    let n = buff.len();
    let mut with_newline: Vec<String> = Vec::new();
    let mut line = String::new();
    let mut depth: i128 = 0;
    let mut k: usize = 0;
    while k < n
        invariant
            n == buff@.len(),
            views(buff@) == toks,
            k <= n,
            -(k as int) <= depth <= k as int,
            wrap_state(toks, k as nat) == (views(with_newline@), line@, depth as int),
        decreases n - k,
    {
        assert(buff@[k as int]@ == toks[k as int]);
        let ghost prev = wrap_state(toks, k as nat);
        let tok = &buff[k];
        if is_single(tok, '{') {
            depth = depth + 1;
        } else if is_single(tok, '}') {
            depth = depth - 1;
        }
        let mut t = tok.clone();
        if is_single(tok, ',') && k + 1 < n {
            t.append(" ");
        }
        line.append(t.as_str());
        let ends = line_ends_with_comma(&line);
        let too_long = line.unicode_len() >= MAX_LINE_LENGTH;
        if too_long && ends && depth <= 1 {
            line.append("\n    ");
            with_newline.push(line);
            line = String::new();
            proof {
                assert(views(with_newline@) =~= prev.0.push(with_newline@.last()@));
            }
        }
        k = k + 1;
        proof {
            assert(wrap_state(toks, k as nat).0 =~= views(with_newline@));
            assert(wrap_state(toks, k as nat).1 =~= line@);
        }
    }
    if line.unicode_len() > 0 {
        with_newline.push(line);
    }
    assert(views(with_newline@) =~= wrap_lines(toks));
    with_newline
}


// ---------------------------------------------------------------------------
// Sorting compound imports
// ---------------------------------------------------------------------------

pub open spec fn trim_start(s: Seq<char>) -> Seq<char>
    decreases s.len(),
{
    if s.len() > 0 && is_ws(s[0]) {
        trim_start(s.drop_first())
    } else {
        s
    }
}

pub open spec fn trim_end(s: Seq<char>) -> Seq<char>
    decreases s.len(),
{
    if s.len() > 0 && is_ws(s.last()) {
        trim_end(s.drop_last())
    } else {
        s
    }
}

/// `s` without white space at either end.
pub open spec fn trim(s: Seq<char>) -> Seq<char> {
    trim_end(trim_start(s))
}

/// Lexicographic order of character sequences, which is the order of their
/// UTF-8 encodings.
pub open spec fn lex_lt(a: Seq<char>, b: Seq<char>) -> bool
    decreases a.len(),
{
    if a.len() == 0 {
        b.len() > 0
    } else if b.len() == 0 {
        false
    } else if a[0] != b[0] {
        (a[0] as u32) < (b[0] as u32)
    } else {
        lex_lt(a.drop_first(), b.drop_first())
    }
}

pub open spec fn is_self(a: Seq<char>) -> bool {
    a == "self"@
}

/// Import order: `self` first, then the rest lexicographically.
pub open spec fn goes_before(x: Seq<char>, e: Seq<char>) -> bool {
    is_self(x) || (!is_self(e) && lex_lt(x, e))
}

pub open spec fn insert_sorted(s: Seq<Seq<char>>, x: Seq<char>) -> Seq<Seq<char>>
    decreases s.len(),
{
    if s.len() == 0 {
        seq![x]
    } else if goes_before(x, s[0]) {
        seq![x] + s
    } else {
        seq![s[0]] + insert_sorted(s.drop_first(), x)
    }
}

/// The names of one import group in import order.
pub open spec fn sort_names(s: Seq<Seq<char>>) -> Seq<Seq<char>>
    decreases s.len(),
{
    if s.len() == 0 {
        Seq::empty()
    } else {
        insert_sorted(sort_names(s.drop_last()), s.last())
    }
}

/// The names separated by `, `.
pub open spec fn join_names(s: Seq<Seq<char>>) -> Seq<char>
    decreases s.len(),
{
    if s.len() == 0 {
        Seq::empty()
    } else if s.len() == 1 {
        s[0]
    } else {
        join_names(s.drop_last()) + ", "@ + s.last()
    }
}

pub open spec fn concat_all(s: Seq<Seq<char>>) -> Seq<char>
    decreases s.len(),
{
    if s.len() == 0 {
        Seq::empty()
    } else {
        concat_all(s.drop_last()) + s.last()
    }
}

/// Reads import tokens from `pos`, collecting names into `buffer`, until
/// the `}` that closes the current group (or the end). A closed group is
/// sorted; with more than one name it becomes one `{a, b}` entry. A nested
/// group is glued to the path before it. Gives the buffer and the position
/// after what was read.
pub open spec fn import_step(toks: Seq<Seq<char>>, pos: nat, buffer: Seq<Seq<char>>) -> (
    Seq<Seq<char>>,
    nat,
)
    decreases toks.len() - pos,
{
    if pos >= toks.len() {
        (buffer, pos)
    } else {
        let t = trim(toks[pos as int]);
        if t == seq![','] {
            import_step(toks, pos + 1, buffer)
        } else if t == seq!['{'] {
            let (inner, next) = import_step(toks, pos + 1, Seq::empty());
            let buffer2 = if inner.len() > 0 {
                if buffer.len() > 0 {
                    buffer.update(buffer.len() - 1, buffer.last() + inner[0])
                } else {
                    buffer + inner
                }
            } else {
                buffer
            };
            if pos < next <= toks.len() {
                import_step(toks, next, buffer2)
            } else {
                (buffer2, next)
            }
        } else if t == seq!['}'] {
            let sorted = sort_names(buffer);
            (
                if sorted.len() > 1 {
                    seq!["{"@ + join_names(sorted) + "}"@]
                } else {
                    sorted
                },
                pos + 1,
            )
        } else {
            import_step(toks, pos + 1, buffer.push(t))
        }
    }
}

pub open spec fn sort_and_filter_spec(line: Seq<char>) -> Seq<char> {
    concat_all(import_step(tokenize_spec(line), 0, Seq::empty()).0)
}

proof fn lemma_import_step_advances(toks: Seq<Seq<char>>, pos: nat, buffer: Seq<Seq<char>>)
    requires
        pos < toks.len(),
    ensures
        import_step(toks, pos, buffer).1 > pos,
    decreases toks.len() - pos,
{
    let t = trim(toks[pos as int]);
    if t == seq![','] {
        if pos + 1 < toks.len() {
            lemma_import_step_advances(toks, pos + 1, buffer);
        } else {
            assert(import_step(toks, pos + 1, buffer).1 == pos + 1);
        }
    } else if t == seq!['{'] {
        if pos + 1 < toks.len() {
            lemma_import_step_advances(toks, pos + 1, Seq::empty());
        } else {
            assert(import_step(toks, pos + 1, Seq::empty()).1 == pos + 1);
        }
        let (inner, next) = import_step(toks, pos + 1, Seq::empty());
        let buffer2 = if inner.len() > 0 {
            if buffer.len() > 0 {
                buffer.update(buffer.len() - 1, buffer.last() + inner[0])
            } else {
                buffer + inner
            }
        } else {
            buffer
        };
        if pos < next < toks.len() {
            lemma_import_step_advances(toks, next, buffer2);
        } else if next == toks.len() {
            assert(import_step(toks, next, buffer2).1 == next);
        }
    } else if t == seq!['}'] {
    } else {
        if pos + 1 < toks.len() {
            lemma_import_step_advances(toks, pos + 1, buffer.push(t));
        } else {
            assert(import_step(toks, pos + 1, buffer.push(t)).1 == pos + 1);
        }
    }
}

fn trim_string(s: &String) -> (r: String)
    ensures
        r@ == trim(s@),
{
    let cs = chars_of(s.as_str());
    let n = cs.len();
    let mut i: usize = 0;
    assert(cs@.subrange(0, n as int) =~= cs@);
    while i < n && is_whitespace(cs[i])
        invariant
            cs@ == s@,
            n == cs@.len(),
            i <= n,
            trim_start(s@) == trim_start(cs@.subrange(i as int, n as int)),
        decreases n - i,
    {
        assert(cs@.subrange(i as int, n as int).drop_first() =~= cs@.subrange(i as int + 1, n as int));
        i = i + 1;
    }
    let mut k: usize = n;
    assert(cs@.subrange(i as int, k as int) == trim_start(s@));
    while k > i && is_whitespace(cs[k - 1])
        invariant
            cs@ == s@,
            n == cs@.len(),
            i <= k <= n,
            trim(s@) == trim_end(cs@.subrange(i as int, k as int)),
        decreases k,
    {
        assert(cs@.subrange(i as int, k as int).drop_last() =~= cs@.subrange(i as int, k as int - 1));
        k = k - 1;
    }
    string_of(&cs, i, k)
}

fn lex_less(a: &String, b: &String) -> (r: bool)
    ensures
        r == lex_lt(a@, b@),
{
    let x = chars_of(a.as_str());
    let y = chars_of(b.as_str());
    let mut i: usize = 0;
    assert(x@.subrange(0, x@.len() as int) =~= x@);
    assert(y@.subrange(0, y@.len() as int) =~= y@);
    loop
        invariant
            x@ == a@,
            y@ == b@,
            i <= x@.len(),
            i <= y@.len(),
            lex_lt(a@, b@) == lex_lt(
                x@.subrange(i as int, x@.len() as int),
                y@.subrange(i as int, y@.len() as int),
            ),
        decreases x@.len() - i,
    {
        let ghost xs = x@.subrange(i as int, x@.len() as int);
        let ghost ys = y@.subrange(i as int, y@.len() as int);
        if i == x.len() {
            return i < y.len();
        }
        if i == y.len() {
            return false;
        }
        assert(xs[0] == x@[i as int] && ys[0] == y@[i as int]);
        if x[i] != y[i] {
            return (x[i] as u32) < (y[i] as u32);
        }
        assert(xs.drop_first() =~= x@.subrange(i as int + 1, x@.len() as int));
        assert(ys.drop_first() =~= y@.subrange(i as int + 1, y@.len() as int));
        i = i + 1;
    }
}

fn is_self_name(a: &String) -> (r: bool)
    ensures
        r == is_self(a@),
{
    let x = chars_of(a.as_str());
    proof {
        reveal_strlit("self");
    }
    if x.len() != 4 {
        return false;
    }
    let r = x[0] == 's' && x[1] == 'e' && x[2] == 'l' && x[3] == 'f';
    if r {
        assert(x@ =~= "self"@);
    }
    r
}

fn goes_before_exec(x: &String, e: &String) -> (r: bool)
    ensures
        r == goes_before(x@, e@),
{
    is_self_name(x) || (!is_self_name(e) && lex_less(x, e))
}

proof fn lemma_insert_at(s: Seq<Seq<char>>, x: Seq<char>, i: int)
    requires
        0 <= i <= s.len(),
        forall|j: int| 0 <= j < i ==> !goes_before(x, #[trigger] s[j]),
        i < s.len() ==> goes_before(x, s[i]),
    ensures
        insert_sorted(s, x) == s.subrange(0, i) + seq![x] + s.subrange(i, s.len() as int),
    decreases i,
{
    if i == 0 {
        if s.len() > 0 {
            assert(seq![x] + s =~= s.subrange(0, 0) + seq![x] + s.subrange(0, s.len() as int));
        } else {
            assert(seq![x] =~= s.subrange(0, 0) + seq![x] + s.subrange(0, s.len() as int));
        }
    } else {
        let t = s.drop_first();
        assert forall|j: int| 0 <= j < i - 1 implies !goes_before(x, #[trigger] t[j]) by {
            assert(t[j] == s[j + 1]);
        }
        lemma_insert_at(t, x, i - 1);
        assert(seq![s[0]] + (t.subrange(0, i - 1) + seq![x] + t.subrange(i - 1, t.len() as int))
            =~= s.subrange(0, i) + seq![x] + s.subrange(i, s.len() as int));
    }
}

fn sort_names_exec(v: &Vec<String>) -> (r: Vec<String>)
    ensures
        views(r@) == sort_names(views(v@)),
{
    let mut out: Vec<String> = Vec::new();
    let mut k: usize = 0;
    while k < v.len()
        invariant
            k <= v@.len(),
            views(out@) == sort_names(views(v@.subrange(0, k as int))),
        decreases v@.len() - k,
    {
        assert(views(v@.subrange(0, k as int + 1)).drop_last() =~= views(v@.subrange(0, k as int)));
        assert(views(v@.subrange(0, k as int + 1)).last() == v@[k as int]@);
        let x = v[k].clone();
        let mut i: usize = 0;
        while i < out.len() && !goes_before_exec(&x, &out[i])
            invariant
                i <= out@.len(),
                forall|j: int| 0 <= j < i ==> !goes_before(x@, #[trigger] views(out@)[j]),
            decreases out@.len() - i,
        {
            i = i + 1;
        }
        proof {
            lemma_insert_at(views(out@), x@, i as int);
        }
        let ghost before = out@;
        out.insert(i, x);
        assert(views(out@) =~= views(before).subrange(0, i as int) + seq![x@] + views(before).subrange(
            i as int,
            before.len() as int,
        ));
        k = k + 1;
    }
    assert(v@.subrange(0, v@.len() as int) =~= v@);
    out
}

fn join_braced(v: &Vec<String>) -> (r: String)
    ensures
        r@ == "{"@ + join_names(views(v@)) + "}"@,
{
    let mut s = String::from_str("{");
    let mut i: usize = 0;
    while i < v.len()
        invariant
            i <= v@.len(),
            s@ == "{"@ + join_names(views(v@.subrange(0, i as int))),
        decreases v@.len() - i,
    {
        assert(views(v@.subrange(0, i as int + 1)).drop_last() =~= views(v@.subrange(0, i as int)));
        if i > 0 {
            s.append(", ");
        }
        s.append(v[i].as_str());
        proof {
            if i == 0 {
                assert(views(v@.subrange(0, 1)) =~= seq![v@[0]@]);
            }
            assert(s@ =~= "{"@ + join_names(views(v@.subrange(0, i as int + 1))));
        }
        i = i + 1;
    }
    assert(v@.subrange(0, v@.len() as int) =~= v@);
    s.append("}");
    s
}

fn import_step_exec(toks: &Vec<String>, pos: usize, buffer: Vec<String>) -> (r: (Vec<String>, usize))
    requires
        pos <= toks@.len(),
    ensures
        (views(r.0@), r.1 as nat) == import_step(views(toks@), pos as nat, views(buffer@)),
    decreases toks@.len() - pos,
{
    let ghost T = views(toks@);
    let mut buf = buffer;
    let mut p = pos;
    let ghost goal = import_step(T, pos as nat, views(buffer@));
    loop
        invariant
            T == views(toks@),
            pos <= p <= toks@.len(),
            import_step(T, p as nat, views(buf@)) == goal,
            goal == import_step(views(toks@), pos as nat, views(buffer@)),
        decreases toks@.len() - p,
    {
        if p >= toks.len() {
            return (buf, p);
        }
        let t = trim_string(&toks[p]);
        if is_single(&t, ',') {
            p = p + 1;
        } else if is_single(&t, '{') {
            let fresh: Vec<String> = Vec::new();
            assert(views(fresh@) =~= Seq::<Seq<char>>::empty());
            let (inner, next) = import_step_exec(toks, p + 1, fresh);
            proof {
                if p + 1 < toks@.len() {
                    lemma_import_step_advances(T, (p + 1) as nat, Seq::empty());
                }
            }
            let ghost b0 = views(buf@);
            if inner.len() > 0 {
                if buf.len() > 0 {
                    let last = buf.len() - 1;
                    let mut joined = buf[last].clone();
                    joined.append(inner[0].as_str());
                    buf.set(last, joined);
                    assert(views(buf@) =~= b0.update(b0.len() - 1, b0.last() + views(inner@)[0]));
                } else {
                    let ghost iv = views(inner@);
                    let mut inner = inner;
                    buf.append(&mut inner);
                    assert(views(buf@) =~= b0 + iv);
                }
            }
            if p < next && next <= toks.len() {
                p = next;
            } else {
                return (buf, next);
            }
        } else if is_single(&t, '}') {
            let sorted = sort_names_exec(&buf);
            if sorted.len() > 1 {
                let mut out: Vec<String> = Vec::new();
                out.push(join_braced(&sorted));
                assert(views(out@) =~= seq!["{"@ + join_names(views(sorted@)) + "}"@]);
                return (out, p + 1);
            } else {
                return (sorted, p + 1);
            }
        } else {
            let ghost b0 = views(buf@);
            buf.push(t);
            assert(views(buf@) =~= b0.push(trim(T[p as int])));
            p = p + 1;
        }
    }
}

fn concat_strings(v: &Vec<String>) -> (r: String)
    ensures
        r@ == concat_all(views(v@)),
{
    let mut s = String::new();
    let mut i: usize = 0;
    while i < v.len()
        invariant
            i <= v@.len(),
            s@ == concat_all(views(v@.subrange(0, i as int))),
        decreases v@.len() - i,
    {
        assert(views(v@.subrange(0, i as int + 1)).drop_last() =~= views(v@.subrange(0, i as int)));
        s.append(v[i].as_str());
        i = i + 1;
    }
    assert(v@.subrange(0, v@.len() as int) =~= v@);
    s
}

/// Trims white space from a `use` expression and sorts each brace group:
/// `a::{c, b, d::{self, f, e}}` becomes `a::{b, c, d::{self, e, f}}`.
pub fn sort_and_filter_use_expression(line: &str) -> (r: String)
    ensures
        r@ == sort_and_filter_spec(line@),
{
    let tokens = tokenize(line);
    let fresh: Vec<String> = Vec::new();
    assert(views(fresh@) =~= Seq::<Seq<char>>::empty());
    let (buffer, _) = import_step_exec(&tokens, 0, fresh);
    concat_strings(&buffer)
}


// ---------------------------------------------------------------------------
// `use` and `dep` statements
// ---------------------------------------------------------------------------

/// Each line after the first, each preceded by the formatted-line marker.
pub open spec fn marked_lines(lines: Seq<Seq<char>>) -> Seq<char>
    decreases lines.len(),
{
    if lines.len() <= 1 {
        Seq::empty()
    } else {
        marked_lines(lines.drop_last()) + ALREADY_FORMATTED_LINE_PATTERN@ + lines.last()
    }
}

/// A `use` statement with its expression sorted and laid out on lines, each
/// line marked as formatted.
pub open spec fn use_statement_spec(line: Seq<char>) -> Seq<char> {
    let right = sort_and_filter_spec(line.subrange(3, line.len() as int));
    let lines = wrap_lines(tokenize_spec(right));
    let first = if lines.len() > 0 {
        lines[0]
    } else {
        Seq::empty()
    };
    ALREADY_FORMATTED_LINE_PATTERN@ + "use"@ + " "@ + first + marked_lines(lines)
}

pub open spec fn starts_with(s: Seq<char>, prefix: Seq<char>) -> bool {
    prefix.len() <= s.len() && s.subrange(0, prefix.len() as int) == prefix
}

fn rest_after(line: &str, k: usize) -> (r: String)
    requires
        k <= line@.len(),
    ensures
        r@ == line@.subrange(k as int, line@.len() as int),
{
    let cs = chars_of(line);
    string_of(&cs, k, cs.len())
}

/// Formats a `use` statement: sorts its expression and breaks long lines.
pub fn format_use_statement(line: &str) -> (r: String)
    requires
        starts_with(line@, "use"@),
    ensures
        r@ == use_statement_spec(line@),
{
    proof {
        reveal_strlit("use");
    }
    let right = rest_after(line, 3);
    let right = sort_and_filter_use_expression(right.as_str());
    let lines = format_use_stmnt_length(right.as_str());
    let mut out = String::from_str(ALREADY_FORMATTED_LINE_PATTERN);
    out.append("use");
    out.append(" ");
    if lines.len() == 0 {
        assert(out@ =~= use_statement_spec(line@));
        return out;
    }
    out.append(lines[0].as_str());
    let mut i: usize = 1;
    assert(marked_lines(views(lines@).subrange(0, 1)) == Seq::<char>::empty());
    while i < lines.len()
        invariant
            1 <= i <= lines@.len(),
            out@ == ALREADY_FORMATTED_LINE_PATTERN@ + "use"@ + " "@ + lines@[0]@ + marked_lines(
                views(lines@).subrange(0, i as int),
            ),
        decreases lines@.len() - i,
    {
        assert(views(lines@).subrange(0, i as int + 1).drop_last() =~= views(lines@).subrange(0, i as int));
        out.append(ALREADY_FORMATTED_LINE_PATTERN);
        out.append(lines[i].as_str());
        i = i + 1;
    }
    assert(views(lines@).subrange(0, lines@.len() as int) =~= views(lines@));
    out
}

/// Formats a `dep` statement: the keyword, one space, then the rest without
/// white space.
pub fn format_include_statement(line: &str) -> (r: String)
    requires
        starts_with(line@, "dep"@),
    ensures
        r@ == ALREADY_FORMATTED_LINE_PATTERN@ + "dep"@ + " "@ + strip_ws(line@.subrange(3, line@.len() as int)),
{
    proof {
        reveal_strlit("dep");
    }
    let cs = chars_of(line);
    let right = stripped_string_of(&cs, 3, cs.len());
    let mut out = String::from_str(ALREADY_FORMATTED_LINE_PATTERN);
    out.append("dep");
    out.append(" ");
    out.append(right.as_str());
    out
}


// ---------------------------------------------------------------------------
// Struct and enum declarations
// ---------------------------------------------------------------------------

/// Where the formatter stands with respect to comments.
#[derive(Clone, Copy, Debug, PartialEq, Eq, Structural)]
pub enum CommentMode {
    Code,
    LineComment,
    BlockComment,
}

/// Only spaces, then a newline.
pub open spec fn newline_incoming(s: Seq<char>) -> bool
    decreases s.len(),
{
    if s.len() == 0 {
        false
    } else if s[0] == '\n' {
        true
    } else if s[0] == ' ' {
        newline_incoming(s.drop_first())
    } else {
        false
    }
}

pub open spec fn is_comment_start(s: Seq<char>, second: char) -> bool {
    let u = trim(s);
    u.len() >= 2 && u[0] == '/' && u[1] == second
}

/// After a field type, a newline follows unless a comment comes on the
/// same line.
pub open spec fn needs_newline(rest: Seq<char>) -> bool {
    newline_incoming(rest) || !(is_comment_start(rest, '/') || is_comment_start(rest, '*'))
}

/// Reads a field's type from `p`: up to a `,` (taken), a `{` (taken, and the
/// type ends there), a `}` or a comment (left, with a `,` supplied), or the
/// end (a `,` supplied). Gives the text, the position after it, and whether
/// a `{` ended it.
pub open spec fn field_scan(t: Seq<char>, p: nat) -> (Seq<char>, nat, bool)
    decreases t.len() - p,
{
    if p >= t.len() {
        (seq![','], p, false)
    } else {
        let c = t[p as int];
        if c == ',' {
            (seq![','], p + 1, false)
        } else if c == '{' {
            (seq!['{'], p + 1, true)
        } else if c == '}' {
            (seq![','], p, false)
        } else if c == '/' && p + 1 < t.len() && (t[p + 1int] == '/' || t[p + 1int] == '*') {
            (seq![','], p, false)
        } else {
            let (r, q, e) = field_scan(t, p + 1);
            (seq![c] + r, q, e)
        }
    }
}

pub open spec fn field_type(t: Seq<char>, p: nat) -> (Seq<char>, nat) {
    let (r, q, early) = field_scan(t, p);
    if early {
        (r, q)
    } else if q < t.len() && needs_newline(t.subrange(q as int, t.len() as int)) {
        (r + NEW_LINE_PATTERN@, q)
    } else {
        (r, q)
    }
}

pub open spec fn skip_ws_from(t: Seq<char>, p: nat) -> nat
    decreases t.len() - p,
{
    if p < t.len() && is_ws(t[p as int]) {
        skip_ws_from(t, p + 1)
    } else {
        p
    }
}

/// Formats struct and enum bodies from `p` on: comments are copied as they
/// are; after a `}` white space is dropped and a `,` supplied unless one
/// follows; after a `:` the field type is read and ends with a `,` and,
/// unless a comment follows on the line, a newline.
pub open spec fn data_types_from(t: Seq<char>, p: nat, mode: CommentMode) -> Seq<char>
    decreases t.len() - p,
{
    if p >= t.len() {
        Seq::empty()
    } else {
        let c = t[p as int];
        let has_next = p + 1 < t.len();
        match mode {
            CommentMode::LineComment => seq![c] + data_types_from(
                t,
                p + 1,
                if c == '\n' {
                    CommentMode::Code
                } else {
                    CommentMode::LineComment
                },
            ),
            CommentMode::BlockComment => if c == '*' && has_next && t[p + 1int] == '/' {
                seq!['*', '/'] + data_types_from(t, p + 2, CommentMode::Code)
            } else {
                seq![c] + data_types_from(t, p + 1, CommentMode::BlockComment)
            },
            CommentMode::Code => if c == '/' && has_next && t[p + 1int] == '/' {
                seq!['/', '/'] + data_types_from(t, p + 2, CommentMode::LineComment)
            } else if c == '/' && has_next && t[p + 1int] == '*' {
                seq!['/', '*'] + data_types_from(t, p + 2, CommentMode::BlockComment)
            } else if c == '}' {
                let q = skip_ws_from(t, p + 1);
                let comma = if q < t.len() && t[q as int] != ',' {
                    seq![',']
                } else {
                    Seq::empty()
                };
                if p < q <= t.len() {
                    seq!['}'] + comma + data_types_from(t, q, CommentMode::Code)
                } else {
                    seq!['}'] + comma
                }
            } else if c == ':' {
                let (ft, q) = field_type(t, p + 1);
                if p < q <= t.len() {
                    seq![':'] + ft + data_types_from(t, q, CommentMode::Code)
                } else {
                    seq![':'] + ft
                }
            } else {
                seq![c] + data_types_from(t, p + 1, CommentMode::Code)
            },
        }
    }
}

proof fn lemma_field_scan_advances(t: Seq<char>, p: nat)
    ensures
        field_scan(t, p).1 >= p,
    decreases t.len() - p,
{
    if p < t.len() {
        lemma_field_scan_advances(t, p + 1);
    }
}

proof fn lemma_skip_ws_from(t: Seq<char>, p: nat)
    ensures
        skip_ws_from(t, p) >= p,
    decreases t.len() - p,
{
    if p < t.len() && is_ws(t[p as int]) {
        lemma_skip_ws_from(t, p + 1);
    }
}

fn field_scan_exec(cs: &Vec<char>, p: usize, out: &mut String) -> (r: (usize, bool))
    requires
        p <= cs@.len(),
    ensures
        final(out)@ == old(out)@ + field_scan(cs@, p as nat).0,
        r.0 as nat == field_scan(cs@, p as nat).1,
        r.1 == field_scan(cs@, p as nat).2,
        r.0 <= cs@.len(),
    decreases cs@.len() - p,
{
    if p >= cs.len() {
        push_char(out, ',');
        return (p, false);
    }
    let c = cs[p];
    if c == ',' {
        push_char(out, ',');
        (p + 1, false)
    } else if c == '{' {
        push_char(out, '{');
        (p + 1, true)
    } else if c == '}' {
        push_char(out, ',');
        (p, false)
    } else if c == '/' && p + 1 < cs.len() && (cs[p + 1] == '/' || cs[p + 1] == '*') {
        push_char(out, ',');
        (p, false)
    } else {
        let ghost before = out@;
        push_char(out, c);
        let r = field_scan_exec(cs, p + 1, out);
        assert(out@ =~= before + (seq![c] + field_scan(cs@, p as nat + 1).0));
        r
    }
}

fn newline_incoming_exec(cs: &Vec<char>, p: usize) -> (r: bool)
    requires
        p <= cs@.len(),
    ensures
        r == newline_incoming(cs@.subrange(p as int, cs@.len() as int)),
{
    let mut i = p;
    while i < cs.len() && cs[i] == ' '
        invariant
            p <= i <= cs@.len(),
            newline_incoming(cs@.subrange(p as int, cs@.len() as int)) == newline_incoming(
                cs@.subrange(i as int, cs@.len() as int),
            ),
        decreases cs@.len() - i,
    {
        assert(cs@.subrange(i as int, cs@.len() as int).drop_first() =~= cs@.subrange(
            i as int + 1,
            cs@.len() as int,
        ));
        i = i + 1;
    }
    i < cs.len() && cs[i] == '\n'
}

fn comment_starts(cs: &Vec<char>, p: usize, second: char) -> (r: bool)
    requires
        p <= cs@.len(),
    ensures
        r == is_comment_start(cs@.subrange(p as int, cs@.len() as int), second),
{
    let rest = string_of(cs, p, cs.len());
    let u = trim_string(&rest);
    let uc = chars_of(u.as_str());
    uc.len() >= 2 && uc[0] == '/' && uc[1] == second
}

/// Formats struct and enum declarations: separates fields with commas and
/// puts each on its own line, leaving comments as they are.
pub fn format_data_types(text: &str) -> (r: String)
    ensures
        r@ == data_types_from(text@, 0, CommentMode::Code),
{
    let cs = chars_of(text);
    let ghost t = cs@;
    let mut out = String::new();
    let mut p: usize = 0;
    let mut mode = CommentMode::Code;
    while p < cs.len()
        invariant
            cs@ == t,
            t == text@,
            p <= cs@.len(),
            out@ + data_types_from(t, p as nat, mode) == data_types_from(t, 0, CommentMode::Code),
        decreases cs@.len() - p,
    {
        let ghost before = out@;
        let ghost p0 = p as nat;
        let ghost mode0 = mode;
        let c = cs[p];
        let has_next = p + 1 < cs.len();
        match mode {
            CommentMode::LineComment => {
                push_char(&mut out, c);
                if c == '\n' {
                    mode = CommentMode::Code;
                }
                p = p + 1;
            },
            CommentMode::BlockComment => {
                if c == '*' && has_next && cs[p + 1] == '/' {
                    push_char(&mut out, '*');
                    push_char(&mut out, '/');
                    mode = CommentMode::Code;
                    p = p + 2;
                } else {
                    push_char(&mut out, c);
                    p = p + 1;
                }
            },
            CommentMode::Code => {
                if c == '/' && has_next && cs[p + 1] == '/' {
                    push_char(&mut out, '/');
                    push_char(&mut out, '/');
                    mode = CommentMode::LineComment;
                    p = p + 2;
                } else if c == '/' && has_next && cs[p + 1] == '*' {
                    push_char(&mut out, '/');
                    push_char(&mut out, '*');
                    mode = CommentMode::BlockComment;
                    p = p + 2;
                } else if c == '}' {
                    push_char(&mut out, '}');
                    let mut q = p + 1;
                    while q < cs.len() && is_whitespace(cs[q])
                        invariant
                            p < q <= cs@.len(),
                            skip_ws_from(t, q as nat) == skip_ws_from(t, p as nat + 1),
                            cs@ == t,
                        decreases cs@.len() - q,
                    {
                        q = q + 1;
                    }
                    if q < cs.len() && cs[q] != ',' {
                        push_char(&mut out, ',');
                    }
                    proof {
                        lemma_skip_ws_from(t, p as nat + 1);
                    }
                    p = q;
                } else if c == ':' {
                    push_char(&mut out, ':');
                    let ghost mid = out@;
                    proof {
                        lemma_field_scan_advances(t, p as nat + 1);
                    }
                    let (q, early) = field_scan_exec(&cs, p + 1, &mut out);
                    if !early && q < cs.len() {
                        let nl = newline_incoming_exec(&cs, q);
                        let c1 = comment_starts(&cs, q, '/');
                        let c2 = comment_starts(&cs, q, '*');
                        if nl || !(c1 || c2) {
                            out.append(NEW_LINE_PATTERN);
                        }
                    }
                    assert(out@ =~= mid + field_type(t, p as nat + 1).0);
                    p = q;
                } else {
                    push_char(&mut out, c);
                    p = p + 1;
                }
            },
        }
        proof {
            assert(out@ + data_types_from(t, p as nat, mode) =~= before + data_types_from(t, p0, mode0));
        }
    }
    out
}

} // verus!
