//! The text shown on screen: the rows of the issue list, the lines of the
//! preview, wrapping and horizontal scrolling.

use vstd::prelude::*;
use crate::github::{Comment, IssueDetail};
use crate::text::{chars_of, decimal, push_char, push_decimal, push_str, string_of_range, trim, trimmed};

verus! {

/// The number of bytes of the UTF-8 encoding of `s` (`String::len`).
pub open spec fn utf8_len(s: Seq<char>) -> nat {
    vstd::utf8::encode_utf8(s).len()
}

/// The number of bytes of the UTF-8 encoding of `c`.
pub open spec fn char_utf8_len(c: char) -> nat {
    vstd::utf8::encode_scalar(c as u32).len()
}

/// Encoding one more character adds its own bytes.
proof fn lemma_utf8_len_push(s: Seq<char>, c: char)
    ensures
        utf8_len(s.push(c)) == utf8_len(s) + char_utf8_len(c),
    decreases s.len(),
{
    let t = s.push(c);
    if s.len() == 0 {
        assert(t.drop_first() =~= Seq::<char>::empty());
        assert(vstd::utf8::encode_utf8(t) == vstd::utf8::encode_scalar(c as u32)
            + vstd::utf8::encode_utf8(t.drop_first()));
    } else {
        assert(t.drop_first() =~= s.drop_first().push(c));
        lemma_utf8_len_push(s.drop_first(), c);
        assert(vstd::utf8::encode_utf8(t) == vstd::utf8::encode_scalar(s[0] as u32)
            + vstd::utf8::encode_utf8(t.drop_first()));
        assert(vstd::utf8::encode_utf8(s) == vstd::utf8::encode_scalar(s[0] as u32)
            + vstd::utf8::encode_utf8(s.drop_first()));
    }
}

/// The number of bytes of the UTF-8 encoding of `c` (`char::len_utf8`).
fn char_width(c: char) -> (w: usize)
    ensures
        w == char_utf8_len(c),
{
    let v = c as u32;
    if v <= 0x7f {
        assert(vstd::utf8::encode_scalar(v).len() == 1);
        1
    } else if v <= 0x7ff {
        assert(vstd::utf8::encode_scalar(v).len() == 2);
        2
    } else if v <= 0xffff {
        assert(vstd::utf8::encode_scalar(v).len() == 3);
        3
    } else {
        assert(vstd::utf8::encode_scalar(v).len() == 4);
        4
    }
}

/// The UTF-8 length of `chars[from..to]`, or `cap` if that is smaller.
fn utf8_len_capped(chars: &Vec<char>, from: usize, to: usize, cap: usize) -> (r: usize)
    requires
        from <= to <= chars.len(),
    ensures
        r == if utf8_len(chars@.subrange(from as int, to as int)) < cap {
            utf8_len(chars@.subrange(from as int, to as int))
        } else {
            cap as nat
        },
{
    let mut acc: usize = 0;
    let mut i = from;
    assert(chars@.subrange(from as int, from as int) =~= Seq::<char>::empty());
    while i < to
        invariant
            from <= i <= to <= chars.len(),
            acc == if utf8_len(chars@.subrange(from as int, i as int)) < cap {
                utf8_len(chars@.subrange(from as int, i as int))
            } else {
                cap as nat
            },
        decreases to - i,
    {
        let c = chars[i];
        let w = char_width(c);
        proof {
            assert(chars@.subrange(from as int, i + 1) =~= chars@.subrange(from as int, i as int).push(
                chars@[i as int],
            ));
            lemma_utf8_len_push(chars@.subrange(from as int, i as int), chars@[i as int]);
            assert(w == char_utf8_len(chars@[i as int]));
        }
        if acc < cap {
            acc = if cap - acc > w { acc + w } else { cap };
        }
        i += 1;
    }
    acc
}

/// `n` spaces.
pub open spec fn spaces(n: nat) -> Seq<char> {
    Seq::new(n, |i: int| ' ')
}

/// The characters of `text` shown in a column `width` wide, scrolled by
/// `offset` characters: at most `width` characters, padded with spaces while
/// their UTF-8 length is below `width`.
pub open spec fn hscroll(text: Seq<char>, offset: nat, width: nat) -> Seq<char> {
    if width == 0 {
        Seq::empty()
    } else {
        let from: int = if offset < text.len() { offset as int } else { text.len() as int };
        let to: int = if text.len() - from > width { from + width } else { text.len() as int };
        let shown = text.subrange(from, to);
        if utf8_len(shown) < width {
            shown + spaces((width - utf8_len(shown)) as nat)
        } else {
            shown
        }
    }
}

/// Appends `n` spaces to `s`.
fn push_spaces(s: &mut String, n: usize)
    ensures
        final(s)@ == old(s)@ + spaces(n as nat),
{
    let mut i: usize = 0;
    while i < n
        invariant
            i <= n,
            s@ == old(s)@ + spaces(i as nat),
        decreases n - i,
    {
        push_char(s, ' ');
        i += 1;
        assert(s@ =~= old(s)@ + spaces(i as nat));
    }
}

/// `text` as shown in a column `max_width` wide, scrolled by `offset` characters.
pub fn apply_hscroll(text: &str, offset: usize, max_width: usize) -> (out: String)
    ensures
        out@ == hscroll(text@, offset as nat, max_width as nat),
{
    if max_width == 0 {
        return String::new();
    }
    let chars = chars_of(text);
    let n = chars.len();
    let from = if offset < n { offset } else { n };
    let to = if n - from > max_width { from + max_width } else { n };
    let mut out = string_of_range(&chars, from, to);
    let bytes = utf8_len_capped(&chars, from, to, max_width);
    if bytes < max_width {
        push_spaces(&mut out, max_width - bytes);
    }
    out
}

/// The pieces of a non-empty line cut every `width` characters.
pub open spec fn chunks(line: Seq<char>, width: nat) -> Seq<Seq<char>>
    decreases line.len(),
{
    if width == 0 || line.len() <= width {
        seq![line]
    } else {
        seq![line.take(width as int)] + chunks(line.skip(width as int), width)
    }
}

/// A line as wrapped to `width` columns: an empty line stays one empty line.
pub open spec fn wrap_line(line: Seq<char>, width: nat) -> Seq<Seq<char>> {
    if line.len() == 0 {
        seq![Seq::empty()]
    } else {
        chunks(line, width)
    }
}

/// All lines wrapped to `width` columns, one after the other.
pub open spec fn wrap_all(lines: Seq<Seq<char>>, width: nat) -> Seq<Seq<char>>
    decreases lines.len(),
{
    if lines.len() == 0 {
        Seq::empty()
    } else {
        wrap_all(lines.drop_last(), width) + wrap_line(lines.last(), width)
    }
}

/// What `wrap_lines` gives: nothing for a zero width, else the wrapped lines.
pub open spec fn wrapped(lines: Seq<Seq<char>>, width: nat) -> Seq<Seq<char>> {
    if width == 0 {
        Seq::empty()
    } else {
        wrap_all(lines, width)
    }
}

/// The texts of a sequence of strings.
pub open spec fn texts(v: Seq<String>) -> Seq<Seq<char>> {
    v.map_values(|s: String| s@)
}

/// Appends the pieces of one line, wrapped to `width`, to `out`.
fn push_wrapped_line(out: &mut Vec<String>, line: &String, width: usize)
    requires
        width > 0,
    ensures
        texts(final(out)@) == texts(old(out)@) + wrap_line(line@, width as nat),
{
    let chars = chars_of(line.as_str());
    let n = chars.len();
    if n == 0 {
        out.push(String::new());
        assert(texts(out@) =~= texts(old(out)@) + wrap_line(line@, width as nat));
        return;
    }
    let mut i: usize = 0;
    assert(chars@.skip(0) =~= chars@);
    assert(texts(out@) + Seq::<Seq<char>>::empty() =~= texts(out@));
    while n - i > width
        invariant
            i < n == chars.len(),
            width > 0,
            texts(old(out)@) + chunks(chars@, width as nat) == texts(out@) + chunks(
                chars@.skip(i as int),
                width as nat,
            ),
        decreases n - i,
    {
        let piece = string_of_range(&chars, i, i + width);
        let ghost before = texts(out@);
        out.push(piece);
        proof {
            let rest = chars@.skip(i as int);
            assert(rest.take(width as int) =~= chars@.subrange(i as int, i + width));
            assert(rest.skip(width as int) =~= chars@.skip(i + width));
            assert(texts(out@) =~= before.push(chars@.subrange(i as int, i + width)));
            assert(before + chunks(rest, width as nat) =~= texts(out@) + chunks(
                chars@.skip(i + width),
                width as nat,
            ));
        }
        i += width;
    }
    let piece = string_of_range(&chars, i, n);
    let ghost before = texts(out@);
    out.push(piece);
    proof {
        let rest = chars@.skip(i as int);
        assert(rest =~= chars@.subrange(i as int, n as int));
        assert(texts(out@) =~= before.push(rest));
        assert(before + chunks(rest, width as nat) =~= texts(out@));
    }
}

/// The lines wrapped to `width` columns.
pub fn wrap_lines(lines: &Vec<String>, width: usize) -> (out: Vec<String>)
    ensures
        texts(out@) == wrapped(texts(lines@), width as nat),
{
    let mut out: Vec<String> = Vec::new();
    if width == 0 {
        assert(texts(out@) =~= Seq::<Seq<char>>::empty());
        return out;
    }
    let mut k: usize = 0;
    assert(texts(lines@).take(0) =~= Seq::<Seq<char>>::empty());
    assert(texts(out@) =~= Seq::<Seq<char>>::empty());
    while k < lines.len()
        invariant
            k <= lines.len(),
            width > 0,
            texts(out@) == wrap_all(texts(lines@).take(k as int), width as nat),
        decreases lines.len() - k,
    {
        push_wrapped_line(&mut out, &lines[k], width);
        proof {
            let t = texts(lines@).take(k + 1);
            assert(t.drop_last() =~= texts(lines@).take(k as int));
            assert(t.last() == lines@[k as int]@);
        }
        k += 1;
    }
    assert(texts(lines@).take(k as int) =~= texts(lines@));
    out
}

} // verus!

verus! {

/// The body as previewed: trimmed, or `(no body)` when there is none or it
/// is blank.
pub open spec fn body_line(body: Option<String>) -> Seq<char> {
    match body {
        Some(b) => if trim(b@).len() > 0 {
            trim(b@)
        } else {
            "(no body)"@
        },
        None => "(no body)"@,
    }
}

/// The preview lines of the comments: for each, a blank line, its author
/// and time, and its body.
pub open spec fn comment_lines(cs: Seq<Comment>) -> Seq<Seq<char>>
    decreases cs.len(),
{
    if cs.len() == 0 {
        Seq::empty()
    } else {
        comment_lines(cs.drop_last()) + seq![
            Seq::<char>::empty(),
            cs.last().user.login@ + " @ "@ + cs.last().created_at@,
            cs.last().body@,
        ]
    }
}

/// The preview lines of an issue: number and title, author, creation time,
/// the body, the number of comments and the comments.
pub open spec fn detail_lines(d: IssueDetail) -> Seq<Seq<char>> {
    seq![
        "#"@ + decimal(d.number as nat) + " "@ + d.title@,
        "Author: "@ + d.user.login@,
        "Created: "@ + d.created_at@,
        Seq::<char>::empty(),
        body_line(d.body),
        Seq::<char>::empty(),
        "Comments: "@ + decimal(d.comments@.len()),
    ] + comment_lines(d.comments@)
}

/// A string of `a` followed by `b`.
fn concat2(a: &str, b: &str) -> (s: String)
    ensures
        s@ == a@ + b@,
{
    let mut s = String::new();
    push_str(&mut s, a);
    push_str(&mut s, b);
    assert(s@ =~= a@ + b@);
    s
}

/// The body line of the preview.
fn render_body(body: &Option<String>) -> (s: String)
    ensures
        s@ == body_line(*body),
{
    match body {
        Some(b) => {
            let t = trimmed(b.as_str());
            if t.as_str().is_empty() {
                String::from_str("(no body)")
            } else {
                t
            }
        },
        None => String::from_str("(no body)"),
    }
}

/// The preview lines of an issue.
pub fn render_detail(detail: &IssueDetail) -> (lines: Vec<String>)
    ensures
        texts(lines@) == detail_lines(*detail),
{
    let mut lines: Vec<String> = Vec::new();
    let mut head = String::from_str("#");
    push_decimal(&mut head, detail.number);
    push_str(&mut head, " ");
    push_str(&mut head, detail.title.as_str());
    lines.push(head);
    lines.push(concat2("Author: ", detail.user.login.as_str()));
    lines.push(concat2("Created: ", detail.created_at.as_str()));
    lines.push(String::new());
    lines.push(render_body(&detail.body));
    lines.push(String::new());
    let mut count = String::from_str("Comments: ");
    push_decimal(&mut count, detail.comments.len() as u64);
    lines.push(count);
    let ghost header = texts(lines@);
    assert(header =~= detail_lines(*detail).take(7));
    let mut k: usize = 0;
    assert(detail.comments@.take(0) =~= Seq::<Comment>::empty());
    assert(header + comment_lines(detail.comments@.take(0)) =~= header);
    while k < detail.comments.len()
        invariant
            k <= detail.comments.len(),
            header == detail_lines(*detail).take(7),
            texts(lines@) == header + comment_lines(detail.comments@.take(k as int)),
        decreases detail.comments.len() - k,
    {
        let comment = &detail.comments[k];
        let ghost before = texts(lines@);
        lines.push(String::new());
        let mut by = String::new();
        push_str(&mut by, comment.user.login.as_str());
        push_str(&mut by, " @ ");
        push_str(&mut by, comment.created_at.as_str());
        assert(by@ =~= comment.user.login@ + " @ "@ + comment.created_at@);
        let ghost by_text = by@;
        lines.push(by);
        lines.push(comment.body.clone());
        proof {
            assert(texts(lines@) =~= before + seq![Seq::<char>::empty(), by_text, comment.body@]);
            let cs = detail.comments@.take(k + 1);
            assert(cs.drop_last() =~= detail.comments@.take(k as int));
            assert(cs.last() == detail.comments@[k as int]);
            assert(texts(lines@) =~= header + comment_lines(cs));
        }
        k += 1;
    }
    assert(detail.comments@.take(k as int) =~= detail.comments@);
    assert(texts(lines@) =~= detail_lines(*detail));
    lines
}

/// Lines joined with line breaks between them.
pub open spec fn joined(lines: Seq<Seq<char>>) -> Seq<char>
    decreases lines.len(),
{
    if lines.len() == 0 {
        Seq::empty()
    } else if lines.len() == 1 {
        lines[0]
    } else {
        joined(lines.drop_last()) + "\n"@ + lines.last()
    }
}

/// `lines[from..to]` joined with line breaks between them.
pub fn join_lines(lines: &Vec<String>, from: usize, to: usize) -> (s: String)
    requires
        from <= to <= lines.len(),
    ensures
        s@ == joined(texts(lines@).subrange(from as int, to as int)),
{
    let mut s = String::new();
    let mut i = from;
    assert(texts(lines@).subrange(from as int, from as int) =~= Seq::<Seq<char>>::empty());
    while i < to
        invariant
            from <= i <= to <= lines.len(),
            s@ == joined(texts(lines@).subrange(from as int, i as int)),
        decreases to - i,
    {
        if i > from {
            push_str(&mut s, "\n");
        }
        push_str(&mut s, lines[i].as_str());
        proof {
            let t = texts(lines@).subrange(from as int, i + 1);
            assert(t.drop_last() =~= texts(lines@).subrange(from as int, i as int));
            assert(t.last() == lines@[i as int]@);
            if i == from {
                assert(t.len() == 1);
                assert(s@ =~= t[0]);
            } else {
                assert(s@ =~= joined(t.drop_last()) + "\n"@ + t.last());
            }
        }
        i += 1;
    }
    s
}

} // verus!

verus! {

/// Cutting a non-empty line gives non-empty pieces of at most `width`
/// characters which, put back together, give the line.
pub proof fn lemma_chunks(line: Seq<char>, width: nat)
    requires
        width > 0,
        line.len() > 0,
    ensures
        forall|i: int|
            0 <= i < chunks(line, width).len() ==> 0 < (#[trigger] chunks(line, width)[i]).len()
                <= width,
        chunks(line, width).flatten() == line,
    decreases line.len(),
{
    if line.len() > width {
        let rest = line.skip(width as int);
        lemma_chunks(rest, width);
        let first = seq![line.take(width as int)];
        assert(chunks(line, width) == first + chunks(rest, width));
        assert forall|i: int| 0 <= i < chunks(line, width).len() implies 0 < (
        #[trigger] chunks(line, width)[i]).len() <= width by {
            if i > 0 {
                assert(chunks(line, width)[i] == chunks(rest, width)[i - 1]);
            }
        }
        let all = first + chunks(rest, width);
        assert(all.drop_first() =~= chunks(rest, width));
        assert(all.first() == line.take(width as int));
        assert(line.take(width as int) + rest =~= line);
    } else {
        let c = seq![line];
        assert(c.drop_first() =~= Seq::<Seq<char>>::empty());
        assert(c.drop_first().flatten() =~= Seq::<char>::empty());
        assert(c.first() == line);
        assert(c.flatten() =~= line);
    }
}

/// Every wrapped line fits in the width.
pub proof fn lemma_wrapped_fits(lines: Seq<Seq<char>>, width: nat)
    ensures
        forall|i: int|
            0 <= i < wrapped(lines, width).len() ==> (#[trigger] wrapped(lines, width)[i]).len()
                <= width,
    decreases lines.len(),
{
    if width > 0 && lines.len() > 0 {
        lemma_wrapped_fits(lines.drop_last(), width);
        let last = lines.last();
        let w = wrap_line(last, width);
        if last.len() > 0 {
            lemma_chunks(last, width);
        }
        let prev = wrap_all(lines.drop_last(), width);
        assert forall|i: int| 0 <= i < wrapped(lines, width).len() implies (
        #[trigger] wrapped(lines, width)[i]).len() <= width by {
            if i < prev.len() {
                assert(wrapped(lines, width)[i] == prev[i]);
                assert(wrapped(lines.drop_last(), width)[i] == prev[i]);
            } else {
                assert(wrapped(lines, width)[i] == w[i - prev.len()]);
            }
        }
    }
}

/// An ASCII text is shown exactly as wide as its column.
pub proof fn lemma_ascii_hscroll_width(text: Seq<char>, offset: nat, width: nat)
    requires
        vstd::utf8::is_ascii_chars(text),
    ensures
        hscroll(text, offset, width).len() == width,
{
    if width > 0 {
        let from: int = if offset < text.len() { offset as int } else { text.len() as int };
        let to: int = if text.len() - from > width { from + width } else { text.len() as int };
        let shown = text.subrange(from, to);
        assert(vstd::utf8::is_ascii_chars(shown));
        vstd::utf8::is_ascii_chars_encode_utf8(shown);
    }
}

} // verus!

verus! {

/// The wrapped pieces of each line, one group per line.
pub open spec fn wrap_groups(lines: Seq<Seq<char>>, width: nat) -> Seq<Seq<Seq<char>>> {
    lines.map_values(|l: Seq<char>| wrap_line(l, width))
}

/// A non-empty line is cut into as many pieces as it needs: its length
/// divided by the width, rounded up.
pub proof fn lemma_chunks_count(line: Seq<char>, width: nat)
    requires
        width > 0,
        line.len() > 0,
    ensures
        chunks(line, width).len() == (line.len() + width - 1) / (width as int),
    decreases line.len(),
{
    let w = width as int;
    let n = line.len() as int;
    vstd::arithmetic::div_mod::lemma_div_plus_one(n - 1, w);
    assert(w + (n - 1) == n + w - 1);
    if n <= w {
        vstd::arithmetic::div_mod::lemma_basic_div(n - 1, w);
    } else {
        let rest = line.skip(w);
        lemma_chunks_count(rest, width);
        assert(rest.len() + w - 1 == n - 1);
    }
}

/// Wrapping lines gives, in order, the pieces of each line: the lines regroup
/// from the wrapped lines, each group rejoins to its line, and a line gives
/// one piece if it is empty and its length divided by the width, rounded up,
/// otherwise.
pub proof fn lemma_wrap_lines_regroup(lines: Seq<Seq<char>>, width: nat)
    requires
        width > 0,
    ensures
        wrapped(lines, width) == wrap_groups(lines, width).flatten(),
        wrap_groups(lines, width).len() == lines.len(),
        forall|i: int|
            0 <= i < lines.len() ==> (#[trigger] wrap_groups(lines, width)[i]).flatten()
                == lines[i],
        forall|i: int|
            0 <= i < lines.len() ==> (#[trigger] wrap_groups(lines, width)[i]).len() == if lines[i].len()
                == 0 {
                1
            } else {
                (lines[i].len() + width - 1) / (width as int)
            },
    decreases lines.len(),
{
    let g = wrap_groups(lines, width);
    g.lemma_flatten_and_flatten_alt_are_equivalent();
    if lines.len() > 0 {
        lemma_wrap_lines_regroup(lines.drop_last(), width);
        let g0 = wrap_groups(lines.drop_last(), width);
        assert(g.drop_last() =~= g0);
        g0.lemma_flatten_and_flatten_alt_are_equivalent();
        assert(g.last() == wrap_line(lines.last(), width));
        assert(wrap_all(lines, width) == wrap_all(lines.drop_last(), width) + wrap_line(
            lines.last(),
            width,
        ));
    } else {
        assert(g.len() == 0);
    }
    assert forall|i: int| 0 <= i < lines.len() implies (#[trigger] g[i]).flatten() == lines[i]
        && g[i].len() == if lines[i].len() == 0 {
        1
    } else {
        (lines[i].len() + width - 1) / (width as int)
    } by {
        let l = lines[i];
        assert(g[i] == wrap_line(l, width));
        if l.len() == 0 {
            let e = seq![Seq::<char>::empty()];
            assert(e.drop_first() =~= Seq::<Seq<char>>::empty());
            assert(e.drop_first().flatten() =~= Seq::<char>::empty());
            assert(e.flatten() =~= l);
        } else {
            lemma_chunks(l, width);
            lemma_chunks_count(l, width);
        }
    }
}

} // verus!

verus! {

/// Every character takes at least one byte.
proof fn lemma_utf8_len_at_least(s: Seq<char>)
    ensures
        utf8_len(s) >= s.len(),
    decreases s.len(),
{
    if s.len() > 0 {
        lemma_utf8_len_at_least(s.drop_first());
        assert(vstd::utf8::encode_utf8(s) == vstd::utf8::encode_scalar(s[0] as u32)
            + vstd::utf8::encode_utf8(s.drop_first()));
        assert(vstd::utf8::encode_scalar(s[0] as u32).len() >= 1);
    }
}

/// A scrolled column never is wider than its width: it shows the characters
/// of the text from the offset on, as many as fit, and pads only with spaces.
pub proof fn lemma_hscroll_shows_text(text: Seq<char>, offset: nat, width: nat)
    ensures
        hscroll(text, offset, width).len() <= width,
        ({
            let from: int = if offset < text.len() { offset as int } else { text.len() as int };
            let k: int = if text.len() - from < width { text.len() - from } else { width as int };
            &&& k <= hscroll(text, offset, width).len()
            &&& hscroll(text, offset, width).take(k) == text.subrange(from, from + k)
            &&& forall|i: int|
                k <= i < hscroll(text, offset, width).len() ==> #[trigger] hscroll(
                    text,
                    offset,
                    width,
                )[i] == ' '
        }),
{
    let from: int = if offset < text.len() { offset as int } else { text.len() as int };
    let k: int = if text.len() - from < width { text.len() - from } else { width as int };
    let r = hscroll(text, offset, width);
    if width > 0 {
        let to: int = if text.len() - from > width { from + width } else { text.len() as int };
        let shown = text.subrange(from, to);
        lemma_utf8_len_at_least(shown);
        assert(shown.len() == k);
        assert(r.take(k) =~= shown);
    } else {
        assert(r.len() == 0);
        assert(r.take(k) =~= text.subrange(from, from + k));
    }
}

/// The comment lines hold three lines per comment: a blank line, the author
/// and time, and the body.
proof fn lemma_comment_lines(cs: Seq<Comment>)
    ensures
        comment_lines(cs).len() == 3 * cs.len(),
        forall|i: int|
            0 <= i < cs.len() ==> {
                &&& #[trigger] comment_lines(cs)[3 * i] == Seq::<char>::empty()
                &&& comment_lines(cs)[3 * i + 1] == cs[i].user.login@ + " @ "@ + cs[i].created_at@
                &&& comment_lines(cs)[3 * i + 2] == cs[i].body@
            },
    decreases cs.len(),
{
    if cs.len() > 0 {
        lemma_comment_lines(cs.drop_last());
        let prev = comment_lines(cs.drop_last());
        assert forall|i: int| 0 <= i < cs.len() implies {
            &&& #[trigger] comment_lines(cs)[3 * i] == Seq::<char>::empty()
            &&& comment_lines(cs)[3 * i + 1] == cs[i].user.login@ + " @ "@ + cs[i].created_at@
            &&& comment_lines(cs)[3 * i + 2] == cs[i].body@
        } by {
            if i < cs.len() - 1 {
                assert(cs[i] == cs.drop_last()[i]);
                assert(comment_lines(cs)[3 * i] == prev[3 * i]);
                assert(comment_lines(cs)[3 * i + 1] == prev[3 * i + 1]);
                assert(comment_lines(cs)[3 * i + 2] == prev[3 * i + 2]);
            }
        }
    }
}

/// The preview of an issue has seven heading lines (the fifth is the trimmed
/// body, or `(no body)` when it is missing or blank), then three lines for
/// every comment, in order, each ending with the comment's body.
pub proof fn lemma_detail_lines(d: IssueDetail)
    ensures
        detail_lines(d).len() == 7 + 3 * d.comments@.len(),
        detail_lines(d)[3] == Seq::<char>::empty(),
        detail_lines(d)[5] == Seq::<char>::empty(),
        d.body is Some && trim(d.body->0@).len() > 0 ==> detail_lines(d)[4] == trim(d.body->0@),
        !(d.body is Some && trim(d.body->0@).len() > 0) ==> detail_lines(d)[4] == "(no body)"@,
        forall|i: int|
            0 <= i < d.comments@.len() ==> {
                &&& detail_lines(d)[7 + 3 * i] == Seq::<char>::empty()
                &&& #[trigger] detail_lines(d)[7 + 3 * i + 2] == d.comments@[i].body@
            },
{
    lemma_comment_lines(d.comments@);
    let c = comment_lines(d.comments@);
    assert forall|i: int| 0 <= i < d.comments@.len() implies {
        &&& detail_lines(d)[7 + 3 * i] == Seq::<char>::empty()
        &&& #[trigger] detail_lines(d)[7 + 3 * i + 2] == d.comments@[i].body@
    } by {
        assert(detail_lines(d)[7 + 3 * i] == c[3 * i]);
        assert(detail_lines(d)[7 + 3 * i + 2] == c[3 * i + 2]);
    }
}

} // verus!
