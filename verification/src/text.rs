//! Text primitives over character sequences: whitespace, trimming, line
//! splitting, the blank-line normalisation used by the chat view, and the
//! chunking used to replay a reply piece by piece.
use vstd::prelude::*;
use vstd::string::StrSliceExecFns;

verus! {

broadcast use vstd::string::group_string_axioms;

/// Unicode `White_Space`, the set that `char::is_whitespace` tests.
pub open spec fn is_space(c: char) -> bool {
    let u = c as u32;
    ||| 0x9 <= u <= 0xd
    ||| u == 0x20
    ||| u == 0x85
    ||| u == 0xa0
    ||| u == 0x1680
    ||| 0x2000 <= u <= 0x200a
    ||| u == 0x2028
    ||| u == 0x2029
    ||| u == 0x202f
    ||| u == 0x205f
    ||| u == 0x3000
}

pub fn is_whitespace(c: char) -> (r: bool)
    ensures
        r == is_space(c),
{
    let u = c as u32;
    (0x9 <= u && u <= 0xd) || u == 0x20 || u == 0x85 || u == 0xa0 || u == 0x1680 || (0x2000 <= u
        && u <= 0x200a) || u == 0x2028 || u == 0x2029 || u == 0x202f || u == 0x205f || u == 0x3000
}

/// Every character is whitespace.
pub open spec fn is_blank(s: Seq<char>) -> bool {
    forall|i: int| 0 <= i < s.len() ==> is_space(#[trigger] s[i])
}

/// `s` without its leading whitespace.
pub open spec fn trim_start(s: Seq<char>) -> Seq<char>
    decreases s.len(),
{
    if s.len() > 0 && is_space(s[0]) {
        trim_start(s.drop_first())
    } else {
        s
    }
}

/// `s` without its trailing whitespace.
pub open spec fn trim_end(s: Seq<char>) -> Seq<char>
    decreases s.len(),
{
    if s.len() > 0 && is_space(s.last()) {
        trim_end(s.drop_last())
    } else {
        s
    }
}

/// `s` without leading and trailing whitespace, as `str::trim` gives it.
pub open spec fn trim(s: Seq<char>) -> Seq<char> {
    trim_end(trim_start(s))
}

/// The characters of a string slice, in order.
pub fn chars_of(s: &str) -> (v: Vec<char>)
    ensures
        v@ == s@,
{
    let mut v: Vec<char> = Vec::new();
    for c in it: s.chars()
        invariant
            v@ == it.seq().take(it.index() as int),
    {
        v.push(c);
    }
    v
}


/// Whether two string slices hold the same characters.
pub fn str_equals(a: &str, b: &str) -> (r: bool)
    ensures
        r == (a@ == b@),
{
    let x = chars_of(a);
    let y = chars_of(b);
    if x.len() != y.len() {
        return false;
    }
    let n = x.len();
    let mut i: usize = 0;
    while i < n
        invariant
            i <= n,
            n == x@.len(),
            n == y@.len(),
            x@ == a@,
            y@ == b@,
            forall|j: int| 0 <= j < i ==> x@[j] == y@[j],
        decreases n - i,
    {
        if x[i] != y[i] {
            return false;
        }
        i += 1;
    }
    assert(a@ =~= b@);
    true
}

/// Whether every character of `s` is whitespace.
pub fn str_is_blank(s: &str) -> (r: bool)
    ensures
        r == is_blank(s@),
{
    let cs = chars_of(s);
    let n = cs.len();
    let mut i: usize = 0;
    while i < n
        invariant
            i <= n,
            n == cs@.len(),
            cs@ == s@,
            forall|j: int| 0 <= j < i ==> is_space(#[trigger] s@[j]),
        decreases n - i,
    {
        if !is_whitespace(cs[i]) {
            return false;
        }
        i += 1;
    }
    true
}

/// `s` without leading and trailing whitespace.
pub fn trimmed<'a>(s: &'a str) -> (r: &'a str)
    ensures
        r@ == trim(s@),
{
    let cs = chars_of(s);
    let n = cs.len();
    let mut a: usize = 0;
    assert(s@.subrange(0, n as int) =~= s@);
    while a < n && is_whitespace(cs[a])
        invariant
            a <= n,
            n == cs@.len(),
            cs@ == s@,
            trim_start(s@) == trim_start(s@.subrange(a as int, n as int)),
        decreases n - a,
    {
        assert(s@.subrange(a as int, n as int).drop_first() =~= s@.subrange(a + 1, n as int));
        a += 1;
    }
    let mut b: usize = n;
    while b > a && is_whitespace(cs[b - 1])
        invariant
            a <= b <= n,
            n == cs@.len(),
            cs@ == s@,
            trim_start(s@) == s@.subrange(a as int, n as int),
            trim(s@) == trim_end(s@.subrange(a as int, b as int)),
        decreases b,
    {
        assert(s@.subrange(a as int, b as int).drop_last() =~= s@.subrange(a as int, b - 1));
        b -= 1;
    }
    s.substring_char(a, b)
}

/// Removes a carriage return that ends a line.
pub open spec fn strip_cr(l: Seq<char>) -> Seq<char> {
    if l.len() > 0 && l.last() == '\r' {
        l.drop_last()
    } else {
        l
    }
}

/// The lines of `s` when the line being read so far is `cur`: a `\n` ends a
/// line (and a `\r` just before it is dropped), a last line needs no `\n`,
/// and nothing follows a final `\n`.
pub open spec fn lines_from(s: Seq<char>, cur: Seq<char>) -> Seq<Seq<char>>
    decreases s.len(),
{
    if s.len() == 0 {
        if cur.len() == 0 {
            seq![]
        } else {
            seq![cur]
        }
    } else if s[0] == '\n' {
        seq![strip_cr(cur)] + lines_from(s.drop_first(), seq![])
    } else {
        lines_from(s.drop_first(), cur.push(s[0]))
    }
}

/// The lines of `s`, as `str::lines` yields them.
pub open spec fn lines(s: Seq<char>) -> Seq<Seq<char>> {
    lines_from(s, seq![])
}

/// The lines of `text`, each a slice of it.
pub fn split_lines<'a>(text: &'a str) -> (r: Vec<&'a str>)
    ensures
        r.deep_view() == lines(text@),
{
    let cs = chars_of(text);
    let n = cs.len();
    let mut out: Vec<&'a str> = Vec::new();
    let mut start: usize = 0;
    let mut i: usize = 0;
    assert(text@.skip(0) =~= text@);
    assert(text@.subrange(0, 0) =~= Seq::<char>::empty());
    assert(out.deep_view() =~= Seq::<Seq<char>>::empty());
    assert(out.deep_view() + lines(text@) =~= lines(text@));
    while i < n
        invariant
            start <= i <= n,
            n == cs@.len(),
            cs@ == text@,
            out.deep_view() + lines_from(text@.skip(i as int), text@.subrange(start as int, i as int))
                == lines(text@),
        decreases n - i,
    {
        let ghost cur = text@.subrange(start as int, i as int);
        assert(text@.skip(i as int).drop_first() =~= text@.skip(i + 1));
        if cs[i] == '\n' {
            let end = if i > start && cs[i - 1] == '\r' {
                i - 1
            } else {
                i
            };
            assert(strip_cr(cur) =~= text@.subrange(start as int, end as int));
            let piece = text.substring_char(start, end);
            let ghost before = out.deep_view();
            out.push(piece);
            assert(out.deep_view() =~= before.push(strip_cr(cur)));
            assert(text@.subrange(i + 1, i + 1) =~= Seq::<char>::empty());
            assert(out.deep_view() + lines_from(text@.skip(i + 1), seq![]) =~= before + (seq![
                strip_cr(cur),
            ] + lines_from(text@.skip(i + 1), seq![])));
            start = i + 1;
        } else {
            assert(cur.push(text@[i as int]) =~= text@.subrange(start as int, i + 1));
        }
        i += 1;
    }
    assert(text@.skip(n as int) =~= Seq::<char>::empty());
    if start < n {
        let ghost before = out.deep_view();
        out.push(text.substring_char(start, n));
        assert(out.deep_view() =~= before + seq![text@.subrange(start as int, n as int)]);
    } else {
        assert(out.deep_view() =~= out.deep_view() + Seq::<Seq<char>>::empty());
    }
    out
}


/// Replaces every run of blank lines by one empty line; `prev_blank` tells
/// whether the line before `ls` was blank.
pub open spec fn collapse_blank_runs(ls: Seq<Seq<char>>, prev_blank: bool) -> Seq<Seq<char>>
    decreases ls.len(),
{
    if ls.len() == 0 {
        seq![]
    } else if is_blank(ls[0]) {
        (if prev_blank {
            seq![]
        } else {
            seq![seq![]]
        }) + collapse_blank_runs(ls.drop_first(), true)
    } else {
        seq![ls[0]] + collapse_blank_runs(ls.drop_first(), false)
    }
}

/// Drops the blank lines at the end.
pub open spec fn drop_blank_tail(ls: Seq<Seq<char>>) -> Seq<Seq<char>>
    decreases ls.len(),
{
    if ls.len() > 0 && is_blank(ls.last()) {
        drop_blank_tail(ls.drop_last())
    } else {
        ls
    }
}

/// The lines of `s` as the chat view shows them: blank runs become one empty
/// line and trailing blank lines go.
pub open spec fn normalize_lines(s: Seq<char>) -> Seq<Seq<char>> {
    drop_blank_tail(collapse_blank_runs(lines(s), false))
}

/// The lines of `text`, with each run of blank lines shown as one empty line
/// and no blank line at the end.
pub fn normalized_lines<'a>(text: &'a str) -> (r: Vec<&'a str>)
    ensures
        r.deep_view() == normalize_lines(text@),
{
    let ls = split_lines(text);
    let ghost all = ls.deep_view();
    let mut out: Vec<&'a str> = Vec::new();
    let mut previous_blank = false;
    let n = ls.len();
    let mut k: usize = 0;
    assert(all.skip(0) =~= all);
    assert(out.deep_view() + collapse_blank_runs(all, false) =~= collapse_blank_runs(all, false));
    while k < n
        invariant
            k <= n,
            n == ls@.len(),
            all == ls.deep_view(),
            out.deep_view() + collapse_blank_runs(all.skip(k as int), previous_blank)
                == collapse_blank_runs(all, false),
        decreases n - k,
    {
        let line = ls[k];
        let ghost rest = all.skip(k as int);
        assert(rest[0] == line@);
        assert(rest.drop_first() =~= all.skip(k + 1));
        let blank = str_is_blank(line);
        let ghost before = out.deep_view();
        if blank {
            if !previous_blank {
                proof {
                    reveal_strlit("");
                }
                let empty: &'a str = "";
                assert(empty@ =~= Seq::<char>::empty());
                out.push(empty);
                assert(out.deep_view() =~= before + seq![Seq::<char>::empty()]);
            } else {
                assert(out.deep_view() =~= before + Seq::<Seq<char>>::empty());
            }
        } else {
            out.push(line);
            assert(out.deep_view() =~= before + seq![line@]);
        }
        assert(out.deep_view() + collapse_blank_runs(all.skip(k + 1), blank) =~= before
            + collapse_blank_runs(rest, previous_blank));
        previous_blank = blank;
        k += 1;
    }
    assert(all.skip(n as int) =~= Seq::<Seq<char>>::empty());
    assert(out.deep_view() =~= collapse_blank_runs(all, false));
    while out.len() > 0 && str_is_blank(out[out.len() - 1])
        invariant
            drop_blank_tail(out.deep_view()) == normalize_lines(text@),
        decreases out.len(),
    {
        let ghost before = out.deep_view();
        out.pop();
        assert(out.deep_view() =~= before.drop_last());
    }
    out
}


/// Calls `String::push`. Claimed: afterwards the string holds its old
/// characters followed by `c`.
#[verifier::external_body]
pub(crate) fn push_char(s: &mut String, c: char)
    ensures
        final(s)@ == old(s)@.push(c),
{
    s.push(c);
}

/// Calls `String::pop`. Claimed: an empty string stays as it is and gives
/// `None`; otherwise the last character is removed and returned.
#[verifier::external_body]
pub(crate) fn pop_char(s: &mut String) -> (r: Option<char>)
    ensures
        old(s)@.len() == 0 ==> r is None && final(s)@ == old(s)@,
        old(s)@.len() > 0 ==> r == Some(old(s)@.last()) && final(s)@ == old(s)@.drop_last(),
{
    s.pop()
}

/// `s` without `prefix`, when `s` starts with it.
pub fn strip_prefix<'a>(s: &'a str, prefix: &str) -> (r: Option<&'a str>)
    ensures
        r is Some <==> prefix@.is_prefix_of(s@),
        r matches Some(rest) ==> rest@ == s@.skip(prefix@.len() as int),
{
    let x = chars_of(s);
    let p = chars_of(prefix);
    let m = p.len();
    let n = x.len();
    if m > n {
        return None;
    }
    let mut i: usize = 0;
    while i < m
        invariant
            i <= m <= n,
            m == p@.len(),
            n == x@.len(),
            x@ == s@,
            p@ == prefix@,
            forall|j: int| 0 <= j < i ==> p@[j] == x@[j],
        decreases m - i,
    {
        if p[i] != x[i] {
            assert(!prefix@.is_prefix_of(s@)) by {
                if prefix@.is_prefix_of(s@) {
                    assert(s@.subrange(0, m as int)[i as int] == s@[i as int]);
                }
            }
            return None;
        }
        i += 1;
    }
    assert(prefix@ =~= s@.subrange(0, m as int));
    Some(s.substring_char(m, n))
}

/// `s` cut into consecutive pieces of `size` characters; the last piece
/// holds what is left.
pub open spec fn chunks_of(s: Seq<char>, size: nat) -> Seq<Seq<char>>
    decreases s.len(),
{
    if s.len() == 0 || size == 0 {
        seq![]
    } else if s.len() <= size {
        seq![s]
    } else {
        seq![s.take(size as int)] + chunks_of(s.skip(size as int), size)
    }
}

/// The pieces in which a reply is replayed: `chunk_size` characters each,
/// one character when `chunk_size` is zero.
pub open spec fn stream_chunks(s: Seq<char>, chunk_size: nat) -> Seq<Seq<char>> {
    chunks_of(
        s,
        if chunk_size == 0 {
            1
        } else {
            chunk_size
        },
    )
}

/// A piece made full is a chunk of its own, whatever follows it.
proof fn lemma_chunks_full_piece(piece: Seq<char>, rest: Seq<char>, size: nat)
    requires
        size > 0,
        piece.len() == size,
    ensures
        chunks_of(piece + rest, size) == seq![piece] + chunks_of(rest, size),
{
    if rest.len() == 0 {
        assert(piece + rest =~= piece);
        assert(chunks_of(rest, size) =~= Seq::<Seq<char>>::empty());
        assert(seq![piece] + chunks_of(rest, size) =~= seq![piece]);
    } else {
        assert((piece + rest).take(size as int) =~= piece);
        assert((piece + rest).skip(size as int) =~= rest);
    }
}

/// Cuts `text` into pieces of `chunk_size` characters (one character when
/// `chunk_size` is zero); the last piece may be shorter.
pub fn split_text_for_fake_stream(text: &str, chunk_size: usize) -> (r: Vec<String>)
    ensures
        r.deep_view() == stream_chunks(text@, chunk_size as nat),
{
    let ghost size: nat = if chunk_size == 0 {
        1
    } else {
        chunk_size as nat
    };
    let cs = chars_of(text);
    let n = cs.len();
    let mut chunks: Vec<String> = Vec::new();
    let mut current = String::new();
    let mut count: usize = 0;
    let mut i: usize = 0;
    assert(current@ + text@.skip(0) =~= text@);
    assert(chunks.deep_view() + stream_chunks(text@, chunk_size as nat) =~= stream_chunks(
        text@,
        chunk_size as nat,
    ));
    while i < n
        invariant
            i <= n,
            n == cs@.len(),
            cs@ == text@,
            count == current@.len(),
            count < size,
            size == (if chunk_size == 0 {
                1
            } else {
                chunk_size as nat
            }),
            chunks.deep_view() + chunks_of(current@ + text@.skip(i as int), size)
                == stream_chunks(text@, chunk_size as nat),
        decreases n - i,
    {
        let ghost before = chunks.deep_view();
        let ghost old_current = current@;
        assert(old_current + text@.skip(i as int) =~= old_current.push(text@[i as int])
            + text@.skip(i + 1));
        push_char(&mut current, cs[i]);
        count += 1;
        if count >= chunk_size {
            proof {
                lemma_chunks_full_piece(current@, text@.skip(i + 1), size);
            }
            let full = current;
            chunks.push(full);
            current = String::new();
            count = 0;
            assert(chunks.deep_view() =~= before.push(full@));
            assert(current@ + text@.skip(i + 1) =~= text@.skip(i + 1));
            assert(chunks.deep_view() + chunks_of(text@.skip(i + 1), size) =~= before + (seq![
                full@,
            ] + chunks_of(text@.skip(i + 1), size)));
        }
        i += 1;
    }
    assert(text@.skip(n as int) =~= Seq::<char>::empty());
    assert(current@ + text@.skip(n as int) =~= current@);
    if count > 0 {
        let ghost before = chunks.deep_view();
        let last = current;
        chunks.push(last);
        assert(chunks.deep_view() =~= before + seq![last@]);
    } else {
        assert(chunks.deep_view() + chunks_of(current@, size) =~= chunks.deep_view());
    }
    chunks
}

/// Replaying the pieces in order gives back the whole reply, and every piece
/// holds between one and `size` characters, exactly `size` but for the last.
pub(crate) proof fn lemma_chunks_reassemble(s: Seq<char>, size: nat)
    requires
        size > 0,
    ensures
        chunks_of(s, size).flatten() == s,
        forall|i: int|
            0 <= i < chunks_of(s, size).len() ==> 0 < #[trigger] chunks_of(s, size)[i].len()
                <= size,
        forall|i: int|
            0 <= i < chunks_of(s, size).len() - 1 ==> #[trigger] chunks_of(s, size)[i].len()
                == size,
    decreases s.len(),
{
    let c = chunks_of(s, size);
    if s.len() == 0 {
    } else if s.len() <= size {
        assert(c.drop_first() =~= Seq::<Seq<char>>::empty());
        assert(c.drop_first().flatten() =~= Seq::<char>::empty());
        assert(c.first() == s);
        assert(c.flatten() =~= s);
    } else {
        let rest = s.skip(size as int);
        lemma_chunks_reassemble(rest, size);
        assert(c.drop_first() =~= chunks_of(rest, size));
        assert(s.take(size as int) + rest =~= s);
        assert forall|i: int| 0 <= i < c.len() implies 0 < #[trigger] c[i].len() <= size by {
            if i > 0 {
                assert(c[i] == chunks_of(rest, size)[i - 1]);
            }
        }
        assert forall|i: int| 0 <= i < c.len() - 1 implies #[trigger] c[i].len() == size by {
            if i > 0 {
                assert(c[i] == chunks_of(rest, size)[i - 1]);
            }
        }
    }
}

} // verus!
