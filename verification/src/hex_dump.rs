//! Hex dumps of memory for the log: each line shows a run of bytes in hex and
//! as text.
use vstd::prelude::*;
use crate::text::push_char;

verus! {

/// The upper-case hex digit of `d` (below 16).
pub open spec fn hex_digit(d: u8) -> char {
    if d < 10 {
        (48 + d) as char
    } else {
        (55 + d) as char
    }
}

/// A byte as two upper-case hex digits.
pub open spec fn hex_pair(b: u8) -> Seq<char> {
    seq![hex_digit(b / 16), hex_digit(b % 16)]
}

/// How a byte shows as text: printable ASCII other than space as itself,
/// anything else as a dot.
pub open spec fn shown_char(b: u8) -> char {
    if 0x21 <= b <= 0x7E {
        b as char
    } else {
        '.'
    }
}

/// The hex part of a line: each byte's pair followed by a space, except the
/// last byte of a full line.
pub open spec fn hex_field(chunk: Seq<u8>, full: bool) -> Seq<char>
    decreases chunk.len(),
{
    if chunk.len() == 0 {
        Seq::empty()
    } else {
        let rest = chunk.drop_first();
        hex_pair(chunk[0]) + (if rest.len() == 0 && full {
            Seq::<char>::empty()
        } else {
            seq![' ']
        }) + hex_field(rest, full)
    }
}

/// A line of the dump: the hex part, four spaces, the text part.
pub open spec fn dump_line(chunk: Seq<u8>, full: bool) -> Seq<char> {
    hex_field(chunk, full) + "    "@ + chunk.map_values(|b: u8| shown_char(b))
}

/// The `k`-th run of `width` bytes (the last one may be shorter).
pub open spec fn chunk_of(buf: Seq<u8>, width: int, k: int) -> Seq<u8> {
    let end = if (k + 1) * width <= buf.len() {
        (k + 1) * width
    } else {
        buf.len() as int
    };
    buf.subrange(k * width, end)
}

pub(crate) fn hex_digit_exec(d: u8) -> (res: char)
    requires
        d < 16,
    ensures
        res == hex_digit(d),
{
    if d < 10 {
        (48u8 + d) as char
    } else {
        (55u8 + d) as char
    }
}

proof fn lemma_hex_field_split(chunk: Seq<u8>, k: int, full: bool)
    requires
        0 <= k < chunk.len(),
    ensures
        hex_field(chunk.skip(k), full) == hex_pair(chunk[k]) + (if k + 1 == chunk.len() && full {
            Seq::<char>::empty()
        } else {
            seq![' ']
        }) + hex_field(chunk.skip(k + 1), full),
{
    assert(chunk.skip(k).drop_first() =~= chunk.skip(k + 1));
}

fn dump_line_exec(chunk: &[u8], full: bool) -> (res: String)
    ensures
        res@ == dump_line(chunk@, full),
{
    let mut s = String::new();
    let mut k: usize = 0;
    assert(chunk@.skip(0) =~= chunk@);
    while k < chunk.len()
        invariant
            k <= chunk@.len(),
            s@ + hex_field(chunk@.skip(k as int), full) == hex_field(chunk@, full),
        decreases chunk@.len() - k,
    {
        proof {
            lemma_hex_field_split(chunk@, k as int, full);
        }
        let b = chunk[k];
        push_char(&mut s, hex_digit_exec(b / 16));
        push_char(&mut s, hex_digit_exec(b % 16));
        if !(k + 1 == chunk.len() && full) {
            push_char(&mut s, ' ');
        }
        k = k + 1;
        proof {
            assert(s@ + hex_field(chunk@.skip(k as int), full) =~= hex_field(chunk@, full));
        }
    }
    assert(chunk@.skip(k as int).len() == 0);
    let ghost hex = s@;
    push_char(&mut s, ' ');
    push_char(&mut s, ' ');
    push_char(&mut s, ' ');
    push_char(&mut s, ' ');
    let ghost spaced = s@;
    assert(spaced =~= hex + "    "@) by {
        reveal_strlit("    ");
    }
    let mut k: usize = 0;
    while k < chunk.len()
        invariant
            k <= chunk@.len(),
            s@ == spaced + chunk@.take(k as int).map_values(|b: u8| shown_char(b)),
        decreases chunk@.len() - k,
    {
        let b = chunk[k];
        let c = if 0x21 <= b && b <= 0x7E {
            b as char
        } else {
            '.'
        };
        push_char(&mut s, c);
        k = k + 1;
        assert(s@ =~= spaced + chunk@.take(k as int).map_values(|b: u8| shown_char(b)));
    }
    assert(chunk@.take(k as int) =~= chunk@);
    s
}

/// The lines of a hex dump of `buf` with `width` bytes per line.
pub fn hex_dump(buf: &[u8], width: usize) -> (res: Vec<String>)
    requires
        0 < width <= usize::MAX / 3,
    ensures
        res@.len() * width >= buf@.len(),
        res@.len() > 0 ==> (res@.len() - 1) * width < buf@.len(),
        forall|k: int|
            0 <= k < res@.len() ==> #[trigger] res@[k]@ == dump_line(
                chunk_of(buf@, width as int, k),
                (k + 1) * width <= buf@.len(),
            ),
{
    let mut lines: Vec<String> = Vec::new();
    let mut start: usize = 0;
    assert(lines@.len() * width == 0) by (nonlinear_arith)
        requires
            lines@.len() == 0,
    ;
    while start < buf.len()
        invariant
            0 < width,
            start <= buf@.len(),
            start == lines@.len() * width || (start == buf@.len() && lines@.len() * width >= buf@.len()),
            lines@.len() > 0 ==> (lines@.len() - 1) * width < buf@.len(),
            forall|k: int|
                0 <= k < lines@.len() ==> #[trigger] lines@[k]@ == dump_line(
                    chunk_of(buf@, width as int, k),
                    (k + 1) * width <= buf@.len(),
                ),
        decreases buf@.len() - start,
    {
        let ghost k = lines@.len() as int;
        let full = buf.len() - start >= width;
        let end = if full {
            start + width
        } else {
            buf.len()
        };
        proof {
            assert((k + 1) * width == k * width + width) by (nonlinear_arith);
        }
        let chunk = vstd::slice::slice_subrange(buf, start, end);
        assert(chunk@ == chunk_of(buf@, width as int, k));
        let line = dump_line_exec(chunk, full);
        lines.push(line);
        start = end;
        proof {
            if !full {
                assert((k + 1) * width >= buf@.len());
            }
            assert(lines@.len() == k + 1);
        }
    }
    lines
}

} // verus!
