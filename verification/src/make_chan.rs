use crate::select_parse::{Span, skip_ws, skip_ws_exec, span, trim_end, trim_end_exec};
use vstd::prelude::*;

verus! {

/// The arguments of `make_chan!`: an element type, and for a buffered channel a capacity,
/// each as a span of the input.
#[derive(Debug, Clone, Copy, PartialEq, Eq, Structural)]
pub enum ChanArgs {
    Unbuffered { ty: Span },
    Buffered { ty: Span, size: Span },
}

/// The end of `s[..e]` once every trailing `)` is cut off.
pub open spec fn strip_close(s: Seq<u8>, e: int) -> int
    decreases e,
{
    if 0 < e <= s.len() && s[e - 1] == 0x29u8 {
        strip_close(s, e - 1)
    } else {
        e
    }
}

/// The first comma in `[p, e)`, or `e`.
pub open spec fn next_comma(s: Seq<u8>, p: int, e: int) -> int
    decreases e - p,
{
    if p >= e {
        e
    } else if s[p] == 0x2cu8 {
        p
    } else {
        next_comma(s, p + 1, e)
    }
}

/// `[a, b)` without the white space at either end.
pub open spec fn trimmed(s: Seq<u8>, a: int, b: int) -> Span {
    let st = if skip_ws(s, a) < b {
        skip_ws(s, a)
    } else {
        b
    };
    span(st, trim_end(s, st, b))
}

/// What `make_chan!(ty)` or `make_chan!(ty, size)` reads: after trailing `)` are cut off, the
/// text up to the first comma is the type, and the text between the first and the second comma
/// (or the end) is the capacity; without a comma the channel is unbuffered.
pub open spec fn chan_args_spec(s: Seq<u8>) -> ChanArgs {
    let e = strip_close(s, s.len() as int);
    let c1 = next_comma(s, 0, e);
    if c1 >= e {
        ChanArgs::Unbuffered { ty: trimmed(s, 0, e) }
    } else {
        ChanArgs::Buffered { ty: trimmed(s, 0, c1), size: trimmed(s, c1 + 1, next_comma(s, c1 + 1, e)) }
    }
}

fn strip_close_exec(s: &[u8]) -> (e: usize)
    ensures
        e == strip_close(s@, s@.len() as int),
        e <= s@.len(),
{
    let mut e = s.len();
    while e > 0 && s[e - 1] == 0x29u8
        invariant
            e <= s@.len(),
            strip_close(s@, e as int) == strip_close(s@, s@.len() as int),
        decreases e,
    {
        e = e - 1;
    }
    e
}

fn next_comma_exec(s: &[u8], p: usize, e: usize) -> (c: usize)
    requires
        p <= e <= s@.len(),
    ensures
        c == next_comma(s@, p as int, e as int),
        p <= c <= e,
{
    let mut c = p;
    while c < e && s[c] != 0x2cu8
        invariant
            p <= c <= e <= s@.len(),
            next_comma(s@, c as int, e as int) == next_comma(s@, p as int, e as int),
        decreases e - c,
    {
        c = c + 1;
    }
    c
}

fn trimmed_exec(s: &[u8], a: usize, b: usize) -> (r: Span)
    requires
        a <= b <= s@.len(),
    ensures
        r == trimmed(s@, a as int, b as int),
        r.start <= r.end <= b,
{
    let k = skip_ws_exec(s, a);
    let st = if k < b {
        k
    } else {
        b
    };
    let en = trim_end_exec(s, st, b);
    Span { start: st, end: en }
}

/// Splits the input of `make_chan!` into the element type and, for a buffered channel, the
/// capacity.
pub fn make_chan_args(s: &[u8]) -> (r: ChanArgs)
    ensures
        r == chan_args_spec(s@),
{
    let e = strip_close_exec(s);
    let c1 = next_comma_exec(s, 0, e);
    if c1 >= e {
        ChanArgs::Unbuffered { ty: trimmed_exec(s, 0, e) }
    } else {
        let c2 = next_comma_exec(s, c1 + 1, e);
        ChanArgs::Buffered { ty: trimmed_exec(s, 0, c1), size: trimmed_exec(s, c1 + 1, c2) }
    }
}

} // verus!
