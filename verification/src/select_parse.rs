use vstd::prelude::*;

verus! {

/// The kind of a case of the `select!` syntax: `pat <- chan => body`, `chan.send(val) => body`,
/// `timeout!(dur) => body` or `default => body`.
#[derive(Debug, Clone, Copy, PartialEq, Eq, Structural)]
pub enum SelectCaseKind {
    Recv,
    Send,
    Timeout,
    Default,
}

/// How a `select!` is expanded.
///
/// `NonBlocking`: the receive and send cases in `checks` (by position) are tried once, in that
/// order, each with a non-blocking operation; if none succeeds the body of `default_case` runs.
/// `Blocking`: one goroutine is started per case, in the order of `spawn_order` (receives, then
/// sends, then timeouts); case `i` reports under id `i`, and the first report picks the branch.
#[derive(Debug)]
pub enum SelectPlan {
    NonBlocking { checks: Vec<usize>, default_case: Option<usize> },
    Blocking { spawn_order: Vec<usize> },
}

/// The positions of the cases of kind `k`, in order.
pub open spec fn indices_of_kind(kinds: Seq<SelectCaseKind>, k: SelectCaseKind) -> Seq<usize>
    decreases kinds.len(),
{
    if kinds.len() == 0 {
        Seq::empty()
    } else {
        let r = indices_of_kind(kinds.drop_last(), k);
        if kinds.last() == k {
            r.push((kinds.len() - 1) as usize)
        } else {
            r
        }
    }
}

/// The positions of the receive and send cases, in order.
pub open spec fn checked_indices(kinds: Seq<SelectCaseKind>) -> Seq<usize>
    decreases kinds.len(),
{
    if kinds.len() == 0 {
        Seq::empty()
    } else {
        let r = checked_indices(kinds.drop_last());
        if kinds.last() == SelectCaseKind::Recv || kinds.last() == SelectCaseKind::Send {
            r.push((kinds.len() - 1) as usize)
        } else {
            r
        }
    }
}

/// The position of the last default case, if any.
pub open spec fn last_default(kinds: Seq<SelectCaseKind>) -> Option<usize> {
    let d = indices_of_kind(kinds, SelectCaseKind::Default);
    if d.len() > 0 {
        Some(d.last())
    } else {
        None
    }
}

/// The plan that the expansion follows: with a default case the select never blocks.
pub open spec fn plan_spec(kinds: Seq<SelectCaseKind>) -> (bool, Seq<usize>, Option<usize>) {
    if kinds.contains(SelectCaseKind::Default) {
        (false, checked_indices(kinds), last_default(kinds))
    } else {
        (
            true,
            indices_of_kind(kinds, SelectCaseKind::Recv) + indices_of_kind(kinds, SelectCaseKind::Send)
                + indices_of_kind(kinds, SelectCaseKind::Timeout),
            None,
        )
    }
}

/// Whether some case is a default case.
pub fn has_default(kinds: &Vec<SelectCaseKind>) -> (b: bool)
    ensures
        b == kinds@.contains(SelectCaseKind::Default),
{
    let mut i: usize = 0;
    while i < kinds.len()
        invariant
            0 <= i <= kinds@.len(),
            forall|j: int| 0 <= j < i ==> kinds@[j] != SelectCaseKind::Default,
        decreases kinds@.len() - i,
    {
        if kinds[i] == SelectCaseKind::Default {
            return true;
        }
        i = i + 1;
    }
    false
}

/// Whether some case is a timeout case.
pub fn has_timeout(kinds: &Vec<SelectCaseKind>) -> (b: bool)
    ensures
        b == kinds@.contains(SelectCaseKind::Timeout),
{
    let mut i: usize = 0;
    while i < kinds.len()
        invariant
            0 <= i <= kinds@.len(),
            forall|j: int| 0 <= j < i ==> kinds@[j] != SelectCaseKind::Timeout,
        decreases kinds@.len() - i,
    {
        if kinds[i] == SelectCaseKind::Timeout {
            return true;
        }
        i = i + 1;
    }
    false
}

/// The positions of the cases of kind `k`, in order.
fn collect_kind(kinds: &Vec<SelectCaseKind>, k: SelectCaseKind) -> (r: Vec<usize>)
    ensures
        r@ == indices_of_kind(kinds@, k),
{
    let mut r: Vec<usize> = Vec::new();
    let mut i: usize = 0;
    while i < kinds.len()
        invariant
            0 <= i <= kinds@.len(),
            r@ == indices_of_kind(kinds@.subrange(0, i as int), k),
        decreases kinds@.len() - i,
    {
        assert(kinds@.subrange(0, i + 1).drop_last() =~= kinds@.subrange(0, i as int));
        if kinds[i] == k {
            r.push(i);
        }
        i = i + 1;
    }
    assert(kinds@.subrange(0, kinds@.len() as int) =~= kinds@);
    r
}

/// The non-blocking expansion: try the receive and send cases in order, then the default.
fn generate_non_blocking_select(kinds: &Vec<SelectCaseKind>) -> (p: SelectPlan)
    ensures
        p matches SelectPlan::NonBlocking { checks, default_case } && checks@ == checked_indices(kinds@)
            && default_case == last_default(kinds@),
{
    let mut checks: Vec<usize> = Vec::new();
    let mut default_case: Option<usize> = None;
    let mut i: usize = 0;
    while i < kinds.len()
        invariant
            0 <= i <= kinds@.len(),
            checks@ == checked_indices(kinds@.subrange(0, i as int)),
            default_case == last_default(kinds@.subrange(0, i as int)),
        decreases kinds@.len() - i,
    {
        let ghost pre = kinds@.subrange(0, i as int);
        let ghost next = kinds@.subrange(0, i + 1);
        assert(next.drop_last() =~= pre);
        match kinds[i] {
            SelectCaseKind::Recv => {
                checks.push(i);
            },
            SelectCaseKind::Send => {
                checks.push(i);
            },
            SelectCaseKind::Default => {
                default_case = Some(i);
            },
            SelectCaseKind::Timeout => {},
        }
        i = i + 1;
    }
    assert(kinds@.subrange(0, kinds@.len() as int) =~= kinds@);
    SelectPlan::NonBlocking { checks, default_case }
}

/// The blocking expansion: one goroutine per case, receives first, then sends, then timeouts.
fn generate_blocking_select(kinds: &Vec<SelectCaseKind>) -> (p: SelectPlan)
    ensures
        p matches SelectPlan::Blocking { spawn_order } && spawn_order@ == indices_of_kind(
            kinds@,
            SelectCaseKind::Recv,
        ) + indices_of_kind(kinds@, SelectCaseKind::Send) + indices_of_kind(kinds@, SelectCaseKind::Timeout),
{
    let mut spawn_order = collect_kind(kinds, SelectCaseKind::Recv);
    let mut sends = collect_kind(kinds, SelectCaseKind::Send);
    let mut timeouts = collect_kind(kinds, SelectCaseKind::Timeout);
    spawn_order.append(&mut sends);
    spawn_order.append(&mut timeouts);
    SelectPlan::Blocking { spawn_order }
}

/// Picks the expansion: non-blocking when there is a default case, blocking otherwise.
pub fn generate_select_impl(kinds: &Vec<SelectCaseKind>, has_default: bool) -> (p: SelectPlan)
    ensures
        has_default ==> (p matches SelectPlan::NonBlocking { checks, default_case } && checks@ == checked_indices(
            kinds@,
        ) && default_case == last_default(kinds@)),
        !has_default ==> (p matches SelectPlan::Blocking { spawn_order } && spawn_order@ == indices_of_kind(
            kinds@,
            SelectCaseKind::Recv,
        ) + indices_of_kind(kinds@, SelectCaseKind::Send) + indices_of_kind(kinds@, SelectCaseKind::Timeout)),
{
    if has_default {
        generate_non_blocking_select(kinds)
    } else {
        generate_blocking_select(kinds)
    }
}

/// The plan of a `select!` with cases of these kinds, in order.
pub fn plan_select(kinds: &Vec<SelectCaseKind>) -> (p: SelectPlan)
    ensures
        plan_spec(kinds@).0 ==> (p matches SelectPlan::Blocking { spawn_order } && spawn_order@ == plan_spec(
            kinds@,
        ).1),
        !plan_spec(kinds@).0 ==> (p matches SelectPlan::NonBlocking { checks, default_case } && checks@
            == plan_spec(kinds@).1 && default_case == plan_spec(kinds@).2),
{
    let d = has_default(kinds);
    generate_select_impl(kinds, d)
}

proof fn lemma_indices_of_kind(kinds: Seq<SelectCaseKind>, k: SelectCaseKind)
    requires
        kinds.len() <= usize::MAX,
    ensures
        forall|a: int| 0 <= a < indices_of_kind(kinds, k).len() ==> {
            &&& (#[trigger] indices_of_kind(kinds, k)[a]) < kinds.len()
            &&& kinds[indices_of_kind(kinds, k)[a] as int] == k
        },
        forall|a: int, b: int| 0 <= a < b < indices_of_kind(kinds, k).len() ==> (#[trigger] indices_of_kind(kinds, k)[a])
            < (#[trigger] indices_of_kind(kinds, k)[b]),
        forall|i: int| 0 <= i < kinds.len() && kinds[i] == k ==> (#[trigger] indices_of_kind(kinds, k).contains(i as usize)),
    decreases kinds.len(),
{
    if kinds.len() > 0 {
        let pre = kinds.drop_last();
        lemma_indices_of_kind(pre, k);
        let r = indices_of_kind(pre, k);
        let full = indices_of_kind(kinds, k);
        if kinds.last() == k {
            assert(full == r.push((kinds.len() - 1) as usize));
        } else {
            assert(full == r);
        }
        assert forall|a: int| 0 <= a < full.len() implies (#[trigger] full[a]) < kinds.len() && kinds[full[a] as int]
            == k by {
            if a < r.len() {
                assert(full[a] == r[a]);
                assert(pre[r[a] as int] == kinds[r[a] as int]);
            } else {
                assert(full[a] == kinds.len() - 1);
            }
        }
        assert forall|a: int, b: int| 0 <= a < b < full.len() implies (#[trigger] full[a]) < (#[trigger] full[b]) by {
            assert(full[a] == r[a]);
            if b < r.len() {
                assert(full[b] == r[b]);
            } else {
                assert(full[b] == kinds.len() - 1);
            }
        }
        assert forall|i: int| 0 <= i < kinds.len() && kinds[i] == k implies (#[trigger] indices_of_kind(kinds, k).contains(i as usize)) by {
            if i < kinds.len() - 1 {
                assert(pre[i] == kinds[i]);
                assert(r.contains(i as usize));
                let w = choose|w: int| 0 <= w < r.len() && r[w] == i as usize;
                assert(indices_of_kind(kinds, k)[w] == i as usize);
            } else {
                assert(indices_of_kind(kinds, k).last() == i as usize);
            }
        }
    }
}

proof fn lemma_kind_counts(kinds: Seq<SelectCaseKind>)
    requires
        !kinds.contains(SelectCaseKind::Default),
    ensures
        indices_of_kind(kinds, SelectCaseKind::Recv).len() + indices_of_kind(kinds, SelectCaseKind::Send).len()
            + indices_of_kind(kinds, SelectCaseKind::Timeout).len() == kinds.len(),
    decreases kinds.len(),
{
    if kinds.len() > 0 {
        let pre = kinds.drop_last();
        assert(!pre.contains(SelectCaseKind::Default)) by {
            if pre.contains(SelectCaseKind::Default) {
                let w = choose|w: int| 0 <= w < pre.len() && pre[w] == SelectCaseKind::Default;
                assert(kinds[w] == SelectCaseKind::Default);
            }
        }
        lemma_kind_counts(pre);
        assert(kinds[kinds.len() - 1] != SelectCaseKind::Default);
    }
}

/// A select without a default case starts exactly one goroutine per case: every position
/// appears once in the spawn order.
pub proof fn law_blocking_spawns_each_case_once(kinds: Seq<SelectCaseKind>)
    requires
        kinds.len() <= usize::MAX,
        !kinds.contains(SelectCaseKind::Default),
    ensures
        plan_spec(kinds).0,
        plan_spec(kinds).1.len() == kinds.len(),
        plan_spec(kinds).1.no_duplicates(),
        forall|i: int| 0 <= i < kinds.len() ==> #[trigger] plan_spec(kinds).1.contains(i as usize),
{
    let r = indices_of_kind(kinds, SelectCaseKind::Recv);
    let s = indices_of_kind(kinds, SelectCaseKind::Send);
    let t = indices_of_kind(kinds, SelectCaseKind::Timeout);
    lemma_indices_of_kind(kinds, SelectCaseKind::Recv);
    lemma_indices_of_kind(kinds, SelectCaseKind::Send);
    lemma_indices_of_kind(kinds, SelectCaseKind::Timeout);
    lemma_kind_counts(kinds);
    let all = r + s + t;
    assert(plan_spec(kinds).1 == all);
    assert forall|i: int| 0 <= i < kinds.len() implies #[trigger] all.contains(i as usize) by {
        if kinds[i] == SelectCaseKind::Recv {
            assert(r.contains(i as usize));
            let w = choose|w: int| 0 <= w < r.len() && r[w] == i as usize;
            assert(all[w] == i as usize);
        } else if kinds[i] == SelectCaseKind::Send {
            assert(s.contains(i as usize));
            let w = choose|w: int| 0 <= w < s.len() && s[w] == i as usize;
            assert(all[r.len() + w] == i as usize);
        } else {
            assert(kinds[i] != SelectCaseKind::Default) by {
                if kinds[i] == SelectCaseKind::Default {
                    assert(kinds.contains(SelectCaseKind::Default));
                }
            }
            assert(t.contains(i as usize));
            let w = choose|w: int| 0 <= w < t.len() && t[w] == i as usize;
            assert(all[r.len() + s.len() + w] == i as usize);
        }
    }
    assert forall|a: int, b: int| 0 <= a < all.len() && 0 <= b < all.len() && a != b implies all[a] != all[b] by {
        let ka = kinds[all[a] as int];
        let kb = kinds[all[b] as int];
        if a < r.len() {
            assert(all[a] == r[a]);
        } else if a < r.len() + s.len() {
            assert(all[a] == s[a - r.len()]);
        } else {
            assert(all[a] == t[a - r.len() - s.len()]);
        }
        if b < r.len() {
            assert(all[b] == r[b]);
        } else if b < r.len() + s.len() {
            assert(all[b] == s[b - r.len()]);
        } else {
            assert(all[b] == t[b - r.len() - s.len()]);
        }
        if a < r.len() && b < r.len() {
            if a < b {
                assert(r[a] < r[b]);
            } else {
                assert(r[b] < r[a]);
            }
        } else if r.len() <= a < r.len() + s.len() && r.len() <= b < r.len() + s.len() {
            if a < b {
                assert(s[a - r.len()] < s[b - r.len()]);
            } else {
                assert(s[b - r.len()] < s[a - r.len()]);
            }
        } else if a >= r.len() + s.len() && b >= r.len() + s.len() {
            if a < b {
                assert(t[a - r.len() - s.len()] < t[b - r.len() - s.len()]);
            } else {
                assert(t[b - r.len() - s.len()] < t[a - r.len() - s.len()]);
            }
        } else {
            assert(ka != kb);
        }
    }
}

/// With a default case the select never blocks: it tries every receive and send case once, in
/// order, and falls back to the last default case.
pub proof fn law_default_means_non_blocking(kinds: Seq<SelectCaseKind>)
    requires
        kinds.len() <= usize::MAX,
        kinds.contains(SelectCaseKind::Default),
    ensures
        !plan_spec(kinds).0,
        plan_spec(kinds).2 is Some,
{
    let d = indices_of_kind(kinds, SelectCaseKind::Default);
    lemma_indices_of_kind(kinds, SelectCaseKind::Default);
    let w = choose|w: int| 0 <= w < kinds.len() && kinds[w] == SelectCaseKind::Default;
    assert(d.contains(w as usize));
}


proof fn lemma_checked_indices(kinds: Seq<SelectCaseKind>)
    requires
        kinds.len() <= usize::MAX,
    ensures
        forall|a: int| 0 <= a < checked_indices(kinds).len() ==> {
            &&& (#[trigger] checked_indices(kinds)[a]) < kinds.len()
            &&& (kinds[checked_indices(kinds)[a] as int] == SelectCaseKind::Recv || kinds[checked_indices(
                kinds,
            )[a] as int] == SelectCaseKind::Send)
        },
        forall|a: int, b: int| 0 <= a < b < checked_indices(kinds).len() ==> (#[trigger] checked_indices(kinds)[a])
            < (#[trigger] checked_indices(kinds)[b]),
        forall|i: int|
            0 <= i < kinds.len() && (kinds[i] == SelectCaseKind::Recv || kinds[i] == SelectCaseKind::Send)
                ==> (#[trigger] checked_indices(kinds).contains(i as usize)),
    decreases kinds.len(),
{
    if kinds.len() > 0 {
        let pre = kinds.drop_last();
        lemma_checked_indices(pre);
        let r = checked_indices(pre);
        let full = checked_indices(kinds);
        let last = kinds.last();
        if last == SelectCaseKind::Recv || last == SelectCaseKind::Send {
            assert(full == r.push((kinds.len() - 1) as usize));
        } else {
            assert(full == r);
        }
        assert forall|a: int| 0 <= a < full.len() implies (#[trigger] full[a]) < kinds.len() && (kinds[full[a] as int]
            == SelectCaseKind::Recv || kinds[full[a] as int] == SelectCaseKind::Send) by {
            if a < r.len() {
                assert(full[a] == r[a]);
                assert(kinds[r[a] as int] == pre[r[a] as int]);
            }
        }
        assert forall|a: int, b: int| 0 <= a < b < full.len() implies (#[trigger] full[a]) < (#[trigger] full[b]) by {
            if b < r.len() {
                assert(full[a] == r[a] && full[b] == r[b]);
            } else {
                assert(full[a] == r[a]);
            }
        }
        assert forall|i: int|
            0 <= i < kinds.len() && (kinds[i] == SelectCaseKind::Recv || kinds[i] == SelectCaseKind::Send)
                implies (#[trigger] full.contains(i as usize)) by {
            if i < kinds.len() - 1 {
                assert(pre[i] == kinds[i]);
                assert(r.contains(i as usize));
                let w = choose|w: int| 0 <= w < r.len() && r[w] == i as usize;
                assert(full[w] == r[w]);
            } else {
                assert(full[full.len() - 1] == i as usize);
            }
        }
    }
}

/// With a default case, the select tries exactly its receive and send cases, each once and in
/// the order they are written, before the default: every receive or send position is checked,
/// every checked position is a receive or a send, and the default taken is the last default
/// case.
pub proof fn law_non_blocking_checks_receives_and_sends(kinds: Seq<SelectCaseKind>)
    requires
        kinds.len() <= usize::MAX,
        kinds.contains(SelectCaseKind::Default),
    ensures
        !plan_spec(kinds).0,
        forall|i: int|
            0 <= i < kinds.len() && (kinds[i] == SelectCaseKind::Recv || kinds[i] == SelectCaseKind::Send)
                ==> #[trigger] plan_spec(kinds).1.contains(i as usize),
        forall|a: int| 0 <= a < plan_spec(kinds).1.len() ==> {
            &&& (#[trigger] plan_spec(kinds).1[a]) < kinds.len()
            &&& (kinds[plan_spec(kinds).1[a] as int] == SelectCaseKind::Recv || kinds[plan_spec(kinds).1[a] as int]
                == SelectCaseKind::Send)
        },
        forall|a: int, b: int| 0 <= a < b < plan_spec(kinds).1.len() ==> (#[trigger] plan_spec(kinds).1[a]) < (
        #[trigger] plan_spec(kinds).1[b]),
        plan_spec(kinds).2 matches Some(d) && d < kinds.len() && kinds[d as int] == SelectCaseKind::Default
            && forall|j: int| d < j < kinds.len() ==> kinds[j] != SelectCaseKind::Default,
{
    lemma_checked_indices(kinds);
    law_default_means_non_blocking(kinds);
    lemma_indices_of_kind(kinds, SelectCaseKind::Default);
    let ds = indices_of_kind(kinds, SelectCaseKind::Default);
    let d = ds.last();
    assert(ds[ds.len() - 1] == d);
    assert forall|j: int| d < j < kinds.len() implies kinds[j] != SelectCaseKind::Default by {
        if kinds[j] == SelectCaseKind::Default {
            assert(ds.contains(j as usize));
            let w = choose|w: int| 0 <= w < ds.len() && ds[w] == j as usize;
            if w < ds.len() - 1 {
                assert(ds[w] < ds[ds.len() - 1]);
            }
        }
    }
}

/// Where the scanner of `select!` input is: in code, in a string literal (after a backslash),
/// or inside a quote that opens a character literal or a lifetime.
#[derive(Debug, Clone, Copy, PartialEq, Eq, Structural)]
pub enum Lex {
    Code,
    Str,
    StrEsc,
    CharOpen,
    CharOne,
    CharEsc,
    CharTail,
}

/// The scanner's state after a prefix: where it is, how deeply brackets nest, and whether a
/// closing bracket came with nothing open.
#[derive(Debug, Clone, Copy, PartialEq, Eq, Structural)]
pub struct Scan {
    pub lex: Lex,
    pub depth: usize,
    pub broken: bool,
}

pub open spec fn is_open_bracket(b: u8) -> bool {
    b == 0x28u8 || b == 0x5bu8 || b == 0x7bu8
}

pub open spec fn is_close_bracket(b: u8) -> bool {
    b == 0x29u8 || b == 0x5du8 || b == 0x7du8
}

/// A byte of code: quotes open literals, brackets nest.
pub open spec fn code_step(depth: usize, broken: bool, b: u8) -> Scan {
    if b == 0x22u8 {
        Scan { lex: Lex::Str, depth, broken }
    } else if b == 0x27u8 {
        Scan { lex: Lex::CharOpen, depth, broken }
    } else if is_open_bracket(b) {
        Scan { lex: Lex::Code, depth: (depth + 1) as usize, broken }
    } else if is_close_bracket(b) {
        if depth == 0 {
            Scan { lex: Lex::Code, depth: 0, broken: true }
        } else {
            Scan { lex: Lex::Code, depth: (depth - 1) as usize, broken }
        }
    } else {
        Scan { lex: Lex::Code, depth, broken }
    }
}

/// One byte of the scanner. A quote followed by one character (one byte, or a UTF-8 lead byte
/// and its continuation bytes) and a quote is a character literal; a quote followed by a
/// backslash starts an escaped one; otherwise the quote began a lifetime and scanning goes on
/// as code.
pub open spec fn scan_step(sc: Scan, b: u8) -> Scan {
    match sc.lex {
        Lex::Code => code_step(sc.depth, sc.broken, b),
        Lex::Str => if b == 0x5cu8 {
            Scan { lex: Lex::StrEsc, ..sc }
        } else if b == 0x22u8 {
            Scan { lex: Lex::Code, ..sc }
        } else {
            sc
        },
        Lex::StrEsc => Scan { lex: Lex::Str, ..sc },
        Lex::CharOpen => if b == 0x5cu8 {
            Scan { lex: Lex::CharEsc, ..sc }
        } else {
            Scan { lex: Lex::CharOne, ..sc }
        },
        Lex::CharOne => if b == 0x27u8 {
            Scan { lex: Lex::Code, ..sc }
        } else if 0x80u8 <= b && b <= 0xbfu8 {
            sc
        } else {
            code_step(sc.depth, sc.broken, b)
        },
        Lex::CharEsc => Scan { lex: Lex::CharTail, ..sc },
        Lex::CharTail => if b == 0x27u8 {
            Scan { lex: Lex::Code, ..sc }
        } else {
            sc
        },
    }
}

pub open spec fn scan_start() -> Scan {
    Scan { lex: Lex::Code, depth: 0, broken: false }
}

/// The scanner's state after the first `i` bytes of `s`.
pub open spec fn scan_prefix(s: Seq<u8>, i: int) -> Scan
    decreases i,
{
    if i <= 0 {
        scan_start()
    } else {
        scan_step(scan_prefix(s, i - 1), s[i - 1])
    }
}

/// Whether position `i` of `s` is in code outside every bracket.
pub open spec fn at_top(s: Seq<u8>, i: int) -> bool {
    scan_prefix(s, i).lex == Lex::Code && scan_prefix(s, i).depth == 0
}

/// The bytes between the quotes of a well-formed string literal: any byte but a quote or a
/// backslash stands for itself, and a backslash escapes the byte after it (a quote among them).
pub open spec fn str_body(b: Seq<u8>) -> bool
    decreases b.len(),
{
    if b.len() == 0 {
        true
    } else if b[0] == 0x5cu8 {
        b.len() >= 2 && str_body(b.subrange(2, b.len() as int))
    } else {
        b[0] != 0x22u8 && str_body(b.subrange(1, b.len() as int))
    }
}

proof fn lemma_str_body_scan(s: Seq<u8>, p: int, e: int, base: Scan)
    requires
        0 <= p <= e <= s.len(),
        str_body(s.subrange(p, e)),
        scan_prefix(s, p) == (Scan { lex: Lex::Str, ..base }),
    ensures
        scan_prefix(s, e) == (Scan { lex: Lex::Str, ..base }),
        forall|k: int| p <= k <= e ==> (#[trigger] scan_prefix(s, k)).lex != Lex::Code,
    decreases e - p,
{
    if p < e {
        let b = s.subrange(p, e);
        assert(b[0] == s[p]);
        if s[p] == 0x5cu8 {
            assert(b.subrange(2, b.len() as int) =~= s.subrange(p + 2, e));
            assert(scan_prefix(s, p + 1) == scan_step(scan_prefix(s, p), s[p]));
            assert(scan_prefix(s, p + 1).lex == Lex::StrEsc);
            assert(scan_prefix(s, p + 2) == scan_step(scan_prefix(s, p + 1), s[p + 1]));
            lemma_str_body_scan(s, p + 2, e, base);
        } else {
            assert(b.subrange(1, b.len() as int) =~= s.subrange(p + 1, e));
            assert(scan_prefix(s, p + 1) == scan_step(scan_prefix(s, p), s[p]));
            lemma_str_body_scan(s, p + 1, e, base);
        }
    }
}

/// A string literal is skipped as one unit: where a well-formed literal `"..."` (escapes
/// included) starts in code, scanning comes back to code exactly at its closing quote, with the
/// same bracket depth, and no position inside it counts as code (so its brackets, commas and
/// arrows play no part in splitting the cases).
pub proof fn law_string_literal_is_one_unit(s: Seq<u8>, i: int, j: int)
    requires
        0 <= i,
        i + 2 <= j <= s.len(),
        s[i] == 0x22u8,
        s[j - 1] == 0x22u8,
        str_body(s.subrange(i + 1, j - 1)),
        scan_prefix(s, i).lex == Lex::Code,
    ensures
        scan_prefix(s, j) == scan_prefix(s, i),
        forall|k: int| i < k < j ==> (#[trigger] scan_prefix(s, k)).lex != Lex::Code,
{
    let base = scan_prefix(s, i);
    assert(scan_prefix(s, i + 1) == scan_step(base, s[i]));
    assert(scan_prefix(s, i + 1) == (Scan { lex: Lex::Str, ..base }));
    lemma_str_body_scan(s, i + 1, j - 1, base);
    assert(scan_prefix(s, j) == scan_step(scan_prefix(s, j - 1), s[j - 1]));
}

/// The bytes between the quotes of a well-formed character literal: one byte that is neither a
/// quote nor a backslash; a UTF-8 lead byte and its continuation bytes; or a backslash, the
/// escaped byte and bytes up to the closing quote (as in `'\u{e9}'`).
pub open spec fn char_body(b: Seq<u8>) -> bool {
    ||| b.len() == 1 && b[0] != 0x27u8 && b[0] != 0x5cu8 && b[0] < 0x80u8
    ||| b.len() >= 2 && b[0] >= 0xc0u8 && forall|k: int| 1 <= k < b.len() ==> 0x80u8 <= #[trigger] b[k] <= 0xbfu8
    ||| b.len() >= 2 && b[0] == 0x5cu8 && forall|k: int| 2 <= k < b.len() ==> #[trigger] b[k] != 0x27u8
}

proof fn lemma_scan_stays(s: Seq<u8>, p: int, e: int, st: Scan)
    requires
        0 <= p <= e <= s.len(),
        scan_prefix(s, p) == st,
        forall|k: int| p <= k < e ==> scan_step(st, #[trigger] s[k]) == st,
    ensures
        forall|k: int| p <= k <= e ==> #[trigger] scan_prefix(s, k) == st,
    decreases e - p,
{
    if p < e {
        assert(scan_prefix(s, p + 1) == scan_step(scan_prefix(s, p), s[p]));
        lemma_scan_stays(s, p + 1, e, st);
    }
}

/// A character literal is skipped as one unit: where a well-formed literal `'c'` (multi-byte
/// and escaped characters included) starts in code, scanning comes back to the same state
/// exactly at its closing quote, and no position inside it counts as code.
pub proof fn law_char_literal_is_one_unit(s: Seq<u8>, i: int, j: int)
    requires
        0 <= i,
        i + 3 <= j <= s.len(),
        s[i] == 0x27u8,
        s[j - 1] == 0x27u8,
        char_body(s.subrange(i + 1, j - 1)),
        scan_prefix(s, i).lex == Lex::Code,
    ensures
        scan_prefix(s, j) == scan_prefix(s, i),
        forall|k: int| i < k < j ==> (#[trigger] scan_prefix(s, k)).lex != Lex::Code,
{
    let base = scan_prefix(s, i);
    let b = s.subrange(i + 1, j - 1);
    assert(b[0] == s[i + 1]);
    assert(scan_prefix(s, i + 1) == scan_step(base, s[i]));
    assert(scan_prefix(s, i + 1) == (Scan { lex: Lex::CharOpen, ..base }));
    assert(scan_prefix(s, i + 2) == scan_step(scan_prefix(s, i + 1), s[i + 1]));
    if s[i + 1] == 0x5cu8 {
        let tail = Scan { lex: Lex::CharTail, ..base };
        assert(scan_prefix(s, i + 3) == scan_step(scan_prefix(s, i + 2), s[i + 2]));
        assert forall|k: int| i + 3 <= k < j - 1 implies scan_step(tail, #[trigger] s[k]) == tail by {
            assert(b[k - i - 1] == s[k]);
        }
        lemma_scan_stays(s, i + 3, j - 1, tail);
    } else {
        let one = Scan { lex: Lex::CharOne, ..base };
        assert(scan_prefix(s, i + 2) == one);
        assert forall|k: int| i + 2 <= k < j - 1 implies scan_step(one, #[trigger] s[k]) == one by {
            assert(b[k - i - 1] == s[k]);
        }
        lemma_scan_stays(s, i + 2, j - 1, one);
    }
    assert(scan_prefix(s, j) == scan_step(scan_prefix(s, j - 1), s[j - 1]));
}

/// Whether the input scans cleanly: brackets balance and every literal is closed.
pub open spec fn balanced(s: Seq<u8>) -> bool {
    let end = scan_prefix(s, s.len() as int);
    end.lex == Lex::Code && end.depth == 0 && !end.broken
}

fn code_step_exec(depth: usize, broken: bool, b: u8) -> (r: Scan)
    requires
        depth < usize::MAX,
    ensures
        r == code_step(depth, broken, b),
        r.depth <= depth + 1,
{
    if b == 0x22u8 {
        Scan { lex: Lex::Str, depth, broken }
    } else if b == 0x27u8 {
        Scan { lex: Lex::CharOpen, depth, broken }
    } else if b == 0x28u8 || b == 0x5bu8 || b == 0x7bu8 {
        Scan { lex: Lex::Code, depth: depth + 1, broken }
    } else if b == 0x29u8 || b == 0x5du8 || b == 0x7du8 {
        if depth == 0 {
            Scan { lex: Lex::Code, depth: 0, broken: true }
        } else {
            Scan { lex: Lex::Code, depth: depth - 1, broken }
        }
    } else {
        Scan { lex: Lex::Code, depth, broken }
    }
}

fn scan_step_exec(sc: Scan, b: u8) -> (r: Scan)
    requires
        sc.depth < usize::MAX,
    ensures
        r == scan_step(sc, b),
        r.depth <= sc.depth + 1,
{
    match sc.lex {
        Lex::Code => code_step_exec(sc.depth, sc.broken, b),
        Lex::Str => if b == 0x5cu8 {
            Scan { lex: Lex::StrEsc, ..sc }
        } else if b == 0x22u8 {
            Scan { lex: Lex::Code, ..sc }
        } else {
            sc
        },
        Lex::StrEsc => Scan { lex: Lex::Str, ..sc },
        Lex::CharOpen => if b == 0x5cu8 {
            Scan { lex: Lex::CharEsc, ..sc }
        } else {
            Scan { lex: Lex::CharOne, ..sc }
        },
        Lex::CharOne => if b == 0x27u8 {
            Scan { lex: Lex::Code, ..sc }
        } else if 0x80u8 <= b && b <= 0xbfu8 {
            sc
        } else {
            code_step_exec(sc.depth, sc.broken, b)
        },
        Lex::CharEsc => Scan { lex: Lex::CharTail, ..sc },
        Lex::CharTail => if b == 0x27u8 {
            Scan { lex: Lex::Code, ..sc }
        } else {
            sc
        },
    }
}

/// The scanner's state before each byte of `s` and after the last one.
fn scan_all(s: &[u8]) -> (states: Vec<Scan>)
    requires
        s@.len() < usize::MAX,
    ensures
        states@.len() == s@.len() + 1,
        forall|i: int| 0 <= i <= s@.len() ==> #[trigger] states@[i] == scan_prefix(s@, i),
{
    let mut states: Vec<Scan> = Vec::new();
    let mut sc = Scan { lex: Lex::Code, depth: 0, broken: false };
    states.push(sc);
    let mut i: usize = 0;
    while i < s.len()
        invariant
            0 <= i <= s@.len(),
            s@.len() < usize::MAX,
            states@.len() == i + 1,
            sc == scan_prefix(s@, i as int),
            sc.depth <= i,
            forall|k: int| 0 <= k <= i ==> #[trigger] states@[k] == scan_prefix(s@, k),
        decreases s@.len() - i,
    {
        sc = scan_step_exec(sc, s[i]);
        states.push(sc);
        i = i + 1;
        assert(states@[i as int] == scan_prefix(s@, i as int));
    }
    states
}


/// The first position in `[p, e)` where `pred` holds, or `e` when there is none.
pub open spec fn first_where(p: int, e: int, pred: spec_fn(int) -> bool) -> int
    decreases e - p,
{
    if p >= e {
        e
    } else if pred(p) {
        p
    } else {
        first_where(p + 1, e, pred)
    }
}

/// The last position in `[p, e)` where `pred` holds, or `p - 1` when there is none.
pub open spec fn last_where(p: int, e: int, pred: spec_fn(int) -> bool) -> int
    decreases e - p,
{
    if e <= p {
        p - 1
    } else if pred(e - 1) {
        e - 1
    } else {
        last_where(p, e - 1, pred)
    }
}

proof fn lemma_first_where(p: int, e: int, pred: spec_fn(int) -> bool, j: int)
    requires
        p <= j <= e,
        forall|k: int| p <= k < j ==> !#[trigger] pred(k),
        j == e || pred(j),
    ensures
        first_where(p, e, pred) == j,
    decreases j - p,
{
    if p < j {
        lemma_first_where(p + 1, e, pred, j);
    }
}

proof fn lemma_last_where(p: int, e: int, pred: spec_fn(int) -> bool, j: int)
    requires
        p - 1 <= j < e,
        forall|k: int| j < k < e ==> !#[trigger] pred(k),
        j == p - 1 || pred(j),
    ensures
        last_where(p, e, pred) == j,
    decreases e - j,
{
    if j < e - 1 {
        lemma_last_where(p, e - 1, pred, j);
    }
}

pub open spec fn is_ws(b: u8) -> bool {
    b == 0x20u8 || b == 0x09u8 || b == 0x0au8 || b == 0x0du8
}

pub open spec fn is_ident_byte(b: u8) -> bool {
    (0x30u8 <= b <= 0x39u8) || (0x41u8 <= b <= 0x5au8) || (0x61u8 <= b <= 0x7au8) || b == 0x5fu8 || b >= 0x80u8
}

/// The first position at or after `p` that is not white space (or the end).
pub open spec fn skip_ws(s: Seq<u8>, p: int) -> int
    decreases s.len() - p,
{
    if 0 <= p < s.len() && is_ws(s[p]) {
        skip_ws(s, p + 1)
    } else {
        p
    }
}

/// The end of `[p, e)` once trailing white space is cut off.
pub open spec fn trim_end(s: Seq<u8>, p: int, e: int) -> int
    decreases e - p,
{
    if e > p && 0 <= e - 1 < s.len() && is_ws(s[e - 1]) {
        trim_end(s, p, e - 1)
    } else {
        e
    }
}

/// Whether the word `w` stands at `i`, within `[i, e)`, not followed by an identifier byte.
pub open spec fn word_at(s: Seq<u8>, i: int, e: int, w: Seq<u8>) -> bool {
    &&& 0 <= i
    &&& i + w.len() <= e <= s.len()
    &&& s.subrange(i, i + w.len()) == w
    &&& (i + w.len() == e || !is_ident_byte(s[i + w.len()]))
}

pub open spec fn top_pred(s: Seq<u8>) -> spec_fn(int) -> bool {
    |j: int| at_top(s, j)
}

/// A top-level comma, or the `=>` that ends a case's head.
pub open spec fn head_stop(s: Seq<u8>) -> spec_fn(int) -> bool {
    |j: int| 0 <= j < s.len() && at_top(s, j) && (s[j] == 0x2cu8 || (s[j] == 0x3du8 && j + 1 < s.len() && s[j + 1] == 0x3eu8))
}

pub open spec fn top_comma(s: Seq<u8>) -> spec_fn(int) -> bool {
    |j: int| 0 <= j < s.len() && at_top(s, j) && s[j] == 0x2cu8
}

/// A top-level `<-`.
pub open spec fn recv_arrow(s: Seq<u8>) -> spec_fn(int) -> bool {
    |j: int| 0 <= j && j + 1 < s.len() && at_top(s, j) && s[j] == 0x3cu8 && s[j + 1] == 0x2du8
}

/// A comma directly inside one top-level bracket.
pub open spec fn arg_comma(s: Seq<u8>) -> spec_fn(int) -> bool {
    |j: int| 0 <= j < s.len() && scan_prefix(s, j).lex == Lex::Code && scan_prefix(s, j).depth == 1 && s[j] == 0x2cu8
}


/// A range of byte positions of the input, `start` included, `end` excluded.
#[derive(Debug, Clone, Copy, PartialEq, Eq, Structural)]
pub struct Span {
    pub start: usize,
    pub end: usize,
}

/// The head of a `select!` case, by the spans of its parts.
#[derive(Debug, Clone, Copy, PartialEq, Eq, Structural)]
pub enum CaseHead {
    /// `pat <- chan`
    Recv { pat: Span, chan: Span },
    /// `chan.send(value, ..)`
    Send { chan: Span, value: Span },
    /// `timeout!(duration)` or `After!(duration)`
    Timeout { duration: Span },
    /// `default`
    Default,
}

/// A `select!` case: its head and the span of its body.
#[derive(Debug, Clone, Copy, PartialEq, Eq, Structural)]
pub struct CaseSyntax {
    pub head: CaseHead,
    pub body: Span,
}

/// Why `select!` input was refused.
#[derive(Debug, Clone, Copy, PartialEq, Eq, Structural)]
pub enum SelectSyntaxError {
    /// Brackets do not balance or a literal is not closed.
    Unbalanced,
    /// A case has no `=>` before the next top-level comma or the end.
    MissingArrow,
    /// A case has nothing after its `=>`.
    EmptyBody,
    /// `default` is followed by more than `=>`.
    BadDefault,
    /// `timeout!`/`After!` is not followed by one bracketed duration.
    BadTimeout,
    /// `send()` has no argument.
    SendWithoutArgument,
    /// A pattern, channel or value is missing.
    EmptyPart,
    /// The head is none of the four forms.
    UnknownCase,
}

pub open spec fn word_default() -> Seq<u8> {
    seq![0x64u8, 0x65u8, 0x66u8, 0x61u8, 0x75u8, 0x6cu8, 0x74u8]
}

pub open spec fn word_timeout() -> Seq<u8> {
    seq![0x74u8, 0x69u8, 0x6du8, 0x65u8, 0x6fu8, 0x75u8, 0x74u8]
}

pub open spec fn word_after() -> Seq<u8> {
    seq![0x41u8, 0x66u8, 0x74u8, 0x65u8, 0x72u8]
}

pub open spec fn word_send() -> Seq<u8> {
    seq![0x73u8, 0x65u8, 0x6eu8, 0x64u8]
}

pub open spec fn span(a: int, b: int) -> Span {
    Span { start: a as usize, end: b as usize }
}

/// A non-empty span within the first `n` bytes.
pub open spec fn span_ok(sp: Span, n: int) -> bool {
    sp.start < sp.end <= n
}

/// Every span of the head is non-empty and within the first `n` bytes.
pub open spec fn head_ok(h: CaseHead, n: int) -> bool {
    match h {
        CaseHead::Recv { pat, chan } => span_ok(pat, n) && span_ok(chan, n),
        CaseHead::Send { chan, value } => span_ok(chan, n) && span_ok(value, n),
        CaseHead::Timeout { duration } => span_ok(duration, n),
        CaseHead::Default => true,
    }
}

/// Every span of the case's head and its body is non-empty and within the first `n` bytes.
pub open spec fn case_ok(c: CaseSyntax, n: int) -> bool {
    span_ok(c.body, n) && head_ok(c.head, n)
}

/// Where the first span of a case starts: that of its pattern, channel or duration, or its body
/// for a default case.
pub open spec fn case_start(c: CaseSyntax) -> int {
    match c.head {
        CaseHead::Recv { pat, .. } => pat.start as int,
        CaseHead::Send { chan, .. } => chan.start as int,
        CaseHead::Timeout { duration } => duration.start as int,
        CaseHead::Default => c.body.start as int,
    }
}

/// Every span of the head starts at or after `p`.
pub open spec fn head_from(h: CaseHead, p: int) -> bool {
    match h {
        CaseHead::Recv { pat, chan } => pat.start >= p && chan.start >= p,
        CaseHead::Send { chan, value } => chan.start >= p && value.start >= p,
        CaseHead::Timeout { duration } => duration.start >= p,
        CaseHead::Default => true,
    }
}

/// The cases follow one another: each body ends before the next case starts.
pub open spec fn in_order(cases: Seq<CaseSyntax>) -> bool {
    forall|i: int, j: int|
        0 <= i < j < cases.len() ==> (#[trigger] cases[i]).body.end <= case_start(#[trigger] cases[j])
}

/// The head `[p, he)` of the form `chan.send(value, ..)`: the call's bracket is the last
/// top-level position of the head and closes at its end.
pub open spec fn send_head(s: Seq<u8>, p: int, he: int) -> Result<CaseHead, SelectSyntaxError> {
    let o = last_where(p, he, top_pred(s));
    if o < p || s[o] != 0x28u8 || s[he - 1] != 0x29u8 || o >= he - 1 {
        Err(SelectSyntaxError::UnknownCase)
    } else {
        let t = trim_end(s, p, o);
        if !(t >= p + 4 && word_at(s, t - 4, t, word_send()) && (t - 4 == p || !is_ident_byte(s[t - 5]))) {
            Err(SelectSyntaxError::UnknownCase)
        } else {
            let d = trim_end(s, p, t - 4);
            if d <= p || s[d - 1] != 0x2eu8 || !at_top(s, d - 1) {
                Err(SelectSyntaxError::UnknownCase)
            } else {
                let ce = trim_end(s, p, d - 1);
                if ce <= p {
                    Err(SelectSyntaxError::EmptyPart)
                } else {
                    let a0 = skip_ws(s, o + 1);
                    if a0 >= he - 1 {
                        Err(SelectSyntaxError::SendWithoutArgument)
                    } else {
                        let k = first_where(a0, he - 1, arg_comma(s));
                        let ve = trim_end(s, a0, k);
                        if ve <= a0 {
                            Err(SelectSyntaxError::EmptyPart)
                        } else {
                            Ok(CaseHead::Send { chan: span(p, ce), value: span(a0, ve) })
                        }
                    }
                }
            }
        }
    }
}

/// The head `[p, he)` of the form `timeout!(duration)` (or `After!`), the keyword being
/// `w` bytes long.
pub open spec fn timeout_head(s: Seq<u8>, p: int, he: int, w: int) -> Result<CaseHead, SelectSyntaxError> {
    let q = skip_ws(s, p + w);
    if q >= he || s[q] != 0x21u8 {
        Err(SelectSyntaxError::BadTimeout)
    } else {
        let r = skip_ws(s, q + 1);
        if r >= he - 1 || s[r] != 0x28u8 || s[he - 1] != 0x29u8 || last_where(p, he, top_pred(s)) != r {
            Err(SelectSyntaxError::BadTimeout)
        } else {
            let d0 = skip_ws(s, r + 1);
            let d1 = trim_end(s, d0, he - 1);
            if d1 <= d0 {
                Err(SelectSyntaxError::BadTimeout)
            } else {
                Ok(CaseHead::Timeout { duration: span(d0, d1) })
            }
        }
    }
}

/// The head `[p, he)` of a case: `default`; `timeout!(..)`/`After!(..)`; `pat <- chan` at
/// the first top-level `<-`; otherwise `chan.send(value)`.
pub open spec fn classify_head(s: Seq<u8>, p: int, he: int) -> Result<CaseHead, SelectSyntaxError> {
    if he <= p {
        Err(SelectSyntaxError::UnknownCase)
    } else if word_at(s, p, he, word_default()) {
        if p + 7 == he {
            Ok(CaseHead::Default)
        } else {
            Err(SelectSyntaxError::BadDefault)
        }
    } else if word_at(s, p, he, word_timeout()) {
        timeout_head(s, p, he, 7)
    } else if word_at(s, p, he, word_after()) {
        timeout_head(s, p, he, 5)
    } else {
        let a = first_where(p, he - 1, recv_arrow(s));
        if a < he - 1 {
            let pe = trim_end(s, p, a);
            let c0 = skip_ws(s, a + 2);
            if pe <= p || c0 >= he {
                Err(SelectSyntaxError::EmptyPart)
            } else {
                Ok(CaseHead::Recv { pat: span(p, pe), chan: span(c0, he) })
            }
        } else {
            send_head(s, p, he)
        }
    }
}

/// The case that starts at `p`: its head runs to the first top-level `=>`; a body that starts
/// with `{` ends with its closing bracket (a comma may follow), any other body runs to the next
/// top-level comma. The result holds the case and where the next one may start.
pub open spec fn parse_case(s: Seq<u8>, p: int) -> Result<(CaseSyntax, int), SelectSyntaxError> {
    let h = first_where(p, s.len() as int, head_stop(s));
    if h >= s.len() || s[h] != 0x3du8 {
        Err(SelectSyntaxError::MissingArrow)
    } else {
        match classify_head(s, p, trim_end(s, p, h)) {
            Err(e) => Err(e),
            Ok(head) => {
                let b0 = skip_ws(s, h + 2);
                if b0 >= s.len() || s[b0] == 0x2cu8 {
                    Err(SelectSyntaxError::EmptyBody)
                } else if s[b0] == 0x7bu8 {
                    let be = first_where(b0 + 1, s.len() as int + 1, top_pred(s));
                    if be > s.len() {
                        Err(SelectSyntaxError::Unbalanced)
                    } else {
                        let after = skip_ws(s, be);
                        let next = if after < s.len() && s[after] == 0x2cu8 {
                            after + 1
                        } else {
                            after
                        };
                        Ok((CaseSyntax { head, body: span(b0, be) }, next))
                    }
                } else {
                    let e = first_where(b0, s.len() as int, top_comma(s));
                    let next = if e < s.len() {
                        e + 1
                    } else {
                        e
                    };
                    Ok((CaseSyntax { head, body: span(b0, trim_end(s, b0, e)) }, next))
                }
            },
        }
    }
}

/// The cases from position `p` on.
pub open spec fn parse_cases(s: Seq<u8>, p: int) -> Result<Seq<CaseSyntax>, SelectSyntaxError>
    decreases s.len() - p,
{
    let q = skip_ws(s, p);
    if q >= s.len() {
        Ok(Seq::empty())
    } else {
        match parse_case(s, q) {
            Err(e) => Err(e),
            Ok((c, next)) => if next <= p || next > s.len() {
                Err(SelectSyntaxError::UnknownCase)
            } else {
                match parse_cases(s, next) {
                    Err(e) => Err(e),
                    Ok(rest) => Ok(seq![c] + rest),
                }
            },
        }
    }
}

/// The cases of a `select!` input, or why it was refused.
pub open spec fn parse_select_spec(s: Seq<u8>) -> Result<Seq<CaseSyntax>, SelectSyntaxError> {
    if !balanced(s) {
        Err(SelectSyntaxError::Unbalanced)
    } else {
        parse_cases(s, 0)
    }
}


/// `states` holds the scanner's state before each byte of `s` and after the last one.
pub open spec fn scanned(s: Seq<u8>, states: Seq<Scan>) -> bool {
    &&& states.len() == s.len() + 1
    &&& forall|i: int| 0 <= i <= s.len() ==> #[trigger] states[i] == scan_prefix(s, i)
}

/// The positions that the case parser looks for.
#[derive(Debug, Clone, Copy, PartialEq, Eq, Structural)]
enum Finder {
    Top,
    HeadStop,
    TopComma,
    RecvArrow,
    ArgComma,
}

spec fn finder_pred(s: Seq<u8>, f: Finder) -> spec_fn(int) -> bool {
    match f {
        Finder::Top => top_pred(s),
        Finder::HeadStop => head_stop(s),
        Finder::TopComma => top_comma(s),
        Finder::RecvArrow => recv_arrow(s),
        Finder::ArgComma => arg_comma(s),
    }
}

fn holds(s: &[u8], states: &Vec<Scan>, f: Finder, j: usize) -> (b: bool)
    requires
        scanned(s@, states@),
        j <= s@.len(),
    ensures
        b == finder_pred(s@, f)(j as int),
{
    let sc = states[j];
    let code_top = sc.lex == Lex::Code && sc.depth == 0;
    assert(code_top == at_top(s@, j as int));
    match f {
        Finder::Top => code_top,
        Finder::HeadStop => j < s.len() && code_top && (s[j] == 0x2cu8 || (s[j] == 0x3du8 && j + 1
            < s.len() && s[j + 1] == 0x3eu8)),
        Finder::TopComma => j < s.len() && code_top && s[j] == 0x2cu8,
        Finder::RecvArrow => j < s.len() && j + 1 < s.len() && code_top && s[j] == 0x3cu8 && s[j + 1] == 0x2du8,
        Finder::ArgComma => j < s.len() && sc.lex == Lex::Code && sc.depth == 1 && s[j] == 0x2cu8,
    }
}

/// `first_where(p, e, ..)` for the predicate that `f` names.
fn find_first(s: &[u8], states: &Vec<Scan>, f: Finder, p: usize, e: usize) -> (r: usize)
    requires
        scanned(s@, states@),
        p <= e <= s@.len() + 1,
    ensures
        r == first_where(p as int, e as int, finder_pred(s@, f)),
        p <= r <= e,
        r < e ==> finder_pred(s@, f)(r as int),
{
    let mut j = p;
    while j < e
        invariant
            scanned(s@, states@),
            p <= j <= e <= s@.len() + 1,
            forall|k: int| p <= k < j ==> !#[trigger] finder_pred(s@, f)(k),
        decreases e - j,
    {
        if holds(s, states, f, j) {
            proof {
                lemma_first_where(p as int, e as int, finder_pred(s@, f), j as int);
            }
            return j;
        }
        j = j + 1;
    }
    proof {
        lemma_first_where(p as int, e as int, finder_pred(s@, f), e as int);
    }
    e
}

/// `last_where(p, e, ..)` for the predicate that `f` names; `None` stands for `p - 1`.
fn find_last(s: &[u8], states: &Vec<Scan>, f: Finder, p: usize, e: usize) -> (r: Option<usize>)
    requires
        scanned(s@, states@),
        p <= e <= s@.len() + 1,
    ensures
        match r {
            Some(j) => last_where(p as int, e as int, finder_pred(s@, f)) == j && p <= j < e
                && finder_pred(s@, f)(j as int),
            None => last_where(p as int, e as int, finder_pred(s@, f)) == p - 1,
        },
{
    let mut j = e;
    while j > p
        invariant
            scanned(s@, states@),
            p <= j <= e <= s@.len() + 1,
            forall|k: int| j <= k < e ==> !#[trigger] finder_pred(s@, f)(k),
        decreases j - p,
    {
        if holds(s, states, f, j - 1) {
            proof {
                lemma_last_where(p as int, e as int, finder_pred(s@, f), j - 1);
            }
            return Some(j - 1);
        }
        j = j - 1;
    }
    proof {
        lemma_last_where(p as int, e as int, finder_pred(s@, f), p - 1);
    }
    None
}


fn is_ws_exec(b: u8) -> (r: bool)
    ensures
        r == is_ws(b),
{
    b == 0x20u8 || b == 0x09u8 || b == 0x0au8 || b == 0x0du8
}

fn is_ident_byte_exec(b: u8) -> (r: bool)
    ensures
        r == is_ident_byte(b),
{
    (0x30u8 <= b && b <= 0x39u8) || (0x41u8 <= b && b <= 0x5au8) || (0x61u8 <= b && b <= 0x7au8)
        || b == 0x5fu8 || b >= 0x80u8
}

pub(crate) fn skip_ws_exec(s: &[u8], p: usize) -> (r: usize)
    requires
        p <= s@.len(),
    ensures
        r == skip_ws(s@, p as int),
        p <= r <= s@.len(),
        r < s@.len() ==> !is_ws(s@[r as int]),
{
    let mut i = p;
    while i < s.len() && is_ws_exec(s[i])
        invariant
            p <= i <= s@.len(),
            skip_ws(s@, i as int) == skip_ws(s@, p as int),
        decreases s@.len() - i,
    {
        i = i + 1;
    }
    i
}

pub(crate) fn trim_end_exec(s: &[u8], p: usize, e: usize) -> (r: usize)
    requires
        p <= e <= s@.len(),
    ensures
        r == trim_end(s@, p as int, e as int),
        p <= r <= e,
        r > p ==> !is_ws(s@[r - 1]),
        p < e && !is_ws(s@[p as int]) ==> r > p,
{
    let mut i = e;
    while i > p && is_ws_exec(s[i - 1])
        invariant
            p <= i <= e <= s@.len(),
            trim_end(s@, p as int, i as int) == trim_end(s@, p as int, e as int),
            p < e && !is_ws(s@[p as int]) ==> i > p,
        decreases i,
    {
        i = i - 1;
    }
    i
}

fn word_at_exec(s: &[u8], i: usize, e: usize, w: &Vec<u8>) -> (r: bool)
    requires
        e <= s@.len(),
    ensures
        r == word_at(s@, i as int, e as int, w@),
{
    if w.len() > e || i > e - w.len() {
        return false;
    }
    let end = i + w.len();
    let mut k: usize = 0;
    while k < w.len()
        invariant
            end == i + w@.len(),
            end <= e <= s@.len(),
            0 <= k <= w@.len(),
            forall|m: int| 0 <= m < k ==> s@[i + m] == w@[m],
        decreases w@.len() - k,
    {
        if s[i + k] != w[k] {
            assert(s@.subrange(i as int, end as int)[k as int] != w@[k as int]);
            return false;
        }
        k = k + 1;
    }
    assert(s@.subrange(i as int, end as int) =~= w@);
    end == e || !is_ident_byte_exec(s[end])
}

fn word_default_exec() -> (w: Vec<u8>)
    ensures
        w@ == word_default(),
{
    let w: Vec<u8> = vec![0x64u8, 0x65u8, 0x66u8, 0x61u8, 0x75u8, 0x6cu8, 0x74u8];
    assert(w@ =~= word_default());
    w
}

fn word_timeout_exec() -> (w: Vec<u8>)
    ensures
        w@ == word_timeout(),
{
    let w: Vec<u8> = vec![0x74u8, 0x69u8, 0x6du8, 0x65u8, 0x6fu8, 0x75u8, 0x74u8];
    assert(w@ =~= word_timeout());
    w
}

fn word_after_exec() -> (w: Vec<u8>)
    ensures
        w@ == word_after(),
{
    let w: Vec<u8> = vec![0x41u8, 0x66u8, 0x74u8, 0x65u8, 0x72u8];
    assert(w@ =~= word_after());
    w
}

fn word_send_exec() -> (w: Vec<u8>)
    ensures
        w@ == word_send(),
{
    let w: Vec<u8> = vec![0x73u8, 0x65u8, 0x6eu8, 0x64u8];
    assert(w@ =~= word_send());
    w
}


proof fn lemma_skip_ws_stops(s: Seq<u8>, a: int, b: int)
    requires
        0 <= a <= b < s.len(),
        !is_ws(s[b]),
    ensures
        a <= skip_ws(s, a) <= b,
    decreases b - a,
{
    if a < b && is_ws(s[a]) {
        lemma_skip_ws_stops(s, a + 1, b);
    }
}

fn timeout_head_exec(s: &[u8], states: &Vec<Scan>, p: usize, he: usize, w: usize) -> (r: Result<
    CaseHead,
    SelectSyntaxError,
>)
    requires
        scanned(s@, states@),
        p + w <= he <= s@.len(),
    ensures
        r == timeout_head(s@, p as int, he as int, w as int),
        r matches Ok(h) ==> head_ok(h, he as int) && head_from(h, p as int),
{
    let q = skip_ws_exec(s, p + w);
    if q >= he || s[q] != 0x21u8 {
        return Err(SelectSyntaxError::BadTimeout);
    }
    let r = skip_ws_exec(s, q + 1);
    if r >= he - 1 || s[r] != 0x28u8 || s[he - 1] != 0x29u8 {
        return Err(SelectSyntaxError::BadTimeout);
    }
    match find_last(s, states, Finder::Top, p, he) {
        Some(j) => {
            if j != r {
                return Err(SelectSyntaxError::BadTimeout);
            }
        },
        None => {
            return Err(SelectSyntaxError::BadTimeout);
        },
    }
    let d0 = skip_ws_exec(s, r + 1);
    proof {
        lemma_skip_ws_stops(s@, r + 1, he - 1);
    }
    let d1 = trim_end_exec(s, d0, he - 1);
    if d1 <= d0 {
        return Err(SelectSyntaxError::BadTimeout);
    }
    Ok(CaseHead::Timeout { duration: Span { start: d0, end: d1 } })
}

fn send_head_exec(s: &[u8], states: &Vec<Scan>, p: usize, he: usize) -> (r: Result<
    CaseHead,
    SelectSyntaxError,
>)
    requires
        scanned(s@, states@),
        p < he <= s@.len(),
    ensures
        r == send_head(s@, p as int, he as int),
        r matches Ok(h) ==> head_ok(h, he as int) && head_from(h, p as int),
{
    let o = match find_last(s, states, Finder::Top, p, he) {
        Some(o) => o,
        None => {
            return Err(SelectSyntaxError::UnknownCase);
        },
    };
    if s[o] != 0x28u8 || s[he - 1] != 0x29u8 || o >= he - 1 {
        return Err(SelectSyntaxError::UnknownCase);
    }
    let t = trim_end_exec(s, p, o);
    let send = word_send_exec();
    if !(t >= 4 && t - 4 >= p && word_at_exec(s, t - 4, t, &send) && (t - 4 == p || !is_ident_byte_exec(
        s[t - 5],
    ))) {
        return Err(SelectSyntaxError::UnknownCase);
    }
    let d = trim_end_exec(s, p, t - 4);
    if d <= p || s[d - 1] != 0x2eu8 || !holds(s, states, Finder::Top, d - 1) {
        return Err(SelectSyntaxError::UnknownCase);
    }
    let ce = trim_end_exec(s, p, d - 1);
    if ce <= p {
        return Err(SelectSyntaxError::EmptyPart);
    }
    let a0 = skip_ws_exec(s, o + 1);
    if a0 >= he - 1 {
        return Err(SelectSyntaxError::SendWithoutArgument);
    }
    let k = find_first(s, states, Finder::ArgComma, a0, he - 1);
    let ve = trim_end_exec(s, a0, k);
    if ve <= a0 {
        return Err(SelectSyntaxError::EmptyPart);
    }
    Ok(CaseHead::Send { chan: Span { start: p, end: ce }, value: Span { start: a0, end: ve } })
}

#[verifier::rlimit(40)]
fn classify_head_exec(s: &[u8], states: &Vec<Scan>, p: usize, he: usize) -> (r: Result<
    CaseHead,
    SelectSyntaxError,
>)
    requires
        scanned(s@, states@),
        p <= he <= s@.len(),
    ensures
        r == classify_head(s@, p as int, he as int),
        r matches Ok(h) ==> head_ok(h, he as int) && head_from(h, p as int),
{
    if he <= p {
        return Err(SelectSyntaxError::UnknownCase);
    }
    let default_word = word_default_exec();
    let timeout_word = word_timeout_exec();
    let after_word = word_after_exec();
    if word_at_exec(s, p, he, &default_word) {
        if p + 7 == he {
            Ok(CaseHead::Default)
        } else {
            Err(SelectSyntaxError::BadDefault)
        }
    } else if word_at_exec(s, p, he, &timeout_word) {
        timeout_head_exec(s, states, p, he, 7)
    } else if word_at_exec(s, p, he, &after_word) {
        timeout_head_exec(s, states, p, he, 5)
    } else {
        let a = find_first(s, states, Finder::RecvArrow, p, he - 1);
        if a < he - 1 {
            let pe = trim_end_exec(s, p, a);
            let c0 = skip_ws_exec(s, a + 2);
            if pe <= p || c0 >= he {
                Err(SelectSyntaxError::EmptyPart)
            } else {
                Ok(CaseHead::Recv { pat: Span { start: p, end: pe }, chan: Span { start: c0, end: he } })
            }
        } else {
            send_head_exec(s, states, p, he)
        }
    }
}


#[verifier::rlimit(40)]
fn parse_case_exec(s: &[u8], states: &Vec<Scan>, p: usize) -> (r: Result<
    (CaseSyntax, usize),
    SelectSyntaxError,
>)
    requires
        scanned(s@, states@),
        p <= s@.len(),
        s@.len() < usize::MAX,
    ensures
        match r {
            Ok((c, n)) => parse_case(s@, p as int) == Ok::<(CaseSyntax, int), SelectSyntaxError>(
                (c, n as int),
            ) && n <= s@.len() && case_ok(c, s@.len() as int) && case_start(c) >= p
                && c.body.end <= n,
            Err(e) => parse_case(s@, p as int) == Err::<(CaseSyntax, int), SelectSyntaxError>(e),
        },
{
    let len = s.len();
    let h = find_first(s, states, Finder::HeadStop, p, len);
    if h >= len || s[h] != 0x3du8 {
        return Err(SelectSyntaxError::MissingArrow);
    }
    let he = trim_end_exec(s, p, h);
    let head = match classify_head_exec(s, states, p, he) {
        Err(e) => {
            return Err(e);
        },
        Ok(head) => head,
    };
    let b0 = skip_ws_exec(s, h + 2);
    if b0 >= len || s[b0] == 0x2cu8 {
        return Err(SelectSyntaxError::EmptyBody);
    }
    if s[b0] == 0x7bu8 {
        let be = find_first(s, states, Finder::Top, b0 + 1, len + 1);
        if be > len {
            return Err(SelectSyntaxError::Unbalanced);
        }
        let after = skip_ws_exec(s, be);
        let next = if after < len && s[after] == 0x2cu8 {
            after + 1
        } else {
            after
        };
        Ok((CaseSyntax { head, body: Span { start: b0, end: be } }, next))
    } else {
        let e = find_first(s, states, Finder::TopComma, b0, len);
        let next = if e < len {
            e + 1
        } else {
            e
        };
        let be = trim_end_exec(s, b0, e);
        Ok((CaseSyntax { head, body: Span { start: b0, end: be } }, next))
    }
}

/// The result of parsing the cases from some position on, with `done` parsed before it.
pub open spec fn after_cases(
    done: Seq<CaseSyntax>,
    rest: Result<Seq<CaseSyntax>, SelectSyntaxError>,
) -> Result<Seq<CaseSyntax>, SelectSyntaxError> {
    match rest {
        Ok(tail) => Ok(done + tail),
        Err(e) => Err(e),
    }
}

/// Splits the body of a `select!` into its cases: for each case the kind of its head, the
/// byte spans of its pattern, channel, value or duration, and the span of its body. Bodies
/// may be blocks (then a comma after them is optional) or expressions up to the next
/// top-level comma; string and character literals and nested brackets are skipped as units.
///
/// Only `()`, `[]` and `{}` nest, and literals are plain quoted strings and characters: a
/// comma at the top level of a case inside a turbofish (`f::<A, B>()`) or between closure
/// parameters (`|a, b| ..`) ends the case there, and a raw string that holds a quote is misread.
/// Such text is accepted inside brackets, where those commas are not at the top level.
pub fn parse_select_syntax(s: &[u8]) -> (r: Result<Vec<CaseSyntax>, SelectSyntaxError>)
    requires
        s@.len() < usize::MAX,
    ensures
        match r {
            Ok(cases) => parse_select_spec(s@) == Ok::<Seq<CaseSyntax>, SelectSyntaxError>(cases@)
                && (forall|i: int| 0 <= i < cases@.len() ==> case_ok(#[trigger] cases@[i], s@.len() as int))
                && in_order(cases@),
            Err(e) => parse_select_spec(s@) == Err::<Seq<CaseSyntax>, SelectSyntaxError>(e),
        },
{
    let states = scan_all(s);
    let len = s.len();
    let end = states[len];
    if !(end.lex == Lex::Code && end.depth == 0 && !end.broken) {
        return Err(SelectSyntaxError::Unbalanced);
    }
    let mut cases: Vec<CaseSyntax> = Vec::new();
    let mut p: usize = 0;
    while p < len
        invariant
            scanned(s@, states@),
            len == s@.len(),
            len < usize::MAX,
            p <= len,
            parse_select_spec(s@) == after_cases(cases@, parse_cases(s@, p as int)),
            forall|i: int| 0 <= i < cases@.len() ==> case_ok(#[trigger] cases@[i], s@.len() as int),
            forall|i: int| 0 <= i < cases@.len() ==> (#[trigger] cases@[i]).body.end <= p,
            in_order(cases@),
        decreases len - p,
    {
        let q = skip_ws_exec(s, p);
        if q >= len {
            assert(parse_cases(s@, p as int) == Ok::<Seq<CaseSyntax>, SelectSyntaxError>(
                Seq::empty(),
            ));
            assert(cases@ + Seq::<CaseSyntax>::empty() =~= cases@);
            return Ok(cases);
        }
        match parse_case_exec(s, &states, q) {
            Err(e) => {
                return Err(e);
            },
            Ok((c, next)) => {
                if next <= p || next > len {
                    return Err(SelectSyntaxError::UnknownCase);
                }
                proof {
                    let rest = parse_cases(s@, next as int);
                    match rest {
                        Ok(tail) => {
                            assert(cases@.push(c) + tail =~= cases@ + (seq![c] + tail));
                        },
                        Err(_) => {},
                    }
                }
                cases.push(c);
                p = next;
            },
        }
    }
    assert(parse_cases(s@, p as int) == Ok::<Seq<CaseSyntax>, SelectSyntaxError>(Seq::empty()));
    assert(cases@ + Seq::<CaseSyntax>::empty() =~= cases@);
    Ok(cases)
}


/// The kind of a case with this head.
pub open spec fn kind_of(head: CaseHead) -> SelectCaseKind {
    match head {
        CaseHead::Recv { .. } => SelectCaseKind::Recv,
        CaseHead::Send { .. } => SelectCaseKind::Send,
        CaseHead::Timeout { .. } => SelectCaseKind::Timeout,
        CaseHead::Default => SelectCaseKind::Default,
    }
}

/// The kinds of these cases, in order.
pub open spec fn kinds_of(cases: Seq<CaseSyntax>) -> Seq<SelectCaseKind> {
    cases.map_values(|c: CaseSyntax| kind_of(c.head))
}

/// The kinds of the cases, in order.
pub fn case_kinds(cases: &Vec<CaseSyntax>) -> (kinds: Vec<SelectCaseKind>)
    ensures
        kinds@ == kinds_of(cases@),
{
    let mut kinds: Vec<SelectCaseKind> = Vec::new();
    let mut i: usize = 0;
    while i < cases.len()
        invariant
            0 <= i <= cases@.len(),
            kinds@ == kinds_of(cases@.take(i as int)),
        decreases cases@.len() - i,
    {
        let k = match cases[i].head {
            CaseHead::Recv { .. } => SelectCaseKind::Recv,
            CaseHead::Send { .. } => SelectCaseKind::Send,
            CaseHead::Timeout { .. } => SelectCaseKind::Timeout,
            CaseHead::Default => SelectCaseKind::Default,
        };
        kinds.push(k);
        assert(kinds_of(cases@.take(i + 1)) =~= kinds_of(cases@.take(i as int)).push(k));
        i = i + 1;
    }
    assert(cases@.take(cases@.len() as int) =~= cases@);
    kinds
}

/// A parsed `select!` body: its cases, in order, and the plan of its expansion.
#[derive(Debug)]
pub struct SelectSyntax {
    pub cases: Vec<CaseSyntax>,
    pub plan: SelectPlan,
}

/// Whether `plan` is the plan of a `select!` with cases of these kinds.
pub open spec fn is_plan_of(plan: SelectPlan, kinds: Seq<SelectCaseKind>) -> bool {
    match plan {
        SelectPlan::Blocking { spawn_order } => plan_spec(kinds).0 && spawn_order@ == plan_spec(kinds).1,
        SelectPlan::NonBlocking { checks, default_case } => !plan_spec(kinds).0 && checks@ == plan_spec(
            kinds,
        ).1 && default_case == plan_spec(kinds).2,
    }
}

/// Parses the body of a `select!` (the text between its brackets) into its cases and the plan
/// of its expansion, or says why it is refused.
pub fn parse_select(input: &[u8]) -> (r: Result<SelectSyntax, SelectSyntaxError>)
    requires
        input@.len() < usize::MAX,
    ensures
        match r {
            Ok(sx) => parse_select_spec(input@) == Ok::<Seq<CaseSyntax>, SelectSyntaxError>(
                sx.cases@,
            ) && is_plan_of(sx.plan, kinds_of(sx.cases@)) && (forall|i: int|
                0 <= i < sx.cases@.len() ==> case_ok(#[trigger] sx.cases@[i], input@.len() as int))
                && in_order(sx.cases@),
            Err(e) => parse_select_spec(input@) == Err::<Seq<CaseSyntax>, SelectSyntaxError>(e),
        },
{
    match parse_select_syntax(input) {
        Err(e) => Err(e),
        Ok(cases) => {
            let kinds = case_kinds(&cases);
            let plan = plan_select(&kinds);
            Ok(SelectSyntax { cases, plan })
        },
    }
}

} // verus!
