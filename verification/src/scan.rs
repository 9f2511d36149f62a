//! The dry-run validation scan.
//!
//! The core binary reports configuration problems as structured log lines:
//! a failing line carries a failure marker (`fata` or `error`, in any
//! letter case) and a `msg=` field holding the human-readable message. The scan walks the
//! captured output line by line, extracts the message of every failing
//! line — trimmed, with quote characters removed, prefixed `[broken] ` —
//! and joins the collected diagnostics with newlines into the validation
//! error. An output with no failing line validates successfully.
//!
//! The scan works on the raw captured bytes; the markers and the field
//! syntax are fixed ASCII contracts of the core binary.

use vstd::prelude::*;

verus! {

/// ASCII whitespace, as trimmed from an extracted message.
pub open spec fn is_space(b: u8) -> bool {
    b == 32 || b == 9 || b == 10 || b == 13
}

/// The quote characters removed from an extracted message.
pub open spec fn is_quote(b: u8) -> bool {
    b == 39 || b == 34
}

/// ASCII upper-case letters folded to lower case; the failure markers are
/// matched without regard to case.
pub open spec fn to_lower(b: u8) -> u8 {
    if 65 <= b <= 90 {
        (b + 32) as u8
    } else {
        b
    }
}

/// `s` with every ASCII letter folded to lower case.
pub open spec fn lower_of(s: Seq<u8>) -> Seq<u8> {
    Seq::new(s.len(), |i: int| to_lower(s[i]))
}

/// The bytes of `fata`, the prefix shared by the core binary's fatal-level
/// markers.
pub open spec fn fata_marker() -> Seq<u8> {
    seq![102u8, 97u8, 116u8, 97u8]
}

/// The bytes of `error`.
pub open spec fn error_marker() -> Seq<u8> {
    seq![101u8, 114u8, 114u8, 111u8, 114u8]
}

/// The bytes of `msg=`, the introducer of the message field.
pub open spec fn msg_marker() -> Seq<u8> {
    seq![109u8, 115u8, 103u8, 61u8]
}

/// The bytes of `[broken] `, the prefix of each collected diagnostic.
pub open spec fn broken_prefix() -> Seq<u8> {
    seq![91u8, 98u8, 114u8, 111u8, 107u8, 101u8, 110u8, 93u8, 32u8]
}

/// `p` occurs in `s` starting at index `i`.
pub open spec fn match_at(s: Seq<u8>, p: Seq<u8>, i: int) -> bool {
    0 <= i && i + p.len() <= s.len() && forall|k: int| 0 <= k < p.len() ==> s[i + k] == p[k]
}

/// `p` occurs somewhere in `s`.
pub open spec fn contains_sub(s: Seq<u8>, p: Seq<u8>) -> bool {
    exists|i: int| match_at(s, p, i)
}

/// The first index `>= i` where `p` occurs in `s`, or `-1`.
pub open spec fn find_from(s: Seq<u8>, p: Seq<u8>, i: int) -> int
    recommends
        0 <= i,
    decreases s.len() - i,
{
    if i + p.len() > s.len() {
        -1
    } else if match_at(s, p, i) {
        i
    } else {
        find_from(s, p, i + 1)
    }
}

/// The first index where `p` occurs in `s`, or `-1`.
pub open spec fn find_sub(s: Seq<u8>, p: Seq<u8>) -> int {
    find_from(s, p, 0)
}

/// The lines of `s`, split at `\n`, with a `\r` that stood directly before
/// the `\n` removed; a final line without a terminator is kept as it is,
/// and a trailing terminator opens no empty last line. `cur` carries the
/// bytes of the line being assembled.
pub open spec fn lines_acc(s: Seq<u8>, cur: Seq<u8>) -> Seq<Seq<u8>>
    decreases s.len(),
{
    if s.len() == 0 {
        if cur.len() == 0 {
            Seq::empty()
        } else {
            seq![cur]
        }
    } else if s[0] == 10 {
        seq![strip_cr(cur)] + lines_acc(s.skip(1), Seq::empty())
    } else {
        lines_acc(s.skip(1), cur.push(s[0]))
    }
}

/// The lines of an output, as the line-by-line scan visits them.
pub open spec fn lines_of(s: Seq<u8>) -> Seq<Seq<u8>> {
    lines_acc(s, Seq::empty())
}

/// Remove one carriage return standing at the end of a terminated line.
pub open spec fn strip_cr(l: Seq<u8>) -> Seq<u8> {
    if l.len() > 0 && l.last() == 13 {
        l.drop_last()
    } else {
        l
    }
}

/// Leading ASCII whitespace removed.
pub open spec fn trim_start(s: Seq<u8>) -> Seq<u8>
    decreases s.len(),
{
    if s.len() > 0 && is_space(s[0]) {
        trim_start(s.skip(1))
    } else {
        s
    }
}

/// Trailing ASCII whitespace removed.
pub open spec fn trim_end(s: Seq<u8>) -> Seq<u8>
    decreases s.len(),
{
    if s.len() > 0 && is_space(s.last()) {
        trim_end(s.drop_last())
    } else {
        s
    }
}

/// Surrounding ASCII whitespace removed.
pub open spec fn trim(s: Seq<u8>) -> Seq<u8> {
    trim_end(trim_start(s))
}

/// Every quote character removed.
pub open spec fn strip_quotes(s: Seq<u8>) -> Seq<u8>
    decreases s.len(),
{
    if s.len() == 0 {
        Seq::empty()
    } else if is_quote(s.last()) {
        strip_quotes(s.drop_last())
    } else {
        strip_quotes(s.drop_last()).push(s.last())
    }
}

/// A line carries a failure marker, in any case.
pub open spec fn failure_marked(l: Seq<u8>) -> bool {
    contains_sub(lower_of(l), fata_marker()) || contains_sub(lower_of(l), error_marker())
}

/// The message a failing line reports: the text after the first `msg=`,
/// trimmed and with quote characters removed.
pub open spec fn extracted_message(l: Seq<u8>) -> Seq<u8>
    recommends
        contains_sub(l, msg_marker()),
{
    strip_quotes(trim(l.skip(find_sub(l, msg_marker()) + 4)))
}

/// The diagnostic a line contributes: a failure-marked line with a `msg=`
/// field yields its extracted message behind the `[broken] ` prefix; any
/// other line yields nothing.
pub open spec fn diag_of_line(l: Seq<u8>) -> Option<Seq<u8>> {
    if failure_marked(l) && contains_sub(l, msg_marker()) {
        Some(broken_prefix() + extracted_message(l))
    } else {
        None
    }
}

/// The diagnostics of a sequence of lines, in line order.
pub open spec fn diags_of(ls: Seq<Seq<u8>>) -> Seq<Seq<u8>>
    decreases ls.len(),
{
    if ls.len() == 0 {
        Seq::empty()
    } else {
        match diag_of_line(ls.last()) {
            Some(d) => diags_of(ls.drop_last()).push(d),
            None => diags_of(ls.drop_last()),
        }
    }
}

/// The diagnostics the whole captured output produces.
pub open spec fn dry_run_diags(output: Seq<u8>) -> Seq<Seq<u8>> {
    diags_of(lines_of(output))
}

/// The diagnostics joined with newlines into one error text.
pub open spec fn join_lines(ds: Seq<Seq<u8>>) -> Seq<u8>
    decreases ds.len(),
{
    if ds.len() == 0 {
        Seq::empty()
    } else if ds.len() == 1 {
        ds[0]
    } else {
        join_lines(ds.drop_last()) + seq![10u8] + ds.last()
    }
}

/// An output without a failure-marked line produces no diagnostic.
pub proof fn lemma_no_failure_no_diags(ls: Seq<Seq<u8>>)
    requires
        forall|i: int| 0 <= i < ls.len() ==> !failure_marked(#[trigger] ls[i]),
    ensures
        diags_of(ls).len() == 0,
    decreases ls.len(),
{
    if ls.len() > 0 {
        assert(!failure_marked(ls[ls.len() - 1]));
        assert(forall|i: int|
            0 <= i < ls.drop_last().len() ==> !failure_marked(#[trigger] ls.drop_last()[i]));
        lemma_no_failure_no_diags(ls.drop_last());
    }
}

/// A line's diagnostic appears among the collected diagnostics.
pub proof fn lemma_diags_of_contains(ls: Seq<Seq<u8>>, i: int, d: Seq<u8>)
    requires
        0 <= i < ls.len(),
        diag_of_line(ls[i]) == Some(d),
    ensures
        diags_of(ls).contains(d),
    decreases ls.len(),
{
    if i == ls.len() - 1 {
        assert(diags_of(ls).last() == d);
    } else {
        assert(ls.drop_last()[i] == ls[i]);
        lemma_diags_of_contains(ls.drop_last(), i, d);
        let sub = diags_of(ls.drop_last());
        let j = choose|j: int| 0 <= j < sub.len() && sub[j] == d;
        assert(diags_of(ls)[j] == d);
    }
}

/// Each collected diagnostic occurs inside the joined error text.
pub proof fn lemma_join_contains(ds: Seq<Seq<u8>>, j: int)
    requires
        0 <= j < ds.len(),
    ensures
        contains_sub(join_lines(ds), ds[j]),
    decreases ds.len(),
{
    if ds.len() == 1 {
        assert(match_at(join_lines(ds), ds[0], 0));
    } else if j == ds.len() - 1 {
        let head = join_lines(ds.drop_last()) + seq![10u8];
        let whole = join_lines(ds);
        assert(whole == head + ds.last());
        assert forall|k: int| 0 <= k < ds.last().len() implies whole[head.len() + k]
            == ds.last()[k] by {
        }
        assert(match_at(whole, ds[j], head.len() as int));
    } else {
        lemma_join_contains(ds.drop_last(), j);
        let head = join_lines(ds.drop_last());
        let whole = join_lines(ds);
        let i0 = choose|i0: int| match_at(head, ds.drop_last()[j], i0);
        assert(ds.drop_last()[j] == ds[j]);
        assert forall|k: int| 0 <= k < ds[j].len() implies whole[i0 + k] == ds[j][k] by {
            assert(head[i0 + k] == ds[j][k]);
        }
        assert(match_at(whole, ds[j], i0));
    }
}

/// Any output line that carries a failure marker together with a `msg=`
/// field makes the scan fail, and the joined error text contains that
/// line's extracted message — trimmed, quote characters removed — behind
/// the `[broken] ` prefix.
pub proof fn lemma_failure_line_reported(output: Seq<u8>, i: int)
    requires
        0 <= i < lines_of(output).len(),
        failure_marked(lines_of(output)[i]),
        contains_sub(lines_of(output)[i], msg_marker()),
    ensures
        dry_run_diags(output).len() > 0,
        dry_run_diags(output).contains(
            broken_prefix() + extracted_message(lines_of(output)[i]),
        ),
        contains_sub(
            join_lines(dry_run_diags(output)),
            broken_prefix() + extracted_message(lines_of(output)[i]),
        ),
{
    let l = lines_of(output)[i];
    let d = broken_prefix() + extracted_message(l);
    assert(diag_of_line(l) == Some(d));
    lemma_diags_of_contains(lines_of(output), i, d);
    let ds = dry_run_diags(output);
    let j = choose|j: int| 0 <= j < ds.len() && ds[j] == d;
    lemma_join_contains(ds, j);
}

fn fata_pattern() -> (r: Vec<u8>)
    ensures
        r@ == fata_marker(),
{
    let mut v: Vec<u8> = Vec::new();
    v.push(102);
    v.push(97);
    v.push(116);
    v.push(97);
    proof {
        assert(v@ =~= fata_marker());
    }
    v
}

fn error_pattern() -> (r: Vec<u8>)
    ensures
        r@ == error_marker(),
{
    let mut v: Vec<u8> = Vec::new();
    v.push(101);
    v.push(114);
    v.push(114);
    v.push(111);
    v.push(114);
    proof {
        assert(v@ =~= error_marker());
    }
    v
}

fn msg_pattern() -> (r: Vec<u8>)
    ensures
        r@ == msg_marker(),
{
    let mut v: Vec<u8> = Vec::new();
    v.push(109);
    v.push(115);
    v.push(103);
    v.push(61);
    proof {
        assert(v@ =~= msg_marker());
    }
    v
}

fn broken_prefix_bytes() -> (r: Vec<u8>)
    ensures
        r@ == broken_prefix(),
{
    let mut v: Vec<u8> = Vec::new();
    v.push(91);
    v.push(98);
    v.push(114);
    v.push(111);
    v.push(107);
    v.push(101);
    v.push(110);
    v.push(93);
    v.push(32);
    proof {
        assert(v@ =~= broken_prefix());
    }
    v
}

/// Fold every ASCII letter of `v` to lower case.
fn lower_bytes(v: &Vec<u8>) -> (r: Vec<u8>)
    ensures
        r@ == lower_of(v@),
{
    let mut r: Vec<u8> = Vec::new();
    let mut i: usize = 0;
    while i < v.len()
        invariant
            i <= v@.len(),
            r@.len() == i,
            forall|k: int| 0 <= k < i ==> r@[k] == to_lower(v@[k]),
        decreases v@.len() - i,
    {
        let c = v[i];
        if 65 <= c && c <= 90 {
            r.push(c + 32);
        } else {
            r.push(c);
        }
        i = i + 1;
    }
    proof {
        assert(r@ =~= lower_of(v@));
    }
    r
}

fn match_at_exec(s: &Vec<u8>, p: &Vec<u8>, i: usize) -> (r: bool)
    requires
        i + p@.len() <= s@.len(),
    ensures
        r == match_at(s@, p@, i as int),
{
    let n = s.len();
    let mut k: usize = 0;
    while k < p.len()
        invariant
            n == s@.len(),
            i + p@.len() <= s@.len(),
            k <= p@.len(),
            forall|m: int| 0 <= m < k ==> s@[i + m] == p@[m],
        decreases p@.len() - k,
    {
        if s[i + k] != p[k] {
            return false;
        }
        k = k + 1;
    }
    true
}

/// The first occurrence of `p` in `s`, if any.
fn find_pattern(s: &Vec<u8>, p: &Vec<u8>) -> (r: Option<usize>)
    requires
        p@.len() >= 1,
    ensures
        match r {
            Some(i) => i as int == find_sub(s@, p@) && match_at(s@, p@, i as int),
            None => find_sub(s@, p@) == -1 && !contains_sub(s@, p@),
        },
{
    if p.len() > s.len() {
        proof {
            assert(find_from(s@, p@, 0) == -1);
            assert(forall|i: int| !match_at(s@, p@, i));
        }
        return None;
    }
    let n = s.len();
    let last_start: usize = n - p.len();
    let mut i: usize = 0;
    while i <= last_start
        invariant
            n == s@.len(),
            p@.len() >= 1,
            last_start == s@.len() - p@.len(),
            i <= last_start + 1,
            find_from(s@, p@, 0) == find_from(s@, p@, i as int),
            forall|j: int| 0 <= j < i ==> !match_at(s@, p@, j),
        decreases last_start + 1 - i,
    {
        if match_at_exec(s, p, i) {
            return Some(i);
        }
        proof {
            assert(find_from(s@, p@, i as int) == find_from(s@, p@, i + 1));
        }
        i = i + 1;
    }
    proof {
        assert(find_from(s@, p@, i as int) == -1);
        assert forall|j: int| !match_at(s@, p@, j) by {
            if 0 <= j && j + p@.len() <= s@.len() {
                assert(j < i);
            }
        }
    }
    None
}

/// Copy `v[from..to]`.
fn copy_range(v: &Vec<u8>, from: usize, to: usize) -> (r: Vec<u8>)
    requires
        from <= to <= v@.len(),
    ensures
        r@ == v@.subrange(from as int, to as int),
{
    let mut r: Vec<u8> = Vec::new();
    let mut i: usize = from;
    while i < to
        invariant
            from <= i <= to <= v@.len(),
            r@ == v@.subrange(from as int, i as int),
        decreases to - i,
    {
        r.push(v[i]);
        proof {
            assert(r@ =~= v@.subrange(from as int, i + 1));
        }
        i = i + 1;
    }
    r
}

/// Append all of `src` to `dst`.
fn append_bytes(dst: &mut Vec<u8>, src: &Vec<u8>)
    ensures
        final(dst)@ == old(dst)@ + src@,
{
    let mut j: usize = 0;
    while j < src.len()
        invariant
            j <= src@.len(),
            dst@ == old(dst)@ + src@.take(j as int),
        decreases src@.len() - j,
    {
        dst.push(src[j]);
        proof {
            assert(old(dst)@ + src@.take(j + 1) =~= (old(dst)@ + src@.take(j as int)).push(
                src@[j as int],
            ));
        }
        j = j + 1;
    }
    proof {
        assert(src@.take(src@.len() as int) =~= src@);
    }
}

/// Surrounding ASCII whitespace removed.
fn trim_bytes(v: &Vec<u8>) -> (r: Vec<u8>)
    ensures
        r@ == trim(v@),
{
    proof {
        assert(v@.skip(0) =~= v@);
    }
    let mut a: usize = 0;
    while a < v.len() && (v[a] == 32 || v[a] == 9 || v[a] == 10 || v[a] == 13)
        invariant
            a <= v@.len(),
            trim_start(v@) == trim_start(v@.skip(a as int)),
        decreases v@.len() - a,
    {
        proof {
            assert(v@.skip(a as int)[0] == v@[a as int]);
            assert(v@.skip(a as int).skip(1) =~= v@.skip(a + 1));
        }
        a = a + 1;
    }
    proof {
        if a < v@.len() {
            assert(!is_space(v@.skip(a as int)[0]));
            assert(trim_start(v@) == v@.skip(a as int));
        } else {
            assert(v@.skip(a as int) =~= Seq::<u8>::empty());
        }
    }
    let mut b: usize = v.len();
    while b > a && (v[b - 1] == 32 || v[b - 1] == 9 || v[b - 1] == 10 || v[b - 1] == 13)
        invariant
            a <= b <= v@.len(),
            trim_start(v@) == trim_start(v@.skip(a as int)),
            trim_end(v@.skip(a as int)) == trim_end(v@.subrange(a as int, b as int)),
        decreases b,
    {
        proof {
            let piece = v@.subrange(a as int, b as int);
            assert(piece.last() == v@[b - 1]);
            assert(piece.drop_last() =~= v@.subrange(a as int, b - 1));
        }
        b = b - 1;
    }
    proof {
        let piece = v@.subrange(a as int, b as int);
        if b > a {
            assert(piece.last() == v@[b - 1]);
            assert(!is_space(piece.last()));
            assert(trim_end(piece) == piece);
        } else {
            assert(piece =~= Seq::<u8>::empty());
        }
        assert(v@.subrange(a as int, v@.len() as int) =~= v@.skip(a as int));
    }
    copy_range(v, a, b)
}

/// Every quote character removed.
fn strip_quote_bytes(v: &Vec<u8>) -> (r: Vec<u8>)
    ensures
        r@ == strip_quotes(v@),
{
    let mut r: Vec<u8> = Vec::new();
    let mut i: usize = 0;
    while i < v.len()
        invariant
            i <= v@.len(),
            r@ == strip_quotes(v@.take(i as int)),
        decreases v@.len() - i,
    {
        proof {
            assert(v@.take(i + 1).drop_last() =~= v@.take(i as int));
            assert(v@.take(i + 1).last() == v@[i as int]);
        }
        let c = v[i];
        if c != 39 && c != 34 {
            r.push(c);
        }
        i = i + 1;
    }
    proof {
        assert(v@.take(v@.len() as int) =~= v@);
    }
    r
}

/// The diagnostic this line contributes, if any.
fn line_diag(line: &Vec<u8>) -> (r: Option<Vec<u8>>)
    ensures
        match r {
            Some(d) => diag_of_line(line@) == Some(d@),
            None => diag_of_line(line@) is None,
        },
{
    let lowered = lower_bytes(line);
    let fata = fata_pattern();
    let err = error_pattern();
    let marked = match find_pattern(&lowered, &fata) {
        Some(_) => true,
        None => match find_pattern(&lowered, &err) {
            Some(_) => true,
            None => false,
        },
    };
    if !marked {
        return None;
    }
    let msg = msg_pattern();
    match find_pattern(line, &msg) {
        None => None,
        Some(pos) => {
            let llen = line.len();
            proof {
                assert(msg_marker().len() == 4);
                assert(pos + 4 <= line@.len());
            }
            let tail = copy_range(line, pos + 4, llen);
            proof {
                assert(tail@ =~= line@.skip(pos + 4));
            }
            let trimmed = trim_bytes(&tail);
            let message = strip_quote_bytes(&trimmed);
            let mut d = broken_prefix_bytes();
            append_bytes(&mut d, &message);
            proof {
                assert(d@ == broken_prefix() + extracted_message(line@));
            }
            Some(d)
        },
    }
}

/// Split the captured output into its lines.
fn split_lines(output: &Vec<u8>) -> (r: Vec<Vec<u8>>)
    ensures
        r.deep_view() == lines_of(output@),
{
    let mut acc: Vec<Vec<u8>> = Vec::new();
    let mut cur: Vec<u8> = Vec::new();
    let mut i: usize = 0;
    proof {
        assert(acc.deep_view() =~~= Seq::<Seq<u8>>::empty());
        assert(output@.skip(0) =~= output@);
        assert(Seq::<Seq<u8>>::empty() + lines_acc(output@, Seq::empty()) =~= lines_acc(
            output@,
            Seq::empty(),
        ));
    }
    while i < output.len()
        invariant
            i <= output@.len(),
            lines_of(output@) == acc.deep_view() + lines_acc(output@.skip(i as int), cur@),
        decreases output@.len() - i,
    {
        let b = output[i];
        proof {
            assert(output@.skip(i as int)[0] == output@[i as int]);
            assert(output@.skip(i as int).skip(1) =~= output@.skip(i + 1));
        }
        if b == 10 {
            let ghost cv0 = cur@;
            if cur.len() > 0 && cur[cur.len() - 1] == 13 {
                cur.pop();
            }
            proof {
                assert(cur@ == strip_cr(cv0));
            }
            let ghost pre = acc.deep_view();
            acc.push(cur);
            cur = Vec::new();
            proof {
                assert(acc.deep_view() =~~= pre.push(strip_cr(cv0)));
                assert(lines_acc(output@.skip(i as int), cv0) == seq![strip_cr(cv0)] + lines_acc(
                    output@.skip(i + 1),
                    Seq::empty(),
                ));
                assert(pre.push(strip_cr(cv0)) + lines_acc(output@.skip(i + 1), cur@) =~~= pre
                    + lines_acc(output@.skip(i as int), cv0));
            }
        } else {
            cur.push(b);
        }
        i = i + 1;
    }
    proof {
        assert(output@.skip(i as int) =~= Seq::<u8>::empty());
    }
    if cur.len() > 0 {
        let ghost cv = cur@;
        let ghost pre = acc.deep_view();
        proof {
            assert(lines_acc(Seq::<u8>::empty(), cv) == seq![cv]);
        }
        acc.push(cur);
        proof {
            assert(acc.deep_view() =~~= pre.push(cv));
            assert(pre.push(cv) =~~= pre + seq![cv]);
        }
    } else {
        proof {
            assert(lines_acc(Seq::<u8>::empty(), cur@) == Seq::<Seq<u8>>::empty());
            assert(acc.deep_view() + Seq::<Seq<u8>>::empty() =~~= acc.deep_view());
        }
    }
    acc
}

/// Scan the captured dry-run output. Success when no line is failure
/// marked with a message; otherwise the error text joins every collected
/// diagnostic with newlines, in line order.
pub fn check_dry_run_output(output: &Vec<u8>) -> (r: Result<(), Vec<u8>>)
    ensures
        r is Ok <==> dry_run_diags(output@).len() == 0,
        r matches Err(e) ==> e@ == join_lines(dry_run_diags(output@)),
        (forall|i: int|
            0 <= i < lines_of(output@).len() ==> !failure_marked(
                #[trigger] lines_of(output@)[i],
            )) ==> r is Ok,
{
    let lines = split_lines(output);
    let ghost ls = lines.deep_view();
    let mut diags: Vec<Vec<u8>> = Vec::new();
    let mut i: usize = 0;
    proof {
        assert(diags.deep_view() =~~= Seq::<Seq<u8>>::empty());
        assert(ls.take(0) =~= Seq::<Seq<u8>>::empty());
    }
    while i < lines.len()
        invariant
            i <= lines@.len(),
            ls == lines.deep_view(),
            ls == lines_of(output@),
            diags.deep_view() == diags_of(ls.take(i as int)),
        decreases lines@.len() - i,
    {
        proof {
            assert(ls.take(i + 1).drop_last() =~= ls.take(i as int));
            assert(ls.take(i + 1).last() == ls[i as int]);
            assert(lines@[i as int]@ =~= ls[i as int]);
        }
        match line_diag(&lines[i]) {
            Some(d) => {
                let ghost dv = d@;
                let ghost pre = diags.deep_view();
                diags.push(d);
                proof {
                    assert(diags.deep_view() =~~= pre.push(dv));
                }
            },
            None => {},
        }
        i = i + 1;
    }
    proof {
        assert(ls.take(ls.len() as int) =~= ls);
    }
    if diags.len() == 0 {
        proof {
            if forall|j: int|
                0 <= j < lines_of(output@).len() ==> !failure_marked(
                    #[trigger] lines_of(output@)[j],
                ) {
                lemma_no_failure_no_diags(lines_of(output@));
            }
        }
        Ok(())
    } else {
        let ghost ds = diags.deep_view();
        let mut text: Vec<u8> = Vec::new();
        let mut j: usize = 0;
        while j < diags.len()
            invariant
                1 <= diags@.len(),
                j <= diags@.len(),
                ds == diags.deep_view(),
                ds == dry_run_diags(output@),
                j == 0 ==> text@ == Seq::<u8>::empty(),
                j > 0 ==> text@ == join_lines(ds.take(j as int)),
            decreases diags@.len() - j,
        {
            proof {
                assert(ds.take(j + 1).drop_last() =~= ds.take(j as int));
                assert(ds.take(j + 1).last() == ds[j as int]);
                assert(diags@[j as int]@ =~= ds[j as int]);
            }
            if j > 0 {
                text.push(10);
            }
            append_bytes(&mut text, &diags[j]);
            proof {
                if j == 0 {
                    assert(text@ =~= ds.take(1)[0]);
                } else {
                    assert(text@ =~= join_lines(ds.take(j as int)) + seq![10u8] + ds[j as int]);
                }
            }
            j = j + 1;
        }
        proof {
            assert(ds.take(ds.len() as int) =~= ds);
            if forall|k: int|
                0 <= k < lines_of(output@).len() ==> !failure_marked(
                    #[trigger] lines_of(output@)[k],
                ) {
                lemma_no_failure_no_diags(lines_of(output@));
            }
        }
        Err(text)
    }
}

} // verus!
