//! Terminal transcript sanitization and ANSI escape handling.
use vstd::prelude::*;

verus! {

// ---------------------------------------------------------------------------
// Byte classes and small parsers
// ---------------------------------------------------------------------------

/// A CSI final byte (`@` through `~`).
pub open spec fn is_final_byte(b: u8) -> bool {
    0x40 <= b <= 0x7E
}

/// An ASCII decimal digit byte.
pub open spec fn is_digit_byte(b: u8) -> bool {
    0x30 <= b <= 0x39
}

/// A byte allowed in a private-mode parameter list: a digit or `;`.
pub open spec fn is_param_byte(b: u8) -> bool {
    is_digit_byte(b) || b == 0x3B
}

/// Index of the first CSI final byte at or after `j`, or the length when none.
pub open spec fn final_index(bytes: Seq<u8>, j: int) -> int
    decreases bytes.len() - j,
{
    if j >= bytes.len() {
        bytes.len() as int
    } else if is_final_byte(bytes[j]) {
        j
    } else {
        final_index(bytes, j + 1)
    }
}

/// Value of a string of decimal digit bytes.
pub open spec fn digits_value(s: Seq<u8>) -> nat
    decreases s.len(),
{
    if s.len() == 0 {
        0
    } else {
        digits_value(s.drop_last()) * 10 + (s.last() - 48) as nat
    }
}

/// Every byte of `s` is a decimal digit.
pub open spec fn all_digits(s: Seq<u8>) -> bool {
    forall|i: int| 0 <= i < s.len() ==> is_digit_byte(#[trigger] s[i])
}

/// Parsing a byte string as a `u32`, as `str::parse::<u32>` does for digit
/// strings: `None` when empty, not all digits, or out of range.
pub open spec fn parse_u32_spec(s: Seq<u8>) -> Option<u32> {
    if s.len() > 0 && all_digits(s) && digits_value(s) <= u32::MAX {
        Some(digits_value(s) as u32)
    } else {
        None
    }
}

/// Splitting at `;`, with `cur` the part collected so far.
pub open spec fn split_semis_acc(s: Seq<u8>, cur: Seq<u8>) -> Seq<Seq<u8>>
    decreases s.len(),
{
    if s.len() == 0 {
        seq![cur]
    } else if s[0] == 0x3B {
        seq![cur] + split_semis_acc(s.skip(1), Seq::empty())
    } else {
        split_semis_acc(s.skip(1), cur.push(s[0]))
    }
}

/// The `;`-separated parts of `s` (as `str::split(';')`).
pub open spec fn split_semis(s: Seq<u8>) -> Seq<Seq<u8>> {
    split_semis_acc(s, Seq::empty())
}

/// Whether a private-mode parameter survives: empty parts are dropped, and
/// so are numbers listed in `strip`; anything else is kept as written.
pub open spec fn keep_param(part: Seq<u8>, strip: Seq<u32>) -> bool {
    part.len() > 0 && !(parse_u32_spec(part) matches Some(n) && strip.contains(n))
}

/// The parts that survive, in order.
pub open spec fn kept_params(parts: Seq<Seq<u8>>, strip: Seq<u32>) -> Seq<Seq<u8>>
    decreases parts.len(),
{
    if parts.len() == 0 {
        Seq::empty()
    } else {
        let rest = kept_params(parts.drop_last(), strip);
        if keep_param(parts.last(), strip) {
            rest.push(parts.last())
        } else {
            rest
        }
    }
}

/// Parts joined with `;`.
pub open spec fn join_semis(parts: Seq<Seq<u8>>) -> Seq<u8>
    decreases parts.len(),
{
    if parts.len() == 0 {
        Seq::empty()
    } else if parts.len() == 1 {
        parts[0]
    } else {
        join_semis(parts.drop_last()) + seq![0x3Bu8] + parts.last()
    }
}

/// Index of the first `?` in `body` at or after `k`, or -1.
pub open spec fn question_from(body: Seq<u8>, k: int) -> int
    decreases body.len() - k,
{
    if k < 0 || k >= body.len() {
        -1
    } else if body[k] == 0x3F {
        k
    } else {
        question_from(body, k + 1)
    }
}

/// Index of the first `?` in `body`, or -1.
pub open spec fn first_question(body: Seq<u8>) -> int {
    question_from(body, 0)
}

/// What a complete CSI sequence `ESC [ body fin` becomes: `Some(bytes)`
/// when it is a private-mode set/reset (`h`/`l` with a `?` followed only by
/// digits and `;`), rewritten to keep the parameters that survive `strip`
/// (dropped entirely when none survives); `None` when it is copied verbatim.
pub open spec fn csi_rewrite(body: Seq<u8>, fin: u8, strip: Seq<u32>) -> Option<Seq<u8>> {
    if fin == 0x68 || fin == 0x6C {
        let pos = first_question(body);
        if pos >= 0 && (forall|i: int| pos + 1 <= i < body.len() ==> is_param_byte(#[trigger] body[i])) {
            let kept = kept_params(split_semis(body.skip(pos + 1)), strip);
            if kept.len() == 0 {
                Some(Seq::empty())
            } else {
                Some(seq![0x1Bu8, 0x5Bu8, 0x3Fu8] + join_semis(kept) + seq![fin])
            }
        } else {
            None
        }
    } else {
        None
    }
}

/// The sanitized form of `bytes` from position `i` on.
pub open spec fn strip_from(bytes: Seq<u8>, strip: Seq<u32>, i: int) -> Seq<u8>
    decreases bytes.len() - i,
{
    if i < 0 || i >= bytes.len() {
        Seq::empty()
    } else if bytes[i] != 0x1B || i + 1 >= bytes.len() || bytes[i + 1] != 0x5B {
        seq![bytes[i]] + strip_from(bytes, strip, i + 1)
    } else {
        let j = final_index(bytes, i + 2);
        proof {
            lemma_final_index_bounds(bytes, i + 2);
        }
        if j >= bytes.len() {
            seq![bytes[i]] + strip_from(bytes, strip, i + 1)
        } else {
            match csi_rewrite(bytes.subrange(i + 2, j), bytes[j], strip) {
                Some(r) => r + strip_from(bytes, strip, j + 1),
                None => bytes.subrange(i, j + 1) + strip_from(bytes, strip, j + 1),
            }
        }
    }
}

/// `bytes` with DEC private-mode toggles for the numbers in `strip` removed.
pub open spec fn strip_private_modes_spec(bytes: Seq<u8>, strip: Seq<u32>) -> Seq<u8> {
    strip_from(bytes, strip, 0)
}

proof fn lemma_kept_push(parts: Seq<Seq<u8>>, c: Seq<u8>, strip: Seq<u32>)
    ensures
        kept_params(parts.push(c), strip) == (if keep_param(c, strip) {
            kept_params(parts, strip).push(c)
        } else {
            kept_params(parts, strip)
        }),
{
    assert(parts.push(c).drop_last() =~= parts);
}

proof fn lemma_join_push(parts: Seq<Seq<u8>>, c: Seq<u8>)
    ensures
        join_semis(parts.push(c)) == (if parts.len() == 0 {
            c
        } else {
            join_semis(parts) + seq![0x3Bu8] + c
        }),
{
    assert(parts.push(c).drop_last() =~= parts);
}

pub proof fn lemma_final_index_bounds(bytes: Seq<u8>, j: int)
    requires
        0 <= j,
    ensures
        j <= final_index(bytes, j) || final_index(bytes, j) == bytes.len(),
        final_index(bytes, j) <= bytes.len(),
        final_index(bytes, j) >= j || j > bytes.len(),
    decreases bytes.len() - j,
{
    if j < bytes.len() && !is_final_byte(bytes[j]) {
        lemma_final_index_bounds(bytes, j + 1);
    }
}

fn find_final(bytes: &[u8], start: usize) -> (r: usize)
    requires
        start <= bytes.len(),
    ensures
        r == final_index(bytes@, start as int),
        start <= r <= bytes.len(),
{
    let mut j = start;
    while j < bytes.len()
        invariant
            start <= j <= bytes.len(),
            final_index(bytes@, j as int) == final_index(bytes@, start as int),
        decreases bytes.len() - j,
    {
        if 0x40 <= bytes[j] && bytes[j] <= 0x7E {
            return j;
        }
        j += 1;
    }
    j
}

proof fn lemma_digits_prefix_le(s: Seq<u8>, k: int)
    requires
        0 <= k <= s.len(),
    ensures
        digits_value(s.take(k)) <= digits_value(s),
    decreases s.len(),
{
    if k < s.len() {
        assert(s.drop_last().take(k) =~= s.take(k));
        lemma_digits_prefix_le(s.drop_last(), k);
    } else {
        assert(s.take(k) =~= s);
    }
}

fn parse_digits_u32(part: &[u8]) -> (r: Option<u32>)
    requires
        part@.len() > 0,
        all_digits(part@),
    ensures
        r == parse_u32_spec(part@),
{
    let mut acc: u64 = 0;
    let mut i: usize = 0;
    while i < part.len()
        invariant
            i <= part.len(),
            all_digits(part@),
            acc == digits_value(part@.take(i as int)),
            acc <= u32::MAX,
        decreases part.len() - i,
    {
        let d = (part[i] - 48) as u64;
        assert(is_digit_byte(part@[i as int]));
        assert(part@.take(i + 1).drop_last() =~= part@.take(i as int));
        let next = acc * 10 + d;
        if next > 0xFFFF_FFFF {
            proof {
                lemma_digits_prefix_le(part@, i + 1);
            }
            return None;
        }
        acc = next;
        i += 1;
    }
    assert(part@.take(part.len() as int) =~= part@);
    Some(acc as u32)
}

fn contains_u32(xs: &[u32], n: u32) -> (r: bool)
    ensures
        r == xs@.contains(n),
{
    let mut i: usize = 0;
    while i < xs.len()
        invariant
            i <= xs.len(),
            forall|k: int| 0 <= k < i ==> xs@[k] != n,
        decreases xs.len() - i,
    {
        if xs[i] == n {
            assert(xs@[i as int] == n);
            return true;
        }
        i += 1;
    }
    false
}

fn keep_param_exec(part: &Vec<u8>, strip: &[u32]) -> (r: bool)
    requires
        all_digits(part@),
    ensures
        r == keep_param(part@, strip@),
{
    if part.len() == 0 {
        return false;
    }
    match parse_digits_u32(part.as_slice()) {
        Some(n) => !contains_u32(strip, n),
        None => true,
    }
}

/// Rewrites the parameter list `params` (digits and `;` only): the `;`-joined
/// parameters that survive `strip`, and whether any survived.
fn rewrite_params(params: &[u8], strip: &[u32]) -> (r: (Vec<u8>, bool))
    requires
        forall|i: int| 0 <= i < params@.len() ==> is_param_byte(#[trigger] params@[i]),
    ensures
        r.0@ == join_semis(kept_params(split_semis(params@), strip@)),
        r.1 == (kept_params(split_semis(params@), strip@).len() > 0),
{
    let mut out: Vec<u8> = Vec::new();
    let mut any = false;
    let mut cur: Vec<u8> = Vec::new();
    let ghost mut done: Seq<Seq<u8>> = Seq::empty();
    let mut k: usize = 0;
    assert(params@.skip(0) =~= params@);
    while k < params.len()
        invariant
            k <= params.len(),
            forall|i: int| 0 <= i < params@.len() ==> is_param_byte(#[trigger] params@[i]),
            done + split_semis_acc(params@.skip(k as int), cur@) == split_semis(params@),
            out@ == join_semis(kept_params(done, strip@)),
            any == (kept_params(done, strip@).len() > 0),
            all_digits(cur@),
        decreases params.len() - k,
    {
        let b = params[k];
        let ghost rest = params@.skip(k as int);
        assert(rest[0] == b);
        assert(rest.skip(1) =~= params@.skip(k + 1));
        if b == 0x3B {
            proof {
                assert(split_semis_acc(rest, cur@) == seq![cur@] + split_semis_acc(
                    rest.skip(1),
                    Seq::empty(),
                ));
                assert(done.push(cur@) + split_semis_acc(rest.skip(1), Seq::empty()) =~= done
                    + split_semis_acc(rest, cur@));
            }
            let keep = keep_param_exec(&cur, strip);
            proof {
                lemma_kept_push(done, cur@, strip@);
                lemma_join_push(kept_params(done, strip@), cur@);
            }
            if keep {
                if any {
                    out.push(0x3B);
                }
                let ghost before = out@;
                let mut i: usize = 0;
                while i < cur.len()
                    invariant
                        i <= cur.len(),
                        out@ == before + cur@.take(i as int),
                    decreases cur.len() - i,
                {
                    out.push(cur[i]);
                    assert(cur@.take(i + 1) =~= cur@.take(i as int).push(cur@[i as int]));
                    i += 1;
                }
                assert(cur@.take(cur.len() as int) =~= cur@);
                any = true;
            }
            proof {
                done = done.push(cur@);
            }
            cur = Vec::new();
        } else {
            proof {
                assert(is_param_byte(b));
                assert(split_semis_acc(rest, cur@) == split_semis_acc(rest.skip(1), cur@.push(b)));
            }
            cur.push(b);
        }
        k += 1;
    }
    proof {
        assert(params@.skip(k as int) =~= Seq::<u8>::empty());
        assert(done.push(cur@) =~= split_semis(params@));
        lemma_kept_push(done, cur@, strip@);
        lemma_join_push(kept_params(done, strip@), cur@);
    }
    let keep = keep_param_exec(&cur, strip);
    if keep {
        if any {
            out.push(0x3B);
        }
        let ghost before = out@;
        let mut i: usize = 0;
        while i < cur.len()
            invariant
                i <= cur.len(),
                out@ == before + cur@.take(i as int),
            decreases cur.len() - i,
        {
            out.push(cur[i]);
            assert(cur@.take(i + 1) =~= cur@.take(i as int).push(cur@[i as int]));
            i += 1;
        }
        assert(cur@.take(cur.len() as int) =~= cur@);
        any = true;
    }
    (out, any)
}

proof fn lemma_question_from_bounds(body: Seq<u8>, k: int)
    requires
        0 <= k,
    ensures
        question_from(body, k) == -1 || (k <= question_from(body, k) < body.len() && body[question_from(body, k)] == 0x3F),
    decreases body.len() - k,
{
    if k < body.len() && body[k] != 0x3F {
        lemma_question_from_bounds(body, k + 1);
    }
}

fn copy_range(bytes: &[u8], lo: usize, hi: usize) -> (v: Vec<u8>)
    requires
        lo <= hi <= bytes.len(),
    ensures
        v@ == bytes@.subrange(lo as int, hi as int),
{
    let mut v: Vec<u8> = Vec::new();
    let mut k = lo;
    while k < hi
        invariant
            lo <= k <= hi,
            hi <= bytes.len(),
            v@ == bytes@.subrange(lo as int, k as int),
        decreases hi - k,
    {
        v.push(bytes[k]);
        assert(bytes@.subrange(lo as int, k + 1) =~= bytes@.subrange(lo as int, k as int).push(bytes@[k as int]));
        k += 1;
    }
    v
}

/// Rewrites the CSI sequence whose body is `bytes[lo..hi]` and whose final
/// byte is `fin`; `None` when it is to be copied verbatim.
fn rewrite_csi(bytes: &[u8], lo: usize, hi: usize, fin: u8, strip: &[u32]) -> (r: Option<Vec<u8>>)
    requires
        lo <= hi <= bytes.len(),
    ensures
        match r {
            Some(v) => csi_rewrite(bytes@.subrange(lo as int, hi as int), fin, strip@) == Some(v@),
            None => csi_rewrite(bytes@.subrange(lo as int, hi as int), fin, strip@) is None,
        },
{
    let ghost body = bytes@.subrange(lo as int, hi as int);
    if fin != 0x68 && fin != 0x6C {
        return None;
    }
    // locate the first '?'
    let mut k = lo;
    while k < hi && bytes[k] != 0x3F
        invariant
            lo <= k <= hi,
            hi <= bytes.len(),
            body == bytes@.subrange(lo as int, hi as int),
            question_from(body, (k - lo) as int) == first_question(body),
        decreases hi - k,
    {
        k += 1;
    }
    if k >= hi {
        return None;
    }
    assert(first_question(body) == k - lo);
    // the remaining bytes must all be digits or ';'
    let mut m = k + 1;
    while m < hi
        invariant
            k + 1 <= m <= hi,
            hi <= bytes.len(),
            lo <= k,
            body == bytes@.subrange(lo as int, hi as int),
            first_question(body) == k - lo,
            fin == 0x68 || fin == 0x6C,
            forall|i: int| (k - lo) + 1 <= i < (m - lo) ==> is_param_byte(#[trigger] body[i]),
        decreases hi - m,
    {
        let b = bytes[m];
        if !((0x30 <= b && b <= 0x39) || b == 0x3B) {
            assert(!is_param_byte(body[(m - lo) as int]));
            return None;
        }
        m += 1;
    }
    let params = copy_range(bytes, k + 1, hi);
    assert(params@ =~= body.skip((k - lo) + 1));
    let (joined, any) = rewrite_params(params.as_slice(), strip);
    let ghost kept = kept_params(split_semis(body.skip(first_question(body) + 1)), strip@);
    assert(forall|i: int| first_question(body) + 1 <= i < body.len() ==> is_param_byte(#[trigger] body[i]));
    assert(csi_rewrite(body, fin, strip@) == (if kept.len() == 0 {
        Some(Seq::<u8>::empty())
    } else {
        Some(seq![0x1Bu8, 0x5Bu8, 0x3Fu8] + join_semis(kept) + seq![fin])
    }));
    if !any {
        return Some(Vec::new());
    }
    let mut out: Vec<u8> = Vec::new();
    out.push(0x1B);
    out.push(0x5B);
    out.push(0x3F);
    let ghost before = out@;
    let mut i: usize = 0;
    while i < joined.len()
        invariant
            i <= joined.len(),
            out@ == before + joined@.take(i as int),
        decreases joined.len() - i,
    {
        out.push(joined[i]);
        assert(joined@.take(i + 1) =~= joined@.take(i as int).push(joined@[i as int]));
        i += 1;
    }
    assert(joined@.take(joined.len() as int) =~= joined@);
    out.push(fin);
    assert(out@ =~= seq![0x1Bu8, 0x5Bu8, 0x3Fu8] + joined@ + seq![fin]);
    Some(out)
}

/// Removes the DEC private-mode toggles (`CSI ? n h` / `CSI ? n l`) for the
/// numbers in `strip`, rewriting mixed parameter lists to keep the others.
pub fn strip_private_modes(bytes: &[u8], strip: &[u32]) -> (out: Vec<u8>)
    ensures
        out@ == strip_private_modes_spec(bytes@, strip@),
{
    let mut out: Vec<u8> = Vec::new();
    let mut i: usize = 0;
    while i < bytes.len()
        invariant
            i <= bytes.len(),
            out@ + strip_from(bytes@, strip@, i as int) == strip_from(bytes@, strip@, 0),
        decreases bytes.len() - i,
    {
        let ghost prev = out@;
        if bytes[i] != 0x1B || i + 1 >= bytes.len() || bytes[i + 1] != 0x5B {
            out.push(bytes[i]);
            assert(prev.push(bytes@[i as int]) + strip_from(bytes@, strip@, i + 1) =~= prev + (seq![bytes@[i as int]] + strip_from(bytes@, strip@, i + 1)));
            i += 1;
            continue;
        }
        let j = find_final(bytes, i + 2);
        if j >= bytes.len() {
            out.push(bytes[i]);
            assert(prev.push(bytes@[i as int]) + strip_from(bytes@, strip@, i + 1) =~= prev + (seq![bytes@[i as int]] + strip_from(bytes@, strip@, i + 1)));
            i += 1;
            continue;
        }
        let fin = bytes[j];
        let emitted = match rewrite_csi(bytes, i + 2, j, fin, strip) {
            Some(v) => v,
            None => copy_range(bytes, i, j + 1),
        };
        let mut k: usize = 0;
        while k < emitted.len()
            invariant
                k <= emitted.len(),
                out@ == prev + emitted@.take(k as int),
            decreases emitted.len() - k,
        {
            out.push(emitted[k]);
            assert(emitted@.take(k + 1) =~= emitted@.take(k as int).push(emitted@[k as int]));
            k += 1;
        }
        assert(emitted@.take(emitted.len() as int) =~= emitted@);
        assert(strip_from(bytes@, strip@, i as int) == emitted@ + strip_from(bytes@, strip@, j + 1));
        assert(prev + emitted@ + strip_from(bytes@, strip@, j + 1) =~= prev + (emitted@ + strip_from(bytes@, strip@, j + 1)));
        i = j + 1;
    }
    assert(out@ + strip_from(bytes@, strip@, i as int) =~= out@);
    out
}

// ---------------------------------------------------------------------------
// Trimming to the last full-clear marker
// ---------------------------------------------------------------------------

/// `needle` occurs in `hay` starting at `k`.
pub open spec fn matches_at(hay: Seq<u8>, needle: Seq<u8>, k: int) -> bool {
    0 <= k && k + needle.len() <= hay.len() && hay.subrange(k, k + needle.len()) == needle
}

/// Start of the first occurrence of a non-empty `needle` in `hay` at or after
/// `k`, or -1.
pub open spec fn first_match_from(hay: Seq<u8>, needle: Seq<u8>, k: int) -> int
    decreases hay.len() - k,
{
    if needle.len() == 0 || k < 0 || k + needle.len() > hay.len() {
        -1
    } else if matches_at(hay, needle, k) {
        k
    } else {
        first_match_from(hay, needle, k + 1)
    }
}

pub proof fn lemma_first_match_from_bounds(hay: Seq<u8>, needle: Seq<u8>, k: int)
    ensures
        first_match_from(hay, needle, k) == -1 || (k <= first_match_from(hay, needle, k)
            && matches_at(hay, needle, first_match_from(hay, needle, k)) && needle.len() > 0),
    decreases hay.len() - k,
{
    if !(needle.len() == 0 || k < 0 || k + needle.len() > hay.len()) && !matches_at(hay, needle, k) {
        lemma_first_match_from_bounds(hay, needle, k + 1);
    }
}

/// End of the last occurrence of `needle` found by scanning `hay` left to
/// right from `pos`, each search resuming after the previous occurrence; -1
/// when there is none.
pub open spec fn last_end_from(hay: Seq<u8>, needle: Seq<u8>, pos: int) -> int
    decreases hay.len() - pos,
{
    let m = first_match_from(hay, needle, pos);
    if m < 0 || pos < 0 {
        -1
    } else {
        let end = m + needle.len();
        proof {
            lemma_first_match_from_bounds(hay, needle, pos);
        }
        let rest = last_end_from(hay, needle, end);
        if rest >= 0 {
            rest
        } else {
            end
        }
    }
}

/// The largest such end over all markers, or -1.
pub open spec fn last_clear_end(hay: Seq<u8>, markers: Seq<Seq<u8>>) -> int
    decreases markers.len(),
{
    if markers.len() == 0 {
        -1
    } else {
        let a = last_clear_end(hay, markers.drop_last());
        let b = last_end_from(hay, markers.last(), 0);
        if a >= b {
            a
        } else {
            b
        }
    }
}

/// Finds the first occurrence of `needle` in `hay` at or after `start`.
fn find_from(hay: &[u8], start: usize, needle: &[u8]) -> (r: Option<usize>)
    requires
        start <= hay.len(),
    ensures
        match r {
            Some(k) => first_match_from(hay@, needle@, start as int) == k as int,
            None => first_match_from(hay@, needle@, start as int) == -1,
        },
{
    if needle.len() == 0 || hay.len() - start < needle.len() {
        return None;
    }
    let mut k = start;
    while k <= hay.len() - needle.len()
        invariant
            start <= k,
            needle.len() <= hay.len(),
            needle@.len() > 0,
            first_match_from(hay@, needle@, k as int) == first_match_from(hay@, needle@, start as int),
        decreases hay.len() - k,
    {
        let mut t: usize = 0;
        let mut same = true;
        while t < needle.len()
            invariant
                t <= needle.len(),
                k + needle.len() <= hay.len(),
                same == (forall|x: int| 0 <= x < t ==> hay@[k + x] == needle@[x]),
            decreases needle.len() - t,
        {
            if hay[k + t] != needle[t] {
                same = false;
            }
            t += 1;
        }
        if same {
            assert(hay@.subrange(k as int, k + needle.len()) =~= needle@);
            return Some(k);
        }
        assert(hay@.subrange(k as int, k + needle.len())[t - t] == hay@[k as int] || true);
        assert(!matches_at(hay@, needle@, k as int)) by {
            if matches_at(hay@, needle@, k as int) {
                assert forall|x: int| 0 <= x < needle@.len() implies hay@[k + x] == needle@[x] by {
                    assert(hay@.subrange(k as int, k + needle.len())[x] == hay@[k + x]);
                }
            }
        }
        k += 1;
    }
    None
}

/// Position of the first occurrence of `needle` in `hay`; `None` for an
/// empty needle or a haystack shorter than it.
pub fn find_subslice(hay: &[u8], needle: &[u8]) -> (r: Option<usize>)
    ensures
        match r {
            Some(k) => first_match_from(hay@, needle@, 0) == k as int,
            None => first_match_from(hay@, needle@, 0) == -1,
        },
{
    find_from(hay, 0, needle)
}

/// End of the last occurrence of `needle`, scanning occurrences left to right.
fn last_end(hay: &[u8], needle: &[u8]) -> (r: Option<usize>)
    ensures
        match r {
            Some(e) => last_end_from(hay@, needle@, 0) == e as int,
            None => last_end_from(hay@, needle@, 0) == -1,
        },
{
    let mut pos: usize = 0;
    let mut last: Option<usize> = None;
    while pos <= hay.len()
        invariant
            pos <= hay.len() + 1,
            match last {
                Some(e) => e == pos && pos <= hay.len() && (last_end_from(hay@, needle@, pos as int) >= 0 ==> last_end_from(hay@, needle@, 0) == last_end_from(hay@, needle@, pos as int))
                    && (last_end_from(hay@, needle@, pos as int) < 0 ==> last_end_from(hay@, needle@, 0) == e),
                None => pos == 0,
            },
        decreases hay.len() + 1 - pos,
    {
        proof {
            lemma_first_match_from_bounds(hay@, needle@, pos as int);
        }
        match find_from(hay, pos, needle) {
            Some(idx) => {
                let end = idx + needle.len();
                last = Some(end);
                pos = end;
            },
            None => {
                return last;
            },
        }
    }
    last
}

/// Configuration for transcript sanitization.
pub struct TranscriptSanitizeSpec {
    pub strip_private_modes: Vec<u32>,
    pub full_clear_markers: Vec<Vec<u8>>,
    pub trim_to_last_full_clear: bool,
}

/// The DEC private modes stripped by default: alternate screens (1049, 1047,
/// 47), bracketed paste (2004) and focus reporting (1004).
pub open spec fn default_strip_modes() -> Seq<u32> {
    seq![1049u32, 1047u32, 47u32, 2004u32, 1004u32]
}

/// The default full-clear markers: `ESC[2J`, `ESC[3J`, `ESC c` and `ESC[!p`.
pub open spec fn default_clear_markers() -> Seq<Seq<u8>> {
    seq![
        seq![0x1Bu8, 0x5Bu8, 0x32u8, 0x4Au8],
        seq![0x1Bu8, 0x5Bu8, 0x33u8, 0x4Au8],
        seq![0x1Bu8, 0x63u8],
        seq![0x1Bu8, 0x5Bu8, 0x21u8, 0x70u8],
    ]
}

/// The markers of a spec, as sequences of bytes.
pub open spec fn marker_views(markers: Seq<Vec<u8>>) -> Seq<Seq<u8>> {
    markers.map_values(|m: Vec<u8>| m@)
}

/// The sanitized transcript: trimmed to the content after the last
/// full-clear marker (when enabled and some marker occurs; nothing is
/// left when the last marker ends the transcript),
/// then stripped of the configured private-mode toggles.
pub open spec fn sanitize_spec(bytes: Seq<u8>, strip: Seq<u32>, markers: Seq<Seq<u8>>, trim: bool) -> Seq<u8> {
    let end = last_clear_end(bytes, markers);
    let slice = if trim && 0 <= end <= bytes.len() {
        bytes.skip(end)
    } else {
        bytes
    };
    strip_private_modes_spec(slice, strip)
}

impl TranscriptSanitizeSpec {
    /// The default specification.
    pub fn defaults() -> (s: TranscriptSanitizeSpec)
        ensures
            s.strip_private_modes@ == default_strip_modes(),
            marker_views(s.full_clear_markers@) == default_clear_markers(),
            s.trim_to_last_full_clear,
    {
        let strip = vec![1049u32, 1047u32, 47u32, 2004u32, 1004u32];
        let markers = vec![
            vec![0x1Bu8, 0x5Bu8, 0x32u8, 0x4Au8],
            vec![0x1Bu8, 0x5Bu8, 0x33u8, 0x4Au8],
            vec![0x1Bu8, 0x63u8],
            vec![0x1Bu8, 0x5Bu8, 0x21u8, 0x70u8],
        ];
        assert(strip@ =~= default_strip_modes());
        assert(marker_views(markers@) =~= default_clear_markers());
        TranscriptSanitizeSpec { strip_private_modes: strip, full_clear_markers: markers, trim_to_last_full_clear: true }
    }
}

/// Sanitizes a transcript with a custom spec.
pub fn sanitize_transcript_with(bytes: &[u8], spec: &TranscriptSanitizeSpec) -> (out: Vec<u8>)
    ensures
        out@ == sanitize_spec(bytes@, spec.strip_private_modes@, marker_views(spec.full_clear_markers@), spec.trim_to_last_full_clear),
{
    let ghost markers = marker_views(spec.full_clear_markers@);
    let mut best: Option<usize> = None;
    let mut m: usize = 0;
    while m < spec.full_clear_markers.len()
        invariant
            m <= spec.full_clear_markers.len(),
            markers == marker_views(spec.full_clear_markers@),
            match best {
                Some(e) => last_clear_end(bytes@, markers.take(m as int)) == e as int,
                None => last_clear_end(bytes@, markers.take(m as int)) == -1,
            },
        decreases spec.full_clear_markers.len() - m,
    {
        assert(markers.take(m + 1).drop_last() =~= markers.take(m as int));
        assert(markers.take(m + 1).last() == spec.full_clear_markers@[m as int]@);
        let e = last_end(bytes, spec.full_clear_markers[m].as_slice());
        best = match (best, e) {
            (Some(a), Some(b)) => if a >= b { Some(a) } else { Some(b) },
            (Some(a), None) => Some(a),
            (None, Some(b)) => Some(b),
            (None, None) => None,
        };
        m += 1;
    }
    assert(markers.take(m as int) =~= markers);
    let slice_start: usize = if spec.trim_to_last_full_clear {
        match best {
            Some(end) => if end <= bytes.len() { end } else { 0 },
            None => 0,
        }
    } else {
        0
    };
    let trimmed = copy_range(bytes, slice_start, bytes.len());
    assert(bytes@.subrange(0, bytes@.len() as int) =~= bytes@);
    assert(trimmed@ =~= bytes@.skip(slice_start as int));
    strip_private_modes(trimmed.as_slice(), spec.strip_private_modes.as_slice())
}

/// Sanitizes a transcript with the default spec.
pub fn sanitize_transcript(bytes: &[u8]) -> (out: Vec<u8>)
    ensures
        out@ == sanitize_spec(bytes@, default_strip_modes(), default_clear_markers(), true),
{
    let spec = TranscriptSanitizeSpec::defaults();
    sanitize_transcript_with(bytes, &spec)
}

// ---------------------------------------------------------------------------
// Removing ANSI control sequences from text
// ---------------------------------------------------------------------------

/// Whether `c` lies in the character range `lo..=hi`.
pub open spec fn in_range(c: char, lo: u32, hi: u32) -> bool {
    lo <= (c as u32) <= hi
}

/// Where the run of characters in `lo..=hi` that starts at `k` ends.
pub open spec fn range_run_end(s: Seq<char>, k: int, lo: u32, hi: u32) -> int
    decreases s.len() - k,
{
    if 0 <= k < s.len() && in_range(s[k], lo, hi) {
        range_run_end(s, k + 1, lo, hi)
    } else {
        k
    }
}

/// Where the run of characters other than BEL and ESC that starts at `k` ends.
pub open spec fn osc_text_end(s: Seq<char>, k: int) -> int
    decreases s.len() - k,
{
    if 0 <= k < s.len() && s[k] != '\x07' && s[k] != '\x1b' {
        osc_text_end(s, k + 1)
    } else {
        k
    }
}

pub proof fn lemma_run_ends(s: Seq<char>, k: int, lo: u32, hi: u32)
    requires
        0 <= k,
    ensures
        k <= range_run_end(s, k, lo, hi),
        k <= s.len() ==> range_run_end(s, k, lo, hi) <= s.len(),
        k <= osc_text_end(s, k),
        k <= s.len() ==> osc_text_end(s, k) <= s.len(),
    decreases s.len() - k,
{
    if k < s.len() {
        lemma_run_ends(s, k + 1, lo, hi);
    }
}

/// Where the run of `-` and `/` characters that starts at `k` ends.
pub open spec fn dash_slash_run_end(s: Seq<char>, k: int) -> int
    decreases s.len() - k,
{
    if 0 <= k < s.len() && (s[k] == '-' || s[k] == '/') {
        dash_slash_run_end(s, k + 1)
    } else {
        k
    }
}

pub proof fn lemma_dash_slash_run_end(s: Seq<char>, k: int)
    requires
        0 <= k,
    ensures
        k <= dash_slash_run_end(s, k),
        k <= s.len() ==> dash_slash_run_end(s, k) <= s.len(),
    decreases s.len() - k,
{
    if k < s.len() {
        lemma_dash_slash_run_end(s, k + 1);
    }
}

/// The end of the CSI sequence at `k` as the pattern reads it: ESC `[`,
/// characters in `0x30..=0x3F`, then `-` and `/` characters, then one
/// character in `0x40..=0x7E`. (In verbose mode the blank of the class
/// `[ -/]` is ignored, so that class holds just `-` and `/`.)
pub open spec fn csi_end(s: Seq<char>, k: int) -> Option<int> {
    if 0 <= k && k + 1 < s.len() && s[k] == '\x1b' && s[k + 1] == '[' {
        let a = range_run_end(s, k + 2, 0x30, 0x3F);
        let b = dash_slash_run_end(s, a);
        if b < s.len() && in_range(s[b], 0x40, 0x7E) {
            Some(b + 1)
        } else {
            None
        }
    } else {
        None
    }
}

/// The end of the OSC sequence at `k`: ESC `]`, text without BEL or ESC,
/// then BEL or ESC `\`.
pub open spec fn osc_end(s: Seq<char>, k: int) -> Option<int> {
    if 0 <= k && k + 1 < s.len() && s[k] == '\x1b' && s[k + 1] == ']' {
        let a = osc_text_end(s, k + 2);
        if a < s.len() && s[a] == '\x07' {
            Some(a + 1)
        } else if a + 1 < s.len() && s[a] == '\x1b' && s[a + 1] == '\\' {
            Some(a + 2)
        } else {
            None
        }
    } else {
        None
    }
}

/// `s` from position `k` on with its CSI and OSC sequences removed, scanning
/// left to right (a CSI sequence taken before an OSC one at the same place).
pub open spec fn ansi_strip_from(s: Seq<char>, k: int) -> Seq<char>
    decreases s.len() - k,
{
    if k < 0 || k >= s.len() {
        Seq::empty()
    } else {
        proof {
            lemma_run_ends(s, k + 2, 0x30, 0x3F);
            lemma_dash_slash_run_end(s, range_run_end(s, k + 2, 0x30, 0x3F));
            lemma_run_ends(s, k + 2, 0, 0);
        }
        match csi_end(s, k) {
            Some(e) => ansi_strip_from(s, e),
            None => match osc_end(s, k) {
                Some(e) => ansi_strip_from(s, e),
                None => seq![s[k]] + ansi_strip_from(s, k + 1),
            },
        }
    }
}

/// What removing ANSI escape sequences makes of `s`: every match of the
/// verbose-mode pattern `\x1B\[[0-?]*[ -/]*[@-~] | \x1B\][^\x07\x1B]*(?:\x07|\x1B\\)`
/// removed, leftmost first. Verbose mode ignores blanks, also inside
/// brackets, so `[ -/]` is the class of `-` and `/`. The character classes
/// are disjoint, so each greedy run is taken whole, and a sequence matches
/// exactly where `csi_end` or `osc_end` says.
pub open spec fn ansi_stripped(s: Seq<char>) -> Seq<char> {
    ansi_strip_from(s, 0)
}

proof fn lemma_strip_from_facts(s: Seq<char>, k: int)
    requires
        0 <= k <= s.len(),
    ensures
        ansi_strip_from(s, k).len() <= s.len() - k,
        !s.skip(k).contains('\x1b') ==> ansi_strip_from(s, k) == s.skip(k),
    decreases s.len() - k,
{
    if k < s.len() {
        lemma_run_ends(s, k + 2, 0x30, 0x3F);
        lemma_dash_slash_run_end(s, range_run_end(s, k + 2, 0x30, 0x3F));
        lemma_run_ends(s, k + 2, 0, 0);
        assert(s.skip(k)[0] == s[k]);
        match csi_end(s, k) {
            Some(e) => {
                lemma_strip_from_facts(s, e);
            },
            None => match osc_end(s, k) {
                Some(e) => {
                    lemma_strip_from_facts(s, e);
                },
                None => {
                    lemma_strip_from_facts(s, k + 1);
                    if !s.skip(k).contains('\x1b') {
                        assert forall|j: int| 0 <= j < s.skip(k + 1).len() implies #[trigger] s.skip(k + 1)[j] != '\x1b' by {
                            assert(s.skip(k + 1)[j] == s.skip(k)[j + 1]);
                        }
                        assert(s.skip(k) =~= seq![s[k]] + s.skip(k + 1));
                    }
                },
            },
        }
    } else {
        assert(s.skip(k) =~= Seq::<char>::empty());
    }
}

/// Removing escape sequences never lengthens text, and text without ESC
/// comes back unchanged.
pub proof fn lemma_ansi_stripped_facts(s: Seq<char>)
    ensures
        ansi_stripped(s).len() <= s.len(),
        !s.contains('\x1b') ==> ansi_stripped(s) == s,
{
    lemma_strip_from_facts(s, 0);
    assert(s.skip(0) =~= s);
}

/// Removes ANSI sequences with the `regex` crate: `Regex::replace_all` with
/// an empty replacement; the contract claims that this is `ansi_stripped`.
#[verifier::external_body]
fn regex_strip_ansi(input: &str) -> (r: String)
    ensures
        r@ == ansi_stripped(input@),
{
    let re = regex::Regex::new(
        r"(?x)
      \x1B\[[0-?]*[ -/]*[@-~]    # CSI sequence
      |                            # or
      \x1B\][^\x07\x1B]*(?:\x07|\x1B\\)  # OSC sequence terminated by BEL or ST
    ",
    ).expect("valid ANSI regex");
    re.replace_all(input, "").into_owned()
}

/// Removes ANSI CSI and OSC escape sequences from `input`.
pub fn strip_ansi_control_codes(input: &str) -> (r: String)
    ensures
        r@ == ansi_stripped(input@),
        !input@.contains('\x1b') ==> r@ == input@,
{
    proof {
        lemma_ansi_stripped_facts(input@);
    }
    regex_strip_ansi(input)
}

/// Number of characters of `s` that remain visible once escape sequences
/// are removed.
pub fn visible_len(s: &str) -> (n: usize)
    ensures
        n == ansi_stripped(s@).len(),
        n <= s@.len(),
{
    proof {
        lemma_ansi_stripped_facts(s@);
    }
    let plain = regex_strip_ansi(s);
    let cs = crate::text::chars_of(plain.as_str());
    cs.len()
}

// ---------------------------------------------------------------------------
// Returning the terminal to the primary screen
// ---------------------------------------------------------------------------

/// The decimal digits of `n`, most significant first, without leading zeros.
pub open spec fn decimal_bytes(n: nat) -> Seq<u8>
    decreases n,
{
    if n < 10 {
        seq![(48 + n) as u8]
    } else {
        decimal_bytes(n / 10).push((48 + n % 10) as u8)
    }
}

/// `ESC [ ? n l`: leaves DEC private mode `n`.
pub open spec fn mode_off(n: u32) -> Seq<u8> {
    seq![0x1Bu8, 0x5Bu8, 0x3Fu8] + decimal_bytes(n as nat) + seq![0x6Cu8]
}

/// The sequences leaving each of the modes, in order.
pub open spec fn modes_off(modes: Seq<u32>) -> Seq<u8>
    decreases modes.len(),
{
    if modes.len() == 0 {
        Seq::empty()
    } else {
        modes_off(modes.drop_last()) + mode_off(modes.last())
    }
}

/// `ESC[>0u` (reset modifyOtherKeys) then `ESC[?25h` (show the cursor).
pub open spec fn keys_reset_show_cursor() -> Seq<u8> {
    seq![0x1Bu8, 0x5Bu8, 0x3Eu8, 0x30u8, 0x75u8, 0x1Bu8, 0x5Bu8, 0x3Fu8, 0x32u8, 0x35u8, 0x68u8]
}

fn push_decimal_bytes(out: &mut Vec<u8>, n: u32)
    ensures
        final(out)@ == old(out)@ + decimal_bytes(n as nat),
    decreases n,
{
    if n >= 10 {
        push_decimal_bytes(out, n / 10);
    }
    let d: u8 = (n % 10) as u8;
    out.push(48 + d);
    assert(out@ =~= old(out)@ + decimal_bytes(n as nat)) by {
        if n >= 10 {
            assert(decimal_bytes(n as nat) == decimal_bytes((n / 10) as nat).push((48 + n % 10) as u8));
        }
    }
}

/// The bytes that put the terminal back on its primary screen: every mode
/// that transcript sanitization strips by default is left, then
/// modifyOtherKeys is reset and the cursor shown.
pub fn primary_screen_reset_bytes() -> (out: Vec<u8>)
    ensures
        out@ == modes_off(default_strip_modes()) + keys_reset_show_cursor(),
{
    let modes = TranscriptSanitizeSpec::defaults().strip_private_modes;
    let mut out: Vec<u8> = Vec::new();
    let mut i: usize = 0;
    while i < modes.len()
        invariant
            i <= modes.len(),
            modes@ == default_strip_modes(),
            out@ == modes_off(modes@.take(i as int)),
        decreases modes.len() - i,
    {
        let ghost before = out@;
        out.push(0x1B);
        out.push(0x5B);
        out.push(0x3F);
        push_decimal_bytes(&mut out, modes[i]);
        out.push(0x6C);
        assert(modes@.take(i + 1).drop_last() =~= modes@.take(i as int));
        assert(out@ =~= before + mode_off(modes@[i as int]));
        i += 1;
    }
    assert(modes@.take(modes.len() as int) =~= modes@);
    let tail: Vec<u8> = vec![0x1B, 0x5B, 0x3E, 0x30, 0x75, 0x1B, 0x5B, 0x3F, 0x32, 0x35, 0x68];
    assert(tail@ =~= keys_reset_show_cursor());
    let mut j: usize = 0;
    let ghost body = out@;
    while j < tail.len()
        invariant
            j <= tail.len(),
            out@ == body + tail@.take(j as int),
        decreases tail.len() - j,
    {
        out.push(tail[j]);
        assert(tail@.take(j + 1) =~= tail@.take(j as int).push(tail@[j as int]));
        j += 1;
    }
    assert(tail@.take(tail.len() as int) =~= tail@);
    out
}

} // verus!
