use vstd::prelude::*;

use crate::constants::KeyPermissions;
use crate::error::Error;
use crate::error::EINVAL;

verus! {

// ---------------------------------------------------------------------------
// The record grammar, at the specification level.
//
// The kernel describes a key as `type;uid;gid;perm;description` and reserves
// the right to prepend new fields at the front. The decoder therefore splits
// on every `;` and takes the five trailing pieces, so that unknown leading
// fields are tolerated.
// ---------------------------------------------------------------------------

/// Index of the first `;` in `s`, or -1 if there is none.
pub open spec fn first_semi(s: Seq<char>) -> int
    decreases s.len(),
{
    if s.len() == 0 {
        -1
    } else if s[0] == ';' {
        0
    } else {
        let r = first_semi(s.drop_first());
        if r == -1 {
            -1
        } else {
            r + 1
        }
    }
}

/// The pieces of `s` between its `;` separators, in order. A string with no
/// `;` is one piece; every separator ends a piece, so `n` separators give
/// `n + 1` pieces, empty pieces included.
pub open spec fn split_semis(s: Seq<char>) -> Seq<Seq<char>>
    decreases s.len(),
{
    let i = first_semi(s);
    if 0 <= i < s.len() {
        seq![s.take(i)] + split_semis(s.skip(i + 1))
    } else {
        seq![s]
    }
}

/// Whether `c` is a decimal digit.
pub open spec fn is_dec_digit(c: char) -> bool {
    48 <= c as u32 <= 57
}

/// The value of a decimal digit.
pub open spec fn dec_digit_val(c: char) -> nat {
    if is_dec_digit(c) {
        (c as u32 - 48) as nat
    } else {
        0
    }
}

/// The number a sequence of decimal digits denotes, most significant first.
pub open spec fn dec_val(s: Seq<char>) -> nat
    decreases s.len(),
{
    if s.len() == 0 {
        0
    } else {
        dec_val(s.drop_last()) * 10 + dec_digit_val(s.last())
    }
}

/// Whether `s` is a decimal numeral that fits in a `u32`.
pub open spec fn is_dec_u32(s: Seq<char>) -> bool {
    &&& s.len() > 0
    &&& forall|i: int| 0 <= i < s.len() ==> is_dec_digit(#[trigger] s[i])
    &&& dec_val(s) <= u32::MAX
}

/// Whether `c` is a hexadecimal digit, either case.
pub open spec fn is_hex_digit(c: char) -> bool {
    ||| 48 <= c as u32 <= 57
    ||| 97 <= c as u32 <= 102
    ||| 65 <= c as u32 <= 70
}

/// The value of a hexadecimal digit.
pub open spec fn hex_digit_val(c: char) -> nat {
    if 48 <= c as u32 <= 57 {
        (c as u32 - 48) as nat
    } else if 97 <= c as u32 <= 102 {
        (c as u32 - 87) as nat
    } else if 65 <= c as u32 <= 70 {
        (c as u32 - 55) as nat
    } else {
        0
    }
}

/// The number a sequence of hexadecimal digits denotes, most significant
/// first.
pub open spec fn hex_val(s: Seq<char>) -> nat
    decreases s.len(),
{
    if s.len() == 0 {
        0
    } else {
        hex_val(s.drop_last()) * 16 + hex_digit_val(s.last())
    }
}

/// Whether `s` is a hexadecimal numeral that fits in a `u32`.
pub open spec fn is_hex_u32(s: Seq<char>) -> bool {
    &&& s.len() > 0
    &&& forall|i: int| 0 <= i < s.len() ==> is_hex_digit(#[trigger] s[i])
    &&& hex_val(s) <= u32::MAX
}

/// What decoding a raw record yields: the five trailing `;`-separated fields
/// as (type, uid, gid, permission mask, description), or nothing when fewer
/// than five fields are present or a numeric field is not a numeral in range.
pub open spec fn parse_spec(s: Seq<char>) -> Option<(Seq<char>, u32, u32, u32, Seq<char>)> {
    let f = split_semis(s);
    let n = f.len() as int;
    if n < 5 {
        None
    } else {
        let t = f[n - 5];
        let u = f[n - 4];
        let g = f[n - 3];
        let p = f[n - 2];
        let d = f[n - 1];
        if is_dec_u32(u) && is_dec_u32(g) && is_hex_u32(p) {
            Some((t, dec_val(u) as u32, dec_val(g) as u32, hex_val(p) as u32, d))
        } else {
            None
        }
    }
}

// ---------------------------------------------------------------------------
// Where the pieces of the split lie in the original string.
// ---------------------------------------------------------------------------

/// Start of piece `i` of a string whose `;` positions are `pos`.
pub open spec fn seg_lo(pos: Seq<int>, i: int) -> int {
    if i == 0 {
        0
    } else {
        pos[i - 1] + 1
    }
}

/// End (exclusive) of piece `i` of a string of length `len` whose `;`
/// positions are `pos`.
pub open spec fn seg_hi(pos: Seq<int>, i: int, len: int) -> int {
    if i == pos.len() {
        len
    } else {
        pos[i]
    }
}

/// `pos` lists exactly the positions of `;` in `s`, in increasing order.
pub open spec fn semi_positions(s: Seq<char>, pos: Seq<int>) -> bool {
    &&& forall|k: int| 0 <= k < pos.len() ==> 0 <= #[trigger] pos[k] < s.len() && s[pos[k]] == ';'
    &&& forall|k1: int, k2: int| 0 <= k1 < k2 < pos.len() ==> pos[k1] < pos[k2]
    &&& forall|j: int|
        0 <= j < s.len() && s[j] == ';' ==> exists|k: int| 0 <= k < pos.len() && #[trigger] pos[k] == j
}

proof fn lemma_first_semi_none(s: Seq<char>)
    requires
        forall|j: int| 0 <= j < s.len() ==> s[j] != ';',
    ensures
        first_semi(s) == -1,
    decreases s.len(),
{
    if s.len() > 0 {
        lemma_first_semi_none(s.drop_first());
    }
}

proof fn lemma_first_semi_at(s: Seq<char>, k: int)
    requires
        0 <= k < s.len(),
        s[k] == ';',
        forall|j: int| 0 <= j < k ==> s[j] != ';',
    ensures
        first_semi(s) == k,
    decreases k,
{
    if k > 0 {
        lemma_first_semi_at(s.drop_first(), k - 1);
    }
}

/// The pieces of the split are exactly the spans of `s` between consecutive
/// `;` positions.
proof fn lemma_split_by_positions(s: Seq<char>, pos: Seq<int>)
    requires
        semi_positions(s, pos),
    ensures
        split_semis(s).len() == pos.len() + 1,
        forall|i: int|
            0 <= i <= pos.len() ==> #[trigger] split_semis(s)[i] == s.subrange(
                seg_lo(pos, i),
                seg_hi(pos, i, s.len() as int),
            ),
    decreases pos.len(),
{
    if pos.len() == 0 {
        assert forall|j: int| 0 <= j < s.len() implies s[j] != ';' by {
            if s[j] == ';' {
                let k = choose|k: int| 0 <= k < pos.len() && pos[k] == j;
                assert(false);
            }
        }
        lemma_first_semi_none(s);
        assert(split_semis(s) == seq![s]);
        assert(s == s.subrange(0, s.len() as int));
    } else {
        let p0 = pos[0];
        assert forall|j: int| 0 <= j < p0 implies s[j] != ';' by {
            if s[j] == ';' {
                let k = choose|k: int| 0 <= k < pos.len() && pos[k] == j;
                if k > 0 {
                    assert(pos[0] < pos[k]);
                }
            }
        }
        lemma_first_semi_at(s, p0);
        let s2 = s.skip(p0 + 1);
        let pos2 = pos.skip(1).map_values(|v: int| v - p0 - 1);
        assert(split_semis(s) == seq![s.take(p0)] + split_semis(s2));
        assert forall|k: int| 0 <= k < pos2.len() implies 0 <= #[trigger] pos2[k] < s2.len()
            && s2[pos2[k]] == ';' by {
            assert(pos[0] < pos[k + 1]);
            assert(pos2[k] == pos[k + 1] - p0 - 1);
            assert(s2[pos2[k]] == s[pos[k + 1]]);
        }
        assert forall|j2: int| 0 <= j2 < s2.len() && s2[j2] == ';' implies exists|k: int|
            0 <= k < pos2.len() && #[trigger] pos2[k] == j2 by {
            let j = j2 + p0 + 1;
            assert(s[j] == s2[j2]);
            let k = choose|k: int| 0 <= k < pos.len() && #[trigger] pos[k] == j;
            if k == 0 {
                assert(pos[0] == j);
                assert(false);
            }
            assert(pos2[k - 1] == pos[k] - p0 - 1);
            assert(pos2[k - 1] == j2);
        }
        lemma_split_by_positions(s2, pos2);
        assert forall|i: int|
            0 <= i <= pos.len() implies #[trigger] split_semis(s)[i] == s.subrange(
            seg_lo(pos, i),
            seg_hi(pos, i, s.len() as int),
        ) by {
            if i == 0 {
                assert(split_semis(s)[0] == s.take(p0));
                assert(s.take(p0) =~= s.subrange(0, p0));
            } else {
                assert(split_semis(s)[i] == split_semis(s2)[i - 1]);
                assert(split_semis(s2)[i - 1] == s2.subrange(
                    seg_lo(pos2, i - 1),
                    seg_hi(pos2, i - 1, s2.len() as int),
                ));
                if i - 1 > 0 {
                    assert(pos2[i - 2] == pos[i - 1] - p0 - 1);
                }
                if i - 1 < pos2.len() {
                    assert(pos2[i - 1] == pos[i] - p0 - 1);
                }
                assert(s2.subrange(seg_lo(pos2, i - 1), seg_hi(pos2, i - 1, s2.len() as int))
                    =~= s.subrange(seg_lo(pos, i), seg_hi(pos, i, s.len() as int)));
            }
        }
    }
}

proof fn lemma_first_semi_props(s: Seq<char>)
    ensures
        first_semi(s) == -1 ==> forall|j: int| 0 <= j < s.len() ==> s[j] != ';',
        first_semi(s) != -1 ==> 0 <= first_semi(s) < s.len() && s[first_semi(s)] == ';' && forall|
            j: int,
        | 0 <= j < first_semi(s) ==> s[j] != ';',
    decreases s.len(),
{
    if s.len() > 0 && s[0] != ';' {
        let t = s.drop_first();
        lemma_first_semi_props(t);
        if first_semi(t) == -1 {
            assert forall|j: int| 0 <= j < s.len() implies s[j] != ';' by {
                if j > 0 {
                    assert(t[j - 1] == s[j]);
                }
            }
        } else {
            assert(s[first_semi(s)] == t[first_semi(t)]);
            assert forall|j: int| 0 <= j < first_semi(s) implies s[j] != ';' by {
                if j > 0 {
                    assert(t[j - 1] == s[j]);
                }
            }
        }
    }
}

/// A string without `;` is a single piece.
proof fn lemma_split_single(x: Seq<char>)
    requires
        forall|i: int| 0 <= i < x.len() ==> x[i] != ';',
    ensures
        split_semis(x) == seq![x],
{
    lemma_first_semi_none(x);
}

/// Splitting distributes over a `;` that joins two strings.
proof fn lemma_split_append(x: Seq<char>, r: Seq<char>)
    ensures
        split_semis(x + seq![';'] + r) == split_semis(x) + split_semis(r),
    decreases x.len(),
{
    let whole = x + seq![';'] + r;
    lemma_first_semi_props(x);
    let i = first_semi(x);
    if 0 <= i < x.len() {
        lemma_first_semi_at(whole, i);
        assert(whole.skip(i + 1) =~= x.skip(i + 1) + seq![';'] + r);
        lemma_split_append(x.skip(i + 1), r);
        assert(whole.take(i) =~= x.take(i));
        assert(split_semis(whole) == seq![x.take(i)] + (split_semis(x.skip(i + 1)) + split_semis(
            r,
        )));
        assert(split_semis(x) == seq![x.take(i)] + split_semis(x.skip(i + 1)));
        assert(seq![x.take(i)] + (split_semis(x.skip(i + 1)) + split_semis(r)) =~= (seq![
            x.take(i),
        ] + split_semis(x.skip(i + 1))) + split_semis(r));
    } else {
        assert(forall|j: int| 0 <= j < x.len() ==> x[j] != ';');
        assert(whole[x.len() as int] == ';');
        lemma_first_semi_at(whole, x.len() as int);
        assert(whole.take(x.len() as int) =~= x);
        assert(whole.skip(x.len() as int + 1) =~= r);
        lemma_split_single(x);
        assert(split_semis(whole) == seq![x] + split_semis(r));
    }
}

/// Forward-compatibility of the decoder: anything prepended at the front of a
/// record, together with its `;` separator, never changes what is decoded.
pub proof fn lemma_parse_prefix_tolerant(x: Seq<char>, s: Seq<char>)
    requires
        split_semis(s).len() >= 5,
    ensures
        parse_spec(x + seq![';'] + s) == parse_spec(s),
{
    lemma_split_append(x, s);
    let b = split_semis(s);
    let f = split_semis(x + seq![';'] + s);
    let n = f.len() as int;
    let m = b.len() as int;
    assert(f[n - 5] == b[m - 5]);
    assert(f[n - 4] == b[m - 4]);
    assert(f[n - 3] == b[m - 3]);
    assert(f[n - 2] == b[m - 2]);
    assert(f[n - 1] == b[m - 1]);
}

/// A record with fewer than five fields is rejected.
pub proof fn lemma_parse_needs_five(s: Seq<char>)
    requires
        split_semis(s).len() < 5,
    ensures
        parse_spec(s) is None,
{
}

/// Decoding a five-field record recovers exactly the type, owners, permission
/// mask and description that were joined into it.
pub proof fn lemma_parse_five_fields(
    t: Seq<char>,
    u: Seq<char>,
    g: Seq<char>,
    p: Seq<char>,
    d: Seq<char>,
)
    requires
        forall|i: int| 0 <= i < t.len() ==> t[i] != ';',
        is_dec_u32(u),
        is_dec_u32(g),
        is_hex_u32(p),
        forall|i: int| 0 <= i < d.len() ==> d[i] != ';',
    ensures
        parse_spec(t + seq![';'] + u + seq![';'] + g + seq![';'] + p + seq![';'] + d) == Some(
            (t, dec_val(u) as u32, dec_val(g) as u32, hex_val(p) as u32, d),
        ),
{
    assert(';' as u32 == 59);
    assert forall|i: int| 0 <= i < u.len() implies u[i] != ';' by {
        assert(is_dec_digit(u[i]));
    }
    assert forall|i: int| 0 <= i < g.len() implies g[i] != ';' by {
        assert(is_dec_digit(g[i]));
    }
    assert forall|i: int| 0 <= i < p.len() implies p[i] != ';' by {
        assert(is_hex_digit(p[i]));
    }
    let whole = t + seq![';'] + u + seq![';'] + g + seq![';'] + p + seq![';'] + d;
    let rest1 = u + seq![';'] + g + seq![';'] + p + seq![';'] + d;
    let rest2 = g + seq![';'] + p + seq![';'] + d;
    let rest3 = p + seq![';'] + d;
    assert(whole =~= t + seq![';'] + rest1);
    lemma_split_append(t, rest1);
    assert(rest1 =~= u + seq![';'] + rest2);
    lemma_split_append(u, rest2);
    assert(rest2 =~= g + seq![';'] + rest3);
    lemma_split_append(g, rest3);
    lemma_split_append(p, d);
    lemma_split_single(t);
    lemma_split_single(u);
    lemma_split_single(g);
    lemma_split_single(p);
    lemma_split_single(d);
    assert(split_semis(whole) =~= seq![t, u, g, p, d]);
}

proof fn lemma_dec_val_take_succ(s: Seq<char>, j: int)
    requires
        0 <= j < s.len(),
    ensures
        dec_val(s.take(j + 1)) == dec_val(s.take(j)) * 10 + dec_digit_val(s[j]),
{
    assert(s.take(j + 1).drop_last() =~= s.take(j));
    assert(s.take(j + 1).last() == s[j]);
}

proof fn lemma_dec_val_prefix_le(s: Seq<char>, i: int)
    requires
        0 <= i <= s.len(),
    ensures
        dec_val(s.take(i)) <= dec_val(s),
    decreases s.len() - i,
{
    if i == s.len() {
        assert(s.take(i) =~= s);
    } else {
        lemma_dec_val_take_succ(s, i);
        lemma_dec_val_prefix_le(s, i + 1);
    }
}

proof fn lemma_hex_val_take_succ(s: Seq<char>, j: int)
    requires
        0 <= j < s.len(),
    ensures
        hex_val(s.take(j + 1)) == hex_val(s.take(j)) * 16 + hex_digit_val(s[j]),
{
    assert(s.take(j + 1).drop_last() =~= s.take(j));
    assert(s.take(j + 1).last() == s[j]);
}

proof fn lemma_hex_val_prefix_le(s: Seq<char>, i: int)
    requires
        0 <= i <= s.len(),
    ensures
        hex_val(s.take(i)) <= hex_val(s),
    decreases s.len() - i,
{
    if i == s.len() {
        assert(s.take(i) =~= s);
    } else {
        lemma_hex_val_take_succ(s, i);
        lemma_hex_val_prefix_le(s, i + 1);
    }
}

// ---------------------------------------------------------------------------
// The executable decoder.
// ---------------------------------------------------------------------------

/// The positions of every `;` in `s`, in increasing order.
fn find_semis(s: &str) -> (r: Vec<usize>)
    ensures
        forall|k: int| 0 <= k < r@.len() ==> #[trigger] r@[k] < s@.len() && s@[r@[k] as int]
            == ';',
        forall|k1: int, k2: int| 0 <= k1 < k2 < r@.len() ==> r@[k1] < r@[k2],
        forall|j: int|
            0 <= j < s@.len() && s@[j] == ';' ==> exists|k: int|
                0 <= k < r@.len() && #[trigger] r@[k] == j,
{
    let n = s.unicode_len();
    let mut r: Vec<usize> = Vec::new();
    let mut i: usize = 0;
    while i < n
        invariant
            n == s@.len(),
            i <= n,
            forall|k: int| 0 <= k < r@.len() ==> #[trigger] r@[k] < i && s@[r@[k] as int] == ';',
            forall|k1: int, k2: int| 0 <= k1 < k2 < r@.len() ==> r@[k1] < r@[k2],
            forall|j: int|
                0 <= j < i && s@[j] == ';' ==> exists|k: int|
                    0 <= k < r@.len() && #[trigger] r@[k] == j,
        decreases n - i,
    {
        let ghost old_r = r@;
        let c = s.get_char(i);
        if c == ';' {
            r.push(i);
        }
        proof {
            assert forall|j: int| 0 <= j < i + 1 && s@[j] == ';' implies exists|k: int|
                0 <= k < r@.len() && #[trigger] r@[k] == j by {
                if j == i {
                    assert(r@[r@.len() - 1] == j);
                } else {
                    let k = choose|k: int| 0 <= k < old_r.len() && #[trigger] old_r[k] == j;
                    assert(r@[k] == j);
                }
            }
        }
        i = i + 1;
    }
    r
}

/// Reads the span `[from, to)` of `s` as a decimal numeral. Fails on an empty
/// span, a non-digit, or a value that does not fit in a `u32`.
fn parse_u32_dec(s: &str, from: usize, to: usize) -> (r: Option<u32>)
    requires
        from <= to <= s@.len(),
    ensures
        ({
            let sub = s@.subrange(from as int, to as int);
            match r {
                Some(v) => is_dec_u32(sub) && v == dec_val(sub),
                None => !is_dec_u32(sub),
            }
        }),
{
    let ghost sub = s@.subrange(from as int, to as int);
    if from == to {
        return None;
    }
    let mut acc: u32 = 0;
    let mut i: usize = from;
    while i < to
        invariant
            from <= i <= to <= s@.len(),
            sub == s@.subrange(from as int, to as int),
            acc == dec_val(sub.take(i - from)),
            forall|k: int| 0 <= k < i - from ==> is_dec_digit(#[trigger] sub[k]),
        decreases to - i,
    {
        let c = s.get_char(i);
        proof {
            assert(sub[i - from] == s@[i as int]);
        }
        let v = c as u32;
        if v < 48 || v > 57 {
            return None;
        }
        let d: u32 = v - 48;
        let wide: u64 = acc as u64 * 10 + d as u64;
        proof {
            lemma_dec_val_take_succ(sub, i - from);
        }
        if wide > 0xffff_ffffu64 {
            proof {
                lemma_dec_val_prefix_le(sub, i - from + 1);
            }
            return None;
        }
        acc = wide as u32;
        i = i + 1;
    }
    proof {
        assert(sub.take(to - from) =~= sub);
    }
    Some(acc)
}

/// Reads the span `[from, to)` of `s` as a hexadecimal numeral, either case.
/// Fails on an empty span, a non-digit, or a value that does not fit in a
/// `u32`.
fn parse_u32_hex(s: &str, from: usize, to: usize) -> (r: Option<u32>)
    requires
        from <= to <= s@.len(),
    ensures
        ({
            let sub = s@.subrange(from as int, to as int);
            match r {
                Some(v) => is_hex_u32(sub) && v == hex_val(sub),
                None => !is_hex_u32(sub),
            }
        }),
{
    let ghost sub = s@.subrange(from as int, to as int);
    if from == to {
        return None;
    }
    let mut acc: u32 = 0;
    let mut i: usize = from;
    while i < to
        invariant
            from <= i <= to <= s@.len(),
            sub == s@.subrange(from as int, to as int),
            acc == hex_val(sub.take(i - from)),
            forall|k: int| 0 <= k < i - from ==> is_hex_digit(#[trigger] sub[k]),
        decreases to - i,
    {
        let c = s.get_char(i);
        proof {
            assert(sub[i - from] == s@[i as int]);
        }
        let v = c as u32;
        let d: u32 = if 48 <= v && v <= 57 {
            v - 48
        } else if 97 <= v && v <= 102 {
            v - 87
        } else if 65 <= v && v <= 70 {
            v - 55
        } else {
            return None;
        };
        let wide: u64 = acc as u64 * 16 + d as u64;
        proof {
            lemma_hex_val_take_succ(sub, i - from);
        }
        if wide > 0xffff_ffffu64 {
            proof {
                lemma_hex_val_prefix_le(sub, i - from + 1);
            }
            return None;
        }
        acc = wide as u32;
        i = i + 1;
    }
    proof {
        assert(sub.take(to - from) =~= sub);
    }
    Some(acc)
}

/// The structured metadata of a key or keyring, decoded from the kernel's
/// `type;uid;gid;perm;description` record.
#[derive(Debug, Clone)]
pub struct Description {
    /// The textual kind tag of the object, e.g. "keyring" or "user".
    pub type_: String,
    /// The user that owns the object.
    pub uid: u32,
    /// The group that owns the object.
    pub gid: u32,
    /// The permission bitmask, decoded from hexadecimal.
    pub perms: KeyPermissions,
    /// The free-text description of the object.
    pub description: String,
}

impl Description {
    /// Decodes a raw metadata record. The record is split on `;` and the five
    /// trailing fields are taken, so that fields the kernel may prepend in the
    /// future are tolerated. A record with fewer than five fields, or whose
    /// numeric fields are not numerals in range, is rejected as invalid
    /// rather than aborting.
    pub fn parse(s: &str) -> (r: Result<Description, Error>)
        ensures
            r matches Ok(d) ==> parse_spec(s@) == Some(
                (d.type_@, d.uid, d.gid, d.perms, d.description@),
            ),
            r matches Err(e) ==> parse_spec(s@) is None && e == (Error { code: EINVAL }),
    {
        let n = s.unicode_len();
        let semis = find_semis(s);
        let k = semis.len();
        let ghost pos = semis@.map_values(|v: usize| v as int);
        proof {
            assert forall|j: int| 0 <= j < s@.len() && s@[j] == ';' implies exists|q: int|
                0 <= q < pos.len() && #[trigger] pos[q] == j by {
                let q = choose|q: int| 0 <= q < semis@.len() && #[trigger] semis@[q] == j;
                assert(pos[q] == j);
            }
            lemma_split_by_positions(s@, pos);
        }
        let ghost f = split_semis(s@);
        if k < 4 {
            return Err(Error { code: EINVAL });
        }
        let t_start: usize = if k == 4 {
            0
        } else {
            semis[k - 5] + 1
        };
        let t_end: usize = semis[k - 4];
        let u_start: usize = semis[k - 4] + 1;
        let u_end: usize = semis[k - 3];
        let g_start: usize = semis[k - 3] + 1;
        let g_end: usize = semis[k - 2];
        let p_start: usize = semis[k - 2] + 1;
        let p_end: usize = semis[k - 1];
        let d_start: usize = semis[k - 1] + 1;
        proof {
            assert(f.len() == k + 1);
            assert(f[k - 4] == s@.subrange(t_start as int, t_end as int));
            assert(f[k - 3] == s@.subrange(u_start as int, u_end as int));
            assert(f[k - 2] == s@.subrange(g_start as int, g_end as int));
            assert(f[k - 1] == s@.subrange(p_start as int, p_end as int));
            assert(f[k as int] == s@.subrange(d_start as int, s@.len() as int));
        }
        let uid = match parse_u32_dec(s, u_start, u_end) {
            Some(v) => v,
            None => {
                return Err(Error { code: EINVAL });
            },
        };
        let gid = match parse_u32_dec(s, g_start, g_end) {
            Some(v) => v,
            None => {
                return Err(Error { code: EINVAL });
            },
        };
        let perms = match parse_u32_hex(s, p_start, p_end) {
            Some(v) => v,
            None => {
                return Err(Error { code: EINVAL });
            },
        };
        let type_ = s.substring_char(t_start, t_end).to_owned();
        let description = s.substring_char(d_start, n).to_owned();
        Ok(Description { type_, uid, gid, perms, description })
    }
}

} // verus!
