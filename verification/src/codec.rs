//! Path and listing codecs: splitting a delimited path string into ordered
//! segments, and flattening a directory listing into a single delimited byte
//! buffer.
//!
//! The listing wire format joins the fields of a record (name, creation
//! time, modification time) with `???` and terminates each record with
//! `!!!`. Neither delimiter is escaped, so a name containing one of them
//! would corrupt the stream; that is an accepted limitation of the format.
//! A record missing either timestamp is left out of the stream entirely.

use crate::c_types::{BoundaryError, RustString};
use vstd::prelude::*;
use vstd::seq_lib::*;
use vstd::string::{StrSliceExecFns, StringSliceAdditionalSpecFns};
use vstd::utf8::{decode_utf8, encode_utf8, valid_utf8};

verus! {

/// Index of the first path delimiter, or the length when there is none.
pub open spec fn first_slash(s: Seq<char>) -> nat
    decreases s.len(),
{
    if s.len() == 0 {
        0
    } else if s[0] == '/' {
        0
    } else {
        1 + first_slash(s.skip(1))
    }
}

/// Splits on every path delimiter, keeping empty pieces.
pub open spec fn split_on_slash(s: Seq<char>) -> Seq<Seq<char>>
    decreases s.len(),
{
    let i = first_slash(s) as int;
    if i >= s.len() {
        seq![s]
    } else {
        seq![s.take(i)] + split_on_slash(s.skip(i + 1))
    }
}

/// Keeps only non-empty segments.
pub open spec fn keep_nonempty() -> spec_fn(Seq<char>) -> bool {
    |seg: Seq<char>| seg.len() > 0
}

/// The path model: the ordered non-empty segments between delimiters.
/// Empty pieces produced by leading, trailing or doubled delimiters are
/// dropped.
pub open spec fn split_path_spec(s: Seq<char>) -> Seq<Seq<char>> {
    split_on_slash(s).filter(keep_nonempty())
}

proof fn lemma_first_slash(s: Seq<char>)
    ensures
        first_slash(s) <= s.len(),
        forall|j: int| 0 <= j < first_slash(s) ==> s[j] != '/',
        first_slash(s) < s.len() ==> s[first_slash(s) as int] == '/',
    decreases s.len(),
{
    if s.len() == 0 {
    } else if s[0] == '/' {
    } else {
        lemma_first_slash(s.skip(1));
        assert forall|j: int| 0 <= j < first_slash(s) implies s[j] != '/' by {
            if j > 0 {
                assert(s.skip(1)[j - 1] == s[j]);
            }
        }
        if first_slash(s) < s.len() {
            assert(s.skip(1)[first_slash(s) as int - 1] == s[first_slash(s) as int]);
        }
    }
}

proof fn lemma_split_no_slash(a: Seq<char>)
    requires
        forall|j: int| 0 <= j < a.len() ==> a[j] != '/',
    ensures
        split_on_slash(a) == seq![a],
{
    lemma_first_slash(a);
}

proof fn lemma_first_slash_concat(a: Seq<char>, b: Seq<char>)
    requires
        forall|j: int| 0 <= j < a.len() ==> a[j] != '/',
    ensures
        first_slash(a + seq!['/'] + b) == a.len(),
    decreases a.len(),
{
    let x = a + seq!['/'] + b;
    if a.len() == 0 {
        assert(x[0] == '/');
    } else {
        assert(x[0] == a[0]);
        lemma_first_slash_concat(a.skip(1), b);
        assert(x.skip(1) =~= a.skip(1) + seq!['/'] + b);
    }
}

proof fn lemma_split_slash_concat(a: Seq<char>, b: Seq<char>)
    requires
        forall|j: int| 0 <= j < a.len() ==> a[j] != '/',
    ensures
        split_on_slash(a + seq!['/'] + b) == seq![a] + split_on_slash(b),
{
    let x = a + seq!['/'] + b;
    lemma_first_slash_concat(a, b);
    assert(x.take(a.len() as int) =~= a);
    assert(x.skip(a.len() as int + 1) =~= b);
}

proof fn lemma_filter_singleton(x: Seq<char>, pred: spec_fn(Seq<char>) -> bool)
    ensures
        seq![x].filter(pred) == if pred(x) {
            seq![x]
        } else {
            Seq::<Seq<char>>::empty()
        },
{
    reveal_with_fuel(Seq::<_>::filter, 2);
    assert(seq![x].drop_last() =~= Seq::<Seq<char>>::empty());
    if pred(x) {
        assert(Seq::<Seq<char>>::empty().push(x) =~= seq![x]);
    }
}

/// Splits a path on `/`, dropping the empty segments that leading, trailing
/// or doubled delimiters produce, and preserving the order of the rest.
pub fn split_path(s: &str) -> (r: Vec<String>)
    ensures
        r.deep_view() == split_path_spec(s@),
{
    let n = s.unicode_len();
    let mut r: Vec<String> = Vec::new();
    let mut seg_start: usize = 0;
    let mut i: usize = 0;
    proof {
        assert(s@.skip(0) =~= s@);
    }
    while i < n
        invariant
            seg_start <= i <= n,
            n == s@.len(),
            forall|j: int| seg_start <= j < i ==> s@[j] != '/',
            r.deep_view() + split_on_slash(s@.skip(seg_start as int)).filter(keep_nonempty())
                == split_path_spec(s@),
        decreases n - i,
    {
        if s.get_char(i) == '/' {
            proof {
                let a = s@.subrange(seg_start as int, i as int);
                let b = s@.skip(i as int + 1);
                assert(s@.skip(seg_start as int) =~= a + seq!['/'] + b);
                lemma_split_slash_concat(a, b);
                Seq::filter_distributes_over_add(seq![a], split_on_slash(b), keep_nonempty());
                lemma_filter_singleton(a, keep_nonempty());
            }
            if i > seg_start {
                let ghost old_dv = r.deep_view();
                let seg = s.substring_char(seg_start, i).to_owned();
                r.push(seg);
                proof {
                    let a = s@.subrange(seg_start as int, i as int);
                    assert(r.deep_view() =~~= old_dv.push(a));
                    assert(old_dv.push(a) =~~= old_dv + seq![a]);
                    assert((old_dv + seq![a])
                        + split_on_slash(s@.skip(i as int + 1)).filter(keep_nonempty()) =~~= old_dv
                        + (seq![a] + split_on_slash(s@.skip(i as int + 1)).filter(keep_nonempty())));
                }
            } else {
                proof {
                    let a = s@.subrange(seg_start as int, i as int);
                    assert(a =~= Seq::<char>::empty());
                    assert(Seq::<Seq<char>>::empty() + split_on_slash(s@.skip(i as int + 1)).filter(
                        keep_nonempty(),
                    ) =~~= split_on_slash(s@.skip(i as int + 1)).filter(keep_nonempty()));
                }
            }
            seg_start = i + 1;
        }
        i = i + 1;
    }
    proof {
        let a = s@.skip(seg_start as int);
        lemma_split_no_slash(a);
        lemma_filter_singleton(a, keep_nonempty());
    }
    if i > seg_start {
        let ghost old_dv = r.deep_view();
        let seg = s.substring_char(seg_start, i).to_owned();
        r.push(seg);
        proof {
            let a = s@.skip(seg_start as int);
            assert(a == s@.subrange(seg_start as int, n as int));
            assert(r.deep_view() =~~= old_dv.push(a));
            assert(old_dv.push(a) =~~= old_dv + seq![a]);
        }
    } else {
        proof {
            let a = s@.skip(seg_start as int);
            assert(a.len() == 0);
            assert(r.deep_view() + Seq::<Seq<char>>::empty() =~~= r.deep_view());
        }
    }
    r
}

/// Splits a path envelope into segments; fails with the typed encoding
/// error when the envelope does not carry valid text.
pub fn prepare_path_segments(path_segments: &RustString) -> (r: Result<
    Vec<String>,
    BoundaryError,
>)
    requires
        !path_segments.is_released(),
    ensures
        r is Ok <==> valid_utf8(path_segments.spec_content()),
        r matches Ok(v) ==> v.deep_view() == split_path_spec(
            decode_utf8(path_segments.spec_content()),
        ),
        r matches Err(e) ==> e is InvalidEncoding,
{
    match path_segments.decode() {
        Ok(s) => Ok(split_path(s.as_str())),
        Err(e) => Err(e),
    }
}

/// One directory listing record: a name and the two timestamps the listing
/// reports, either of which the engine may be unable to supply.
pub struct LsEntry {
    pub name: String,
    pub created: Option<i64>,
    pub modified: Option<i64>,
}

/// The field delimiter `???` of the listing wire format.
pub open spec fn item_sep() -> Seq<u8> {
    seq![63u8, 63u8, 63u8]
}

/// The record delimiter `!!!` of the listing wire format.
pub open spec fn line_sep() -> Seq<u8> {
    seq![33u8, 33u8, 33u8]
}

/// Decimal digits of an unsigned number, most significant first.
pub open spec fn dec_u64(n: nat) -> Seq<u8>
    decreases n,
{
    if n < 10 {
        seq![(48 + n) as u8]
    } else {
        dec_u64(n / 10).push((48 + n % 10) as u8)
    }
}

/// Decimal rendering of a signed timestamp, with a leading minus sign when
/// negative.
pub open spec fn dec_i64(n: int) -> Seq<u8> {
    if n < 0 {
        seq![45u8] + dec_u64((-n) as nat)
    } else {
        dec_u64(n as nat)
    }
}

/// The three delimited fields of a record: name, creation time and
/// modification time, joined by the field delimiter. Meaningful when both
/// timestamps are present.
pub open spec fn record_body(e: LsEntry) -> Seq<u8>
    recommends
        e.created is Some,
        e.modified is Some,
{
    encode_utf8(e.name@) + item_sep() + dec_i64(e.created->0 as int) + item_sep() + dec_i64(
        e.modified->0 as int,
    )
}

/// The bytes a single record contributes to the listing: its three fields
/// and the delimiters when both timestamps are present, nothing otherwise.
pub open spec fn entry_row(e: LsEntry) -> Seq<u8> {
    match (e.created, e.modified) {
        (Some(_), Some(_)) => record_body(e) + line_sep(),
        _ => Seq::empty(),
    }
}

/// The whole listing: the rows of the records that carry both timestamps,
/// in order. Empty for an empty or all-filtered listing.
pub open spec fn listing_bytes(entries: Seq<LsEntry>) -> Seq<u8>
    decreases entries.len(),
{
    if entries.len() == 0 {
        Seq::empty()
    } else {
        entry_row(entries[0]) + listing_bytes(entries.skip(1))
    }
}

proof fn lemma_listing_bytes_add(a: Seq<LsEntry>, b: Seq<LsEntry>)
    ensures
        listing_bytes(a + b) == listing_bytes(a) + listing_bytes(b),
    decreases a.len(),
{
    if a.len() == 0 {
        assert(a + b =~= b);
        assert(Seq::<u8>::empty() + listing_bytes(b) =~= listing_bytes(b));
    } else {
        assert((a + b).skip(1) =~= a.skip(1) + b);
        lemma_listing_bytes_add(a.skip(1), b);
        assert((a + b)[0] == a[0]);
        assert(entry_row(a[0]) + (listing_bytes(a.skip(1)) + listing_bytes(b)) =~= (entry_row(a[0])
            + listing_bytes(a.skip(1))) + listing_bytes(b));
    }
}

proof fn lemma_listing_bytes_snoc(s: Seq<LsEntry>, i: int)
    requires
        0 <= i < s.len(),
    ensures
        listing_bytes(s.take(i + 1)) == listing_bytes(s.take(i)) + entry_row(s[i]),
{
    assert(s.take(i + 1) =~= s.take(i) + seq![s[i]]);
    lemma_listing_bytes_add(s.take(i), seq![s[i]]);
    assert(seq![s[i]].skip(1) =~= Seq::<LsEntry>::empty());
    assert(listing_bytes(Seq::<LsEntry>::empty()) == Seq::<u8>::empty());
    assert(listing_bytes(seq![s[i]]) == entry_row(s[i]) + listing_bytes(seq![s[i]].skip(1)));
    assert(entry_row(s[i]) + Seq::<u8>::empty() =~= entry_row(s[i]));
}

fn push_item_sep(out: &mut Vec<u8>)
    ensures
        final(out)@ == old(out)@ + item_sep(),
{
    out.push(63);
    out.push(63);
    out.push(63);
    proof {
        assert(out@ =~= old(out)@ + item_sep());
    }
}

fn push_line_sep(out: &mut Vec<u8>)
    ensures
        final(out)@ == old(out)@ + line_sep(),
{
    out.push(33);
    out.push(33);
    out.push(33);
    proof {
        assert(out@ =~= old(out)@ + line_sep());
    }
}

fn push_dec_u64(out: &mut Vec<u8>, n: u64)
    ensures
        final(out)@ == old(out)@ + dec_u64(n as nat),
    decreases n,
{
    if n < 10 {
        out.push(48 + n as u8);
        proof {
            assert(out@ =~= old(out)@ + dec_u64(n as nat));
        }
    } else {
        push_dec_u64(out, n / 10);
        out.push(48 + (n % 10) as u8);
        proof {
            assert(out@ =~= old(out)@ + dec_u64(n as nat));
        }
    }
}

fn push_dec_i64(out: &mut Vec<u8>, n: i64)
    ensures
        final(out)@ == old(out)@ + dec_i64(n as int),
{
    if n >= 0 {
        push_dec_u64(out, n as u64);
    } else {
        out.push(45);
        let m: u64 = ((-(n + 1)) as u64) + 1;
        proof {
            assert(m as int == -(n as int));
        }
        push_dec_u64(out, m);
        proof {
            assert(out@ =~= old(out)@ + dec_i64(n as int));
        }
    }
}

/// Flattens a listing into the delimited wire format: every record with
/// both timestamps contributes `name???created???modified!!!`, in order;
/// records missing a timestamp are left out entirely. An empty or
/// all-filtered listing yields an empty buffer.
pub fn prepare_ls_output(ls_result: &Vec<LsEntry>) -> (r: Vec<u8>)
    ensures
        r@ == listing_bytes(ls_result@),
{
    let mut out: Vec<u8> = Vec::new();
    let mut i: usize = 0;
    proof {
        assert(ls_result@.take(0) =~= Seq::<LsEntry>::empty());
    }
    while i < ls_result.len()
        invariant
            i <= ls_result@.len(),
            out@ == listing_bytes(ls_result@.take(i as int)),
        decreases ls_result@.len() - i,
    {
        let ghost before = out@;
        let e = &ls_result[i];
        if let (Some(c), Some(m)) = (e.created, e.modified) {
            let mut name_bytes = e.name.as_str().as_bytes_vec();
            out.append(&mut name_bytes);
            push_item_sep(&mut out);
            push_dec_i64(&mut out, c);
            push_item_sep(&mut out);
            push_dec_i64(&mut out, m);
            push_line_sep(&mut out);
            proof {
                assert(out@ =~= before + entry_row(ls_result@[i as int]));
            }
        }
        proof {
            lemma_listing_bytes_snoc(ls_result@, i as int);
        }
        i = i + 1;
    }
    proof {
        assert(ls_result@.take(ls_result@.len() as int) =~= ls_result@);
    }
    out
}

/// True when byte `b` does not occur in `s`.
pub open spec fn byte_free(s: Seq<u8>, b: u8) -> bool {
    forall|i: int| 0 <= i < s.len() ==> s[i] != b
}

/// Index of the first occurrence of `b`, or the length when there is none.
spec fn first_byte(s: Seq<u8>, b: u8) -> nat
    decreases s.len(),
{
    if s.len() == 0 {
        0
    } else if s[0] == b {
        0
    } else {
        1 + first_byte(s.skip(1), b)
    }
}

proof fn lemma_first_byte_concat(a: Seq<u8>, t: Seq<u8>, b: u8)
    requires
        byte_free(a, b),
        t.len() > 0,
        t[0] == b,
    ensures
        first_byte(a + t, b) == a.len(),
    decreases a.len(),
{
    let x = a + t;
    if a.len() == 0 {
        assert(x[0] == b);
    } else {
        assert(x[0] == a[0]);
        lemma_first_byte_concat(a.skip(1), t, b);
        assert(x.skip(1) =~= a.skip(1) + t);
    }
}

/// A delimited concatenation splits in only one way when the left part is
/// free of the delimiter byte.
proof fn lemma_sep_split_unique(x1: Seq<u8>, y1: Seq<u8>, x2: Seq<u8>, y2: Seq<u8>, b: u8)
    requires
        byte_free(x1, b),
        byte_free(x2, b),
        x1 + seq![b, b, b] + y1 == x2 + seq![b, b, b] + y2,
    ensures
        x1 == x2,
        y1 == y2,
{
    let s = x1 + seq![b, b, b] + y1;
    assert(s =~= x1 + (seq![b, b, b] + y1));
    assert(s =~= x2 + (seq![b, b, b] + y2));
    lemma_first_byte_concat(x1, seq![b, b, b] + y1, b);
    lemma_first_byte_concat(x2, seq![b, b, b] + y2, b);
    assert(x1.len() == x2.len());
    assert(x1 =~= s.take(x1.len() as int));
    assert(x2 =~= s.take(x1.len() as int));
    assert(y1 =~= s.skip(x1.len() as int + 3));
    assert(y2 =~= s.skip(x1.len() as int + 3));
}

proof fn lemma_dec_u64_digits(n: nat)
    ensures
        dec_u64(n).len() >= 1,
        forall|i: int| 0 <= i < dec_u64(n).len() ==> 48 <= #[trigger] dec_u64(n)[i] <= 57,
    decreases n,
{
    if n < 10 {
    } else {
        lemma_dec_u64_digits(n / 10);
    }
}

/// Decimal digit strings of distinct numbers differ: the rendering never
/// produces leading zeros, so it is one-to-one.
proof fn lemma_dec_u64_injective(a: nat, b: nat)
    requires
        dec_u64(a) == dec_u64(b),
    ensures
        a == b,
    decreases a + b,
{
    lemma_dec_u64_digits(a / 10);
    lemma_dec_u64_digits(b / 10);
    if a < 10 && b < 10 {
        assert(dec_u64(a)[0] == dec_u64(b)[0]);
        assert(dec_u64(a)[0] == (48 + a) as u8);
        assert(dec_u64(b)[0] == (48 + b) as u8);
        assert(((48 + a) as u8) as int == 48 + a);
        assert(((48 + b) as u8) as int == 48 + b);
        assert(a == b);
    } else if a < 10 {
        assert(dec_u64(b).len() >= 2);
        assert(dec_u64(a).len() == 1);
        assert(false);
    } else if b < 10 {
        assert(dec_u64(a).len() >= 2);
        assert(dec_u64(b).len() == 1);
        assert(false);
    } else {
        assert(dec_u64(a).last() == dec_u64(b).last());
        assert(dec_u64(a).last() == (48 + a % 10) as u8);
        assert(dec_u64(b).last() == (48 + b % 10) as u8);
        assert(((48 + a % 10) as u8) as int == 48 + a % 10) by {
            assert(0 <= a % 10 < 10);
        }
        assert(((48 + b % 10) as u8) as int == 48 + b % 10) by {
            assert(0 <= b % 10 < 10);
        }
        assert(a % 10 == b % 10);
        assert(dec_u64(a).drop_last() =~= dec_u64(a / 10));
        assert(dec_u64(b).drop_last() =~= dec_u64(b / 10));
        lemma_dec_u64_injective(a / 10, b / 10);
        vstd::arithmetic::div_mod::lemma_fundamental_div_mod(a as int, 10);
        vstd::arithmetic::div_mod::lemma_fundamental_div_mod(b as int, 10);
    }
}

proof fn lemma_dec_i64_digits(n: int)
    ensures
        dec_i64(n).len() >= 1,
        forall|i: int| 0 <= i < dec_i64(n).len() ==> (48 <= #[trigger] dec_i64(n)[i] <= 57
            || dec_i64(n)[i] == 45),
{
    if n < 0 {
        lemma_dec_u64_digits((-n) as nat);
        assert forall|i: int| 0 <= i < dec_i64(n).len() implies (48 <= #[trigger] dec_i64(n)[i]
            <= 57 || dec_i64(n)[i] == 45) by {
            if i > 0 {
                assert(dec_i64(n)[i] == dec_u64((-n) as nat)[i - 1]);
            }
        }
    } else {
        lemma_dec_u64_digits(n as nat);
    }
}

proof fn lemma_dec_i64_injective(a: int, b: int)
    requires
        dec_i64(a) == dec_i64(b),
    ensures
        a == b,
{
    lemma_dec_u64_digits(if a < 0 { (-a) as nat } else { a as nat });
    lemma_dec_u64_digits(if b < 0 { (-b) as nat } else { b as nat });
    if a < 0 && b < 0 {
        assert(dec_u64((-a) as nat) =~= dec_i64(a).skip(1));
        assert(dec_u64((-b) as nat) =~= dec_i64(b).skip(1));
        lemma_dec_u64_injective((-a) as nat, (-b) as nat);
    } else if a < 0 {
        assert(dec_i64(a)[0] == 45);
        assert(dec_i64(b)[0] == dec_u64(b as nat)[0]);
    } else if b < 0 {
        assert(dec_i64(b)[0] == 45);
        assert(dec_i64(a)[0] == dec_u64(a as nat)[0]);
    } else {
        lemma_dec_u64_injective(a as nat, b as nat);
    }
}

fn eq_bytes(a: &Vec<u8>, b: &Vec<u8>) -> (r: bool)
    ensures
        r <==> a@ == b@,
{
    if a.len() != b.len() {
        return false;
    }
    let mut i: usize = 0;
    while i < a.len()
        invariant
            i <= a@.len(),
            a@.len() == b@.len(),
            forall|j: int| 0 <= j < i ==> a@[j] == b@[j],
        decreases a@.len() - i,
    {
        if a[i] != b[i] {
            return false;
        }
        i = i + 1;
    }
    proof {
        assert(a@ =~= b@);
    }
    true
}

/// A run of three `d` bytes at position `j`.
spec fn triple_at(s: Seq<u8>, j: int, b: u8) -> bool {
    0 <= j && j + 3 <= s.len() && s[j] == b && s[j + 1] == b && s[j + 2] == b
}

/// Finds the first run of three `d` bytes at or after `start`.
fn find_triple(bytes: &Vec<u8>, start: usize, d: u8) -> (r: Option<usize>)
    requires
        start <= bytes@.len(),
    ensures
        r matches Some(j) ==> start <= j && j + 3 <= bytes@.len() && triple_at(
            bytes@,
            j as int,
            d,
        ) && (forall|k: int| start <= k < j ==> !triple_at(bytes@, k, d)),
        r is None ==> forall|k: int| k >= start ==> !triple_at(bytes@, k, d),
{
    let n = bytes.len();
    let mut j = start;
    while j < n && n - j >= 3
        invariant
            start <= j <= n,
            n == bytes@.len(),
            forall|k: int| start <= k < j ==> !triple_at(bytes@, k, d),
        decreases n - j,
    {
        if bytes[j] == d && bytes[j + 1] == d && bytes[j + 2] == d {
            return Some(j);
        }
        j = j + 1;
    }
    proof {
        assert forall|k: int| k >= start implies !triple_at(bytes@, k, d) by {
            if k >= j {
                assert(k + 3 > n);
            }
        }
    }
    None
}

fn copy_range(bytes: &Vec<u8>, start: usize, end: usize) -> (r: Vec<u8>)
    requires
        start <= end <= bytes@.len(),
    ensures
        r@ == bytes@.subrange(start as int, end as int),
{
    vstd::slice::slice_to_vec(vstd::slice::slice_subrange(bytes.as_slice(), start, end))
}

/// Magnitude of a signed number.
spec fn mag(t: int) -> nat {
    if t < 0 {
        (-t) as nat
    } else {
        t as nat
    }
}

/// Numeric value of a digit string, read most significant first.
spec fn dec_val(s: Seq<u8>) -> int
    decreases s.len(),
{
    if s.len() == 0 {
        0
    } else {
        dec_val(s.drop_last()) * 10 + s.last() - 48
    }
}

proof fn lemma_dec_val_of_dec_u64(n: nat)
    ensures
        dec_val(dec_u64(n)) == n,
    decreases n,
{
    if n < 10 {
        assert(dec_u64(n) == seq![(48 + n) as u8]);
        assert(dec_u64(n).len() == 1);
        assert(dec_u64(n).last() == (48 + n) as u8);
        assert(seq![(48 + n) as u8].drop_last() =~= Seq::<u8>::empty());
        assert(dec_val(Seq::<u8>::empty()) == 0);
        assert(((48 + n) as u8) as int == 48 + n);
    } else {
        lemma_dec_val_of_dec_u64(n / 10);
        lemma_dec_u64_digits(n / 10);
        assert(dec_u64(n) == dec_u64(n / 10).push((48 + n % 10) as u8));
        assert(dec_u64(n).len() == dec_u64(n / 10).len() + 1);
        assert(dec_u64(n).last() == (48 + n % 10) as u8);
        assert(dec_u64(n).drop_last() =~= dec_u64(n / 10));
        assert(((48 + n % 10) as u8) as int == 48 + n % 10) by {
            assert(0 <= n % 10 < 10);
        }
        vstd::arithmetic::div_mod::lemma_fundamental_div_mod(n as int, 10);
    }
}

proof fn lemma_dec_val_nonneg(s: Seq<u8>)
    requires
        forall|j: int| 0 <= j < s.len() ==> s[j] >= 48,
    ensures
        dec_val(s) >= 0,
    decreases s.len(),
{
    if s.len() > 0 {
        lemma_dec_val_nonneg(s.drop_last());
    }
}

/// Reading more digits never shrinks the value.
proof fn lemma_dec_val_prefix(p: Seq<u8>, q: Seq<u8>)
    requires
        forall|j: int| 0 <= j < p.len() ==> p[j] >= 48,
        forall|j: int| 0 <= j < q.len() ==> q[j] >= 48,
    ensures
        dec_val(p) <= dec_val(p + q),
    decreases q.len(),
{
    if q.len() == 0 {
        assert(p + q =~= p);
    } else {
        assert((p + q).drop_last() =~= p + q.drop_last());
        lemma_dec_val_prefix(p, q.drop_last());
        lemma_dec_val_nonneg(p + q.drop_last());
        assert((p + q).last() == q.last());
    }
}

/// Lenient decimal reading for the decoder. Whatever it misreads on other
/// input is caught by the re-encoding comparison in `decode_listing`, but
/// on the canonical rendering of a number it is guaranteed to return that
/// number.
#[verifier::loop_isolation(false)]
fn parse_i64_loose(b: &Vec<u8>) -> (r: Option<i64>)
    ensures
        forall|t: int| i64::MIN <= t <= i64::MAX && b@ == dec_i64(t) ==> r == Some(t as i64),
{
    let ghost can: Option<int> = if exists|t: int|
        i64::MIN <= t <= i64::MAX && b@ == dec_i64(t) {
        Some(choose|t: int| i64::MIN <= t <= i64::MAX && b@ == dec_i64(t))
    } else {
        None
    };
    proof {
        assert forall|t: int| i64::MIN <= t <= i64::MAX && b@ == dec_i64(t) implies can == Some(
            t,
        ) by {
            let t2 = choose|t2: int| i64::MIN <= t2 <= i64::MAX && b@ == dec_i64(t2);
            lemma_dec_i64_injective(t2, t);
        }
        if can is Some {
            let t = can->0;
            lemma_dec_u64_digits(mag(t));
            if t < 0 {
                assert(b@[0] == 45);
                assert(b@.skip(1) =~= dec_u64(mag(t)));
            } else {
                assert(b@ =~= dec_u64(mag(t)));
                assert(b@[0] >= 48);
            }
        }
    }
    if b.len() == 0 {
        return None;
    }
    let neg = b[0] == 45;
    let start: usize = if neg {
        1
    } else {
        0
    };
    if b.len() == start {
        return None;
    }
    let mut acc: u64 = 0;
    let mut i: usize = start;
    proof {
        assert(b@.subrange(start as int, start as int) =~= Seq::<u8>::empty());
    }
    while i < b.len()
        invariant
            start <= i <= b@.len(),
            start == 1 || start == 0,
            acc <= 9223372036854775808,
            forall|j: int| start <= j < i ==> 48 <= #[trigger] b@[j] <= 57,
            acc as int == dec_val(b@.subrange(start as int, i as int)),
            can matches Some(t) ==> (neg == (t < 0) && start == (if t < 0 {
                1int
            } else {
                0int
            }) && b@.skip(start as int) == dec_u64(mag(t)) && mag(t)
                <= 9223372036854775808),
        decreases b@.len() - i,
    {
        let d = b[i];
        proof {
            if can is Some {
                let t = can->0;
                lemma_dec_u64_digits(mag(t));
                assert(b@.skip(start as int)[i - start] == b@[i as int]);
                assert(48 <= d <= 57);
                let p = b@.subrange(start as int, i as int + 1);
                let q = b@.subrange(i as int + 1, b@.len() as int);
                assert(p.drop_last() =~= b@.subrange(start as int, i as int));
                assert(p.last() == b@[i as int]);
                assert forall|j: int| 0 <= j < p.len() implies p[j] >= 48 by {
                    assert(p[j] == b@[start + j]);
                    assert(b@.skip(start as int)[j] == b@[start + j]);
                }
                assert forall|j: int| 0 <= j < q.len() implies q[j] >= 48 by {
                    assert(q[j] == b@[i + 1 + j]);
                    assert(b@.skip(start as int)[i + 1 + j - start] == b@[i + 1 + j]);
                }
                lemma_dec_val_prefix(p, q);
                assert(p + q =~= b@.skip(start as int));
                lemma_dec_val_of_dec_u64(mag(t));
                assert(dec_val(p) == acc * 10 + d - 48);
                assert(acc * 10 + d - 48 <= mag(t));
            }
        }
        if d < 48 || d > 57 {
            return None;
        }
        if acc > 922337203685477580 {
            return None;
        }
        let ghost acc_old = acc;
        acc = acc * 10 + ((d - 48) as u64);
        proof {
            let p = b@.subrange(start as int, i as int + 1);
            assert(p.drop_last() =~= b@.subrange(start as int, i as int));
            assert(p.last() == b@[i as int]);
            assert(acc as int == dec_val(p));
        }
        if acc > 9223372036854775808 {
            return None;
        }
        i = i + 1;
    }
    proof {
        if can is Some {
            let t = can->0;
            assert(b@.subrange(start as int, b@.len() as int) =~= b@.skip(start as int));
            lemma_dec_val_of_dec_u64(mag(t));
            assert(acc as int == mag(t));
        }
    }
    if neg {
        if acc == 9223372036854775808 {
            proof {
                if can is Some {
                    let t = can->0;
                    assert(t < 0 && mag(t) == acc as int);
                    assert(t == i64::MIN);
                    assert(t as i64 == i64::MIN);
                }
            }
            Some(i64::MIN)
        } else {
            proof {
                if can is Some {
                    let t = can->0;
                    assert(t < 0 && mag(t) == acc as int);
                    assert((acc as i64) as int == acc as int);
                    assert(-(acc as i64) == t as i64);
                }
            }
            Some(-(acc as i64))
        }
    } else {
        if acc > 9223372036854775807 {
            None
        } else {
            proof {
                if can is Some {
                    let t = can->0;
                    assert(t >= 0 && mag(t) == acc as int);
                    assert(acc as i64 == t as i64);
                }
            }
            Some(acc as i64)
        }
    }
}

fn parse_record_loose(record: &Vec<u8>) -> (r: Option<LsEntry>)
    ensures
        r matches Some(e) ==> e.created is Some && e.modified is Some,
        forall|e: LsEntry|
            record_representable(e) && record@ == record_body(e) ==> (r matches Some(e2)
                && e2.name@ == e.name@ && e2.created == e.created && e2.modified == e.modified),
{
    let ghost canr: Option<LsEntry> = if exists|e: LsEntry|
        record_representable(e) && record@ == record_body(e) {
        Some(choose|e: LsEntry| record_representable(e) && record@ == record_body(e))
    } else {
        None
    };
    let ghost e0 = canr->0;
    let ghost nb = encode_utf8(e0.name@);
    let ghost d1 = dec_i64(e0.created->0 as int);
    let ghost d2 = dec_i64(e0.modified->0 as int);
    proof {
        if canr is Some {
            lemma_dec_i64_digits(e0.created->0 as int);
            lemma_dec_i64_digits(e0.modified->0 as int);
            assert(record@ =~= nb + (seq![63u8, 63u8, 63u8] + (d1 + (seq![63u8, 63u8, 63u8]
                + d2))));
            assert forall|k: int| 0 <= k < nb.len() implies record@[k] != 63 by {
                assert(record@[k] == nb[k]);
            }
            assert(record@[nb.len() as int] == 63);
            assert(record@[nb.len() as int + 1] == 63);
            assert(record@[nb.len() as int + 2] == 63);
            assert(triple_at(record@, nb.len() as int, 63));
            assert forall|k: int|
                nb.len() + 3 <= k < nb.len() + 3 + d1.len() implies record@[k] != 63 by {
                assert(record@[k] == d1[k - nb.len() - 3]);
            }
            let m = nb.len() + 3 + d1.len();
            assert(record@[m as int] == 63);
            assert(record@[m as int + 1] == 63);
            assert(record@[m as int + 2] == 63);
            assert(triple_at(record@, m as int, 63));
        }
    }
    let rl = record.len();
    let a = match find_triple(record, 0, 63) {
        Some(a) => a,
        None => {
            return None;
        },
    };
    proof {
        if canr is Some {
            if a < nb.len() {
                assert(record@[a as int] != 63);
                assert(false);
            }
            if a > nb.len() {
                assert(!triple_at(record@, nb.len() as int, 63));
                assert(false);
            }
            assert(a == nb.len());
        }
    }
    let b = match find_triple(record, a + 3, 63) {
        Some(b) => b,
        None => {
            return None;
        },
    };
    proof {
        if canr is Some {
            let m = nb.len() + 3 + d1.len();
            if b < m {
                assert(record@[b as int] != 63);
                assert(false);
            }
            if b > m {
                assert(!triple_at(record@, m as int, 63));
                assert(false);
            }
            assert(b == m);
            assert(record@.len() == m + 3 + d2.len());
        }
    }
    let name_bytes = copy_range(record, 0, a);
    proof {
        if canr is Some {
            assert(name_bytes@ =~= nb);
            vstd::utf8::encode_utf8_valid_utf8(e0.name@);
            vstd::utf8::encode_utf8_decode_utf8(e0.name@);
        }
    }
    let name_env = RustString::Live(name_bytes);
    let name = match name_env.decode() {
        Ok(s) => s,
        Err(_) => {
            return None;
        },
    };
    let created_bytes = copy_range(record, a + 3, b);
    proof {
        if canr is Some {
            assert(created_bytes@ =~= d1);
        }
    }
    let created = match parse_i64_loose(&created_bytes) {
        Some(c) => c,
        None => {
            return None;
        },
    };
    let modified_bytes = copy_range(record, b + 3, rl);
    proof {
        if canr is Some {
            assert(modified_bytes@ =~= d2);
        }
    }
    let modified = match parse_i64_loose(&modified_bytes) {
        Some(m) => m,
        None => {
            return None;
        },
    };
    proof {
        if canr is Some {
            assert((e0.created->0 as int) as i64 == e0.created->0);
            assert((e0.modified->0 as int) as i64 == e0.modified->0);
            assert(created == e0.created->0);
            assert(modified == e0.modified->0);
            assert(name@ == e0.name@);
            assert forall|e: LsEntry|
                record_representable(e) && record@ == record_body(e) implies (e.name@ == e0.name@
                && e.created == e0.created && e.modified == e0.modified) by {
                lemma_record_body_injective(e, e0);
            }
        }
    }
    Some(LsEntry { name, created: Some(created), modified: Some(modified) })
}

proof fn lemma_listing_bytes_congruent(a: Seq<LsEntry>, b: Seq<LsEntry>)
    requires
        a.len() == b.len(),
        forall|i: int|
            0 <= i < a.len() ==> ((#[trigger] a[i]).name@ == b[i].name@ && a[i].created
                == b[i].created && a[i].modified == b[i].modified),
    ensures
        listing_bytes(a) == listing_bytes(b),
    decreases a.len(),
{
    if a.len() > 0 {
        assert(record_body(a[0]) == record_body(b[0]));
        assert(entry_row(a[0]) == entry_row(b[0]));
        assert(a.skip(1).len() == b.skip(1).len());
        assert forall|i: int|
            0 <= i < a.skip(1).len() implies ((#[trigger] a.skip(1)[i]).name@ == b.skip(1)[i].name@
            && a.skip(1)[i].created == b.skip(1)[i].created && a.skip(1)[i].modified == b.skip(
            1,
        )[i].modified) by {
            assert(a.skip(1)[i] == a[i + 1]);
            assert(b.skip(1)[i] == b[i + 1]);
        }
        lemma_listing_bytes_congruent(a.skip(1), b.skip(1));
    }
}

#[verifier::loop_isolation(false)]
fn parse_listing_loose(bytes: &Vec<u8>) -> (r: Vec<LsEntry>)
    ensures
        forall|i: int|
            0 <= i < r@.len() ==> (r@[i].created is Some && r@[i].modified is Some),
        forall|es: Seq<LsEntry>|
            listing_wf(es) && bytes@ == listing_bytes(es) ==> (r@.len() == es.len() && (forall|
                i: int,
            |
                0 <= i < es.len() ==> ((#[trigger] r@[i]).name@ == es[i].name@ && r@[i].created
                    == es[i].created && r@[i].modified == es[i].modified))),
{
    let ghost canl: Option<Seq<LsEntry>> = if exists|es: Seq<LsEntry>|
        listing_wf(es) && bytes@ == listing_bytes(es) {
        Some(choose|es: Seq<LsEntry>| listing_wf(es) && bytes@ == listing_bytes(es))
    } else {
        None
    };
    let ghost es0 = canl->0;
    let n = bytes.len();
    let mut entries: Vec<LsEntry> = Vec::new();
    let mut pos: usize = 0;
    proof {
        if canl is Some {
            assert(bytes@.skip(0) =~= bytes@);
            assert(es0.skip(0) =~= es0);
        }
    }
    while pos < n
        invariant
            pos <= n,
            n == bytes@.len(),
            forall|i: int|
                0 <= i < entries@.len() ==> (entries@[i].created is Some && entries@[i].modified
                    is Some),
            canl is Some ==> (entries@.len() <= es0.len() && bytes@.skip(pos as int)
                == listing_bytes(es0.skip(entries@.len() as int)) && (forall|i: int|
                0 <= i < entries@.len() ==> ((#[trigger] entries@[i]).name@ == es0[i].name@
                    && entries@[i].created == es0[i].created && entries@[i].modified
                    == es0[i].modified))),
        decreases n - pos,
    {
        let ghost kk = entries@.len() as int;
        proof {
            if canl is Some {
                if kk == es0.len() {
                    assert(es0.skip(kk) =~= Seq::<LsEntry>::empty());
                    assert(bytes@.skip(pos as int).len() == 0);
                    assert(false);
                }
                let ek = es0[kk];
                assert(ek.created is Some && ek.modified is Some && byte_free(
                    encode_utf8(ek.name@),
                    33,
                ) && byte_free(encode_utf8(ek.name@), 63));
                lemma_entry_row_parts(ek);
                assert(es0.skip(kk)[0] == ek);
                assert(es0.skip(kk).skip(1) =~= es0.skip(kk + 1));
                let body = record_body(ek);
                let rest = listing_bytes(es0.skip(kk + 1));
                assert(bytes@.skip(pos as int) =~= body + (seq![33u8, 33u8, 33u8] + rest));
                assert forall|k2: int| pos <= k2 < pos + body.len() implies bytes@[k2] != 33 by {
                    assert(bytes@.skip(pos as int)[k2 - pos] == bytes@[k2]);
                    assert(bytes@.skip(pos as int)[k2 - pos] == body[k2 - pos]);
                }
                assert(bytes@.skip(pos as int)[body.len() as int] == 33);
                assert(bytes@.skip(pos as int)[body.len() as int + 1] == 33);
                assert(bytes@.skip(pos as int)[body.len() as int + 2] == 33);
                assert(bytes@[pos + body.len()] == 33);
                assert(bytes@[pos + body.len() + 1] == 33);
                assert(bytes@[pos + body.len() + 2] == 33);
                assert(triple_at(bytes@, pos + body.len(), 33));
            }
        }
        match find_triple(bytes, pos, 33) {
            None => {
                proof {
                    if canl is Some {
                        let body = record_body(es0[kk]);
                        assert(!triple_at(bytes@, pos + body.len(), 33));
                        assert(false);
                    }
                }
                break ;
            },
            Some(j) => {
                proof {
                    if canl is Some {
                        let body = record_body(es0[kk]);
                        if j < pos + body.len() {
                            assert(bytes@[j as int] != 33);
                            assert(false);
                        }
                        if j > pos + body.len() {
                            assert(!triple_at(bytes@, pos + body.len(), 33));
                            assert(false);
                        }
                        assert(j == pos + body.len());
                    }
                }
                let record = copy_range(bytes, pos, j);
                proof {
                    if canl is Some {
                        let body = record_body(es0[kk]);
                        assert(record@ =~= body);
                        assert(record_representable(es0[kk]));
                    }
                }
                if let Some(entry) = parse_record_loose(&record) {
                    entries.push(entry);
                }
                let ghost pos0 = pos as int;
                pos = j + 3;
                proof {
                    if canl is Some {
                        let body = record_body(es0[kk]);
                        let rest = listing_bytes(es0.skip(kk + 1));
                        assert(entries@.len() == kk + 1);
                        assert(bytes@.skip(pos0).len() == body.len() + 3 + rest.len());
                        assert forall|x: int|
                            0 <= x < rest.len() implies bytes@.skip(pos as int)[x] == rest[x] by {
                            assert(bytes@.skip(pos as int)[x] == bytes@[pos0 + body.len() + 3 + x]);
                            assert(bytes@.skip(pos0)[body.len() + 3 + x] == bytes@[pos0 + body.len()
                                + 3 + x]);
                            assert(bytes@.skip(pos0)[body.len() + 3 + x] == (body + (seq![
                                33u8,
                                33u8,
                                33u8,
                            ] + rest))[body.len() + 3 + x]);
                        }
                        assert(bytes@.skip(pos as int).len() == rest.len());
                        assert(bytes@.skip(pos as int) =~= rest);
                        assert forall|i: int|
                            0 <= i < entries@.len() implies ((#[trigger] entries@[i]).name@
                            == es0[i].name@ && entries@[i].created == es0[i].created
                            && entries@[i].modified == es0[i].modified) by {
                            if i < kk {
                            } else {
                                assert(entries@[i] == entries@[kk]);
                            }
                        }
                    }
                }
            },
        }
    }
    proof {
        if canl is Some {
            let kk = entries@.len() as int;
            if kk < es0.len() {
                lemma_entry_row_parts(es0[kk]);
                assert(es0.skip(kk)[0] == es0[kk]);
                assert(listing_bytes(es0.skip(kk)) == entry_row(es0.skip(kk)[0]) + listing_bytes(
                    es0.skip(kk).skip(1),
                ));
                assert(listing_bytes(es0.skip(kk)).len() >= 3);
                assert(bytes@.skip(pos as int).len() == 0);
                assert(false);
            }
            assert(kk == es0.len());
        }
        assert forall|es: Seq<LsEntry>|
            listing_wf(es) && bytes@ == listing_bytes(es) implies (entries@.len() == es.len() && (
        forall|i: int|
            0 <= i < es.len() ==> ((#[trigger] entries@[i]).name@ == es[i].name@
                && entries@[i].created == es[i].created && entries@[i].modified
                == es[i].modified))) by {
            lemma_listing_bytes_injective(es, es0);
        }
    }
    entries
}

proof fn lemma_byte_free_concat(x: Seq<u8>, y: Seq<u8>, b: u8)
    requires
        byte_free(x, b),
        byte_free(y, b),
    ensures
        byte_free(x + y, b),
{
    assert forall|i: int| 0 <= i < (x + y).len() implies (x + y)[i] != b by {
        if i < x.len() {
            assert((x + y)[i] == x[i]);
        } else {
            assert((x + y)[i] == y[i - x.len()]);
        }
    }
}

/// A listing that the wire format can represent faithfully: every record
/// carries both timestamps, and no name's bytes touch the delimiter
/// alphabet (`?`, `!`).
pub open spec fn listing_wf(entries: Seq<LsEntry>) -> bool {
    forall|i: int|
        0 <= i < entries.len() ==> {
            &&& (#[trigger] entries[i]).created is Some
            &&& entries[i].modified is Some
            &&& byte_free(encode_utf8(entries[i].name@), 33)
            &&& byte_free(encode_utf8(entries[i].name@), 63)
        }
}

/// A record the wire format can recover: both timestamps present and a
/// name whose bytes avoid the field delimiter.
spec fn record_representable(e: LsEntry) -> bool {
    e.created is Some && e.modified is Some && byte_free(encode_utf8(e.name@), 63)
}

proof fn lemma_entry_row_parts(e: LsEntry)
    requires
        e.created is Some,
        e.modified is Some,
        byte_free(encode_utf8(e.name@), 33),
    ensures
        entry_row(e) == record_body(e) + seq![33u8, 33u8, 33u8],
        byte_free(record_body(e), 33),
{
    let nb = encode_utf8(e.name@);
    let d1 = dec_i64(e.created->0 as int);
    let d2 = dec_i64(e.modified->0 as int);
    assert(entry_row(e) =~= record_body(e) + seq![33u8, 33u8, 33u8]);
    lemma_dec_i64_digits(e.created->0 as int);
    lemma_dec_i64_digits(e.modified->0 as int);
    assert(byte_free(seq![63u8, 63u8, 63u8], 33));
    assert(byte_free(d1, 33));
    assert(byte_free(d2, 33));
    lemma_byte_free_concat(nb, seq![63u8, 63u8, 63u8], 33);
    lemma_byte_free_concat(nb + seq![63u8, 63u8, 63u8], d1, 33);
    lemma_byte_free_concat(nb + seq![63u8, 63u8, 63u8] + d1, seq![63u8, 63u8, 63u8], 33);
    lemma_byte_free_concat(nb + seq![63u8, 63u8, 63u8] + d1 + seq![63u8, 63u8, 63u8], d2, 33);
    assert(record_body(e) == nb + seq![63u8, 63u8, 63u8] + d1 + seq![63u8, 63u8, 63u8] + d2);
}

proof fn lemma_record_body_injective(e1: LsEntry, e2: LsEntry)
    requires
        record_representable(e1),
        record_representable(e2),
        record_body(e1) == record_body(e2),
    ensures
        e1.name@ == e2.name@,
        e1.created == e2.created,
        e1.modified == e2.modified,
{
    let nb1 = encode_utf8(e1.name@);
    let d11 = dec_i64(e1.created->0 as int);
    let d12 = dec_i64(e1.modified->0 as int);
    let nb2 = encode_utf8(e2.name@);
    let d21 = dec_i64(e2.created->0 as int);
    let d22 = dec_i64(e2.modified->0 as int);
    lemma_dec_i64_digits(e1.created->0 as int);
    lemma_dec_i64_digits(e1.modified->0 as int);
    lemma_dec_i64_digits(e2.created->0 as int);
    lemma_dec_i64_digits(e2.modified->0 as int);
    let tail1 = d11 + seq![63u8, 63u8, 63u8] + d12;
    let tail2 = d21 + seq![63u8, 63u8, 63u8] + d22;
    assert(record_body(e1) =~= nb1 + seq![63u8, 63u8, 63u8] + tail1);
    assert(record_body(e2) =~= nb2 + seq![63u8, 63u8, 63u8] + tail2);
    lemma_sep_split_unique(nb1, tail1, nb2, tail2, 63);
    assert(byte_free(d11, 63));
    assert(byte_free(d21, 63));
    lemma_sep_split_unique(d11, d12, d21, d22, 63);
    vstd::utf8::encode_utf8_decode_utf8(e1.name@);
    vstd::utf8::encode_utf8_decode_utf8(e2.name@);
    lemma_dec_i64_injective(e1.created->0 as int, e2.created->0 as int);
    lemma_dec_i64_injective(e1.modified->0 as int, e2.modified->0 as int);
}

/// Law: the listing encoding is unambiguous. Two listings the wire format
/// can represent faithfully (both timestamps present, names clear of the
/// delimiter alphabet) that encode to the same bytes are the same listing:
/// record for record, the names and both timestamps match. Splitting an
/// encoded listing can therefore recover only the records that were
/// encoded.
pub proof fn lemma_listing_bytes_injective(e1: Seq<LsEntry>, e2: Seq<LsEntry>)
    requires
        listing_wf(e1),
        listing_wf(e2),
        listing_bytes(e1) == listing_bytes(e2),
    ensures
        e1.len() == e2.len(),
        forall|i: int|
            0 <= i < e1.len() ==> ((#[trigger] e1[i]).name@ == e2[i].name@ && e1[i].created
                == e2[i].created && e1[i].modified == e2[i].modified),
    decreases e1.len() + e2.len(),
{
    if e1.len() == 0 && e2.len() == 0 {
    } else if e1.len() == 0 {
        lemma_entry_row_parts(e2[0]);
        assert(listing_bytes(e2).len() >= 3);
    } else if e2.len() == 0 {
        lemma_entry_row_parts(e1[0]);
        assert(listing_bytes(e1).len() >= 3);
    } else {
        lemma_entry_row_parts(e1[0]);
        lemma_entry_row_parts(e2[0]);
        let rest1 = listing_bytes(e1.skip(1));
        let rest2 = listing_bytes(e2.skip(1));
        assert(listing_bytes(e1) =~= record_body(e1[0]) + seq![33u8, 33u8, 33u8] + rest1);
        assert(listing_bytes(e2) =~= record_body(e2[0]) + seq![33u8, 33u8, 33u8] + rest2);
        lemma_sep_split_unique(record_body(e1[0]), rest1, record_body(e2[0]), rest2, 33);
        lemma_record_body_injective(e1[0], e2[0]);
        assert(listing_wf(e1.skip(1))) by {
            assert(forall|i: int|
                0 <= i < e1.skip(1).len() ==> #[trigger] e1.skip(1)[i] == e1[i + 1]);
        }
        assert(listing_wf(e2.skip(1))) by {
            assert(forall|i: int|
                0 <= i < e2.skip(1).len() ==> #[trigger] e2.skip(1)[i] == e2[i + 1]);
        }
        lemma_listing_bytes_injective(e1.skip(1), e2.skip(1));
        assert forall|i: int|
            0 <= i < e1.len() implies ((#[trigger] e1[i]).name@ == e2[i].name@ && e1[i].created
            == e2[i].created && e1[i].modified == e2[i].modified) by {
            if i > 0 {
                assert(e1.skip(1)[i - 1] == e1[i]);
                assert(e2.skip(1)[i - 1] == e2[i]);
            }
        }
    }
}

/// Decodes a flat listing buffer back into records; the host-side
/// counterpart of `prepare_ls_output`, provided so that round trips can be
/// validated.
///
/// The contract makes the round trip exact in both directions. Every
/// accepted parse re-encodes to precisely the input bytes, so nothing can
/// be accepted that the encoder would not have produced; and every buffer
/// that `prepare_ls_output` built from a representable listing (both
/// timestamps present, names clear of the delimiter alphabet) is accepted
/// and yields that listing back, record for record. Anything else is
/// rejected with the typed encoding error.
pub fn decode_listing(bytes: &Vec<u8>) -> (r: Result<Vec<LsEntry>, BoundaryError>)
    ensures
        r matches Ok(es) ==> listing_bytes(es@) == bytes@,
        r matches Ok(es) ==> forall|i: int|
            0 <= i < es@.len() ==> (es@[i].created is Some && es@[i].modified is Some),
        r matches Err(e) ==> e is InvalidEncoding,
        forall|es: Seq<LsEntry>|
            listing_wf(es) && listing_bytes(es) == bytes@ ==> (r matches Ok(out) && out@.len()
                == es.len() && (forall|i: int|
                0 <= i < es.len() ==> ((#[trigger] out@[i]).name@ == es[i].name@ && out@[i].created
                    == es[i].created && out@[i].modified == es[i].modified))),
{
    let entries = parse_listing_loose(bytes);
    let reencoded = prepare_ls_output(&entries);
    let same = eq_bytes(&reencoded, bytes);
    proof {
        assert forall|es: Seq<LsEntry>|
            listing_wf(es) && listing_bytes(es) == bytes@ implies same by {
            lemma_listing_bytes_congruent(entries@, es);
        }
    }
    if same {
        Ok(entries)
    } else {
        Err(BoundaryError::InvalidEncoding)
    }
}

} // verus!
