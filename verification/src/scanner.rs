//! The Ciphertext Scanner: a byte-level search for tagged base64 bodies in
//! raw log-segment files.

use vstd::prelude::*;
use vstd::slice::{slice_subrange, slice_to_vec};
use vstd::string::StrSliceExecFns;

verus! {

/// True when a file name carries one of the two recognized log-segment
/// extensions, `.ldb` or `.log`; the Scanner treats both identically.
pub open spec fn is_segment_file_name(s: Seq<char>) -> bool {
    &&& s.len() >= 4
    &&& s[s.len() - 4] == '.'
    &&& s[s.len() - 3] == 'l'
    &&& ((s[s.len() - 2] == 'd' && s.last() == 'b') || (s[s.len() - 2] == 'o' && s.last() == 'g'))
}

/// Decides whether a directory entry is a log-segment file to scan.
pub fn is_segment_file(name: &str) -> (r: bool)
    ensures
        r == is_segment_file_name(name@),
{
    let n = name.unicode_len();
    if n < 4 {
        return false;
    }
    let dot = name.get_char(n - 4);
    let c1 = name.get_char(n - 3);
    let c2 = name.get_char(n - 2);
    let c3 = name.get_char(n - 1);
    dot == '.' && c1 == 'l' && ((c2 == 'd' && c3 == 'b') || (c2 == 'o' && c3 == 'g'))
}

/// True when the fixed twelve-byte ASCII tag `dQw4w9WgXcQ:` stands in `data`
/// at position `i`.
pub open spec fn tag_at(data: Seq<u8>, i: int) -> bool {
    &&& 0 <= i
    &&& i + 12 <= data.len()
    &&& data[i] == ('d' as u8)
    &&& data[i + 1] == ('Q' as u8)
    &&& data[i + 2] == ('w' as u8)
    &&& data[i + 3] == ('4' as u8)
    &&& data[i + 4] == ('w' as u8)
    &&& data[i + 5] == ('9' as u8)
    &&& data[i + 6] == ('W' as u8)
    &&& data[i + 7] == ('g' as u8)
    &&& data[i + 8] == ('X' as u8)
    &&& data[i + 9] == ('c' as u8)
    &&& data[i + 10] == ('Q' as u8)
    &&& data[i + 11] == (':' as u8)
}

/// A byte of the base64 alphabet that a ciphertext body may use.
pub open spec fn is_b64_byte(b: u8) -> bool {
    ||| ('A' as u8) <= b && b <= ('Z' as u8)
    ||| ('a' as u8) <= b && b <= ('z' as u8)
    ||| ('0' as u8) <= b && b <= ('9' as u8)
    ||| b == ('+' as u8)
    ||| b == ('/' as u8)
    ||| b == ('=' as u8)
}

/// Length of the maximal run of base64-alphabet bytes starting at `j`.
pub open spec fn b64_run_len(data: Seq<u8>, j: int) -> nat
    decreases data.len() - j,
{
    if j < 0 || j >= data.len() || !is_b64_byte(data[j]) {
        0
    } else {
        1 + b64_run_len(data, j + 1)
    }
}

/// The base64 body immediately following a tag occurrence at `i`: the maximal
/// run of base64-alphabet bytes starting right after the tag.
pub open spec fn candidate_body(data: Seq<u8>, i: int) -> Seq<u8> {
    data.subrange(i + 12, i + 12 + b64_run_len(data, i + 12))
}

/// The ciphertext candidates found at positions `i` and beyond: one base64
/// body for every occurrence of the tag followed by at least one
/// base64-alphabet byte, in order of occurrence. Occurrences are counted even
/// when they start inside an earlier occurrence's body.
pub open spec fn candidates_from(data: Seq<u8>, i: int) -> Seq<Seq<u8>>
    decreases data.len() - i,
{
    if i < 0 || i + 12 > data.len() {
        Seq::empty()
    } else if tag_at(data, i) && b64_run_len(data, i + 12) > 0 {
        seq![candidate_body(data, i)] + candidates_from(data, i + 1)
    } else {
        candidates_from(data, i + 1)
    }
}

/// Every base64 ciphertext candidate in `data`, in discovery order.
pub open spec fn candidates_of(data: Seq<u8>) -> Seq<Seq<u8>> {
    candidates_from(data, 0)
}

/// Membership in the candidate list, characterized position by position.
proof fn lemma_candidates_from_membership(data: Seq<u8>, k: int, b: Seq<u8>)
    requires
        k >= 0,
    ensures
        candidates_from(data, k).contains(b) <==> exists|i: int|
            i >= k && tag_at(data, i) && b64_run_len(data, i + 12) > 0 && b == candidate_body(
                data,
                i,
            ),
    decreases data.len() - k,
{
    broadcast use vstd::seq_lib::group_seq_properties;

    if k + 12 > data.len() {
        assert(candidates_from(data, k) =~= Seq::<Seq<u8>>::empty());
        assert(!candidates_from(data, k).contains(b));
        assert(forall|i: int| i >= k ==> !tag_at(data, i));
    } else {
        lemma_candidates_from_membership(data, k + 1, b);
        if tag_at(data, k) && b64_run_len(data, k + 12) > 0 {
            let head = seq![candidate_body(data, k)];
            assert(head[0] == candidate_body(data, k));
            assert(head.contains(b) <==> b == candidate_body(data, k));
            assert(candidates_from(data, k) == head + candidates_from(data, k + 1));
            if b == candidate_body(data, k) {
                assert(k >= k && tag_at(data, k) && b64_run_len(data, k + 12) > 0 && b
                    == candidate_body(data, k));
            }
        } else {
            assert(candidates_from(data, k) == candidates_from(data, k + 1));
            assert(forall|i: int|
                i >= k && tag_at(data, i) && b64_run_len(data, i + 12) > 0 ==> i >= k + 1);
        }
    }
}

/// The Ciphertext Scanner's exactness law: a base64 body is reported if and
/// only if it is the maximal non-empty base64 run immediately following some
/// occurrence of the tag — every occurrence counts, wherever it starts.
pub proof fn lemma_scanner_exactness(data: Seq<u8>, b: Seq<u8>)
    ensures
        candidates_of(data).contains(b) <==> exists|i: int|
            tag_at(data, i) && b64_run_len(data, i + 12) > 0 && b == candidate_body(data, i),
{
    lemma_candidates_from_membership(data, 0, b);
    assert(forall|i: int| tag_at(data, i) ==> i >= 0);
}

/// True when the tag stands at position `i` of `data`.
fn tag_matches_at(data: &[u8], i: usize) -> (r: bool)
    requires
        i + 12 <= data@.len(),
    ensures
        r == tag_at(data@, i as int),
{
    data[i] == ('d' as u8) && data[i + 1] == ('Q' as u8) && data[i + 2] == ('w' as u8) && data[i + 3] == ('4' as u8)
        && data[i + 4] == ('w' as u8) && data[i + 5] == ('9' as u8) && data[i + 6] == ('W' as u8)
        && data[i + 7] == ('g' as u8) && data[i + 8] == ('X' as u8) && data[i + 9] == ('c' as u8)
        && data[i + 10] == ('Q' as u8) && data[i + 11] == (':' as u8)
}

/// True when `b` belongs to the base64 alphabet.
fn is_b64_byte_exec(b: u8) -> (r: bool)
    ensures
        r == is_b64_byte(b),
{
    (('A' as u8) <= b && b <= ('Z' as u8)) || (('a' as u8) <= b && b <= ('z' as u8)) || (('0' as u8) <= b && b <= ('9' as u8)) || b == ('+' as u8)
        || b == ('/' as u8) || b == ('=' as u8)
}

/// The Ciphertext Scanner: extracts from a raw log-segment byte buffer every
/// base64 body that immediately follows an occurrence of the fixed tag.
pub fn find_candidates(data: &[u8]) -> (r: Vec<Vec<u8>>)
    ensures
        r.deep_view() == candidates_of(data@),
{
    let n = data.len();
    let mut res: Vec<Vec<u8>> = Vec::new();
    if n < 12 {
        assert(candidates_of(data@) =~= Seq::<Seq<u8>>::empty());
        assert(res.deep_view() =~= Seq::<Seq<u8>>::empty());
        return res;
    }
    let mut i: usize = 0;
    assert(res.deep_view() + candidates_from(data@, 0) =~= candidates_of(data@));
    while i <= n - 12
        invariant
            n == data@.len(),
            12 <= n,
            i <= n - 11,
            res.deep_view() + candidates_from(data@, i as int) =~= candidates_of(data@),
        decreases n - i,
    {
        if tag_matches_at(data, i) {
            // Measure the base64 run that follows the tag.
            let mut j: usize = i + 12;
            while j < n && is_b64_byte_exec(data[j])
                invariant
                    n == data@.len(),
                    i + 12 <= j <= n,
                    b64_run_len(data@, i as int + 12) == j - i - 12 + b64_run_len(
                        data@,
                        j as int,
                    ),
                decreases n - j,
            {
                assert(b64_run_len(data@, j as int) == 1 + b64_run_len(data@, j as int + 1));
                j = j + 1;
            }
            assert(b64_run_len(data@, j as int) == 0);
            assert(b64_run_len(data@, i as int + 12) == j - i - 12);
            if j > i + 12 {
                let body = slice_to_vec(slice_subrange(data, i + 12, j));
                assert(body@ =~= candidate_body(data@, i as int));
                let ghost old_res = res.deep_view();
                res.push(body);
                proof {
                    assert(res.deep_view() =~~= old_res.push(body@));
                    assert(candidates_from(data@, i as int) =~= seq![
                        candidate_body(data@, i as int),
                    ] + candidates_from(data@, i as int + 1));
                    assert(res.deep_view() + candidates_from(data@, i as int + 1)
                        =~= old_res + candidates_from(data@, i as int));
                }
            } else {
                assert(candidates_from(data@, i as int) =~= candidates_from(data@, i as int + 1));
            }
        } else {
            assert(candidates_from(data@, i as int) =~= candidates_from(data@, i as int + 1));
        }
        i = i + 1;
    }
    assert(candidates_from(data@, i as int) =~= Seq::<Seq<u8>>::empty());
    assert(res.deep_view() =~= candidates_of(data@));
    res
}

} // verus!
